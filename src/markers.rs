//! Counting the markers that stand for assigned tasks in a task sheet and
//! for completed exercises in a solution document.

use vstd::prelude::*;
use crate::text::{
    as_usize, chars_of, contains, contains_chars, count_occurrences, lowercase, lowered, occurrences,
    ascii_lower, is_ascii_text, is_white_space, strip_whitespace, without_whitespace,
};

verus! {

/// The characters of each string in `v`.
pub open spec fn views_of(v: Seq<String>) -> Seq<Seq<char>> {
    v.map_values(|s: String| s@)
}

/// The occurrences in `t` of all markers, summed over the markers.
pub open spec fn marker_total(t: Seq<char>, markers: Seq<Seq<char>>) -> nat
    decreases markers.len(),
{
    if markers.len() == 0 {
        0
    } else {
        marker_total(t, markers.drop_last()) + occurrences(t, markers.last())
    }
}

/// The text on which task markers are counted: `text` without whitespace,
/// in lower case.
pub open spec fn normalized(text: Seq<char>) -> Seq<char> {
    lowered(without_whitespace(text))
}

/// The number of tasks that a task sheet with text `text` assigns.
pub open spec fn task_count(text: Seq<char>, markers: Seq<Seq<char>>) -> nat {
    marker_total(normalized(text), markers)
}

/// The number of lines of `lines` that hold `marker`.
pub open spec fn solution_count(lines: Seq<Seq<char>>, marker: Seq<char>) -> nat
    decreases lines.len(),
{
    if lines.len() == 0 {
        0
    } else {
        solution_count(lines.drop_last(), marker) + if contains(lines.last(), marker) {
            1nat
        } else {
            0nat
        }
    }
}

proof fn lemma_marker_total_prefix(t: Seq<char>, ms: Seq<Seq<char>>, k: int)
    requires
        0 <= k <= ms.len(),
    ensures
        marker_total(t, ms.take(k)) <= marker_total(t, ms),
    decreases ms.len(),
{
    if k < ms.len() {
        assert(ms.drop_last().take(k) =~= ms.take(k));
        lemma_marker_total_prefix(t, ms.drop_last(), k);
    } else {
        assert(ms.take(k) =~= ms);
    }
}

/// Sums, over `markers`, the non-overlapping occurrences of each in `t`;
/// `None` where the sum does not fit in `usize`.
pub fn count_markers(t: &Vec<char>, markers: &Vec<String>) -> (r: Option<usize>)
    ensures
        r == as_usize(marker_total(t@, views_of(markers@))),
{
    let ghost ms = views_of(markers@);
    let mut total: usize = 0;
    let mut i: usize = 0;
    while i < markers.len()
        invariant
            i <= markers.len(),
            ms == views_of(markers@),
            total == marker_total(t@, ms.take(i as int)),
        decreases markers.len() - i,
    {
        let m: Vec<char> = chars_of(markers[i].as_str());
        proof {
            assert(ms.take(i + 1).drop_last() =~= ms.take(i as int));
            assert(ms.take(i + 1).last() == m@);
            lemma_marker_total_prefix(t@, ms, i + 1);
        }
        match count_occurrences(t, &m) {
            None => {
                return None;
            },
            Some(c) => match total.checked_add(c) {
                None => {
                    return None;
                },
                Some(sum) => {
                    total = sum;
                },
            },
        }
        i = i + 1;
    }
    assert(ms.take(i as int) =~= ms);
    Some(total)
}

/// Counts the tasks that a task sheet assigns: its text is stripped of
/// whitespace and lowered, then the occurrences of every marker are summed.
/// `None` where the count does not fit in `usize`.
pub fn count_tasks_assigned(text: &str, markers: &Vec<String>) -> (r: Option<usize>)
    ensures
        r == as_usize(task_count(text@, views_of(markers@))),
{
    let chars: Vec<char> = chars_of(text);
    let stripped: Vec<char> = strip_whitespace(&chars);
    let lowered: Vec<char> = lowercase(&stripped);
    count_markers(&lowered, markers)
}

/// Counts the lines of a solution document that hold `marker`: one for each
/// exercise that has been written up.
pub fn count_exercises_completed(lines: &Vec<String>, marker: &str) -> (r: usize)
    ensures
        r == solution_count(views_of(lines@), marker@),
{
    let ghost ls = views_of(lines@);
    let m: Vec<char> = chars_of(marker);
    let mut count: usize = 0;
    let mut i: usize = 0;
    while i < lines.len()
        invariant
            i <= lines.len(),
            ls == views_of(lines@),
            m@ == marker@,
            count <= i,
            count == solution_count(ls.take(i as int), marker@),
        decreases lines.len() - i,
    {
        let line: Vec<char> = chars_of(lines[i].as_str());
        proof {
            assert(ls.take(i + 1).drop_last() =~= ls.take(i as int));
            assert(ls.take(i + 1).last() == line@);
        }
        if contains_chars(&line, &m) {
            count = count + 1;
        }
        i = i + 1;
    }
    assert(ls.take(i as int) =~= ls);
    count
}

/// Counting the completed exercises of two documents, one after the other,
/// gives the sum of the counts of each: no marker spans the boundary.
pub proof fn lemma_solution_count_additive(
    a: Seq<Seq<char>>,
    b: Seq<Seq<char>>,
    marker: Seq<char>,
)
    ensures
        solution_count(a + b, marker) == solution_count(a, marker) + solution_count(b, marker),
    decreases b.len(),
{
    if b.len() == 0 {
        assert(a + b =~= a);
    } else {
        lemma_solution_count_additive(a, b.drop_last(), marker);
        assert((a + b).drop_last() =~= a + b.drop_last());
        assert((a + b).last() == b.last());
    }
}

/// The lines of a solution document may come in any order: two documents
/// with the same lines, each as often, count the same.
pub proof fn lemma_solution_count_ignores_order(
    a: Seq<Seq<char>>,
    b: Seq<Seq<char>>,
    marker: Seq<char>,
)
    requires
        a.to_multiset() == b.to_multiset(),
    ensures
        solution_count(a, marker) == solution_count(b, marker),
    decreases a.len(),
{
    broadcast use vstd::seq_lib::group_to_multiset_ensures;

    if a.len() == 0 {
        assert(b.len() == b.to_multiset().len());
        assert(b.len() == 0);
    } else {
        let x = a.last();
        let rest = a.drop_last();
        assert(rest.push(x) =~= a);
        assert(a.to_multiset().count(x) > 0);
        assert(b.contains(x));
        let j = choose|j: int| 0 <= j < b.len() && b[j] == x;
        assert(b.remove(j).to_multiset() =~= rest.to_multiset());
        lemma_solution_count_ignores_order(rest, b.remove(j), marker);
        let front = b.subrange(0, j);
        let back = b.subrange(j + 1, b.len() as int);
        assert(b.remove(j) =~= front + back);
        assert(b =~= front + seq![x] + back);
        lemma_solution_count_additive(front, back, marker);
        lemma_solution_count_additive(front + seq![x], back, marker);
        lemma_solution_count_additive(front, seq![x], marker);
        assert(seq![x].drop_last() =~= Seq::<Seq<char>>::empty());
        assert(seq![x].last() == x);
        let one: nat = if contains(x, marker) { 1 } else { 0 };
        assert(solution_count(Seq::<Seq<char>>::empty(), marker) == 0);
        assert(solution_count(seq![x], marker) == one);
        assert(solution_count(a, marker) == solution_count(rest, marker) + one);
        assert(solution_count(b, marker) == solution_count(front, marker) + one + solution_count(back, marker));
    }
}

proof fn lemma_without_whitespace_concat(a: Seq<char>, b: Seq<char>)
    ensures
        without_whitespace(a + b) == without_whitespace(a) + without_whitespace(b),
    decreases b.len(),
{
    if b.len() == 0 {
        assert(a + b =~= a);
        assert(without_whitespace(a) + without_whitespace(b) =~= without_whitespace(a));
    } else {
        lemma_without_whitespace_concat(a, b.drop_last());
        assert((a + b).drop_last() =~= a + b.drop_last());
        assert((a + b).last() == b.last());
        let wa = without_whitespace(a);
        let wb = without_whitespace(b.drop_last());
        assert((wa + wb).push(b.last()) =~= wa + wb.push(b.last()));
    }
}

proof fn lemma_without_whitespace_all_space(w: Seq<char>)
    requires
        forall|i: int| 0 <= i < w.len() ==> is_white_space(#[trigger] w[i]),
    ensures
        without_whitespace(w) == Seq::<char>::empty(),
    decreases w.len(),
{
    if w.len() > 0 {
        lemma_without_whitespace_all_space(w.drop_last());
    }
}

/// Whitespace put anywhere into a task sheet's text does not change the
/// number of tasks counted in it.
pub proof fn lemma_task_count_ignores_whitespace(
    a: Seq<char>,
    w: Seq<char>,
    b: Seq<char>,
    markers: Seq<Seq<char>>,
)
    requires
        forall|i: int| 0 <= i < w.len() ==> is_white_space(#[trigger] w[i]),
    ensures
        task_count(a + w + b, markers) == task_count(a + b, markers),
{
    lemma_without_whitespace_concat(a + w, b);
    lemma_without_whitespace_concat(a, w);
    lemma_without_whitespace_concat(a, b);
    lemma_without_whitespace_all_space(w);
    assert(without_whitespace(a) + Seq::<char>::empty() =~= without_whitespace(a));
}

/// Whether the ASCII texts `a` and `b` differ at most in the case of their
/// letters.
pub open spec fn same_but_ascii_case(a: Seq<char>, b: Seq<char>) -> bool {
    &&& a.len() == b.len()
    &&& is_ascii_text(a)
    &&& is_ascii_text(b)
    &&& forall|i: int| 0 <= i < a.len() ==> ascii_lower(#[trigger] a[i]) == ascii_lower(b[i])
}

proof fn lemma_without_whitespace_keeps_case_match(a: Seq<char>, b: Seq<char>)
    requires
        same_but_ascii_case(a, b),
    ensures
        same_but_ascii_case(without_whitespace(a), without_whitespace(b)),
    decreases a.len(),
{
    if a.len() > 0 {
        let (ra, rb) = (a.drop_last(), b.drop_last());
        assert(ascii_lower(a[a.len() - 1]) == ascii_lower(b[b.len() - 1]));
        assert((a.last() as u32) < 128);
        assert((b.last() as u32) < 128);
        assert forall|i: int| 0 <= i < ra.len() implies ascii_lower(#[trigger] ra[i]) == ascii_lower(
            rb[i],
        ) by {
            assert(ascii_lower(a[i]) == ascii_lower(b[i]));
        }
        assert forall|i: int| 0 <= i < ra.len() implies (#[trigger] ra[i] as u32) < 128 by {
            assert((a[i] as u32) < 128);
        }
        assert forall|i: int| 0 <= i < rb.len() implies (#[trigger] rb[i] as u32) < 128 by {
            assert((b[i] as u32) < 128);
        }
        lemma_without_whitespace_keeps_case_match(ra, rb);
        assert(is_white_space(a.last()) == is_white_space(b.last()));
        let (wa, wb) = (without_whitespace(ra), without_whitespace(rb));
        if !is_white_space(a.last()) {
            assert forall|i: int| 0 <= i < wa.len() + 1 implies (#[trigger] wa.push(a.last())[i] as u32)
                < 128 by {
                if i < wa.len() {
                    assert((wa[i] as u32) < 128);
                }
            }
            assert forall|i: int| 0 <= i < wb.len() + 1 implies (#[trigger] wb.push(b.last())[i] as u32)
                < 128 by {
                if i < wb.len() {
                    assert((wb[i] as u32) < 128);
                }
            }
            assert forall|i: int| 0 <= i < wa.len() + 1 implies ascii_lower(
                #[trigger] wa.push(a.last())[i],
            ) == ascii_lower(wb.push(b.last())[i]) by {
                if i < wa.len() {
                    assert(ascii_lower(wa[i]) == ascii_lower(wb[i]));
                }
            }
        }
    }
}

/// ASCII task sheets that differ only in the case of their letters count
/// the same number of tasks.
pub proof fn lemma_task_count_ignores_ascii_case(
    t1: Seq<char>,
    t2: Seq<char>,
    markers: Seq<Seq<char>>,
)
    requires
        same_but_ascii_case(t1, t2),
    ensures
        task_count(t1, markers) == task_count(t2, markers),
{
    lemma_without_whitespace_keeps_case_match(t1, t2);
    let (w1, w2) = (without_whitespace(t1), without_whitespace(t2));
    assert(w1.map_values(|c: char| ascii_lower(c)) =~= w2.map_values(|c: char| ascii_lower(c)));
}

} // verus!
