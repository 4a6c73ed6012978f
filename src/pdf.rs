//! The text of a task sheet: a PDF document's pages, or plain text.
//!
//! The pages' texts come from lopdf, which the caller runs: its text
//! extraction sizes a collection from the page counts that a document
//! declares, so a crafted document can make it panic.

use vstd::prelude::*;
use vstd::string::StringExecFns;
use vstd::utf8::{decode_utf8, valid_utf8};

verus! {

/// Relies on `std::str::from_utf8` to read `bytes` as UTF-8 text; `None`
/// where they are not valid UTF-8.
#[verifier::external_body]
fn utf8_text(bytes: &[u8]) -> (r: Option<String>)
    ensures
        r is Some <==> valid_utf8(bytes@),
        r matches Some(s) ==> s@ == decode_utf8(bytes@),
{
    std::str::from_utf8(bytes).ok().map(|s| s.to_string())
}

/// The characters of each page's text, `None` for a page that gave none.
pub open spec fn page_views(pages: Seq<Option<String>>) -> Seq<Option<Seq<char>>> {
    pages.map_values(
        |p: Option<String>|
            match p {
                None => None,
                Some(t) => Some(t@),
            },
    )
}

/// The texts of `pages` one after the other, with nothing between them.
pub open spec fn concat_pages(pages: Seq<Option<Seq<char>>>) -> Seq<char>
    decreases pages.len(),
{
    if pages.len() == 0 {
        Seq::empty()
    } else {
        concat_pages(pages.drop_last()) + match pages.last() {
            None => Seq::empty(),
            Some(t) => t,
        }
    }
}

/// The text of a document whose pages gave `pages`: all of them joined, or
/// nothing where a page failed.
pub open spec fn document_text(pages: Seq<Option<Seq<char>>>) -> Seq<char> {
    if forall|i: int| 0 <= i < pages.len() ==> (#[trigger] pages[i]) is Some {
        concat_pages(pages)
    } else {
        Seq::empty()
    }
}

/// Joins the texts of a document's pages in order; where any page gave no
/// text the whole document counts as unreadable and the result is empty.
pub fn join_pages(pages: &Vec<Option<String>>) -> (r: String)
    ensures
        r@ == document_text(page_views(pages@)),
{
    let ghost ps = page_views(pages@);
    let mut text: String = String::new();
    let mut i: usize = 0;
    while i < pages.len()
        invariant
            i <= pages.len(),
            ps == page_views(pages@),
            forall|k: int| 0 <= k < i ==> (#[trigger] ps[k]) is Some,
            text@ == concat_pages(ps.take(i as int)),
        decreases pages.len() - i,
    {
        proof {
            assert(ps.take(i + 1).drop_last() =~= ps.take(i as int));
        }
        match &pages[i] {
            None => {
                assert(!(ps[i as int] is Some));
                return String::new();
            },
            Some(t) => {
                text.append(t.as_str());
            },
        }
        i = i + 1;
    }
    assert(ps.take(i as int) =~= ps);
    text
}

/// The text of a task sheet held in `bytes`, whose pages gave the texts
/// `pdf_pages` where it is a PDF document: those texts joined, or nothing
/// where a page failed. A sheet that is not a PDF document gives its own
/// text where it is UTF-8 plain text, and nothing where it is not.
pub open spec fn sheet_text(pdf_pages: Option<Seq<Option<Seq<char>>>>, bytes: Seq<u8>) -> Seq<char> {
    match pdf_pages {
        Some(pages) => document_text(pages),
        None => if valid_utf8(bytes) {
            decode_utf8(bytes)
        } else {
            Seq::empty()
        },
    }
}

/// The visible text of the task sheet held in `bytes`. Where the sheet is
/// a PDF document, `pdf_pages` holds the text of each of its pages (`None`
/// for a page whose text could not be extracted), and the result is their
/// texts joined in order with no break between them, or the empty text
/// where a page failed. Otherwise (`pdf_pages` is `None`) a plain-text sheet
/// gives its own text and anything else gives the empty text.
pub fn convert_to_text(pdf_pages: Option<&Vec<Option<String>>>, bytes: &[u8]) -> (r: String)
    ensures
        r@ == sheet_text(
            match pdf_pages {
                None => None,
                Some(ps) => Some(page_views(ps@)),
            },
            bytes@,
        ),
        pdf_pages is None && !valid_utf8(bytes@) ==> r@.len() == 0,
{
    match pdf_pages {
        Some(pages) => join_pages(pages),
        None => match utf8_text(bytes) {
            None => String::new(),
            Some(t) => t,
        },
    }
}

} // verus!
