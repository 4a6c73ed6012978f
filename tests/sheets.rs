use lopdf::content::{Content, Operation};
use lopdf::{Dictionary, Document, Object, Stream};
use weekly_progress::markers::count_tasks_assigned;
use weekly_progress::pdf::convert_to_text;

fn page_with_text(doc: &mut Document, pages_id: (u32, u16), text: &str) -> Object {
    let content = Content {
        operations: vec![
            Operation::new("BT", vec![]),
            Operation::new("Tf", vec!["F1".into(), 24.into()]),
            Operation::new("Td", vec![100.into(), 600.into()]),
            Operation::new("Tj", vec![Object::string_literal(text)]),
            Operation::new("ET", vec![]),
        ],
    };
    let content_id = doc.add_object(Stream::new(Dictionary::new(), content.encode().unwrap()));
    let mut page = Dictionary::new();
    page.set("Type", "Page");
    page.set("Parent", pages_id);
    page.set("Contents", content_id);
    doc.add_object(page).into()
}

fn pdf_with_pages(texts: &[&str]) -> Vec<u8> {
    let mut doc = Document::with_version("1.5");
    let pages_id = doc.new_object_id();
    let mut font = Dictionary::new();
    font.set("Type", "Font");
    font.set("Subtype", "Type1");
    font.set("BaseFont", "Courier");
    let font_id = doc.add_object(font);
    let mut fonts = Dictionary::new();
    fonts.set("F1", font_id);
    let mut resources = Dictionary::new();
    resources.set("Font", fonts);
    let resources_id = doc.add_object(resources);
    let kids: Vec<Object> = texts.iter().map(|t| page_with_text(&mut doc, pages_id, t)).collect();
    let mut pages = Dictionary::new();
    pages.set("Type", "Pages");
    pages.set("Count", texts.len() as i64);
    pages.set("Kids", kids);
    pages.set("Resources", resources_id);
    pages.set("MediaBox", vec![0.into(), 0.into(), 595.into(), 842.into()]);
    doc.objects.insert(pages_id, Object::Dictionary(pages));
    let mut catalog = Dictionary::new();
    catalog.set("Type", "Catalog");
    catalog.set("Pages", pages_id);
    let catalog_id = doc.add_object(catalog);
    doc.trailer.set("Root", catalog_id);
    let mut bytes: Vec<u8> = Vec::new();
    doc.save_to(&mut bytes).unwrap();
    bytes
}

fn page_texts(bytes: &[u8]) -> Option<Vec<Option<String>>> {
    let doc = Document::load_mem(bytes).ok()?;
    let count = doc.page_iter().count();
    Some((1..=count).map(|page| doc.extract_text(&[page as u32]).ok()).collect())
}

#[test]
fn pdf_pages_are_read_in_order() {
    let bytes = pdf_with_pages(&["Aufgabe 1", "Aufgabe 2"]);
    let pages = page_texts(&bytes);
    assert_eq!(pages.as_ref().map(|p| p.len()), Some(2));
    let text = convert_to_text(pages.as_ref(), &bytes);
    let first = text.find("Aufgabe 1").unwrap();
    let second = text.find("Aufgabe 2").unwrap();
    assert!(first < second);
    assert_eq!(count_tasks_assigned(&text, &vec!["aufgabe".to_string()]), Some(2));
}

#[test]
fn plain_text_sheet_gives_its_text() {
    let text = "Aufgabe 1\nAufgabe 2\n";
    assert_eq!(page_texts(text.as_bytes()), None);
    assert_eq!(convert_to_text(None, text.as_bytes()), text);
    assert_eq!(convert_to_text(None, b"not a pdf at all"), "not a pdf at all");
}

#[test]
fn unreadable_sheet_gives_no_text() {
    assert_eq!(convert_to_text(None, &[0xff, 0xfe, 0x00, 0x80]), "");
    assert_eq!(convert_to_text(None, &[]), "");
}

#[test]
fn same_bytes_same_text() {
    let bytes = pdf_with_pages(&["Exercise 1"]);
    let pages = page_texts(&bytes);
    assert_eq!(convert_to_text(pages.as_ref(), &bytes), convert_to_text(pages.as_ref(), &bytes));
}

#[test]
fn pdf_with_a_failed_page_gives_no_text() {
    let pages = vec![Some("Aufgabe 1".to_string()), None];
    assert_eq!(convert_to_text(Some(&pages), b"%PDF-1.5"), "");
    let pages = vec![Some("Aufgabe 1".to_string()), Some("Aufgabe 2".to_string())];
    assert_eq!(convert_to_text(Some(&pages), b"%PDF-1.5"), "Aufgabe 1Aufgabe 2");
}
