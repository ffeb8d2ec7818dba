use lopdf::content::{Content, Operation};
use lopdf::{Dictionary, Document, Object, Stream};
use pdf_city_names::document::{extract_pages, read_document};
use pdf_city_names::pipeline::{collect_records, PageContent};
use pdf_city_names::suffix::municipality_suffixes;

fn name(s: &str) -> Object {
    Object::Name(s.as_bytes().to_vec())
}

fn text_page(doc: &mut Document, pages_id: lopdf::ObjectId, lines: &[String]) -> lopdf::ObjectId {
    let mut ops = Vec::new();
    for line in lines {
        ops.push(Operation::new("BT", vec![]));
        ops.push(Operation::new("Tf", vec![name("F1"), Object::Integer(12)]));
        ops.push(Operation::new("Tj", vec![Object::string_literal(line.as_str())]));
        ops.push(Operation::new("ET", vec![]));
    }
    let content = Content { operations: ops };
    let content_id = doc.add_object(Stream::new(Dictionary::new(), content.encode().unwrap()));
    let mut page = Dictionary::new();
    page.set("Type", name("Page"));
    page.set("Parent", pages_id);
    page.set("Contents", content_id);
    doc.add_object(page)
}

fn build(pages_text: &[Vec<String>]) -> Document {
    let mut doc = Document::with_version("1.5");
    let pages_id = doc.new_object_id();
    let mut font = Dictionary::new();
    font.set("Type", name("Font"));
    font.set("Subtype", name("Type1"));
    font.set("BaseFont", name("Courier"));
    let font_id = doc.add_object(font);
    let mut fonts = Dictionary::new();
    fonts.set("F1", font_id);
    let mut resources = Dictionary::new();
    resources.set("Font", fonts);
    let resources_id = doc.add_object(resources);
    let kids: Vec<Object> = pages_text
        .iter()
        .map(|lines| Object::Reference(text_page(&mut doc, pages_id, lines)))
        .collect();
    let mut pages = Dictionary::new();
    pages.set("Type", name("Pages"));
    pages.set("Kids", kids);
    pages.set("Count", Object::Integer(pages_text.len() as i64));
    pages.set("Resources", resources_id);
    doc.objects.insert(pages_id, Object::Dictionary(pages));
    let mut catalog = Dictionary::new();
    catalog.set("Type", name("Catalog"));
    catalog.set("Pages", pages_id);
    let catalog_id = doc.add_object(catalog);
    doc.trailer.set("Root", catalog_id);
    doc
}

fn strs(items: &[&str]) -> Vec<String> {
    items.iter().map(|s| s.to_string()).collect()
}

fn record(local: &str, foreign: &str, label: &str) -> Vec<String> {
    strs(&["a", "b", local, "c", foreign, "d", "e", label])
}

#[test]
fn extract_pages_reads_each_page_in_order() {
    let doc = build(&[strs(&["Hello"]), strs(&["World"]), strs(&["Again"])]);
    let read = read_document(&doc, 1);
    assert_eq!(read.numbers, vec![1, 2, 3]);
    let pages = read.pages;
    let numbers: Vec<u32> = pages.iter().map(|p| p.number).collect();
    assert_eq!(numbers, vec![1, 2, 3]);
    match &pages[1].content {
        PageContent::Text(t) => assert!(t.contains("World")),
        PageContent::Failed(e) => panic!("page failed: {}", e),
    }
}

#[test]
fn extract_pages_skips_pages_before_start() {
    let doc = build(&[strs(&["Hello"]), strs(&["World"]), strs(&["Again"])]);
    let read = read_document(&doc, 2);
    assert_eq!(read.numbers, vec![1, 2, 3]);
    let numbers: Vec<u32> = read.pages.iter().map(|p| p.number).collect();
    assert_eq!(numbers, vec![2, 3]);
    assert!(read_document(&doc, 4).pages.is_empty());
}

#[test]
fn extract_pages_of_empty_document() {
    let read = read_document(&Document::new(), 1);
    assert!(read.numbers.is_empty());
    assert!(read.pages.is_empty());
}

#[test]
fn extract_pages_reads_exactly_the_listed_pages_from_start() {
    let doc = build(&[strs(&["Hello"]), strs(&["World"]), strs(&["Again"])]);
    let pages = extract_pages(&doc, &vec![1, 3], 2);
    assert_eq!(pages.len(), 1);
    assert_eq!(pages[0].number, 3);
    match &pages[0].content {
        PageContent::Text(t) => assert!(t.contains("Again")),
        PageContent::Failed(e) => panic!("page failed: {}", e),
    }
    let missing = extract_pages(&doc, &vec![7], 1);
    assert_eq!(missing.len(), 1);
    assert!(matches!(missing[0].content, PageContent::Failed(_)));
}

#[test]
fn records_from_a_built_document() {
    let mut page1 = record("Sapporo", "Sapporo City", "Municipality");
    page1.extend(record("Ashi", "Lake Ashi", "Lake"));
    let page2 = record("Sendai", "Sendai City", "Populated Area");
    let doc = build(&[page1, page2]);
    let pages = read_document(&doc, 1).pages;
    let records = collect_records(&pages, 1, true, &municipality_suffixes());
    let names: Vec<(String, String)> = records
        .iter()
        .map(|r| (r.local_name.clone(), r.foreign_name.clone()))
        .collect();
    assert_eq!(
        names,
        vec![
            ("Sapporo".to_string(), "Sapporo".to_string()),
            ("Sendai".to_string(), "Sendai".to_string()),
        ]
    );
}
