//! Reading the text of a PDF document's pages through lopdf.

use vstd::prelude::*;
use crate::pipeline::{PageContent, PageText};

verus! {

#[verifier::external_type_specification]
#[verifier::external_body]
pub struct ExDocument(lopdf::Document);

#[verifier::external_type_specification]
#[verifier::external_body]
pub struct ExPdfError(lopdf::Error);

/// Relies on lopdf's `Document::get_pages`: a `BTreeMap` keyed by page number,
/// whose keys std walks in ascending order, each once.
#[verifier::external_body]
fn page_numbers(doc: &lopdf::Document) -> (r: Vec<u32>)
    ensures
        forall|i: int, j: int| 0 <= i < j < r@.len() ==> r@[i] < r@[j],
{
    doc.get_pages().keys().copied().collect()
}

/// Relies on lopdf's `Document::extract_text`, asked for a single page: its
/// text, or the error met while decoding it.
#[verifier::external_body]
fn extract_page_text(doc: &lopdf::Document, page: u32) -> (r: Result<String, lopdf::Error>) {
    doc.extract_text(&[page])
}

/// The page numbers of `numbers` that are `start_page` or later, in order.
pub open spec fn selected_pages(numbers: Seq<u32>, start_page: u32) -> Seq<u32> {
    numbers.filter(|n: u32| n >= start_page)
}

/// The page numbers of a sequence of extracted pages.
pub open spec fn page_numbers_of(pages: Seq<PageText>) -> Seq<u32> {
    pages.map_values(|p: PageText| p.number)
}

/// Extracts, in the order of `numbers`, each page of `doc` listed there that is
/// numbered `start_page` or later, each once, with its text or the reason it
/// failed; the pages before `start_page` are not read at all.
pub fn extract_pages(
    doc: &lopdf::Document,
    numbers: &Vec<u32>,
    start_page: u32,
) -> (r: Vec<PageText>)
    ensures
        page_numbers_of(r@) == selected_pages(numbers@, start_page),
{
    let mut out: Vec<PageText> = Vec::new();
    let mut i: usize = 0;
    proof {
        reveal(Seq::filter);
        assert(numbers@.subrange(0, 0) =~= Seq::<u32>::empty());
        assert(page_numbers_of(out@) =~= Seq::<u32>::empty());
    }
    while i < numbers.len()
        invariant
            i <= numbers@.len(),
            page_numbers_of(out@) == selected_pages(numbers@.subrange(0, i as int), start_page),
        decreases numbers@.len() - i,
    {
        let number = numbers[i];
        let ghost before = out@;
        proof {
            reveal(Seq::filter);
            assert(numbers@.subrange(0, i + 1).drop_last() =~= numbers@.subrange(0, i as int));
        }
        if number >= start_page {
            let content = match extract_page_text(doc, number) {
                Ok(text) => PageContent::Text(text),
                Err(e) => PageContent::Failed(e.to_string()),
            };
            out.push(PageText { number, content });
            proof {
                assert(page_numbers_of(out@) =~= page_numbers_of(before).push(number));
            }
        }
        i = i + 1;
    }
    proof {
        assert(numbers@.subrange(0, i as int) =~= numbers@);
    }
    out
}

/// A document's page numbers, and the pages extracted from them.
pub struct DocumentPages {
    pub numbers: Vec<u32>,
    pub pages: Vec<PageText>,
}

/// Lists the pages of `doc` in ascending order of page number and extracts
/// every one of them numbered `start_page` or later, each once, in that order.
pub fn read_document(doc: &lopdf::Document, start_page: u32) -> (r: DocumentPages)
    ensures
        forall|i: int, j: int|
            0 <= i < j < r.numbers@.len() ==> r.numbers@[i] < r.numbers@[j],
        page_numbers_of(r.pages@) == selected_pages(r.numbers@, start_page),
{
    let numbers = page_numbers(doc);
    let pages = extract_pages(doc, &numbers, start_page);
    DocumentPages { numbers, pages }
}

} // verus!
