//! Gathering the name pairs of every kept record across a document's pages.

use vstd::prelude::*;
use crate::record::{
    chunk_lines, chunk_records, chunks_of, is_city, is_retained, normalized, process_line,
    NameRecord, RecordChunk,
};
use crate::text::{split_lines_spec, split_newlines, views_of};

verus! {

/// What extracting one page gave: its text, or the reason it could not be read.
#[derive(Clone, Debug)]
pub enum PageContent {
    Text(String),
    Failed(String),
}

/// One page of a document, by its page number, and what was extracted from it.
#[derive(Clone, Debug)]
pub struct PageText {
    pub number: u32,
    pub content: PageContent,
}

impl View for PageText {
    type V = (u32, Option<Seq<char>>);

    /// The page number and, when extraction succeeded, the page's text.
    open spec fn view(&self) -> (u32, Option<Seq<char>>) {
        (
            self.number,
            match self.content {
                PageContent::Text(t) => Some(t@),
                PageContent::Failed(_) => None,
            },
        )
    }
}

/// The views of a sequence of name records.
pub open spec fn records_view(v: Seq<NameRecord>) -> Seq<(Seq<char>, Seq<char>)> {
    v.map_values(|x: NameRecord| x@)
}

/// The views of a sequence of pages.
pub open spec fn pages_view(v: Seq<PageText>) -> Seq<(u32, Option<Seq<char>>)> {
    v.map_values(|p: PageText| p@)
}

/// The name pairs of the kept records of one page's text.
pub open spec fn page_records(text: Seq<char>, strip: bool, table: Seq<Seq<char>>) -> Seq<
    (Seq<char>, Seq<char>),
> {
    chunk_records(chunks_of(split_lines_spec(text)), strip, table)
}

/// Whether a page takes part: it is not before the start page and its text
/// was extracted.
pub open spec fn page_processed(page: (u32, Option<Seq<char>>), start_page: u32) -> bool {
    page.0 >= start_page && page.1 is Some
}

/// The name pairs of all pages that take part, page after page, each page's
/// pairs in the order of its records.
pub open spec fn document_records(
    pages: Seq<(u32, Option<Seq<char>>)>,
    start_page: u32,
    strip: bool,
    table: Seq<Seq<char>>,
) -> Seq<(Seq<char>, Seq<char>)>
    decreases pages.len(),
{
    if pages.len() == 0 {
        Seq::empty()
    } else {
        let earlier = document_records(pages.drop_last(), start_page, strip, table);
        let page = pages.last();
        if page_processed(page, start_page) {
            earlier + page_records(page.1->0, strip, table)
        } else {
            earlier
        }
    }
}

/// The number of kept records on the pages that take part.
pub open spec fn retained_count(pages: Seq<(u32, Option<Seq<char>>)>, start_page: u32) -> nat
    decreases pages.len(),
{
    if pages.len() == 0 {
        0
    } else {
        let page = pages.last();
        retained_count(pages.drop_last(), start_page) + if page_processed(page, start_page) {
            chunks_of(split_lines_spec(page.1->0)).filter(|c: Seq<Seq<char>>| is_retained(c)).len()
        } else {
            0
        }
    }
}

/// The name pairs of the kept records of one page's text, in record order.
pub fn page_names(text: &str, remove_suffix: bool, suffixes: &Vec<String>) -> (r: Vec<NameRecord>)
    ensures
        records_view(r@) == page_records(text@, remove_suffix, views_of(suffixes@)),
{
    let lines = split_newlines(text);
    proof {
        assert(views_of(lines@) =~= split_lines_spec(text@));
    }
    let chunks = chunk_lines(&lines);
    let ghost cs = chunks@.map_values(|c: RecordChunk| c@);
    let ghost table = views_of(suffixes@);
    let ghost keep = |c: Seq<Seq<char>>| is_retained(c);
    let ghost norm = |c: Seq<Seq<char>>| normalized(c, remove_suffix, table);
    let mut out: Vec<NameRecord> = Vec::new();
    let mut k: usize = 0;
    proof {
        reveal(Seq::filter);
        assert(cs.subrange(0, 0) =~= Seq::<Seq<Seq<char>>>::empty());
        assert(records_view(out@) =~= chunk_records(cs.subrange(0, 0), remove_suffix, table));
    }
    while k < chunks.len()
        invariant
            k <= chunks@.len(),
            cs == chunks@.map_values(|c: RecordChunk| c@),
            table == views_of(suffixes@),
            keep == (|c: Seq<Seq<char>>| is_retained(c)),
            norm == (|c: Seq<Seq<char>>| normalized(c, remove_suffix, table)),
            records_view(out@) == chunk_records(cs.subrange(0, k as int), remove_suffix, table),
        decreases chunks@.len() - k,
    {
        let ghost before = out@;
        let ghost prefix = cs.subrange(0, k as int);
        let ghost next = cs.subrange(0, k + 1);
        proof {
            reveal(Seq::filter);
            assert(next.drop_last() =~= prefix);
            assert(next.last() == chunks@[k as int]@);
        }
        if is_city(&chunks[k]) {
            let rec = process_line(&chunks[k], remove_suffix, suffixes);
            out.push(rec);
            proof {
                assert(next.filter(keep) == prefix.filter(keep).push(next.last()));
                assert(records_view(out@) =~= records_view(before).push(rec@));
                assert(next.filter(keep).map_values(norm) =~= prefix.filter(keep).map_values(
                    norm,
                ).push(norm(next.last())));
            }
        } else {
            proof {
                assert(next.filter(keep) == prefix.filter(keep));
            }
        }
        k = k + 1;
    }
    proof {
        assert(cs.subrange(0, k as int) =~= cs);
    }
    out
}

/// The name pairs of every kept record on the pages numbered `start_page` or
/// later whose text was extracted, page after page, in record order within a
/// page; pages before `start_page` and pages that failed give nothing.
pub fn collect_records(
    pages: &Vec<PageText>,
    start_page: u32,
    remove_suffix: bool,
    suffixes: &Vec<String>,
) -> (r: Vec<NameRecord>)
    ensures
        records_view(r@) == document_records(
            pages_view(pages@),
            start_page,
            remove_suffix,
            views_of(suffixes@),
        ),
{
    let ghost pv = pages_view(pages@);
    let ghost table = views_of(suffixes@);
    let mut out: Vec<NameRecord> = Vec::new();
    let mut i: usize = 0;
    proof {
        assert(pv.subrange(0, 0) =~= Seq::<(u32, Option<Seq<char>>)>::empty());
        assert(records_view(out@) =~= Seq::<(Seq<char>, Seq<char>)>::empty());
    }
    while i < pages.len()
        invariant
            i <= pages@.len(),
            pv == pages_view(pages@),
            table == views_of(suffixes@),
            records_view(out@) == document_records(
                pv.subrange(0, i as int),
                start_page,
                remove_suffix,
                table,
            ),
        decreases pages@.len() - i,
    {
        let ghost next = pv.subrange(0, i + 1);
        proof {
            assert(next.drop_last() =~= pv.subrange(0, i as int));
            assert(next.last() == pages@[i as int]@);
        }
        let page = &pages[i];
        if page.number >= start_page {
            match &page.content {
                PageContent::Text(text) => {
                    let names = page_names(text.as_str(), remove_suffix, suffixes);
                    let ghost before = out@;
                    let mut j: usize = 0;
                    while j < names.len()
                        invariant
                            j <= names@.len(),
                            records_view(out@) == records_view(before) + records_view(
                                names@.subrange(0, j as int),
                            ),
                        decreases names@.len() - j,
                    {
                        let ghost mid = out@;
                        let name = &names[j];
                        out.push(
                            NameRecord {
                                local_name: name.local_name.clone(),
                                foreign_name: name.foreign_name.clone(),
                            },
                        );
                        proof {
                            assert(records_view(out@) =~= records_view(mid).push(names@[j as int]@));
                            assert(records_view(names@.subrange(0, j + 1)) =~= records_view(
                                names@.subrange(0, j as int),
                            ).push(names@[j as int]@));
                        }
                        j = j + 1;
                    }
                    proof {
                        assert(names@.subrange(0, j as int) =~= names@);
                    }
                },
                PageContent::Failed(_) => {},
            }
        }
        i = i + 1;
    }
    proof {
        assert(pv.subrange(0, i as int) =~= pv);
    }
    out
}

/// One output row per kept record: the number of name pairs gathered equals
/// the number of records, over all pages that take part, whose classification
/// is accepted.
pub proof fn lemma_one_row_per_kept_record(
    pages: Seq<(u32, Option<Seq<char>>)>,
    start_page: u32,
    strip: bool,
    table: Seq<Seq<char>>,
)
    ensures
        document_records(pages, start_page, strip, table).len() == retained_count(
            pages,
            start_page,
        ),
    decreases pages.len(),
{
    if pages.len() > 0 {
        lemma_one_row_per_kept_record(pages.drop_last(), start_page, strip, table);
    }
}

/// Pages numbered before the start page contribute nothing: the pairs gathered
/// from a document are those gathered from its pages at or after the start
/// page alone.
pub proof fn lemma_pages_before_start_ignored(
    pages: Seq<(u32, Option<Seq<char>>)>,
    start_page: u32,
    strip: bool,
    table: Seq<Seq<char>>,
)
    ensures
        document_records(pages, start_page, strip, table) == document_records(
            pages.filter(|p: (u32, Option<Seq<char>>)| p.0 >= start_page),
            start_page,
            strip,
            table,
        ),
    decreases pages.len(),
{
    reveal(Seq::filter);
    let keep = |p: (u32, Option<Seq<char>>)| p.0 >= start_page;
    if pages.len() > 0 {
        lemma_pages_before_start_ignored(pages.drop_last(), start_page, strip, table);
        let rest = pages.drop_last().filter(keep);
        if keep(pages.last()) {
            let kept = pages.filter(keep);
            assert(kept == rest.push(pages.last()));
            assert(kept.drop_last() =~= rest);
        }
    }
}

} // verus!
