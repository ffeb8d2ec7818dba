//! The eight-line record: how a page's lines fall into records, which records
//! are kept, and the name pair that a kept record yields.

use vstd::prelude::*;
use crate::suffix::{remove_municipality_suffix, strip_first_suffix};
use crate::text::{first_word, first_word_spec, views_of};

verus! {

/// Number of lines in one record.
pub const RECORD_LINES: usize = 8;

/// Eight consecutive lines of page text. Line 2 holds the local name, line 4
/// the foreign name and line 7 the classification label; the other lines are
/// reserved, their meaning unknown, and are carried along unread.
#[derive(Clone, Debug)]
pub struct RecordChunk {
    pub reserved0: String,
    pub reserved1: String,
    pub local_name: String,
    pub reserved3: String,
    pub foreign_name: String,
    pub reserved5: String,
    pub reserved6: String,
    pub classification: String,
}

impl View for RecordChunk {
    type V = Seq<Seq<char>>;

    /// The eight lines, in order.
    open spec fn view(&self) -> Seq<Seq<char>> {
        seq![
            self.reserved0@,
            self.reserved1@,
            self.local_name@,
            self.reserved3@,
            self.foreign_name@,
            self.reserved5@,
            self.reserved6@,
            self.classification@,
        ]
    }
}

/// A (local name, foreign name) pair taken from one kept record.
#[derive(Clone, Debug)]
pub struct NameRecord {
    pub local_name: String,
    pub foreign_name: String,
}

impl View for NameRecord {
    type V = (Seq<char>, Seq<char>);

    open spec fn view(&self) -> (Seq<char>, Seq<char>) {
        (self.local_name@, self.foreign_name@)
    }
}

/// The labels that mark a record as a municipality.
pub open spec fn accepted_label(label: Seq<char>) -> bool {
    label == "Municipality"@ || label == "Populated Area"@
}

/// A record is kept when its classification line carries an accepted label.
pub open spec fn is_retained(chunk: Seq<Seq<char>>) -> bool {
    accepted_label(chunk[7])
}

/// The complete groups of eight consecutive lines, in order; a last group of
/// fewer lines is left out.
pub open spec fn chunks_of(lines: Seq<Seq<char>>) -> Seq<Seq<Seq<char>>> {
    Seq::new(lines.len() / 8, |k: int| lines.subrange(8 * k, 8 * k + 8))
}

/// The name pair of a record: lines 2 and 4 as they stand, or, when stripping,
/// line 2 without its first matching suffix and the first word of line 4.
pub open spec fn normalized(
    chunk: Seq<Seq<char>>,
    strip: bool,
    table: Seq<Seq<char>>,
) -> (Seq<char>, Seq<char>) {
    if strip {
        (strip_first_suffix(chunk[2], table), first_word_spec(chunk[4]))
    } else {
        (chunk[2], chunk[4])
    }
}

/// The name pairs of the kept records among `chunks`, in order.
pub open spec fn chunk_records(
    chunks: Seq<Seq<Seq<char>>>,
    strip: bool,
    table: Seq<Seq<char>>,
) -> Seq<(Seq<char>, Seq<char>)> {
    chunks.filter(|c: Seq<Seq<char>>| is_retained(c)).map_values(
        |c: Seq<Seq<char>>| normalized(c, strip, table),
    )
}

impl RecordChunk {
    /// The record made of `lines[start..start + 8]`.
    pub fn from_lines(lines: &Vec<String>, start: usize) -> (r: RecordChunk)
        requires
            start + 8 <= lines@.len(),
        ensures
            r@ == views_of(lines@).subrange(start as int, start + 8),
    {
        let n = lines.len();
        assert(start + 8 <= n);
        let r = RecordChunk {
            reserved0: lines[start].clone(),
            reserved1: lines[start + 1].clone(),
            local_name: lines[start + 2].clone(),
            reserved3: lines[start + 3].clone(),
            foreign_name: lines[start + 4].clone(),
            reserved5: lines[start + 5].clone(),
            reserved6: lines[start + 6].clone(),
            classification: lines[start + 7].clone(),
        };
        assert(r@ =~= views_of(lines@).subrange(start as int, start + 8));
        r
    }
}

/// Splits a page's lines into records of eight consecutive lines, in order;
/// the trailing `len % 8` lines belong to no record.
pub fn chunk_lines(lines: &Vec<String>) -> (r: Vec<RecordChunk>)
    ensures
        r@.len() == lines@.len() / 8,
        8 * r@.len() + lines@.len() % 8 == lines@.len(),
        forall|k: int| 0 <= k < r@.len() ==> #[trigger] r@[k]@ == views_of(lines@).subrange(8 * k, 8 * k + 8),
        r@.map_values(|c: RecordChunk| c@) == chunks_of(views_of(lines@)),
{
    let mut r: Vec<RecordChunk> = Vec::new();
    let mut i: usize = 0;
    while RECORD_LINES <= lines.len() - i
        invariant
            i == 8 * r@.len(),
            i <= lines@.len(),
            forall|k: int| 0 <= k < r@.len() ==> #[trigger] r@[k]@ == views_of(lines@).subrange(8 * k, 8 * k + 8),
        decreases lines@.len() - i,
    {
        let chunk = RecordChunk::from_lines(lines, i);
        r.push(chunk);
        i = i + RECORD_LINES;
    }
    proof {
        let n = lines@.len() as int;
        let m = r@.len() as int;
        assert(m == n / 8 && 8 * m + n % 8 == n) by (nonlinear_arith)
            requires
                8 * m <= n,
                n < 8 * m + 8,
                0 <= m,
        ;
        assert(r@.map_values(|c: RecordChunk| c@) =~= chunks_of(views_of(lines@)));
    }
    r
}

/// Whether a record is a municipality: its classification line, and no other,
/// decides.
pub fn is_city(chunk: &RecordChunk) -> (r: bool)
    ensures
        r == is_retained(chunk@),
{
    chunk.classification == String::from_str("Municipality")
        || chunk.classification == String::from_str("Populated Area")
}

/// The name pair of a record, stripped of its suffix and qualifiers when
/// `remove_suffix` holds.
pub fn process_line(
    chunk: &RecordChunk,
    remove_suffix: bool,
    suffixes: &Vec<String>,
) -> (r: NameRecord)
    ensures
        r@ == normalized(chunk@, remove_suffix, views_of(suffixes@)),
{
    if remove_suffix {
        NameRecord {
            local_name: remove_municipality_suffix(chunk.local_name.as_str(), suffixes),
            foreign_name: first_word(chunk.foreign_name.as_str()),
        }
    } else {
        NameRecord { local_name: chunk.local_name.clone(), foreign_name: chunk.foreign_name.clone() }
    }
}

/// Whether a record is kept depends on its classification line alone: two
/// records that agree there are kept or dropped together.
pub proof fn lemma_classification_decides(a: Seq<Seq<char>>, b: Seq<Seq<char>>)
    requires
        a.len() == 8,
        b.len() == 8,
        a[7] == b[7],
    ensures
        is_retained(a) == is_retained(b),
{
}

} // verus!
