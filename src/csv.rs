//! Rendering name pairs as two-column CSV text.

use vstd::prelude::*;
use crate::pipeline::records_view;
use crate::record::NameRecord;

verus! {

/// One line per pair, `local,foreign`, each ended by a newline. Values are
/// written as they stand: no quoting or escaping is applied.
pub open spec fn csv_rows(rows: Seq<(Seq<char>, Seq<char>)>) -> Seq<char>
    decreases rows.len(),
{
    if rows.len() == 0 {
        Seq::empty()
    } else {
        csv_rows(rows.drop_last()) + rows.last().0 + ","@ + rows.last().1 + "\n"@
    }
}

/// The header line `ja,en` followed by the rows.
pub open spec fn csv_text(rows: Seq<(Seq<char>, Seq<char>)>) -> Seq<char> {
    "ja,en\n"@ + csv_rows(rows)
}

/// The CSV text of the records: the header `ja,en`, then one `local,foreign`
/// line per record in order.
pub fn to_csv(records: &Vec<NameRecord>) -> (r: String)
    ensures
        r@ == csv_text(records_view(records@)),
{
    let ghost rv = records_view(records@);
    let mut out = String::from_str("ja,en\n");
    let mut i: usize = 0;
    proof {
        assert(rv.subrange(0, 0) =~= Seq::<(Seq<char>, Seq<char>)>::empty());
    }
    while i < records.len()
        invariant
            i <= records@.len(),
            rv == records_view(records@),
            out@ == csv_text(rv.subrange(0, i as int)),
        decreases records@.len() - i,
    {
        let rec = &records[i];
        out.append(rec.local_name.as_str());
        out.append(",");
        out.append(rec.foreign_name.as_str());
        out.append("\n");
        proof {
            let next = rv.subrange(0, i + 1);
            assert(next.drop_last() =~= rv.subrange(0, i as int));
            assert(out@ =~= csv_text(next));
        }
        i = i + 1;
    }
    proof {
        assert(rv.subrange(0, i as int) =~= rv);
    }
    out
}

} // verus!
