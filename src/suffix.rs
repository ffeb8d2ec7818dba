//! Tables of administrative suffixes, and the removal of one of them from the
//! end of a place name.

use vstd::prelude::*;
use crate::text::{ends_with, strip_suffix_str, views_of};

verus! {

/// `name` with the first entry of `table`, in table order, that it ends with
/// removed from its end; `name` itself when it ends with none of them.
pub open spec fn strip_first_suffix(name: Seq<char>, table: Seq<Seq<char>>) -> Seq<char>
    decreases table.len(),
{
    if table.len() == 0 {
        name
    } else if ends_with(name, table[0]) {
        name.subrange(0, name.len() - table[0].len())
    } else {
        strip_first_suffix(name, table.drop_first())
    }
}

/// The municipality-level suffixes: city, town, village, ward, district.
pub fn municipality_suffixes() -> (r: Vec<String>)
    ensures
        views_of(r@) =~= seq!["市"@, "町"@, "村"@, "区"@, "郡"@],
{
    let mut r: Vec<String> = Vec::new();
    r.push(String::from_str("市"));
    r.push(String::from_str("町"));
    r.push(String::from_str("村"));
    r.push(String::from_str("区"));
    r.push(String::from_str("郡"));
    r
}

/// The municipality-level suffixes followed by the prefecture-level ones.
pub fn administrative_suffixes() -> (r: Vec<String>)
    ensures
        views_of(r@) =~= seq![
            "市"@, "町"@, "村"@, "区"@, "郡"@, "県"@, "都"@, "道"@, "府"@,
        ],
{
    let mut r: Vec<String> = Vec::new();
    r.push(String::from_str("市"));
    r.push(String::from_str("町"));
    r.push(String::from_str("村"));
    r.push(String::from_str("区"));
    r.push(String::from_str("郡"));
    r.push(String::from_str("県"));
    r.push(String::from_str("都"));
    r.push(String::from_str("道"));
    r.push(String::from_str("府"));
    r
}

/// Removes from the end of `name` the first suffix of `suffixes` that it ends
/// with, in table order, counting in characters; at most one is removed.
pub fn remove_municipality_suffix(name: &str, suffixes: &Vec<String>) -> (r: String)
    ensures
        r@ == strip_first_suffix(name@, views_of(suffixes@)),
{
    let ghost table = views_of(suffixes@);
    assert(table.subrange(0, table.len() as int) =~= table);
    let mut i: usize = 0;
    while i < suffixes.len()
        invariant
            0 <= i <= suffixes@.len(),
            table == views_of(suffixes@),
            strip_first_suffix(name@, table) == strip_first_suffix(
                name@,
                table.subrange(i as int, table.len() as int),
            ),
        decreases suffixes@.len() - i,
    {
        let ghost rest = table.subrange(i as int, table.len() as int);
        assert(rest[0] == suffixes@[i as int]@);
        assert(rest.drop_first() =~= table.subrange(i + 1, table.len() as int));
        match strip_suffix_str(name, suffixes[i].as_str()) {
            Some(stem) => {
                return stem;
            },
            None => {},
        }
        i = i + 1;
    }
    assert(table.subrange(i as int, table.len() as int) =~= Seq::<Seq<char>>::empty());
    name.to_owned()
}

/// Stripping removes at most one suffix: the result is the name itself, or the
/// name with exactly one table entry that it ends with cut from its end, so that
/// putting that entry back gives the name.
pub proof fn lemma_strips_at_most_one_suffix(name: Seq<char>, table: Seq<Seq<char>>)
    ensures
        strip_first_suffix(name, table) == name || exists|k: int|
            0 <= k < table.len() && ends_with(name, #[trigger] table[k])
                && strip_first_suffix(name, table) + table[k] == name,
    decreases table.len(),
{
    if table.len() > 0 {
        if ends_with(name, table[0]) {
            let stem = name.subrange(0, name.len() - table[0].len());
            assert(stem + table[0] =~= name);
        } else {
            lemma_strips_at_most_one_suffix(name, table.drop_first());
            if strip_first_suffix(name, table) != name {
                let k = choose|k: int|
                    0 <= k < table.drop_first().len() && ends_with(
                        name,
                        #[trigger] table.drop_first()[k],
                    ) && strip_first_suffix(name, table.drop_first()) + table.drop_first()[k]
                        == name;
                assert(table[k + 1] == table.drop_first()[k]);
            }
        }
    }
}

} // verus!
