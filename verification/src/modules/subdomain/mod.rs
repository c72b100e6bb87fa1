//! Discovery modules, and what they share.
pub mod crtsh;
pub mod webarchive;

pub use crtsh::CrtSh;
pub use webarchive::WebArchive;

use vstd::prelude::*;
use crate::names::{ascending, is_wildcard, texts, NameSet};
use crate::text::has_char;

verus! {

/// The text fields of `rows`, row after row.
pub open spec fn cells(rows: Seq<Vec<String>>) -> Seq<Seq<char>>
    decreases rows.len(),
{
    if rows.len() == 0 {
        Seq::empty()
    } else {
        cells(rows.drop_last()) + texts(rows.last()@)
    }
}

/// The rows from position `start` on; none where there are no more than
/// `start` rows.
pub open spec fn rows_from(rows: Seq<Vec<String>>, start: int) -> Seq<Vec<String>> {
    if 0 <= start <= rows.len() {
        rows.subrange(start, rows.len() as int)
    } else {
        Seq::empty()
    }
}

/// The text fields of the rows from position `start` on, row after row.
pub fn flatten(rows: &Vec<Vec<String>>, start: usize) -> (out: Vec<String>)
    ensures
        texts(out@) == cells(rows_from(rows@, start as int)),
{
    let mut out: Vec<String> = Vec::new();
    if start > rows.len() {
        assert(texts(out@) =~= cells(rows_from(rows@, start as int)));
        return out;
    }
    let mut i: usize = start;
    assert(texts(out@) =~= cells(rows@.subrange(start as int, i as int)));
    while i < rows.len()
        invariant
            start <= i <= rows.len(),
            texts(out@) == cells(rows@.subrange(start as int, i as int)),
        decreases rows.len() - i,
    {
        let row = &rows[i];
        let ghost done = texts(out@);
        let mut j: usize = 0;
        assert(texts(out@) =~= done + texts(row@.take(j as int)));
        while j < row.len()
            invariant
                j <= row.len(),
                texts(out@) == done + texts(row@.take(j as int)),
            decreases row.len() - j,
        {
            let ghost before = texts(out@);
            let field = row[j].clone();
            out.push(field);
            assert(texts(out@) =~= before.push(row@[j as int]@));
            assert(texts(row@.take(j as int + 1)) =~= texts(row@.take(j as int)).push(
                row@[j as int]@,
            ));
            j += 1;
        }
        assert(row@.take(row.len() as int) =~= row@);
        assert(rows@.subrange(start as int, i as int + 1).drop_last() =~= rows@.subrange(
            start as int,
            i as int,
        ));
        i += 1;
    }
    out
}

/// The names that a module returns for the candidates it read: the set of
/// those that are neither `domain` nor a wildcard pattern, as an ascending
/// vector.
pub fn distinct_without(names: Vec<String>, domain: &str) -> (out: Vec<String>)
    ensures
        ascending(texts(out@)),
        forall|n: Seq<char>|
            #![trigger texts(out@).contains(n)]
            #![trigger texts(names@).contains(n)]
            texts(out@).contains(n) <==> (n != domain@ && !is_wildcard(n) && texts(names@).contains(
                n,
            )),
{
    let ghost all = texts(names@);
    let mut set = NameSet::new();
    let mut i: usize = 0;
    while i < names.len()
        invariant
            i <= names.len(),
            all == texts(names@),
            ascending(set@),
            forall|n: Seq<char>|
                #![trigger set@.contains(n)]
                #![trigger all.take(i as int).contains(n)]
                set@.contains(n) <==> (!is_wildcard(n) && all.take(i as int).contains(n)),
        decreases names.len() - i,
    {
        let ghost before = set@;
        assert(all[i as int] == names@[i as int]@);
        if !has_char(names[i].as_str(), '*') {
            let _ = set.insert(names[i].clone());
        }
        proof {
            let seen = all.take(i as int);
            let next = all.take(i as int + 1);
            assert(next =~= seen.push(all[i as int]));
            assert forall|n: Seq<char>|
                set@.contains(n) <==> (!is_wildcard(n) && next.contains(n)) by {
                assert(before.contains(n) <==> (!is_wildcard(n) && seen.contains(n)));
                if seen.contains(n) {
                    let k = choose|k: int| 0 <= k < seen.len() && seen[k] == n;
                    assert(next[k] == n);
                }
                if n == all[i as int] {
                    assert(next[i as int] == n);
                }
                if next.contains(n) {
                    let k = choose|k: int| 0 <= k < next.len() && next[k] == n;
                    if k < i {
                        assert(seen[k] == n);
                    }
                }
            }
        }
        i += 1;
    }
    assert(all.take(names.len() as int) =~= all);
    let _ = set.remove(domain);
    set.into_vec()
}

} // verus!
