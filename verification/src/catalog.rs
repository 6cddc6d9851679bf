//! The order of a phosphor table: by designation, in natural order, so
//! that `P2` comes before `P10`.

use std::cmp::Ordering;
use vstd::prelude::*;
use vstd::seq_lib::{to_multiset_insert, to_multiset_remove};
use crate::database::PhosphorType;

verus! {

/// How one text stands to another.
#[derive(Clone, Copy, Debug, PartialEq, Eq, Structural)]
pub enum Rank {
    Less,
    Equal,
    Greater,
}

/// How `left` stands to `right` in natural order, as `natord::compare`
/// tells it: white space is passed over, runs of decimal digits compare as
/// numbers, and everything else compares character by character.
pub uninterp spec fn natural_order(left: Seq<char>, right: Seq<char>) -> Rank;

/// `natord::compare`: compares two texts in natural order. The result
/// depends on the two texts alone.
#[verifier::external_body]
fn natural_rank(left: &str, right: &str) -> (rank: Rank)
    ensures
        rank == natural_order(left@, right@),
{
    match natord::compare(left, right) {
        Ordering::Less => Rank::Less,
        Ordering::Equal => Rank::Equal,
        Ordering::Greater => Rank::Greater,
    }
}

/// Whether an entry moves in front of another, given how its designation
/// stands to the other's: only when it is less. Equal designations keep
/// their order.
pub fn moves_before(rank: Rank) -> (r: bool)
    ensures
        r == (rank is Less),
{
    match rank {
        Rank::Less => true,
        Rank::Equal => false,
        Rank::Greater => false,
    }
}

/// Whether `a` may stand directly before `b`: `a` is less than `b`, or at
/// least `b` is not less than `a`.
pub open spec fn in_order(a: Seq<char>, b: Seq<char>) -> bool {
    natural_order(a, b) is Less || !(natural_order(b, a) is Less)
}

/// Whether every two neighbours of a table are in order by designation.
pub open spec fn sorted_by_designation(db: Seq<PhosphorType>) -> bool {
    forall|k: int|
        0 <= k < db.len() - 1 ==> in_order(#[trigger] db[k].designation@, db[k + 1].designation@)
}

/// Sorts a table by designation in natural order. The table holds the same
/// phosphors afterwards, and every two neighbours are in order.
///
/// Every entry is moved towards the front past the entries that it is less
/// than, so entries that compare alike keep the order they came in.
pub fn sort_by_designation(db: &mut Vec<PhosphorType>)
    ensures
        final(db)@.to_multiset() == old(db)@.to_multiset(),
        final(db)@.len() == old(db)@.len(),
        sorted_by_designation(final(db)@),
{
    let n = db.len();
    if n < 2 {
        return ;
    }
    let mut i: usize = 1;
    while i < n
        invariant
            1 <= i <= n,
            db@.len() == n,
            db@.to_multiset() == old(db)@.to_multiset(),
            sorted_by_designation(db@.take(i as int)),
        decreases n - i,
    {
        let ghost before = db@;
        let entry = db.remove(i);
        let ghost without = db@;
        proof {
            to_multiset_remove(before, i as int);
            assert(without.take(i as int) =~= before.take(i as int));
        }
        let mut j: usize = i;
        while j > 0 && moves_before(natural_rank(entry.designation.as_str(), db[j - 1].designation.as_str()))
            invariant
                j <= i < n,
                db@ == without,
                without.len() == n - 1,
                sorted_by_designation(without.take(i as int)),
                j < i ==> natural_order(entry.designation@, without[j as int].designation@) is Less,
            decreases j,
        {
            j -= 1;
        }
        db.insert(j, entry);
        proof {
            let after = db@;
            to_multiset_insert(without, j as int, entry);
            assert(after.to_multiset() =~= before.to_multiset()) by {
                broadcast use vstd::multiset::group_multiset_axioms;

                before.to_multiset_ensures();
                assert(before.contains(before[i as int]));
            }
            let head = after.take(i + 1);
            assert forall|k: int| 0 <= k < head.len() - 1 implies in_order(
                #[trigger] head[k].designation@,
                head[k + 1].designation@,
            ) by {
                let old_head = without.take(i as int);
                if k + 1 < j {
                    assert(head[k] == old_head[k]);
                    assert(head[k + 1] == old_head[k + 1]);
                } else if k + 1 == j {
                    assert(head[k] == without[j - 1]);
                    assert(head[k + 1] == entry);
                } else if k == j {
                    assert(head[k] == entry);
                    assert(head[k + 1] == without[j as int]);
                } else {
                    assert(head[k] == old_head[k - 1]);
                    assert(head[k + 1] == old_head[k]);
                }
            }
        }
        i += 1;
    }
    assert(db@.take(n as int) =~= db@);
}

} // verus!
