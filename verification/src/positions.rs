//! The positions of the queries over the rounds of folding.

use vstd::prelude::*;

verus! {

/// The positions after one folding round onto a domain of `target` positions: every
/// position modulo `target`, once, where it first comes.
pub open spec fn folded_positions(positions: Seq<usize>, target: nat) -> Seq<usize>
    decreases positions.len(),
{
    if positions.len() == 0 {
        Seq::empty()
    } else {
        let rest = folded_positions(positions.drop_last(), target);
        let p = (positions.last() as nat % target) as usize;
        if rest.contains(p) {
            rest
        } else {
            rest.push(p)
        }
    }
}

/// No folded position comes twice.
pub proof fn lemma_folded_positions_distinct(positions: Seq<usize>, target: nat)
    ensures
        folded_positions(positions, target).no_duplicates(),
    decreases positions.len(),
{
    if positions.len() > 0 {
        lemma_folded_positions_distinct(positions.drop_last(), target);
    }
}

/// The folded positions are the positions modulo `target`, all of them and no others.
pub proof fn lemma_folded_positions_members(positions: Seq<usize>, target: nat, p: usize)
    requires
        target >= 1,
    ensures
        folded_positions(positions, target).contains(p) <==> exists|i: int|
            0 <= i < positions.len() && p == #[trigger] positions[i] as nat % target,
    decreases positions.len(),
{
    if positions.len() > 0 {
        let front = positions.drop_last();
        let rest = folded_positions(front, target);
        let last = (positions.last() as nat % target) as usize;
        let whole = positions.last() as nat;
        assert(whole % target <= whole) by (nonlinear_arith)
            requires
                target >= 1,
        ;
        assert(last == whole % target);
        lemma_folded_positions_members(front, target, p);
        if folded_positions(positions, target).contains(p) {
            if rest.contains(p) {
                let i = choose|i: int| 0 <= i < front.len() && p == #[trigger] front[i] as nat % target;
                assert(positions[i] == front[i]);
            } else {
                assert(rest.push(last).contains(p));
                let j = choose|j: int| 0 <= j < rest.push(last).len() && rest.push(last)[j] == p;
                if j < rest.len() {
                    assert(rest[j] == p);
                    assert(rest.contains(p));
                }
                assert(p == last);
                assert(p == positions[positions.len() - 1] as nat % target);
            }
        }
        if exists|i: int| 0 <= i < positions.len() && p == #[trigger] positions[i] as nat % target {
            let i = choose|i: int|
                0 <= i < positions.len() && p == #[trigger] positions[i] as nat % target;
            if i < front.len() {
                assert(front[i] == positions[i]);
                assert(rest.contains(p));
                if !rest.contains(last) {
                    assert(rest.push(last)[choose|j: int| 0 <= j < rest.len() && rest[j] == p]
                        == p);
                }
            } else {
                assert(p == last);
                if !rest.contains(last) {
                    assert(rest.push(last)[rest.len() as int] == last);
                }
            }
        }
    }
}

/// Where `position` first stands among the positions, if it is among them.
pub fn position_index(positions: &Vec<usize>, position: usize) -> (r: Option<usize>)
    ensures
        match r {
            Some(i) => {
                &&& i < positions@.len()
                &&& positions@[i as int] == position
                &&& forall|j: int| 0 <= j < i ==> positions@[j] != position
            },
            None => !positions@.contains(position),
        },
{
    let mut i: usize = 0;
    while i < positions.len()
        invariant
            i <= positions@.len(),
            forall|j: int| 0 <= j < i ==> positions@[j] != position,
        decreases positions@.len() - i,
    {
        if positions[i] == position {
            return Some(i);
        }
        i += 1;
    }
    None
}

/// Folds the positions of the queries onto the domain of the next round, which has
/// `domain_size / folding_factor` positions: every position is taken modulo the size of
/// that domain, and kept where it first comes.
pub fn fold_positions(positions: &Vec<usize>, domain_size: usize, folding_factor: usize) -> (folded:
    Vec<usize>)
    requires
        folding_factor >= 1,
        domain_size / folding_factor >= 1,
    ensures
        folded@ == folded_positions(positions@, (domain_size / folding_factor) as nat),
        folded@.no_duplicates(),
        forall|p: usize|
            folded@.contains(p) <==> exists|i: int|
                0 <= i < positions@.len() && p == #[trigger] positions@[i] as nat % ((domain_size
                    / folding_factor) as nat),
{
    let target = domain_size / folding_factor;
    let mut folded: Vec<usize> = Vec::new();
    let mut i: usize = 0;
    while i < positions.len()
        invariant
            i <= positions@.len(),
            target >= 1,
            folded@ == folded_positions(positions@.take(i as int), target as nat),
        decreases positions@.len() - i,
    {
        let position = positions[i] % target;
        proof {
            let upto = positions@.take(i + 1);
            assert(upto.drop_last() =~= positions@.take(i as int));
            assert(upto.last() == positions@[i as int]);
        }
        if position_index(&folded, position).is_none() {
            folded.push(position);
        }
        i += 1;
    }
    proof {
        assert(positions@.take(i as int) =~= positions@);
        lemma_folded_positions_distinct(positions@, target as nat);
        assert forall|p: usize|
            folded@.contains(p) <==> exists|i: int|
                0 <= i < positions@.len() && p == #[trigger] positions@[i] as nat % (target as nat) by {
            lemma_folded_positions_members(positions@, target as nat, p);
        }
    }
    folded
}

/// Whether `rows` gives, for every query, where its position modulo `target` stands among
/// the folded positions.
pub open spec fn rows_of(rows: Seq<usize>, positions: Seq<usize>, folded: Seq<usize>, target: nat) -> bool {
    &&& rows.len() == positions.len()
    &&& forall|q: int|
        0 <= q < rows.len() ==> {
            &&& (#[trigger] rows[q]) < folded.len()
            &&& folded[rows[q] as int] == positions[q] as nat % target
        }
}

/// For every query, in the order of the queries, the row of the folding round that holds
/// its values: where the position of the query modulo `target` first stands among the
/// folded positions. There are no rows where a query has no folded position.
pub fn query_rows(positions: &Vec<usize>, folded: &Vec<usize>, target: usize) -> (r: Option<
    Vec<usize>,
>)
    requires
        target >= 1,
    ensures
        r is None <==> exists|q: int|
            0 <= q < positions@.len() && !folded@.contains(
                (#[trigger] positions@[q] as nat % (target as nat)) as usize,
            ),
        r matches Some(rows) ==> rows_of(rows@, positions@, folded@, target as nat),
{
    let mut rows: Vec<usize> = Vec::new();
    let mut q: usize = 0;
    while q < positions.len()
        invariant
            q <= positions@.len(),
            target >= 1,
            rows@.len() == q,
            forall|i: int|
                0 <= i < q ==> folded@.contains(
                    (#[trigger] positions@[i] as nat % (target as nat)) as usize,
                ),
            forall|i: int|
                0 <= i < q ==> (#[trigger] rows@[i]) < folded@.len() && folded@[rows@[i] as int]
                    == positions@[i] as nat % (target as nat),
        decreases positions@.len() - q,
    {
        match position_index(folded, positions[q] % target) {
            Some(row) => {
                rows.push(row);
            },
            None => {
                return None;
            },
        }
        q += 1;
    }
    Some(rows)
}

} // verus!
