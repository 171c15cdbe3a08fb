//! Which path is the cheapest, and which the costliest.
use crate::number::ZERO_BITS;
use crate::order::{lemma_order_antisymmetric, lemma_order_transitive};
use crate::value::{negated_value, order_of, sign, value_view, ValueModel, VariableValue};
use core::cmp::Ordering;
use vstd::prelude::*;

verus! {

/// The value by which a path of the cost `cost` is ranked. A path without a
/// cost ranks as one of the cost zero. Where the costliest path is sought,
/// paths are ranked by the negated cost.
pub open spec fn rank_value(cost: Option<ValueModel>, shortest: bool) -> ValueModel {
    let plain = match cost {
        Some(v) => v,
        None => ValueModel::Number(ZERO_BITS),
    };
    if shortest {
        plain
    } else {
        negated_value(plain)
    }
}

/// The order of two paths, given the cost and the length of each: minus one
/// where the first is to be preferred, one where the second is, zero where
/// neither is. The value by which a path is ranked decides; where two paths
/// are level in that, the shorter one is preferred if the cheapest path is
/// sought, and the longer one if the costliest is.
pub open spec fn rank_order(
    cost_a: Option<ValueModel>,
    len_a: int,
    cost_b: Option<ValueModel>,
    len_b: int,
    shortest: bool,
) -> int {
    let by_value = order_of(rank_value(cost_a, shortest), rank_value(cost_b, shortest));
    if by_value != 0 {
        by_value
    } else if shortest {
        sign(len_a - len_b)
    } else {
        sign(len_b - len_a)
    }
}

/// The path at `best` is the one to choose among the paths with the costs
/// `costs` and the lengths `lens`: it is preferred to every path before it,
/// and no path after it is preferred to it.
pub open spec fn is_best(
    costs: Seq<Option<ValueModel>>,
    lens: Seq<int>,
    shortest: bool,
    best: int,
) -> bool {
    &&& 0 <= best < costs.len()
    &&& forall|j: int|
        0 <= j < best ==> #[trigger] rank_order(
            costs[best],
            lens[best],
            costs[j],
            lens[j],
            shortest,
        ) < 0
    &&& forall|j: int|
        best < j < costs.len() ==> #[trigger] rank_order(
            costs[best],
            lens[best],
            costs[j],
            lens[j],
            shortest,
        ) <= 0
}

/// Turning two paths around turns their order around.
pub proof fn lemma_rank_antisymmetric(
    cost_a: Option<ValueModel>,
    len_a: int,
    cost_b: Option<ValueModel>,
    len_b: int,
    shortest: bool,
)
    ensures
        rank_order(cost_b, len_b, cost_a, len_a, shortest) == -rank_order(
            cost_a,
            len_a,
            cost_b,
            len_b,
            shortest,
        ),
{
    lemma_order_antisymmetric(rank_value(cost_a, shortest), rank_value(cost_b, shortest));
}

/// A path that is no worse than a second, which is no worse than a third, is
/// no worse than the third, and better where one of the two was better.
pub proof fn lemma_rank_transitive(
    cost_a: Option<ValueModel>,
    len_a: int,
    cost_b: Option<ValueModel>,
    len_b: int,
    cost_c: Option<ValueModel>,
    len_c: int,
    shortest: bool,
)
    requires
        rank_order(cost_a, len_a, cost_b, len_b, shortest) <= 0,
        rank_order(cost_b, len_b, cost_c, len_c, shortest) <= 0,
    ensures
        rank_order(cost_a, len_a, cost_c, len_c, shortest) <= 0,
        rank_order(cost_a, len_a, cost_b, len_b, shortest) < 0 || rank_order(
            cost_b,
            len_b,
            cost_c,
            len_c,
            shortest,
        ) < 0 ==> rank_order(cost_a, len_a, cost_c, len_c, shortest) < 0,
{
    let a = rank_value(cost_a, shortest);
    let b = rank_value(cost_b, shortest);
    let c = rank_value(cost_c, shortest);
    lemma_order_transitive(a, b, c);
}

/// There is one path to choose at most.
pub proof fn lemma_best_is_unique(
    costs: Seq<Option<ValueModel>>,
    lens: Seq<int>,
    shortest: bool,
    a: int,
    b: int,
)
    requires
        is_best(costs, lens, shortest, a),
        is_best(costs, lens, shortest, b),
    ensures
        a == b,
{
    if a < b {
        lemma_rank_antisymmetric(costs[a], lens[a], costs[b], lens[b], shortest);
    } else if b < a {
        lemma_rank_antisymmetric(costs[a], lens[a], costs[b], lens[b], shortest);
    }
}

/// A path whose value is not a number is never preferred to one whose value
/// is a number, whether the cheapest or the costliest path is sought.
pub proof fn lemma_not_a_number_ranks_last(a: u64, b: u64, len_a: int, len_b: int, shortest: bool)
    requires
        crate::number::is_nan(a),
        !crate::number::is_nan(b),
    ensures
        rank_order(
            Some(ValueModel::Number(a)),
            len_a,
            Some(ValueModel::Number(b)),
            len_b,
            shortest,
        ) > 0,
{
}

/// The costs of a vector as specifications see them.
pub open spec fn cost_models(v: Seq<Option<VariableValue>>) -> Seq<Option<ValueModel>> {
    v.map_values(|c: Option<VariableValue>| value_view(c))
}

/// The lengths of a vector as specifications see them.
pub open spec fn len_models(v: Seq<usize>) -> Seq<int> {
    v.map_values(|n: usize| n as int)
}

/// `rank_order` of two paths whose lengths are machine integers.
pub open spec fn rank_order_sized(
    cost_a: Option<ValueModel>,
    len_a: usize,
    cost_b: Option<ValueModel>,
    len_b: usize,
    shortest: bool,
) -> int {
    rank_order(cost_a, len_a as int, cost_b, len_b as int, shortest)
}

/// The value by which a path of the cost `cost` is ranked.
fn rank_of(cost: &Option<VariableValue>, shortest: bool) -> (r: VariableValue)
    ensures
        r@ == rank_value(value_view(*cost), shortest),
{
    let plain = match cost {
        Some(v) => v.clone(),
        None => VariableValue::zero(),
    };
    if shortest {
        plain
    } else {
        plain.negate()
    }
}

/// Whether the first of two paths is preferred to the second.
fn preferred(
    cost_a: &Option<VariableValue>,
    len_a: usize,
    cost_b: &Option<VariableValue>,
    len_b: usize,
    shortest: bool,
) -> (r: bool)
    ensures
        r == (rank_order_sized(value_view(*cost_a), len_a, value_view(*cost_b), len_b, shortest)
            < 0),
{
    let a = rank_of(cost_a, shortest);
    let b = rank_of(cost_b, shortest);
    match a.cmp(&b) {
        Ordering::Less => true,
        Ordering::Greater => false,
        Ordering::Equal => if shortest {
            len_a < len_b
        } else {
            len_b < len_a
        },
    }
}

/// The position of the path to choose among the paths with the costs `costs`
/// and the lengths `lens`, if there is a path at all.
pub fn select_path(
    costs: &Vec<Option<VariableValue>>,
    lens: &Vec<usize>,
    shortest: bool,
) -> (r: Option<usize>)
    requires
        costs@.len() == lens@.len(),
    ensures
        match r {
            Some(best) => is_best(cost_models(costs@), len_models(lens@), shortest, best as int),
            None => costs@.len() == 0,
        },
{
    if costs.len() == 0 {
        return None;
    }
    let ghost cs = cost_models(costs@);
    let ghost ls = len_models(lens@);
    let mut best: usize = 0;
    let mut i: usize = 1;
    while i < costs.len()
        invariant
            1 <= i <= costs@.len(),
            costs@.len() == lens@.len(),
            cs == cost_models(costs@),
            ls == len_models(lens@),
            best < i,
            forall|j: int|
                0 <= j < best ==> #[trigger] rank_order(
                    cs[best as int],
                    ls[best as int],
                    cs[j],
                    ls[j],
                    shortest,
                ) < 0,
            forall|j: int|
                best < j < i ==> #[trigger] rank_order(
                    cs[best as int],
                    ls[best as int],
                    cs[j],
                    ls[j],
                    shortest,
                ) <= 0,
        decreases costs.len() - i,
    {
        if preferred(&costs[i], lens[i], &costs[best], lens[best], shortest) {
            proof {
                let b = best as int;
                let n = i as int;
                assert forall|j: int| 0 <= j < n implies #[trigger] rank_order(
                    cs[n],
                    ls[n],
                    cs[j],
                    ls[j],
                    shortest,
                ) < 0 by {
                    if j < b {
                        lemma_rank_transitive(cs[n], ls[n], cs[b], ls[b], cs[j], ls[j], shortest);
                    } else if j > b {
                        lemma_rank_transitive(cs[n], ls[n], cs[b], ls[b], cs[j], ls[j], shortest);
                    }
                }
            }
            best = i;
        } else {
            proof {
                lemma_rank_antisymmetric(
                    cs[i as int],
                    ls[i as int],
                    cs[best as int],
                    ls[best as int],
                    shortest,
                );
            }
        }
        i += 1;
    }
    Some(best)
}

} // verus!
