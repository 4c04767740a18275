//! Which route a router reaches for first.

use crate::breaker::Health;
use crate::cost::pricing::clamped;
use crate::router::route::Way;
use vstd::prelude::*;

verus! {

/// Which route a router reaches for first.
///
/// Set it with [`crate::Router::ordering`]. Whatever the order, the requirement check comes
/// first: a route that cannot serve the request is never chosen however cheap or healthy it
/// is.
#[derive(Debug, Clone, Copy, PartialEq, Eq, Structural)]
pub enum Order {
    /// The order you wrote. The default.
    AsListed,
    /// Lowest published rate first, and a route with no price is tried **last**.
    ///
    /// # What this is claiming, and what it is not
    ///
    /// It compares published rates: the sum of a route's input and output price per million
    /// tokens, as [`crate::Route::rate`] reports it. That is a fact about the price list.
    ///
    /// **It is not a prediction of what this request will cost.** Cheapest per token is not
    /// cheapest per request. A model with a low rate that thinks before answering can spend
    /// more output tokens than a dearer one that does not, and a model with a large minimum
    /// can cost more for a short prompt. If what you need is a bound on the spend, that is
    /// a cap rather than an ordering.
    ///
    /// # An unpriced route is not a free one
    ///
    /// Reading a missing price as zero would put every unpriced route first, which is
    /// precisely backwards and confidently so. A route with no price sorts **after** every
    /// route that has one, keeping the order it was written in among its peers.
    ///
    /// Tried last, never refused. Refusing is a different decision and belongs to whatever
    /// sets a spending limit, because that is the thing that cannot be satisfied by a call
    /// nobody can price.
    Cheapest,
    /// Fewest consecutive failures first.
    ///
    /// The count [`crate::Router::breaking`] keeps, and it is kept whether or not there is a
    /// breaker, so this works on its own. What a breaker adds is skipping a bad route
    /// entirely for a while rather than merely putting it further down the list.
    ///
    /// Ties keep the order they were written in, so a router where nothing has failed
    /// behaves exactly like [`Order::AsListed`].
    Healthiest,
}

impl Default for Order {
    fn default() -> (order: Order)
        ensures
            order == Order::AsListed,
    {
        Order::AsListed
    }
}

impl Order {
    /// What a route is ordered by: whether its price is unknown, and then its price; or how
    /// often it has failed.
    pub open spec fn rank(self, way: Way, health: Health) -> (int, int) {
        match self {
            Order::AsListed => (0, 0),
            Order::Cheapest => match way.rate {
                Some(rate) => (0, clamped(rate.input.0 + rate.output.0) as int),
                None => (1, 0),
            },
            Order::Healthiest => (0, health.consecutive_failures as int),
        }
    }
}

/// Whether one rank comes before another.
pub open spec fn lower(a: (int, int), b: (int, int)) -> bool {
    a.0 < b.0 || (a.0 == b.0 && a.1 < b.1)
}

/// An index put behind the last that its rank does not come before.
pub open spec fn placed(order: Seq<int>, i: int, ranks: Seq<(int, int)>) -> Seq<int>
    decreases order.len(),
{
    if order.len() == 0 || !lower(ranks[i], ranks[order.last()]) {
        order.push(i)
    } else {
        placed(order.drop_last(), i, ranks).push(order.last())
    }
}

/// The first indices in the order of their ranks, those of the same rank as they are listed.
pub open spec fn arranged(ranks: Seq<(int, int)>, count: nat) -> Seq<int>
    decreases count,
{
    if count == 0 {
        Seq::empty()
    } else {
        placed(arranged(ranks, (count - 1) as nat), count - 1, ranks)
    }
}

/// Whether indices stand in the order of their ranks, those of the same rank as they are listed.
pub open spec fn in_order(ranks: Seq<(int, int)>, order: Seq<int>) -> bool {
    forall|a: int, b: int|
        0 <= a < b < order.len() ==> lower(ranks[#[trigger] order[a]], ranks[#[trigger] order[b]])
            || (ranks[order[a]] == ranks[order[b]] && order[a] < order[b])
}

/// Placing a further index keeps the order and holds that index and those before, each once.
proof fn placing_keeps_order(order: Seq<int>, i: int, ranks: Seq<(int, int)>)
    requires
        in_order(ranks, order),
        forall|a: int| 0 <= a < order.len() ==> (#[trigger] order[a]) < i,
    ensures
        in_order(ranks, placed(order, i, ranks)),
        placed(order, i, ranks).len() == order.len() + 1,
        placed(order, i, ranks).to_multiset() == order.to_multiset().insert(i),
        forall|a: int|
            0 <= a <= order.len() ==> (#[trigger] placed(order, i, ranks)[a]) == i || (exists|b: int|
                0 <= b < order.len() && placed(order, i, ranks)[a] == #[trigger] order[b]),
    decreases order.len(),
{
    broadcast use vstd::seq_lib::group_to_multiset_ensures;

    let out = placed(order, i, ranks);
    if order.len() == 0 || !lower(ranks[i], ranks[order.last()]) {
        assert forall|a: int, b: int| 0 <= a < b < out.len() implies lower(
            ranks[#[trigger] out[a]],
            ranks[#[trigger] out[b]],
        ) || (ranks[out[a]] == ranks[out[b]] && out[a] < out[b]) by {
            if b == order.len() {
                let last = order.len() - 1;
                assert(out[a] == order[a]);
                assert(a < last ==> lower(ranks[order[a]], ranks[order[last]]) || ranks[order[a]]
                    == ranks[order[last]]);
            } else {
                assert(out[a] == order[a] && out[b] == order[b]);
            }
        }
        assert(order.push(i).to_multiset() == order.to_multiset().insert(i));
        assert forall|a: int| 0 <= a <= order.len() implies (#[trigger] out[a]) == i || (exists|
            b: int,
        |
            0 <= b < order.len() && out[a] == #[trigger] order[b]) by {
            if a < order.len() {
                assert(out[a] == order[a]);
            }
        }
    } else {
        let front = order.drop_last();
        assert forall|a: int, b: int| 0 <= a < b < front.len() implies lower(
            ranks[#[trigger] front[a]],
            ranks[#[trigger] front[b]],
        ) || (ranks[front[a]] == ranks[front[b]] && front[a] < front[b]) by {
            assert(front[a] == order[a] && front[b] == order[b]);
        }
        placing_keeps_order(front, i, ranks);
        let inner = placed(front, i, ranks);
        let last = order.len() - 1;
        assert(out == inner.push(order.last()));
        assert forall|a: int, b: int| 0 <= a < b < out.len() implies lower(
            ranks[#[trigger] out[a]],
            ranks[#[trigger] out[b]],
        ) || (ranks[out[a]] == ranks[out[b]] && out[a] < out[b]) by {
            assert(out[a] == inner[a]);
            if b == order.len() {
                if inner[a] != i {
                    let c = choose|c: int|
                        0 <= c < front.len() && inner[a] == #[trigger] front[c];
                    assert(front[c] == order[c]);
                    assert(out[b] == order[last]);
                }
            } else {
                assert(out[b] == inner[b]);
            }
        }
        assert(order == front.push(order.last()));
        assert(order.to_multiset() == front.to_multiset().insert(order.last()));
        assert(out.to_multiset() == inner.to_multiset().insert(order.last()));
        assert(out.to_multiset() =~= order.to_multiset().insert(i));
        assert forall|a: int| 0 <= a <= order.len() implies (#[trigger] out[a]) == i || (exists|
            b: int,
        |
            0 <= b < order.len() && out[a] == #[trigger] order[b]) by {
            if a == order.len() {
                assert(out[a] == order[last]);
            } else {
                assert(out[a] == inner[a]);
                if inner[a] != i {
                    let c = choose|c: int|
                        0 <= c < front.len() && inner[a] == #[trigger] front[c];
                    assert(order[c] == front[c]);
                }
            }
        }
    }
}

/// Routes are reached for in the order of their ranks, and those that the ordering cannot tell
/// apart keep the order they were given in; each index is there, and once.
pub proof fn the_order_is_stable(ranks: Seq<(int, int)>, count: nat)
    ensures
        in_order(ranks, arranged(ranks, count)),
        arranged(ranks, count).len() == count,
        forall|a: int|
            0 <= a < count ==> 0 <= (#[trigger] arranged(ranks, count)[a]) < count,
        arranged(ranks, count).no_duplicates(),
    decreases count,
{
    if count > 0 {
        let before = arranged(ranks, (count - 1) as nat);
        the_order_is_stable(ranks, (count - 1) as nat);
        placing_keeps_order(before, count - 1, ranks);
        let order = arranged(ranks, count);
        assert forall|a: int| 0 <= a < count implies 0 <= (#[trigger] order[a]) < count by {
            assert(order[a] == placed(before, count - 1, ranks)[a]);
        }
        assert forall|a: int, b: int|
            0 <= a < order.len() && 0 <= b < order.len() && a != b implies order[a] != order[b] by {
            if a < b {
                assert(lower(ranks[order[a]], ranks[order[b]]) || order[a] < order[b]);
            } else {
                assert(lower(ranks[order[b]], ranks[order[a]]) || order[b] < order[a]);
            }
        }
    }
}

/// Routes of one rank are reached for as they are listed.
pub proof fn equals_keep_their_order(ranks: Seq<(int, int)>, count: nat)
    requires
        count <= ranks.len(),
        forall|i: int, j: int|
            0 <= i < ranks.len() && 0 <= j < ranks.len() ==> ranks[i] == ranks[j],
    ensures
        arranged(ranks, count) == Seq::new(count, |i: int| i),
    decreases count,
{
    if count > 0 {
        equals_keep_their_order(ranks, (count - 1) as nat);
        let before = arranged(ranks, (count - 1) as nat);
        if before.len() > 0 {
            assert(ranks[count - 1] == ranks[before.last()]);
        }
    }
}

/// A route whose price nobody knows is never reached for before one whose price is known.
pub proof fn unpriced_routes_come_last(
    ways: Seq<Way>,
    health: Seq<Health>,
    ranks: Seq<(int, int)>,
    a: int,
    b: int,
)
    requires
        ways.len() == health.len() == ranks.len(),
        forall|i: int|
            0 <= i < ranks.len() ==> #[trigger] ranks[i] == Order::Cheapest.rank(
                ways[i],
                health[i],
            ),
        0 <= a < b < ranks.len(),
    ensures
        ({
            let order = arranged(ranks, ranks.len());
            ways[order[a]].rate is None ==> ways[order[b]].rate is None
        }),
{
    the_order_is_stable(ranks, ranks.len());
    let order = arranged(ranks, ranks.len());
    assert(lower(ranks[order[a]], ranks[order[b]]) || ranks[order[a]] == ranks[order[b]]);
    assert(ranks[order[a]] == Order::Cheapest.rank(ways[order[a]], health[order[a]]));
    assert(ranks[order[b]] == Order::Cheapest.rank(ways[order[b]], health[order[b]]));
}

} // verus!
