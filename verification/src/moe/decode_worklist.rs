//! Routed-expert worklist for small-batch MoE decode.
//!
//! Decode routes are flattened token-major (`route = token * top_k + slot`).
//! The worklist lists them expert-major, in groups of at most eight live rows.
//! No row is ever padded to fill a group.
use crate::num::ceil_div;
use vstd::prelude::*;

verus! {

/// Maximum number of routed rows owned by one decode worker group.
pub const MAX_DECODE_GROUP_ROWS: usize = 8;

/// One contiguous expert-major slice of the decode worklist.
#[derive(Clone, Copy, Debug, Eq, PartialEq)]
pub struct DecodeExpertGroup {
    /// Routed expert selected for every row in this group.
    pub expert_id: u32,
    /// Index into [`DecodeWorklist::sorted_routes`].
    pub route_start: u32,
    /// Number of live rows in this group.
    pub rows: u8,
}

/// Routing metadata for the persistent grouped decode kernel.
#[derive(Clone, Debug, Eq, PartialEq)]
pub struct DecodeWorklist {
    /// Groups ordered by expert, and within an expert by route.
    pub groups: Vec<DecodeExpertGroup>,
    /// Maps an expert-major worklist row back to its token-major route.
    pub sorted_routes: Vec<u32>,
    /// Reverse map used by the final weighted reduction.
    pub route_to_sorted: Vec<u32>,
}

#[derive(Clone, Copy, Debug, Eq, PartialEq)]
pub enum DecodeWorklistError {
    InvalidExpert { route: usize, expert: u32 },
}

/// Routes below `n` that select expert `e`, in increasing order.
pub open spec fn routes_of(ids: Seq<u32>, e: int, n: nat) -> Seq<u32>
    decreases n,
{
    if n == 0 {
        Seq::empty()
    } else {
        let before = routes_of(ids, e, (n - 1) as nat);
        if ids[n - 1] == e {
            before.push((n - 1) as u32)
        } else {
            before
        }
    }
}

/// Routes of the experts below `e`, expert by expert.
pub open spec fn sorted_below(ids: Seq<u32>, e: nat) -> Seq<u32>
    decreases e,
{
    if e == 0 {
        Seq::empty()
    } else {
        sorted_below(ids, (e - 1) as nat) + routes_of(ids, e - 1, ids.len())
    }
}

/// `count` rows of one expert from row `start` on, cut every eight rows.
pub open spec fn chunk_groups(expert: int, start: int, count: int) -> Seq<DecodeExpertGroup> {
    Seq::new(
        ceil_div(count, 8) as nat,
        |j: int|
            DecodeExpertGroup {
                expert_id: expert as u32,
                route_start: (start + 8 * j) as u32,
                rows: (if count - 8 * j < 8 {
                    count - 8 * j
                } else {
                    8
                }) as u8,
            },
    )
}

/// Groups of the experts below `e`.
pub open spec fn groups_below(ids: Seq<u32>, e: nat) -> Seq<DecodeExpertGroup>
    decreases e,
{
    if e == 0 {
        Seq::empty()
    } else {
        groups_below(ids, (e - 1) as nat) + chunk_groups(
            e - 1,
            sorted_below(ids, (e - 1) as nat).len() as int,
            routes_of(ids, e - 1, ids.len()).len() as int,
        )
    }
}

/// `route_to_sorted` undoes `sorted_routes`.
pub open spec fn inverts(route_to_sorted: Seq<u32>, sorted: Seq<u32>) -> bool {
    forall|k: int|
        0 <= k < sorted.len() ==> 0 <= sorted[k] < route_to_sorted.len()
            && route_to_sorted[#[trigger] sorted[k] as int] == k
}

/// What [`routes_of`] holds: the routes of `e`, each once, in increasing order.
pub proof fn lemma_routes_of(ids: Seq<u32>, e: int, n: nat)
    requires
        n <= ids.len() <= u32::MAX,
    ensures
        routes_of(ids, e, n).len() <= n,
        forall|i: int|
            0 <= i < routes_of(ids, e, n).len() ==> (#[trigger] routes_of(ids, e, n)[i]) < n
                && ids[routes_of(ids, e, n)[i] as int] == e,
        forall|i: int, j: int|
            0 <= i < j < routes_of(ids, e, n).len() ==> (#[trigger] routes_of(ids, e, n)[i])
                < (#[trigger] routes_of(ids, e, n)[j]),
    decreases n,
{
    if n > 0 {
        lemma_routes_of(ids, e, (n - 1) as nat);
    }
}

/// Every route of an expert below `e` is listed with that expert.
proof fn lemma_sorted_below(ids: Seq<u32>, e: nat)
    requires
        ids.len() <= u32::MAX,
    ensures
        forall|i: int|
            0 <= i < sorted_below(ids, e).len() ==> (#[trigger] sorted_below(ids, e)[i])
                < ids.len() && ids[sorted_below(ids, e)[i] as int] < e,
    decreases e,
{
    if e > 0 {
        let prev = sorted_below(ids, (e - 1) as nat);
        let mine = routes_of(ids, e - 1, ids.len());
        lemma_sorted_below(ids, (e - 1) as nat);
        lemma_routes_of(ids, e - 1, ids.len());
        assert forall|i: int| 0 <= i < (prev + mine).len() implies (#[trigger] (prev + mine)[i])
            < ids.len() && ids[(prev + mine)[i] as int] < e by {
            if i < prev.len() {
                assert((prev + mine)[i] == prev[i]);
            } else {
                assert((prev + mine)[i] == mine[i - prev.len()]);
            }
        }
    }
}

/// Rows of the experts below `e` among the first `n` routes.
spec fn count_below(ids: Seq<u32>, e: nat, n: nat) -> nat
    decreases e,
{
    if e == 0 {
        0
    } else {
        count_below(ids, (e - 1) as nat, n) + routes_of(ids, e - 1, n).len()
    }
}

proof fn lemma_count_zero(ids: Seq<u32>, e: nat)
    ensures
        count_below(ids, e, 0) == 0,
    decreases e,
{
    if e > 0 {
        lemma_count_zero(ids, (e - 1) as nat);
    }
}

proof fn lemma_count_step(ids: Seq<u32>, e: nat, n: nat)
    requires
        n < ids.len(),
    ensures
        count_below(ids, e, n + 1) == count_below(ids, e, n) + (if ids[n as int] < e {
            1nat
        } else {
            0nat
        }),
    decreases e,
{
    if e > 0 {
        lemma_count_step(ids, (e - 1) as nat, n);
    }
}

proof fn lemma_count_all(ids: Seq<u32>, e: nat, n: nat)
    requires
        n <= ids.len(),
        forall|i: int| 0 <= i < ids.len() ==> ids[i] < e,
    ensures
        count_below(ids, e, n) == n,
    decreases n,
{
    if n == 0 {
        lemma_count_zero(ids, e);
    } else {
        lemma_count_all(ids, e, (n - 1) as nat);
        lemma_count_step(ids, e, (n - 1) as nat);
    }
}

proof fn lemma_sorted_count(ids: Seq<u32>, e: nat)
    ensures
        sorted_below(ids, e).len() == count_below(ids, e, ids.len()),
    decreases e,
{
    if e > 0 {
        lemma_sorted_count(ids, (e - 1) as nat);
    }
}

proof fn lemma_sorted_monotone(ids: Seq<u32>, e: nat, f: nat)
    requires
        e <= f,
    ensures
        sorted_below(ids, e).len() <= sorted_below(ids, f).len(),
    decreases f,
{
    if e < f {
        lemma_sorted_monotone(ids, e, (f - 1) as nat);
    }
}

/// Nothing is dropped and nothing padded: there are as many worklist rows as routes.
pub proof fn lemma_sorted_len(ids: Seq<u32>, num_experts: nat)
    requires
        forall|i: int| 0 <= i < ids.len() ==> ids[i] < num_experts,
    ensures
        sorted_below(ids, num_experts).len() == ids.len(),
{
    lemma_sorted_count(ids, num_experts);
    lemma_count_all(ids, num_experts, ids.len());
}

impl DecodeWorklist {
    /// The worklist of `ids` over `num_experts` experts.
    pub open spec fn lists(&self, ids: Seq<u32>, num_experts: nat) -> bool {
        &&& self.sorted_routes@ == sorted_below(ids, num_experts)
        &&& self.groups@ == groups_below(ids, num_experts)
        &&& self.route_to_sorted@.len() == ids.len()
        &&& inverts(self.route_to_sorted@, self.sorted_routes@)
    }

    /// Builds stable expert-major groups from flattened top-k expert ids.
    ///
    /// Routes to one expert are grouped before the eight-row limit applies, and
    /// every worklist row is a real route.
    pub fn build(topk_ids: &[u32], num_experts: u32) -> (r: Result<Self, DecodeWorklistError>)
        requires
            topk_ids@.len() <= u32::MAX,
        ensures
            r is Ok <==> (forall|i: int| 0 <= i < topk_ids@.len() ==> topk_ids@[i] < num_experts),
            r matches Ok(w) ==> w.lists(topk_ids@, num_experts as nat) && w.sorted_routes@.len()
                == topk_ids@.len(),
            r matches Err(DecodeWorklistError::InvalidExpert { route, expert }) ==> {
                &&& route < topk_ids@.len()
                &&& expert == topk_ids@[route as int]
                &&& expert >= num_experts
                &&& forall|i: int| 0 <= i < route ==> topk_ids@[i] < num_experts
            },
    {
        let ghost ids = topk_ids@;
        let n: usize = topk_ids.len();
        let ne: usize = num_experts as usize;
        let mut routes_by_expert: Vec<Vec<u32>> = Vec::new();
        let mut e: usize = 0;
        while e < ne
            invariant
                e <= ne,
                routes_by_expert@.len() == e,
                forall|x: int| 0 <= x < e ==> (#[trigger] routes_by_expert@[x])@ == routes_of(ids, x, 0),
            decreases ne - e,
        {
            routes_by_expert.push(Vec::new());
            e = e + 1;
        }
        let mut route: usize = 0;
        while route < n
            invariant
                route <= n,
                n == topk_ids@.len(),
                n <= u32::MAX,
                ids == topk_ids@,
                ne == num_experts,
                routes_by_expert@.len() == ne,
                forall|i: int| 0 <= i < route ==> ids[i] < num_experts,
                forall|x: int|
                    0 <= x < ne ==> (#[trigger] routes_by_expert@[x])@ == routes_of(ids, x, route as nat),
            decreases n - route,
        {
            let expert: u32 = topk_ids[route];
            if expert >= num_experts {
                return Err(DecodeWorklistError::InvalidExpert { route, expert });
            }
            routes_by_expert[expert as usize].push(route as u32);
            route = route + 1;
        }
        let mut groups: Vec<DecodeExpertGroup> = Vec::new();
        let mut sorted_routes: Vec<u32> = Vec::with_capacity(n);
        let mut route_to_sorted: Vec<u32> = Vec::new();
        let mut z: usize = 0;
        while z < n
            invariant
                z <= n,
                route_to_sorted@.len() == z,
            decreases n - z,
        {
            route_to_sorted.push(0);
            z = z + 1;
        }
        proof {
            lemma_sorted_len(ids, num_experts as nat);
        }
        let mut expert: usize = 0;
        while expert < ne
            invariant
                expert <= ne,
                ne == num_experts,
                n == ids.len(),
                n <= u32::MAX,
                routes_by_expert@.len() == ne,
                forall|i: int| 0 <= i < ids.len() ==> ids[i] < num_experts,
                forall|x: int|
                    0 <= x < ne ==> (#[trigger] routes_by_expert@[x])@ == routes_of(ids, x, ids.len()),
                sorted_routes@ == sorted_below(ids, expert as nat),
                groups@ == groups_below(ids, expert as nat),
                route_to_sorted@.len() == n,
                inverts(route_to_sorted@, sorted_routes@),
                sorted_below(ids, num_experts as nat).len() == n,
            decreases ne - expert,
        {
            let ghost done = sorted_routes@;
            let ghost done_groups = groups@;
            let ghost mine = routes_of(ids, expert as int, ids.len());
            proof {
                lemma_sorted_monotone(ids, (expert + 1) as nat, num_experts as nat);
                lemma_routes_of(ids, expert as int, ids.len());
                lemma_sorted_below(ids, expert as nat);
            }
            let routes: &Vec<u32> = &routes_by_expert[expert];
            let count: usize = routes.len();
            let mut p: usize = 0;
            while p < count
                invariant
                    p <= count,
                    count == mine.len(),
                    routes@ == mine,
                    mine == routes_of(ids, expert as int, ids.len()),
                    p % 8 == 0 || p == count,
                    n == ids.len(),
                    n <= u32::MAX,
                    expert < num_experts,
                    done == sorted_below(ids, expert as nat),
                    done.len() + mine.len() <= n,
                    sorted_routes@ == done + mine.subrange(0, p as int),
                    groups@ == done_groups + chunk_groups(
                        expert as int,
                        done.len() as int,
                        mine.len() as int,
                    ).subrange(0, ceil_div(p as int, 8)),
                    route_to_sorted@.len() == n,
                    inverts(route_to_sorted@, sorted_routes@),
                    forall|i: int|
                        0 <= i < mine.len() ==> (#[trigger] mine[i]) < ids.len()
                            && ids[mine[i] as int] == expert,
                    forall|i: int, j: int|
                        0 <= i < j < mine.len() ==> (#[trigger] mine[i]) < (#[trigger] mine[j]),
                    forall|i: int|
                        0 <= i < done.len() ==> (#[trigger] done[i]) < ids.len()
                            && ids[done[i] as int] < expert,
                decreases count - p,
            {
                let route_start: u32 = sorted_routes.len() as u32;
                let mut end: usize = count;
                if count - p > MAX_DECODE_GROUP_ROWS {
                    end = p + MAX_DECODE_GROUP_ROWS;
                }
                let start: usize = p;
                while p < end
                    invariant
                        start <= p <= end,
                        end <= count,
                        end - start <= 8,
                        count == mine.len(),
                        routes@ == mine,
                        n == ids.len(),
                        n <= u32::MAX,
                        done.len() + mine.len() <= n,
                        sorted_routes@ == done + mine.subrange(0, p as int),
                        route_to_sorted@.len() == n,
                        inverts(route_to_sorted@, sorted_routes@),
                        forall|i: int|
                            0 <= i < mine.len() ==> (#[trigger] mine[i]) < ids.len()
                                && ids[mine[i] as int] == expert,
                        forall|i: int, j: int|
                            0 <= i < j < mine.len() ==> (#[trigger] mine[i]) < (#[trigger] mine[j]),
                        forall|i: int|
                            0 <= i < done.len() ==> (#[trigger] done[i]) < ids.len()
                                && ids[done[i] as int] < expert,
                    decreases end - p,
                {
                    let route: u32 = routes[p];
                    let ghost was = sorted_routes@;
                    let ghost inv_was = route_to_sorted@;
                    route_to_sorted.set(route as usize, sorted_routes.len() as u32);
                    sorted_routes.push(route);
                    proof {
                        assert(route == mine[p as int]);
                        assert forall|k: int| 0 <= k < sorted_routes@.len() implies 0
                            <= sorted_routes@[k] < route_to_sorted@.len()
                            && route_to_sorted@[#[trigger] sorted_routes@[k] as int] == k by {
                            if k < was.len() {
                                assert(sorted_routes@[k] == was[k]);
                                assert(inv_was[was[k] as int] == k);
                                if k < done.len() {
                                    assert(was[k] == done[k]);
                                } else {
                                    assert(was[k] == mine[k - done.len()]);
                                }
                                assert(was[k] != route);
                            }
                        }
                    }
                    p = p + 1;
                    assert(sorted_routes@ =~= done + mine.subrange(0, p as int));
                }
                groups.push(
                    DecodeExpertGroup {
                        expert_id: expert as u32,
                        route_start,
                        rows: (end - start) as u8,
                    },
                );
                proof {
                    let all = chunk_groups(expert as int, done.len() as int, mine.len() as int);
                    assert(groups@ =~= done_groups + all.subrange(0, ceil_div(p as int, 8)));
                }
            }
            proof {
                let all = chunk_groups(expert as int, done.len() as int, mine.len() as int);
                assert(mine.subrange(0, count as int) =~= mine);
                assert(all.subrange(0, ceil_div(count as int, 8)) =~= all);
            }
            expert = expert + 1;
        }
        Ok(DecodeWorklist { groups, sorted_routes, route_to_sorted })
    }

    /// Total live rows: one per route.
    pub fn live_rows(&self) -> (r: usize)
        ensures
            r == self.sorted_routes@.len(),
    {
        self.sorted_routes.len()
    }
}

/// Worklist rows are ordered by expert, and within one expert by route.
pub proof fn law_expert_major_and_stable(ids: Seq<u32>, num_experts: nat, k: int, l: int)
    requires
        ids.len() <= u32::MAX,
        0 <= k < l < sorted_below(ids, num_experts).len(),
    ensures
        ({
            let a = sorted_below(ids, num_experts)[k];
            let b = sorted_below(ids, num_experts)[l];
            ids[a as int] < ids[b as int] || (ids[a as int] == ids[b as int] && a < b)
        }),
    decreases num_experts,
{
    let e = num_experts;
    if e > 0 {
        let prev = sorted_below(ids, (e - 1) as nat);
        let mine = routes_of(ids, e - 1, ids.len());
        lemma_sorted_below(ids, (e - 1) as nat);
        lemma_routes_of(ids, e - 1, ids.len());
        if l < prev.len() {
            law_expert_major_and_stable(ids, (e - 1) as nat, k, l);
        } else {
            assert(sorted_below(ids, e)[l] == mine[l - prev.len()]);
            if k < prev.len() {
                assert(sorted_below(ids, e)[k] == prev[k]);
            } else {
                assert(sorted_below(ids, e)[k] == mine[k - prev.len()]);
            }
        }
    }
}

proof fn lemma_route_listed(ids: Seq<u32>, e: int, n: nat, route: int) -> (k: int)
    requires
        n <= ids.len() <= u32::MAX,
        0 <= route < n,
        ids[route] == e,
    ensures
        0 <= k < routes_of(ids, e, n).len(),
        routes_of(ids, e, n)[k] == route,
    decreases n,
{
    if route == n - 1 {
        routes_of(ids, e, n).len() - 1
    } else {
        lemma_route_listed(ids, e, (n - 1) as nat, route)
    }
}

proof fn lemma_row_of(ids: Seq<u32>, e: nat, route: int) -> (k: int)
    requires
        ids.len() <= u32::MAX,
        0 <= route < ids.len(),
        ids[route] < e,
    ensures
        0 <= k < sorted_below(ids, e).len(),
        sorted_below(ids, e)[k] == route,
    decreases e,
{
    if ids[route] == e - 1 {
        let j = lemma_route_listed(ids, e - 1, ids.len(), route);
        sorted_below(ids, (e - 1) as nat).len() + j
    } else {
        lemma_row_of(ids, (e - 1) as nat, route)
    }
}

/// The route map and the row map are inverse to each other, in both directions.
pub proof fn law_maps_round_trip(w: DecodeWorklist, ids: Seq<u32>, num_experts: nat)
    requires
        ids.len() <= u32::MAX,
        forall|i: int| 0 <= i < ids.len() ==> ids[i] < num_experts,
        w.lists(ids, num_experts),
    ensures
        w.sorted_routes@.len() == ids.len(),
        forall|k: int|
            0 <= k < ids.len() ==> w.route_to_sorted@[#[trigger] w.sorted_routes@[k] as int] == k,
        forall|route: int|
            0 <= route < ids.len() ==> #[trigger] w.route_to_sorted@[route] < ids.len()
                && w.sorted_routes@[w.route_to_sorted@[route] as int] == route,
{
    lemma_sorted_len(ids, num_experts);
    assert forall|route: int| 0 <= route < ids.len() implies #[trigger] w.route_to_sorted@[route]
        < ids.len() && w.sorted_routes@[w.route_to_sorted@[route] as int] == route by {
        let k = lemma_row_of(ids, num_experts, route);
        assert(w.sorted_routes@[k] == route);
    }
}

/// Group `g` starts where the groups before it end, holds one to eight rows,
/// all of its own expert, and is cut short only where its expert ends.
pub open spec fn group_ok(groups: Seq<DecodeExpertGroup>, sorted: Seq<u32>, ids: Seq<u32>, g: int) -> bool {
    let here = groups[g];
    &&& 1 <= here.rows <= 8
    &&& here.route_start + here.rows <= sorted.len()
    &&& g == 0 ==> here.route_start == 0
    &&& g + 1 < groups.len() ==> groups[g + 1].route_start == here.route_start + here.rows
    &&& g + 1 == groups.len() ==> here.route_start + here.rows == sorted.len()
    &&& here.rows < 8 && g + 1 < groups.len() ==> here.expert_id < groups[g + 1].expert_id
    &&& forall|k: int|
        here.route_start <= k < here.route_start + here.rows ==> ids[#[trigger] sorted[k] as int]
            == here.expert_id
}

/// Groups cut the worklist into consecutive runs of one expert each, and only
/// an expert with more than eight rows is split, into runs of eight.
pub proof fn law_groups_tile_the_worklist(ids: Seq<u32>, num_experts: nat)
    requires
        ids.len() <= u32::MAX,
        num_experts <= u32::MAX,
        sorted_below(ids, num_experts).len() <= ids.len(),
    ensures
        forall|g: int|
            0 <= g < groups_below(ids, num_experts).len() ==> #[trigger] group_ok(
                groups_below(ids, num_experts),
                sorted_below(ids, num_experts),
                ids,
                g,
            ),
        groups_below(ids, num_experts).len() == 0 <==> sorted_below(ids, num_experts).len() == 0,
        forall|g: int|
            0 <= g < groups_below(ids, num_experts).len() ==> (#[trigger] groups_below(
                ids,
                num_experts,
            )[g]).expert_id < num_experts,
    decreases num_experts,
{
    let e = num_experts;
    if e > 0 {
        let pg = groups_below(ids, (e - 1) as nat);
        let ps = sorted_below(ids, (e - 1) as nat);
        let mine = routes_of(ids, e - 1, ids.len());
        let mg = chunk_groups(e - 1, ps.len() as int, mine.len() as int);
        law_groups_tile_the_worklist(ids, (e - 1) as nat);
        lemma_routes_of(ids, e - 1, ids.len());
        let groups = pg + mg;
        let sorted = ps + mine;
        assert forall|g: int| 0 <= g < groups.len() implies #[trigger] group_ok(
            groups,
            sorted,
            ids,
            g,
        ) by {
            if g < pg.len() {
                assert(group_ok(pg, ps, ids, g));
                assert(groups[g] == pg[g]);
                assert(forall|k: int| 0 <= k < ps.len() ==> sorted[k] == ps[k]);
                if g + 1 < pg.len() {
                    assert(groups[g + 1] == pg[g + 1]);
                } else if g + 1 < groups.len() {
                    assert(groups[g + 1] == mg[0]);
                }
            } else {
                let j = g - pg.len();
                assert(groups[g] == mg[j]);
                if g + 1 < groups.len() {
                    assert(groups[g + 1] == mg[j + 1]);
                }
                if j == 0 && pg.len() > 0 {
                    assert(group_ok(pg, ps, ids, pg.len() - 1));
                }
                assert forall|k: int|
                    groups[g].route_start <= k < groups[g].route_start
                        + groups[g].rows implies ids[#[trigger] sorted[k] as int]
                    == groups[g].expert_id by {
                    assert(sorted[k] == mine[k - ps.len()]);
                }
            }
        }
        assert forall|g: int| 0 <= g < groups.len() implies (#[trigger] groups[g]).expert_id < e by {
            if g < pg.len() {
                assert(groups[g] == pg[g]);
            } else {
                assert(groups[g] == mg[g - pg.len()]);
            }
        }
    }
}

/// Rows of all groups together.
pub open spec fn total_rows(groups: Seq<DecodeExpertGroup>) -> nat
    decreases groups.len(),
{
    if groups.len() == 0 {
        0
    } else {
        total_rows(groups.drop_last()) + groups.last().rows as nat
    }
}

proof fn lemma_total_rows_adds(a: Seq<DecodeExpertGroup>, b: Seq<DecodeExpertGroup>)
    ensures
        total_rows(a + b) == total_rows(a) + total_rows(b),
    decreases b.len(),
{
    if b.len() == 0 {
        assert(a + b =~= a);
    } else {
        assert((a + b).drop_last() =~= a + b.drop_last());
        lemma_total_rows_adds(a, b.drop_last());
    }
}

/// The first `j` groups of one expert hold eight rows each, up to what there is.
proof fn lemma_chunk_rows(expert: int, start: int, count: int, j: int)
    requires
        0 <= count,
        0 <= j <= ceil_div(count, 8),
    ensures
        total_rows(chunk_groups(expert, start, count).take(j)) == if 8 * j < count {
            8 * j
        } else {
            count
        },
    decreases j,
{
    let all = chunk_groups(expert, start, count);
    if j > 0 {
        lemma_chunk_rows(expert, start, count, j - 1);
        assert(all.take(j).drop_last() =~= all.take(j - 1));
    }
}

proof fn lemma_groups_rows(ids: Seq<u32>, e: nat)
    ensures
        total_rows(groups_below(ids, e)) == sorted_below(ids, e).len(),
    decreases e,
{
    if e > 0 {
        let before = sorted_below(ids, (e - 1) as nat).len() as int;
        let count = routes_of(ids, e - 1, ids.len()).len() as int;
        let mine = chunk_groups(e - 1, before, count);
        lemma_groups_rows(ids, (e - 1) as nat);
        lemma_chunk_rows(e - 1, before, count, mine.len() as int);
        assert(mine.take(mine.len() as int) =~= mine);
        lemma_total_rows_adds(groups_below(ids, (e - 1) as nat), mine);
    }
}

/// A worklist has one live row for every route, and its groups hold that many rows
/// together: none is dropped, repeated or padded.
pub proof fn law_groups_hold_every_route_once(w: DecodeWorklist, ids: Seq<u32>, num_experts: nat)
    requires
        forall|i: int| 0 <= i < ids.len() ==> ids[i] < num_experts,
        w.lists(ids, num_experts),
    ensures
        w.sorted_routes@.len() == ids.len(),
        total_rows(w.groups@) == ids.len(),
{
    lemma_sorted_len(ids, num_experts);
    lemma_groups_rows(ids, num_experts);
}

} // verus!
