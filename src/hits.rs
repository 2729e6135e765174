use vstd::prelude::*;

use crate::types::EntityId;

verus! {

/// One hit reported by the hit-testing backend: an entity and its depth.
///
/// `depth_bits` is the bit pattern of a 32-bit float depth: smaller is closer.
#[derive(Clone, Copy, Debug, PartialEq, Eq, Structural)]
pub struct Hit {
    pub entity: EntityId,
    pub depth_bits: u32,
}

/// A ranked batch of hits. `order_bits` is the bit pattern of the batch's 32-bit
/// float priority: a higher order wins over any depth.
#[derive(Clone, Debug)]
pub struct HitBatch {
    pub order_bits: u32,
    pub picks: Vec<Hit>,
}

/// The bit pattern is a NaN: all exponent bits set and a non-zero fraction.
pub open spec fn f32_is_nan(b: u32) -> bool {
    (b & 0x7f80_0000u32) == 0x7f80_0000u32 && (b & 0x007f_ffffu32) != 0
}

/// Where a non-NaN bit pattern stands on the number line: sign and magnitude
/// read as an integer, so that `+0.0` and `-0.0` stand at the same place.
pub open spec fn f32_rank(b: u32) -> int {
    if (b & 0x8000_0000u32) != 0 {
        -((b & 0x7fff_ffffu32) as int)
    } else {
        (b & 0x7fff_ffffu32) as int
    }
}

/// `a < b` on the two floats: false if either is NaN.
pub open spec fn f32_lt(a: u32, b: u32) -> bool {
    !f32_is_nan(a) && !f32_is_nan(b) && f32_rank(a) < f32_rank(b)
}

/// `a == b` on the two floats: false if either is NaN.
pub open spec fn f32_eq(a: u32, b: u32) -> bool {
    !f32_is_nan(a) && !f32_is_nan(b) && f32_rank(a) == f32_rank(b)
}

/// A hit at `(order, depth)` ranks strictly above the best so far
/// `(best_order, best_depth)`: a higher order, or the same order and a smaller
/// depth. This is the float tuple comparison `(order, Reverse(depth)) > best`.
pub open spec fn beats_spec(order: u32, depth: u32, best_order: u32, best_depth: u32) -> bool {
    f32_lt(best_order, order) || (f32_eq(order, best_order) && f32_lt(depth, best_depth))
}

/// Bit pattern of negative infinity.
pub const NEG_INFINITY_BITS: u32 = 0xff80_0000u32;

/// Bit pattern of positive infinity.
pub const INFINITY_BITS: u32 = 0x7f80_0000u32;

/// The running best of a scan: the chosen entity, if any, and its key.
struct Best {
    target: Option<EntityId>,
    order: u32,
    depth: u32,
}

/// The state every scan starts from: nothing chosen, and the lowest key.
pub open spec fn initial_best() -> (Option<EntityId>, u32, u32) {
    (None, NEG_INFINITY_BITS, INFINITY_BITS)
}

/// One step of the scan: a hit that beats the best so far replaces it; while
/// nothing is chosen, any hit whose order and depth are numbers is taken.
pub open spec fn scan_step(order: u32, hit: Hit, acc: (Option<EntityId>, u32, u32)) -> (
    Option<EntityId>,
    u32,
    u32,
) {
    if beats_spec(order, hit.depth_bits, acc.1, acc.2) || (acc.0 is None && !f32_is_nan(order)
        && !f32_is_nan(hit.depth_bits)) {
        (Some(hit.entity), order, hit.depth_bits)
    } else {
        acc
    }
}

/// The scan over the picks of one batch, in order, starting from `acc`.
pub open spec fn scan_picks(order: u32, picks: Seq<Hit>, acc: (Option<EntityId>, u32, u32)) -> (
    Option<EntityId>,
    u32,
    u32,
)
    decreases picks.len(),
{
    if picks.len() == 0 {
        acc
    } else {
        scan_step(order, picks.last(), scan_picks(order, picks.drop_last(), acc))
    }
}

/// The scan over all batches, in order: the first hit with the greatest key.
pub open spec fn scan_batches(hits: Seq<HitBatch>) -> (Option<EntityId>, u32, u32)
    decreases hits.len(),
{
    if hits.len() == 0 {
        initial_best()
    } else {
        scan_picks(hits.last().order_bits, hits.last().picks@, scan_batches(hits.drop_last()))
    }
}

/// The entity occurs among the hits of some batch.
pub open spec fn hits_contain(hits: Seq<HitBatch>, e: EntityId) -> bool {
    exists|i: int, j: int|
        0 <= i < hits.len() && 0 <= j < hits[i].picks@.len() && (#[trigger] hits[i].picks@[j]).entity
            == e
}

/// The target of a frame: a locked entity that still occurs among the hits is
/// kept; otherwise, where acquiring is allowed, the best hit; otherwise none.
pub open spec fn select_target_spec(hits: Seq<HitBatch>, locked: Option<EntityId>, can_acquire: bool) -> Option<EntityId> {
    if locked is Some && hits_contain(hits, locked->0) {
        locked
    } else if can_acquire {
        scan_batches(hits).0
    } else {
        None
    }
}

/// The scan over one batch keeps what it started from or takes one of its picks.
proof fn lemma_scan_picks_source(order: u32, picks: Seq<Hit>, acc: (Option<EntityId>, u32, u32))
    ensures
        scan_picks(order, picks, acc).0 == acc.0 || exists|j: int|
            0 <= j < picks.len() && scan_picks(order, picks, acc).0 == Some(
                (#[trigger] picks[j]).entity,
            ),
    decreases picks.len(),
{
    if picks.len() > 0 {
        lemma_scan_picks_source(order, picks.drop_last(), acc);
        let prev = scan_picks(order, picks.drop_last(), acc);
        if prev.0 != acc.0 {
            let j = choose|j: int|
                0 <= j < picks.drop_last().len() && prev.0 == Some(
                    (#[trigger] picks.drop_last()[j]).entity,
                );
            assert(picks[j] == picks.drop_last()[j]);
        }
        assert(picks[picks.len() - 1] == picks.last());
    }
}

/// A target chosen by the scan is one of the hits.
pub proof fn lemma_best_is_a_hit(hits: Seq<HitBatch>)
    ensures
        scan_batches(hits).0 is Some ==> hits_contain(hits, scan_batches(hits).0->0),
    decreases hits.len(),
{
    if hits.len() > 0 {
        let rest = hits.drop_last();
        let last = hits.len() - 1;
        lemma_best_is_a_hit(rest);
        lemma_scan_picks_source(hits[last].order_bits, hits[last].picks@, scan_batches(rest));
        let r = scan_batches(hits).0;
        if r is Some {
            if r == scan_batches(rest).0 {
                let (i, j) = choose|i: int, j: int|
                    0 <= i < rest.len() && 0 <= j < rest[i].picks@.len() && (
                    #[trigger] rest[i].picks@[j]).entity == r->0;
                assert(hits[i] == rest[i]);
                assert(hits[i].picks@[j].entity == r->0);
            } else {
                let j = choose|j: int|
                    0 <= j < hits[last].picks@.len() && r == Some(
                        (#[trigger] hits[last].picks@[j]).entity,
                    );
                assert(hits[last].picks@[j].entity == r->0);
            }
        }
    }
}

/// Tells whether a bit pattern is a NaN.
fn is_nan_bits(b: u32) -> (r: bool)
    ensures
        r == f32_is_nan(b),
{
    (b & 0x7f80_0000u32) == 0x7f80_0000u32 && (b & 0x007f_ffffu32) != 0
}

/// The rank of a bit pattern as an integer.
fn rank_bits(b: u32) -> (r: i64)
    ensures
        r as int == f32_rank(b),
{
    if (b & 0x8000_0000u32) != 0 {
        -((b & 0x7fff_ffffu32) as i64)
    } else {
        (b & 0x7fff_ffffu32) as i64
    }
}

/// `a < b` on two floats given by their bit patterns.
pub fn f32_bits_lt(a: u32, b: u32) -> (r: bool)
    ensures
        r == f32_lt(a, b),
{
    !is_nan_bits(a) && !is_nan_bits(b) && rank_bits(a) < rank_bits(b)
}

/// `a == b` on two floats given by their bit patterns.
pub fn f32_bits_eq(a: u32, b: u32) -> (r: bool)
    ensures
        r == f32_eq(a, b),
{
    !is_nan_bits(a) && !is_nan_bits(b) && rank_bits(a) == rank_bits(b)
}

/// Whether a hit at `(order, depth)` ranks strictly above `(best_order, best_depth)`.
pub fn beats(order: u32, depth: u32, best_order: u32, best_depth: u32) -> (r: bool)
    ensures
        r == beats_spec(order, depth, best_order, best_depth),
{
    f32_bits_lt(best_order, order) || (f32_bits_eq(order, best_order) && f32_bits_lt(
        depth,
        best_depth,
    ))
}

/// Whether `e` occurs among the hits of any batch.
pub fn contains_entity(hits: &Vec<HitBatch>, e: EntityId) -> (r: bool)
    ensures
        r == hits_contain(hits@, e),
{
    let mut i: usize = 0;
    while i < hits.len()
        invariant
            0 <= i <= hits@.len(),
            forall|a: int, b: int|
                0 <= a < i && 0 <= b < hits@[a].picks@.len() ==> (#[trigger] hits@[a].picks@[b]).entity
                    != e,
        decreases hits.len() - i,
    {
        let picks = &hits[i].picks;
        let mut j: usize = 0;
        while j < picks.len()
            invariant
                0 <= i < hits@.len(),
                picks@ == hits@[i as int].picks@,
                0 <= j <= picks@.len(),
                forall|a: int, b: int|
                    0 <= a < i && 0 <= b < hits@[a].picks@.len() ==> (#[trigger] hits@[a].picks@[b]).entity
                        != e,
                forall|b: int| 0 <= b < j ==> (#[trigger] picks@[b]).entity != e,
            decreases picks.len() - j,
        {
            if picks[j].entity == e {
                assert(hits@[i as int].picks@[j as int].entity == e);
                return true;
            }
            j = j + 1;
        }
        i = i + 1;
    }
    false
}

/// The first hit with the greatest `(order, -depth)` key over all batches;
/// none when the scan takes no hit (see `scan_step`).
pub fn best_candidate(hits: &Vec<HitBatch>) -> (r: Option<EntityId>)
    ensures
        r == scan_batches(hits@).0,
{
    let mut best = Best { target: None, order: NEG_INFINITY_BITS, depth: INFINITY_BITS };
    let mut i: usize = 0;
    while i < hits.len()
        invariant
            0 <= i <= hits@.len(),
            (best.target, best.order, best.depth) == scan_batches(hits@.take(i as int)),
        decreases hits.len() - i,
    {
        let order = hits[i].order_bits;
        let picks = &hits[i].picks;
        let ghost start = scan_batches(hits@.take(i as int));
        let mut j: usize = 0;
        while j < picks.len()
            invariant
                0 <= i < hits@.len(),
                picks@ == hits@[i as int].picks@,
                order == hits@[i as int].order_bits,
                0 <= j <= picks@.len(),
                (best.target, best.order, best.depth) == scan_picks(
                    order,
                    picks@.take(j as int),
                    start,
                ),
            decreases picks.len() - j,
        {
            let hit = picks[j];
            assert(picks@.take(j + 1).drop_last() == picks@.take(j as int));
            if beats(order, hit.depth_bits, best.order, best.depth) || (best.target.is_none()
                && !is_nan_bits(order) && !is_nan_bits(hit.depth_bits)) {
                best = Best { target: Some(hit.entity), order, depth: hit.depth_bits };
            }
            j = j + 1;
        }
        assert(picks@.take(j as int) == picks@);
        assert(hits@.take(i + 1).drop_last() == hits@.take(i as int));
        i = i + 1;
    }
    assert(hits@.take(i as int) == hits@);
    best.target
}

/// The target of a frame (see `select_target_spec`).
pub fn select_target(hits: &Vec<HitBatch>, locked: Option<EntityId>, can_acquire: bool) -> (r:
    Option<EntityId>)
    ensures
        r == select_target_spec(hits@, locked, can_acquire),
{
    if let Some(e) = locked {
        if contains_entity(hits, e) {
            return Some(e);
        }
    }
    if can_acquire {
        best_candidate(hits)
    } else {
        None
    }
}

} // verus!
