use vstd::prelude::*;

use crate::random::random_between;

verus! {

/// Hit points of a freshly spawned swarm enemy.
pub const ENEMY_HP: i32 = 2;

/// The damage of a spear thrust: a thrust made in mid-jump hits twice as hard.
pub fn spear_damage(is_jumping: bool) -> (d: i32)
    ensures
        d == (if is_jumping { 2i32 } else { 1i32 }),
{
    if is_jumping { 2 } else { 1 }
}

/// The screen edge an enemy enters from.
#[derive(Clone, Copy, Debug, PartialEq, Eq, Structural)]
pub enum SpawnSide {
    Top,
    Bottom,
    Left,
    Right,
}

/// The edge for a roll drawn from `0..4`: 0 top, 1 bottom, 2 left, anything else right.
pub open spec fn spec_side_from_roll(roll: i32) -> SpawnSide {
    if roll == 0 {
        SpawnSide::Top
    } else if roll == 1 {
        SpawnSide::Bottom
    } else if roll == 2 {
        SpawnSide::Left
    } else {
        SpawnSide::Right
    }
}

/// The edge an enemy enters from, for the roll `roll`.
pub fn side_from_roll(roll: i32) -> (s: SpawnSide)
    ensures
        s == spec_side_from_roll(roll),
{
    if roll == 0 {
        SpawnSide::Top
    } else if roll == 1 {
        SpawnSide::Bottom
    } else if roll == 2 {
        SpawnSide::Left
    } else {
        SpawnSide::Right
    }
}

/// Draws the edge a new enemy enters from.
pub fn spawn_side() -> (s: SpawnSide)
    ensures
        exists|roll: i32| 0 <= roll < 4 && s == #[trigger] spec_side_from_roll(roll),
{
    let roll = random_between(0, 4);
    side_from_roll(roll)
}

/// The first index at or after `k` at which `near` holds.
pub open spec fn first_near(near: Seq<bool>, k: int) -> Option<int>
    decreases near.len() - k,
{
    if k < 0 || k >= near.len() {
        None
    } else if near[k] {
        Some(k)
    } else {
        first_near(near, k + 1)
    }
}

/// What one frame of spear thrusts does to an enemy.
#[derive(Clone, Copy, Debug, PartialEq, Eq, Structural)]
pub struct HitResult {
    /// The enemy's health after the frame.
    pub hp: i32,
    /// A spear struck the enemy this frame.
    pub hit: bool,
    /// The enemy was struck and has no health left.
    pub killed: bool,
}

/// Resolves the spears of one frame against one enemy.
///
/// `ready` says whether the enemy's hit cooldown has run out; `near[i]` says whether spear
/// `i` reaches the enemy and `damages[i]` is its damage. Only the first spear in reach
/// strikes, so one frame never hits an enemy twice.
pub fn strike_enemy(hp: i32, ready: bool, near: &Vec<bool>, damages: &Vec<i32>) -> (r: HitResult)
    requires
        near@.len() == damages@.len(),
        ready ==> (first_near(near@, 0) matches Some(k) ==> i32::MIN <= hp - damages@[k] <= i32::MAX),
    ensures
        !ready || first_near(near@, 0) is None ==> r == (HitResult { hp, hit: false, killed: false }),
        ready && first_near(near@, 0) is Some ==> r == (HitResult {
            hp: (hp - damages@[first_near(near@, 0)->0]) as i32,
            hit: true,
            killed: hp - damages@[first_near(near@, 0)->0] <= 0,
        }),
{
    if !ready {
        return HitResult { hp, hit: false, killed: false };
    }
    let mut i: usize = 0;
    while i < near.len()
        invariant
            ready,
            i <= near@.len(),
            near@.len() == damages@.len(),
            first_near(near@, 0) == first_near(near@, i as int),
            first_near(near@, 0) matches Some(k) ==> i32::MIN <= hp - damages@[k] <= i32::MAX,
        decreases near@.len() - i,
    {
        if near[i] {
            assert(first_near(near@, i as int) == Some(i as int));
            let left = hp - damages[i];
            return HitResult { hp: left, hit: true, killed: left <= 0 };
        }
        assert(first_near(near@, i as int) == first_near(near@, i + 1));
        i = i + 1;
    }
    assert(first_near(near@, i as int) is None);
    HitResult { hp, hit: false, killed: false }
}

/// The `hecs::Entity` index packed in the low 32 bits of an `Entity::to_bits` value.
pub open spec fn entity_id(bits: u64) -> int {
    bits as int % 0x1_0000_0000
}

/// The `hecs::Entity` generation packed in the high 32 bits of an `Entity::to_bits` value.
pub open spec fn entity_generation(bits: u64) -> int {
    bits as int / 0x1_0000_0000
}

/// Whether the entity of `a` comes before that of `b` in the order `hecs::Entity` derives:
/// by index first, then by generation.
pub open spec fn entity_before(a: u64, b: u64) -> bool {
    entity_id(a) < entity_id(b) || (entity_id(a) == entity_id(b) && entity_generation(a) < entity_generation(b))
}

/// Whether the entities of `s` come in strictly increasing `hecs::Entity` order.
pub open spec fn in_entity_order(s: Seq<u64>) -> bool {
    forall|i: int, j: int| 0 <= i < j < s.len() ==> entity_before(#[trigger] s[i], #[trigger] s[j])
}

/// Two entities are either the same or one comes before the other.
proof fn lemma_entity_order_total(a: u64, b: u64)
    ensures
        a == b || entity_before(a, b) || entity_before(b, a),
        !(entity_before(a, b) && entity_before(b, a)),
        !entity_before(a, a),
{
    assert(a as int == entity_generation(a) * 0x1_0000_0000 + entity_id(a));
    assert(b as int == entity_generation(b) * 0x1_0000_0000 + entity_id(b));
}

/// Whether the entity of `a` comes before that of `b` (index first, then generation).
fn entity_precedes(a: u64, b: u64) -> (r: bool)
    ensures
        r == entity_before(a, b),
{
    let ia = a % 0x1_0000_0000;
    let ib = b % 0x1_0000_0000;
    ia < ib || (ia == ib && a / 0x1_0000_0000 < b / 0x1_0000_0000)
}

/// The entities to remove at the end of a frame, each once, sorted as `hecs::Entity` sorts
/// (by index, then generation); each is given by its `Entity::to_bits` value.
pub fn despawn_list(ids: &Vec<u64>) -> (out: Vec<u64>)
    ensures
        in_entity_order(out@),
        forall|x: u64| out@.contains(x) <==> ids@.contains(x),
{
    let mut out: Vec<u64> = Vec::new();
    let mut i: usize = 0;
    while i < ids.len()
        invariant
            i <= ids@.len(),
            in_entity_order(out@),
            forall|x: u64| out@.contains(x) <==> ids@.take(i as int).contains(x),
        decreases ids@.len() - i,
    {
        let id = ids[i];
        let mut p: usize = 0;
        while p < out.len() && entity_precedes(out[p], id)
            invariant
                p <= out@.len(),
                forall|k: int| 0 <= k < p ==> entity_before(#[trigger] out@[k], id),
            decreases out@.len() - p,
        {
            p = p + 1;
        }
        let ghost before = out@;
        let present = p < out.len() && out[p] == id;
        if !present {
            out.insert(p, id);
            assert(out@ =~= before.take(p as int).push(id) + before.skip(p as int));
            proof {
                if p < before.len() {
                    lemma_entity_order_total(before[p as int], id);
                    assert(entity_before(id, before[p as int]));
                }
            }
            assert forall|a: int, b: int| 0 <= a < b < out@.len() implies entity_before(#[trigger] out@[a], #[trigger] out@[b]) by {
                if b < p {
                    assert(out@[a] == before[a] && out@[b] == before[b]);
                } else if b == p {
                    assert(out@[a] == before[a]);
                } else if a < p {
                    assert(out@[a] == before[a] && out@[b] == before[b - 1]);
                    if b - 1 > p {
                        assert(entity_before(before[p as int], before[b - 1]));
                    }
                } else if a == p {
                    assert(out@[b] == before[b - 1]);
                    if b - 1 > p {
                        assert(entity_before(before[p as int], before[b - 1]));
                    }
                } else {
                    assert(out@[a] == before[a - 1] && out@[b] == before[b - 1]);
                }
            }
        }
        let ghost seen = ids@.take(i as int);
        let ghost seen_next = ids@.take(i + 1);
        assert(seen_next =~= seen.push(id));
        assert forall|x: u64| out@.contains(x) <==> seen_next.contains(x) by {
            if x == id {
                assert(seen_next[i as int] == id);
                assert(out@[p as int] == id);
            } else {
                if out@.contains(x) {
                    let k = choose|k: int| 0 <= k < out@.len() && out@[k] == x;
                    if !present {
                        if k < p {
                            assert(before[k] == x);
                        } else {
                            assert(k != p);
                            assert(before[k - 1] == x);
                        }
                    }
                    assert(before.contains(x));
                    assert(seen.contains(x));
                    let w = choose|w: int| 0 <= w < i && seen[w] == x;
                    assert(seen_next[w] == x);
                }
                if seen_next.contains(x) {
                    let w = choose|w: int| 0 <= w < i + 1 && seen_next[w] == x;
                    assert(seen[w] == x);
                    assert(before.contains(x));
                    let k = choose|k: int| 0 <= k < before.len() && before[k] == x;
                    if !present {
                        if k < p {
                            assert(out@[k] == x);
                        } else {
                            assert(out@[k + 1] == x);
                        }
                    }
                }
            }
        }
        i = i + 1;
    }
    assert(ids@.take(ids@.len() as int) =~= ids@);
    out
}

} // verus!
