use vstd::prelude::*;
use crate::entity::{Entity, Instance};
use crate::fixed::COORD_LIMIT;

verus! {

/// Largest number of sprites one frame may order.
pub const MAX_RENDER_ENTITIES: usize = 100_000;

/// A sprite instance together with the integer depth key that fixes its
/// place in the draw order.
#[derive(Copy, Clone, PartialEq, Eq, Structural, Debug)]
pub struct KeyedInstance {
    pub key: i64,
    pub instance: Instance,
}

/// Depth-sort key of a sprite: its depth in thousandths of a unit, floored,
/// plus its x position rounded to the nearest five units.
pub open spec fn spec_depth_key(z: int, x: int) -> int {
    z / 10 + (x + 25000) / 50000
}

/// A depth key computed from in-range coordinates stays far inside `i64`.
pub proof fn lemma_depth_key_bounds(z: int, x: int)
    requires
        -COORD_LIMIT <= z <= COORD_LIMIT,
        -COORD_LIMIT <= x <= COORD_LIMIT,
    ensures
        -2_000_000_000_000 <= spec_depth_key(z, x) <= 2_000_000_000_000,
{
    vstd::arithmetic::div_mod::lemma_fundamental_div_mod(z, 10);
    vstd::arithmetic::div_mod::lemma_fundamental_div_mod(x + 25000, 50000);
    let q1 = z / 10;
    let r1 = z % 10;
    let q2 = (x + 25000) / 50000;
    let r2 = (x + 25000) % 50000;
    assert(-1_000_000_000_001 <= q1 <= 1_000_000_000_000 && -1_000_000_000 <= q2
        <= 1_000_000_000) by (nonlinear_arith)
        requires
            z == 10 * q1 + r1,
            0 <= r1 < 10,
            x + 25000 == 50000 * q2 + r2,
            0 <= r2 < 50000,
            -COORD_LIMIT <= z <= COORD_LIMIT,
            -COORD_LIMIT <= x <= COORD_LIMIT;
}

/// Whether some ordered instance already holds the key `k`.
pub open spec fn spec_keys_contain(s: Seq<KeyedInstance>, k: int) -> bool {
    exists|j: int| 0 <= j < s.len() && (#[trigger] s[j]).key == k
}

/// How many ordered instances hold a key at or above `k`.
pub open spec fn spec_count_keys_ge(s: Seq<KeyedInstance>, k: int) -> nat
    decreases s.len(),
{
    if s.len() == 0 {
        0
    } else {
        spec_count_keys_ge(s.drop_last(), k) + (if s.last().key >= k {
            1nat
        } else {
            0nat
        })
    }
}

proof fn lemma_count_le_len(s: Seq<KeyedInstance>, k: int)
    ensures
        spec_count_keys_ge(s, k) <= s.len(),
    decreases s.len(),
{
    if s.len() > 0 {
        lemma_count_le_len(s.drop_last(), k);
    }
}

proof fn lemma_count_monotone(s: Seq<KeyedInstance>, k: int)
    ensures
        spec_count_keys_ge(s, k + 1) <= spec_count_keys_ge(s, k),
    decreases s.len(),
{
    if s.len() > 0 {
        lemma_count_monotone(s.drop_last(), k);
    }
}

proof fn lemma_count_contains(s: Seq<KeyedInstance>, k: int)
    requires
        spec_keys_contain(s, k),
    ensures
        spec_count_keys_ge(s, k + 1) < spec_count_keys_ge(s, k),
    decreases s.len(),
{
    let j = choose|j: int| 0 <= j < s.len() && (#[trigger] s[j]).key == k;
    if j == s.len() - 1 {
        lemma_count_monotone(s.drop_last(), k);
    } else {
        assert(spec_keys_contain(s.drop_last(), k)) by {
            assert(s.drop_last()[j].key == k);
        }
        lemma_count_contains(s.drop_last(), k);
    }
}

/// The key an incoming sprite with preferred key `k` finally gets: the first
/// key at or above `k` not already taken.
pub open spec fn spec_resolve_key(s: Seq<KeyedInstance>, k: int) -> int
    decreases spec_count_keys_ge(s, k),
    via spec_resolve_key_decreases
{
    if spec_keys_contain(s, k) {
        spec_resolve_key(s, k + 1)
    } else {
        k
    }
}

#[via_fn]
proof fn spec_resolve_key_decreases(s: Seq<KeyedInstance>, k: int) {
    if spec_keys_contain(s, k) {
        lemma_count_contains(s, k);
    }
}

/// The resolved key is at or above the preferred key, is itself free, and
/// every key between the two is taken.
pub proof fn lemma_resolve_key_props(s: Seq<KeyedInstance>, k: int)
    ensures
        spec_resolve_key(s, k) >= k,
        !spec_keys_contain(s, spec_resolve_key(s, k)),
        spec_resolve_key(s, k) - k <= spec_count_keys_ge(s, k),
    decreases spec_count_keys_ge(s, k),
{
    if spec_keys_contain(s, k) {
        lemma_count_contains(s, k);
        lemma_resolve_key_props(s, k + 1);
    }
}

/// Where a new key lands in an ordered list: before the first instance whose
/// key is at or above it, scanning from position `j`.
pub open spec fn spec_insert_pos_from(s: Seq<KeyedInstance>, k: int, j: int) -> int
    decreases s.len() - j,
{
    if j < 0 || j >= s.len() {
        j
    } else if s[j].key < k {
        spec_insert_pos_from(s, k, j + 1)
    } else {
        j
    }
}

/// Where a new key lands in an ordered list.
pub open spec fn spec_insert_pos(s: Seq<KeyedInstance>, k: int) -> int {
    spec_insert_pos_from(s, k, 0)
}

/// Keys strictly increase along the ordered list; in particular no two
/// instances share a key.
pub open spec fn spec_sorted_strict(s: Seq<KeyedInstance>) -> bool {
    forall|a: int, b: int| 0 <= a < b < s.len() ==> (#[trigger] s[a]).key < (#[trigger] s[b]).key
}

proof fn lemma_insert_pos_from_props(s: Seq<KeyedInstance>, k: int, j: int)
    requires
        0 <= j <= s.len(),
    ensures
        j <= spec_insert_pos_from(s, k, j) <= s.len(),
        forall|m: int|
            j <= m < spec_insert_pos_from(s, k, j) ==> (#[trigger] s[m]).key < k,
        spec_insert_pos_from(s, k, j) < s.len() ==> s[spec_insert_pos_from(s, k, j)].key >= k,
    decreases s.len() - j,
{
    if j < s.len() && s[j].key < k {
        lemma_insert_pos_from_props(s, k, j + 1);
    }
}

/// In a strictly sorted list, the insertion point of a fresh key splits the
/// list into keys strictly below and strictly above it.
pub proof fn lemma_insert_pos_props(s: Seq<KeyedInstance>, k: int)
    requires
        spec_sorted_strict(s),
        !spec_keys_contain(s, k),
    ensures
        0 <= spec_insert_pos(s, k) <= s.len(),
        forall|m: int| 0 <= m < spec_insert_pos(s, k) ==> (#[trigger] s[m]).key < k,
        forall|m: int|
            spec_insert_pos(s, k) <= m < s.len() ==> (#[trigger] s[m]).key > k,
{
    lemma_insert_pos_from_props(s, k, 0);
    let p = spec_insert_pos(s, k);
    assert forall|m: int| p <= m < s.len() implies (#[trigger] s[m]).key > k by {
        if m == p {
            assert(s[m].key != k);
        } else {
            assert(s[p].key >= k);
            assert(s[p].key < s[m].key);
            assert(s[m].key != k);
        }
    }
}

/// The ordered list after one sprite is admitted: its preferred key is
/// resolved to a free one, its render depth is nudged a thousandth of a unit
/// for each step the key moved, and it is placed in key order.
pub open spec fn spec_add_entity(s: Seq<KeyedInstance>, e: Entity) -> Seq<KeyedInstance> {
    let base = spec_depth_key(e.pos.z as int, e.pos.x as int);
    let k = spec_resolve_key(s, base);
    let ki = KeyedInstance {
        key: k as i64,
        instance: Instance {
            x: e.instance.x,
            y: e.instance.y,
            z: (e.instance.z + 10 * (k - base)) as i64,
            tex_index: e.instance.tex_index,
        },
    };
    s.insert(spec_insert_pos(s, k), ki)
}

/// The ordered list after the first `n` entities of `es` are admitted in
/// order.
pub open spec fn spec_add_all(s: Seq<KeyedInstance>, es: Seq<Entity>, n: int) -> Seq<KeyedInstance>
    decreases n,
{
    if n <= 0 {
        s
    } else {
        spec_add_entity(spec_add_all(s, es, n - 1), es[n - 1])
    }
}

/// The whole frame's draw order: the free entities (player and projectiles)
/// followed by each chunk's entities, admitted in order.
pub open spec fn spec_render_order(
    entities: Seq<Entity>,
    chunk0: Seq<Entity>,
    chunk1: Seq<Entity>,
) -> Seq<KeyedInstance> {
    spec_add_all(
        spec_add_all(
            spec_add_all(Seq::empty(), entities, entities.len() as int),
            chunk0,
            chunk0.len() as int,
        ),
        chunk1,
        chunk1.len() as int,
    )
}

/// Admitting one sprite keeps the order strictly sorted and grows it by one.
pub proof fn lemma_add_entity_sorted(s: Seq<KeyedInstance>, e: Entity)
    requires
        spec_sorted_strict(s),
        -COORD_LIMIT <= e.pos.x <= COORD_LIMIT,
        -COORD_LIMIT <= e.pos.z <= COORD_LIMIT,
        s.len() < MAX_RENDER_ENTITIES,
    ensures
        spec_sorted_strict(spec_add_entity(s, e)),
        spec_add_entity(s, e).len() == s.len() + 1,
{
    let base = spec_depth_key(e.pos.z as int, e.pos.x as int);
    let k = spec_resolve_key(s, base);
    lemma_depth_key_bounds(e.pos.z as int, e.pos.x as int);
    lemma_resolve_key_props(s, base);
    lemma_count_le_len(s, base);
    assert(base <= k <= base + s.len());
    lemma_insert_pos_props(s, k);
    let p = spec_insert_pos(s, k);
    let t = spec_add_entity(s, e);
    let ki = KeyedInstance {
        key: k as i64,
        instance: Instance {
            x: e.instance.x,
            y: e.instance.y,
            z: (e.instance.z + 10 * (k - base)) as i64,
            tex_index: e.instance.tex_index,
        },
    };
    s.insert_ensures(p, ki);
    assert forall|a: int, b: int| 0 <= a < b < t.len() implies (#[trigger] t[a]).key < (
    #[trigger] t[b]).key by {
        if b < p {
            assert(t[a] == s[a]);
            assert(t[b] == s[b]);
        } else if b == p {
            assert(t[a] == s[a]);
            assert(t[b] == ki);
        } else {
            let bb = b - 1;
            assert(t[bb + 1] == s[bb]);
            if a < p {
                assert(t[a] == s[a]);
                assert(s[a].key < k);
                assert(s[bb].key > k);
            } else if a == p {
                assert(t[a] == ki);
                assert(s[bb].key > k);
            } else {
                let aa = a - 1;
                assert(t[aa + 1] == s[aa]);
                assert(s[aa].key < s[bb].key);
            }
        }
    }
}

/// Admitting a list of sprites keeps the order strictly sorted.
pub proof fn lemma_add_all_sorted(s: Seq<KeyedInstance>, es: Seq<Entity>, n: int)
    requires
        spec_sorted_strict(s),
        n <= es.len(),
        spec_entity_list_bounded(es),
        s.len() + n <= MAX_RENDER_ENTITIES,
    ensures
        spec_sorted_strict(spec_add_all(s, es, n)),
        spec_add_all(s, es, n).len() == s.len() + (if n >= 0 {
            n
        } else {
            0
        }),
    decreases n,
{
    if n > 0 {
        lemma_add_all_sorted(s, es, n - 1);
        lemma_add_entity_sorted(spec_add_all(s, es, n - 1), es[n - 1]);
    }
}

/// The frame's draw order carries strictly increasing keys: every key
/// collision was resolved, no instance is lost, and the emitted order is
/// non-decreasing in key.
pub proof fn lemma_render_order_resolved(
    entities: Seq<Entity>,
    chunk0: Seq<Entity>,
    chunk1: Seq<Entity>,
)
    requires
        spec_entity_list_bounded(entities),
        spec_entity_list_bounded(chunk0),
        spec_entity_list_bounded(chunk1),
        entities.len() + chunk0.len() + chunk1.len() <= MAX_RENDER_ENTITIES,
    ensures
        spec_sorted_strict(spec_render_order(entities, chunk0, chunk1)),
        spec_render_order(entities, chunk0, chunk1).len() == entities.len() + chunk0.len()
            + chunk1.len(),
        forall|a: int, b: int|
            0 <= a < b < spec_render_order(entities, chunk0, chunk1).len() ==> (
            #[trigger] spec_render_order(entities, chunk0, chunk1)[a]).key != (
            #[trigger] spec_render_order(entities, chunk0, chunk1)[b]).key,
{
    let s0 = spec_add_all(Seq::empty(), entities, entities.len() as int);
    lemma_add_all_sorted(Seq::empty(), entities, entities.len() as int);
    lemma_add_all_sorted(s0, chunk0, chunk0.len() as int);
    lemma_add_all_sorted(spec_add_all(s0, chunk0, chunk0.len() as int), chunk1, chunk1.len() as int);
}

/// All coordinates of a free entity list stay within the supported range.
pub open spec fn spec_entity_list_bounded(es: Seq<Entity>) -> bool {
    forall|k: int|
        0 <= k < es.len() ==> {
            &&& -COORD_LIMIT <= (#[trigger] es[k]).pos.x <= COORD_LIMIT
            &&& -COORD_LIMIT <= es[k].pos.z <= COORD_LIMIT
            &&& -COORD_LIMIT <= es[k].instance.z <= COORD_LIMIT
        }
}

/// Depth-sort key of a sprite.
pub fn hash_depth(z: i64, x: i64) -> (k: i64)
    requires
        -COORD_LIMIT <= z <= COORD_LIMIT,
        -COORD_LIMIT <= x <= COORD_LIMIT,
    ensures
        k == spec_depth_key(z as int, x as int),
        -2_000_000_000_000 <= k <= 2_000_000_000_000,
{
    proof {
        vstd::arithmetic::div_mod::lemma_fundamental_div_mod(z as int, 10);
        vstd::arithmetic::div_mod::lemma_fundamental_div_mod(x as int + 25000, 50000);
        let q1 = (z as int) / 10;
        let r1 = (z as int) % 10;
        let q2 = (x as int + 25000) / 50000;
        let r2 = (x as int + 25000) % 50000;
        assert(-1_000_000_000_001 <= q1 <= 1_000_000_000_000 && -1_000_000_000 <= q2
            <= 1_000_000_000) by (nonlinear_arith)
            requires
                z == 10 * q1 + r1,
                0 <= r1 < 10,
                (x as int) + 25000 == 50000 * q2 + r2,
                0 <= r2 < 50000,
                -COORD_LIMIT <= z <= COORD_LIMIT,
                -COORD_LIMIT <= x <= COORD_LIMIT;
    }
    z.checked_div_euclid(10).unwrap() + (x + 25000).checked_div_euclid(50000).unwrap()
}

/// Whether some ordered instance already holds the key `k`.
fn contains_key(out: &Vec<KeyedInstance>, k: i64) -> (r: bool)
    ensures
        r == spec_keys_contain(out@, k as int),
{
    let mut j: usize = 0;
    while j < out.len()
        invariant
            j <= out@.len(),
            forall|m: int| 0 <= m < j ==> (#[trigger] out@[m]).key != k,
        decreases out@.len() - j,
    {
        if out[j].key == k {
            return true;
        }
        j = j + 1;
    }
    false
}

/// Admit each entity of `entities` into the ordered instance list: resolve
/// its depth key to a free one, nudging its render depth along, and place it
/// in key order.
fn add_raw_entities(entities: &Vec<Entity>, out: &mut Vec<KeyedInstance>)
    requires
        spec_sorted_strict(old(out)@),
        spec_entity_list_bounded(entities@),
        old(out)@.len() + entities@.len() <= MAX_RENDER_ENTITIES,
    ensures
        final(out)@ == spec_add_all(old(out)@, entities@, entities@.len() as int),
        spec_sorted_strict(final(out)@),
        final(out)@.len() == old(out)@.len() + entities@.len(),
{
    let ghost orig = out@;
    let n = entities.len();
    for i in 0..n
        invariant
            n == entities@.len(),
            spec_entity_list_bounded(entities@),
            orig.len() + entities@.len() <= MAX_RENDER_ENTITIES,
            out@ == spec_add_all(orig, entities@, i as int),
            out@.len() == orig.len() + i,
            spec_sorted_strict(out@),
    {
        let e = entities[i];
        let base = hash_depth(e.pos.z, e.pos.x);
        let mut key = base;
        proof {
            lemma_count_le_len(out@, base as int);
        }
        let mut taken = contains_key(out, key);
        while taken
            invariant
                taken == spec_keys_contain(out@, key as int),
                base <= key,
                spec_resolve_key(out@, base as int) == spec_resolve_key(out@, key as int),
                key - base + spec_count_keys_ge(out@, key as int) <= out@.len(),
                out@.len() <= MAX_RENDER_ENTITIES,
                -2_000_000_000_000 <= base <= 2_000_000_000_000,
            decreases spec_count_keys_ge(out@, key as int),
        {
            proof {
                lemma_count_contains(out@, key as int);
            }
            key = key + 1;
            taken = contains_key(out, key);
        }
        proof {
            assert(spec_resolve_key(out@, key as int) == key as int);
            assert(key as int == spec_resolve_key(out@, base as int));
            lemma_resolve_key_props(out@, base as int);
            lemma_insert_pos_props(out@, key as int);
        }
        let z_off = 10 * (key - base);
        let inst = Instance {
            x: e.instance.x,
            y: e.instance.y,
            z: e.instance.z + z_off,
            tex_index: e.instance.tex_index,
        };
        let ki = KeyedInstance { key, instance: inst };

        let mut p: usize = 0;
        while p < out.len() && out[p].key < key
            invariant
                p <= out@.len(),
                spec_insert_pos(out@, key as int) == spec_insert_pos_from(
                    out@,
                    key as int,
                    p as int,
                ),
            decreases out@.len() - p,
        {
            p = p + 1;
        }
        proof {
            assert(spec_insert_pos(out@, key as int) == p as int);
        }
        let ghost before = out@;
        out.insert(p, ki);
        proof {
            lemma_add_entity_sorted(before, e);
            assert(out@ == spec_add_entity(before, e));
            assert(out@ =~= spec_add_all(orig, entities@, i as int + 1));
        }
    }
}

/// Build the frame's instance list: every live sprite, each under a unique
/// depth key, emitted back to front in ascending key order.
pub fn create_entity_instances(
    entities: &Vec<Entity>,
    chunk_entities: &Vec<Vec<Entity>>,
) -> (out: Vec<KeyedInstance>)
    requires
        chunk_entities@.len() == 2,
        spec_entity_list_bounded(entities@),
        spec_entity_list_bounded(chunk_entities@[0]@),
        spec_entity_list_bounded(chunk_entities@[1]@),
        entities@.len() + chunk_entities@[0]@.len() + chunk_entities@[1]@.len()
            <= MAX_RENDER_ENTITIES,
    ensures
        out@ == spec_render_order(entities@, chunk_entities@[0]@, chunk_entities@[1]@),
        spec_sorted_strict(out@),
        out@.len() == entities@.len() + chunk_entities@[0]@.len() + chunk_entities@[1]@.len(),
{
    let mut out: Vec<KeyedInstance> = Vec::new();
    add_raw_entities(entities, &mut out);
    let c0 = &chunk_entities[0];
    add_raw_entities(c0, &mut out);
    let c1 = &chunk_entities[1];
    add_raw_entities(c1, &mut out);
    out
}

} // verus!
