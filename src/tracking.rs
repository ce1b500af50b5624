//! Following one entity through whole ticks.
use vstd::prelude::*;

use crate::input::PlayerInput;
use crate::player::input_for;
use crate::units::DEAD_ZONE;
use crate::pipeline::{
    act, aged, doomed, expired, finish, lemma_concat_wf, lemma_shoot_prefix_frame,
    lemma_survivors_wf, lemma_tick_wf, replay, rotated, same_frame, shoot_prefix, survivors,
    tick_spec,
};
use crate::store::{
    entities_wf, entity_wf, has_id, ids_increasing, index_of, lemma_index_of_unique, lookup, Entity,
    WorldState,
};

verus! {

/// The entity at position `i` is among the survivors of the first `k` exactly when it
/// is not doomed, and then it is found unchanged.
proof fn lemma_survivors_member(s: Seq<Entity>, next_id: u64, k: nat, i: int)
    requires
        entities_wf(s, next_id),
        0 <= i < k <= s.len(),
    ensures
        has_id(survivors(s, k), s[i].id) == !doomed(s, i),
        !doomed(s, i) ==> lookup(survivors(s, k), s[i].id) == Some(s[i]),
    decreases k,
{
    let r = survivors(s, (k - 1) as nat);
    lemma_survivors_wf(s, next_id, (k - 1) as nat);
    lemma_survivors_wf(s, next_id, k);
    let r2 = survivors(s, k);
    let id = s[i].id;
    if i < k - 1 {
        lemma_survivors_member(s, next_id, (k - 1) as nat, i);
        assert(s[i].id < s[k - 1].id);
        if !doomed(s, k - 1) {
            assert(r2 == r.push(s[k - 1]));
            if has_id(r2, id) {
                let j = choose|j: int| 0 <= j < r2.len() && r2[j].id == id;
                assert(j < r.len());
                assert(r[j].id == id);
            }
            if has_id(r, id) {
                let j = index_of(r, id);
                assert(r2[j] == r[j]);
                assert(has_id(r2, id));
                if !doomed(s, i) {
                    lemma_index_of_unique(r2, id, j);
                }
            }
        } else {
            assert(r2 == r);
        }
    } else {
        if doomed(s, i) {
            assert(r2 == r);
            if has_id(r, id) {
                let j = choose|j: int| 0 <= j < r.len() && r[j].id == id;
                assert(r[j].id < s[k - 1].id);
            }
        } else {
            assert(r2 == r.push(s[k - 1]));
            assert(r2[r.len() as int] == s[i]);
            lemma_index_of_unique(r2, id, r.len() as int);
        }
    }
}

/// The fields that decide an entity's lifetime: what the phases before the
/// cleanup never touch.
pub open spec fn same_life(a: Entity, b: Entity) -> bool {
    a.id == b.id && a.parent == b.parent && a.lifetime == b.lifetime && a.spawned_at == b.spawned_at
}

/// One tick for an entity without a parent: it is still there afterwards exactly
/// when its lifetime, advanced by this tick, has not run out (an entity without a
/// lifetime always stays), and then it carries that advanced lifetime and the
/// facing and aim its own input gave it.
pub proof fn lemma_tick_lifetime(w: WorldState, inputs: Seq<PlayerInput>, i: int)
    requires
        w.wf(),
        0 <= i < w.entities.len(),
        w.entities[i].parent is None,
    ensures
        has_id(tick_spec(w, inputs).entities, w.entities[i].id) == !expired(aged(w.entities[i], w.now)),
        !expired(aged(w.entities[i], w.now)) ==> (lookup(tick_spec(w, inputs).entities, w.entities[i].id)
            matches Some(x) && same_life(x, aged(w.entities[i], w.now)) && x.facing == act(
            w.entities[i],
            inputs,
        ).facing && x.aiming == act(w.entities[i], inputs).aiming),
{
    let e0 = w.entities[i];
    let a = w.entities.map_values(|e: Entity| act(e, inputs));
    assert(same_frame(a[i], e0) && same_life(a[i], e0));
    assert(forall|j: int| 0 <= j < a.len() ==> same_frame(#[trigger] a[j], w.entities[j]));
    assert(entities_wf(a, w.next_id));
    let b = a.map_values(|e: Entity| rotated(a, e));
    assert(same_life(b[i], e0));
    assert(forall|j: int| 0 <= j < b.len() ==> same_frame(#[trigger] b[j], a[j]));
    assert(entities_wf(b, w.next_id));
    lemma_shoot_prefix_frame(b, inputs, w.now, w.next_id, b.len());
    let (upd, spawned) = shoot_prefix(b, inputs, w.now, w.next_id, b.len());
    assert forall|j: int| 0 <= j < b.len() implies same_frame(#[trigger] upd[j], b[j]) by {
        assert(upd[j] == (Entity { gun: upd[j].gun, ..b[j] }));
    }
    assert(upd[i] == (Entity { gun: upd[i].gun, ..b[i] }));
    lemma_concat_wf(b, upd, spawned, w.next_id);
    let c = upd + spawned;
    assert(c[i] == upd[i]);
    assert(same_life(c[i], e0));
    assert(c[i].facing == a[i].facing && c[i].aiming == a[i].aiming);
    let next_id = (w.next_id + spawned.len()) as u64;
    let d0 = c.map_values(|e: Entity| aged(e, w.now));
    assert(forall|j: int| 0 <= j < d0.len() ==> same_frame(#[trigger] d0[j], c[j]));
    assert(entities_wf(d0, next_id));
    assert(same_life(d0[i], aged(e0, w.now)));
    assert(doomed(d0, i) == expired(d0[i]));
    lemma_survivors_member(d0, next_id, d0.len(), i);
    lemma_survivors_wf(d0, next_id, d0.len());
    let d = survivors(d0, d0.len());
    let out = d.map_values(|x: Entity| finish(x, inputs, w.bounds, w.now));
    assert(forall|j: int|
        0 <= j < out.len() ==> same_frame(#[trigger] out[j], d[j]) && same_life(out[j], d[j])
            && out[j].facing == d[j].facing && out[j].aiming == d[j].aiming);
    assert(ids_increasing(out));
    assert(out == tick_spec(w, inputs).entities);
    let id = e0.id;
    if has_id(out, id) {
        let j = choose|j: int| 0 <= j < out.len() && out[j].id == id;
        assert(d[j].id == id);
        assert(has_id(d, id));
    }
    if has_id(d, id) {
        let j = index_of(d, id);
        assert(out[j].id == id);
        assert(has_id(out, id));
        if !doomed(d0, i) {
            lemma_index_of_unique(d, id, j);
            lemma_index_of_unique(out, id, j);
        }
    }
}

/// Facing through the full pipeline: a player whose horizontal input stays inside
/// the dead-zone for a tick keeps its facing over that tick.
pub proof fn lemma_tick_facing_dead_zone(w: WorldState, inputs: Seq<PlayerInput>, i: int)
    requires
        w.wf(),
        0 <= i < w.entities.len(),
        w.entities[i].parent is None,
        w.entities[i].lifetime is None,
        w.entities[i].player matches Some(p) && -DEAD_ZONE <= input_for(inputs, p).axis_x
            <= DEAD_ZONE,
    ensures
        lookup(tick_spec(w, inputs).entities, w.entities[i].id) matches Some(x) && x.facing
            == w.entities[i].facing,
{
    lemma_tick_lifetime(w, inputs, i);
}

/// Lifetime of a projectile through the full pipeline: an entity without a parent,
/// spawned on the current tick with a lifetime of `n` ticks, is still in the store
/// after `k` ticks exactly when `k <= n`, whatever the inputs. It goes in the tick
/// `n` ticks after its spawn, never earlier or later.
pub proof fn lemma_projectile_lifetime(w: WorldState, rows: Seq<Seq<PlayerInput>>, i: int, n: u64)
    requires
        w.wf(),
        0 <= i < w.entities.len(),
        w.entities[i].parent is None,
        w.entities[i].spawned_at == w.now,
        w.entities[i].lifetime matches Some(l) && l.timer.remaining == n,
        w.now + rows.len() < u64::MAX,
    ensures
        has_id(replay(w, rows).entities, w.entities[i].id) <==> rows.len() <= n,
{
    lemma_projectile_lifetime_state(w, rows, i, n);
}

proof fn lemma_projectile_lifetime_state(w: WorldState, rows: Seq<Seq<PlayerInput>>, i: int, n: u64)
    requires
        w.wf(),
        0 <= i < w.entities.len(),
        w.entities[i].parent is None,
        w.entities[i].spawned_at == w.now,
        w.entities[i].lifetime matches Some(l) && l.timer.remaining == n,
        w.now + rows.len() < u64::MAX,
    ensures
        replay(w, rows).wf(),
        replay(w, rows).now == w.now + rows.len(),
        replay(w, rows).next_id >= w.next_id,
        has_id(replay(w, rows).entities, w.entities[i].id) <==> rows.len() <= n,
        rows.len() <= n ==> (lookup(replay(w, rows).entities, w.entities[i].id) matches Some(x) && {
            &&& x.parent is None
            &&& x.spawned_at == w.now
            &&& x.lifetime matches Some(l) && l.timer.remaining == (if rows.len() <= 1 {
                n as int
            } else {
                n - (rows.len() - 1)
            })
        }),
    decreases rows.len(),
{
    let id = w.entities[i].id;
    if rows.len() == 0 {
        lemma_index_of_unique(w.entities, id, i);
    } else {
        let prev = rows.drop_last();
        lemma_projectile_lifetime_state(w, prev, i, n);
        let v = replay(w, prev);
        lemma_tick_wf(v, rows.last());
        assert(replay(w, rows) == tick_spec(v, rows.last()));
        if prev.len() <= n {
            let x = lookup(v.entities, id).unwrap();
            let j = index_of(v.entities, id);
            assert(v.entities[j] == x);
            lemma_tick_lifetime(v, rows.last(), j);
            let x2 = aged(x, v.now);
            if prev.len() == 0 {
                assert(v.now == x.spawned_at);
            } else {
                assert(v.now != x.spawned_at);
            }
        } else {
            assert(w.entities[i].id < w.next_id);
            lemma_gone_stays_gone(v, rows.last(), id);
        }
    }
}

/// A tick never brings back an identifier it did not hold: new entities get
/// identifiers from `next_id` on.
proof fn lemma_gone_stays_gone(w: WorldState, inputs: Seq<PlayerInput>, id: u64)
    requires
        w.wf(),
        !has_id(w.entities, id),
        id < w.next_id,
    ensures
        !has_id(tick_spec(w, inputs).entities, id),
{
    let a = w.entities.map_values(|e: Entity| act(e, inputs));
    let b = a.map_values(|e: Entity| rotated(a, e));
    assert(forall|j: int| 0 <= j < a.len() ==> same_frame(#[trigger] a[j], w.entities[j]));
    assert(forall|j: int| 0 <= j < b.len() ==> same_frame(#[trigger] b[j], a[j]));
    assert(entities_wf(a, w.next_id));
    assert(entities_wf(b, w.next_id));
    lemma_shoot_prefix_frame(b, inputs, w.now, w.next_id, b.len());
    let (upd, spawned) = shoot_prefix(b, inputs, w.now, w.next_id, b.len());
    let c = upd + spawned;
    assert(!has_id(c, id)) by {
        if has_id(c, id) {
            let j = choose|j: int| 0 <= j < c.len() && c[j].id == id;
            if j < upd.len() {
                assert(upd[j] == (Entity { gun: upd[j].gun, ..b[j] }));
                assert(w.entities[j].id == id);
            } else {
                assert(c[j] == spawned[j - upd.len()]);
            }
        }
    }
    let d0 = c.map_values(|e: Entity| aged(e, w.now));
    assert(!has_id(d0, id)) by {
        if has_id(d0, id) {
            let j = choose|j: int| 0 <= j < d0.len() && d0[j].id == id;
            assert(c[j].id == id);
        }
    }
    lemma_survivors_absent(d0, d0.len(), id);
    let d = survivors(d0, d0.len());
    let out = d.map_values(|x: Entity| finish(x, inputs, w.bounds, w.now));
    assert(out == tick_spec(w, inputs).entities);
    if has_id(out, id) {
        let j = choose|j: int| 0 <= j < out.len() && out[j].id == id;
        assert(same_frame(out[j], d[j]));
        assert(d[j].id == id);
    }
}

proof fn lemma_survivors_absent(s: Seq<Entity>, k: nat, id: u64)
    requires
        !has_id(s, id),
    ensures
        !has_id(survivors(s, k), id),
    decreases k,
{
    if k > 0 && k <= s.len() {
        lemma_survivors_absent(s, (k - 1) as nat, id);
        let r = survivors(s, (k - 1) as nat);
        let r2 = survivors(s, k);
        if has_id(r2, id) {
            let j = choose|j: int| 0 <= j < r2.len() && r2[j].id == id;
            if !doomed(s, k - 1) && j == r.len() {
                assert(s[k - 1].id == id);
            } else {
                assert(r2[j] == r[j]);
            }
        }
    }
}

/// Cleanup takes descendants along: the child of an entity that goes is doomed
/// too, and goes in the same cleanup; by induction, so do all its descendants.
pub proof fn lemma_cleanup_takes_children(s: Seq<Entity>, next_id: u64, i: int, j: int)
    requires
        entities_wf(s, next_id),
        0 <= i < s.len(),
        0 <= j < s.len(),
        s[j].parent == Some(s[i].id),
        doomed(s, i),
    ensures
        doomed(s, j),
        !has_id(survivors(s, s.len()), s[j].id),
{
    assert(entity_wf(s[j]));
    lemma_index_of_unique(s, s[i].id, i);
    if j <= i {
        assert(s[j].id <= s[i].id);
    }
    assert(i < j);
    lemma_survivors_member(s, next_id, s.len(), j);
}

/// An entity that is doomed is gone after the cleanup, and one that is not stays.
pub proof fn lemma_cleanup_removes_doomed(s: Seq<Entity>, next_id: u64, i: int)
    requires
        entities_wf(s, next_id),
        0 <= i < s.len(),
    ensures
        has_id(survivors(s, s.len()), s[i].id) == !doomed(s, i),
{
    lemma_survivors_member(s, next_id, s.len(), i);
}

/// Descendants go with their ancestor: in the tick where an entity's lifetime
/// runs out, its children leave the store too (and theirs, by the same law).
pub proof fn lemma_tick_takes_children(w: WorldState, inputs: Seq<PlayerInput>, i: int, j: int)
    requires
        w.wf(),
        0 <= i < w.entities.len(),
        0 <= j < w.entities.len(),
        w.entities[i].parent is None,
        expired(aged(w.entities[i], w.now)),
        w.entities[j].parent == Some(w.entities[i].id),
    ensures
        !has_id(tick_spec(w, inputs).entities, w.entities[i].id),
        !has_id(tick_spec(w, inputs).entities, w.entities[j].id),
{
    lemma_tick_lifetime(w, inputs, i);
    let a = w.entities.map_values(|e: Entity| act(e, inputs));
    assert(forall|k: int| 0 <= k < a.len() ==> same_frame(#[trigger] a[k], w.entities[k]));
    assert(entities_wf(a, w.next_id));
    let b = a.map_values(|e: Entity| rotated(a, e));
    assert(forall|k: int| 0 <= k < b.len() ==> same_frame(#[trigger] b[k], a[k]));
    assert(entities_wf(b, w.next_id));
    lemma_shoot_prefix_frame(b, inputs, w.now, w.next_id, b.len());
    let (upd, spawned) = shoot_prefix(b, inputs, w.now, w.next_id, b.len());
    assert forall|k: int| 0 <= k < b.len() implies same_frame(#[trigger] upd[k], b[k]) by {
        assert(upd[k] == (Entity { gun: upd[k].gun, ..b[k] }));
    }
    assert(upd[i] == (Entity { gun: upd[i].gun, ..b[i] }));
    lemma_concat_wf(b, upd, spawned, w.next_id);
    let c = upd + spawned;
    let next_id = (w.next_id + spawned.len()) as u64;
    let d0 = c.map_values(|e: Entity| aged(e, w.now));
    assert(forall|k: int| 0 <= k < d0.len() ==> same_frame(#[trigger] d0[k], c[k]));
    assert(entities_wf(d0, next_id));
    assert(c[i] == upd[i] && c[j] == upd[j]);
    assert(same_life(d0[i], aged(w.entities[i], w.now)));
    assert(doomed(d0, i));
    assert(same_frame(d0[j], w.entities[j]));
    lemma_cleanup_takes_children(d0, next_id, i, j);
    let d = survivors(d0, d0.len());
    let out = d.map_values(|x: Entity| finish(x, inputs, w.bounds, w.now));
    assert(out == tick_spec(w, inputs).entities);
    let id = w.entities[j].id;
    if has_id(out, id) {
        let k = choose|k: int| 0 <= k < out.len() && out[k].id == id;
        assert(same_frame(out[k], d[k]));
        assert(d[k].id == id);
    }
}

} // verus!
