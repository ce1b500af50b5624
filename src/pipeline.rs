use vstd::prelude::*;

use crate::input::PlayerInput;
use crate::player::{
    aimed, animate_player, animated, change_aim, check_if_standing, flip_facing, flipped, gun_step,
    gun_time, has_slot, input_for, input_of_player, move_player, moved, projectile, record_input, recorded,
    spawn_projectile, stood, trigger_is_pulled, trigger_pulled, Gun, Lifetime, fires_at, gun_run,
    lemma_gun_cadence, lemma_gun_run_next,
};
use crate::store::{
    entities_wf, entity_wf, find, has_id, ids_increasing, index_of, lemma_index_of_unique, lookup,
    Entity, World, WorldState,
};
use crate::timer::{advanced, Countdown};
use crate::units::Vector;
use crate::world::{wrap_around_world, wrapped, GameWorld};

verus! {

/// What a player entity does with its own input before anything else: move,
/// aim, then take the fresh ground probe.
pub open spec fn act(e: Entity, inputs: Seq<PlayerInput>) -> Entity {
    stood(aimed(moved(e, inputs), inputs))
}

/// What every entity does at the end of the tick: wrap around the world, pick its
/// animation clip, mirror its sprite, and keep this tick's input.
pub open spec fn finish(e: Entity, inputs: Seq<PlayerInput>, bounds: GameWorld, now: u64) -> Entity {
    recorded(flipped(animated(wrapped(e, bounds), inputs, now)), inputs)
}

/// An aiming child takes its parent's aim angle as its rotation.
pub open spec fn rotated(s: Seq<Entity>, e: Entity) -> Entity {
    match (e.aiming_child, e.parent) {
        (Some(_), Some(p)) => match lookup(s, p) {
            Some(q) => match q.aiming {
                Some(a) => Entity {
                    transform: crate::units::Transform { rotation: a.angle, ..e.transform },
                    ..e
                },
                None => e,
            },
            None => e,
        },
        _ => e,
    }
}

pub fn act_phase(s: &Vec<Entity>, inputs: &Vec<PlayerInput>) -> (r: Vec<Entity>)
    requires
        forall|i: int| 0 <= i < s@.len() ==> has_slot(#[trigger] s@[i], inputs@.len()),
    ensures
        r@ == s@.map_values(|e: Entity| act(e, inputs@)),
{
    let mut out: Vec<Entity> = Vec::new();
    let n = s.len();
    for i in 0..n
        invariant
            n == s@.len(),
            forall|i: int| 0 <= i < s@.len() ==> has_slot(#[trigger] s@[i], inputs@.len()),
            out@.len() == i,
            forall|j: int| 0 <= j < i ==> out@[j] == act(s@[j], inputs@),
    {
        let mut e = s[i];
        assert(has_slot(s@[i as int], inputs@.len()));
        move_player(&mut e, inputs);
        change_aim(&mut e, inputs);
        check_if_standing(&mut e);
        out.push(e);
    }
    assert(out@ =~= s@.map_values(|e: Entity| act(e, inputs@)));
    out
}

/// Turns every aiming child to its parent's aim.
pub fn rotate_aim_children(s: &Vec<Entity>) -> (r: Vec<Entity>)
    requires
        ids_increasing(s@),
    ensures
        r@ == s@.map_values(|e: Entity| rotated(s@, e)),
{
    let mut out: Vec<Entity> = Vec::new();
    let n = s.len();
    for i in 0..n
        invariant
            n == s@.len(),
            ids_increasing(s@),
            out@.len() == i,
            forall|j: int| 0 <= j < i ==> out@[j] == rotated(s@, s@[j]),
    {
        let mut e = s[i];
        if let (Some(_), Some(p)) = (e.aiming_child, e.parent) {
            if let Some(k) = find(s, p) {
                if let Some(a) = s[k].aiming {
                    e.transform.rotation = a.angle;
                }
            }
        }
        out.push(e);
    }
    assert(out@ =~= s@.map_values(|e: Entity| rotated(s@, e)));
    out
}

pub fn finish_phase(s: &Vec<Entity>, inputs: &Vec<PlayerInput>, bounds: &GameWorld, now: u64) -> (r: Vec<Entity>)
    requires
        bounds.wf(),
        forall|i: int| 0 <= i < s@.len() ==> entity_wf(#[trigger] s@[i]),
        forall|i: int| 0 <= i < s@.len() ==> has_slot(#[trigger] s@[i], inputs@.len()),
    ensures
        r@ == s@.map_values(|e: Entity| finish(e, inputs@, *bounds, now)),
{
    let mut out: Vec<Entity> = Vec::new();
    let n = s.len();
    for i in 0..n
        invariant
            n == s@.len(),
            bounds.wf(),
            forall|i: int| 0 <= i < s@.len() ==> entity_wf(#[trigger] s@[i]),
            forall|i: int| 0 <= i < s@.len() ==> has_slot(#[trigger] s@[i], inputs@.len()),
            out@.len() == i,
            forall|j: int| 0 <= j < i ==> out@[j] == finish(s@[j], inputs@, *bounds, now),
    {
        let mut e = s[i];
        assert(entity_wf(s@[i as int]));
        assert(has_slot(s@[i as int], inputs@.len()));
        wrap_around_world(&mut e, bounds);
        animate_player(&mut e, inputs, now);
        flip_facing(&mut e);
        record_input(&mut e, inputs);
        out.push(e);
    }
    assert(out@ =~= s@.map_values(|e: Entity| finish(e, inputs@, *bounds, now)));
    out
}


/// The entity `id` is a player that moves: what a gun's holder must be.
pub open spec fn holder_ok(s: Seq<Entity>, id: u64) -> bool {
    lookup(s, id) matches Some(h) && h.player is Some && h.velocity is Some
}

/// A gun is held by a player that moves.
pub open spec fn gun_held(s: Seq<Entity>, e: Entity) -> bool {
    e.gun matches Some(g) ==> holder_ok(s, g.holder)
}

/// `e` is a gun held by the entity `id`.
pub open spec fn armed_by(e: Entity, id: u64) -> bool {
    e.gun matches Some(g) && g.holder == id
}

/// A player holds a gun.
pub open spec fn player_armed(s: Seq<Entity>, e: Entity) -> bool {
    e.player is Some ==> exists|j: int| 0 <= j < s.len() && armed_by(#[trigger] s[j], e.id)
}

/// The weapon hierarchy and the input slots are complete: every player's input
/// slot is among the `slots` given, every gun is held by a player that moves, and
/// every player holds a gun. A tick on anything else is a programming error.
pub open spec fn hierarchy_ok(s: Seq<Entity>, slots: nat) -> bool {
    forall|i: int|
        0 <= i < s.len() ==> has_slot(#[trigger] s[i], slots) && gun_held(s, s[i]) && player_armed(
            s,
            s[i],
        )
}

/// The velocity of the entity holding gun `g`, where that entity is a player who
/// asks the gun to fire this tick.
pub open spec fn firing_holder(s: Seq<Entity>, g: Gun, inputs: Seq<PlayerInput>) -> Option<Vector> {
    match lookup(s, g.holder) {
        Some(h) => match (h.player, h.velocity) {
            (Some(p), Some(v)) => if trigger_pulled(g, p, input_for(inputs, p)) {
                Some(v)
            } else {
                None
            },
            _ => None,
        },
        None => None,
    }
}

/// The weapon phase over the first `k` entities of `s`: each gun's cooldown advances;
/// a gun whose holder fires, that has a muzzle, and for which an identifier is left,
/// fires once its cooldown has finished. Returns the updated entities and the
/// projectiles fired, in order, numbered from `next_id`.
pub open spec fn shoot_prefix(
    s: Seq<Entity>,
    inputs: Seq<PlayerInput>,
    now: u64,
    next_id: u64,
    k: nat,
) -> (Seq<Entity>, Seq<Entity>)
    decreases k,
{
    if k == 0 || k > s.len() {
        (Seq::empty(), Seq::empty())
    } else {
        let (upd, spawned) = shoot_prefix(s, inputs, now, next_id, (k - 1) as nat);
        let e = s[k - 1];
        let id = next_id + spawned.len();
        match e.gun {
            None => (upd.push(e), spawned),
            Some(g) => {
                let hv = firing_holder(s, g, inputs);
                let ready = hv.is_some() && e.muzzle.is_some() && id < u64::MAX;
                let (c, fired) = gun_step(g.shot_timer, ready);
                let e2 = Entity { gun: Some(Gun { shot_timer: c, ..g }), ..e };
                match (hv, e.muzzle) {
                    (Some(v), Some(m)) => if fired {
                        (upd.push(e2), spawned.push(projectile(id as u64, now, m, v)))
                    } else {
                        (upd.push(e2), spawned)
                    },
                    _ => (upd.push(e2), spawned),
                }
            },
        }
    }
}

/// One call of the weapon phase, seen from one gun: the entities, the inputs, the
/// tick, the next free identifier, and the gun's position.
pub type ShootCall = (Seq<Entity>, Seq<PlayerInput>, u64, u64, int);

/// The call's gun is at a position of its entities.
pub open spec fn call_valid(c: ShootCall) -> bool {
    0 <= c.4 < c.0.len() && c.0[c.4].gun is Some
}

/// The gun's cooldown when the call starts.
pub open spec fn call_timer(c: ShootCall) -> Countdown {
    c.0[c.4].gun.unwrap().shot_timer
}

/// The gun's cooldown when the call is over.
pub open spec fn call_result_timer(c: ShootCall) -> Countdown {
    shoot_prefix(c.0, c.1, c.2, c.3, c.0.len()).0[c.4].gun.unwrap().shot_timer
}

/// Whether the gun was ready to fire in the call: its holder fires, it has a
/// muzzle, and an identifier is left.
pub open spec fn call_ready(c: ShootCall) -> bool {
    let spawned = shoot_prefix(c.0, c.1, c.2, c.3, c.4 as nat).1;
    firing_holder(c.0, c.0[c.4].gun.unwrap(), c.1) is Some && c.0[c.4].muzzle is Some && c.3
        + spawned.len() < u64::MAX
}

/// Whether the call fired a projectile from the gun.
pub open spec fn call_fired(c: ShootCall) -> bool {
    shoot_prefix(c.0, c.1, c.2, c.3, (c.4 + 1) as nat).1.len() > shoot_prefix(
        c.0,
        c.1,
        c.2,
        c.3,
        c.4 as nat,
    ).1.len()
}

proof fn lemma_shoot_prefix_stable(
    s: Seq<Entity>,
    inputs: Seq<PlayerInput>,
    now: u64,
    next_id: u64,
    i: int,
    k: nat,
)
    requires
        0 <= i < k <= s.len(),
    ensures
        shoot_prefix(s, inputs, now, next_id, k).0[i] == shoot_prefix(
            s,
            inputs,
            now,
            next_id,
            (i + 1) as nat,
        ).0[i],
    decreases k,
{
    if k > i + 1 {
        lemma_shoot_prefix_stable(s, inputs, now, next_id, i, (k - 1) as nat);
        lemma_shoot_prefix_len(s, inputs, now, next_id, (k - 1) as nat);
    }
}

/// What one call of the weapon phase does to one gun: one step of its cooldown,
/// and a projectile exactly when that step fires.
pub proof fn lemma_shoot_call(c: ShootCall)
    requires
        call_valid(c),
    ensures
        call_result_timer(c) == gun_step(call_timer(c), call_ready(c)).0,
        call_fired(c) == gun_step(call_timer(c), call_ready(c)).1,
{
    let (s, inputs, now, next_id, i) = c;
    lemma_shoot_prefix_stable(s, inputs, now, next_id, i, s.len());
    lemma_shoot_prefix_len(s, inputs, now, next_id, i as nat);
}

proof fn lemma_shoot_run_timer(calls: Seq<ShootCall>, r: Seq<bool>, t: int)
    requires
        forall|u: int| 0 <= u < calls.len() ==> call_valid(#[trigger] calls[u]),
        forall|u: int|
            0 <= u < calls.len() - 1 ==> call_timer(#[trigger] calls[u + 1]) == call_result_timer(
                calls[u],
            ),
        r.len() == calls.len(),
        forall|u: int| 0 <= u < calls.len() ==> r[u] == call_ready(#[trigger] calls[u]),
        0 <= t < calls.len(),
    ensures
        call_timer(calls[t]) == gun_run(call_timer(calls[0]), r.take(t)),
    decreases t,
{
    if t == 0 {
        assert(r.take(0) =~= Seq::<bool>::empty());
    } else {
        lemma_shoot_run_timer(calls, r, t - 1);
        lemma_gun_run_next(call_timer(calls[0]), r, t - 1);
        lemma_shoot_call(calls[t - 1]);
        assert(call_timer(calls[(t - 1) + 1]) == call_result_timer(calls[t - 1]));
    }
}

/// Rate limit over a run of weapon phases: when each call sees the gun as the
/// previous call left it, two calls that fire from it are at least its cooldown
/// apart, whatever the trigger does.
pub proof fn lemma_shoot_cadence(calls: Seq<ShootCall>, t1: int, t2: int)
    requires
        forall|u: int| 0 <= u < calls.len() ==> call_valid(#[trigger] calls[u]),
        forall|u: int|
            0 <= u < calls.len() - 1 ==> call_timer(#[trigger] calls[u + 1]) == call_result_timer(
                calls[u],
            ),
        0 <= t1 < t2 < calls.len(),
        call_fired(calls[t1]),
        call_fired(calls[t2]),
    ensures
        t2 - t1 >= call_timer(calls[0]).duration,
{
    let r = Seq::new(calls.len(), |u: int| call_ready(calls[u]));
    let c0 = call_timer(calls[0]);
    lemma_shoot_run_timer(calls, r, t1);
    lemma_shoot_run_timer(calls, r, t2);
    lemma_shoot_call(calls[t1]);
    lemma_shoot_call(calls[t2]);
    assert(fires_at(c0, r, t1));
    assert(fires_at(c0, r, t2));
    lemma_gun_cadence(c0, r, t1, t2);
}

/// Same entity apart from its components: the fields the store's invariant is about.
pub open spec fn same_frame(a: Entity, b: Entity) -> bool {
    a.id == b.id && a.parent == b.parent && a.half_extents == b.half_extents && a.muzzle
        == b.muzzle
}

proof fn lemma_shoot_prefix_len(s: Seq<Entity>, inputs: Seq<PlayerInput>, now: u64, next_id: u64, k: nat)
    requires
        k <= s.len(),
    ensures
        shoot_prefix(s, inputs, now, next_id, k).0.len() == k,
        shoot_prefix(s, inputs, now, next_id, k).1.len() <= k,
    decreases k,
{
    if k > 0 {
        lemma_shoot_prefix_len(s, inputs, now, next_id, (k - 1) as nat);
    }
}

/// The weapon phase: advances every gun's cooldown and fires those whose holder
/// asks for it once the cooldown has finished. Returns the updated entities and the
/// projectiles fired.
pub fn shoot(s: &Vec<Entity>, inputs: &Vec<PlayerInput>, now: u64, next_id: u64) -> (r: (
    Vec<Entity>,
    Vec<Entity>,
))
    requires
        entities_wf(s@, next_id),
        forall|i: int|
            0 <= i < s@.len() ==> has_slot(#[trigger] s@[i], inputs@.len()) && gun_held(s@, s@[i]),
    ensures
        (r.0@, r.1@) == shoot_prefix(s@, inputs@, now, next_id, s@.len()),
        r.0@.len() == s@.len(),
        forall|j: int| 0 <= j < s@.len() ==> same_frame(#[trigger] r.0@[j], s@[j]),
        forall|j: int|
            0 <= j < r.1@.len() ==> (#[trigger] r.1@[j]).id == next_id + j && entity_wf(r.1@[j]),
        next_id + r.1@.len() <= u64::MAX,
{
    let mut upd: Vec<Entity> = Vec::new();
    let mut spawned: Vec<Entity> = Vec::new();
    let n = s.len();
    for i in 0..n
        invariant
            n == s@.len(),
            entities_wf(s@, next_id),
            forall|i: int|
                0 <= i < s@.len() ==> has_slot(#[trigger] s@[i], inputs@.len()) && gun_held(s@, s@[i]),
            (upd@, spawned@) == shoot_prefix(s@, inputs@, now, next_id, i as nat),
            upd@.len() == i,
            forall|j: int| 0 <= j < i ==> same_frame(#[trigger] upd@[j], s@[j]),
            forall|j: int|
                0 <= j < spawned@.len() ==> (#[trigger] spawned@[j]).id == next_id + j && entity_wf(
                    spawned@[j],
                ),
            next_id + spawned@.len() <= u64::MAX,
    {
        let e = s[i];
        proof {
            lemma_shoot_prefix_len(s@, inputs@, now, next_id, i as nat);
        }
        match e.gun {
            None => {
                upd.push(e);
            },
            Some(g) => {
                let mut hv: Option<Vector> = None;
                assert(gun_held(s@, s@[i as int]));
                if let Some(k) = find(s, g.holder) {
                    let h = s[k];
                    assert(has_slot(s@[k as int], inputs@.len()));
                    if let (Some(p), Some(v)) = (h.player, h.velocity) {
                        let input = input_of_player(inputs, &p);
                        if trigger_is_pulled(&g, &p, &input) {
                            hv = Some(v);
                        }
                    }
                }
                assert(hv == firing_holder(s@, g, inputs@));
                let id_left = next_id as u128 + (spawned.len() as u128) < u64::MAX as u128;
                let ready = hv.is_some() && e.muzzle.is_some() && id_left;
                let mut c = g.shot_timer;
                let fired = gun_time(&mut c, ready);
                let mut e2 = e;
                e2.gun = Some(Gun { shot_timer: c, ..g });
                upd.push(e2);
                if let (Some(v), Some(m)) = (hv, e.muzzle) {
                    if fired {
                        assert(entity_wf(s@[i as int]));
                        let id = next_id + spawned.len() as u64;
                        let b = spawn_projectile(id, now, m, v);
                        spawned.push(b);
                    }
                }
            },
        }
    }
    (upd, spawned)
}


/// A lifetime advances by one tick, except on the tick its entity was spawned,
/// where it is only evaluated: a zero-length lifetime finishes there, a longer one
/// lives its full length.
pub open spec fn aged(e: Entity, now: u64) -> Entity {
    match e.lifetime {
        Some(l) => Entity {
            lifetime: Some(
                Lifetime { timer: advanced(l.timer, if e.spawned_at != now { 1 } else { 0 }) },
            ),
            ..e
        },
        None => e,
    }
}

pub open spec fn expired(e: Entity) -> bool {
    e.lifetime matches Some(l) && l.timer.done
}

/// Whether the entity at position `i` goes: its lifetime is over, or so is its
/// parent's, transitively.
pub open spec fn doomed(s: Seq<Entity>, i: int) -> bool
    decreases i,
{
    if 0 <= i < s.len() {
        expired(s[i]) || match s[i].parent {
            Some(p) => has_id(s, p) && 0 <= index_of(s, p) < i && doomed(s, index_of(s, p)),
            None => false,
        }
    } else {
        false
    }
}

/// The first `k` entities of `s` without the doomed ones, in order.
pub open spec fn survivors(s: Seq<Entity>, k: nat) -> Seq<Entity>
    decreases k,
{
    if k == 0 || k > s.len() {
        Seq::empty()
    } else {
        let r = survivors(s, (k - 1) as nat);
        if doomed(s, k - 1) {
            r
        } else {
            r.push(s[k - 1])
        }
    }
}

pub fn age_lifetimes(s: &Vec<Entity>, now: u64) -> (r: Vec<Entity>)
    ensures
        r@ == s@.map_values(|e: Entity| aged(e, now)),
{
    let mut out: Vec<Entity> = Vec::new();
    let n = s.len();
    for i in 0..n
        invariant
            n == s@.len(),
            out@.len() == i,
            forall|j: int| 0 <= j < i ==> out@[j] == aged(s@[j], now),
    {
        let mut e = s[i];
        if let Some(l) = e.lifetime {
            let mut t = l.timer;
            t.advance(if e.spawned_at != now { 1 } else { 0 });
            e.lifetime = Some(Lifetime { timer: t });
        }
        out.push(e);
    }
    assert(out@ =~= s@.map_values(|e: Entity| aged(e, now)));
    out
}

/// Removes every entity whose lifetime is over, together with all its descendants.
pub fn despawn_expired(s: &Vec<Entity>, next_id: u64) -> (r: Vec<Entity>)
    requires
        entities_wf(s@, next_id),
    ensures
        r@ == survivors(s@, s@.len()),
        entities_wf(r@, next_id),
{
    let mut out: Vec<Entity> = Vec::new();
    let mut marks: Vec<bool> = Vec::new();
    let n = s.len();
    for i in 0..n
        invariant
            n == s@.len(),
            entities_wf(s@, next_id),
            marks@.len() == i,
            forall|j: int| 0 <= j < i ==> marks@[j] == doomed(s@, j),
            out@ == survivors(s@, i as nat),
            entities_wf(out@, next_id),
            forall|j: int, k: int| 0 <= j < out@.len() && i <= k < n ==> out@[j].id < s@[k].id,
    {
        let e = s[i];
        let mut d = false;
        if let Some(l) = e.lifetime {
            d = l.timer.finished();
        }
        if !d {
            if let Some(p) = e.parent {
                if let Some(k) = find(s, p) {
                    if k < i {
                        d = marks[k];
                    }
                }
            }
        }
        assert(d == doomed(s@, i as int));
        marks.push(d);
        if !d {
            assert(entity_wf(s@[i as int]));
            out.push(e);
        }
    }
    out
}

/// Lifetime cleanup: advances every lifetime, then destroys the expired entities and
/// their descendants in the same tick.
pub fn lifetime_cleanup(s: &Vec<Entity>, now: u64, next_id: u64) -> (r: Vec<Entity>)
    requires
        entities_wf(s@, next_id),
    ensures
        r@ == ({
            let a = s@.map_values(|e: Entity| aged(e, now));
            survivors(a, a.len())
        }),
        entities_wf(r@, next_id),
{
    let a = age_lifetimes(s, now);
    assert(forall|i: int| 0 <= i < a@.len() ==> same_frame(#[trigger] a@[i], s@[i]));
    despawn_expired(&a, next_id)
}


/// Guns updated in place followed by the projectiles they fired keep the store
/// well-formed, with the identifiers handed out accounted for.
pub proof fn lemma_concat_wf(b: Seq<Entity>, upd: Seq<Entity>, sp: Seq<Entity>, next_id: u64)
    requires
        entities_wf(b, next_id),
        upd.len() == b.len(),
        forall|j: int| 0 <= j < b.len() ==> same_frame(#[trigger] upd[j], b[j]),
        forall|j: int| 0 <= j < sp.len() ==> (#[trigger] sp[j]).id == next_id + j && entity_wf(sp[j]),
        next_id + sp.len() <= u64::MAX,
    ensures
        entities_wf(upd + sp, (next_id + sp.len()) as u64),
{
    let c = upd + sp;
    let n2 = (next_id + sp.len()) as u64;
    assert forall|i: int| 0 <= i < c.len() implies entity_wf(#[trigger] c[i]) by {
        if i < upd.len() {
            assert(same_frame(upd[i], b[i]));
            assert(entity_wf(b[i]));
        } else {
            assert(c[i] == sp[i - upd.len()]);
        }
    }
    assert forall|i: int, j: int| 0 <= i < j < c.len() implies c[i].id < c[j].id by {
        if j < upd.len() {
            assert(same_frame(upd[i], b[i]));
            assert(same_frame(upd[j], b[j]));
        } else if i < upd.len() {
            assert(same_frame(upd[i], b[i]));
            assert(c[j] == sp[j - upd.len()]);
        } else {
            assert(c[i] == sp[i - upd.len()]);
            assert(c[j] == sp[j - upd.len()]);
        }
    }
    assert forall|i: int| 0 <= i < c.len() implies c[i].id < n2 by {
        if i < upd.len() {
            assert(same_frame(upd[i], b[i]));
        } else {
            assert(c[i] == sp[i - upd.len()]);
        }
    }
}

/// The weapon phase changes nothing of an entity but its gun, and numbers the
/// projectiles it fires from `next_id` on.
pub proof fn lemma_shoot_prefix_frame(
    s: Seq<Entity>,
    inputs: Seq<PlayerInput>,
    now: u64,
    next_id: u64,
    k: nat,
)
    requires
        entities_wf(s, next_id),
        k <= s.len(),
    ensures
        shoot_prefix(s, inputs, now, next_id, k).0.len() == k,
        forall|j: int|
            0 <= j < k ==> #[trigger] shoot_prefix(s, inputs, now, next_id, k).0[j] == (Entity {
                gun: shoot_prefix(s, inputs, now, next_id, k).0[j].gun,
                ..s[j]
            }),
        forall|j: int|
            0 <= j < shoot_prefix(s, inputs, now, next_id, k).1.len() ==> (#[trigger] shoot_prefix(
                s,
                inputs,
                now,
                next_id,
                k,
            ).1[j]).id == next_id + j && entity_wf(shoot_prefix(s, inputs, now, next_id, k).1[j])
                && shoot_prefix(s, inputs, now, next_id, k).1[j].player is None,
        next_id + shoot_prefix(s, inputs, now, next_id, k).1.len() <= u64::MAX,
    decreases k,
{
    if k > 0 {
        lemma_shoot_prefix_frame(s, inputs, now, next_id, (k - 1) as nat);
        let (upd, spawned) = shoot_prefix(s, inputs, now, next_id, (k - 1) as nat);
        let (upd2, spawned2) = shoot_prefix(s, inputs, now, next_id, k);
        assert(entity_wf(s[k - 1]));
        assert forall|j: int| 0 <= j < k implies #[trigger] upd2[j] == (Entity { gun: upd2[j].gun, ..s[j] }) by {
            if j < k - 1 {
                assert(upd2[j] == upd[j]);
            }
        }
        assert forall|j: int| 0 <= j < spawned2.len() implies (#[trigger] spawned2[j]).id == next_id + j
            && entity_wf(spawned2[j]) && spawned2[j].player is None by {
            if j < spawned.len() {
                assert(spawned2[j] == spawned[j]);
            }
        }
    }
}

/// What survives the cleanup keeps the store well-formed, and comes before
/// every entity past the first `k`.
pub proof fn lemma_survivors_wf(s: Seq<Entity>, next_id: u64, k: nat)
    requires
        entities_wf(s, next_id),
        k <= s.len(),
    ensures
        entities_wf(survivors(s, k), next_id),
        forall|j: int, m: int|
            0 <= j < survivors(s, k).len() && k <= m < s.len() ==> #[trigger] survivors(s, k)[j].id
                < #[trigger] s[m].id,
    decreases k,
{
    if k > 0 {
        lemma_survivors_wf(s, next_id, (k - 1) as nat);
        let r = survivors(s, (k - 1) as nat);
        if !doomed(s, k - 1) {
            let r2 = r.push(s[k - 1]);
            assert(entity_wf(s[k - 1]));
            assert forall|j: int| 0 <= j < r2.len() implies entity_wf(#[trigger] r2[j]) by {
                if j < r.len() {
                    assert(r2[j] == r[j]);
                }
            }
            assert forall|i: int, j: int| 0 <= i < j < r2.len() implies r2[i].id < r2[j].id by {
                if j < r.len() {
                    assert(r2[i] == r[i] && r2[j] == r[j]);
                } else {
                    assert(r2[i] == r[i]);
                    assert(r[i].id < s[k - 1].id);
                }
            }
            assert forall|j: int, m: int| 0 <= j < r2.len() && k <= m < s.len() implies #[trigger] r2[j].id
                < #[trigger] s[m].id by {
                if j < r.len() {
                    assert(r2[j] == r[j]);
                    assert(r[j].id < s[k - 1].id);
                }
            }
        }
    }
}

/// Two stores whose identifiers agree position by position hold the same
/// identifiers at the same positions.
pub proof fn lemma_same_ids_lookup(s: Seq<Entity>, t: Seq<Entity>, id: u64)
    requires
        ids_increasing(s),
        s.len() == t.len(),
        forall|j: int| 0 <= j < s.len() ==> (#[trigger] s[j]).id == t[j].id,
    ensures
        has_id(t, id) == has_id(s, id),
        has_id(s, id) ==> index_of(t, id) == index_of(s, id),
{
    assert(ids_increasing(t)) by {
        assert forall|i: int, j: int| 0 <= i < j < t.len() implies t[i].id < t[j].id by {
            assert(s[i].id == t[i].id && s[j].id == t[j].id);
        }
    }
    if has_id(s, id) {
        let j = index_of(s, id);
        assert(t[j].id == id);
        lemma_index_of_unique(t, id, j);
    }
    if has_id(t, id) {
        let j = choose|j: int| 0 <= j < t.len() && t[j].id == id;
        assert(s[j].id == id);
    }
}

/// What holds of every entity of `s` holds of every survivor.
pub proof fn lemma_survivors_all(s: Seq<Entity>, k: nat, p: spec_fn(Entity) -> bool)
    requires
        forall|i: int| 0 <= i < s.len() ==> p(#[trigger] s[i]),
    ensures
        forall|i: int| 0 <= i < survivors(s, k).len() ==> p(#[trigger] survivors(s, k)[i]),
    decreases k,
{
    if k > 0 && k <= s.len() {
        lemma_survivors_all(s, (k - 1) as nat, p);
        let r = survivors(s, (k - 1) as nat);
        if !doomed(s, k - 1) {
            assert forall|i: int| 0 <= i < r.len() + 1 implies p(#[trigger] r.push(s[k - 1])[i]) by {
                if i < r.len() {
                    assert(r.push(s[k - 1])[i] == r[i]);
                }
            }
        }
    }
}

/// A tick keeps the store well-formed and hands out identifiers only upward.
pub proof fn lemma_tick_wf(w: WorldState, inputs: Seq<PlayerInput>)
    requires
        w.wf(),
    ensures
        tick_spec(w, inputs).wf(),
        tick_spec(w, inputs).next_id >= w.next_id,
        tick_spec(w, inputs).bounds == w.bounds,
        w.now < u64::MAX ==> tick_spec(w, inputs).now == w.now + 1,
{
    let a = w.entities.map_values(|e: Entity| act(e, inputs));
    assert(forall|i: int| 0 <= i < a.len() ==> same_frame(#[trigger] a[i], w.entities[i]));
    assert(entities_wf(a, w.next_id));
    let b = a.map_values(|e: Entity| rotated(a, e));
    assert(forall|i: int| 0 <= i < b.len() ==> same_frame(#[trigger] b[i], a[i]));
    assert(entities_wf(b, w.next_id));
    lemma_shoot_prefix_frame(b, inputs, w.now, w.next_id, b.len());
    let (upd, spawned) = shoot_prefix(b, inputs, w.now, w.next_id, b.len());
    assert forall|j: int| 0 <= j < b.len() implies same_frame(#[trigger] upd[j], b[j]) by {
        assert(upd[j] == (Entity { gun: upd[j].gun, ..b[j] }));
    }
    lemma_concat_wf(b, upd, spawned, w.next_id);
    let c = upd + spawned;
    let next_id = (w.next_id + spawned.len()) as u64;
    let d0 = c.map_values(|e: Entity| aged(e, w.now));
    assert(forall|i: int| 0 <= i < d0.len() ==> same_frame(#[trigger] d0[i], c[i]));
    assert(entities_wf(d0, next_id));
    lemma_survivors_wf(d0, next_id, d0.len());
    let d = survivors(d0, d0.len());
    let e = d.map_values(|x: Entity| finish(x, inputs, w.bounds, w.now));
    assert(forall|i: int| 0 <= i < e.len() ==> same_frame(#[trigger] e[i], d[i]));
    assert(entities_wf(e, next_id));
}

/// One simulation tick, in its fixed order: movement, aiming and the ground probe;
/// aiming children; weapons; lifetimes; then wrap-around, animation, sprite flip and
/// input bookkeeping. The tick counter saturates.
pub open spec fn tick_spec(w: WorldState, inputs: Seq<PlayerInput>) -> WorldState {
    let a = w.entities.map_values(|e: Entity| act(e, inputs));
    let b = a.map_values(|e: Entity| rotated(a, e));
    let (upd, spawned) = shoot_prefix(b, inputs, w.now, w.next_id, b.len());
    let c = upd + spawned;
    let next_id = (w.next_id + spawned.len()) as u64;
    let d0 = c.map_values(|e: Entity| aged(e, w.now));
    let d = survivors(d0, d0.len());
    WorldState {
        entities: d.map_values(|e: Entity| finish(e, inputs, w.bounds, w.now)),
        next_id,
        now: if w.now < u64::MAX { (w.now + 1) as u64 } else { w.now },
        bounds: w.bounds,
    }
}

/// The state after running one tick per element of `inputs`, in order.
pub open spec fn replay(w: WorldState, inputs: Seq<Seq<PlayerInput>>) -> WorldState
    decreases inputs.len(),
{
    if inputs.len() == 0 {
        w
    } else {
        tick_spec(replay(w, inputs.drop_last()), inputs.last())
    }
}

impl World {
    /// Runs one simulation tick with the given input of each player slot.
    pub fn tick(&mut self, inputs: &Vec<PlayerInput>)
        requires
            old(self).wf(),
            hierarchy_ok(old(self)@.entities, inputs@.len()),
        ensures
            final(self).wf(),
            final(self)@ == tick_spec(old(self)@, inputs@),
    {
        let ghost w = self.entities@;
        let ghost slots = inputs@.len();
        assert(forall|i: int| 0 <= i < w.len() ==> has_slot(#[trigger] w[i], slots));
        let a = act_phase(&self.entities, inputs);
        assert(forall|i: int| 0 <= i < a@.len() ==> same_frame(#[trigger] a@[i], self.entities@[i]));
        assert(entities_wf(a@, self.next_id));
        let b = rotate_aim_children(&a);
        assert(forall|i: int| 0 <= i < b@.len() ==> same_frame(#[trigger] b@[i], a@[i]));
        assert(entities_wf(b@, self.next_id));
        assert forall|i: int| 0 <= i < b@.len() implies has_slot(#[trigger] b@[i], slots) && gun_held(
            b@,
            b@[i],
        ) by {
            assert(has_slot(w[i], slots) && gun_held(w, w[i]));
            if let Some(g) = w[i].gun {
                lemma_same_ids_lookup(w, b@, g.holder);
                let k = index_of(w, g.holder);
                assert(b@[k].player == w[k].player);
                assert(w[k].velocity is Some ==> b@[k].velocity is Some);
            }
        }
        proof {
            lemma_shoot_prefix_frame(b@, inputs@, self.now, self.next_id, b@.len());
        }
        let (mut c, mut spawned) = shoot(&b, inputs, self.now, self.next_id);
        let next_id = self.next_id + spawned.len() as u64;
        let ghost upd = c@;
        let ghost sp = spawned@;
        c.append(&mut spawned);
        assert(c@ == upd + sp);
        proof {
            lemma_concat_wf(b@, upd, sp, self.next_id);
        }
        let d = lifetime_cleanup(&c, self.now, next_id);
        proof {
            let d0 = c@.map_values(|e: Entity| aged(e, self.now));
            assert forall|i: int| 0 <= i < d0.len() implies has_slot(#[trigger] d0[i], slots) by {
                if i < upd.len() {
                    assert(c@[i] == upd[i]);
                    assert(upd[i] == (Entity { gun: upd[i].gun, ..b@[i] }));
                } else {
                    assert(c@[i] == sp[i - upd.len()]);
                }
            }
            lemma_survivors_all(d0, d0.len(), |e: Entity| has_slot(e, slots));
        }
        let e = finish_phase(&d, inputs, &self.bounds, self.now);
        assert(forall|i: int| 0 <= i < e@.len() ==> same_frame(#[trigger] e@[i], d@[i]));
        self.entities = e;
        self.next_id = next_id;
        if self.now < u64::MAX {
            self.now = self.now + 1;
        }
    }
}


/// The input rows of a recorded session, as sequences.
pub open spec fn rows(inputs: Seq<Vec<PlayerInput>>) -> Seq<Seq<PlayerInput>> {
    inputs.map_values(|v: Vec<PlayerInput>| v@)
}

impl World {
    /// Whether a tick with `slots` input slots may run on this world.
    pub fn hierarchy_holds(&self, slots: usize) -> (r: bool)
        requires
            self.wf(),
        ensures
            r == hierarchy_ok(self@.entities, slots as nat),
    {
        let s = &self.entities;
        let n = s.len();
        let mut i: usize = 0;
        while i < n
            invariant
                n == s@.len(),
                i <= n,
                s@ == self@.entities,
                entities_wf(s@, self.next_id),
                forall|j: int|
                    0 <= j < i ==> has_slot(#[trigger] s@[j], slots as nat) && gun_held(s@, s@[j])
                        && player_armed(s@, s@[j]),
            decreases n - i,
        {
            let e = s[i];
            if let Some(p) = e.player {
                if p.handle >= slots {
                    assert(!has_slot(s@[i as int], slots as nat));
                    assert(!hierarchy_ok(self@.entities, slots as nat));
                    return false;
                }
            }
            if let Some(g) = e.gun {
                match find(s, g.holder) {
                    Some(k) => {
                        if !(s[k].player.is_some() && s[k].velocity.is_some()) {
                            assert(lookup(s@, g.holder) == Some(s@[k as int]));
                            assert(!holder_ok(s@, g.holder));
                            assert(!gun_held(s@, s@[i as int]));
                            assert(!hierarchy_ok(self@.entities, slots as nat));
                            return false;
                        }
                    },
                    None => {
                        assert(!gun_held(s@, s@[i as int]));
                        return false;
                    },
                }
            }
            if e.player.is_some() {
                if !holds_gun(s, e.id) {
                    assert(!player_armed(s@, s@[i as int]));
                    return false;
                }
            }
            i = i + 1;
        }
        true
    }

    /// Runs one tick per row of `inputs`, in order, stopping before the first row
    /// whose tick would meet an incomplete weapon hierarchy or a missing input slot;
    /// `Err` names that row.
    pub fn run(&mut self, inputs: &Vec<Vec<PlayerInput>>) -> (r: Result<(), usize>)
        requires
            old(self).wf(),
        ensures
            final(self).wf(),
            match r {
                Ok(()) => final(self)@ == replay(old(self)@, rows(inputs@)) && forall|t: int|
                    0 <= t < inputs@.len() ==> #[trigger] step_ok(old(self)@, inputs@, t),
                Err(t) => t < inputs@.len() && final(self)@ == replay(
                    old(self)@,
                    rows(inputs@.take(t as int)),
                ) && !step_ok(old(self)@, inputs@, t as int) && forall|u: int|
                    0 <= u < t ==> #[trigger] step_ok(old(self)@, inputs@, u),
            },
    {
        let ghost start = self@;
        let n = inputs.len();
        for i in 0..n
            invariant
                n == inputs@.len(),
                self.wf(),
                start == old(self)@,
                self@ == replay(start, rows(inputs@.take(i as int))),
                forall|u: int| 0 <= u < i ==> #[trigger] step_ok(start, inputs@, u),
        {
            let ok = self.hierarchy_holds(inputs[i].len());
            assert(self@ == replay(start, rows(inputs@.take(i as int))));
            assert(ok == step_ok(start, inputs@, i as int)) by {
                reveal(step_ok);
            }
            if !ok {
                return Err(i);
            }
            self.tick(&inputs[i]);
            assert(rows(inputs@.take(i + 1)).drop_last() =~= rows(inputs@.take(i as int)));
            assert(rows(inputs@.take(i + 1)).last() == inputs@[i as int]@);
        }
        assert(inputs@.take(n as int) =~= inputs@);
        Ok(())
    }
}

/// Whether row `t` of a session meets a complete hierarchy in the state the
/// earlier rows lead to.
#[verifier::opaque]
pub open spec fn step_ok(w: WorldState, inputs: Seq<Vec<PlayerInput>>, t: int) -> bool {
    hierarchy_ok(replay(w, rows(inputs.take(t))).entities, inputs[t]@.len())
}

/// Whether some entity of `s` is a gun held by `id`.
fn holds_gun(s: &Vec<Entity>, id: u64) -> (r: bool)
    ensures
        r == exists|j: int| 0 <= j < s@.len() && armed_by(#[trigger] s@[j], id),
{
    let n = s.len();
    for j in 0..n
        invariant
            n == s@.len(),
            forall|k: int| 0 <= k < j ==> !armed_by(#[trigger] s@[k], id),
    {
        if let Some(g) = s[j].gun {
            if g.holder == id {
                assert(armed_by(s@[j as int], id));
                return true;
            }
        }
    }
    false
}
/// Replay is deterministic: two runs from the same snapshot with the same inputs
/// end in the same state.
pub proof fn lemma_replay_deterministic(a: WorldState, b: WorldState, inputs: Seq<Seq<PlayerInput>>)
    requires
        a == b,
    ensures
        replay(a, inputs) == replay(b, inputs),
{
}

/// Rollback: running the inputs up to some tick, then the rest from the state
/// reached, gives the state of running them all at once.
pub proof fn lemma_replay_split(w: WorldState, xs: Seq<Seq<PlayerInput>>, ys: Seq<Seq<PlayerInput>>)
    ensures
        replay(w, xs + ys) == replay(replay(w, xs), ys),
    decreases ys.len(),
{
    if ys.len() == 0 {
        assert(xs + ys =~= xs);
    } else {
        assert((xs + ys).drop_last() =~= xs + ys.drop_last());
        assert((xs + ys).last() == ys.last());
        lemma_replay_split(w, xs, ys.drop_last());
    }
}

/// The lifetime of an entity after the lifetime phases of `k` consecutive ticks
/// starting at tick `t0`.
pub open spec fn aged_ticks(e: Entity, t0: u64, k: nat) -> Entity
    decreases k,
{
    if k == 0 {
        e
    } else {
        aged(aged_ticks(e, t0, (k - 1) as nat), (t0 + k - 1) as u64)
    }
}

proof fn lemma_aged_ticks_remaining(e: Entity, n: u64, k: nat)
    requires
        e.lifetime matches Some(l) && l.timer.remaining == n,
        k >= 1,
        e.spawned_at + k <= u64::MAX,
    ensures
        aged_ticks(e, e.spawned_at, k).lifetime matches Some(l) && l.timer.remaining == (if n >= k
            - 1 { n - (k - 1) } else { 0 }) && l.timer.done == (l.timer.remaining == 0),
        aged_ticks(e, e.spawned_at, k).spawned_at == e.spawned_at,
    decreases k,
{
    let t0 = e.spawned_at;
    let prev = aged_ticks(e, t0, (k - 1) as nat);
    assert(aged_ticks(e, t0, k) == aged(prev, (t0 + k - 1) as u64));
    if k == 1 {
        assert(prev == e);
    } else {
        lemma_aged_ticks_remaining(e, n, (k - 1) as nat);
        assert((t0 + k - 1) as u64 != t0);
    }
}

/// An entity spawned with a lifetime of `n` ticks survives the lifetime phases of
/// the ticks before tick `n` after its spawn and expires in that one: the phase of
/// tick `spawned_at + k - 1` (the `k`-th since the spawn) finds it expired exactly
/// when `k - 1 >= n`.
pub proof fn lemma_lifetime_exact(e: Entity, n: u64, k: nat)
    requires
        e.lifetime matches Some(l) && l.timer.remaining == n,
        k >= 1,
        e.spawned_at + k <= u64::MAX,
    ensures
        expired(aged_ticks(e, e.spawned_at, k)) <==> k - 1 >= n,
{
    lemma_aged_ticks_remaining(e, n, k);
}

/// Every aim held by an entity of `s` lies within its range.
pub open spec fn aims_in_range(s: Seq<Entity>) -> bool {
    forall|i: int| 0 <= i < s.len() ==> aim_ok(#[trigger] s[i])
}

pub open spec fn aim_ok(e: Entity) -> bool {
    e.aiming matches Some(a) ==> a.wf()
}

proof fn lemma_shoot_prefix_aims(s: Seq<Entity>, inputs: Seq<PlayerInput>, now: u64, next_id: u64, k: nat)
    requires
        aims_in_range(s),
        k <= s.len(),
    ensures
        aims_in_range(shoot_prefix(s, inputs, now, next_id, k).0),
        forall|j: int|
            0 <= j < shoot_prefix(s, inputs, now, next_id, k).1.len() ==> (#[trigger] shoot_prefix(
                s,
                inputs,
                now,
                next_id,
                k,
            ).1[j]).aiming is None,
    decreases k,
{
    if k > 0 {
        lemma_shoot_prefix_aims(s, inputs, now, next_id, (k - 1) as nat);
        let (upd, spawned) = shoot_prefix(s, inputs, now, next_id, (k - 1) as nat);
        let (upd2, spawned2) = shoot_prefix(s, inputs, now, next_id, k);
        assert forall|i: int| 0 <= i < upd2.len() implies aim_ok(#[trigger] upd2[i]) by {
            if i < upd.len() {
                assert(upd2[i] == upd[i]);
            } else {
                assert(upd2[i].aiming == s[k - 1].aiming);
            }
        }
        assert forall|j: int| 0 <= j < spawned2.len() implies (#[trigger] spawned2[j]).aiming is None by {
            if j < spawned.len() {
                assert(spawned2[j] == spawned[j]);
            }
        }
    }
}

/// Aim stays in range over a whole tick: if every aim lies within its range
/// before, every aim lies within its range after.
pub proof fn lemma_tick_keeps_aims_in_range(w: WorldState, inputs: Seq<PlayerInput>)
    requires
        aims_in_range(w.entities),
    ensures
        aims_in_range(tick_spec(w, inputs).entities),
{
    let a = w.entities.map_values(|e: Entity| act(e, inputs));
    assert(aims_in_range(a)) by {
        assert forall|i: int| 0 <= i < a.len() implies aim_ok(#[trigger] a[i]) by {
            assert(aim_ok(w.entities[i]));
        }
    }
    let b = a.map_values(|e: Entity| rotated(a, e));
    assert(aims_in_range(b)) by {
        assert forall|i: int| 0 <= i < b.len() implies aim_ok(#[trigger] b[i]) by {
            assert(aim_ok(a[i]));
        }
    }
    lemma_shoot_prefix_len(b, inputs, w.now, w.next_id, b.len());
    lemma_shoot_prefix_aims(b, inputs, w.now, w.next_id, b.len());
    let (upd, spawned) = shoot_prefix(b, inputs, w.now, w.next_id, b.len());
    let c = upd + spawned;
    assert(aims_in_range(c)) by {
        assert forall|i: int| 0 <= i < c.len() implies aim_ok(#[trigger] c[i]) by {
            if i < upd.len() {
                assert(c[i] == upd[i]);
            } else {
                assert(c[i] == spawned[i - upd.len()]);
            }
        }
    }
    let d0 = c.map_values(|e: Entity| aged(e, w.now));
    assert(aims_in_range(d0)) by {
        assert forall|i: int| 0 <= i < d0.len() implies aim_ok(#[trigger] d0[i]) by {
            assert(aim_ok(c[i]));
        }
    }
    lemma_survivors_all(d0, d0.len(), |e: Entity| aim_ok(e));
    let d = survivors(d0, d0.len());
    let e = d.map_values(|x: Entity| finish(x, inputs, w.bounds, w.now));
    assert(aims_in_range(e)) by {
        assert forall|i: int| 0 <= i < e.len() implies aim_ok(#[trigger] e[i]) by {
            assert(aim_ok(d[i]));
        }
    }
}

} // verus!
