use vstd::prelude::*;

use crate::player::Lifetime;
use crate::store::{
    bare_entity, entities_wf, entity_wf, find, has_id, index_of, lookup, Entity, World,
};
use crate::timer::Countdown;
use crate::units::{Transform, Vector, TICKS_PER_SECOND};

verus! {

/// Seconds a blood particle lives.
pub const BLOOD_LIFETIME_SECONDS: u32 = 3;

/// Marks a blood particle.
#[derive(PartialEq, Eq, Structural, Clone, Copy, Debug)]
pub struct Blood;

/// A blood particle `id` at transform `t`, moving at `v`.
pub open spec fn blood_particle(id: u64, now: u64, t: Transform, v: Vector) -> Entity {
    Entity {
        velocity: Some(v),
        lifetime: Some(
            Lifetime {
                timer: Countdown {
                    duration: (BLOOD_LIFETIME_SECONDS * TICKS_PER_SECOND) as u64,
                    remaining: (BLOOD_LIFETIME_SECONDS * TICKS_PER_SECOND) as u64,
                    done: false,
                },
            },
        ),
        blood: Some(Blood),
        ..bare_entity(id, None, now, t)
    }
}

/// The bullet among the two entities of a contact: the first if it is one, else the second.
pub open spec fn bullet_of(s: Seq<Entity>, a: u64, b: u64) -> Option<Entity> {
    match lookup(s, a) {
        Some(e) if e.bullet is Some => Some(e),
        _ => match lookup(s, b) {
            Some(e) if e.bullet is Some => Some(e),
            _ => None,
        },
    }
}

pub open spec fn is_player(s: Seq<Entity>, id: u64) -> bool {
    lookup(s, id) matches Some(e) && e.player is Some
}

/// Particles numbered from `next_id`, one per velocity of `spray`.
pub open spec fn particles(next_id: u64, now: u64, t: Transform, spray: Seq<Vector>) -> Seq<Entity> {
    Seq::new(spray.len(), |j: int| blood_particle((next_id + j) as u64, now, t, spray[j]))
}

fn bullet_at(s: &Vec<Entity>, id: u64) -> (r: Option<usize>)
    requires
        crate::store::ids_increasing(s@),
    ensures
        match r {
            Some(i) => i < s@.len() && s@[i as int].id == id && index_of(s@, id) == i && has_id(
                s@,
                id,
            ) && lookup(s@, id) == Some(s@[i as int]) && s@[i as int].bullet is Some,
            None => !(lookup(s@, id) matches Some(e) && e.bullet is Some),
        },
{
    match find(s, id) {
        Some(i) => if s[i].bullet.is_some() {
            Some(i)
        } else {
            None
        },
        None => None,
    }
}

/// `s` without its entity at position `k`.
fn without(s: &Vec<Entity>, k: usize) -> (r: Vec<Entity>)
    requires
        k < s@.len(),
    ensures
        r@ == s@.remove(k as int),
{
    let mut out: Vec<Entity> = Vec::new();
    let n = s.len();
    for i in 0..n
        invariant
            n == s@.len(),
            k < n,
            out@ == (if i <= k { s@.take(i as int) } else { s@.remove(k as int).take(i - 1) }),
    {
        if i != k {
            out.push(s[i]);
            proof {
                if i > k {
                    assert(s@.remove(k as int).take(i as int) =~= s@.remove(k as int).take(
                        i - 1,
                    ).push(s@[i as int]));
                } else {
                    assert(s@.take(i + 1) =~= s@.take(i as int).push(s@[i as int]));
                }
            }
        } else {
            assert(s@.take(i as int) =~= s@.remove(k as int).take(i as int));
        }
    }
    assert(out@ =~= s@.remove(k as int));
    out
}

proof fn lemma_without_wf(s: Seq<Entity>, next_id: u64, k: int)
    requires
        entities_wf(s, next_id),
        0 <= k < s.len(),
    ensures
        entities_wf(s.remove(k), next_id),
{
    let r = s.remove(k);
    assert forall|i: int| 0 <= i < r.len() implies entity_wf(#[trigger] r[i]) by {
        if i < k {
            assert(r[i] == s[i]);
        } else {
            assert(r[i] == s[i + 1]);
        }
    }
    assert forall|i: int, j: int| 0 <= i < j < r.len() implies r[i].id < r[j].id by {
        let i2 = if i < k { i } else { i + 1 };
        let j2 = if j < k { j } else { j + 1 };
        assert(r[i] == s[i2] && r[j] == s[j2]);
    }
    assert forall|i: int| 0 <= i < r.len() implies r[i].id < next_id by {
        let i2 = if i < k { i } else { i + 1 };
        assert(r[i] == s[i2]);
    }
}

proof fn lemma_particles_wf(r: Seq<Entity>, start: u64, now: u64, t: Transform, spray: Seq<Vector>)
    requires
        entities_wf(r, start),
        start + spray.len() <= u64::MAX,
    ensures
        entities_wf(r + particles(start, now, t, spray), (start + spray.len()) as u64),
{
    let ps = particles(start, now, t, spray);
    let c = r + ps;
    assert forall|i: int| 0 <= i < c.len() implies entity_wf(#[trigger] c[i]) by {
        if i < r.len() {
            assert(c[i] == r[i]);
        } else {
            assert(c[i] == ps[i - r.len()]);
        }
    }
    assert forall|i: int, j: int| 0 <= i < j < c.len() implies c[i].id < c[j].id by {
        if j < r.len() {
            assert(c[i] == r[i] && c[j] == r[j]);
        } else if i < r.len() {
            assert(c[i] == r[i] && c[j] == ps[j - r.len()]);
        } else {
            assert(c[i] == ps[i - r.len()] && c[j] == ps[j - r.len()]);
        }
    }
    assert forall|i: int| 0 <= i < c.len() implies c[i].id < start + spray.len() by {
        if i < r.len() {
            assert(c[i] == r[i]);
        } else {
            assert(c[i] == ps[i - r.len()]);
        }
    }
}

/// Appends one blood particle per velocity of `spray`, numbered from `start`.
fn push_particles(out: &mut Vec<Entity>, start: u64, now: u64, t: Transform, spray: &Vec<Vector>)
    requires
        start + spray@.len() <= u64::MAX,
    ensures
        final(out)@ == old(out)@ + particles(start, now, t, spray@),
{
    let ghost kept = out@;
    let m = spray.len();
    for j in 0..m
        invariant
            m == spray@.len(),
            start + m <= u64::MAX,
            out@ == kept + particles(start, now, t, spray@.take(j as int)),
    {
        let mut p = Entity::new(start + j as u64, None, now, t);
        p.velocity = Some(spray[j]);
        p.lifetime = Some(Lifetime::from_seconds(BLOOD_LIFETIME_SECONDS));
        p.blood = Some(Blood);
        out.push(p);
        assert(particles(start, now, t, spray@.take(j + 1)) =~= particles(
            start,
            now,
            t,
            spray@.take(j as int),
        ).push(p));
    }
    assert(spray@.take(m as int) =~= spray@);
}

impl World {
    /// The bullet among the two entities of a contact, if one of them is a bullet.
    pub fn bullet_in_contact(&self, a: u64, b: u64) -> (r: Option<Entity>)
        requires
            self.wf(),
        ensures
            r == bullet_of(self@.entities, a, b),
    {
        match bullet_at(&self.entities, a) {
            Some(k) => Some(self.entities[k]),
            None => match bullet_at(&self.entities, b) {
                Some(k) => Some(self.entities[k]),
                None => None,
            },
        }
    }

    /// A contact between entities `a` and `b`, one a bullet and the other a player,
    /// bursts the bullet into blood: one particle per velocity of `spray`, at the
    /// bullet's transform, and the bullet goes. Any other contact changes nothing.
    /// Returns whether the bullet burst.
    pub fn spawn_blood_on_hit(&mut self, a: u64, b: u64, spray: &Vec<Vector>) -> (r: bool)
        requires
            old(self).wf(),
            old(self).next_id + spray@.len() <= u64::MAX,
        ensures
            final(self).wf(),
            r == (bullet_of(old(self)@.entities, a, b) is Some && (is_player(old(self)@.entities, a)
                || is_player(old(self)@.entities, b))),
            r ==> ({
                let s = old(self)@.entities;
                let bullet = bullet_of(s, a, b).unwrap();
                &&& final(self)@.entities == s.remove(index_of(s, bullet.id)) + particles(
                    old(self).next_id,
                    old(self).now,
                    bullet.transform,
                    spray@,
                )
                &&& final(self).next_id == old(self).next_id + spray@.len()
            }),
            !r ==> final(self)@ == old(self)@,
            final(self).now == old(self).now,
            final(self).bounds == old(self).bounds,
    {
        let k = match bullet_at(&self.entities, a) {
            Some(k) => Some(k),
            None => bullet_at(&self.entities, b),
        };
        let pa = match find(&self.entities, a) {
            Some(i) => self.entities[i].player.is_some(),
            None => false,
        };
        let pb = match find(&self.entities, b) {
            Some(i) => self.entities[i].player.is_some(),
            None => false,
        };
        let k = match k {
            Some(k) => k,
            None => {
                return false;
            },
        };
        if !(pa || pb) {
            return false;
        }
        let ghost s = self.entities@;
        let bullet = self.entities[k];
        assert(bullet_of(s, a, b) == Some(bullet));
        let mut out = without(&self.entities, k);
        proof {
            lemma_without_wf(s, self.next_id, k as int);
            lemma_particles_wf(out@, self.next_id, self.now, bullet.transform, spray@);
        }
        push_particles(&mut out, self.next_id, self.now, bullet.transform, spray);
        self.entities = out;
        self.next_id = self.next_id + spray.len() as u64;
        true
    }
}

} // verus!
