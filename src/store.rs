use vstd::prelude::*;

use crate::blood::Blood;
use crate::camera::CameraTarget;
use crate::components::aiming::{Aiming, AimingChild};
use crate::components::facing::Facing;
use crate::player::{Animation, Bullet, Gun, Health, Lifetime, Player, Standing};
use crate::units::{Transform, Vector, UNIT};
use crate::world::GameWorld;

verus! {

/// World pose of a gun's muzzle: where projectiles appear, and the unit vector
/// (in thousandths) they leave along.
#[derive(PartialEq, Eq, Structural, Clone, Copy, Debug)]
pub struct Muzzle {
    pub position: Vector,
    pub direction: Vector,
}

/// The first collision group: the world's static geometry and the players.
pub const GROUP_1: u32 = 1;

/// The second collision group: projectiles.
pub const GROUP_2: u32 = 2;

/// Collision filtering of a body, as bit sets of groups: the groups it belongs to
/// and the groups it may meet. A body without one belongs to and meets every group.
#[derive(PartialEq, Eq, Structural, Clone, Copy, Debug)]
pub struct CollisionGroups {
    pub memberships: u32,
    pub filter: u32,
}

/// One entity: an identifier, an optional parent link, and the components attached to it.
/// `ground_contact` and `muzzle` are written by the physics and transform passes
/// before each tick.
#[derive(PartialEq, Eq, Structural, Clone, Copy, Debug)]
pub struct Entity {
    pub id: u64,
    pub parent: Option<u64>,
    pub spawned_at: u64,
    pub transform: Transform,
    pub velocity: Option<Vector>,
    pub half_extents: Option<Vector>,
    pub collision_groups: Option<CollisionGroups>,
    pub ground_contact: bool,
    pub muzzle: Option<Muzzle>,
    pub facing: Option<Facing>,
    pub aiming: Option<Aiming>,
    pub aiming_child: Option<AimingChild>,
    pub standing: Option<Standing>,
    pub health: Option<Health>,
    pub lifetime: Option<Lifetime>,
    pub gun: Option<Gun>,
    pub player: Option<Player>,
    pub animation: Option<Animation>,
    pub camera_target: Option<CameraTarget>,
    pub bullet: Option<Bullet>,
    pub blood: Option<Blood>,
}

pub open spec fn bare_entity(id: u64, parent: Option<u64>, now: u64, t: Transform) -> Entity {
    Entity {
        id,
        parent,
        spawned_at: now,
        transform: t,
        velocity: None,
        half_extents: None,
        collision_groups: None,
        ground_contact: false,
        muzzle: None,
        facing: None,
        aiming: None,
        aiming_child: None,
        standing: None,
        health: None,
        lifetime: None,
        gun: None,
        player: None,
        animation: None,
        camera_target: None,
        bullet: None,
        blood: None,
    }
}

impl Entity {
    /// An entity with a transform and no component.
    pub fn new(id: u64, parent: Option<u64>, now: u64, transform: Transform) -> (r: Entity)
        ensures
            r == bare_entity(id, parent, now, transform),
    {
        Entity {
            id,
            parent,
            spawned_at: now,
            transform,
            velocity: None,
            half_extents: None,
            collision_groups: None,
            ground_contact: false,
            muzzle: None,
            facing: None,
            aiming: None,
            aiming_child: None,
            standing: None,
            health: None,
            lifetime: None,
            gun: None,
            player: None,
            animation: None,
            camera_target: None,
            bullet: None,
            blood: None,
        }
    }
}


/// Identifiers strictly increase along the store: the order of creation.
pub open spec fn ids_increasing(s: Seq<Entity>) -> bool {
    forall|i: int, j: int| 0 <= i < j < s.len() ==> s[i].id < s[j].id
}

pub open spec fn has_id(s: Seq<Entity>, id: u64) -> bool {
    exists|i: int| 0 <= i < s.len() && s[i].id == id
}

/// Position of the entity `id`; meaningful where `has_id(s, id)`.
pub open spec fn index_of(s: Seq<Entity>, id: u64) -> int {
    choose|i: int| 0 <= i < s.len() && s[i].id == id
}

/// The entity `id`, if the store holds it.
pub open spec fn lookup(s: Seq<Entity>, id: u64) -> Option<Entity> {
    if has_id(s, id) {
        Some(s[index_of(s, id)])
    } else {
        None
    }
}

/// A unit vector in thousandths has no coordinate beyond one unit.
pub open spec fn unit_bounded(v: Vector) -> bool {
    -UNIT <= v.x <= UNIT && -UNIT <= v.y <= UNIT
}

/// What each entity must satisfy on its own: a parent is older than its child, a
/// collider has non-negative half-extents that leave room for its ground probe, a muzzle points along a unit vector.
pub open spec fn entity_wf(e: Entity) -> bool {
    &&& (e.parent matches Some(p) ==> p < e.id)
    &&& (e.half_extents matches Some(h) ==> h.x >= 0 && h.y >= 0 && h.y <= i64::MAX - UNIT)
    &&& (e.muzzle matches Some(m) ==> unit_bounded(m.direction))
}

pub open spec fn entities_wf(s: Seq<Entity>, next_id: u64) -> bool {
    &&& ids_increasing(s)
    &&& forall|i: int| 0 <= i < s.len() ==> s[i].id < next_id
    &&& forall|i: int| 0 <= i < s.len() ==> entity_wf(#[trigger] s[i])
}

/// With increasing identifiers, the entity `id` sits at exactly one position.
pub proof fn lemma_index_of_unique(s: Seq<Entity>, id: u64, i: int)
    requires
        ids_increasing(s),
        0 <= i < s.len(),
        s[i].id == id,
    ensures
        has_id(s, id),
        index_of(s, id) == i,
        lookup(s, id) == Some(s[i]),
{
    assert(has_id(s, id));
    let j = index_of(s, id);
    if j < i {
        assert(s[j].id < s[i].id);
    } else if j > i {
        assert(s[i].id < s[j].id);
    }
}

/// Position of the entity `id` in the store, if it is there.
pub fn find(s: &Vec<Entity>, id: u64) -> (r: Option<usize>)
    requires
        ids_increasing(s@),
    ensures
        match r {
            Some(i) => i < s@.len() && s@[i as int].id == id && index_of(s@, id) == i && has_id(
                s@,
                id,
            ),
            None => !has_id(s@, id),
        },
        lookup(s@, id) == (match r {
            Some(i) => Some(s@[i as int]),
            None => None::<Entity>,
        }),
{
    let mut i: usize = 0;
    while i < s.len()
        invariant
            i <= s@.len(),
            ids_increasing(s@),
            forall|j: int| 0 <= j < i ==> s@[j].id != id,
        decreases s@.len() - i,
    {
        if s[i].id == id {
            proof {
                lemma_index_of_unique(s@, id, i as int);
            }
            return Some(i);
        }
        i = i + 1;
    }
    None
}

/// Identifiers of the entities of `s` with health at zero or below, in order.
pub open spec fn dead_of(s: Seq<Entity>) -> Seq<u64>
    decreases s.len(),
{
    if s.len() == 0 {
        Seq::empty()
    } else {
        let r = dead_of(s.drop_last());
        if s.last().health matches Some(h) && h.health <= 0 {
            r.push(s.last().id)
        } else {
            r
        }
    }
}

/// The entity store: entities in creation order, the next identifier to hand out,
/// the number of the current tick and the size of the world.
pub struct World {
    pub entities: Vec<Entity>,
    pub next_id: u64,
    pub now: u64,
    pub bounds: GameWorld,
}

/// The mathematical state of a `World`.
pub struct WorldState {
    pub entities: Seq<Entity>,
    pub next_id: u64,
    pub now: u64,
    pub bounds: GameWorld,
}

impl WorldState {
    pub open spec fn wf(&self) -> bool {
        entities_wf(self.entities, self.next_id) && self.bounds.wf()
    }
}

impl View for World {
    type V = WorldState;

    open spec fn view(&self) -> WorldState {
        WorldState {
            entities: self.entities@,
            next_id: self.next_id,
            now: self.now,
            bounds: self.bounds,
        }
    }
}

impl World {
    pub open spec fn wf(&self) -> bool {
        self@.wf()
    }

    /// An empty world of the given size, at tick zero.
    pub fn new(bounds: GameWorld) -> (r: World)
        requires
            bounds.wf(),
        ensures
            r.wf(),
            r@.entities.len() == 0,
            r@.next_id == 0,
            r@.now == 0,
            r@.bounds == bounds,
    {
        World { entities: Vec::new(), next_id: 0, now: 0, bounds }
    }

    /// Physics write-back: the resolved position and velocity of entity `id`, and
    /// whether its downward probe hit static geometry. Returns whether `id` is held.
    pub fn apply_physics(&mut self, id: u64, translation: Vector, velocity: Vector, ground_contact: bool) -> (r: bool)
        requires
            old(self).wf(),
        ensures
            final(self).wf(),
            r == has_id(old(self)@.entities, id),
            r ==> final(self)@.entities == old(self)@.entities.update(
                index_of(old(self)@.entities, id),
                Entity {
                    transform: Transform { translation, ..old(self)@.entities[index_of(old(self)@.entities, id)].transform },
                    velocity: if old(self)@.entities[index_of(old(self)@.entities, id)].velocity is Some {
                        Some(velocity)
                    } else {
                        None
                    },
                    ground_contact,
                    ..old(self)@.entities[index_of(old(self)@.entities, id)]
                },
            ),
            !r ==> final(self)@.entities == old(self)@.entities,
            final(self).next_id == old(self).next_id,
            final(self).now == old(self).now,
            final(self).bounds == old(self).bounds,
    {
        match find(&self.entities, id) {
            Some(i) => {
                let mut e = self.entities[i];
                e.transform.translation = translation;
                if e.velocity.is_some() {
                    e.velocity = Some(velocity);
                }
                e.ground_contact = ground_contact;
                self.entities.set(i, e);
                assert(forall|j: int| 0 <= j < self.entities@.len() && j != i ==> self.entities@[j] == old(self)@.entities[j]);
                true
            },
            None => false,
        }
    }

    /// Transform write-back: the world pose of the muzzle of gun `id`. Returns
    /// whether `id` is held.
    pub fn set_muzzle(&mut self, id: u64, muzzle: Muzzle) -> (r: bool)
        requires
            old(self).wf(),
            unit_bounded(muzzle.direction),
        ensures
            final(self).wf(),
            r == has_id(old(self)@.entities, id),
            r ==> final(self)@.entities == old(self)@.entities.update(
                index_of(old(self)@.entities, id),
                Entity { muzzle: Some(muzzle), ..old(self)@.entities[index_of(old(self)@.entities, id)] },
            ),
            !r ==> final(self)@.entities == old(self)@.entities,
            final(self).next_id == old(self).next_id,
            final(self).now == old(self).now,
            final(self).bounds == old(self).bounds,
    {
        match find(&self.entities, id) {
            Some(i) => {
                let mut e = self.entities[i];
                e.muzzle = Some(muzzle);
                self.entities.set(i, e);
                assert(forall|j: int| 0 <= j < self.entities@.len() && j != i ==> self.entities@[j] == old(self)@.entities[j]);
                true
            },
            None => false,
        }
    }

    /// Identifiers of the entities whose health is gone, in creation order.
    pub fn dead_entities(&self) -> (r: Vec<u64>)
        ensures
            r@ == dead_of(self@.entities),
    {
        let mut out: Vec<u64> = Vec::new();
        let n = self.entities.len();
        for i in 0..n
            invariant
                n == self.entities@.len(),
                out@ == dead_of(self.entities@.take(i as int)),
        {
            assert(self.entities@.take(i + 1).drop_last() =~= self.entities@.take(i as int));
            if let Some(h) = self.entities[i].health {
                if h.is_dead() {
                    out.push(self.entities[i].id);
                }
            }
        }
        assert(self.entities@.take(n as int) =~= self.entities@);
        out
    }

    /// The entity `id`, if the world holds it.
    pub fn get(&self, id: u64) -> (r: Option<Entity>)
        requires
            self.wf(),
        ensures
            r == lookup(self@.entities, id),
    {
        match find(&self.entities, id) {
            Some(i) => Some(self.entities[i]),
            None => None,
        }
    }
}

} // verus!
