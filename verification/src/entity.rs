//! The entity abstraction: a closed set of variants (obstacle, patroller,
//! player actor) dispatched by pattern matching, and the registry that
//! owns them in insertion order.

use vstd::prelude::*;

use crate::block::{Block, BlockV};
use crate::graphics::{Color, Graphics, GraphicsV};
use crate::grid::coord_ok;
use crate::pacman::{Pacman, PacmanV};
use crate::patroller::{Patroller, PatrollerV};

verus! {

/// The key codes the simulation distinguishes. Every other key arrives
/// as `Other` and is ignored by all entities.
#[derive(Clone, Copy, PartialEq, Eq, Structural)]
pub enum Keycode {
    Right,
    Left,
    Up,
    Down,
    W,
    A,
    S,
    D,
    Escape,
    Other,
}

/// One discrete input event handed to a frame: an explicit quit request
/// or a key-down with its code.
#[derive(Clone, Copy, PartialEq, Eq, Structural)]
pub enum InputEvent {
    Quit,
    KeyDown(Keycode),
}

/// An entity of the simulation. The capability set — identify, report
/// position, report visuals, lifecycle hook, per-frame update, key
/// hook — is dispatched over this closed union.
pub enum Entity {
    Block(Block),
    Patroller(Patroller),
    Pacman(Pacman),
}

/// Mathematical model of an entity.
pub ghost enum EntityV {
    Block(BlockV),
    Patroller(PatrollerV),
    Pacman(PacmanV),
}

impl View for Entity {
    type V = EntityV;

    open spec fn view(&self) -> EntityV {
        match self {
            Entity::Block(b) => EntityV::Block(b@),
            Entity::Patroller(p) => EntityV::Patroller(p@),
            Entity::Pacman(p) => EntityV::Pacman(p@),
        }
    }
}

impl EntityV {
    /// The entity's stable name.
    pub open spec fn name_of(self) -> Seq<char> {
        match self {
            EntityV::Block(b) => b.name,
            EntityV::Patroller(p) => p.name,
            EntityV::Pacman(p) => p.name,
        }
    }

    /// The entity's position, in pixel coordinates.
    pub open spec fn pos_of(self) -> (int, int) {
        match self {
            EntityV::Block(b) => (b.x, b.y),
            EntityV::Patroller(p) => (p.x, p.y),
            EntityV::Pacman(p) => (p.x, p.y),
        }
    }

    /// The entity's visual descriptor.
    pub open spec fn graphics_of(self) -> GraphicsV {
        match self {
            EntityV::Block(b) => b.rect,
            EntityV::Patroller(p) => p.graphics,
            EntityV::Pacman(p) => p.circle,
        }
    }

    /// The entity's draw color.
    pub open spec fn color_of(self) -> Color {
        match self {
            EntityV::Block(b) => b.color,
            EntityV::Patroller(p) => p.color,
            EntityV::Pacman(p) => p.color,
        }
    }

    /// The entity after its lifecycle hook.
    pub open spec fn started(self) -> EntityV {
        match self {
            EntityV::Block(b) => EntityV::Block(b.started()),
            EntityV::Patroller(p) => EntityV::Patroller(p),
            EntityV::Pacman(p) => EntityV::Pacman(p),
        }
    }

    /// The entity after one per-frame update.
    pub open spec fn stepped(self) -> EntityV {
        match self {
            EntityV::Block(b) => EntityV::Block(b),
            EntityV::Patroller(p) => EntityV::Patroller(p.stepped()),
            EntityV::Pacman(p) => EntityV::Pacman(p.stepped()),
        }
    }

    /// The entity after a key-down event.
    pub open spec fn keyed(self, k: Keycode) -> EntityV {
        match self {
            EntityV::Block(b) => EntityV::Block(b),
            EntityV::Patroller(p) => EntityV::Patroller(p),
            EntityV::Pacman(p) => EntityV::Pacman(p.keyed(k)),
        }
    }

    /// Machine-range well-formedness, per variant.
    pub open spec fn ok(self) -> bool {
        match self {
            EntityV::Block(b) => coord_ok(b.x) && coord_ok(b.y),
            EntityV::Patroller(p) => p.wf(),
            EntityV::Pacman(p) => p.bounded(),
        }
    }

    /// The position lies within the coordinate range.
    pub open spec fn pos_ok(self) -> bool {
        coord_ok(self.pos_of().0) && coord_ok(self.pos_of().1)
    }
}

/// The lifecycle hook never moves an entity, so it preserves
/// well-formedness.
pub proof fn lemma_started_ok(e: EntityV)
    ensures
        e.started().ok() == e.ok(),
{
    match e {
        EntityV::Block(_) => {}
        EntityV::Patroller(_) => {}
        EntityV::Pacman(_) => {}
    }
}

/// A key-down only latches a queued direction, so it preserves
/// well-formedness.
pub proof fn lemma_keyed_ok(e: EntityV, k: Keycode)
    ensures
        e.keyed(k).ok() == e.ok(),
{
    match e {
        EntityV::Block(_) => {}
        EntityV::Patroller(_) => {}
        EntityV::Pacman(_) => {}
    }
}

/// A well-formed entity's position is in range.
pub proof fn lemma_ok_pos(e: EntityV)
    requires
        e.ok(),
    ensures
        e.pos_ok(),
{
    match e {
        EntityV::Block(_) => {}
        EntityV::Patroller(_) => {}
        EntityV::Pacman(_) => {}
    }
}

impl Entity {
    pub fn get_name(&self) -> (r: &String)
        ensures
            r@ == self@.name_of(),
    {
        match self {
            Entity::Block(b) => b.get_name(),
            Entity::Patroller(p) => p.get_name(),
            Entity::Pacman(p) => p.get_name(),
        }
    }

    pub fn get_pos(&self) -> (r: (i32, i32))
        ensures
            r.0 == self@.pos_of().0,
            r.1 == self@.pos_of().1,
    {
        match self {
            Entity::Block(b) => b.get_pos(),
            Entity::Patroller(p) => p.get_pos(),
            Entity::Pacman(p) => p.get_pos(),
        }
    }

    pub fn get_graphics(&self) -> (r: &Graphics)
        ensures
            r@ == self@.graphics_of(),
    {
        match self {
            Entity::Block(b) => b.get_graphics(),
            Entity::Patroller(p) => p.get_graphics(),
            Entity::Pacman(p) => p.get_graphics(),
        }
    }

    pub fn get_color(&self) -> (r: Color)
        ensures
            r == self@.color_of(),
    {
        match self {
            Entity::Block(b) => b.get_color(),
            Entity::Patroller(p) => p.get_color(),
            Entity::Pacman(p) => p.get_color(),
        }
    }

    /// Checks machine-range well-formedness, so that an unverified
    /// caller can test it before driving a frame.
    pub fn is_ok(&self) -> (r: bool)
        ensures
            r == self@.ok(),
    {
        match self {
            Entity::Block(b) => {
                let (bx, by) = b.get_pos();
                -crate::grid::COORD_LIMIT <= bx && bx <= crate::grid::COORD_LIMIT
                    && -crate::grid::COORD_LIMIT <= by && by <= crate::grid::COORD_LIMIT
            }
            Entity::Patroller(p) => p.is_well_formed(),
            Entity::Pacman(p) => p.in_bounds(),
        }
    }

    /// Lifecycle hook, invoked once before the first frame.
    pub fn start(&mut self)
        ensures
            final(self)@ == old(self)@.started(),
    {
        match self {
            Entity::Block(b) => b.start(),
            Entity::Patroller(p) => p.start(),
            Entity::Pacman(p) => p.start(),
        }
    }

    /// Per-frame update hook.
    pub fn update(&mut self)
        requires
            old(self)@.ok(),
        ensures
            final(self)@ == old(self)@.stepped(),
            final(self)@.pos_ok(),
            final(self)@.name_of() == old(self)@.name_of(),
    {
        match self {
            Entity::Block(b) => {
                b.update();
                proof {
                    lemma_ok_pos(old(self)@);
                }
            }
            Entity::Patroller(p) => {
                p.update();
                proof {
                    lemma_ok_pos(self@);
                }
            }
            Entity::Pacman(p) => p.update(),
        }
    }

    /// Key-press hook; every entity receives every key-down event.
    pub fn on_key_down(&mut self, keycode: Keycode)
        ensures
            final(self)@ == old(self)@.keyed(keycode),
            final(self)@.ok() == old(self)@.ok(),
    {
        match self {
            Entity::Block(b) => b.on_key_down(keycode),
            Entity::Patroller(p) => p.on_key_down(keycode),
            Entity::Pacman(p) => p.on_key_down(keycode),
        }
    }
}

/// The view of a vector of entities.
pub open spec fn ents_view(s: Seq<Entity>) -> Seq<EntityV> {
    s.map_values(|e: Entity| e@)
}

/// Every entity is machine-range well-formed.
pub open spec fn all_ok(ents: Seq<EntityV>) -> bool {
    forall|i: int| 0 <= i < ents.len() ==> (#[trigger] ents[i]).ok()
}

/// Well-formed entities all have positions in range.
pub proof fn lemma_all_ok_pos(ents: Seq<EntityV>)
    requires
        all_ok(ents),
    ensures
        all_pos_ok(ents),
{
    assert forall|i: int| 0 <= i < ents.len() implies (#[trigger] ents[i]).pos_ok() by {
        lemma_ok_pos(ents[i]);
    }
}

/// Every entity's position is within the coordinate range.
pub open spec fn all_pos_ok(ents: Seq<EntityV>) -> bool {
    forall|i: int| 0 <= i < ents.len() ==> (#[trigger] ents[i]).pos_ok()
}

/// All entities after their lifecycle hooks.
pub open spec fn started_all(ents: Seq<EntityV>) -> Seq<EntityV> {
    ents.map_values(|e: EntityV| e.started())
}

/// All entities after one per-frame update, in registry order.
pub open spec fn stepped_all(ents: Seq<EntityV>) -> Seq<EntityV> {
    ents.map_values(|e: EntityV| e.stepped())
}

/// All entities after one key-down dispatch.
pub open spec fn keyed_all(ents: Seq<EntityV>, k: Keycode) -> Seq<EntityV> {
    ents.map_values(|e: EntityV| e.keyed(k))
}

/// The index of the first entity with the given name, or -1.
pub open spec fn first_named(ents: Seq<EntityV>, name: Seq<char>) -> int
    decreases ents.len(),
{
    if ents.len() <= 0 {
        -1
    } else if ents[0].name_of() == name {
        0
    } else {
        let rest = first_named(ents.drop_first(), name);
        if rest < 0 {
            -1
        } else {
            rest + 1
        }
    }
}

/// `first_named` is the smallest matching index, and -1 exactly when no
/// entity carries the name.
pub proof fn lemma_first_named(ents: Seq<EntityV>, name: Seq<char>)
    ensures
        first_named(ents, name) == -1 || 0 <= first_named(ents, name) < ents.len(),
        first_named(ents, name) >= 0 ==> ents[first_named(ents, name)].name_of() == name,
        forall|j: int|
            0 <= j < ents.len() && (first_named(ents, name) == -1 || j < first_named(ents, name))
                ==> (#[trigger] ents[j]).name_of() != name,
    decreases ents.len(),
{
    if ents.len() > 0 && ents[0].name_of() != name {
        lemma_first_named(ents.drop_first(), name);
        assert(forall|j: int|
            1 <= j < ents.len() ==> (#[trigger] ents[j]) == ents.drop_first()[j - 1]);
    }
}

/// The registry: exclusive owner of all entities, in insertion order.
pub struct EntityEnviroment {
    pub(crate) entities: Vec<Entity>,
}

impl View for EntityEnviroment {
    type V = Seq<EntityV>;

    closed spec fn view(&self) -> Seq<EntityV> {
        ents_view(self.entities@)
    }
}

impl EntityEnviroment {
    pub fn create() -> (r: EntityEnviroment)
        ensures
            r@ == Seq::<EntityV>::empty(),
    {
        let r = EntityEnviroment { entities: Vec::new() };
        proof {
            assert(r@ =~= Seq::<EntityV>::empty());
        }
        r
    }

    /// Appends an entity; no duplicate check.
    pub fn add(&mut self, entity: Entity)
        ensures
            final(self)@ == old(self)@.push(entity@),
    {
        let ghost v = entity@;
        self.entities.push(entity);
        proof {
            assert(self@ =~= old(self)@.push(v));
        }
    }

    pub fn len(&self) -> (r: usize)
        ensures
            r == self@.len(),
    {
        self.entities.len()
    }

    pub fn get_at(&self, i: usize) -> (r: &Entity)
        requires
            i < self@.len(),
        ensures
            r@ == self@[i as int],
    {
        &self.entities[i]
    }

    /// Runs the lifecycle hook of the entity at `i`.
    pub(crate) fn start_at(&mut self, i: usize)
        requires
            i < old(self)@.len(),
        ensures
            final(self)@ == old(self)@.update(i as int, old(self)@[i as int].started()),
    {
        self.entities[i].start();
        proof {
            assert(self@ =~= old(self)@.update(i as int, old(self)@[i as int].started()));
        }
    }

    /// Runs the per-frame update of the entity at `i`.
    pub(crate) fn update_at(&mut self, i: usize)
        requires
            i < old(self)@.len(),
            old(self)@[i as int].ok(),
        ensures
            final(self)@ == old(self)@.update(i as int, old(self)@[i as int].stepped()),
            final(self)@[i as int].pos_ok(),
    {
        self.entities[i].update();
        proof {
            assert(self@ =~= old(self)@.update(i as int, old(self)@[i as int].stepped()));
        }
    }

    /// Hands a key-down event to the entity at `i`.
    pub(crate) fn key_at(&mut self, i: usize, keycode: Keycode)
        requires
            i < old(self)@.len(),
        ensures
            final(self)@ == old(self)@.update(i as int, old(self)@[i as int].keyed(keycode)),
            final(self)@[i as int].ok() == old(self)@[i as int].ok(),
    {
        self.entities[i].on_key_down(keycode);
        proof {
            assert(self@ =~= old(self)@.update(i as int, old(self)@[i as int].keyed(keycode)));
        }
    }

    /// Drops all entities; used only on session reset.
    pub(crate) fn clear(&mut self)
        ensures
            final(self)@ == Seq::<EntityV>::empty(),
    {
        self.entities.clear();
        proof {
            assert(self@ =~= Seq::<EntityV>::empty());
        }
    }

    /// Linear scan for the first entity whose name equals `name`.
    pub fn get_first(&self, name: &String) -> (r: Option<&Entity>)
        ensures
            match r {
                Some(e) => {
                    &&& first_named(self@, name@) >= 0
                    &&& e@ == self@[first_named(self@, name@)]
                },
                None => first_named(self@, name@) == -1,
            },
    {
        let mut i: usize = 0;
        while i < self.entities.len()
            invariant
                i <= self.entities@.len(),
                forall|j: int| 0 <= j < i ==> (#[trigger] self@[j]).name_of() != name@,
            decreases self.entities@.len() - i,
        {
            let ent = &self.entities[i];
            proof {
                assert(self@[i as int] == self.entities@[i as int]@);
            }
            if *ent.get_name() == *name {
                proof {
                    lemma_first_named(self@, name@);
                }
                return Some(ent);
            }
            i += 1;
        }
        proof {
            lemma_first_named(self@, name@);
        }
        None
    }
}

} // verus!
