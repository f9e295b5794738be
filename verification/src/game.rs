//! The orchestrator. It owns the entity registry and the remaining
//! pickups, and drives one frame at a time in a strict order: quit check,
//! key dispatch, lose check, entity updates, pickup resolution, win
//! check. Rendering and pacing are the caller's business; the caller
//! hands each frame's input events in and acts on the returned outcome.

use vstd::prelude::*;

use crate::entity::{
    all_ok, all_pos_ok, first_named, keyed_all, lemma_all_ok_pos, lemma_first_named,
    lemma_keyed_ok, lemma_started_ok, started_all, stepped_all, Entity, EntityEnviroment, EntityV,
    InputEvent, Keycode,
};
use crate::grid::{coord_ok, div32_trunc, round32, round_to_cell, trunc_cell, COORD_LIMIT};

verus! {

/// The terminal outcome of a session. Win and Lose are reported up for
/// restart or termination; Close asks for immediate termination.
#[derive(Clone, Copy, PartialEq, Eq, Structural, Debug)]
pub enum GameState {
    Win,
    Lose,
    Close,
}

/// The view of the pickup list.
pub open spec fn scores_view(s: Seq<(i32, i32)>) -> Seq<(int, int)> {
    s.map_values(|p: (i32, i32)| (p.0 as int, p.1 as int))
}

/// Every pickup position is within the coordinate range.
pub open spec fn scores_ok(scores: Seq<(int, int)>) -> bool {
    forall|i: int| #![all_triggers]
        0 <= i < scores.len() ==> coord_ok(scores[i].0) && coord_ok(scores[i].1)
}

/// Lose condition: a first entity named "pacman" exists and shares its
/// grid cell with some entity named "ghost".
pub open spec fn lose_now(ents: Seq<EntityV>) -> bool {
    let pi = first_named(ents, "pacman"@);
    pi >= 0 && exists|j: int| #![all_triggers]
        0 <= j < ents.len() && ents[j].name_of() == "ghost"@ && round32(ents[j].pos_of().0)
            == round32(ents[pi].pos_of().0) && round32(ents[j].pos_of().1) == round32(
            ents[pi].pos_of().1,
        )
}

/// Whether a pickup lies in the actor's grid cell: the pickup's cell by
/// truncating division, the actor's by rounding.
pub open spec fn score_hit(s: (int, int), cx: int, cy: int) -> bool {
    div32_trunc(s.0) == cx && div32_trunc(s.1) == cy
}

/// The index of the first pickup in the cell `(cx, cy)`, or -1.
pub open spec fn first_hit(scores: Seq<(int, int)>, cx: int, cy: int) -> int
    decreases scores.len(),
{
    if scores.len() <= 0 {
        -1
    } else if score_hit(scores[0], cx, cy) {
        0
    } else {
        let rest = first_hit(scores.drop_first(), cx, cy);
        if rest < 0 {
            -1
        } else {
            rest + 1
        }
    }
}

/// `first_hit` is the smallest matching index, and -1 exactly when no
/// pickup lies in the cell.
pub proof fn lemma_first_hit(scores: Seq<(int, int)>, cx: int, cy: int)
    ensures
        first_hit(scores, cx, cy) == -1 || 0 <= first_hit(scores, cx, cy) < scores.len(),
        first_hit(scores, cx, cy) >= 0 ==> score_hit(scores[first_hit(scores, cx, cy)], cx, cy),
        forall|j: int| #![all_triggers]
            0 <= j < scores.len() && (first_hit(scores, cx, cy) == -1 || j < first_hit(
                scores,
                cx,
                cy,
            )) ==> !score_hit(scores[j], cx, cy),
    decreases scores.len(),
{
    if scores.len() > 0 && !score_hit(scores[0], cx, cy) {
        lemma_first_hit(scores.drop_first(), cx, cy);
        assert(forall|j: int|
            1 <= j < scores.len() ==> (#[trigger] scores[j]) == scores.drop_first()[j - 1]);
    }
}

/// Pickup resolution: remove the first pickup in the actor's cell, at
/// most one per frame; with no actor or no match, leave the list alone.
pub open spec fn resolve_scores(ents: Seq<EntityV>, scores: Seq<(int, int)>) -> Seq<(int, int)> {
    let pi = first_named(ents, "pacman"@);
    if pi < 0 {
        scores
    } else {
        let cx = round32(ents[pi].pos_of().0);
        let cy = round32(ents[pi].pos_of().1);
        let si = first_hit(scores, cx, cy);
        if si < 0 {
            scores
        } else {
            scores.remove(si)
        }
    }
}

/// Pickup idempotence: when at most one pickup lies in the actor's grid
/// cell, resolving pickups twice equals resolving them once — after the
/// single matching pickup is removed, a second resolution with the actor
/// still in that cell removes nothing further.
pub proof fn lemma_resolve_idempotent(ents: Seq<EntityV>, scores: Seq<(int, int)>)
    requires
        ({
            let pi = first_named(ents, "pacman"@);
            let cx = round32(ents[pi].pos_of().0);
            let cy = round32(ents[pi].pos_of().1);
            pi >= 0 ==> forall|i: int, j: int| #![all_triggers]
                0 <= i < scores.len() && 0 <= j < scores.len() && i != j ==> !(score_hit(
                    scores[i],
                    cx,
                    cy,
                ) && score_hit(scores[j], cx, cy))
        }),
    ensures
        resolve_scores(ents, resolve_scores(ents, scores)) == resolve_scores(ents, scores),
{
    let pi = first_named(ents, "pacman"@);
    if pi >= 0 {
        let cx = round32(ents[pi].pos_of().0);
        let cy = round32(ents[pi].pos_of().1);
        let si = first_hit(scores, cx, cy);
        lemma_first_hit(scores, cx, cy);
        if si >= 0 {
            let s1 = scores.remove(si);
            assert(forall|j: int| #![all_triggers]
                0 <= j < s1.len() ==> s1[j] == (if j < si {
                    scores[j]
                } else {
                    scores[j + 1]
                }));
            assert forall|j: int| 0 <= j < s1.len() implies !score_hit(#[trigger] s1[j], cx, cy) by {
                if j < si {
                    assert(!score_hit(scores[j], cx, cy));
                } else {
                    assert(j + 1 != si);
                    assert(score_hit(scores[si], cx, cy));
                }
            }
            lemma_first_hit(s1, cx, cy);
            assert(first_hit(s1, cx, cy) == -1);
        }
    }
}

/// An event that ends the session at once: explicit quit, or the cancel
/// key.
pub open spec fn is_close(ev: InputEvent) -> bool {
    ev == InputEvent::Quit || ev == InputEvent::KeyDown(Keycode::Escape)
}

/// The index of the first closing event, or -1.
pub open spec fn close_index(events: Seq<InputEvent>) -> int
    decreases events.len(),
{
    if events.len() <= 0 {
        -1
    } else if is_close(events[0]) {
        0
    } else {
        let rest = close_index(events.drop_first());
        if rest < 0 {
            -1
        } else {
            rest + 1
        }
    }
}

/// `close_index` is the smallest closing index, and -1 exactly when no
/// event closes the session.
pub proof fn lemma_close_index(events: Seq<InputEvent>)
    ensures
        close_index(events) == -1 || 0 <= close_index(events) < events.len(),
        close_index(events) >= 0 ==> is_close(events[close_index(events)]),
        forall|j: int| #![all_triggers]
            0 <= j < events.len() && (close_index(events) == -1 || j < close_index(events))
                ==> !is_close(events[j]),
    decreases events.len(),
{
    if events.len() > 0 && !is_close(events[0]) {
        lemma_close_index(events.drop_first());
        assert(forall|j: int|
            1 <= j < events.len() ==> (#[trigger] events[j]) == events.drop_first()[j - 1]);
    }
}

/// The registry after dispatching the first `n` events in order: each
/// non-closing key-down goes to every entity.
pub open spec fn dispatch_upto(ents: Seq<EntityV>, events: Seq<InputEvent>, n: int) -> Seq<EntityV>
    decreases n,
{
    if n <= 0 {
        ents
    } else {
        let prev = dispatch_upto(ents, events, n - 1);
        match events[n - 1] {
            InputEvent::Quit => prev,
            InputEvent::KeyDown(k) => if k == Keycode::Escape {
                prev
            } else {
                keyed_all(prev, k)
            },
        }
    }
}

/// The session state: window parameters, the entity registry, and the
/// remaining pickups.
pub struct Game {
    title: String,
    width: u32,
    height: u32,
    entity_enviroment: EntityEnviroment,
    scores: Vec<(i32, i32)>,
}

/// Mathematical model of a session.
pub ghost struct GameV {
    pub title: Seq<char>,
    pub width: int,
    pub height: int,
    pub ents: Seq<EntityV>,
    pub scores: Seq<(int, int)>,
}

impl View for Game {
    type V = GameV;

    closed spec fn view(&self) -> GameV {
        GameV {
            title: self.title@,
            width: self.width as int,
            height: self.height as int,
            ents: self.entity_enviroment@,
            scores: scores_view(self.scores@),
        }
    }
}

impl GameV {
    /// Machine-range well-formedness of the whole session state.
    pub open spec fn wf(self) -> bool {
        all_ok(self.ents) && scores_ok(self.scores)
    }
}

impl Game {
    pub fn create(title: &str, width: u32, height: u32) -> (r: Game)
        ensures
            r@ == (GameV {
                title: title@,
                width: width as int,
                height: height as int,
                ents: Seq::<EntityV>::empty(),
                scores: Seq::<(int, int)>::empty(),
            }),
    {
        let r = Game {
            title: title.to_owned(),
            width,
            height,
            entity_enviroment: EntityEnviroment::create(),
            scores: Vec::new(),
        };
        proof {
            assert(scores_view(Seq::<(i32, i32)>::empty()) =~= Seq::<(int, int)>::empty());
        }
        r
    }

    /// Appends an entity to the registry.
    pub fn add_entity(&mut self, entity: Entity)
        ensures
            final(self)@ == (GameV { ents: old(self)@.ents.push(entity@), ..old(self)@ }),
    {
        self.entity_enviroment.add(entity);
    }

    /// Installs the pickup list for the session.
    pub fn set_scores(&mut self, scores: Vec<(i32, i32)>)
        ensures
            final(self)@ == (GameV { scores: scores_view(scores@), ..old(self)@ }),
    {
        self.scores = scores;
    }

    /// Drops all entities and pickups; used on session reset.
    pub fn clear(&mut self)
        ensures
            final(self)@ == (GameV {
                ents: Seq::<EntityV>::empty(),
                scores: Seq::<(int, int)>::empty(),
                ..old(self)@
            }),
    {
        self.entity_enviroment.clear();
        self.scores.clear();
        proof {
            assert(scores_view(self.scores@) =~= Seq::<(int, int)>::empty());
        }
    }

    /// Read access to the registry, for rendering.
    pub fn environment(&self) -> (r: &EntityEnviroment)
        ensures
            r@ == self@.ents,
    {
        &self.entity_enviroment
    }

    /// Read access to the remaining pickups, for rendering.
    pub fn get_scores(&self) -> (r: &Vec<(i32, i32)>)
        ensures
            scores_view(r@) == self@.scores,
    {
        &self.scores
    }

    /// Checks machine-range well-formedness, so that an unverified caller
    /// can test it before driving a frame.
    pub fn well_formed(&self) -> (r: bool)
        ensures
            r == self@.wf(),
    {
        let n = self.entity_enviroment.len();
        let mut i: usize = 0;
        while i < n
            invariant
                i <= n,
                n == self@.ents.len(),
                forall|j: int| 0 <= j < i ==> (#[trigger] self@.ents[j]).ok(),
            decreases n - i,
        {
            if !self.entity_enviroment.get_at(i).is_ok() {
                return false;
            }
            i += 1;
        }
        let m = self.scores.len();
        let mut i: usize = 0;
        while i < m
            invariant
                i <= m,
                m == self.scores@.len(),
                all_ok(self@.ents),
                forall|j: int| #![all_triggers]
                    0 <= j < i ==> coord_ok(self@.scores[j].0) && coord_ok(self@.scores[j].1),
            decreases m - i,
        {
            let (sx, sy) = self.scores[i];
            proof {
                assert(self@.scores[i as int] == (sx as int, sy as int));
            }
            if !(-COORD_LIMIT <= sx && sx <= COORD_LIMIT && -COORD_LIMIT <= sy && sy
                <= COORD_LIMIT) {
                return false;
            }
            i += 1;
        }
        proof {
            assert(self@.scores.len() == self.scores@.len());
        }
        true
    }

    /// Runs every entity's lifecycle hook, in registry order; invoked
    /// once, after registration and before the first frame.
    pub fn start(&mut self)
        ensures
            final(self)@ == (GameV { ents: started_all(old(self)@.ents), ..old(self)@ }),
            all_ok(old(self)@.ents) ==> all_ok(final(self)@.ents),
    {
        let n = self.entity_enviroment.len();
        let mut i: usize = 0;
        while i < n
            invariant
                i <= n,
                n == self.entity_enviroment@.len(),
                n == old(self)@.ents.len(),
                self.title == old(self).title,
                self.width == old(self).width,
                self.height == old(self).height,
                self.scores == old(self).scores,
                forall|j: int| #![all_triggers]
                    0 <= j < i ==> self.entity_enviroment@[j] == old(self)@.ents[j].started(),
                forall|j: int| #![all_triggers]
                    i <= j < n ==> self.entity_enviroment@[j] == old(self)@.ents[j],
            decreases n - i,
        {
            self.entity_enviroment.start_at(i);
            i += 1;
        }
        proof {
            assert(self.entity_enviroment@ =~= started_all(old(self)@.ents));
            if all_ok(old(self)@.ents) {
                assert forall|j: int| 0 <= j < n implies (#[trigger] self@.ents[j]).ok() by {
                    lemma_started_ok(old(self)@.ents[j]);
                }
            }
        }
    }

    /// Dispatches one key-down event to every entity, in registry order.
    fn on_key_down(&mut self, keycode: Keycode)
        ensures
            final(self)@ == (GameV { ents: keyed_all(old(self)@.ents, keycode), ..old(self)@ }),
            all_ok(old(self)@.ents) ==> all_ok(final(self)@.ents),
    {
        let n = self.entity_enviroment.len();
        let mut i: usize = 0;
        while i < n
            invariant
                i <= n,
                n == self.entity_enviroment@.len(),
                n == old(self)@.ents.len(),
                self.title == old(self).title,
                self.width == old(self).width,
                self.height == old(self).height,
                self.scores == old(self).scores,
                forall|j: int| #![all_triggers]
                    0 <= j < i ==> self.entity_enviroment@[j] == old(self)@.ents[j].keyed(keycode),
                forall|j: int| #![all_triggers]
                    i <= j < n ==> self.entity_enviroment@[j] == old(self)@.ents[j],
            decreases n - i,
        {
            self.entity_enviroment.key_at(i, keycode);
            i += 1;
        }
        proof {
            assert(self.entity_enviroment@ =~= keyed_all(old(self)@.ents, keycode));
            if all_ok(old(self)@.ents) {
                assert forall|j: int| 0 <= j < n implies (#[trigger] self@.ents[j]).ok() by {
                    lemma_keyed_ok(old(self)@.ents[j], keycode);
                }
            }
        }
    }

    /// Runs every entity's per-frame update, in registry order.
    fn update(&mut self)
        requires
            all_ok(old(self)@.ents),
        ensures
            final(self)@ == (GameV { ents: stepped_all(old(self)@.ents), ..old(self)@ }),
            all_pos_ok(final(self)@.ents),
    {
        let n = self.entity_enviroment.len();
        let mut i: usize = 0;
        while i < n
            invariant
                i <= n,
                n == self.entity_enviroment@.len(),
                n == old(self)@.ents.len(),
                all_ok(old(self)@.ents),
                self.title == old(self).title,
                self.width == old(self).width,
                self.height == old(self).height,
                self.scores == old(self).scores,
                forall|j: int| #![all_triggers]
                    0 <= j < i ==> self.entity_enviroment@[j] == old(self)@.ents[j].stepped()
                        && self.entity_enviroment@[j].pos_ok(),
                forall|j: int| #![all_triggers]
                    i <= j < n ==> self.entity_enviroment@[j] == old(self)@.ents[j],
            decreases n - i,
        {
            proof {
                assert(self.entity_enviroment@[i as int] == old(self)@.ents[i as int]);
                assert(old(self)@.ents[i as int].ok());
            }
            self.entity_enviroment.update_at(i);
            i += 1;
        }
        proof {
            assert(self.entity_enviroment@ =~= stepped_all(old(self)@.ents));
        }
    }

    /// The lose check: whether the actor's grid cell equals any
    /// patroller's, on the current (pre-update) positions.
    fn update_ghost(&self) -> (r: bool)
        requires
            all_pos_ok(self@.ents),
        ensures
            r == lose_now(self@.ents),
    {
        let pacman_name: String = "pacman".to_owned();
        let ghost pi = first_named(self@.ents, "pacman"@);
        match self.entity_enviroment.get_first(&pacman_name) {
            None => {
                false
            }
            Some(e) => {
                proof {
                    lemma_first_named(self@.ents, "pacman"@);
                }
                let (px, py) = e.get_pos();
                let cx = round_to_cell(px);
                let cy = round_to_cell(py);
                let ghost_name: String = "ghost".to_owned();
                let n = self.entity_enviroment.len();
                let mut i: usize = 0;
                while i < n
                    invariant
                        i <= n,
                        n == self@.ents.len(),
                        all_pos_ok(self@.ents),
                        pi == first_named(self@.ents, "pacman"@),
                        0 <= pi < n,
                        ghost_name@ == "ghost"@,
                        cx == round32(self@.ents[pi].pos_of().0),
                        cy == round32(self@.ents[pi].pos_of().1),
                        forall|j: int| #![all_triggers]
                            0 <= j < i ==> !(self@.ents[j].name_of() == "ghost"@ && round32(
                                self@.ents[j].pos_of().0,
                            ) == cx && round32(self@.ents[j].pos_of().1) == cy),
                    decreases n - i,
                {
                    let ent = self.entity_enviroment.get_at(i);
                    if *ent.get_name() == ghost_name {
                        let (gx, gy) = ent.get_pos();
                        if round_to_cell(gx) == cx && round_to_cell(gy) == cy {
                            return true;
                        }
                    }
                    i += 1;
                }
                false
            }
        }
    }

    /// Pickup resolution: remove the first pickup whose grid cell equals
    /// the actor's, at most one per frame.
    fn score_logic(&mut self)
        requires
            all_pos_ok(old(self)@.ents),
            scores_ok(old(self)@.scores),
        ensures
            final(self)@ == (GameV {
                scores: resolve_scores(old(self)@.ents, old(self)@.scores),
                ..old(self)@
            }),
    {
        let pacman_name: String = "pacman".to_owned();
        let ghost pi = first_named(self@.ents, "pacman"@);
        let found: Option<(i32, i32)> = match self.entity_enviroment.get_first(&pacman_name) {
            None => None,
            Some(e) => Some(e.get_pos()),
        };
        match found {
            None => {}
            Some((px, py)) => {
                proof {
                    lemma_first_named(old(self)@.ents, "pacman"@);
                }
                let cx = round_to_cell(px);
                let cy = round_to_cell(py);
                let ghost cs = old(self)@.scores;
                let mut i: usize = 0;
                while i < self.scores.len()
                    invariant
                        i <= self.scores@.len(),
                        self.entity_enviroment == old(self).entity_enviroment,
                        self.title == old(self).title,
                        self.width == old(self).width,
                        self.height == old(self).height,
                        self.scores == old(self).scores,
                        cs == scores_view(self.scores@),
                        scores_ok(cs),
                        0 <= pi < self@.ents.len(),
                        pi == first_named(self@.ents, "pacman"@),
                        cx == round32(self@.ents[pi].pos_of().0),
                        cy == round32(self@.ents[pi].pos_of().1),
                        forall|j: int| #![all_triggers]
                            0 <= j < i ==> !score_hit(cs[j], cx as int, cy as int),
                    decreases self.scores@.len() - i,
                {
                    let (sx, sy) = self.scores[i];
                    proof {
                        assert(cs[i as int] == (sx as int, sy as int));
                    }
                    if cx == trunc_cell(sx) && cy == trunc_cell(sy) {
                        self.scores.remove(i);
                        proof {
                            lemma_first_hit(cs, cx as int, cy as int);
                            assert(first_hit(cs, cx as int, cy as int) == i as int);
                            assert(scores_view(self.scores@) =~= cs.remove(i as int));
                        }
                        return ;
                    }
                    i += 1;
                }
                proof {
                    lemma_first_hit(cs, cx as int, cy as int);
                    assert(first_hit(cs, cx as int, cy as int) == -1);
                }
            }
        }
    }

    /// One frame of the session, in the strict per-frame order: a closing
    /// event returns Close at once (events before it are dispatched);
    /// then the lose check on pre-update positions; then every entity's
    /// update; then pickup resolution; then the win check.
    pub fn frame(&mut self, events: &Vec<InputEvent>) -> (r: Option<GameState>)
        requires
            old(self)@.wf(),
        ensures
            ({
                let evs = events@;
                let ci = close_index(evs);
                let g0 = old(self)@;
                let g1 = final(self)@;
                if ci >= 0 {
                    &&& r == Some(GameState::Close)
                    &&& g1 == (GameV { ents: dispatch_upto(g0.ents, evs, ci), ..g0 })
                } else {
                    let e1 = dispatch_upto(g0.ents, evs, evs.len() as int);
                    if lose_now(e1) {
                        &&& r == Some(GameState::Lose)
                        &&& g1 == (GameV { ents: e1, ..g0 })
                    } else {
                        let e2 = stepped_all(e1);
                        let sc = resolve_scores(e2, g0.scores);
                        &&& g1 == (GameV { ents: e2, scores: sc, ..g0 })
                        &&& r == (if sc.len() == 0 {
                            Some(GameState::Win)
                        } else {
                            None::<GameState>
                        })
                    }
                }
            }),
    {
        let ghost evs = events@;
        let n = events.len();
        let mut i: usize = 0;
        while i < n
            invariant
                i <= n,
                n == evs.len(),
                evs == events@,
                old(self)@.wf(),
                forall|j: int| 0 <= j < i ==> !is_close(#[trigger] evs[j]),
                self@ == (GameV { ents: dispatch_upto(old(self)@.ents, evs, i as int), ..old(
                    self,
                )@ }),
                all_ok(self@.ents),
            decreases n - i,
        {
            let ev = events[i];
            match ev {
                InputEvent::Quit => {
                    proof {
                        lemma_close_index(evs);
                        assert(close_index(evs) == i as int);
                    }
                    return Some(GameState::Close);
                }
                InputEvent::KeyDown(k) => {
                    if k == Keycode::Escape {
                        proof {
                            lemma_close_index(evs);
                            assert(close_index(evs) == i as int);
                        }
                        return Some(GameState::Close);
                    }
                    self.on_key_down(k);
                }
            }
            i += 1;
        }
        proof {
            lemma_close_index(evs);
            assert(close_index(evs) == -1);
            lemma_all_ok_pos(self@.ents);
        }
        if self.update_ghost() {
            return Some(GameState::Lose);
        }
        self.update();
        self.score_logic();
        if self.scores.len() == 0 {
            proof {
                assert(self@.scores.len() == self.scores@.len());
            }
            return Some(GameState::Win);
        }
        proof {
            assert(self@.scores.len() == self.scores@.len());
        }
        None
    }
}

} // verus!
