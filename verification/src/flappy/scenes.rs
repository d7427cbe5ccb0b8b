//! The flappy game's scenes: title, countdown, play and score, plus the
//! game's scene-stack driver. Each scene's enter hook reports the entities it
//! created; the stack requests their deletion when the scene is left, so they
//! are gone before the next tick observes the world.

use vstd::prelude::*;

use crate::components::{Dead, Image, Parallax, Position, Render, Score, Size, Text, Velocity};
use crate::components::Player;
use crate::flappy::input::Button;
use crate::flappy::systems::{
    parallax_rel, pipe_rel, player_rel, score_rel, ImageId, ParallaxSystem, PipeSystem,
    PlayerSystem, ScoreSystem, BACKGROUND_LOOPING_POINT, BACKGROUND_SCROLL_SPEED, BIRD_HEIGHT,
    BIRD_WIDTH, GROUND_SCROLL_SPEED, VIRTUAL_HEIGHT, VIRTUAL_WIDTH,
};
use crate::input::InputState;
use crate::scene::{SceneStack, SceneSwitch};
use crate::scheduler::Dispatcher;
use crate::types::{Alignment, DeltaTime, FontType};
use crate::util::{spec_decimal, u8_to_string};
use crate::world::{Entity, EntityBuilder, Slot, World};

verus! {

/// Milliseconds per countdown step.
pub const COUNTDOWN_TIME: i64 = 750;

/// Some live entity carries a set terminal flag.
pub open spec fn any_dead(w: World) -> bool {
    exists|i: int|
        0 <= i < w.num_slots() && (#[trigger] w.slot_of(i)).alive && w.slot_of(i).dead == Some(
            Dead(true),
        )
}

/// The score of the last live score-carrying row among the first `i`, zero if
/// none.
pub open spec fn last_score_upto(w: World, i: int) -> u8
    decreases i,
{
    if i <= 0 {
        0
    } else {
        let s = w.slot_of(i - 1);
        if s.alive && s.score is Some {
            s.score->Some_0.0
        } else {
            last_score_upto(w, i - 1)
        }
    }
}

/// The score the world shows: that of the last live score-carrying row.
pub open spec fn final_score(w: World) -> u8 {
    last_score_upto(w, w.num_slots())
}

/// Whether some live entity carries a set terminal flag.
pub fn read_any_dead(world: &World) -> (r: bool)
    ensures
        r == any_dead(*world),
{
    let n = world.len();
    let mut i: usize = 0;
    while i < n
        invariant
            n == world.num_slots(),
            i <= n,
            forall|j: int|
                0 <= j < i ==> !((#[trigger] world.slot_of(j)).alive && world.slot_of(j).dead
                    == Some(Dead(true))),
        decreases n - i,
    {
        if world.alive(i) {
            let d = world.get_dead(i);
            if d.is_some() && d.unwrap().0 {
                return true;
            }
        }
        i = i + 1;
    }
    false
}

/// The score the world shows.
pub fn read_final_score(world: &World) -> (r: u8)
    ensures
        r == final_score(*world),
{
    let n = world.len();
    let mut i: usize = 0;
    let mut acc: u8 = 0;
    while i < n
        invariant
            n == world.num_slots(),
            i <= n,
            acc == last_score_upto(*world, i as int),
        decreases n - i,
    {
        if world.alive(i) {
            let sc = world.get_score(i);
            if sc.is_some() {
                acc = sc.unwrap().0;
            }
        }
        i = i + 1;
    }
    acc
}

/// The opening scene: waits for the confirm button.
pub struct TitleScene;

/// The three-step countdown before play; owns its counter text entity.
pub struct CountdownScene {
    pub count: u8,
    pub timer: i64,
    pub text: Entity,
}

/// The game-over scene, showing the reached score.
pub struct ScoreScene {
    pub final_score: u8,
}

impl ScoreScene {
    pub fn new(final_score: u8) -> (r: ScoreScene)
        ensures
            r.final_score == final_score,
    {
        ScoreScene { final_score }
    }
}

impl TitleScene {
    pub fn new() -> (r: TitleScene)
        ensures
            r == TitleScene,
    {
        TitleScene
    }
}

impl CountdownScene {
    /// Creates the countdown's text entity, starting at three.
    pub fn new(world: &mut World) -> (r: CountdownScene)
        requires
            old(world).wf(),
        ensures
            final(world).wf(),
            r.count == 3,
            r.timer == 0,
            final(world).spec_valid(r.text),
            final(world).pending_seq() == old(world).pending_seq(),
            forall|j: int|
                0 <= j < old(world).num_slots() && j != r.text.id as int ==> final(world).slot_of(j)
                    == old(world).slot_of(j),
            forall|x: Entity| old(world).spec_valid(x) ==> final(world).spec_valid(x),
            ({
                let s = final(world).slot_of(r.text.id as int);
                &&& s.render == Some(Render { visible: true })
                &&& s.text is Some
                &&& s.text->Some_0.text@ == spec_decimal(3)
                &&& s.position == Some(Position { x: 0, y: 120_000, z: 1 })
            }),
    {
        let text = world.create_entity(
            EntityBuilder::new().with_render(Render { visible: true }).with_text(
                Text {
                    text: u8_to_string(3),
                    font_size: 56,
                    font: FontType::Flappy,
                    align: Alignment::Centered,
                },
            ).with_size(Size { w: VIRTUAL_WIDTH, h: VIRTUAL_HEIGHT }).with_position(
                Position { x: 0, y: 120_000, z: 1 },
            ),
        );
        CountdownScene { count: 3, timer: 0, text }
    }

    /// The countdown is between steps and owns a live counter text.
    pub open spec fn wf(self) -> bool {
        1 <= self.count <= 3 && 0 <= self.timer <= COUNTDOWN_TIME
    }
}

impl TitleScene {
    /// Waits for the confirm button's release edge, then replaces itself with
    /// the countdown; otherwise nothing changes.
    pub fn update(&mut self, world: &mut World, input: &InputState) -> (r: SceneSwitch<Scene>)
        requires
            old(world).wf(),
        ensures
            *final(self) == *old(self),
            confirm_update_rel(*old(world), *final(world), *input, r),
    {
        if input.get_button_released(Button::Enter.index()) {
            let c = CountdownScene::new(world);
            SceneSwitch::replace(Scene::Countdown(c))
        } else {
            SceneSwitch::Stay
        }
    }

    /// Creates the two title texts and hands them over as owned.
    pub fn on_enter(&mut self, world: &mut World) -> (owned: Vec<Entity>)
        requires
            old(world).wf(),
        ensures
            *final(self) == *old(self),
            final(world).wf(),
            final(world).pending_seq() == old(world).pending_seq(),
            owned@.len() == 2,
            forall|k: int| 0 <= k < owned@.len() ==> final(world).spec_valid(#[trigger] owned@[k]),
            owned@[0].id != owned@[1].id,
            forall|x: Entity| old(world).spec_valid(x) ==> final(world).spec_valid(x),
            forall|j: int|
                0 <= j < old(world).num_slots() && j != owned@[0].id as int && j
                    != owned@[1].id as int ==> final(world).slot_of(j) == old(world).slot_of(j),
            final(world).slot_of(owned@[0].id as int).text is Some,
            final(world).slot_of(owned@[0].id as int).text->Some_0.text@ == "Fifty Bird"@,
            final(world).slot_of(owned@[1].id as int).text is Some,
            final(world).slot_of(owned@[1].id as int).text->Some_0.text@ == "Press Enter"@,
    {
        let t1 = world.create_entity(
            EntityBuilder::new().with_render(Render { visible: true }).with_text(
                Text {
                    text: String::from_str("Fifty Bird"),
                    font_size: 28,
                    font: FontType::Flappy,
                    align: Alignment::Centered,
                },
            ).with_size(Size { w: VIRTUAL_WIDTH, h: VIRTUAL_HEIGHT }).with_position(
                Position { x: 0, y: 64_000, z: 1 },
            ),
        );
        let t2 = world.create_entity(
            EntityBuilder::new().with_render(Render { visible: true }).with_text(
                Text {
                    text: String::from_str("Press Enter"),
                    font_size: 14,
                    font: FontType::Flappy,
                    align: Alignment::Centered,
                },
            ).with_size(Size { w: VIRTUAL_WIDTH, h: VIRTUAL_HEIGHT }).with_position(
                Position { x: 0, y: 100_000, z: 1 },
            ),
        );
        let mut owned: Vec<Entity> = Vec::new();
        owned.push(t1);
        owned.push(t2);
        owned
    }

    /// The title owns nothing beyond its texts; leaving needs no extra work.
    pub fn on_leave(&mut self, world: &mut World)
        requires
            old(world).wf(),
        ensures
            *final(self) == *old(self),
            *final(world) == *old(world),
    {
    }
}

impl ScoreScene {
    /// Waits for the confirm button's release edge, then replaces itself with
    /// a fresh countdown; otherwise nothing changes.
    pub fn update(&mut self, world: &mut World, input: &InputState) -> (r: SceneSwitch<Scene>)
        requires
            old(world).wf(),
        ensures
            *final(self) == *old(self),
            confirm_update_rel(*old(world), *final(world), *input, r),
    {
        if input.get_button_released(Button::Enter.index()) {
            let c = CountdownScene::new(world);
            SceneSwitch::replace(Scene::Countdown(c))
        } else {
            SceneSwitch::Stay
        }
    }

    /// Creates the three game-over texts, the middle one showing the reached
    /// score, and hands them over as owned.
    pub fn on_enter(&mut self, world: &mut World) -> (owned: Vec<Entity>)
        requires
            old(world).wf(),
        ensures
            *final(self) == *old(self),
            final(world).wf(),
            final(world).pending_seq() == old(world).pending_seq(),
            owned@.len() == 3,
            forall|k: int| 0 <= k < owned@.len() ==> final(world).spec_valid(#[trigger] owned@[k]),
            owned@[0].id != owned@[1].id && owned@[0].id != owned@[2].id && owned@[1].id
                != owned@[2].id,
            forall|x: Entity| old(world).spec_valid(x) ==> final(world).spec_valid(x),
            forall|j: int|
                0 <= j < old(world).num_slots() && j != owned@[0].id as int && j
                    != owned@[1].id as int && j != owned@[2].id as int ==> final(world).slot_of(j)
                    == old(world).slot_of(j),
            final(world).slot_of(owned@[1].id as int).text is Some,
            final(world).slot_of(owned@[1].id as int).text->Some_0.text@ == "Score: "@
                + spec_decimal(old(self).final_score as nat),
    {
        let t1 = world.create_entity(
            EntityBuilder::new().with_render(Render { visible: true }).with_text(
                Text {
                    text: String::from_str("Oof! You lost!"),
                    font_size: 28,
                    font: FontType::Flappy,
                    align: Alignment::Centered,
                },
            ).with_size(Size { w: VIRTUAL_WIDTH, h: VIRTUAL_HEIGHT }).with_position(
                Position { x: 0, y: 64_000, z: 1 },
            ),
        );
        let t2 = world.create_entity(
            EntityBuilder::new().with_render(Render { visible: true }).with_text(
                Text {
                    text: String::from_str("Score: ").concat(
                        u8_to_string(self.final_score).as_str(),
                    ),
                    font_size: 14,
                    font: FontType::Flappy,
                    align: Alignment::Centered,
                },
            ).with_size(Size { w: VIRTUAL_WIDTH, h: VIRTUAL_HEIGHT }).with_position(
                Position { x: 0, y: 100_000, z: 1 },
            ),
        );
        let t3 = world.create_entity(
            EntityBuilder::new().with_render(Render { visible: true }).with_text(
                Text {
                    text: String::from_str("Press Enter to Play Again!"),
                    font_size: 14,
                    font: FontType::Flappy,
                    align: Alignment::Centered,
                },
            ).with_size(Size { w: VIRTUAL_WIDTH, h: VIRTUAL_HEIGHT }).with_position(
                Position { x: 0, y: 160_000, z: 1 },
            ),
        );
        let mut owned: Vec<Entity> = Vec::new();
        owned.push(t1);
        owned.push(t2);
        owned.push(t3);
        owned
    }

    /// The score scene owns nothing beyond its texts.
    pub fn on_leave(&mut self, world: &mut World)
        requires
            old(world).wf(),
        ensures
            *final(self) == *old(self),
            *final(world) == *old(world),
    {
    }
}

impl CountdownScene {
    /// Accumulates the frame's delta; each time it passes the step length the
    /// counter drops by one (updating the text), and at zero the countdown
    /// replaces itself with a fresh play scene.
    pub fn update(&mut self, world: &mut World, dt: DeltaTime) -> (r: SceneSwitch<Scene>)
        requires
            old(self).wf(),
            old(world).wf(),
            dt.ok(),
        ensures
            countdown_update_rel(*old(self), *final(self), *old(world), *final(world), dt, r),
    {
        let t = self.timer + dt.delta;
        if t > COUNTDOWN_TIME {
            self.timer = t % COUNTDOWN_TIME;
            if self.count == 1 {
                return SceneSwitch::replace(Scene::Play(PlayScene::new()));
            }
            self.count = self.count - 1;
            if world.valid(self.text) {
                world.set_text(
                    self.text.id,
                    Text {
                        text: u8_to_string(self.count),
                        font_size: 56,
                        font: FontType::Flappy,
                        align: Alignment::Centered,
                    },
                );
            }
        } else {
            self.timer = t;
        }
        SceneSwitch::Stay
    }

    /// The countdown's only owned entity is the text it created when built.
    pub fn on_enter(&mut self, world: &mut World) -> (owned: Vec<Entity>)
        requires
            old(world).wf(),
        ensures
            *final(self) == *old(self),
            *final(world) == *old(world),
            forall|k: int| 0 <= k < owned@.len() ==> final(world).spec_valid(#[trigger] owned@[k]),
            owned@.len() <= 1,
    {
        let mut owned: Vec<Entity> = Vec::new();
        if world.valid(self.text) {
            owned.push(self.text);
        }
        owned
    }

    /// The countdown owns nothing beyond its text.
    pub fn on_leave(&mut self, world: &mut World)
        requires
            old(world).wf(),
        ensures
            *final(self) == *old(self),
            *final(world) == *old(world),
    {
    }
}

/// Dispatch tag of the parallax system.
pub const TAG_PARALLAX: u32 = 0;

/// Dispatch tag of the player system.
pub const TAG_PLAYER: u32 = 1;

/// Dispatch tag of the pipe system.
pub const TAG_PIPE: u32 = 2;

/// Dispatch tag of the scoring system.
pub const TAG_SCORE: u32 = 3;

/// The play scene's scheduler holds its four systems in registration order:
/// parallax, player, pipes, then scoring (which depends on the latter two).
pub open spec fn play_order(d: Dispatcher) -> bool {
    &&& d.wf()
    &&& d.entries_seq().len() == 4
    &&& d.entries_seq()[0].tag == TAG_PARALLAX
    &&& d.entries_seq()[1].tag == TAG_PLAYER
    &&& d.entries_seq()[2].tag == TAG_PIPE
    &&& d.entries_seq()[3].tag == TAG_SCORE
}

/// The four systems of a play tick have run, in scheduler order: the world
/// `b` is `a` after the parallax scroll, then gravity and the flap, then the
/// pipe scroll and spawn (carrying the spawner's timer from `t0`, `y0` to
/// `t1`, `y1`), then the obstacle scoring pass.
pub open spec fn play_systems_rel(
    a: World,
    b: World,
    t0: i64,
    t1: i64,
    y0: i64,
    y1: i64,
    dt: int,
    jump: bool,
) -> bool {
    exists|w1: World, w2: World, w3: World|
        #![trigger parallax_rel(a, w1, dt), pipe_rel(w2, w3, t0, t1, y0, y1, dt)]
        {
            &&& parallax_rel(a, w1, dt)
            &&& player_rel(w1, w2, dt, jump)
            &&& pipe_rel(w2, w3, t0, t1, y0, y1, dt)
            &&& score_rel(w3, b)
        }
}

/// `b` is `a` with the text of the tracked score entity rewritten to show the
/// score `a` holds; without a live tracked entity, `b` is `a` untouched.
pub open spec fn score_text_rel(e: Option<Entity>, a: World, b: World) -> bool {
    if e is Some && a.spec_valid(e->Some_0) {
        let id = e->Some_0.id as int;
        &&& b.num_slots() == a.num_slots()
        &&& b.pending_seq() == a.pending_seq()
        &&& b.freelist() == a.freelist()
        &&& b.render_dirty() == a.render_dirty()
        &&& forall|j: int| 0 <= j < a.num_slots() && j != id ==> b.slot_of(j) == a.slot_of(j)
        &&& b.slot_of(id).text is Some
        &&& b.slot_of(id).text->Some_0.text@ == "Score: "@ + spec_decimal(final_score(a) as nat)
        &&& (Slot { text: a.slot_of(id).text, ..b.slot_of(id) }) == a.slot_of(id)
    } else {
        b == a
    }
}

/// How the title and the game-over scenes answer one tick: on the confirm
/// button's release edge they build a countdown (its text entity is the one
/// new row) and replace themselves with it; otherwise nothing changes.
pub open spec fn confirm_update_rel(
    a: World,
    b: World,
    input: InputState,
    cmd: SceneSwitch<Scene>,
) -> bool {
    let released = input.btn(Button::Enter.spec_index() as int).spec_just_released();
    &&& b.wf()
    &&& if released {
        &&& cmd matches SceneSwitch::Replace(Scene::Countdown(c)) && c.wf() && b.spec_valid(c.text)
            && (forall|j: int|
            0 <= j < a.num_slots() && j != c.text.id as int ==> b.slot_of(j) == a.slot_of(j))
        &&& b.pending_seq() == a.pending_seq()
    } else {
        cmd is Stay && b == a
    }
}

/// How the countdown answers one tick: the delta accumulates; when it passes
/// the step length the counter drops by one (updating the text), and at the
/// last step the countdown replaces itself with a fresh play scene.
pub open spec fn countdown_update_rel(
    c0: CountdownScene,
    c1: CountdownScene,
    a: World,
    b: World,
    dt: DeltaTime,
    cmd: SceneSwitch<Scene>,
) -> bool {
    let fired = c0.timer + dt.delta > COUNTDOWN_TIME;
    &&& b.wf()
    &&& if !fired {
        &&& cmd is Stay
        &&& b == a
        &&& c1.count == c0.count
        &&& c1.timer == c0.timer + dt.delta
        &&& c1.text == c0.text
        &&& c1.wf()
    } else if c0.count > 1 {
        &&& cmd is Stay
        &&& c1.count == c0.count - 1
        &&& c1.timer == (c0.timer + dt.delta) % (COUNTDOWN_TIME as int)
        &&& c1.text == c0.text
        &&& c1.wf()
        &&& b.pending_seq() == a.pending_seq()
        &&& b.num_slots() == a.num_slots()
        &&& (forall|j: int|
            0 <= j < a.num_slots() && j != c0.text.id as int ==> b.slot_of(j) == a.slot_of(j))
        &&& (a.spec_valid(c0.text) ==> b.slot_of(c0.text.id as int).text is Some && b.slot_of(
            c0.text.id as int,
        ).text->Some_0.text@ == spec_decimal((c0.count - 1) as nat))
    } else {
        &&& (cmd matches SceneSwitch::Replace(Scene::Play(p)) && p.wf()
            && p.score_entity is None)
        &&& b == a
        &&& c1.wf()
    }
}

/// How the play scene answers one tick: the four systems run in scheduler
/// order, then the quit edge goes back to the title, a death to the score
/// scene, and otherwise play goes on with the score text brought current.
pub open spec fn play_update_rel(
    p0: PlayScene,
    p1: PlayScene,
    a: World,
    b: World,
    input: InputState,
    dt: DeltaTime,
    cmd: SceneSwitch<Scene>,
) -> bool {
    &&& p1.wf()
    &&& b.wf()
    &&& p1.score_entity == p0.score_entity
    &&& p1.dispatcher == p0.dispatcher
    &&& exists|wsys: World|
        {
            let released = input.btn(Button::Enter.spec_index() as int).spec_just_released();
            &&& #[trigger] play_systems_rel(
                a,
                wsys,
                p0.pipe.timer(),
                p1.pipe.timer(),
                p0.pipe.last_y(),
                p1.pipe.last_y(),
                dt.delta as int,
                input.btn(Button::Space.spec_index() as int).spec_just_pressed(),
            )
            &&& (if released {
                (cmd matches SceneSwitch::Replace(Scene::Title(t))) && b == wsys
            } else if any_dead(wsys) {
                (cmd matches SceneSwitch::Replace(Scene::Score(sc)) && sc.final_score
                    == final_score(wsys)) && b == wsys
            } else {
                cmd is Stay && score_text_rel(p0.score_entity, wsys, b)
            })
        }
}

/// The playing scene: runs the four systems through the scheduler, watches
/// for death and the quit-to-title edge, and keeps the score text current.
pub struct PlayScene {
    pub dispatcher: Dispatcher,
    pub parallax: ParallaxSystem,
    pub player: PlayerSystem,
    pub pipe: PipeSystem,
    pub score: ScoreSystem,
    pub score_entity: Option<Entity>,
}

impl PlayScene {
    pub open spec fn wf(self) -> bool {
        play_order(self.dispatcher) && self.pipe.wf()
    }

    /// Builds the scene's scheduler. The registration is statically valid —
    /// distinct names, dependencies on already-registered systems — so the
    /// configuration errors of `register` are proved unreachable.
    pub fn new() -> (r: PlayScene)
        ensures
            r.wf(),
            r.score_entity is None,
    {
        proof {
            reveal_strlit("parallax");
            reveal_strlit("player");
            reveal_strlit("pipe");
            reveal_strlit("score_system");
        }
        proof {
            assert("parallax"@.len() == 8);
            assert("player"@.len() == 6);
            assert("pipe"@.len() == 4);
            assert("score_system"@.len() == 12);
        }
        let mut d = Dispatcher::new();
        let r1 = d.register(TAG_PARALLAX, String::from_str("parallax"), Vec::new());
        match r1 {
            Ok(u) => u,
            Err(_) => {
                proof {
                    assert(false);
                }
            },
        }
        proof {
            assert(!d.contains_name("player"@)) by {
                assert(d.entries_seq()[0].name@ == "parallax"@);
            }
        }
        let r2 = d.register(TAG_PLAYER, String::from_str("player"), Vec::new());
        match r2 {
            Ok(u) => u,
            Err(_) => {
                proof {
                    assert(false);
                }
            },
        }
        proof {
            assert(!d.contains_name("pipe"@)) by {
                assert(d.entries_seq()[0].name@ == "parallax"@);
                assert(d.entries_seq()[1].name@ == "player"@);
            }
        }
        let r3 = d.register(TAG_PIPE, String::from_str("pipe"), Vec::new());
        match r3 {
            Ok(u) => u,
            Err(_) => {
                proof {
                    assert(false);
                }
            },
        }
        let mut deps: Vec<String> = Vec::new();
        deps.push(String::from_str("pipe"));
        deps.push(String::from_str("player"));
        proof {
            assert(!d.contains_name("score_system"@)) by {
                assert(d.entries_seq()[0].name@ == "parallax"@);
                assert(d.entries_seq()[1].name@ == "player"@);
                assert(d.entries_seq()[2].name@ == "pipe"@);
            }
            assert(d.contains_name("pipe"@)) by {
                assert(d.entries_seq()[2].name@ == "pipe"@);
            }
            assert(d.contains_name("player"@)) by {
                assert(d.entries_seq()[1].name@ == "player"@);
            }
            assert(forall|i: int|
                0 <= i < deps@.len() ==> d.contains_name((#[trigger] deps@[i])@));
        }
        let r4 = d.register(TAG_SCORE, String::from_str("score_system"), deps);
        match r4 {
            Ok(u) => u,
            Err(_) => {
                proof {
                    assert(false);
                }
            },
        }
        PlayScene {
            dispatcher: d,
            parallax: ParallaxSystem,
            player: PlayerSystem,
            pipe: PipeSystem::new(),
            score: ScoreSystem::new(),
            score_entity: None,
        }
    }

    /// One play tick: the scheduler's systems run in topological order, then
    /// the scene decides — quit edge back to the title, death to the score
    /// scene, otherwise keep playing with the score text brought current.
    pub fn update(&mut self, world: &mut World, input: &InputState, dt: DeltaTime) -> (r:
        SceneSwitch<Scene>)
        requires
            old(self).wf(),
            old(world).wf(),
            dt.ok(),
        ensures
            play_update_rel(*old(self), *final(self), *old(world), *final(world), *input, dt, r),
    {
        let jump = input.get_button_pressed(Button::Space.index());
        let ghost mut g1: World = *world;
        let ghost mut g2: World = *world;
        let ghost mut g3: World = *world;
        let m = self.dispatcher.len();
        let mut k: usize = 0;
        while k < m
            invariant
                m == 4,
                k <= 4,
                old(self).wf(),
                self.dispatcher == old(self).dispatcher,
                self.score_entity == old(self).score_entity,
                self.pipe.wf(),
                world.wf(),
                dt.ok(),
                k <= 2 ==> self.pipe == old(self).pipe,
                k == 0 ==> *world == *old(world),
                k >= 1 ==> parallax_rel(*old(world), g1, dt.delta as int),
                k == 1 ==> *world == g1,
                k >= 2 ==> player_rel(g1, g2, dt.delta as int, jump),
                k == 2 ==> *world == g2,
                k >= 3 ==> pipe_rel(
                    g2,
                    g3,
                    old(self).pipe.timer(),
                    self.pipe.timer(),
                    old(self).pipe.last_y(),
                    self.pipe.last_y(),
                    dt.delta as int,
                ),
                k == 3 ==> *world == g3,
                k == 4 ==> score_rel(g3, *world),
            decreases m - k,
        {
            let tag = self.dispatcher.tag_at(k);
            proof {
                assert(self.dispatcher.order()[k as int]
                    == self.dispatcher.entries_seq()[k as int].tag);
            }
            if tag == TAG_PARALLAX {
                self.parallax.run(world, dt);
                proof {
                    g1 = *world;
                }
            } else if tag == TAG_PLAYER {
                self.player.run(world, dt, jump);
                proof {
                    g2 = *world;
                }
            } else if tag == TAG_PIPE {
                self.pipe.run(world, dt);
                proof {
                    g3 = *world;
                }
            } else {
                self.score.run(world);
            }
            k = k + 1;
        }
        let ghost wsys = *world;
        proof {
            assert(play_systems_rel(
                *old(world),
                wsys,
                old(self).pipe.timer(),
                self.pipe.timer(),
                old(self).pipe.last_y(),
                self.pipe.last_y(),
                dt.delta as int,
                jump,
            )) by {
                assert(parallax_rel(*old(world), g1, dt.delta as int));
                assert(pipe_rel(
                    g2,
                    g3,
                    old(self).pipe.timer(),
                    self.pipe.timer(),
                    old(self).pipe.last_y(),
                    self.pipe.last_y(),
                    dt.delta as int,
                ));
            }
        }
        if input.get_button_released(Button::Enter.index()) {
            return SceneSwitch::replace(Scene::Title(TitleScene::new()));
        }
        let dead = read_any_dead(world);
        let score = read_final_score(world);
        if dead {
            return SceneSwitch::replace(Scene::Score(ScoreScene::new(score)));
        }
        match self.score_entity {
            Some(e) => {
                if world.valid(e) {
                    world.set_text(
                        e.id,
                        Text {
                            text: String::from_str("Score: ").concat(u8_to_string(score).as_str()),
                            font_size: 28,
                            font: FontType::Flappy,
                            align: Alignment::Centered,
                        },
                    );
                    proof {
                        assert(score_text_rel(old(self).score_entity, wsys, *world));
                    }
                }
            },
            None => {},
        }
        SceneSwitch::Stay
    }

    /// Creates the score text and the bird, remembers the text for per-tick
    /// updates, and hands both over as owned.
    pub fn on_enter(&mut self, world: &mut World) -> (owned: Vec<Entity>)
        requires
            old(self).wf(),
            old(world).wf(),
        ensures
            final(self).wf(),
            final(world).wf(),
            final(self).dispatcher == old(self).dispatcher,
            final(self).pipe == old(self).pipe,
            final(world).pending_seq() == old(world).pending_seq(),
            owned@.len() == 2,
            forall|k: int| 0 <= k < owned@.len() ==> final(world).spec_valid(#[trigger] owned@[k]),
            owned@[0].id != owned@[1].id,
            final(self).score_entity == Some(owned@[0]),
            forall|x: Entity| old(world).spec_valid(x) ==> final(world).spec_valid(x),
            forall|j: int|
                0 <= j < old(world).num_slots() && j != owned@[0].id as int && j
                    != owned@[1].id as int ==> final(world).slot_of(j) == old(world).slot_of(j),
            ({
                let t = final(world).slot_of(owned@[0].id as int);
                &&& t.text is Some
                &&& t.text->Some_0.text@ == "Score: "@ + spec_decimal(0)
                &&& t.render == Some(Render { visible: true })
            }),
            ({
                let b = final(world).slot_of(owned@[1].id as int);
                &&& b.player == Some(Player)
                &&& b.score == Some(Score(0))
                &&& b.dead == Some(Dead(false))
                &&& b.render == Some(Render { visible: true })
                &&& b.velocity == Some(Velocity { x: 0, y: 0 })
                &&& b.size == Some(Size { w: BIRD_WIDTH, h: BIRD_HEIGHT })
                &&& b.position == Some(
                    Position {
                        x: (VIRTUAL_WIDTH / 2 - 8_000) as i64,
                        y: (VIRTUAL_HEIGHT / 2 - 8_000) as i64,
                        z: 1,
                    },
                )
            }),
    {
        let text = world.create_entity(
            EntityBuilder::new().with_render(Render { visible: true }).with_text(
                Text {
                    text: String::from_str("Score: ").concat(u8_to_string(0).as_str()),
                    font_size: 28,
                    font: FontType::Flappy,
                    align: Alignment::Centered,
                },
            ).with_position(Position { x: 8_000, y: 8_000, z: 1 }),
        );
        let bird = world.create_entity(
            EntityBuilder::new().with_player(Player).with_score(Score(0)).with_dead(
                Dead(false),
            ).with_render(Render { visible: true }).with_image(
                Image { image: ImageId::Bird.index() },
            ).with_size(Size { w: BIRD_WIDTH, h: BIRD_HEIGHT }).with_velocity(
                Velocity { x: 0, y: 0 },
            ).with_position(
                Position { x: VIRTUAL_WIDTH / 2 - 8_000, y: VIRTUAL_HEIGHT / 2 - 8_000, z: 1 },
            ),
        );
        self.score_entity = Some(text);
        let mut owned: Vec<Entity> = Vec::new();
        owned.push(text);
        owned.push(bird);
        owned
    }

    /// Requests deletion of every obstacle; the stack deletes the owned
    /// entities afterwards.
    pub fn on_leave(&mut self, world: &mut World)
        requires
            old(world).wf(),
        ensures
            *final(self) == *old(self),
            final(world).wf(),
            final(world).slots() == old(world).slots(),
            final(world).freelist() == old(world).freelist(),
            final(world).render_dirty() == old(world).render_dirty(),
            forall|j: int|
                final(world).is_pending(j) == (old(world).is_pending(j) || (0 <= j < old(
                    world,
                ).num_slots() && old(world).slot_of(j).alive && old(world).slot_of(j).pipe is Some)),
    {
        let n = world.len();
        let mut i: usize = 0;
        while i < n
            invariant
                world.wf(),
                n == world.num_slots(),
                i <= n,
                world.slots() == old(world).slots(),
                world.freelist() == old(world).freelist(),
                world.render_dirty() == old(world).render_dirty(),
                forall|j: int|
                    world.is_pending(j) == (old(world).is_pending(j) || (0 <= j < i && old(
                        world,
                    ).slot_of(j).alive && old(world).slot_of(j).pipe is Some)),
            decreases n - i,
        {
            if world.alive(i) && world.get_pipe(i).is_some() {
                let e = world.entity_at(i).unwrap();
                world.delete(e);
            }
            i = i + 1;
        }
    }
}

/// One of the game's modes, as the scene stack carries them.
pub enum Scene {
    Title(TitleScene),
    Countdown(CountdownScene),
    Play(PlayScene),
    Score(ScoreScene),
}

/// The per-variant well-formedness the stack maintains for every scene.
pub open spec fn scene_wf(s: Scene) -> bool {
    match s {
        Scene::Title(_) => true,
        Scene::Countdown(c) => c.wf(),
        Scene::Play(p) => p.wf(),
        Scene::Score(_) => true,
    }
}

/// Every scene the stack carries is well-formed.
pub open spec fn stack_ok(st: SceneStack<Scene>) -> bool {
    forall|k: int| 0 <= k < st.depth() ==> scene_wf(#[trigger] st.scenes_seq()[k])
}

/// `post` is `pre` right after its enter hook ran: the same scene with the
/// same private state, except that the play scene now tracks its score text.
pub open spec fn entered_from(post: Scene, pre: Scene) -> bool {
    match (post, pre) {
        (Scene::Title(a), Scene::Title(b)) => a == b,
        (Scene::Countdown(a), Scene::Countdown(b)) => a == b,
        (Scene::Score(a), Scene::Score(b)) => a == b,
        (Scene::Play(a), Scene::Play(b)) => {
            &&& a.dispatcher == b.dispatcher
            &&& a.pipe == b.pipe
            &&& a.parallax == b.parallax
            &&& a.player == b.player
            &&& a.score == b.score
        },
        _ => false,
    }
}

/// The scene `pre`, updated over one tick to `post`, turned world `a` into
/// `b` and answered the command `cmd` — whichever mode it is, by that mode's
/// own update relation. A scene never changes its variant.
pub open spec fn scene_update_rel(
    pre: Scene,
    post: Scene,
    a: World,
    b: World,
    input: InputState,
    dt: DeltaTime,
    cmd: SceneSwitch<Scene>,
) -> bool {
    match (pre, post) {
        (Scene::Title(t0), Scene::Title(t1)) => t1 == t0 && confirm_update_rel(a, b, input, cmd),
        (Scene::Score(s0), Scene::Score(s1)) => s1 == s0 && confirm_update_rel(a, b, input, cmd),
        (Scene::Countdown(c0), Scene::Countdown(c1)) => countdown_update_rel(
            c0,
            c1,
            a,
            b,
            dt,
            cmd,
        ),
        (Scene::Play(p0), Scene::Play(p1)) => play_update_rel(p0, p1, a, b, input, dt, cmd),
        _ => false,
    }
}

/// What executing the command `cmd` did to a stack holding `scenes0` beside
/// `owned0` and to the world: nothing for `Stay`; `Push` stacks the entered
/// form of the pushed scene; `Pop` drops the top and requests deletion of its
/// owned entities; `Replace` does both.
pub open spec fn switch_outcome(
    scenes0: Seq<Scene>,
    owned0: Seq<Seq<Entity>>,
    post: SceneStack<Scene>,
    a: World,
    b: World,
    cmd: SceneSwitch<Scene>,
) -> bool {
    &&& post.wf()
    &&& b.wf()
    &&& match cmd {
        SceneSwitch::Stay => post.scenes_seq() == scenes0 && post.owned_seq() == owned0 && b == a,
        SceneSwitch::Push(s) => {
            &&& post.depth() == scenes0.len() + 1
            &&& post.scenes_seq().drop_last() == scenes0
            &&& post.owned_seq().drop_last() == owned0
            &&& entered_from(post.scenes_seq().last(), s)
            &&& b.pending_seq() == a.pending_seq()
            &&& forall|x: Entity| a.spec_valid(x) ==> b.spec_valid(x)
        },
        SceneSwitch::Pop => {
            &&& post.scenes_seq() == scenes0.drop_last()
            &&& post.owned_seq() == owned0.drop_last()
            &&& b.slots() == a.slots()
            &&& b.freelist() == a.freelist()
            &&& b.render_dirty() == a.render_dirty()
            &&& forall|k: int|
                0 <= k < owned0.last().len() && a.spec_valid(#[trigger] owned0.last()[k])
                    ==> b.is_pending(owned0.last()[k].id as int)
        },
        SceneSwitch::Replace(s) => {
            &&& post.depth() == scenes0.len()
            &&& post.scenes_seq().drop_last() == scenes0.drop_last()
            &&& post.owned_seq().drop_last() == owned0.drop_last()
            &&& entered_from(post.scenes_seq().last(), s)
            &&& forall|k: int|
                0 <= k < owned0.last().len() && a.spec_valid(#[trigger] owned0.last()[k])
                    ==> b.is_pending(owned0.last()[k].id as int)
        },
    }
}

/// Runs the enter hook of whichever scene, collecting its owned entities.
fn enter_scene(s: &mut Scene, world: &mut World) -> (owned: Vec<Entity>)
    requires
        scene_wf(*old(s)),
        old(world).wf(),
    ensures
        scene_wf(*final(s)),
        entered_from(*final(s), *old(s)),
        final(world).wf(),
        final(world).pending_seq() == old(world).pending_seq(),
        forall|k: int| 0 <= k < owned@.len() ==> final(world).spec_valid(#[trigger] owned@[k]),
        forall|x: Entity| old(world).spec_valid(x) ==> final(world).spec_valid(x),
{
    match s {
        Scene::Title(t) => t.on_enter(world),
        Scene::Countdown(c) => c.on_enter(world),
        Scene::Play(p) => p.on_enter(world),
        Scene::Score(sc) => sc.on_enter(world),
    }
}

/// Runs the leave hook of whichever scene; it may request deletions (the play
/// scene drops its obstacles) but touches nothing else.
fn leave_scene(s: &mut Scene, world: &mut World)
    requires
        old(world).wf(),
    ensures
        *final(s) == *old(s),
        final(world).wf(),
        final(world).slots() == old(world).slots(),
        final(world).freelist() == old(world).freelist(),
        final(world).render_dirty() == old(world).render_dirty(),
        forall|j: int| old(world).is_pending(j) ==> final(world).is_pending(j),
{
    match s {
        Scene::Title(t) => t.on_leave(world),
        Scene::Countdown(c) => c.on_leave(world),
        Scene::Play(p) => p.on_leave(world),
        Scene::Score(sc) => sc.on_leave(world),
    }
}

impl SceneStack<Scene> {
    /// Executes a scene-switch command: `Push` suspends the current scene
    /// under the new one, `Pop` leaves and discards the top (requesting
    /// deletion of its owned entities, so they are gone before the next tick
    /// observes the world), `Replace` does both. Returns the scene that left
    /// the stack, if any.
    pub fn switch(&mut self, next: SceneSwitch<Scene>, world: &mut World) -> (r: Option<Scene>)
        requires
            old(self).wf(),
            stack_ok(*old(self)),
            old(world).wf(),
            match next {
                SceneSwitch::Stay => true,
                SceneSwitch::Push(s) => scene_wf(s),
                SceneSwitch::Replace(s) => scene_wf(s) && old(self).depth() > 0,
                SceneSwitch::Pop => old(self).depth() > 0,
            },
        ensures
            final(self).wf(),
            stack_ok(*final(self)),
            final(world).wf(),
            switch_outcome(
                old(self).scenes_seq(),
                old(self).owned_seq(),
                *final(self),
                *old(world),
                *final(world),
                next,
            ),
            r == (match next {
                SceneSwitch::Stay => None::<Scene>,
                SceneSwitch::Push(_) => None::<Scene>,
                SceneSwitch::Pop => Some(old(self).scenes_seq().last()),
                SceneSwitch::Replace(_) => Some(old(self).scenes_seq().last()),
            }),
    {
        match next {
            SceneSwitch::Stay => {
                proof {
                    assert(*self == *old(self));
                    assert(*world == *old(world));
                }
                None
            },
            SceneSwitch::Push(s) => {
                let mut s = s;
                let owned = enter_scene(&mut s, world);
                self.push(s, owned);
                proof {
                    assert(stack_ok(*self)) by {
                        assert(forall|k: int|
                            0 <= k < old(self).depth() ==> self.scenes_seq()[k] == old(
                                self,
                            ).scenes_seq()[k]);
                    }
                    assert(self.scenes_seq().drop_last() =~= old(self).scenes_seq());
                    assert(self.owned_seq().drop_last() =~= old(self).owned_seq());
                }
                None
            },
            SceneSwitch::Pop => {
                let mut top = Scene::Title(TitleScene);
                self.swap_top(&mut top);
                leave_scene(&mut top, world);
                self.swap_top(&mut top);
                let s = self.pop(world);
                proof {
                    assert(s == old(self).scenes_seq().last());
                    assert(self.scenes_seq() =~= old(self).scenes_seq().drop_last());
                    assert(self.owned_seq() =~= old(self).owned_seq().drop_last());
                    assert(stack_ok(*self)) by {
                        assert(forall|k: int|
                            0 <= k < self.depth() ==> self.scenes_seq()[k] == old(
                                self,
                            ).scenes_seq()[k]);
                    }
                }
                Some(s)
            },
            SceneSwitch::Replace(s) => {
                let mut top = Scene::Title(TitleScene);
                self.swap_top(&mut top);
                leave_scene(&mut top, world);
                self.swap_top(&mut top);
                let ghost w_mid = *world;
                let popped = self.pop(world);
                let ghost w_pop = *world;
                proof {
                    assert(self.scenes_seq() =~= old(self).scenes_seq().drop_last());
                }
                proof {
                    assert(popped == old(self).scenes_seq().last());
                }
                let ghost mid = *self;
                let mut s = s;
                let owned = enter_scene(&mut s, world);
                self.push(s, owned);
                proof {
                    assert(self.scenes_seq().drop_last() =~= old(self).scenes_seq().drop_last());
                    assert(self.owned_seq().drop_last() =~= old(self).owned_seq().drop_last());
                    assert(stack_ok(*self)) by {
                        assert(forall|k: int|
                            0 <= k < mid.depth() ==> self.scenes_seq()[k] == mid.scenes_seq()[k]);
                    }
                    assert forall|k: int|
                        0 <= k < old(self).owned_seq().last().len() && old(world).spec_valid(
                            #[trigger] old(self).owned_seq().last()[k],
                        ) implies world.is_pending(
                        old(self).owned_seq().last()[k].id as int,
                    ) by {
                        let e = old(self).owned_seq().last()[k];
                        assert(w_mid.spec_valid(e));
                        assert(w_pop.is_pending(e.id as int));
                        assert(world.pending_seq() == w_pop.pending_seq());
                    }
                }
                Some(popped)
            },
        }
    }

    /// One simulation step of the stack: only the top scene receives the
    /// update — scenes beneath it never tick — and the command it returns is
    /// executed at once. The contract binds the outcome to the top scene's
    /// own update relation followed by the command's effect.
    pub fn update(&mut self, world: &mut World, input: &InputState, dt: DeltaTime)
        requires
            old(self).wf(),
            stack_ok(*old(self)),
            old(self).depth() > 0,
            old(world).wf(),
            dt.ok(),
        ensures
            final(self).wf(),
            stack_ok(*final(self)),
            final(world).wf(),
            old(self).depth() - 1 <= final(self).depth() <= old(self).depth() + 1,
            exists|top1: Scene, wmid: World, cmd: SceneSwitch<Scene>|
                {
                    &&& #[trigger] scene_update_rel(
                        old(self).scenes_seq().last(),
                        top1,
                        *old(world),
                        wmid,
                        *input,
                        dt,
                        cmd,
                    )
                    &&& switch_outcome(
                        old(self).scenes_seq().update(old(self).depth() - 1, top1),
                        old(self).owned_seq(),
                        *final(self),
                        wmid,
                        *final(world),
                        cmd,
                    )
                },
    {
        let mut top = Scene::Title(TitleScene);
        self.swap_top(&mut top);
        let ghost pre_top = top;
        let (mut top, cmd) = match top {
            Scene::Title(mut t) => {
                let c = t.update(world, input);
                proof {
                    assert(scene_update_rel(
                        pre_top,
                        Scene::Title(t),
                        *old(world),
                        *world,
                        *input,
                        dt,
                        c,
                    ));
                }
                (Scene::Title(t), c)
            },
            Scene::Countdown(mut cd) => {
                let c = cd.update(world, dt);
                proof {
                    assert(scene_update_rel(
                        pre_top,
                        Scene::Countdown(cd),
                        *old(world),
                        *world,
                        *input,
                        dt,
                        c,
                    ));
                }
                (Scene::Countdown(cd), c)
            },
            Scene::Play(mut p) => {
                let c = p.update(world, input, dt);
                proof {
                    assert(scene_update_rel(
                        pre_top,
                        Scene::Play(p),
                        *old(world),
                        *world,
                        *input,
                        dt,
                        c,
                    ));
                }
                (Scene::Play(p), c)
            },
            Scene::Score(mut sc) => {
                let c = sc.update(world, input);
                proof {
                    assert(scene_update_rel(
                        pre_top,
                        Scene::Score(sc),
                        *old(world),
                        *world,
                        *input,
                        dt,
                        c,
                    ));
                }
                (Scene::Score(sc), c)
            },
        };
        let ghost updated = top;
        let ghost wmid = *world;
        let ghost gcmd = cmd;
        self.swap_top(&mut top);
        proof {
            assert(stack_ok(*self)) by {
                assert(forall|k: int|
                    0 <= k < self.depth() - 1 ==> self.scenes_seq()[k] == old(
                        self,
                    ).scenes_seq()[k]);
                assert(self.scenes_seq().last() == updated);
                assert(scene_wf(updated));
            }
            assert(scene_update_rel(
                old(self).scenes_seq().last(),
                updated,
                *old(world),
                wmid,
                *input,
                dt,
                gcmd,
            ));
            assert(self.scenes_seq() == old(self).scenes_seq().update(
                old(self).depth() - 1,
                updated,
            ));
            assert(self.owned_seq() == old(self).owned_seq());
        }
        let _ = self.switch(cmd, world);
        proof {
            assert(switch_outcome(
                old(self).scenes_seq().update(old(self).depth() - 1, updated),
                old(self).owned_seq(),
                *self,
                wmid,
                *world,
                gcmd,
            ));
        }
    }
}

/// One fixed simulation tick, as the driver runs it: the top scene updates
/// (its systems run and a scene switch may execute), then the input state
/// crosses the frame boundary exactly once, then all deletion requests commit
/// atomically — so every system within the tick saw one consistent snapshot.
pub fn tick(
    stack: &mut SceneStack<Scene>,
    world: &mut World,
    input: &mut crate::input::InputState,
    dt: DeltaTime,
)
    requires
        old(stack).wf(),
        stack_ok(*old(stack)),
        old(stack).depth() > 0,
        old(world).wf(),
        dt.ok(),
    ensures
        final(stack).wf(),
        stack_ok(*final(stack)),
        final(world).wf(),
        final(world).pending_seq().len() == 0,
        forall|b: int| final(input).btn(b) == old(input).btn(b).spec_frame(),
        old(stack).depth() - 1 <= final(stack).depth() <= old(stack).depth() + 1,
        exists|top1: Scene, wmid: World, cmd: SceneSwitch<Scene>, wpost: World|
            #![trigger scene_update_rel(
                old(stack).scenes_seq().last(),
                top1,
                *old(world),
                wmid,
                *old(input),
                dt,
                cmd,
            ), crate::world::commit_rel(wpost, *final(world))]
            {
                &&& scene_update_rel(
                    old(stack).scenes_seq().last(),
                    top1,
                    *old(world),
                    wmid,
                    *old(input),
                    dt,
                    cmd,
                )
                &&& switch_outcome(
                    old(stack).scenes_seq().update(old(stack).depth() - 1, top1),
                    old(stack).owned_seq(),
                    *final(stack),
                    wmid,
                    wpost,
                    cmd,
                )
                &&& crate::world::commit_rel(wpost, *final(world))
            },
{
    stack.update(world, input, dt);
    let ghost wpost = *world;
    proof {
        let (top1, wmid, cmd) = choose|top1: Scene, wmid: World, cmd: SceneSwitch<Scene>|
            {
                &&& #[trigger] scene_update_rel(
                    old(stack).scenes_seq().last(),
                    top1,
                    *old(world),
                    wmid,
                    *old(input),
                    dt,
                    cmd,
                )
                &&& switch_outcome(
                    old(stack).scenes_seq().update(old(stack).depth() - 1, top1),
                    old(stack).owned_seq(),
                    *stack,
                    wmid,
                    wpost,
                    cmd,
                )
            };
        assert(scene_update_rel(
            old(stack).scenes_seq().last(),
            top1,
            *old(world),
            wmid,
            *old(input),
            dt,
            cmd,
        ));
    }
    input.update();
    world.commit();
}

/// Creates the scrolling stage the game constructor sets up: the background
/// and the ground, both visible parallax layers sharing one looping point.
pub fn create_stage(world: &mut World) -> (r: (Entity, Entity))
    requires
        old(world).wf(),
    ensures
        final(world).wf(),
        final(world).pending_seq() == old(world).pending_seq(),
        final(world).spec_valid(r.0),
        final(world).spec_valid(r.1),
        r.0.id != r.1.id,
        forall|x: Entity| old(world).spec_valid(x) ==> final(world).spec_valid(x),
        forall|j: int|
            0 <= j < old(world).num_slots() && j != r.0.id as int && j != r.1.id as int ==> final(world).slot_of(j) == old(world).slot_of(j),
        ({
            let s = final(world).slot_of(r.0.id as int);
            &&& s.render == Some(Render { visible: true })
            &&& s.image == Some(Image { image: ImageId::Background.spec_index() })
            &&& s.position == Some(Position { x: 0, y: 0, z: 0 })
            &&& s.parallax == Some(
                Parallax { speed: BACKGROUND_SCROLL_SPEED, looping_point: BACKGROUND_LOOPING_POINT },
            )
        }),
        ({
            let s = final(world).slot_of(r.1.id as int);
            &&& s.render == Some(Render { visible: true })
            &&& s.image == Some(Image { image: ImageId::Ground.spec_index() })
            &&& s.position == Some(Position { x: 0, y: (VIRTUAL_HEIGHT - 16_000) as i64, z: 0 })
            &&& s.parallax == Some(
                Parallax { speed: GROUND_SCROLL_SPEED, looping_point: BACKGROUND_LOOPING_POINT },
            )
        }),
{
    let bg = world.create_entity(
        EntityBuilder::new().with_render(Render { visible: true }).with_image(
            Image { image: ImageId::Background.index() },
        ).with_position(Position { x: 0, y: 0, z: 0 }).with_size(
            Size { w: VIRTUAL_WIDTH, h: VIRTUAL_HEIGHT },
        ).with_parallax(
            Parallax { speed: BACKGROUND_SCROLL_SPEED, looping_point: BACKGROUND_LOOPING_POINT },
        ),
    );
    let ground = world.create_entity(
        EntityBuilder::new().with_render(Render { visible: true }).with_image(
            Image { image: ImageId::Ground.index() },
        ).with_position(Position { x: 0, y: VIRTUAL_HEIGHT - 16_000, z: 0 }).with_size(
            Size { w: VIRTUAL_WIDTH, h: VIRTUAL_HEIGHT },
        ).with_parallax(
            Parallax { speed: GROUND_SCROLL_SPEED, looping_point: BACKGROUND_LOOPING_POINT },
        ),
    );
    (bg, ground)
}

} // verus!
