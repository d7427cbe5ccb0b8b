//! The paddle game's scenes: start, serve, play and won, a self-contained
//! base scene that sets the court up, and the game's scene-stack driver.

use vstd::prelude::*;

use crate::components::{Position, Size, Velocity};
use crate::input::InputState;
use crate::pong::components::{Ball, Player as Paddle, Scored, Serving, Won};
use crate::pong::input::Button;
use crate::pong::systems::{
    ball_rel, ball_row_v, bounce_rel, goal_row, goals_rel, paddle_rel, BallSystem, BounceSystem,
    PaddleSystem, ScoreSystem, POINTS_TO_WIN, VIRTUAL_HEIGHT, VIRTUAL_WIDTH,
};
use crate::scene::{SceneStack, SceneSwitch};
use crate::scheduler::Dispatcher;
use crate::types::{DeltaTime, Side};
use crate::world::{Entity, EntityBuilder, Slot, World};

verus! {

/// Some live player carries a set scored flag.
pub open spec fn any_scored(w: World) -> bool {
    exists|i: int|
        0 <= i < w.num_slots() && (#[trigger] w.slot_of(i)).alive && w.slot_of(i).paddle is Some
            && w.slot_of(i).scored == Some(Scored(true))
}

/// Some live player carries a set won flag.
pub open spec fn any_won(w: World) -> bool {
    exists|i: int|
        0 <= i < w.num_slots() && (#[trigger] w.slot_of(i)).alive && w.slot_of(i).paddle is Some
            && w.slot_of(i).won == Some(Won(true))
}

/// The side of the last live serving player among the first `i` rows.
pub open spec fn serving_side_upto(w: World, i: int) -> Option<Side>
    decreases i,
{
    if i <= 0 {
        None
    } else {
        let s = w.slot_of(i - 1);
        if s.alive && s.paddle is Some && s.serving == Some(Serving(true)) {
            Some(s.paddle->Some_0.side)
        } else {
            serving_side_upto(w, i - 1)
        }
    }
}

/// The side that serves next, if any player is flagged as serving.
pub open spec fn serving_side(w: World) -> Option<Side> {
    serving_side_upto(w, w.num_slots())
}

/// Whether some live player carries a set scored flag.
pub fn read_any_scored(world: &World) -> (r: bool)
    ensures
        r == any_scored(*world),
{
    let n = world.len();
    let mut i: usize = 0;
    while i < n
        invariant
            n == world.num_slots(),
            i <= n,
            forall|j: int|
                0 <= j < i ==> !((#[trigger] world.slot_of(j)).alive && world.slot_of(
                    j,
                ).paddle is Some && world.slot_of(j).scored == Some(Scored(true))),
        decreases n - i,
    {
        if world.alive(i) && world.get_paddle(i).is_some() {
            let sc = world.get_scored(i);
            if sc.is_some() && sc.unwrap().0 {
                return true;
            }
        }
        i = i + 1;
    }
    false
}

/// Whether some live player carries a set won flag.
pub fn read_any_won(world: &World) -> (r: bool)
    ensures
        r == any_won(*world),
{
    let n = world.len();
    let mut i: usize = 0;
    while i < n
        invariant
            n == world.num_slots(),
            i <= n,
            forall|j: int|
                0 <= j < i ==> !((#[trigger] world.slot_of(j)).alive && world.slot_of(
                    j,
                ).paddle is Some && world.slot_of(j).won == Some(Won(true))),
        decreases n - i,
    {
        if world.alive(i) && world.get_paddle(i).is_some() {
            let w = world.get_won(i);
            if w.is_some() && w.unwrap().0 {
                return true;
            }
        }
        i = i + 1;
    }
    false
}

/// The side that serves next, if any.
pub fn read_serving_side(world: &World) -> (r: Option<Side>)
    ensures
        r == serving_side(*world),
{
    let n = world.len();
    let mut i: usize = 0;
    let mut acc: Option<Side> = None;
    while i < n
        invariant
            n == world.num_slots(),
            i <= n,
            acc == serving_side_upto(*world, i as int),
        decreases n - i,
    {
        if world.alive(i) {
            let sv = world.get_serving(i);
            if sv.is_some() && sv.unwrap().0 {
                match world.get_paddle(i) {
                    Some(pd) => {
                        acc = Some(pd.side);
                    },
                    None => {},
                }
            }
        }
        i = i + 1;
    }
    acc
}

/// How the serve places one row: the ball returns to the court's center and
/// is served towards the conceder at speed `sx`, with vertical drift `sy`.
pub open spec fn serve_step(s: Slot, side: Option<Side>, sx: i64, sy: i64) -> Slot {
    if ball_row_v(s) {
        let p = s.position->Some_0;
        let v = s.velocity->Some_0;
        Slot {
            position: Some(
                Position {
                    x: (VIRTUAL_WIDTH / 2 - 2_000) as i64,
                    y: (VIRTUAL_HEIGHT / 2 - 2_000) as i64,
                    z: p.z,
                },
            ),
            velocity: Some(
                Velocity {
                    x: match side {
                        Some(Side::Left) => sx,
                        Some(Side::Right) => (-sx) as i64,
                        None => v.x,
                    },
                    y: sy,
                },
            ),
            ..s
        }
    } else {
        s
    }
}

/// The bands the serve's random draws lie in: the serve speed and the
/// vertical drift.
pub open spec fn serve_vals_ok(sx: i64, sy: i64) -> bool {
    180_000 <= sx < 220_000 && -50_000 <= sy < 50_000
}

/// The serve's overall effect: every ball re-placed per `serve_step`, under
/// the serving side the world showed, everything else untouched.
pub open spec fn serve_rel(a: World, b: World) -> bool {
    exists|sx: i64, sy: i64|
        #![trigger serve_vals_ok(sx, sy)]
        {
            &&& serve_vals_ok(sx, sy)
            &&& b.num_slots() == a.num_slots()
            &&& forall|j: int|
                0 <= j < a.num_slots() ==> b.slot_of(j) == serve_step(
                    a.slot_of(j),
                    serving_side(a),
                    sx,
                    sy,
                )
            &&& b.pending_seq() == a.pending_seq()
            &&& b.freelist() == a.freelist()
            &&& b.render_dirty() == a.render_dirty()
        }
}

/// How a rally reset changes one row: a player's scored, won and serving
/// flags all drop.
pub open spec fn clear_flags_step(s: Slot) -> Slot {
    if goal_row(s) {
        Slot {
            scored: Some(Scored(false)),
            won: Some(Won(false)),
            serving: Some(Serving(false)),
            ..s
        }
    } else {
        s
    }
}

/// How a rematch reset changes one row: scores return to zero, the player who
/// had not won serves, and the scored and won flags drop.
pub open spec fn rematch_step(s: Slot) -> Slot {
    if goal_row(s) {
        let p = s.paddle->Some_0;
        Slot {
            paddle: Some(Paddle { side: p.side, name: p.name, score: 0 }),
            serving: Some(Serving(!s.won->Some_0.0)),
            won: Some(Won(false)),
            scored: Some(Scored(false)),
            ..s
        }
    } else {
        s
    }
}

/// `b` is `a` with every row passed through `clear_flags_step`.
pub open spec fn clear_flags_rel(a: World, b: World) -> bool {
    &&& b.num_slots() == a.num_slots()
    &&& forall|j: int| 0 <= j < a.num_slots() ==> b.slot_of(j) == clear_flags_step(a.slot_of(j))
    &&& b.pending_seq() == a.pending_seq()
    &&& b.freelist() == a.freelist()
    &&& b.render_dirty() == a.render_dirty()
}

/// `b` is `a` with every row passed through `rematch_step`.
pub open spec fn rematch_rel(a: World, b: World) -> bool {
    &&& b.num_slots() == a.num_slots()
    &&& forall|j: int| 0 <= j < a.num_slots() ==> b.slot_of(j) == rematch_step(a.slot_of(j))
    &&& b.pending_seq() == a.pending_seq()
    &&& b.freelist() == a.freelist()
    &&& b.render_dirty() == a.render_dirty()
}

fn clear_flags(world: &mut World)
    requires
        old(world).wf(),
    ensures
        final(world).wf(),
        clear_flags_rel(*old(world), *final(world)),
{
    let n = world.len();
    let mut i: usize = 0;
    while i < n
        invariant
            world.wf(),
            n == world.num_slots(),
            i <= n,
            world.pending_seq() == old(world).pending_seq(),
            world.freelist() == old(world).freelist(),
            world.render_dirty() == old(world).render_dirty(),
            forall|j: int|
                0 <= j < i ==> #[trigger] world.slot_of(j) == clear_flags_step(
                    old(world).slot_of(j),
                ),
            forall|j: int| i <= j < n ==> #[trigger] world.slot_of(j) == old(world).slot_of(j),
        decreases n - i,
    {
        let ghost prev = *world;
        if world.alive(i) && world.get_paddle(i).is_some() && world.get_serving(i).is_some()
            && world.get_scored(i).is_some() && world.get_won(i).is_some() {
            world.set_scored(i, Scored(false));
            world.set_won(i, Won(false));
            world.set_serving(i, Serving(false));
            proof {
                assert(forall|j: int|
                    0 <= j < n && j != i as int ==> #[trigger] world.slot_of(j) == prev.slot_of(
                        j,
                    ));
                assert(world.slot_of(i as int) == clear_flags_step(old(world).slot_of(i as int)));
            }
        }
        proof {
            assert(world.slot_of(i as int) == clear_flags_step(old(world).slot_of(i as int)));
        }
        i = i + 1;
    }
}

fn rematch_reset(world: &mut World)
    requires
        old(world).wf(),
    ensures
        final(world).wf(),
        rematch_rel(*old(world), *final(world)),
{
    let n = world.len();
    let mut i: usize = 0;
    while i < n
        invariant
            world.wf(),
            n == world.num_slots(),
            i <= n,
            world.pending_seq() == old(world).pending_seq(),
            world.freelist() == old(world).freelist(),
            world.render_dirty() == old(world).render_dirty(),
            forall|j: int|
                0 <= j < i ==> #[trigger] world.slot_of(j) == rematch_step(old(world).slot_of(j)),
            forall|j: int| i <= j < n ==> #[trigger] world.slot_of(j) == old(world).slot_of(j),
        decreases n - i,
    {
        let ghost prev = *world;
        if world.alive(i) && world.get_serving(i).is_some() && world.get_scored(i).is_some()
            && world.get_won(i).is_some() {
            match world.get_paddle(i) {
                Some(pd) => {
                    let side = pd.side;
                    let name = pd.name.clone();
                    let lost = !world.get_won(i).unwrap().0;
                    world.set_paddle(i, Paddle { side, name, score: 0 });
                    world.set_serving(i, Serving(lost));
                    world.set_won(i, Won(false));
                    world.set_scored(i, Scored(false));
                    proof {
                        assert(forall|j: int|
                            0 <= j < n && j != i as int ==> #[trigger] world.slot_of(j)
                                == prev.slot_of(j));
                        assert(world.slot_of(i as int) == rematch_step(
                            old(world).slot_of(i as int),
                        ));
                    }
                },
                None => {},
            }
        }
        proof {
            assert(world.slot_of(i as int) == rematch_step(old(world).slot_of(i as int)));
        }
        i = i + 1;
    }
}

/// The opening scene: waits for the confirm button.
pub struct StartScene {}

/// The between-rallies scene; building it performs the serve.
pub struct ServeScene {}

/// The match-over scene; drawn over the court it won.
pub struct WonScene {}

/// A self-contained demonstration scene: sets the court up and pops itself
/// once flagged done.
pub struct BaseScene {
    pub done: bool,
}

impl ServeScene {
    /// Performs the serve: the ball returns to the center and leaves towards
    /// the conceder at a randomized speed and drift.
    pub fn new(world: &mut World) -> (r: ServeScene)
        requires
            old(world).wf(),
        ensures
            final(world).wf(),
            serve_rel(*old(world), *final(world)),
    {
        let side = read_serving_side(world);
        let sx = crate::rng::random_in_range(180_000, 220_000);
        let sy = crate::rng::random_in_range(-50_000, 50_000);
        let dir = match side {
            Some(Side::Left) => 1i64,
            Some(Side::Right) => -1i64,
            None => 0i64,
        };
        let n = world.len();
        let mut i: usize = 0;
        while i < n
            invariant
                world.wf(),
                n == world.num_slots(),
                i <= n,
                180_000 <= sx < 220_000,
                -50_000 <= sy < 50_000,
                world.pending_seq() == old(world).pending_seq(),
                world.freelist() == old(world).freelist(),
                world.render_dirty() == old(world).render_dirty(),
                serving_side(*old(world)) == (if dir == 1i64 {
                    Some(Side::Left)
                } else if dir == -1i64 {
                    Some(Side::Right)
                } else {
                    None::<Side>
                }),
                forall|j: int|
                    0 <= j < i ==> #[trigger] world.slot_of(j) == serve_step(
                        old(world).slot_of(j),
                        serving_side(*old(world)),
                        sx,
                        sy,
                    ),
                forall|j: int| i <= j < n ==> #[trigger] world.slot_of(j) == old(world).slot_of(j),
            decreases n - i,
        {
            proof {
                assert(world.slots()[i as int].slot_ok());
            }
            let ghost prev = *world;
            if world.alive(i) && world.get_ball(i).is_some() && world.get_size(i).is_some() {
                let pos_opt = world.get_position(i);
                let vel_opt = world.get_velocity(i);
                if pos_opt.is_some() && vel_opt.is_some() {
                    let p = pos_opt.unwrap();
                    let v = vel_opt.unwrap();
                    let vx = if dir == 1i64 {
                        sx
                    } else if dir == -1i64 {
                        -sx
                    } else {
                        v.x
                    };
                    world.set_position(
                        i,
                        Position { x: VIRTUAL_WIDTH / 2 - 2_000, y: VIRTUAL_HEIGHT / 2 - 2_000, z: p.z },
                    );
                    world.set_velocity(i, Velocity { x: vx, y: sy });
                    proof {
                        assert(forall|j: int|
                            0 <= j < n && j != i as int ==> #[trigger] world.slot_of(j)
                                == prev.slot_of(j));
                        assert(world.slot_of(i as int) == serve_step(
                            old(world).slot_of(i as int),
                            serving_side(*old(world)),
                            sx,
                            sy,
                        ));
                    }
                }
            }
            proof {
                assert(world.slot_of(i as int) == serve_step(
                    old(world).slot_of(i as int),
                    serving_side(*old(world)),
                    sx,
                    sy,
                ));
            }
            i = i + 1;
        }
        proof {
            assert(serve_vals_ok(sx, sy));
        }
        ServeScene {  }
    }
}

/// Dispatch tag of the paddle system.
pub const TAG_PADDLE: u32 = 0;

/// Dispatch tag of the ball system.
pub const TAG_BALL: u32 = 1;

/// Dispatch tag of the bounce system.
pub const TAG_BOUNCE: u32 = 2;

/// Dispatch tag of the goal system.
pub const TAG_SCORE: u32 = 3;

/// The play scene's scheduler holds its four systems in registration order:
/// paddles, ball, bounce (after both), then the goal pass (after the bounce).
pub open spec fn play_order(d: Dispatcher) -> bool {
    &&& d.wf()
    &&& d.entries_seq().len() == 4
    &&& d.entries_seq()[0].tag == TAG_PADDLE
    &&& d.entries_seq()[1].tag == TAG_BALL
    &&& d.entries_seq()[2].tag == TAG_BOUNCE
    &&& d.entries_seq()[3].tag == TAG_SCORE
}

/// The four systems of a play tick have run, in scheduler order.
pub open spec fn play_systems_rel(
    a: World,
    b: World,
    dt: int,
    lu: bool,
    ld: bool,
    ru: bool,
    rd: bool,
) -> bool {
    exists|w1: World, w2: World, w3: World|
        #![trigger paddle_rel(a, w1, dt, lu, ld, ru, rd), ball_rel(w1, w2, dt), bounce_rel(w2, w3)]
        {
            &&& paddle_rel(a, w1, dt, lu, ld, ru, rd)
            &&& ball_rel(w1, w2, dt)
            &&& bounce_rel(w2, w3)
            &&& goals_rel(w3, b, POINTS_TO_WIN)
        }
}

/// The playing scene: runs the four systems through the scheduler, then
/// watches the won and scored flags.
pub struct PlayScene {
    pub dispatcher: Dispatcher,
    pub paddle: PaddleSystem,
    pub ball: BallSystem,
    pub bounce: BounceSystem,
    pub score: ScoreSystem,
}

impl PlayScene {
    pub open spec fn wf(self) -> bool {
        play_order(self.dispatcher)
    }

    /// Builds the scene's scheduler; the registration is statically valid, so
    /// the configuration errors of `register` are proved unreachable.
    pub fn new() -> (r: PlayScene)
        ensures
            r.wf(),
    {
        proof {
            reveal_strlit("paddle");
            reveal_strlit("ball");
            reveal_strlit("bounce");
            reveal_strlit("score");
            assert("paddle"@.len() == 6);
            assert("ball"@.len() == 4);
            assert("bounce"@.len() == 6);
            assert("score"@.len() == 5);
        }
        let mut d = Dispatcher::new();
        let r1 = d.register(TAG_PADDLE, String::from_str("paddle"), Vec::new());
        match r1 {
            Ok(u) => u,
            Err(_) => {
                proof {
                    assert(false);
                }
            },
        }
        proof {
            assert(!d.contains_name("ball"@)) by {
                assert(d.entries_seq()[0].name@ == "paddle"@);
            }
        }
        let r2 = d.register(TAG_BALL, String::from_str("ball"), Vec::new());
        match r2 {
            Ok(u) => u,
            Err(_) => {
                proof {
                    assert(false);
                }
            },
        }
        proof {
            assert(!d.contains_name("bounce"@)) by {
                assert(d.entries_seq()[0].name@ == "paddle"@);
                assert(d.entries_seq()[1].name@ == "ball"@);
                assert("bounce"@[0] != "paddle"@[0]);
                assert("bounce"@[1] != "ball"@[1]);
            }
        }
        let mut bounce_deps: Vec<String> = Vec::new();
        bounce_deps.push(String::from_str("paddle"));
        bounce_deps.push(String::from_str("ball"));
        proof {
            assert(d.contains_name("paddle"@)) by {
                assert(d.entries_seq()[0].name@ == "paddle"@);
            }
            assert(d.contains_name("ball"@)) by {
                assert(d.entries_seq()[1].name@ == "ball"@);
            }
            assert(forall|i: int|
                0 <= i < bounce_deps@.len() ==> d.contains_name((#[trigger] bounce_deps@[i])@));
        }
        let r3 = d.register(TAG_BOUNCE, String::from_str("bounce"), bounce_deps);
        match r3 {
            Ok(u) => u,
            Err(_) => {
                proof {
                    assert(false);
                }
            },
        }
        proof {
            assert(!d.contains_name("score"@)) by {
                assert(d.entries_seq()[0].name@ == "paddle"@);
                assert(d.entries_seq()[1].name@ == "ball"@);
                assert(d.entries_seq()[2].name@ == "bounce"@);
                assert("score"@[0] != "paddle"@[0]);
                assert("score"@[0] != "ball"@[0]);
                assert("score"@[1] != "bounce"@[1]);
            }
        }
        let mut score_deps: Vec<String> = Vec::new();
        score_deps.push(String::from_str("bounce"));
        proof {
            assert(d.contains_name("bounce"@)) by {
                assert(d.entries_seq()[2].name@ == "bounce"@);
            }
            assert(forall|i: int|
                0 <= i < score_deps@.len() ==> d.contains_name((#[trigger] score_deps@[i])@));
        }
        let r4 = d.register(TAG_SCORE, String::from_str("score"), score_deps);
        match r4 {
            Ok(u) => u,
            Err(_) => {
                proof {
                    assert(false);
                }
            },
        }
        PlayScene {
            dispatcher: d,
            paddle: PaddleSystem,
            ball: BallSystem,
            bounce: BounceSystem,
            score: ScoreSystem,
        }
    }

    /// One play tick: the scheduler's systems run in topological order, then
    /// the scene decides — a won match goes to the won scene, a scored rally
    /// to the serve scene, otherwise play goes on.
    pub fn update(&mut self, world: &mut World, input: &InputState, dt: DeltaTime) -> (r:
        SceneSwitch<Scene>)
        requires
            old(self).wf(),
            old(world).wf(),
            dt.ok(),
        ensures
            final(self).wf(),
            play_update_rel(*old(self), *final(self), *old(world), *final(world), *input, dt, r),
    {
        let lu = input.get_button_down(Button::LeftPlayerUp.index());
        let ld = input.get_button_down(Button::LeftPlayerDown.index());
        let ru = input.get_button_down(Button::RightPlayerUp.index());
        let rd = input.get_button_down(Button::RightPlayerDown.index());
        let ghost mut g1: World = *world;
        let ghost mut g2: World = *world;
        let ghost mut g3: World = *world;
        let m = self.dispatcher.len();
        let mut k: usize = 0;
        while k < m
            invariant
                m == 4,
                k <= 4,
                old(self).wf(),
                *self == *old(self),
                world.wf(),
                dt.ok(),
                k == 0 ==> *world == *old(world),
                k >= 1 ==> paddle_rel(*old(world), g1, dt.delta as int, lu, ld, ru, rd),
                k == 1 ==> *world == g1,
                k >= 2 ==> ball_rel(g1, g2, dt.delta as int),
                k == 2 ==> *world == g2,
                k >= 3 ==> bounce_rel(g2, g3),
                k == 3 ==> *world == g3,
                k == 4 ==> goals_rel(g3, *world, POINTS_TO_WIN),
            decreases m - k,
        {
            let tag = self.dispatcher.tag_at(k);
            proof {
                assert(self.dispatcher.order()[k as int]
                    == self.dispatcher.entries_seq()[k as int].tag);
            }
            if tag == TAG_PADDLE {
                self.paddle.run(world, dt, lu, ld, ru, rd);
                proof {
                    g1 = *world;
                }
            } else if tag == TAG_BALL {
                self.ball.run(world, dt);
                proof {
                    g2 = *world;
                }
            } else if tag == TAG_BOUNCE {
                self.bounce.run(world);
                proof {
                    g3 = *world;
                }
            } else {
                self.score.run(world);
            }
            k = k + 1;
        }
        let ghost wsys = *world;
        proof {
            assert(play_systems_rel(
                *old(world),
                wsys,
                dt.delta as int,
                lu,
                ld,
                ru,
                rd,
            )) by {
                assert(paddle_rel(*old(world), g1, dt.delta as int, lu, ld, ru, rd));
                assert(ball_rel(g1, g2, dt.delta as int));
                assert(bounce_rel(g2, g3));
            }
        }
        let won = read_any_won(world);
        let scored = read_any_scored(world);
        if won {
            SceneSwitch::replace(Scene::Won(WonScene {  }))
        } else if scored {
            let sc = ServeScene::new(world);
            SceneSwitch::replace(Scene::Serve(sc))
        } else {
            SceneSwitch::Stay
        }
    }
}

impl StartScene {
    pub fn new() -> (r: StartScene)
        ensures
            r == (StartScene {  }),
    {
        StartScene {  }
    }

    /// Waits for the confirm button's release edge, then replaces itself with
    /// the serve; otherwise nothing changes.
    pub fn update(&mut self, world: &mut World, input: &InputState) -> (r: SceneSwitch<Scene>)
        requires
            old(world).wf(),
        ensures
            *final(self) == *old(self),
            start_update_rel(*old(world), *final(world), *input, r),
    {
        if input.get_button_released(Button::Enter.index()) {
            let sc = ServeScene::new(world);
            SceneSwitch::replace(Scene::Serve(sc))
        } else {
            SceneSwitch::Stay
        }
    }
}

impl ServeScene {
    /// Waits for the confirm button's release edge, then clears the rally
    /// flags and replaces itself with play; otherwise nothing changes.
    pub fn update(&mut self, world: &mut World, input: &InputState) -> (r: SceneSwitch<Scene>)
        requires
            old(world).wf(),
        ensures
            *final(self) == *old(self),
            serve_update_rel(*old(world), *final(world), *input, r),
    {
        if input.get_button_released(Button::Enter.index()) {
            clear_flags(world);
            SceneSwitch::replace(Scene::Play(PlayScene::new()))
        } else {
            SceneSwitch::Stay
        }
    }
}

impl WonScene {
    pub fn new() -> (r: WonScene)
        ensures
            r == (WonScene {  }),
    {
        WonScene {  }
    }

    /// Waits for the confirm button's release edge, then resets the match —
    /// scores to zero, the loser serving — and replaces itself with the
    /// serve; otherwise nothing changes.
    pub fn update(&mut self, world: &mut World, input: &InputState) -> (r: SceneSwitch<Scene>)
        requires
            old(world).wf(),
        ensures
            *final(self) == *old(self),
            won_update_rel(*old(world), *final(world), *input, r),
    {
        if input.get_button_released(Button::Enter.index()) {
            rematch_reset(world);
            let ghost wmid = *world;
            let sc = ServeScene::new(world);
            proof {
                assert(rematch_rel(*old(world), wmid));
            }
            SceneSwitch::replace(Scene::Serve(sc))
        } else {
            SceneSwitch::Stay
        }
    }

    /// The won overlay is drawn over the scene beneath it.
    pub fn draw_previous(&self) -> (r: bool)
        ensures
            r,
    {
        true
    }
}

impl BaseScene {
    /// Sets the court up: the two paddles (the left one serving first) and
    /// the ball at rest in the center.
    pub fn new(world: &mut World) -> (r: BaseScene)
        requires
            old(world).wf(),
        ensures
            final(world).wf(),
            !r.done,
            final(world).pending_seq() == old(world).pending_seq(),
            exists|e1: Entity, e2: Entity, e3: Entity|
                {
                    &&& final(world).spec_valid(e1)
                    &&& final(world).spec_valid(e2)
                    &&& final(world).spec_valid(e3)
                    &&& e1.id != e2.id && e1.id != e3.id && e2.id != e3.id
                    &&& (forall|j: int|
                        0 <= j < old(world).num_slots() && j != e1.id as int && j != e2.id as int
                            && j != e3.id as int ==> final(world).slot_of(j) == old(world).slot_of(
                            j,
                        ))
                    &&& ({
                        let s = final(world).slot_of(e1.id as int);
                        &&& s.paddle is Some
                        &&& s.paddle->Some_0.side == Side::Left
                        &&& s.paddle->Some_0.score == 0
                        &&& s.serving == Some(Serving(true))
                        &&& s.scored == Some(Scored(false))
                        &&& s.won == Some(Won(false))
                        &&& s.position == Some(Position { x: 10_000, y: 30_000, z: 0 })
                        &&& s.size == Some(Size { w: 5_000, h: 20_000 })
                    })
                    &&& ({
                        let s = final(world).slot_of(e2.id as int);
                        &&& s.paddle is Some
                        &&& s.paddle->Some_0.side == Side::Right
                        &&& s.paddle->Some_0.score == 0
                        &&& s.serving == Some(Serving(false))
                        &&& s.scored == Some(Scored(false))
                        &&& s.won == Some(Won(false))
                        &&& s.position == Some(
                            Position {
                                x: (VIRTUAL_WIDTH - 10_000) as i64,
                                y: (VIRTUAL_HEIGHT - 50_000) as i64,
                                z: 0,
                            },
                        )
                        &&& s.size == Some(Size { w: 5_000, h: 20_000 })
                    })
                    &&& ({
                        let s = final(world).slot_of(e3.id as int);
                        &&& s.ball == Some(Ball {  })
                        &&& s.position == Some(
                            Position {
                                x: (VIRTUAL_WIDTH / 2 - 2_000) as i64,
                                y: (VIRTUAL_HEIGHT / 2 - 2_000) as i64,
                                z: 0,
                            },
                        )
                        &&& s.size == Some(Size { w: 4_000, h: 4_000 })
                        &&& s.velocity == Some(Velocity { x: 0, y: 0 })
                    })
                },
    {
        let e1 = world.create_entity(
            EntityBuilder::new().with_paddle(
                Paddle { side: Side::Left, name: String::from_str("1"), score: 0 },
            ).with_position(Position { x: 10_000, y: 30_000, z: 0 }).with_size(
                Size { w: 5_000, h: 20_000 },
            ).with_scored(Scored(false)).with_won(Won(false)).with_serving(Serving(true)),
        );
        let e2 = world.create_entity(
            EntityBuilder::new().with_paddle(
                Paddle { side: Side::Right, name: String::from_str("2"), score: 0 },
            ).with_position(
                Position { x: VIRTUAL_WIDTH - 10_000, y: VIRTUAL_HEIGHT - 50_000, z: 0 },
            ).with_size(Size { w: 5_000, h: 20_000 }).with_scored(Scored(false)).with_won(
                Won(false),
            ).with_serving(Serving(false)),
        );
        let e3 = world.create_entity(
            EntityBuilder::new().with_ball(Ball {  }).with_position(
                Position { x: VIRTUAL_WIDTH / 2 - 2_000, y: VIRTUAL_HEIGHT / 2 - 2_000, z: 0 },
            ).with_size(Size { w: 4_000, h: 4_000 }).with_velocity(Velocity { x: 0, y: 0 }),
        );
        BaseScene { done: false }
    }

    /// Pops itself once flagged done; otherwise nothing changes.
    pub fn update(&mut self, world: &mut World) -> (r: SceneSwitch<Scene>)
        requires
            old(world).wf(),
        ensures
            base_update_rel(*old(self), *final(self), *old(world), *final(world), r),
    {
        if self.done {
            SceneSwitch::Pop
        } else {
            SceneSwitch::Stay
        }
    }
}

/// One of the game's modes, as the scene stack carries them.
pub enum Scene {
    Start(StartScene),
    Serve(ServeScene),
    Play(PlayScene),
    Won(WonScene),
    Base(BaseScene),
}

/// How the start scene answers one tick: on the confirm button's release
/// edge it serves and replaces itself with the serve scene.
pub open spec fn start_update_rel(
    a: World,
    b: World,
    input: InputState,
    cmd: SceneSwitch<Scene>,
) -> bool {
    let released = input.btn(Button::Enter.spec_index() as int).spec_just_released();
    &&& b.wf()
    &&& if released {
        (cmd matches SceneSwitch::Replace(Scene::Serve(v))) && serve_rel(a, b)
    } else {
        cmd is Stay && b == a
    }
}

/// How the serve scene answers one tick: on the confirm button's release edge
/// it clears the rally flags and replaces itself with play.
pub open spec fn serve_update_rel(
    a: World,
    b: World,
    input: InputState,
    cmd: SceneSwitch<Scene>,
) -> bool {
    let released = input.btn(Button::Enter.spec_index() as int).spec_just_released();
    &&& b.wf()
    &&& if released {
        (cmd matches SceneSwitch::Replace(Scene::Play(p)) && p.wf()) && clear_flags_rel(a, b)
    } else {
        cmd is Stay && b == a
    }
}

/// How the won scene answers one tick: on the confirm button's release edge
/// it resets the match — scores to zero, the loser serving — then serves and
/// replaces itself with the serve scene.
pub open spec fn won_update_rel(
    a: World,
    b: World,
    input: InputState,
    cmd: SceneSwitch<Scene>,
) -> bool {
    let released = input.btn(Button::Enter.spec_index() as int).spec_just_released();
    &&& b.wf()
    &&& if released {
        exists|wmid: World|
            (cmd matches SceneSwitch::Replace(Scene::Serve(v))) && #[trigger] rematch_rel(a, wmid)
                && serve_rel(wmid, b)
    } else {
        cmd is Stay && b == a
    }
}

/// How the base scene answers one tick: it pops itself once flagged done.
pub open spec fn base_update_rel(
    b0: BaseScene,
    b1: BaseScene,
    a: World,
    b: World,
    cmd: SceneSwitch<Scene>,
) -> bool {
    &&& b.wf()
    &&& b1 == b0
    &&& b == a
    &&& if b0.done {
        cmd is Pop
    } else {
        cmd is Stay
    }
}

/// How the play scene answers one tick: the four systems run in scheduler
/// order, then a won match goes to the won scene and a scored rally to the
/// serve scene.
pub open spec fn play_update_rel(
    p0: PlayScene,
    p1: PlayScene,
    a: World,
    b: World,
    input: InputState,
    dt: DeltaTime,
    cmd: SceneSwitch<Scene>,
) -> bool {
    &&& p1 == p0
    &&& b.wf()
    &&& exists|wsys: World|
        {
            &&& #[trigger] play_systems_rel(
                a,
                wsys,
                dt.delta as int,
                input.btn(Button::LeftPlayerUp.spec_index() as int).pressed,
                input.btn(Button::LeftPlayerDown.spec_index() as int).pressed,
                input.btn(Button::RightPlayerUp.spec_index() as int).pressed,
                input.btn(Button::RightPlayerDown.spec_index() as int).pressed,
            )
            &&& (if any_won(wsys) {
                (cmd matches SceneSwitch::Replace(Scene::Won(v))) && b == wsys
            } else if any_scored(wsys) {
                (cmd matches SceneSwitch::Replace(Scene::Serve(v))) && serve_rel(wsys, b)
            } else {
                cmd is Stay && b == wsys
            })
        }
}

/// The scene `pre`, updated over one tick to `post`, turned world `a` into
/// `b` and answered the command `cmd` — whichever mode it is, by that mode's
/// own update relation. A scene never changes its variant.
pub open spec fn scene_update_rel(
    pre: Scene,
    post: Scene,
    a: World,
    b: World,
    input: InputState,
    dt: DeltaTime,
    cmd: SceneSwitch<Scene>,
) -> bool {
    match (pre, post) {
        (Scene::Start(t0), Scene::Start(t1)) => t1 == t0 && start_update_rel(a, b, input, cmd),
        (Scene::Serve(s0), Scene::Serve(s1)) => s1 == s0 && serve_update_rel(a, b, input, cmd),
        (Scene::Won(w0), Scene::Won(w1)) => w1 == w0 && won_update_rel(a, b, input, cmd),
        (Scene::Base(b0), Scene::Base(b1)) => base_update_rel(b0, b1, a, b, cmd),
        (Scene::Play(p0), Scene::Play(p1)) => play_update_rel(p0, p1, a, b, input, dt, cmd),
        _ => false,
    }
}

/// What executing the command `cmd` did to a stack holding `scenes0` beside
/// `owned0` and to the world: nothing for `Stay`; `Push` stacks the pushed
/// scene as given (this game's scenes enter without hooks); `Pop` drops the
/// top, requesting deletion of whatever it owned; `Replace` does both.
pub open spec fn switch_outcome(
    scenes0: Seq<Scene>,
    owned0: Seq<Seq<Entity>>,
    post: SceneStack<Scene>,
    a: World,
    b: World,
    cmd: SceneSwitch<Scene>,
) -> bool {
    &&& post.wf()
    &&& b.wf()
    &&& b.slots() == a.slots()
    &&& match cmd {
        SceneSwitch::Stay => post.scenes_seq() == scenes0 && post.owned_seq() == owned0 && b == a,
        SceneSwitch::Push(s) => {
            &&& post.depth() == scenes0.len() + 1
            &&& post.scenes_seq().drop_last() == scenes0
            &&& post.owned_seq().drop_last() == owned0
            &&& post.scenes_seq().last() == s
            &&& b == a
        },
        SceneSwitch::Pop => {
            &&& post.scenes_seq() == scenes0.drop_last()
            &&& post.owned_seq() == owned0.drop_last()
            &&& b.freelist() == a.freelist()
            &&& b.render_dirty() == a.render_dirty()
            &&& forall|k: int|
                0 <= k < owned0.last().len() && a.spec_valid(#[trigger] owned0.last()[k])
                    ==> b.is_pending(owned0.last()[k].id as int)
        },
        SceneSwitch::Replace(s) => {
            &&& post.depth() == scenes0.len()
            &&& post.scenes_seq().drop_last() == scenes0.drop_last()
            &&& post.owned_seq().drop_last() == owned0.drop_last()
            &&& post.scenes_seq().last() == s
            &&& b.freelist() == a.freelist()
            &&& b.render_dirty() == a.render_dirty()
            &&& forall|k: int|
                0 <= k < owned0.last().len() && a.spec_valid(#[trigger] owned0.last()[k])
                    ==> b.is_pending(owned0.last()[k].id as int)
        },
    }
}

/// The per-variant well-formedness the stack maintains for every scene.
pub open spec fn scene_wf(s: Scene) -> bool {
    match s {
        Scene::Play(p) => p.wf(),
        _ => true,
    }
}

/// Every scene the stack carries is well-formed.
pub open spec fn stack_ok(st: SceneStack<Scene>) -> bool {
    forall|k: int| 0 <= k < st.depth() ==> scene_wf(#[trigger] st.scenes_seq()[k])
}

impl SceneStack<Scene> {
    /// Executes a scene-switch command; this game's scenes own no entities,
    /// so switching only restacks them. Returns the scene that left the
    /// stack, if any.
    pub fn switch(&mut self, next: SceneSwitch<Scene>, world: &mut World) -> (r: Option<Scene>)
        requires
            old(self).wf(),
            stack_ok(*old(self)),
            old(world).wf(),
            match next {
                SceneSwitch::Stay => true,
                SceneSwitch::Push(s) => scene_wf(s),
                SceneSwitch::Replace(s) => scene_wf(s) && old(self).depth() > 0,
                SceneSwitch::Pop => old(self).depth() > 0,
            },
        ensures
            final(self).wf(),
            stack_ok(*final(self)),
            final(world).wf(),
            switch_outcome(
                old(self).scenes_seq(),
                old(self).owned_seq(),
                *final(self),
                *old(world),
                *final(world),
                next,
            ),
            r == (match next {
                SceneSwitch::Stay => None::<Scene>,
                SceneSwitch::Push(_) => None::<Scene>,
                SceneSwitch::Pop => Some(old(self).scenes_seq().last()),
                SceneSwitch::Replace(_) => Some(old(self).scenes_seq().last()),
            }),
    {
        match next {
            SceneSwitch::Stay => None,
            SceneSwitch::Push(s) => {
                self.push(s, Vec::new());
                proof {
                    assert(stack_ok(*self)) by {
                        assert(forall|k: int|
                            0 <= k < old(self).depth() ==> self.scenes_seq()[k] == old(
                                self,
                            ).scenes_seq()[k]);
                    }
                    assert(self.scenes_seq().drop_last() =~= old(self).scenes_seq());
                    assert(self.owned_seq().drop_last() =~= old(self).owned_seq());
                }
                None
            },
            SceneSwitch::Pop => {
                let s = self.pop(world);
                proof {
                    assert(s == old(self).scenes_seq().last());
                    assert(stack_ok(*self)) by {
                        assert(forall|k: int|
                            0 <= k < self.depth() ==> self.scenes_seq()[k] == old(
                                self,
                            ).scenes_seq()[k]);
                    }
                }
                Some(s)
            },
            SceneSwitch::Replace(s) => {
                let popped = self.pop(world);
                proof {
                    assert(popped == old(self).scenes_seq().last());
                }
                let ghost mid = *self;
                self.push(s, Vec::new());
                proof {
                    assert(self.scenes_seq().drop_last() =~= old(self).scenes_seq().drop_last());
                    assert(self.owned_seq().drop_last() =~= old(self).owned_seq().drop_last());
                    assert(stack_ok(*self)) by {
                        assert(forall|k: int|
                            0 <= k < mid.depth() ==> self.scenes_seq()[k] == mid.scenes_seq()[k]);
                    }
                }
                Some(popped)
            },
        }
    }

    /// One simulation step of the stack: only the top scene receives the
    /// update — scenes beneath it never tick — and the command it returns is
    /// executed at once. The contract binds the outcome to the top scene's
    /// own update relation followed by the command's effect.
    pub fn update(&mut self, world: &mut World, input: &InputState, dt: DeltaTime)
        requires
            old(self).wf(),
            stack_ok(*old(self)),
            old(self).depth() > 0,
            old(world).wf(),
            dt.ok(),
        ensures
            final(self).wf(),
            stack_ok(*final(self)),
            final(world).wf(),
            old(self).depth() - 1 <= final(self).depth() <= old(self).depth() + 1,
            exists|top1: Scene, wmid: World, cmd: SceneSwitch<Scene>|
                {
                    &&& #[trigger] scene_update_rel(
                        old(self).scenes_seq().last(),
                        top1,
                        *old(world),
                        wmid,
                        *input,
                        dt,
                        cmd,
                    )
                    &&& switch_outcome(
                        old(self).scenes_seq().update(old(self).depth() - 1, top1),
                        old(self).owned_seq(),
                        *final(self),
                        wmid,
                        *final(world),
                        cmd,
                    )
                },
    {
        let mut top = Scene::Start(StartScene {  });
        self.swap_top(&mut top);
        let ghost pre_top = top;
        let (mut top, cmd) = match top {
            Scene::Start(mut t) => {
                let c = t.update(world, input);
                proof {
                    assert(scene_update_rel(
                        pre_top,
                        Scene::Start(t),
                        *old(world),
                        *world,
                        *input,
                        dt,
                        c,
                    ));
                }
                (Scene::Start(t), c)
            },
            Scene::Serve(mut sv) => {
                let c = sv.update(world, input);
                proof {
                    assert(scene_update_rel(
                        pre_top,
                        Scene::Serve(sv),
                        *old(world),
                        *world,
                        *input,
                        dt,
                        c,
                    ));
                }
                (Scene::Serve(sv), c)
            },
            Scene::Play(mut p) => {
                let c = p.update(world, input, dt);
                proof {
                    assert(scene_update_rel(
                        pre_top,
                        Scene::Play(p),
                        *old(world),
                        *world,
                        *input,
                        dt,
                        c,
                    ));
                }
                (Scene::Play(p), c)
            },
            Scene::Won(mut w) => {
                let c = w.update(world, input);
                proof {
                    assert(scene_update_rel(
                        pre_top,
                        Scene::Won(w),
                        *old(world),
                        *world,
                        *input,
                        dt,
                        c,
                    ));
                }
                (Scene::Won(w), c)
            },
            Scene::Base(mut b) => {
                let c = b.update(world);
                proof {
                    assert(scene_update_rel(
                        pre_top,
                        Scene::Base(b),
                        *old(world),
                        *world,
                        *input,
                        dt,
                        c,
                    ));
                }
                (Scene::Base(b), c)
            },
        };
        let ghost updated = top;
        let ghost wmid = *world;
        let ghost gcmd = cmd;
        self.swap_top(&mut top);
        proof {
            assert(stack_ok(*self)) by {
                assert(forall|k: int|
                    0 <= k < self.depth() - 1 ==> self.scenes_seq()[k] == old(
                        self,
                    ).scenes_seq()[k]);
                assert(self.scenes_seq().last() == updated);
                assert(scene_wf(updated));
            }
            assert(scene_update_rel(
                old(self).scenes_seq().last(),
                updated,
                *old(world),
                wmid,
                *input,
                dt,
                gcmd,
            ));
            assert(self.scenes_seq() == old(self).scenes_seq().update(
                old(self).depth() - 1,
                updated,
            ));
            assert(self.owned_seq() == old(self).owned_seq());
        }
        let _ = self.switch(cmd, world);
        proof {
            assert(switch_outcome(
                old(self).scenes_seq().update(old(self).depth() - 1, updated),
                old(self).owned_seq(),
                *self,
                wmid,
                *world,
                gcmd,
            ));
        }
    }
}

/// One fixed simulation tick, as the driver runs it: the top scene updates,
/// then the input state crosses the frame boundary exactly once, then all
/// deletion requests commit atomically.
pub fn tick(
    stack: &mut SceneStack<Scene>,
    world: &mut World,
    input: &mut InputState,
    dt: DeltaTime,
)
    requires
        old(stack).wf(),
        stack_ok(*old(stack)),
        old(stack).depth() > 0,
        old(world).wf(),
        dt.ok(),
    ensures
        final(stack).wf(),
        stack_ok(*final(stack)),
        final(world).wf(),
        final(world).pending_seq().len() == 0,
        forall|b: int| final(input).btn(b) == old(input).btn(b).spec_frame(),
        old(stack).depth() - 1 <= final(stack).depth() <= old(stack).depth() + 1,
        exists|top1: Scene, wmid: World, cmd: SceneSwitch<Scene>, wpost: World|
            #![trigger scene_update_rel(
                old(stack).scenes_seq().last(),
                top1,
                *old(world),
                wmid,
                *old(input),
                dt,
                cmd,
            ), crate::world::commit_rel(wpost, *final(world))]
            {
                &&& scene_update_rel(
                    old(stack).scenes_seq().last(),
                    top1,
                    *old(world),
                    wmid,
                    *old(input),
                    dt,
                    cmd,
                )
                &&& switch_outcome(
                    old(stack).scenes_seq().update(old(stack).depth() - 1, top1),
                    old(stack).owned_seq(),
                    *final(stack),
                    wmid,
                    wpost,
                    cmd,
                )
                &&& crate::world::commit_rel(wpost, *final(world))
            },
{
    stack.update(world, input, dt);
    let ghost wpost = *world;
    proof {
        let (top1, wmid, cmd) = choose|top1: Scene, wmid: World, cmd: SceneSwitch<Scene>|
            {
                &&& #[trigger] scene_update_rel(
                    old(stack).scenes_seq().last(),
                    top1,
                    *old(world),
                    wmid,
                    *old(input),
                    dt,
                    cmd,
                )
                &&& switch_outcome(
                    old(stack).scenes_seq().update(old(stack).depth() - 1, top1),
                    old(stack).owned_seq(),
                    *stack,
                    wmid,
                    wpost,
                    cmd,
                )
            };
        assert(scene_update_rel(
            old(stack).scenes_seq().last(),
            top1,
            *old(world),
            wmid,
            *old(input),
            dt,
            cmd,
        ));
    }
    input.update();
    world.commit();
}

} // verus!
