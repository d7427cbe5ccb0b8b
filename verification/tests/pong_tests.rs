use arcade_core::components::{Position, Size, Velocity};
use arcade_core::pong::components::{Ball, Player, Scored, Serving, Won};
use arcade_core::pong::input::Button;
use arcade_core::pong::scenes::{
    read_any_scored, read_any_won, read_serving_side, BaseScene, Scene, ServeScene, StartScene,
    WonScene,
};
use arcade_core::pong::systems::{
    BallSystem, BounceSystem, PaddleSystem, ScoreSystem, WinnerSystem, PADDLE_SPEED,
    VIRTUAL_HEIGHT, VIRTUAL_WIDTH,
};
use arcade_core::input::InputState;
use arcade_core::scene::SceneStack;
use arcade_core::types::{DeltaTime, Side};
use arcade_core::world::{Entity, EntityBuilder, World};

const STEP: DeltaTime = DeltaTime { delta: 16 };

fn paddle(w: &mut World, side: Side, x: i64, y: i64, score: u8, serving: bool) -> Entity {
    w.create_entity(
        EntityBuilder::new()
            .with_paddle(Player { side, name: String::from("p"), score })
            .with_position(Position { x, y, z: 0 })
            .with_size(Size { w: 5_000, h: 20_000 })
            .with_scored(Scored(false))
            .with_won(Won(false))
            .with_serving(Serving(serving)),
    )
}

fn ball(w: &mut World, x: i64, y: i64, vx: i64, vy: i64) -> Entity {
    w.create_entity(
        EntityBuilder::new()
            .with_ball(Ball {})
            .with_position(Position { x, y, z: 0 })
            .with_size(Size { w: 4_000, h: 4_000 })
            .with_velocity(Velocity { x: vx, y: vy }),
    )
}

#[test]
fn ball_integrates_velocity() {
    let mut w = World::new();
    let b = ball(&mut w, 1000, 2000, 10_000, -5_000);
    let mut sys = BallSystem;
    sys.run(&mut w, STEP);
    let p = w.get_position(b.id).unwrap();
    assert_eq!(p.x, 1000 + 10_000 * 16 / 1000);
    assert_eq!(p.y, 2000 - 5_000 * 16 / 1000);
}

#[test]
fn held_paddle_moves_and_stops_at_the_court_edge() {
    let mut w = World::new();
    let l = paddle(&mut w, Side::Left, 10_000, 1_000, 0, false);
    let mut sys = PaddleSystem;
    // moving up clamps at the top
    sys.run(&mut w, STEP, true, false, false, false);
    assert_eq!(w.get_position(l.id).unwrap().y, 0);
    // moving down adds the scaled speed
    sys.run(&mut w, STEP, false, true, false, false);
    assert_eq!(w.get_position(l.id).unwrap().y, PADDLE_SPEED * 16 / 1000);
    // the right paddle's buttons leave the left paddle alone
    sys.run(&mut w, STEP, false, false, true, true);
    assert_eq!(w.get_position(l.id).unwrap().y, PADDLE_SPEED * 16 / 1000);
}

#[test]
fn ball_bounces_off_the_top_wall() {
    let mut w = World::new();
    let b = ball(&mut w, 1000, -5, 3_000, -2_000);
    let mut sys = BounceSystem;
    sys.run(&mut w);
    assert_eq!(w.get_position(b.id).unwrap().y, 0);
    assert_eq!(w.get_velocity(b.id).unwrap().y, 2_000);
}

#[test]
fn ball_bounces_off_the_bottom_wall() {
    let mut w = World::new();
    let b = ball(&mut w, 1000, VIRTUAL_HEIGHT, 3_000, 2_000);
    let mut sys = BounceSystem;
    sys.run(&mut w);
    assert_eq!(w.get_position(b.id).unwrap().y, VIRTUAL_HEIGHT - 4_000);
    assert_eq!(w.get_velocity(b.id).unwrap().y, -2_000);
}

#[test]
fn paddle_hit_reflects_with_restitution() {
    let mut w = World::new();
    // left paddle at x=10_000, ball overlapping it, heading left and down
    let l = paddle(&mut w, Side::Left, 10_000, 100_000, 0, false);
    let b = ball(&mut w, 12_000, 110_000, -10_000, 1_000);
    let mut sys = BounceSystem;
    sys.run(&mut w);
    let p = w.get_position(b.id).unwrap();
    let v = w.get_velocity(b.id).unwrap();
    // pushed to the paddle's face, reflected with the one-tenth boost
    assert_eq!(p.x, 10_000 + 5_000);
    assert_eq!(v.x, 11_000);
    // the ball struck below the paddle's middle: it deflects downwards
    assert!(v.y > 0);
    let _ = l;
}

#[test]
fn goal_on_the_left_awards_the_right_player() {
    let mut w = World::new();
    let l = paddle(&mut w, Side::Left, 10_000, 0, 0, false);
    let r = paddle(&mut w, Side::Right, 400_000, 0, 0, false);
    ball(&mut w, -10_000, 50_000, 0, 0);
    let mut sys = ScoreSystem;
    sys.run(&mut w);
    assert_eq!(w.get_paddle(r.id).unwrap().score, 1);
    assert_eq!(w.get_scored(r.id), Some(Scored(true)));
    assert_eq!(w.get_won(r.id), Some(Won(false)));
    assert_eq!(w.get_serving(l.id), Some(Serving(true)));
    assert_eq!(w.get_paddle(l.id).unwrap().score, 0);
    assert!(read_any_scored(&w));
    assert!(!read_any_won(&w));
}

#[test]
fn third_point_wins_the_short_match() {
    let mut w = World::new();
    paddle(&mut w, Side::Left, 10_000, 0, 0, false);
    let r = paddle(&mut w, Side::Right, 400_000, 0, 2, false);
    ball(&mut w, -10_000, 50_000, 0, 0);
    let mut sys = ScoreSystem;
    sys.run(&mut w);
    assert_eq!(w.get_paddle(r.id).unwrap().score, 3);
    assert_eq!(w.get_won(r.id), Some(Won(true)));
}

#[test]
fn long_match_needs_ten_points() {
    let mut w = World::new();
    paddle(&mut w, Side::Left, 10_000, 0, 0, false);
    let r = paddle(&mut w, Side::Right, 400_000, 0, 8, false);
    ball(&mut w, 440_000, 50_000, 0, 0);
    let mut sys = WinnerSystem;
    // the ball left on the right: the LEFT player scores; rebuild for a left
    // goal instead
    sys.run(&mut w);
    assert_eq!(w.get_paddle(r.id).unwrap().score, 8);
    let mut w2 = World::new();
    paddle(&mut w2, Side::Left, 10_000, 0, 0, false);
    let r2 = paddle(&mut w2, Side::Right, 400_000, 0, 8, false);
    ball(&mut w2, -10_000, 50_000, 0, 0);
    let mut sys2 = WinnerSystem;
    sys2.run(&mut w2);
    assert_eq!(w2.get_paddle(r2.id).unwrap().score, 9);
    assert_eq!(w2.get_won(r2.id), Some(Won(false)));
    // the ball is still out on the left: the next pass reaches ten and wins
    sys2.run(&mut w2);
    assert_eq!(w2.get_paddle(r2.id).unwrap().score, 10);
    assert_eq!(w2.get_won(r2.id), Some(Won(true)));
}

#[test]
fn serve_centers_the_ball_towards_the_conceder() {
    let mut w = World::new();
    paddle(&mut w, Side::Left, 10_000, 0, 0, true);
    paddle(&mut w, Side::Right, 400_000, 0, 0, false);
    let b = ball(&mut w, 0, 0, 0, 0);
    assert_eq!(read_serving_side(&w), Some(Side::Left));
    let _scene = ServeScene::new(&mut w);
    let p = w.get_position(b.id).unwrap();
    assert_eq!(p.x, VIRTUAL_WIDTH / 2 - 2_000);
    assert_eq!(p.y, VIRTUAL_HEIGHT / 2 - 2_000);
    let v = w.get_velocity(b.id).unwrap();
    assert!(180_000 <= v.x && v.x < 220_000);
    assert!(-50_000 <= v.y && v.y < 50_000);
}

#[test]
fn serve_flips_direction_for_the_right_server() {
    let mut w = World::new();
    paddle(&mut w, Side::Left, 10_000, 0, 0, false);
    paddle(&mut w, Side::Right, 400_000, 0, 0, true);
    let b = ball(&mut w, 0, 0, 0, 0);
    let _scene = ServeScene::new(&mut w);
    let v = w.get_velocity(b.id).unwrap();
    assert!(-220_000 < v.x && v.x <= -180_000);
}

#[test]
fn base_scene_sets_up_the_court() {
    let mut w = World::new();
    let scene = BaseScene::new(&mut w);
    assert!(!scene.done);
    assert_eq!(w.len(), 3);
    assert_eq!(read_serving_side(&w), Some(Side::Left));
    let mut balls = 0;
    let mut paddles = 0;
    for i in 0..w.len() {
        if w.get_ball(i).is_some() {
            balls += 1;
        }
        if w.get_paddle(i).is_some() {
            paddles += 1;
        }
    }
    assert_eq!(balls, 1);
    assert_eq!(paddles, 2);
}

#[test]
fn won_scene_resets_the_match_and_serves() {
    let mut w = World::new();
    let l = paddle(&mut w, Side::Left, 10_000, 0, 1, false);
    let r = w.create_entity(
        EntityBuilder::new()
            .with_paddle(Player { side: Side::Right, name: String::from("2"), score: 3 })
            .with_position(Position { x: 400_000, y: 0, z: 0 })
            .with_size(Size { w: 5_000, h: 20_000 })
            .with_scored(Scored(true))
            .with_won(Won(true))
            .with_serving(Serving(false)),
    );
    ball(&mut w, 0, 0, 0, 0);
    let mut input = InputState::new();
    input.update_button_down(Button::Enter.index());
    input.update();
    input.update_button_up(Button::Enter.index());
    let mut scene = WonScene::new();
    assert!(scene.draw_previous());
    let cmd = scene.update(&mut w, &input);
    assert!(matches!(cmd, arcade_core::scene::SceneSwitch::Replace(Scene::Serve(_))));
    assert_eq!(w.get_paddle(l.id).unwrap().score, 0);
    assert_eq!(w.get_paddle(r.id).unwrap().score, 0);
    assert_eq!(w.get_won(r.id), Some(Won(false)));
    assert_eq!(w.get_scored(r.id), Some(Scored(false)));
    // the loser serves the rematch
    assert_eq!(w.get_serving(l.id), Some(Serving(true)));
    assert_eq!(w.get_serving(r.id), Some(Serving(false)));
}

#[test]
fn full_match_start_to_won_and_back() {
    let mut w = World::new();
    let _court = BaseScene::new(&mut w);
    let mut input = InputState::new();
    let mut stack: SceneStack<Scene> = SceneStack::new();
    stack.push(Scene::Start(StartScene::new()), Vec::new());
    // confirm through start into the serve
    input.update_button_down(Button::Enter.index());
    arcade_core::pong::scenes::tick(&mut stack, &mut w, &mut input, STEP);
    input.update_button_up(Button::Enter.index());
    arcade_core::pong::scenes::tick(&mut stack, &mut w, &mut input, STEP);
    assert!(matches!(stack.current(), Scene::Serve(_)));
    // confirm again to begin play
    input.update_button_down(Button::Enter.index());
    arcade_core::pong::scenes::tick(&mut stack, &mut w, &mut input, STEP);
    input.update_button_up(Button::Enter.index());
    arcade_core::pong::scenes::tick(&mut stack, &mut w, &mut input, STEP);
    assert!(matches!(stack.current(), Scene::Play(_)));
    // let the rally run until someone scores and the serve scene returns
    let mut reached_serve = false;
    for _ in 0..10_000 {
        arcade_core::pong::scenes::tick(&mut stack, &mut w, &mut input, STEP);
        if matches!(stack.current(), Scene::Serve(_)) {
            reached_serve = true;
            break;
        }
    }
    assert!(reached_serve);
}
