use arcade_core::components::{
    Dead, Parallax, Pipe, PipeAlignment, Player, Position, Score, Size, Velocity,
};
use arcade_core::flappy::input::Button;
use arcade_core::flappy::scenes::{
    create_stage, read_any_dead, read_final_score, CountdownScene, Scene, ScoreScene, TitleScene,
};
use arcade_core::scene::SceneSwitch;
use arcade_core::flappy::systems::{
    ParallaxSystem, PipeSystem, PlayerSystem, ScoreSystem, GRAVITY, JUMP_VELOCITY,
};
use arcade_core::input::InputState;
use arcade_core::scene::SceneStack;
use arcade_core::types::DeltaTime;
use arcade_core::util::u8_to_string;
use arcade_core::world::{EntityBuilder, World};

const DT: DeltaTime = DeltaTime { delta: 16 };

fn actor(w: &mut World, x: i64, y: i64, score: u8) -> arcade_core::world::Entity {
    w.create_entity(
        EntityBuilder::new()
            .with_player(Player)
            .with_position(Position { x, y, z: 0 })
            .with_size(Size { w: 10_000, h: 10_000 })
            .with_score(Score(score))
            .with_dead(Dead(false)),
    )
}

fn obstacle(w: &mut World, x: i64, y: i64, side: PipeAlignment) -> arcade_core::world::Entity {
    w.create_entity(
        EntityBuilder::new()
            .with_pipe(Pipe { scored: false, side })
            .with_position(Position { x, y, z: 0 })
            .with_size(Size { w: 10_000, h: 10_000 }),
    )
}

#[test]
fn passing_an_obstacle_scores_exactly_once() {
    // actor at pixel x=50, obstacle's right edge at pixel 30+10=40, unscored
    // top pipe far away vertically
    let mut w = World::new();
    let a = actor(&mut w, 50_000, 100_000, 0);
    let p = obstacle(&mut w, 30_000, 10_000_000, PipeAlignment::Top);
    let mut sys = ScoreSystem::new();
    sys.run(&mut w);
    assert_eq!(w.get_score(a.id), Some(Score(1)));
    assert_eq!(w.get_pipe(p.id).unwrap().scored, true);
    // a second tick with the actor further right must not score again
    w.set_position(a.id, Position { x: 80_000, y: 100_000, z: 0 });
    sys.run(&mut w);
    assert_eq!(w.get_score(a.id), Some(Score(1)));
}

#[test]
fn bottom_pipes_never_score() {
    let mut w = World::new();
    let a = actor(&mut w, 50_000, 100_000, 0);
    obstacle(&mut w, 30_000, 10_000_000, PipeAlignment::Bottom);
    let mut sys = ScoreSystem::new();
    sys.run(&mut w);
    assert_eq!(w.get_score(a.id), Some(Score(0)));
}

#[test]
fn overlapping_boxes_set_the_terminal_flag() {
    // actor box (100,100,10,10) against obstacle box (105,105,10,10), pixels
    let mut w = World::new();
    let a = actor(&mut w, 100_000, 100_000, 0);
    obstacle(&mut w, 105_000, 105_000, PipeAlignment::Bottom);
    let mut sys = ScoreSystem::new();
    sys.run(&mut w);
    assert_eq!(w.get_dead(a.id), Some(Dead(true)));
    assert!(read_any_dead(&w));
}

#[test]
fn separated_boxes_leave_the_actor_alive() {
    let mut w = World::new();
    let a = actor(&mut w, 100_000, 100_000, 0);
    obstacle(&mut w, 150_000, 150_000, PipeAlignment::Bottom);
    let mut sys = ScoreSystem::new();
    sys.run(&mut w);
    assert_eq!(w.get_dead(a.id), Some(Dead(false)));
}

#[test]
fn overlap_without_passage_kills_without_scoring() {
    // actor box (50,100,10,10) vs pipe (45,102,10,10), in pixels: their boxes
    // overlap beyond the hitbox inset, and the pipe's right edge (55) is not
    // left of the actor, so no point is scored
    let mut w = World::new();
    let a = actor(&mut w, 50_000, 100_000, 0);
    let p = obstacle(&mut w, 45_000, 102_000, PipeAlignment::Top);
    let mut sys = ScoreSystem::new();
    sys.run(&mut w);
    assert_eq!(w.get_dead(a.id), Some(Dead(true)));
    assert_eq!(w.get_pipe(p.id).unwrap().scored, false);
}

#[test]
fn passing_one_pipe_while_hitting_another_scores_then_dies() {
    // one already-passed pipe scores in the same tick in which a second pipe
    // kills: the point is awarded even on the dying tick
    let mut w = World::new();
    let a = actor(&mut w, 50_000, 100_000, 0);
    let passed = obstacle(&mut w, 30_000, 10_000_000, PipeAlignment::Top);
    obstacle(&mut w, 52_000, 102_000, PipeAlignment::Bottom);
    let mut sys = ScoreSystem::new();
    sys.run(&mut w);
    assert_eq!(w.get_score(a.id), Some(Score(1)));
    assert_eq!(w.get_pipe(passed.id).unwrap().scored, true);
    assert_eq!(w.get_dead(a.id), Some(Dead(true)));
}

#[test]
fn gravity_accumulates_and_jump_overrides() {
    let mut w = World::new();
    let a = w.create_entity(
        EntityBuilder::new()
            .with_player(Player)
            .with_position(Position { x: 0, y: 1000, z: 0 })
            .with_velocity(Velocity { x: 0, y: 0 }),
    );
    let mut sys = PlayerSystem;
    sys.run(&mut w, DT, false);
    let pull = GRAVITY * 16 / 1000;
    assert_eq!(w.get_velocity(a.id), Some(Velocity { x: 0, y: pull }));
    assert_eq!(w.get_position(a.id).unwrap().y, 1000 + pull);
    sys.run(&mut w, DT, true);
    assert_eq!(w.get_velocity(a.id), Some(Velocity { x: 0, y: JUMP_VELOCITY }));
    assert_eq!(w.get_position(a.id).unwrap().y, 1000 + pull + JUMP_VELOCITY);
}

#[test]
fn parallax_scrolls_and_wraps() {
    let mut w = World::new();
    let a = w.create_entity(
        EntityBuilder::new()
            .with_parallax(Parallax { speed: 30_000, looping_point: 568_000 })
            .with_position(Position { x: 0, y: 0, z: 0 }),
    );
    let mut sys = ParallaxSystem;
    let second = DeltaTime { delta: 1000 };
    sys.run(&mut w, second);
    assert_eq!(w.get_position(a.id).unwrap().x, -30_000);
    // scrolling far enough wraps at the looping point
    for _ in 0..19 {
        sys.run(&mut w, second);
    }
    // total displacement 20 * 30_000 = 600_000 = 568_000 + 32_000
    assert_eq!(w.get_position(a.id).unwrap().x, -32_000);
}

#[test]
fn spawner_fires_every_interval_within_one_tick() {
    let mut w = World::new();
    let mut sys = PipeSystem::new();
    let mut spawn_ticks: Vec<u32> = Vec::new();
    let mut tick_no: u32 = 0;
    let mut last_len = w.len();
    for _ in 0..400 {
        tick_no += 1;
        sys.run(&mut w, DT);
        if w.len() != last_len {
            assert_eq!(w.len(), last_len + 2); // always a pair
            spawn_ticks.push(tick_no);
            last_len = w.len();
        }
    }
    // a fresh spawner is due at once; then every ceil((2000+1)/16) = 126 ticks
    assert_eq!(spawn_ticks[0], 1);
    for k in 1..spawn_ticks.len() {
        assert_eq!(spawn_ticks[k] - spawn_ticks[k - 1], 126);
    }
    assert!(spawn_ticks.len() >= 3);
}

#[test]
fn spawned_pipes_sit_in_the_playable_band() {
    let mut w = World::new();
    let mut sys = PipeSystem::new();
    sys.run(&mut w, DT);
    assert_eq!(w.len(), 2);
    let top = w.get_position(0).unwrap();
    let bottom = w.get_position(1).unwrap();
    assert!(top.y >= -430_000 + 10_000);
    assert!(top.y <= 430_000 / 3);
    assert_eq!(bottom.y, top.y + 430_000 + 90_000);
    assert_eq!(w.get_pipe(0).unwrap().side, PipeAlignment::Top);
    assert_eq!(w.get_pipe(1).unwrap().side, PipeAlignment::Bottom);
}

#[test]
fn decimal_rendering_is_exact() {
    assert_eq!(u8_to_string(0), "0");
    assert_eq!(u8_to_string(7), "7");
    assert_eq!(u8_to_string(42), "42");
    assert_eq!(u8_to_string(137), "137");
    assert_eq!(u8_to_string(255), "255");
}

#[test]
fn title_enter_release_starts_the_countdown() {
    let mut w = World::new();
    let mut input = InputState::new();
    let mut stack: SceneStack<Scene> = SceneStack::new();
    let mut title = TitleScene::new();
    let owned = title.on_enter(&mut w);
    assert_eq!(owned.len(), 2);
    stack.push(Scene::Title(title), owned);
    // press and release the confirm button across two ticks
    input.update_button_down(Button::Enter.index());
    arcade_core::flappy::scenes::tick(&mut stack, &mut w, &mut input, DT);
    input.update_button_up(Button::Enter.index());
    arcade_core::flappy::scenes::tick(&mut stack, &mut w, &mut input, DT);
    assert_eq!(stack.len(), 1);
    assert!(matches!(stack.current(), Scene::Countdown(_)));
    // the title's two texts were deleted when it was replaced
    let mut live_texts = 0;
    for i in 0..w.len() {
        if w.alive(i) && w.get_text(i).is_some() {
            live_texts += 1;
        }
    }
    assert_eq!(live_texts, 1); // only the countdown's own text remains
}

#[test]
fn countdown_reaches_play_and_play_scores_stay_visible() {
    let mut w = World::new();
    let mut input = InputState::new();
    let mut stack: SceneStack<Scene> = SceneStack::new();
    let mut title = TitleScene::new();
    let owned = title.on_enter(&mut w);
    stack.push(Scene::Title(title), owned);
    input.update_button_down(Button::Enter.index());
    arcade_core::flappy::scenes::tick(&mut stack, &mut w, &mut input, DT);
    input.update_button_up(Button::Enter.index());
    arcade_core::flappy::scenes::tick(&mut stack, &mut w, &mut input, DT);
    assert!(matches!(stack.current(), Scene::Countdown(_)));
    // 3 steps of 750 ms at 16 ms per tick
    for _ in 0..145 {
        arcade_core::flappy::scenes::tick(&mut stack, &mut w, &mut input, DT);
    }
    assert!(matches!(stack.current(), Scene::Play(_)));
    assert_eq!(read_final_score(&w), 0);
}

#[test]
fn push_then_pop_resumes_the_scene_beneath_unchanged() {
    let mut w = World::new();
    let mut stack: SceneStack<Scene> = SceneStack::new();
    let c = CountdownScene::new(&mut w);
    let text = c.text;
    stack.push(Scene::Countdown(c), Vec::new());
    let r = stack.switch(SceneSwitch::Push(Scene::Score(ScoreScene::new(7))), &mut w);
    assert!(r.is_none());
    assert_eq!(stack.len(), 2);
    assert!(matches!(stack.current(), Scene::Score(_)));
    let popped = stack.switch(SceneSwitch::Pop, &mut w);
    match popped {
        Some(Scene::Score(sc)) => assert_eq!(sc.final_score, 7),
        _ => panic!("expected the score scene back"),
    }
    // the suspended countdown resumes with its state intact, never reset
    assert_eq!(stack.len(), 1);
    match stack.current() {
        Scene::Countdown(c2) => {
            assert_eq!(c2.count, 3);
            assert_eq!(c2.timer, 0);
            assert_eq!(c2.text, text);
        },
        _ => panic!("expected the countdown back"),
    }
}

#[test]
fn stage_layers_scroll_at_their_own_speeds() {
    let mut w = World::new();
    let (bg, ground) = create_stage(&mut w);
    let mut sys = ParallaxSystem;
    sys.run(&mut w, DeltaTime { delta: 1000 });
    assert_eq!(w.get_position(bg.id).unwrap().x, -30_000);
    assert_eq!(w.get_position(ground.id).unwrap().x, -60_000);
}

#[test]
fn grazing_contact_within_the_inset_is_forgiven() {
    // the boxes overlap by one thousandth of a pixel on x, less than the
    // two-pixel hitbox inset, so the actor survives
    let mut w = World::new();
    let a = actor(&mut w, 100_000, 100_000, 0);
    obstacle(&mut w, 109_500, 100_000, PipeAlignment::Bottom);
    let mut sys = ScoreSystem::new();
    sys.run(&mut w);
    assert_eq!(w.get_dead(a.id), Some(Dead(false)));
}
