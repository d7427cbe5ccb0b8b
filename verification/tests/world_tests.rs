use arcade_core::components::{Position, Render, Score, Velocity};
use arcade_core::world::{EntityBuilder, World};

#[test]
fn builder_attaches_components() {
    let mut w = World::new();
    let e = w.create_entity(
        EntityBuilder::new()
            .with_position(Position { x: 3, y: 4, z: 5 })
            .with_velocity(Velocity { x: -1, y: 2 })
            .with_score(Score(9)),
    );
    assert!(w.valid(e));
    assert_eq!(w.get_position(e.id), Some(Position { x: 3, y: 4, z: 5 }));
    assert_eq!(w.get_velocity(e.id), Some(Velocity { x: -1, y: 2 }));
    assert_eq!(w.get_score(e.id), Some(Score(9)));
    assert_eq!(w.get_render(e.id), None);
}

#[test]
fn deletion_is_deferred_until_commit() {
    let mut w = World::new();
    let e = w.create_entity(EntityBuilder::new().with_score(Score(7)));
    w.delete(e);
    // the request is buffered: the component still reads its value
    assert!(w.valid(e));
    assert_eq!(w.get_score(e.id), Some(Score(7)));
    w.commit();
    assert!(!w.valid(e));
    assert_eq!(w.get_score(e.id), None);
}

#[test]
fn deleting_twice_before_commit_removes_once() {
    let mut w = World::new();
    let a = w.create_entity(EntityBuilder::new().with_score(Score(1)));
    let b = w.create_entity(EntityBuilder::new().with_score(Score(2)));
    w.delete(a);
    w.delete(a);
    w.commit();
    // exactly one removal happened: `b` is untouched and `a` is gone
    assert!(!w.valid(a));
    assert!(w.valid(b));
    let mut live = 0;
    for i in 0..w.len() {
        if w.alive(i) {
            live += 1;
        }
    }
    assert_eq!(live, 1);
}

#[test]
fn deleting_a_stale_handle_fails_silently() {
    let mut w = World::new();
    let a = w.create_entity(EntityBuilder::new().with_score(Score(1)));
    w.delete(a);
    w.commit();
    w.delete(a); // stale: must be ignored
    w.commit();
    assert_eq!(w.len(), 1);
}

#[test]
fn recycled_id_bumps_generation() {
    let mut w = World::new();
    let a = w.create_entity(EntityBuilder::new().with_score(Score(1)));
    w.delete(a);
    w.commit();
    let b = w.create_entity(EntityBuilder::new().with_score(Score(2)));
    // the id is recycled, the generation is bumped, the stale handle is dead
    assert_eq!(b.id, a.id);
    assert!(b.gen > a.gen);
    assert!(!w.valid(a));
    assert!(w.valid(b));
    assert_eq!(w.get_score(b.id), Some(Score(2)));
}

#[test]
fn commit_marks_draw_order_dirty() {
    let mut w = World::new();
    let e = w.create_entity(EntityBuilder::new().with_render(Render { visible: true }));
    assert!(w.is_render_dirty());
    w.clear_render_dirty();
    w.delete(e);
    assert!(!w.is_render_dirty());
    w.commit();
    assert!(w.is_render_dirty());
}

#[test]
fn fixed_step_hands_out_exactly_the_elapsed_ticks() {
    let mut clock = arcade_core::util::FixedStep::new(16);
    clock.advance(50);
    let mut ticks = 0;
    while clock.should_tick() {
        ticks += 1;
    }
    assert_eq!(ticks, 3); // 50 ms banks three 16 ms steps, 2 ms stay banked
    clock.advance(14);
    assert!(clock.should_tick());
    assert!(!clock.should_tick());
}
