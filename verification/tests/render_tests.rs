use arcade_core::components::{Position, Render};
use arcade_core::render::RenderSystem;
use arcade_core::world::{EntityBuilder, World};

fn renderable_at(w: &mut World, z: u32) -> arcade_core::world::Entity {
    w.create_entity(
        EntityBuilder::new()
            .with_render(Render { visible: true })
            .with_position(Position { x: 0, y: 0, z }),
    )
}

#[test]
fn draw_order_is_sorted_by_z_ascending() {
    let mut w = World::new();
    let e2 = renderable_at(&mut w, 2);
    let e0 = renderable_at(&mut w, 0);
    let e1 = renderable_at(&mut w, 1);
    let mut r = RenderSystem::new();
    r.sort_entities(&mut w);
    let order: Vec<u32> = r.draw_list().iter().map(|it| it.z).collect();
    assert_eq!(order, vec![0, 1, 2]);
    let ids: Vec<usize> = r.draw_list().iter().map(|it| it.entity.id).collect();
    assert_eq!(ids, vec![e0.id, e1.id, e2.id]);
}

#[test]
fn z_ties_break_by_entity_id() {
    let mut w = World::new();
    let a = renderable_at(&mut w, 5);
    let b = renderable_at(&mut w, 5);
    let c = renderable_at(&mut w, 1);
    let mut r = RenderSystem::new();
    r.sort_entities(&mut w);
    let ids: Vec<usize> = r.draw_list().iter().map(|it| it.entity.id).collect();
    assert_eq!(ids, vec![c.id, a.id, b.id]);
}

#[test]
fn mutating_z_triggers_a_resort() {
    let mut w = World::new();
    let a = renderable_at(&mut w, 0);
    let b = renderable_at(&mut w, 1);
    let mut r = RenderSystem::new();
    r.sort_entities(&mut w);
    assert!(!w.is_render_dirty());
    w.set_position(a.id, Position { x: 0, y: 0, z: 9 });
    assert!(w.is_render_dirty());
    r.sort_entities(&mut w);
    let ids: Vec<usize> = r.draw_list().iter().map(|it| it.entity.id).collect();
    assert_eq!(ids, vec![b.id, a.id]);
}

#[test]
fn moving_without_changing_z_keeps_the_cache_clean() {
    let mut w = World::new();
    let a = renderable_at(&mut w, 0);
    let mut r = RenderSystem::new();
    r.sort_entities(&mut w);
    w.set_position(a.id, Position { x: 55, y: 44, z: 0 });
    assert!(!w.is_render_dirty());
}

#[test]
fn invisible_and_bare_entities_are_not_drawn() {
    let mut w = World::new();
    let _plain = w.create_entity(EntityBuilder::new().with_position(Position { x: 0, y: 0, z: 0 }));
    let _hidden = w.create_entity(
        EntityBuilder::new()
            .with_render(Render { visible: false })
            .with_position(Position { x: 0, y: 0, z: 0 }),
    );
    let shown = renderable_at(&mut w, 3);
    let mut r = RenderSystem::new();
    r.sort_entities(&mut w);
    assert_eq!(r.draw_list().len(), 1);
    assert_eq!(r.draw_list()[0].entity.id, shown.id);
}

#[test]
fn deletion_invalidates_the_cache() {
    let mut w = World::new();
    let a = renderable_at(&mut w, 0);
    let b = renderable_at(&mut w, 1);
    let mut r = RenderSystem::new();
    r.sort_entities(&mut w);
    w.delete(a);
    w.commit();
    assert!(w.is_render_dirty());
    r.sort_entities(&mut w);
    let ids: Vec<usize> = r.draw_list().iter().map(|it| it.entity.id).collect();
    assert_eq!(ids, vec![b.id]);
}
