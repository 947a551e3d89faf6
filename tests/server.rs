use grid_server::command::{decode, Command, Message};
use grid_server::entity::{encode_snapshot, Entity};
use grid_server::ids::IdAllocator;
use grid_server::registry::Registry;
use grid_server::store::{process_message, EntityStore};
use grid_server::world::World;

fn text(s: &str) -> Message {
    Message::Text(s.to_string())
}

#[test]
fn entity_json_at_origin() {
    assert_eq!(Entity::new(1).to_json(), "{\"position\":{\"x\":0,\"y\":0},\"id\":1}");
}

#[test]
fn entity_json_with_negative_coordinate() {
    let e = Entity { id: 42, pos: (-10, 250) };
    assert_eq!(e.to_json(), "{\"position\":{\"x\":-10,\"y\":250},\"id\":42}");
}

#[test]
fn entity_json_at_integer_limits() {
    let e = Entity { id: u32::MAX, pos: (i32::MIN, i32::MAX) };
    assert_eq!(
        e.to_json(),
        "{\"position\":{\"x\":-2147483648,\"y\":2147483647},\"id\":4294967295}"
    );
}

#[test]
fn empty_store_encodes_as_empty_array() {
    assert_eq!(encode_snapshot(&Vec::new()), "[]");
    let world: World<u8> = World::new();
    assert_eq!(encode_snapshot(&world.snapshot()), "[]");
}

#[test]
fn snapshot_encodes_every_entity_once() {
    let entities = vec![Entity { id: 1, pos: (10, 0) }, Entity { id: 3, pos: (0, -20) }];
    assert_eq!(
        encode_snapshot(&entities),
        "[{\"position\":{\"x\":10,\"y\":0},\"id\":1},{\"position\":{\"x\":0,\"y\":-20},\"id\":3}]"
    );
}

#[test]
fn decode_exact_commands() {
    assert_eq!(decode(&"right".to_string()), Command::Right);
    assert_eq!(decode(&"left".to_string()), Command::Left);
    assert_eq!(decode(&"up".to_string()), Command::Up);
    assert_eq!(decode(&"down".to_string()), Command::Down);
}

#[test]
fn decode_is_case_sensitive_and_exact() {
    assert_eq!(decode(&"Right".to_string()), Command::Ignored);
    assert_eq!(decode(&"right ".to_string()), Command::Ignored);
    assert_eq!(decode(&"".to_string()), Command::Ignored);
    assert_eq!(decode(&"jump".to_string()), Command::Ignored);
}

#[test]
fn commands_move_by_ten() {
    assert_eq!(Command::Right.apply((3, 4)), (13, 4));
    assert_eq!(Command::Left.apply((3, 4)), (-7, 4));
    assert_eq!(Command::Up.apply((3, 4)), (3, -6));
    assert_eq!(Command::Down.apply((3, 4)), (3, 14));
    assert_eq!(Command::Ignored.apply((3, 4)), (3, 4));
}

#[test]
fn moves_out_of_range_leave_position() {
    assert_eq!(Command::Right.apply((i32::MAX - 5, 0)), (i32::MAX - 5, 0));
    assert_eq!(Command::Left.apply((i32::MIN + 9, 0)), (i32::MIN + 9, 0));
    assert_eq!(Command::Up.apply((0, i32::MIN)), (0, i32::MIN));
    assert_eq!(Command::Down.apply((0, i32::MAX)), (0, i32::MAX));
    assert_eq!(Command::Right.apply((i32::MAX - 10, 0)), (i32::MAX, 0));
}

#[test]
fn id_allocator_counts_from_one() {
    let mut ids = IdAllocator::new();
    assert_eq!(ids.next(), Some(1));
    assert_eq!(ids.next(), Some(2));
    assert_eq!(ids.next(), Some(3));
}

#[test]
fn accepted_ids_are_distinct_and_never_reused() {
    let mut world: World<u8> = World::new();
    let mut seen = Vec::new();
    for h in 0..5u8 {
        seen.push(world.accept(h).unwrap());
    }
    world.teardown(seen[4]);
    seen.push(world.accept(9).unwrap());
    for i in 0..seen.len() {
        for j in 0..seen.len() {
            if i != j {
                assert_ne!(seen[i], seen[j]);
            }
        }
    }
    assert_eq!(seen, vec![1, 2, 3, 4, 5, 6]);
}

#[test]
fn new_entity_starts_at_origin() {
    let mut world: World<u8> = World::new();
    let id = world.accept(0).unwrap();
    assert_eq!(world.snapshot(), vec![Entity { id, pos: (0, 0) }]);
    assert!(world.is_connected(id));
}

#[test]
fn snapshot_after_three_accepts_has_three_entities() {
    let mut world: World<u8> = World::new();
    world.accept(10);
    world.accept(20);
    world.accept(30);
    let snap = world.snapshot();
    assert_eq!(snap.len(), 3);
    let ids: Vec<u32> = snap.iter().map(|e| e.id).collect();
    assert_eq!(ids, vec![1, 2, 3]);
    let b = world.begin_broadcast();
    assert_eq!(b.targets, vec![(1, 10), (2, 20), (3, 30)]);
}

#[test]
fn teardown_removes_entity_and_connection() {
    let mut world: World<u8> = World::new();
    let a = world.accept(1).unwrap();
    let b = world.accept(2).unwrap();
    world.teardown(a);
    assert!(!world.is_connected(a));
    assert!(world.is_connected(b));
    assert_eq!(world.snapshot(), vec![Entity { id: b, pos: (0, 0) }]);
    let broadcast = world.begin_broadcast();
    assert_eq!(broadcast.targets, vec![(b, 2)]);
    assert_eq!(broadcast.payload, "[{\"position\":{\"x\":0,\"y\":0},\"id\":2}]");
}

#[test]
fn teardown_of_unknown_id_changes_nothing() {
    let mut world: World<u8> = World::new();
    let a = world.accept(1).unwrap();
    world.teardown(77);
    assert!(world.is_connected(a));
    assert_eq!(world.snapshot().len(), 1);
}

#[test]
fn updates_on_different_ids_do_not_interfere() {
    let mut world: World<u8> = World::new();
    let a = world.accept(1).unwrap();
    let b = world.accept(2).unwrap();
    world.receive(a, &text("right"));
    world.receive(b, &text("up"));
    world.receive(a, &text("down"));
    world.receive(b, &text("left"));
    world.receive(b, &text("left"));
    assert_eq!(
        world.snapshot(),
        vec![Entity { id: a, pos: (10, 10) }, Entity { id: b, pos: (-20, -10) }]
    );
}

#[test]
fn non_text_and_unknown_messages_are_ignored() {
    let mut world: World<u8> = World::new();
    let a = world.accept(1).unwrap();
    world.receive(a, &Message::NonText);
    world.receive(a, &text("sideways"));
    assert_eq!(world.snapshot(), vec![Entity { id: a, pos: (0, 0) }]);
}

#[test]
fn message_for_removed_entity_is_dropped() {
    let mut world: World<u8> = World::new();
    let a = world.accept(1).unwrap();
    world.teardown(a);
    world.receive(a, &text("right"));
    assert!(world.snapshot().is_empty());
}

#[test]
fn end_to_end_right_then_down() {
    let mut world: World<u8> = World::new();
    let a = world.accept(5).unwrap();
    world.receive(a, &text("right"));
    world.receive(a, &text("down"));
    let broadcast = world.begin_broadcast();
    let expected = format!("{{\"position\":{{\"x\":10,\"y\":10}},\"id\":{}}}", a);
    assert!(broadcast.payload.contains(&expected));
    assert_eq!(broadcast.targets, vec![(a, 5)]);
}

#[test]
fn busy_connection_is_skipped_until_its_send_finishes() {
    let mut world: World<u8> = World::new();
    let a = world.accept(1).unwrap();
    let b = world.accept(2).unwrap();
    let first = world.begin_broadcast();
    assert_eq!(first.targets, vec![(a, 1), (b, 2)]);
    world.finish_send(b, Some(2));
    let second = world.begin_broadcast();
    assert_eq!(second.targets, vec![(b, 2)]);
    assert_eq!(first.payload, second.payload);
}

#[test]
fn failed_send_tears_connection_down() {
    let mut world: World<u8> = World::new();
    let a = world.accept(1).unwrap();
    let b = world.accept(2).unwrap();
    world.begin_broadcast();
    world.finish_send(a, None);
    assert!(!world.is_connected(a));
    assert_eq!(world.snapshot(), vec![Entity { id: b, pos: (0, 0) }]);
}

#[test]
fn handle_returned_after_teardown_is_discarded() {
    let mut world: World<u8> = World::new();
    let a = world.accept(1).unwrap();
    world.begin_broadcast();
    world.teardown(a);
    world.finish_send(a, Some(1));
    assert!(!world.is_connected(a));
    assert!(world.begin_broadcast().targets.is_empty());
}

#[test]
fn registry_check_out_and_check_in() {
    let mut reg: Registry<char> = Registry::new();
    reg.register(1, 'a');
    reg.register(4, 'b');
    assert_eq!(reg.check_out(4), Some('b'));
    assert_eq!(reg.check_out(4), None);
    assert_eq!(reg.check_out(9), None);
    assert!(reg.check_in(4, 'c'));
    assert!(!reg.check_in(9, 'd'));
    assert_eq!(reg.check_out_all(), vec![(1, 'a'), (4, 'c')]);
    reg.remove(1);
    assert!(!reg.contains(1));
    assert_eq!(reg.len(), 1);
}

#[test]
fn store_process_message_moves_only_its_entity() {
    let mut store = EntityStore::new();
    store.register(1);
    store.register(2);
    process_message(2, &text("left"), &mut store);
    assert_eq!(store.get(1), Some(Entity { id: 1, pos: (0, 0) }));
    assert_eq!(store.get(2), Some(Entity { id: 2, pos: (-10, 0) }));
    assert_eq!(store.get(3), None);
    store.remove(1);
    assert_eq!(store.snapshot(), vec![Entity { id: 2, pos: (-10, 0) }]);
}
