use bevy::prelude::Entity;
use cell_sim::despawn::DelayedDespawnQueue;
use cell_sim::lifecycle::{
    begin_split, eat_food, second_child_allowed, CellCount, CellDespawnEvent, Dead, FoodDespawnEvent,
    MAX_CELL_COUNT,
};

#[test]
fn population_cap_is_two_thousand() {
    assert_eq!(MAX_CELL_COUNT, 2000);
}

#[test]
fn food_is_eaten_by_the_first_cell_only() {
    let food = Entity::from_raw(5);
    let alive = Dead(false);
    let mut eaten = Dead(false);
    let mut queue = DelayedDespawnQueue::new();
    assert_eq!(eat_food(&alive, &mut eaten, &mut queue, food), Some(FoodDespawnEvent(food)));
    assert_eq!(eaten, Dead(true));
    // a second cell probing the same item in the same tick gets nothing
    assert_eq!(eat_food(&alive, &mut eaten, &mut queue, food), None);
    assert_eq!(eaten, Dead(true));
    queue.despawn();
    assert_eq!(queue.despawn(), vec![food]);
}

#[test]
fn used_up_cell_eats_nothing() {
    let food = Entity::from_raw(5);
    let divided = Dead(true);
    let mut eaten = Dead(false);
    let mut queue = DelayedDespawnQueue::new();
    assert_eq!(eat_food(&divided, &mut eaten, &mut queue, food), None);
    assert_eq!(eaten, Dead(false));
    queue.despawn();
    assert_eq!(queue.despawn(), Vec::<Entity>::new());
}

#[test]
fn ripe_cell_divides_once() {
    let cell = Entity::from_raw(6);
    let mut dead = Dead(false);
    let mut queue = DelayedDespawnQueue::new();
    assert_eq!(begin_split(&mut dead, true, &mut queue, cell), Some(CellDespawnEvent(cell)));
    assert_eq!(dead, Dead(true));
    // still ripe in the same batch of ticks: the flag holds it back
    assert_eq!(begin_split(&mut dead, true, &mut queue, cell), None);
    assert_eq!(dead, Dead(true));
    queue.despawn();
    assert_eq!(queue.despawn(), vec![cell]);
}

#[test]
fn unripe_cell_does_not_divide() {
    let cell = Entity::from_raw(6);
    let mut dead = Dead(false);
    let mut queue = DelayedDespawnQueue::new();
    assert_eq!(begin_split(&mut dead, false, &mut queue, cell), None);
    assert_eq!(dead, Dead(false));
    queue.despawn();
    assert_eq!(queue.despawn(), Vec::<Entity>::new());
}

#[test]
fn second_child_spawns_only_below_the_cap() {
    assert!(second_child_allowed(&CellCount(0)));
    assert!(second_child_allowed(&CellCount(1999)));
    assert!(!second_child_allowed(&CellCount(2000)));
    assert!(!second_child_allowed(&CellCount(2001)));
    assert!(!CellCount(1999).at_capacity());
    assert!(CellCount(2000).at_capacity());
}

#[test]
fn cell_count_follows_spawns_and_despawns() {
    let mut count = CellCount(0);
    count.despawned();
    assert_eq!(count, CellCount(0));
    count.spawned();
    count.spawned();
    assert_eq!(count, CellCount(2));
    count.despawned();
    assert_eq!(count, CellCount(1));
    let mut full = CellCount(usize::MAX);
    full.spawned();
    assert_eq!(full, CellCount(usize::MAX));
}

#[test]
fn division_at_the_cap_leaves_one_child() {
    // 1999 cells and one of them divides: the parent goes, the first child
    // comes, and the count is back at 1999, so the second child may spawn.
    let mut count = CellCount(1999);
    count.despawned();
    count.spawned();
    assert!(second_child_allowed(&count));
    count.spawned();
    assert_eq!(count, CellCount(2000));
    // the next division finds the cap reached after its first child
    count.despawned();
    count.spawned();
    assert!(!second_child_allowed(&count));
}
