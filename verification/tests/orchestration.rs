use gcs::{
    create_plateau, create_rover, get_plateau, get_rover, get_rover_n, get_rovers_count,
    list_plateaus, list_rovers, move_rover, Direction, Error, Motion, Plateau, Pose, Rover, Store,
};

fn seeded_store(plateau_line: &str, pose_line: &str) -> (Store, String, String) {
    let mut store = Store::new();
    let plateau = Plateau::parse(plateau_line).unwrap();
    let pid = plateau.id().to_string();
    create_plateau(plateau, &mut store).unwrap();
    let pose = Pose::parse(pose_line).unwrap();
    let rover = Rover::new(pose.x(), pose.y(), pose.facing());
    let rid = rover.id().to_string();
    create_rover(&pid, rover, &mut store).unwrap();
    (store, pid, rid)
}

#[test]
fn scenario_one_spins_and_advances() {
    let (mut store, pid, rid) = seeded_store("5 5", "1 2 N");
    let path = Motion::parse_path("LMLMLMLMM").unwrap();
    let moved = move_rover(&pid, &rid, path, &mut store).unwrap();
    assert_eq!(moved.pose().to_text(), "1 3 N");
    // the write is visible to a later read
    let reread = get_rover(&pid, &rid, &store).unwrap();
    assert_eq!(reread.pose().to_text(), "1 3 N");
}

#[test]
fn scenario_two_walks_to_corner() {
    let (mut store, pid, rid) = seeded_store("5 5", "3 3 E");
    let path = Motion::parse_path("MMRMMRMRRM").unwrap();
    let moved = move_rover(&pid, &rid, path, &mut store).unwrap();
    assert_eq!(moved.pose().to_text(), "5 1 E");
}

#[test]
fn scenario_three_clamps_at_origin() {
    let (mut store, pid, rid) = seeded_store("5 5", "0 0 S");
    let path = Motion::parse_path("M").unwrap();
    let moved = move_rover(&pid, &rid, path, &mut store).unwrap();
    assert_eq!(moved.pose().to_text(), "0 0 S");
}

#[test]
fn concurrent_moves_lose_one_update() {
    // Two requests race from the same prior state "2 2 N": each one alone
    // yields one of the two legal outcomes, and whichever write lands last
    // is the row that survives — never a state outside the two.
    let (mut store_a, pid_a, rid_a) = seeded_store("5 5", "2 2 N");
    let moved_a = move_rover(&pid_a, &rid_a, Motion::parse_path("M").unwrap(), &mut store_a)
        .unwrap();
    assert_eq!(moved_a.pose().to_text(), "2 3 N");

    let (mut store_b, pid_b, rid_b) = seeded_store("5 5", "2 2 N");
    let moved_b = move_rover(&pid_b, &rid_b, Motion::parse_path("L").unwrap(), &mut store_b)
        .unwrap();
    assert_eq!(moved_b.pose().to_text(), "2 2 W");

    // Serialised instead, both effects compose.
    let (mut store_c, pid_c, rid_c) = seeded_store("5 5", "2 2 N");
    move_rover(&pid_c, &rid_c, Motion::parse_path("M").unwrap(), &mut store_c).unwrap();
    let both = move_rover(&pid_c, &rid_c, Motion::parse_path("L").unwrap(), &mut store_c)
        .unwrap();
    assert_eq!(both.pose().to_text(), "2 3 W");
}

#[test]
fn move_rover_unknown_ids_are_not_found() {
    let (mut store, pid, rid) = seeded_store("5 5", "1 2 N");
    let stale = "00000000-0000-0000-0000-000000000000".to_string();
    let path = Motion::parse_path("M").unwrap();
    assert_eq!(move_rover(&pid, &stale, path, &mut store), Err(Error::NotFound));
    let path = Motion::parse_path("M").unwrap();
    assert_eq!(move_rover(&stale, &rid, path, &mut store), Err(Error::NotFound));
    // the failed moves changed nothing
    let unchanged = get_rover(&pid, &rid, &store).unwrap();
    assert_eq!(unchanged.pose().to_text(), "1 2 N");
}

#[test]
fn lookups_by_id() {
    let (store, pid, rid) = seeded_store("7 9", "1 2 N");
    let p = get_plateau(&pid, &store).unwrap();
    assert_eq!((p.x_max(), p.y_max()), (7, 9));
    let r = get_rover(&pid, &rid, &store).unwrap();
    assert_eq!(r.id(), rid);
    let stale = "00000000-0000-0000-0000-000000000000".to_string();
    assert_eq!(get_plateau(&stale, &store), Err(Error::NotFound));
    assert_eq!(get_rover(&stale, &rid, &store), Err(Error::NotFound));
    // a rover is only found under its own plateau
    let other = Plateau::new(1, 1);
    let other_pid = other.id().to_string();
    assert_eq!(get_rover(&other_pid, &rid, &store), Err(Error::NotFound));
}

#[test]
fn listings_come_newest_first() {
    let (mut store, pid, first_rid) = seeded_store("5 5", "0 0 N");
    let second = Rover::new(1, 1, Direction::East);
    let second_rid = second.id().to_string();
    create_rover(&pid, second, &mut store).unwrap();

    let listing = list_rovers(&pid, 50, &store).unwrap();
    assert_eq!(listing.0.len(), 2);
    assert_eq!(listing.0[0].id(), second_rid);
    assert_eq!(listing.0[1].id(), first_rid);

    let only_one = list_rovers(&pid, 1, &store).unwrap();
    assert_eq!(only_one.0.len(), 1);
    assert_eq!(only_one.0[0].id(), second_rid);

    assert_eq!(get_rovers_count(&pid, &store), Ok(2));

    let newest = get_rover_n(0, &pid, &store).unwrap();
    assert_eq!(newest.id(), second_rid);
    let older = get_rover_n(1, &pid, &store).unwrap();
    assert_eq!(older.id(), first_rid);
    assert_eq!(get_rover_n(2, &pid, &store), Err(Error::NotFound));
    assert_eq!(get_rover_n(-1, &pid, &store), Err(Error::NotFound));

    let plateaus = list_plateaus(50, &store).unwrap();
    assert_eq!(plateaus.0.len(), 1);
    assert_eq!(plateaus.0[0].id(), pid);
}

#[test]
fn count_is_per_plateau() {
    let (mut store, pid, _rid) = seeded_store("5 5", "0 0 N");
    let other = Plateau::new(3, 3);
    let other_pid = other.id().to_string();
    create_plateau(other, &mut store).unwrap();
    create_rover(&other_pid, Rover::new(1, 1, Direction::South), &mut store).unwrap();
    assert_eq!(get_rovers_count(&pid, &store), Ok(1));
    assert_eq!(get_rovers_count(&other_pid, &store), Ok(1));
}

#[test]
fn created_entities_keep_their_fields() {
    let mut store = Store::new();
    let plateau = Plateau::new(4, 6);
    let pid = plateau.id().to_string();
    let stored = create_plateau(plateau, &mut store).unwrap();
    assert_eq!(stored.id(), pid);
    assert_eq!((stored.x_max(), stored.y_max()), (4, 6));

    let rover = Rover::new(2, 3, Direction::West);
    let rid = rover.id().to_string();
    let stored = create_rover(&pid, rover, &mut store).unwrap();
    assert_eq!(stored.id(), rid);
    assert_eq!(stored.pose().to_text(), "2 3 W");
}

#[test]
fn moves_keep_identity_and_creation_time() {
    let mut store = Store::new();
    let plateau = Plateau::parse("5 5").unwrap();
    let pid = plateau.id().to_string();
    create_plateau(plateau, &mut store).unwrap();
    let rover = Rover::new(1, 2, Direction::North);
    let rid = rover.id().to_string();
    let created_at = rover.created_at;
    let stored = create_rover(&pid, rover, &mut store).unwrap();
    assert_eq!(stored.created_at, created_at);
    let path = Motion::parse_path("M").unwrap();
    let moved = move_rover(&pid, &rid, path, &mut store).unwrap();
    assert_eq!(moved.created_at, created_at);
    assert_eq!(moved.id(), rid);
    let reread = get_rover(&pid, &rid, &store).unwrap();
    assert_eq!(reread.created_at, created_at);
}
