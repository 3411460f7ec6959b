use tank_game::engine::{
    board, destroy, init, join, join_at, move_, supply_all, supply_amount, supply_users,
    EngineError,
};
use tank_game::direction::DirError;
use tank_game::state::Store;

const GUILD: u64 = 11;
const ALICE: u64 = 101;
const BOB: u64 = 102;

fn fresh_game(width: u8, height: u8) -> Store {
    let mut store = Store::new();
    assert_eq!(init(&mut store, GUILD, "Game".to_string(), width, height), Ok(()));
    store
}

#[test]
fn init_rejects_undersized_boards() {
    let mut store = Store::new();
    assert_eq!(
        init(&mut store, GUILD, "Game".to_string(), 7, 16),
        Err(EngineError::TooSmall)
    );
    assert_eq!(
        init(&mut store, GUILD, "Game".to_string(), 16, 7),
        Err(EngineError::TooSmall)
    );
    assert!(store.get_game(GUILD).is_none());
}

#[test]
fn init_twice_fails_and_keeps_the_first_game() {
    let mut store = Store::new();
    assert_eq!(init(&mut store, GUILD, "First".to_string(), 10, 12), Ok(()));
    assert_eq!(
        init(&mut store, GUILD, "Second".to_string(), 16, 16),
        Err(EngineError::GameExists)
    );
    let g = store.get_game(GUILD).expect("the first game must remain");
    assert_eq!(g.name, "First");
    assert_eq!(g.width, 10);
    assert_eq!(g.height, 12);
}

#[test]
fn init_in_two_communities_is_independent() {
    let mut store = fresh_game(8, 8);
    assert_eq!(init(&mut store, GUILD + 1, "Other".to_string(), 9, 9), Ok(()));
    assert!(store.get_game(GUILD).is_some());
    assert!(store.get_game(GUILD + 1).is_some());
}

#[test]
fn join_at_creates_the_default_row_in_bounds() {
    let mut store = fresh_game(8, 8);
    assert_eq!(join_at(&mut store, GUILD, ALICE, 3, 0), Ok(()));
    let p = store.get_player(GUILD, ALICE).expect("joined");
    assert_eq!(p.health, 3);
    assert_eq!(p.actions, 0);
    assert_eq!(p.range, 1);
    assert_eq!((p.pos_x, p.pos_y), (3, 0));
    assert!(p.pos_x < 8 && p.pos_y < 8);
}

#[test]
fn join_at_rejects_a_second_row_for_the_same_user() {
    let mut store = fresh_game(8, 8);
    assert_eq!(join_at(&mut store, GUILD, ALICE, 1, 1), Ok(()));
    assert_eq!(
        join_at(&mut store, GUILD, ALICE, 2, 2),
        Err(EngineError::AlreadyJoined)
    );
    let p = store.get_player(GUILD, ALICE).unwrap();
    assert_eq!((p.pos_x, p.pos_y), (1, 1));
    assert_eq!(store.players_of(GUILD).len(), 1);
}

#[test]
fn join_at_rejects_cells_off_the_board() {
    let mut store = fresh_game(8, 8);
    assert_eq!(
        join_at(&mut store, GUILD, ALICE, 8, 0),
        Err(EngineError::OffBoard)
    );
    assert!(store.get_player(GUILD, ALICE).is_none());
}

#[test]
fn join_requires_a_game() {
    let mut store = Store::new();
    assert_eq!(join(&mut store, GUILD, ALICE), Err(EngineError::NoGame));
}

#[test]
fn join_places_randomly_within_bounds_with_defaults() {
    for _ in 0..16 {
        let mut store = fresh_game(8, 8);
        let (x, y) = join(&mut store, GUILD, ALICE).expect("join succeeds");
        assert!(x < 8 && y < 8);
        let p = store.get_player(GUILD, ALICE).unwrap();
        assert_eq!((p.pos_x, p.pos_y), (x, y));
        assert_eq!((p.health, p.actions, p.range), (3, 0, 1));
    }
}

#[test]
fn join_twice_fails() {
    let mut store = fresh_game(8, 8);
    assert!(join(&mut store, GUILD, ALICE).is_ok());
    assert_eq!(join(&mut store, GUILD, ALICE), Err(EngineError::AlreadyJoined));
}

#[test]
fn move_with_no_actions_changes_nothing() {
    let mut store = fresh_game(8, 8);
    assert_eq!(join_at(&mut store, GUILD, ALICE, 4, 4), Ok(()));
    assert_eq!(
        move_(&mut store, GUILD, ALICE, "north"),
        Err(EngineError::OutOfActions)
    );
    let p = store.get_player(GUILD, ALICE).unwrap();
    assert_eq!((p.pos_x, p.pos_y, p.actions), (4, 4, 0));
}

#[test]
fn move_into_a_wall_changes_nothing() {
    let mut store = fresh_game(8, 8);
    assert_eq!(join_at(&mut store, GUILD, ALICE, 0, 3), Ok(()));
    assert_eq!(supply_all(&mut store, GUILD, 2), Ok(()));
    assert_eq!(
        move_(&mut store, GUILD, ALICE, "west"),
        Err(EngineError::BlockedByWall)
    );
    let p = store.get_player(GUILD, ALICE).unwrap();
    assert_eq!((p.pos_x, p.pos_y, p.actions), (0, 3, 2));
}

#[test]
fn move_applies_the_offset_and_spends_one_action() {
    let mut store = fresh_game(8, 8);
    assert_eq!(join_at(&mut store, GUILD, ALICE, 4, 4), Ok(()));
    assert_eq!(supply_all(&mut store, GUILD, 3), Ok(()));
    assert_eq!(move_(&mut store, GUILD, ALICE, "ne"), Ok((5, 3)));
    let p = store.get_player(GUILD, ALICE).unwrap();
    assert_eq!((p.pos_x, p.pos_y, p.actions), (5, 3, 2));
}

#[test]
fn move_rejects_unknown_directions_and_missing_rows() {
    let mut store = Store::new();
    assert_eq!(
        move_(&mut store, GUILD, ALICE, "sideways"),
        Err(EngineError::InvalidDirection(DirError::Invalid))
    );
    assert_eq!(move_(&mut store, GUILD, ALICE, "n"), Err(EngineError::NoGame));
    assert_eq!(init(&mut store, GUILD, "Game".to_string(), 8, 8), Ok(()));
    assert_eq!(move_(&mut store, GUILD, ALICE, "n"), Err(EngineError::NotAPlayer));
}

#[test]
fn supply_amount_clamps_to_the_accepted_range() {
    assert_eq!(supply_amount(Some(5)), 5);
    assert_eq!(supply_amount(Some(9)), 9);
    assert_eq!(supply_amount(Some(-9)), -9);
    assert_eq!(supply_amount(Some(0)), 0);
    assert_eq!(supply_amount(Some(10)), 1);
    assert_eq!(supply_amount(Some(-10)), 1);
    assert_eq!(supply_amount(None), 1);
}

#[test]
fn supply_all_adds_exactly_the_delta_to_every_player() {
    let mut store = fresh_game(8, 8);
    assert_eq!(join_at(&mut store, GUILD, ALICE, 1, 1), Ok(()));
    assert_eq!(join_at(&mut store, GUILD, BOB, 2, 2), Ok(()));
    assert_eq!(supply_all(&mut store, GUILD, 4), Ok(()));
    assert_eq!(store.get_player(GUILD, ALICE).unwrap().actions, 4);
    assert_eq!(store.get_player(GUILD, BOB).unwrap().actions, 4);
    assert_eq!(supply_all(&mut store, GUILD, -3), Ok(()));
    assert_eq!(store.get_player(GUILD, ALICE).unwrap().actions, 1);
    assert_eq!(store.get_player(GUILD, BOB).unwrap().actions, 1);
}

#[test]
fn supply_all_requires_a_game() {
    let mut store = Store::new();
    assert_eq!(supply_all(&mut store, GUILD, 1), Err(EngineError::NoGame));
}

#[test]
fn supply_to_a_named_non_player_skips_without_creating_a_row() {
    let mut store = fresh_game(8, 8);
    assert_eq!(join_at(&mut store, GUILD, ALICE, 1, 1), Ok(()));
    let (updated, skipped) =
        supply_users(&mut store, GUILD, 2, &vec![ALICE, BOB]).expect("game exists");
    assert_eq!(updated, vec![ALICE]);
    assert_eq!(skipped, vec![BOB]);
    assert_eq!(store.get_player(GUILD, ALICE).unwrap().actions, 2);
    assert!(store.get_player(GUILD, BOB).is_none());
}

#[test]
fn supply_users_applies_duplicates_in_order() {
    let mut store = fresh_game(8, 8);
    assert_eq!(join_at(&mut store, GUILD, ALICE, 1, 1), Ok(()));
    let (updated, skipped) =
        supply_users(&mut store, GUILD, 3, &vec![ALICE, ALICE]).expect("game exists");
    assert_eq!(updated, vec![ALICE, ALICE]);
    assert!(skipped.is_empty());
    assert_eq!(store.get_player(GUILD, ALICE).unwrap().actions, 6);
}

#[test]
fn destroy_removes_the_game_and_all_its_players() {
    let mut store = fresh_game(8, 8);
    assert_eq!(join_at(&mut store, GUILD, ALICE, 1, 1), Ok(()));
    assert_eq!(join_at(&mut store, GUILD, BOB, 2, 2), Ok(()));
    assert_eq!(init(&mut store, GUILD + 1, "Other".to_string(), 9, 9), Ok(()));
    assert_eq!(join_at(&mut store, GUILD + 1, ALICE, 0, 0), Ok(()));
    assert_eq!(destroy(&mut store, GUILD), Ok("Game".to_string()));
    assert!(store.get_game(GUILD).is_none());
    assert!(store.get_player(GUILD, ALICE).is_none());
    assert!(store.get_player(GUILD, BOB).is_none());
    assert!(store.players_of(GUILD).is_empty());
    // The other community is untouched.
    assert!(store.get_game(GUILD + 1).is_some());
    assert!(store.get_player(GUILD + 1, ALICE).is_some());
}

#[test]
fn destroy_without_a_game_fails() {
    let mut store = Store::new();
    assert_eq!(destroy(&mut store, GUILD), Err(EngineError::NoGame));
}

#[test]
fn board_requires_a_game() {
    let store = Store::new();
    assert!(matches!(board(&store, GUILD), Err(EngineError::NoGame)));
}

#[test]
fn full_scenario_on_an_eight_by_eight_board() {
    let mut store = fresh_game(8, 8);
    assert_eq!(join_at(&mut store, GUILD, ALICE, 5, 0), Ok(()));
    let p = store.get_player(GUILD, ALICE).unwrap();
    assert_eq!((p.health, p.actions, p.range), (3, 0, 1));
    assert!(p.pos_x < 8 && p.pos_y < 8);
    assert_eq!(supply_all(&mut store, GUILD, 2), Ok(()));
    assert_eq!(store.get_player(GUILD, ALICE).unwrap().actions, 2);
    assert_eq!(
        move_(&mut store, GUILD, ALICE, "north"),
        Err(EngineError::BlockedByWall)
    );
    assert_eq!(move_(&mut store, GUILD, ALICE, "south"), Ok((5, 1)));
    let p = store.get_player(GUILD, ALICE).unwrap();
    assert_eq!((p.pos_x, p.pos_y), (5, 1));
    assert_eq!(p.actions, 1);
}
