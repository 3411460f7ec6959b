use tank_game::engine::{board, init, join_at, supply_all};
use tank_game::render::{image_dims, render_plan, DrawCmd, Paint};
use tank_game::state::{GamePlayer, GameServer, Store};

const GUILD: u64 = 7;

fn game(width: u8, height: u8) -> GameServer {
    GameServer { guild_id: GUILD, name: "Game".to_string(), width, height }
}

fn player(user_id: u64, x: u8, y: u8, health: u8, actions: u8, range: u8) -> GamePlayer {
    GamePlayer { guild_id: GUILD, user_id, pos_x: x, pos_y: y, health, actions, range }
}

fn white() -> Paint {
    Paint { red: 255, green: 255, blue: 255, opacity_pct: 100 }
}

fn black() -> Paint {
    Paint { red: 0, green: 0, blue: 0, opacity_pct: 100 }
}

#[test]
fn image_dims_are_one_past_the_tiles() {
    assert_eq!(image_dims(8, 8), (201, 201));
    assert_eq!(image_dims(16, 10), (401, 251));
    assert_eq!(image_dims(255, 255), (6376, 6376));
}

#[test]
fn empty_board_is_background_and_grid() {
    let cmds = render_plan(&game(8, 8), &vec![]);
    // One background rectangle, nine vertical and nine horizontal lines.
    assert_eq!(cmds.len(), 1 + 9 + 9);
    assert_eq!(
        cmds[0],
        DrawCmd::Rect { x0: 0, y0: 0, x1: 200, y1: 200, paint: white() }
    );
    assert_eq!(
        cmds[1],
        DrawCmd::Line { x0: 0, y0: 0, x1: 0, y1: 200, paint: black() }
    );
    assert_eq!(
        cmds[9],
        DrawCmd::Line { x0: 200, y0: 0, x1: 200, y1: 200, paint: black() }
    );
    assert_eq!(
        cmds[10],
        DrawCmd::Line { x0: 0, y0: 0, x1: 200, y1: 0, paint: black() }
    );
    assert_eq!(
        cmds[18],
        DrawCmd::Line { x0: 0, y0: 200, x1: 200, y1: 200, paint: black() }
    );
}

#[test]
fn one_player_gets_an_overlay_a_marker_and_two_labels() {
    let cmds = render_plan(&game(8, 8), &vec![player(1, 2, 3, 3, 0, 1)]);
    assert_eq!(cmds.len(), 19 + 1 + 3);
    // Range 1 overlay: half-width 25 + 8 around the cell center (62, 87).
    assert_eq!(
        cmds[19],
        DrawCmd::Rect {
            x0: 62 - 33,
            y0: 87 - 33,
            x1: 62 + 33,
            y1: 87 + 33,
            paint: Paint { red: 196, green: 196, blue: 196, opacity_pct: 25 },
        }
    );
    // Full health: a green circle at the cell center.
    assert_eq!(
        cmds[20],
        DrawCmd::Circle {
            cx: 62,
            cy: 87,
            radius: 8,
            paint: Paint { red: 0, green: 196, blue: 0, opacity_pct: 100 },
        }
    );
    // Index label 0, nudged right because it is a single digit.
    assert_eq!(cmds[21], DrawCmd::Label { value: 0, x: 58, y: 77 });
    // Action label 0, nudged the same way, at the vertical middle.
    assert_eq!(cmds[22], DrawCmd::Label { value: 0, x: 58, y: 88 });
}

#[test]
fn wider_ranges_are_painted_before_narrower_ones() {
    let ps = vec![
        player(1, 1, 1, 3, 0, 1),
        player(2, 3, 3, 3, 0, 3),
        player(3, 5, 5, 3, 0, 2),
    ];
    let cmds = render_plan(&game(8, 8), &ps);
    let overlays: Vec<&DrawCmd> = cmds
        .iter()
        .filter(|c| matches!(c, DrawCmd::Rect { paint, .. } if paint.opacity_pct == 25))
        .collect();
    assert_eq!(overlays.len(), 3);
    // Tier 3 first (red), then tier 2 (yellow), then tier 1 (gray).
    assert!(matches!(
        overlays[0],
        DrawCmd::Rect { paint: Paint { red: 196, green: 0, blue: 0, .. }, .. }
    ));
    assert!(matches!(
        overlays[1],
        DrawCmd::Rect { paint: Paint { red: 196, green: 196, blue: 0, .. }, .. }
    ));
    assert!(matches!(
        overlays[2],
        DrawCmd::Rect { paint: Paint { red: 196, green: 196, blue: 196, .. }, .. }
    ));
}

#[test]
fn two_digit_labels_are_not_nudged() {
    let cmds = render_plan(&game(8, 8), &vec![player(1, 0, 0, 2, 12, 1)]);
    let labels: Vec<&DrawCmd> = cmds
        .iter()
        .filter(|c| matches!(c, DrawCmd::Label { .. }))
        .collect();
    assert_eq!(labels.len(), 2);
    assert_eq!(*labels[0], DrawCmd::Label { value: 0, x: 8, y: 2 });
    assert_eq!(*labels[1], DrawCmd::Label { value: 12, x: 2, y: 13 });
}

#[test]
fn out_of_palette_health_draws_no_circle() {
    let cmds = render_plan(&game(8, 8), &vec![player(1, 0, 0, 9, 0, 1)]);
    assert!(cmds.iter().all(|c| !matches!(c, DrawCmd::Circle { .. })));
    // The overlay and both labels are still drawn.
    assert_eq!(cmds.len(), 19 + 1 + 2);
}

#[test]
fn health_palette_matches_the_tiers() {
    for (health, want) in [
        (0u8, Paint { red: 196, green: 196, blue: 196, opacity_pct: 50 }),
        (1u8, Paint { red: 196, green: 0, blue: 0, opacity_pct: 100 }),
        (2u8, Paint { red: 196, green: 196, blue: 0, opacity_pct: 100 }),
        (3u8, Paint { red: 0, green: 196, blue: 0, opacity_pct: 100 }),
    ] {
        let cmds = render_plan(&game(8, 8), &vec![player(1, 0, 0, health, 0, 1)]);
        let circle = cmds
            .iter()
            .find(|c| matches!(c, DrawCmd::Circle { .. }))
            .expect("a circle for a palette health");
        assert!(matches!(circle, DrawCmd::Circle { paint, .. } if *paint == want));
    }
}

#[test]
fn board_snapshot_is_sorted_by_user_even_when_joins_come_out_of_order() {
    let mut store = Store::new();
    assert_eq!(init(&mut store, GUILD, "Game".to_string(), 8, 8), Ok(()));
    assert_eq!(join_at(&mut store, GUILD, 9, 1, 1), Ok(()));
    assert_eq!(join_at(&mut store, GUILD, 4, 2, 2), Ok(()));
    assert_eq!(join_at(&mut store, GUILD, 7, 3, 3), Ok(()));
    let (_, snapshot) = board(&store, GUILD).expect("game exists");
    let ids: Vec<u64> = snapshot.iter().map(|p| p.user_id).collect();
    assert_eq!(ids, vec![4, 7, 9]);
    // The display index labels follow that order: user 4 is marker 0 at
    // cell (2, 2), so label 0 sits in that cell's corner.
    let (cmds, _) = board(&store, GUILD).expect("game exists");
    assert!(cmds.contains(&DrawCmd::Label { value: 0, x: 2 * 25 + 2 + 6, y: 2 * 25 + 2 }));
    assert!(cmds.contains(&DrawCmd::Label { value: 2, x: 1 * 25 + 2 + 6, y: 1 * 25 + 2 }));
}

#[test]
fn board_composes_the_snapshot_of_one_community() {
    let mut store = Store::new();
    assert_eq!(init(&mut store, GUILD, "Game".to_string(), 8, 8), Ok(()));
    assert_eq!(join_at(&mut store, GUILD, 1, 2, 3), Ok(()));
    assert_eq!(join_at(&mut store, GUILD, 2, 4, 5), Ok(()));
    assert_eq!(init(&mut store, GUILD + 1, "Other".to_string(), 9, 9), Ok(()));
    assert_eq!(join_at(&mut store, GUILD + 1, 3, 0, 0), Ok(()));
    assert_eq!(supply_all(&mut store, GUILD, 2), Ok(()));
    let (cmds, snapshot) = board(&store, GUILD).expect("game exists");
    assert_eq!(snapshot.len(), 2);
    assert_eq!(snapshot[0].user_id, 1);
    assert_eq!(snapshot[1].user_id, 2);
    assert!(snapshot.iter().all(|p| p.guild_id == GUILD && p.actions == 2));
    let direct = render_plan(&store.get_game(GUILD).unwrap(), &snapshot);
    assert_eq!(cmds, direct);
}
