use kaing::dot::{Dot, DotColor, PlacementError, TilePos};
use kaing::game::{
    game_result, is_winner, spawn_dot, Game, GamePlugin, GameState, MoveError, KAING_VALUE,
    TILEMAP_SIZE,
};
use kaing::grid::GridPlugin;

fn at(x: u32, y: u32) -> TilePos {
    TilePos { x, y }
}

#[test]
fn default_game_is_open_with_blue_to_move() {
    let g = Game::default();
    assert_eq!(g.dot_storage.size(), TILEMAP_SIZE);
    assert_eq!(g.k, KAING_VALUE);
    assert_eq!(g.dot_color, DotColor::BLUE);
    assert!(g.open);
    assert_eq!(g.state(), GameState::InGame);
    assert_eq!(GameState::default(), GameState::InGame);
    assert_eq!(game_result(&g), None);
}

#[test]
fn plugins_build_the_configured_game() {
    let plugin = GamePlugin { grid: GridPlugin { size: 5 }, align: 3 };
    let g = plugin.build();
    assert_eq!(g.dot_storage.size(), 5);
    assert_eq!(g.k, 3);
    assert_eq!(g.dot_storage.filled(), 0);
    let d = GamePlugin::default();
    assert_eq!(d.grid.size, 16);
    assert_eq!(d.align, 5);
    assert_eq!(GridPlugin::default().build().size(), 16);
}

#[test]
fn diagonal_of_three_wins_for_the_first_player() {
    let mut g = Game::new(5, 3);
    assert_eq!(spawn_dot(&mut g, at(0, 0)), Ok(()));
    assert_eq!(spawn_dot(&mut g, at(4, 0)), Ok(()));
    assert_eq!(spawn_dot(&mut g, at(1, 1)), Ok(()));
    assert_eq!(spawn_dot(&mut g, at(4, 1)), Ok(()));
    assert!(g.open);
    assert_eq!(spawn_dot(&mut g, at(2, 2)), Ok(()));
    assert!(!g.open);
    assert_eq!(g.state(), GameState::GameOver);
    assert_eq!(game_result(&g), Some(DotColor::BLUE));
    assert_eq!(g.dot_color, DotColor::BLUE);
    assert!(is_winner(&g));
}

#[test]
fn occupied_cell_leaves_board_and_turn_unchanged() {
    let mut g = Game::new(5, 3);
    assert_eq!(spawn_dot(&mut g, at(0, 0)), Ok(()));
    assert_eq!(spawn_dot(&mut g, at(0, 1)), Ok(()));
    assert_eq!(g.dot_color, DotColor::BLUE);
    assert_eq!(
        spawn_dot(&mut g, at(0, 0)),
        Err(MoveError::Placement(PlacementError::CellOccupied))
    );
    assert_eq!(g.dot_color, DotColor::BLUE);
    assert_eq!(g.dot_storage.filled(), 2);
    assert_eq!(
        *g.dot_storage.get(0, 0),
        Some(Dot { color: DotColor::BLUE, pos: at(0, 0) })
    );
    assert_eq!(
        *g.dot_storage.get(0, 1),
        Some(Dot { color: DotColor::RED, pos: at(0, 1) })
    );
}

#[test]
fn move_off_the_grid_is_out_of_bounds() {
    let mut g = Game::new(5, 3);
    assert_eq!(
        spawn_dot(&mut g, at(5, 0)),
        Err(MoveError::Placement(PlacementError::OutOfBounds))
    );
    assert_eq!(g.dot_color, DotColor::BLUE);
    assert_eq!(g.dot_storage.filled(), 0);
}

#[test]
fn full_board_without_line_stays_in_game() {
    let pattern = ["BBRRB", "RRBBR", "BBRRB", "RRBBR", "BBRRB"];
    let mut blue = Vec::new();
    let mut red = Vec::new();
    for (x, row) in pattern.iter().enumerate() {
        for (y, c) in row.chars().enumerate() {
            if c == 'B' {
                blue.push(at(x as u32, y as u32));
            } else {
                red.push(at(x as u32, y as u32));
            }
        }
    }
    assert_eq!(blue.len(), 13);
    let mut g = Game::new(5, 3);
    for i in 0..13 {
        assert_eq!(spawn_dot(&mut g, blue[i]), Ok(()));
        assert!(g.open);
        if i < 12 {
            assert_eq!(spawn_dot(&mut g, red[i]), Ok(()));
            assert!(g.open);
        }
    }
    assert_eq!(g.dot_storage.filled(), 25);
    assert_eq!(g.state(), GameState::InGame);
    assert_eq!(game_result(&g), None);
}

#[test]
fn closed_game_rejects_moves() {
    let mut g = Game::new(3, 1);
    assert_eq!(spawn_dot(&mut g, at(1, 1)), Ok(()));
    assert!(!g.open);
    assert_eq!(spawn_dot(&mut g, at(0, 0)), Err(MoveError::GameClosed));
    assert_eq!(spawn_dot(&mut g, at(9, 9)), Err(MoveError::GameClosed));
    assert_eq!(g.dot_storage.filled(), 1);
    assert!(g.dot_storage.get(0, 0).is_none());
}

#[test]
fn fill_grows_by_one_per_accepted_move() {
    let mut g = Game::new(4, 4);
    let moves = [at(0, 0), at(0, 0), at(1, 2), at(7, 1), at(3, 3), at(2, 1)];
    let mut expected: u32 = 0;
    for m in moves.iter() {
        let before = g.dot_storage.filled();
        let r = spawn_dot(&mut g, *m);
        if r.is_ok() {
            expected += 1;
            assert_eq!(g.dot_storage.filled(), before + 1);
        } else {
            assert_eq!(g.dot_storage.filled(), before);
        }
        assert!(g.dot_storage.filled() <= 16);
    }
    assert_eq!(g.dot_storage.filled(), expected);
    assert_eq!(expected, 4);
}

#[test]
fn turns_alternate_on_accepted_moves() {
    let mut g = Game::new(4, 3);
    assert_eq!(g.dot_color, DotColor::BLUE);
    spawn_dot(&mut g, at(0, 0)).unwrap();
    assert_eq!(g.dot_color, DotColor::RED);
    assert!(spawn_dot(&mut g, at(0, 0)).is_err());
    assert_eq!(g.dot_color, DotColor::RED);
    spawn_dot(&mut g, at(3, 3)).unwrap();
    assert_eq!(g.dot_color, DotColor::BLUE);
}

#[test]
fn turn_counts_pairs_of_moves() {
    let mut g = Game::new(4, 4);
    assert_eq!(g.get_turn(), 0);
    spawn_dot(&mut g, at(0, 0)).unwrap();
    assert_eq!(g.get_turn(), 1);
    spawn_dot(&mut g, at(0, 1)).unwrap();
    assert_eq!(g.get_turn(), 1);
    spawn_dot(&mut g, at(0, 2)).unwrap();
    assert_eq!(g.get_turn(), 2);
}

#[test]
fn next_player_flips_or_closes() {
    let mut g = Game::new(3, 2);
    g.next_player();
    assert_eq!(g.dot_color, DotColor::RED);
    assert!(g.open);
    let mut w = Game::new(3, 1);
    w.dot_storage.push(Dot { color: DotColor::BLUE, pos: at(2, 2) }).unwrap();
    w.next_player();
    assert!(!w.open);
    assert_eq!(w.dot_color, DotColor::BLUE);
}

#[test]
fn reset_starts_over_from_any_phase() {
    let mut g = Game::new(3, 1);
    spawn_dot(&mut g, at(1, 1)).unwrap();
    assert!(!g.open);
    g.reset();
    assert!(g.open);
    assert_eq!(g.dot_color, DotColor::BLUE);
    assert_eq!(g.dot_storage.filled(), 0);
    assert_eq!(g.dot_storage.size(), 3);
    assert_eq!(g.k, 1);
    assert!(g.dot_storage.get(1, 1).is_none());
}

#[test]
fn snapshot_does_not_follow_later_moves() {
    let mut g = Game::new(4, 3);
    spawn_dot(&mut g, at(1, 1)).unwrap();
    let s1 = g.snapshot();
    let s2 = g.snapshot();
    assert_eq!(s1.dot_color, s2.dot_color);
    assert_eq!(s1.dot_storage.filled(), s2.dot_storage.filled());
    spawn_dot(&mut g, at(2, 2)).unwrap();
    assert_eq!(s1.dot_storage.filled(), 1);
    assert!(s1.dot_storage.get(2, 2).is_none());
    assert_eq!(s1.dot_color, DotColor::RED);
}

#[test]
fn other_color_swaps() {
    assert_eq!(DotColor::RED.other(), DotColor::BLUE);
    assert_eq!(DotColor::BLUE.other(), DotColor::RED);
}
