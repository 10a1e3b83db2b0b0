use daleks::enums::{GameState, ObjectType, PlayerCommand};
use daleks::game::{Game, MoveRobotsResult};
use daleks::options::Options;
use daleks::profiles::Profiles;

/// Reads an arena from a picture: `@` the player, `+` a slow robot, `#` a
/// fast one, `*` a heap, `.` nothing.
fn picture(rows: &[&str]) -> (usize, usize, Vec<ObjectType>) {
    let height = rows.len();
    let width = rows[0].chars().count();
    let mut cells = Vec::new();
    for row in rows {
        assert_eq!(row.chars().count(), width);
        for c in row.chars() {
            cells.push(match c {
                '@' => ObjectType::Player,
                '+' => ObjectType::Robot1,
                '#' => ObjectType::Robot2,
                '*' => ObjectType::Heap,
                '.' => ObjectType::Empty,
                _ => panic!("unknown cell {}", c),
            });
        }
    }
    (width, height, cells)
}

fn game_with(options: &Options, rows: &[&str]) -> Game {
    let (width, height, cells) = picture(rows);
    Game::with_arena(options, width, height, cells).unwrap()
}

fn game_of(rows: &[&str]) -> Game {
    game_with(&Options::default(), rows)
}

fn shows(game: &Game, rows: &[&str]) -> bool {
    let (width, height, cells) = picture(rows);
    game.arena_size() == (width, height) && *game.arena() == cells
}

fn count(game: &Game, what: ObjectType) -> usize {
    game.arena().iter().filter(|&&c| c == what).count()
}

#[test]
fn new_result_is_blank() {
    let result = MoveRobotsResult::new();
    assert!(!result.dead);
    assert_eq!(result.score, 0);
    assert_eq!(result.kills, 0);
}

#[test]
fn robot_next_to_player_catches_them() {
    // 3x3 arena, player in the middle, one slow robot in a corner, no safe
    // moves, the player stays.
    let mut game = game_of(&["+..", ".@.", "..."]);
    let mut kills = 0;
    let moved = game.player_move_k(0, 0, false, &mut kills);
    assert!(moved);
    assert_eq!(game.state(), GameState::Dead);
    assert_eq!(kills, 0);
    assert_eq!(game.score(), 0);
    assert_eq!(game.player_position(), (1, 1));
    // the robot is gone from its cell and the player's marker stays
    assert!(shows(&game, &["...", ".@.", "..."]));
}

#[test]
fn player_stepping_onto_robot_is_caught() {
    let mut game = game_of(&["@+..."]);
    let moved = game.player_move(1, 0, false);
    assert!(moved);
    assert_eq!(game.state(), GameState::Dead);
    assert_eq!(game.score(), 0);
    assert!(shows(&game, &[".@..."]));
}

#[test]
fn safe_moves_refuse_a_deadly_move() {
    let mut options = Options::default();
    options.safe_moves = true;
    let mut game = game_with(&options, &["+..", ".@.", "..."]);
    let done = game.player_command(PlayerCommand::Stay);
    assert!(!done);
    assert_eq!(game.state(), GameState::Playing);
    assert!(shows(&game, &["+..", ".@.", "..."]));
    assert_eq!(game.score(), 0);
}

#[test]
fn unsafe_moves_allow_a_deadly_move() {
    let mut options = Options::default();
    options.safe_moves = false;
    let mut game = game_with(&options, &["+..", ".@.", "..."]);
    let done = game.player_command(PlayerCommand::Stay);
    assert!(done);
    assert_eq!(game.state(), GameState::Dead);
}

#[test]
fn refused_unsafe_move_leaves_the_kills_alone() {
    // two robots collide and a third one catches the player: with safe
    // moves the turn does not happen, and nothing of it is kept
    let mut game = game_of(&["+.+", "...", "+@."]);
    let mut kills = 5;
    let moved = game.player_move_k(0, 0, true, &mut kills);
    assert!(!moved);
    assert_eq!(kills, 5);
    assert_eq!(game.score(), 0);
    assert!(shows(&game, &["+.+", "...", "+@."]));
    assert_eq!(game.state(), GameState::Playing);
    // without safe moves the turn happens and the kill weight counts
    let moved = game.player_move_k(0, 0, false, &mut kills);
    assert!(moved);
    assert_eq!(kills, 7);
    assert_eq!(game.score(), 20);
    assert_eq!(game.state(), GameState::Dead);
}

#[test]
fn fast_robot_reaches_player_two_cells_away() {
    let mut game = game_of(&["#.@.."]);
    let moved = game.player_move(0, 0, false);
    assert!(moved);
    assert_eq!(game.state(), GameState::Dead);
}

#[test]
fn slow_robot_needs_two_turns_for_two_cells() {
    let mut game = game_of(&["+.@.."]);
    assert!(game.player_move(0, 0, false));
    assert_eq!(game.state(), GameState::Playing);
    assert!(shows(&game, &[".+@.."]));
    assert!(game.player_move(0, 0, false));
    assert_eq!(game.state(), GameState::Dead);
}

#[test]
fn fast_robot_steps_twice_towards_a_far_player() {
    let mut game = game_of(&["#.....", "......", "......", ".....@"]);
    assert!(game.player_move(0, 0, false));
    assert!(shows(&game, &["......", "......", "..#...", ".....@"]));
    assert_eq!(game.state(), GameState::Playing);
}

#[test]
fn slow_robot_steps_once_on_each_axis() {
    let mut game = game_of(&["+.....", "......", "......", ".....@"]);
    assert!(game.player_move(0, 0, false));
    assert!(shows(&game, &["......", ".+....", "......", ".....@"]));
    let mut game = game_of(&["..+...", "......", "......", "..@..."]);
    assert!(game.player_move(0, 0, false));
    assert!(shows(&game, &["......", "..+...", "......", "..@..."]));
}

#[test]
fn move_into_the_border_changes_nothing() {
    let rows = ["@..", "...", "..+"];
    for (dx, dy) in [(-1, 0), (0, -1), (-1, -1), (1, -1), (-1, 1)] {
        let mut game = game_of(&rows);
        let mut kills = 3;
        assert!(!game.player_move_k(dx, dy, false, &mut kills));
        assert!(shows(&game, &rows));
        assert_eq!(game.player_position(), (0, 0));
        assert_eq!(game.state(), GameState::Playing);
        assert_eq!(game.score(), 0);
        assert_eq!(kills, 3);
    }
    let rows = ["+..", "...", "..@"];
    for (dx, dy) in [(1, 0), (0, 1), (1, 1), (1, -1), (-1, 1)] {
        let mut game = game_of(&rows);
        assert!(!game.player_move(dx, dy, false));
        assert!(shows(&game, &rows));
    }
}

#[test]
fn border_command_is_not_carried_out() {
    let mut game = game_of(&["@..", "...", "..+"]);
    assert!(!game.player_command(PlayerCommand::N));
    assert!(!game.player_command(PlayerCommand::W));
    assert!(shows(&game, &["@..", "...", "..+"]));
}

#[test]
fn player_moves_in_all_directions() {
    let commands = [
        (PlayerCommand::NW, (0, 0)),
        (PlayerCommand::N, (1, 0)),
        (PlayerCommand::NE, (2, 0)),
        (PlayerCommand::W, (0, 1)),
        (PlayerCommand::Stay, (1, 1)),
        (PlayerCommand::E, (2, 1)),
        (PlayerCommand::SW, (0, 2)),
        (PlayerCommand::S, (1, 2)),
        (PlayerCommand::SE, (2, 2)),
    ];
    for (command, at) in commands {
        let mut game = game_of(&["...", ".@.", "..."]);
        assert!(game.player_command(command));
        assert_eq!(game.player_position(), at);
        assert_eq!(game.cell(at.0, at.1), ObjectType::Player);
        assert_eq!(count(&game, ObjectType::Player), 1);
        // no robot is left, so the level is won
        assert_eq!(game.state(), GameState::LevelComplete);
    }
}

#[test]
fn pushing_a_row_of_heaps() {
    let mut game = game_of(&["@**...+", "......."]);
    assert!(game.player_move(1, 0, false));
    assert!(shows(&game, &[".@**.+.", "......."]));
    assert_eq!(game.player_position(), (1, 0));
    assert_eq!(game.score(), 0);
}

#[test]
fn pushing_a_single_heap_diagonally() {
    let mut game = game_of(&["@...", ".*..", "....", "...+"]);
    assert!(game.player_move(1, 1, false));
    assert!(shows(&game, &["....", ".@..", "..*.", "...."]));
    // the robot has walked into the heap that was pushed towards it
    assert_eq!(game.state(), GameState::LevelComplete);
}

#[test]
fn row_of_heaps_at_the_border_does_not_move() {
    let rows = ["+....", "..@**"];
    let mut game = game_of(&rows);
    let mut kills = 0;
    assert!(!game.player_move_k(1, 0, false, &mut kills));
    assert!(shows(&game, &rows));
    assert_eq!(kills, 0);
    assert_eq!(game.player_position(), (2, 1));
}

#[test]
fn heaps_do_not_move_when_they_may_not() {
    let mut options = Options::default();
    options.moveable_heaps = false;
    let rows = ["@*..+"];
    let mut game = game_with(&options, &rows);
    assert!(!game.player_move(1, 0, false));
    assert!(shows(&game, &rows));
    options.moveable_heaps = true;
    let mut game = game_with(&options, &rows);
    assert!(game.player_move(1, 0, false));
    assert!(shows(&game, &[".@*+."]));
}

#[test]
fn classic_profile_does_not_push() {
    let mut options = Options::default();
    options.set_profile(Profiles::Classic);
    let mut game = game_with(&options, &["@*..+"]);
    assert!(!game.player_command(PlayerCommand::E));
    assert!(shows(&game, &["@*..+"]));
}

#[test]
fn heap_pushed_onto_a_robot_splats_it() {
    let mut game = game_of(&["@*+.....", "........", "........", "........", ".......#"]);
    let mut kills = 0;
    assert!(game.player_move_k(1, 0, false, &mut kills));
    assert!(shows(&game, &[".@*.....", "........", ".....#..", "........", "........"]));
    // the splatted score of a slow robot, and no kill weight
    assert_eq!(game.score(), 20);
    assert_eq!(kills, 0);
    assert_eq!(game.state(), GameState::Playing);
}

#[test]
fn heap_pushed_onto_a_fast_robot_pays_its_splatted_score() {
    let mut game = game_of(&["@*#.."]);
    assert!(game.player_move(1, 0, false));
    assert!(shows(&game, &[".@*.."]));
    assert_eq!(game.score(), 40);
    assert_eq!(game.state(), GameState::LevelComplete);
}

#[test]
fn try_push_heap_on_a_plain_arena() {
    let game = game_of(&["@....", "....."]);
    let (_, _, mut cells) = picture(&["**...", "....."]);
    assert!(game.try_push_heap(&mut cells, 0, 0, 1, 0));
    assert_eq!(cells, picture(&[".**..", "....."]).2);
    // downwards, one heap
    assert!(game.try_push_heap(&mut cells, 1, 0, 0, 1));
    assert_eq!(cells, picture(&["..*..", ".*..."]).2);
    // against the border: nothing moves
    let before = cells.clone();
    assert!(!game.try_push_heap(&mut cells, 1, 1, 0, 1));
    assert_eq!(cells, before);
    assert!(!game.try_push_heap(&mut cells, 1, 1, -1, 1));
    assert_eq!(cells, before);
}

#[test]
fn try_push_heap_is_stopped_by_anything_but_a_free_cell() {
    let game = game_of(&["@...."]);
    for blocker in ["**+..", "**#..", "**@.."] {
        let (_, _, mut cells) = picture(&[blocker]);
        let before = cells.clone();
        assert!(!game.try_push_heap(&mut cells, 0, 0, 1, 0));
        assert_eq!(cells, before);
    }
    let (_, _, mut cells) = picture(&["***.+"]);
    assert!(game.try_push_heap(&mut cells, 0, 0, 1, 0));
    assert_eq!(cells, picture(&[".***+"]).2);
}

#[test]
fn try_push_heap_by_more_than_one_cell() {
    let game = game_of(&["@....."]);
    let (_, _, mut cells) = picture(&["*.*..."]);
    assert!(game.try_push_heap(&mut cells, 0, 0, 2, 0));
    assert_eq!(cells, picture(&["..*.*."]).2);
    let before = cells.clone();
    assert!(!game.try_push_heap(&mut cells, 2, 0, 2, 0));
    assert_eq!(cells, before);
}

#[test]
fn two_robots_on_one_cell_leave_a_heap() {
    let mut game = game_of(&["+.+", "...", ".@."]);
    let mut kills = 0;
    assert!(game.player_move_k(0, 0, false, &mut kills));
    assert!(shows(&game, &["...", ".*.", ".@."]));
    assert_eq!(count(&game, ObjectType::Heap), 1);
    assert_eq!(game.count_robots(), 0);
    assert_eq!(game.score(), 10 + 10);
    assert_eq!(kills, 1 + 1);
    assert_eq!(game.state(), GameState::LevelComplete);
}

#[test]
fn collision_credits_both_kinds() {
    let mut game = game_of(&["+...#", ".....", ".....", "..@.."]);
    let mut kills = 0;
    assert!(game.player_move_k(0, 0, false, &mut kills));
    // the slow robot goes to (1, 1); the fast one goes to (3, 1) and on to
    // (2, 2): no collision yet
    assert!(shows(&game, &[".....", ".+...", "..#..", "..@.."]));
    assert_eq!(kills, 0);

    let mut game = game_of(&["+.#", "...", "...", ".@."]);
    let mut kills = 0;
    assert!(game.player_move_k(0, 0, false, &mut kills));
    assert!(shows(&game, &["...", ".*.", "...", ".@."]));
    assert_eq!(game.score(), 10 + 20);
    assert_eq!(kills, 1 + 2);
}

#[test]
fn three_robots_on_one_cell() {
    // the first two leave a heap, the third runs into it
    let mut game = game_of(&["+++", "...", ".@."]);
    let mut kills = 0;
    assert!(game.player_move_k(0, 0, false, &mut kills));
    assert!(shows(&game, &["...", ".*.", ".@."]));
    assert_eq!(game.score(), 10 + 10 + 20);
    assert_eq!(kills, 2);
}

#[test]
fn robot_running_into_a_heap_pays_the_splatted_score() {
    let mut game = game_of(&["+*.@", "...."]);
    let mut kills = 0;
    assert!(game.player_move_k(0, 0, false, &mut kills));
    assert!(shows(&game, &[".*.@", "...."]));
    assert_eq!(game.score(), 20);
    assert_eq!(kills, 0);
    assert_eq!(game.state(), GameState::LevelComplete);

    let mut game = game_of(&["#*.@", "...."]);
    assert!(game.player_move(0, 0, false));
    assert_eq!(game.score(), 40);
}

#[test]
fn waiting_uses_its_own_collision_scores() {
    let mut options = Options::default();
    options.score_type1 = 3;
    options.score_type2 = 5;
    options.score_type1_waiting = 7;
    options.score_type2_waiting = 11;
    options.num_robots_per_safe = 0;
    let rows = ["+.#", "...", "...", ".@."];
    let mut game = game_with(&options, &rows);
    assert!(game.player_command(PlayerCommand::Stay));
    assert_eq!(game.score(), 3 + 5);

    let mut game = game_with(&options, &rows);
    assert!(game.player_command(PlayerCommand::Wait));
    assert_eq!(game.state(), GameState::Waiting);
    let mut kills = 0;
    game.waiting_step(&mut kills);
    assert_eq!(game.score(), 7 + 11);
    assert_eq!(kills, 3);
    assert_eq!(game.state(), GameState::LevelComplete);
}

#[test]
fn move_robot_one_step() {
    let game = game_of(&["....", "....", "...@"]);
    let (_, _, mut cells) = picture(&["....", "....", "...@"]);
    let mut result = MoveRobotsResult::new();
    game.move_robot(ObjectType::Robot1, 0, 0, &mut cells, 3, 2, &mut result);
    assert_eq!(cells, picture(&["....", ".+..", "...@"]).2);
    assert!(!result.dead);
    game.move_robot(ObjectType::Robot2, 0, 1, &mut cells, 3, 2, &mut result);
    assert_eq!(cells, picture(&["....", ".+..", ".#.@"]).2);
    assert_eq!(result.score, 0);
    // a second fast robot onto the first
    game.move_robot(ObjectType::Robot2, 0, 2, &mut cells, 3, 2, &mut result);
    assert_eq!(cells, picture(&["....", ".+..", ".*.@"]).2);
    assert_eq!(result.score, 40);
    assert_eq!(result.kills, 4);
    assert!(!result.dead);
    // next to the player
    game.move_robot(ObjectType::Robot1, 2, 1, &mut cells, 3, 2, &mut result);
    assert!(result.dead);
    assert_eq!(result.score, 40);
    assert_eq!(result.kills, 4);
    assert_eq!(cells, picture(&["....", ".+..", ".*.@"]).2);
}

#[test]
fn move_robots_runs_both_passes() {
    let game = game_of(&["#+....", "......", "......", ".....@"]);
    let (_, _, mut cells) = picture(&["......", "......", "......", ".....@"]);
    let result = game.move_robots(&mut cells, 5, 3);
    // both go to (1, 1) or (2, 1) first; the fast one goes on to (2, 2)
    assert_eq!(cells, picture(&["......", "..+...", "..#...", ".....@"]).2);
    assert!(!result.dead);
    assert_eq!(result.score, 0);
    assert_eq!(result.kills, 0);
}

#[test]
fn fast_robots_pass_through_each_others_old_cells() {
    // after the first pass the fast robots stand at x = 1 and x = 2; in the
    // second pass the one at x = 1 steps onto the cell that the other one
    // has not left yet in the snapshot, but has left in the candidate
    let mut game = game_of(&["##.....@"]);
    assert!(game.player_move(0, 0, false));
    assert!(shows(&game, &["..##...@"]));
    assert_eq!(game.score(), 0);
}

#[test]
fn score_stops_at_the_top() {
    let mut options = Options::default();
    options.score_type1 = u64::MAX - 1;
    let mut game = game_with(&options, &["+.+", "...", ".@."]);
    assert!(game.player_move(0, 0, false));
    assert_eq!(game.score(), u64::MAX);
}

#[test]
fn kills_stop_at_the_top() {
    let mut game = game_of(&["+.+", "...", ".@."]);
    let mut kills = u16::MAX - 1;
    assert!(game.player_move_k(0, 0, false, &mut kills));
    assert_eq!(kills, u16::MAX);
}

#[test]
fn one_player_after_every_turn() {
    let rows = ["+..#....", "..*.....", "...@..*.", "+......#", "....+..."];
    let moves = [(0, 0), (1, 0), (-1, 0), (0, 1), (0, -1), (1, 1), (-1, -1), (1, -1), (-1, 1)];
    for first in moves {
        for second in moves {
            let mut game = game_of(&rows);
            for (dx, dy) in [first, second] {
                if game.state() != GameState::Playing {
                    break;
                }
                let robots = game.count_robots();
                let before = game.player_position();
                let moved = game.player_move(dx, dy, false);
                assert_eq!(count(&game, ObjectType::Player), 1);
                let at = game.player_position();
                assert_eq!(game.cell(at.0, at.1), ObjectType::Player);
                assert!(game.count_robots() <= robots);
                if moved {
                    assert_eq!(at.0 as i64, before.0 as i64 + dx as i64);
                    assert_eq!(at.1 as i64, before.1 as i64 + dy as i64);
                } else {
                    assert_eq!(at, before);
                }
            }
        }
    }
}

#[test]
fn level_complete_when_last_robot_dies() {
    let mut game = game_of(&["+*..@"]);
    assert!(game.player_command(PlayerCommand::Stay));
    assert_eq!(game.state(), GameState::LevelComplete);
    assert_eq!(game.count_robots(), 0);
    // no command counts any more
    assert!(!game.player_command(PlayerCommand::W));
    assert_eq!(game.player_position(), (4, 0));
}

#[test]
fn commands_count_only_while_playing() {
    let mut game = game_of(&["+....", ".....", "....@"]);
    assert!(game.player_command(PlayerCommand::Wait));
    assert_eq!(game.state(), GameState::Waiting);
    for command in [
        PlayerCommand::N,
        PlayerCommand::Stay,
        PlayerCommand::SafeTeleport,
        PlayerCommand::RandomTeleport,
        PlayerCommand::Wait,
    ] {
        assert!(!game.player_command(command));
        assert!(shows(&game, &["+....", ".....", "....@"]));
        assert_eq!(game.state(), GameState::Waiting);
    }
}

#[test]
fn with_arena_checks_its_arguments() {
    let options = Options::default();
    let (width, height, cells) = picture(&["+..", ".@."]);
    assert!(Game::with_arena(&options, width, height, cells.clone()).is_some());
    assert!(Game::with_arena(&options, height, width, cells.clone()).is_some());
    assert!(Game::with_arena(&options, 3, 3, cells.clone()).is_none());
    assert!(Game::with_arena(&options, 0, 2, cells.clone()).is_none());
    assert!(Game::with_arena(&options, 6, 0, Vec::new()).is_none());
    assert!(Game::with_arena(&options, 32768, 1, vec![ObjectType::Empty; 32768]).is_none());
    let (_, _, nobody) = picture(&["+..", "..."]);
    assert!(Game::with_arena(&options, 3, 2, nobody).is_none());
    let (_, _, twins) = picture(&["@..", "..@"]);
    assert!(Game::with_arena(&options, 3, 2, twins).is_none());
}

#[test]
fn with_arena_starts_like_a_new_game() {
    let mut options = Options::default();
    options.initial_safe_teleports = 4;
    let game = game_with(&options, &["+..", "...", "..@"]);
    assert_eq!(game.state(), GameState::Playing);
    assert_eq!(game.level(), 0);
    assert_eq!(game.score(), 0);
    assert_eq!(game.safeteleports(), 4);
    assert_eq!(game.player_position(), (2, 2));
    assert_eq!(game.arena_size(), (3, 3));
    assert_eq!(game.count_robots(), 1);
    assert!(game.has_free_cell());
    assert_eq!(game.cell(0, 0), ObjectType::Robot1);
    assert_eq!(game.cell(1, 0), ObjectType::Empty);
}

#[test]
fn full_arena_has_no_free_cell() {
    let game = game_of(&["+*", "@#"]);
    assert!(!game.has_free_cell());
    assert_eq!(game.count_robots(), 2);
}

#[test]
fn row_of_heaps_is_pushed_onto_a_robot() {
    let mut game = game_of(&["@**+...", "......."]);
    assert!(game.player_move(1, 0, false));
    assert!(shows(&game, &[".@**...", "......."]));
    assert_eq!(game.score(), 20);
    assert_eq!(game.state(), GameState::LevelComplete);
}

#[test]
fn stay_runs_the_robots() {
    let mut game = game_of(&["..+..", ".....", "..@..", ".....", "..#.."]);
    assert!(!game.player_command(PlayerCommand::Stay));
    assert!(game.player_move(0, 0, false));
    assert_eq!(game.state(), GameState::Dead);
    assert_eq!(game.player_position(), (2, 2));
    assert!(shows(&game, &[".....", "..+..", "..@..", ".....", "....."]));
}

#[test]
fn pushed_row_keeps_every_heap() {
    let rows = ["*.....*", "@***.+.", "..*...#"];
    let mut game = game_of(&rows);
    let heaps = count(&game, ObjectType::Heap);
    assert!(game.player_move(1, 0, false));
    assert_eq!(game.player_position(), (1, 1));
    assert_eq!(game.cell(1, 1), ObjectType::Player);
    for x in 2..=4 {
        assert_eq!(game.cell(x, 1), ObjectType::Heap);
    }
    assert_eq!(game.cell(0, 0), ObjectType::Heap);
    assert_eq!(game.cell(6, 0), ObjectType::Heap);
    assert_eq!(game.cell(2, 2), ObjectType::Heap);
    assert!(count(&game, ObjectType::Heap) >= heaps);
}
