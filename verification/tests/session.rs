use daleks::enums::{GameState, ObjectType, PlayerCommand};
use daleks::game::Game;
use daleks::layout::{centered, dialog_frame, message_origin, status_padding};
use daleks::options::Options;
use daleks::session::{Command, Prompt, TurnResult};

fn start(options: &Options, rows: &[&str]) -> Game {
    let width = rows[0].chars().count();
    let mut cells = Vec::new();
    for row in rows {
        for c in row.chars() {
            cells.push(match c {
                '@' => ObjectType::Player,
                '+' => ObjectType::Robot1,
                '#' => ObjectType::Robot2,
                '*' => ObjectType::Heap,
                _ => ObjectType::Empty,
            });
        }
    }
    Game::with_arena(options, width, rows.len(), cells).unwrap()
}

#[test]
fn keys_and_their_commands() {
    let keys = [
        ("7yY", PlayerCommand::NW),
        ("8kK", PlayerCommand::N),
        ("9uU", PlayerCommand::NE),
        ("4hH", PlayerCommand::W),
        ("5 ", PlayerCommand::Stay),
        ("6lL", PlayerCommand::E),
        ("1bB", PlayerCommand::SW),
        ("2jJ", PlayerCommand::S),
        ("3nN", PlayerCommand::SE),
        ("+\n", PlayerCommand::SafeTeleport),
        ("-tT", PlayerCommand::RandomTeleport),
        ("wW", PlayerCommand::Wait),
    ];
    for (chars, command) in keys {
        for key in chars.chars() {
            assert_eq!(Command::from_key(key), Some(Command::Play(command)));
        }
    }
    assert_eq!(Command::from_key('q'), Some(Command::Quit));
    assert_eq!(Command::from_key('Q'), Some(Command::Quit));
    assert_eq!(Command::from_key('?'), Some(Command::Help));
}

#[test]
fn keys_without_a_command() {
    for key in "0ace\tx=_\r\u{212a}".chars() {
        assert_eq!(Command::from_key(key), None);
    }
}

#[test]
fn keys_agree_with_ascii_lower_case() {
    for code in 0..128u8 {
        let key = code as char;
        assert_eq!(Command::from_key(key), Command::from_key(key.to_ascii_lowercase()));
    }
}

#[test]
fn help_and_quit_leave_the_session_alone() {
    let rows = ["+....", ".....", "....@"];
    let mut game = start(&Options::default(), &rows);
    let before = game.arena().clone();
    let turn = game.submit_command(Command::Help);
    assert_eq!(
        turn,
        TurnResult { state: GameState::Playing, changed: false, prompt: Prompt::Help }
    );
    let turn = game.submit_command(Command::Quit);
    assert_eq!(
        turn,
        TurnResult { state: GameState::Playing, changed: false, prompt: Prompt::ConfirmQuit }
    );
    assert_eq!(*game.arena(), before);
    assert_eq!(game.score(), 0);
}

#[test]
fn a_turn_reports_the_state() {
    let mut options = Options::default();
    options.safe_moves = false;
    let mut game = start(&options, &["+....", ".....", "....@"]);
    let turn = game.submit_command(Command::Play(PlayerCommand::W));
    assert_eq!(
        turn,
        TurnResult { state: GameState::Playing, changed: true, prompt: Prompt::Nothing }
    );
    assert_eq!(game.prompt(), Prompt::Nothing);
    // into the border: no change
    let turn = game.submit_command(Command::Play(PlayerCommand::S));
    assert_eq!(
        turn,
        TurnResult { state: GameState::Playing, changed: false, prompt: Prompt::Nothing }
    );
    // towards the robot: caught
    let turn = game.submit_command(Command::Play(PlayerCommand::NW));
    assert_eq!(turn, TurnResult { state: GameState::Dead, changed: true, prompt: Prompt::Dead });
    assert_eq!(game.prompt(), Prompt::Dead);
    // nothing counts any more
    let turn = game.submit_command(Command::Play(PlayerCommand::E));
    assert_eq!(turn, TurnResult { state: GameState::Dead, changed: false, prompt: Prompt::Dead });
}

#[test]
fn a_turn_reports_the_end_of_a_level() {
    let mut game = start(&Options::default(), &["+*..@"]);
    let turn = game.submit_command(Command::Play(PlayerCommand::Stay));
    assert_eq!(
        turn,
        TurnResult {
            state: GameState::LevelComplete,
            changed: true,
            prompt: Prompt::LevelComplete,
        }
    );
}

#[test]
fn a_turn_reports_the_waiting() {
    let mut game = start(&Options::default(), &["+....", ".....", "....@"]);
    let turn = game.submit_command(Command::Play(PlayerCommand::Wait));
    assert_eq!(
        turn,
        TurnResult { state: GameState::Waiting, changed: true, prompt: Prompt::Nothing }
    );
}

#[test]
fn a_turn_reports_the_end_of_the_game() {
    let mut options = Options::default();
    options.initial_type1 = 3;
    let mut game = start(&options, &["@.", ".."]);
    game.new_game();
    assert_eq!(game.state(), GameState::GameComplete);
    assert_eq!(game.prompt(), Prompt::GameComplete);
    let turn = game.submit_command(Command::Play(PlayerCommand::Stay));
    assert_eq!(
        turn,
        TurnResult { state: GameState::GameComplete, changed: false, prompt: Prompt::GameComplete }
    );
}

#[test]
fn safe_move_refused_is_no_change() {
    let mut game = start(&Options::default(), &["+..", ".@.", "..."]);
    let turn = game.submit_command(Command::Play(PlayerCommand::Stay));
    assert_eq!(
        turn,
        TurnResult { state: GameState::Playing, changed: false, prompt: Prompt::Nothing }
    );
    let turn = game.submit_command(Command::Play(PlayerCommand::SE));
    assert_eq!(
        turn,
        TurnResult { state: GameState::Playing, changed: true, prompt: Prompt::Nothing }
    );
}

#[test]
fn board_in_the_middle_of_the_terminal() {
    assert_eq!(centered(80, 80), Some(0));
    assert_eq!(centered(81, 80), Some(0));
    assert_eq!(centered(100, 80), Some(10));
    assert_eq!(centered(30, 24), Some(3));
    assert_eq!(centered(79, 80), None);
    assert_eq!(centered(0, 24), None);
}

#[test]
fn message_next_to_the_player() {
    // above the player, starting in the player's column on the board
    assert_eq!(message_origin(10, 5, 7, 78), (11, 5));
    // below a player in the top row
    assert_eq!(message_origin(10, 0, 7, 78), (11, 2));
    // moved to the left to end inside the arena
    assert_eq!(message_origin(75, 5, 7, 78), (71, 5));
    assert_eq!(message_origin(70, 1, 7, 78), (71, 1));
    assert_eq!(message_origin(71, 1, 7, 78), (71, 1));
    assert_eq!(message_origin(77, 20, 16, 78), (62, 20));
    assert_eq!(message_origin(0, 0, 78, 78), (0, 2));
}

#[test]
fn status_line_padding() {
    // "Level: 1" and "Score: 0" on a line of 78 characters
    assert_eq!(status_padding(78, 8, 8), (35, 35));
    assert_eq!(status_padding(78, 10, 12), (35, 33));
    assert_eq!(status_padding(78, 39, 0), (0, 39));
    assert_eq!(status_padding(57, 8, 9), (24, 25));
}

#[test]
fn dialog_in_the_middle_of_the_arena() {
    assert_eq!(dialog_frame(78, 21, 30, 2), (24, 9, 32, 4));
    assert_eq!(dialog_frame(78, 21, 76, 19), (1, 1, 78, 21));
    assert_eq!(dialog_frame(59, 22, 43, 3), (8, 9, 45, 5));
}
