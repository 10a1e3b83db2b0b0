use daleks::options::{BoardSize, BoardType, Options};
use daleks::profiles::{Profile, Profiles};
use std::str::FromStr;

fn classic() -> Profile {
    Profile {
        initial_type1: 10,
        initial_type2: 0,
        increment_type1: 10,
        increment_type2: 0,
        maximum_type1: 9999,
        maximum_type2: 0,
        score_type1: 10,
        score_type2: 0,
        score_type1_waiting: 10,
        score_type2_waiting: 0,
        score_type1_splatted: 10,
        score_type2_splatted: 0,
        num_robots_per_safe: 0,
        safe_score_boundary: 0,
        initial_safe_teleports: 0,
        free_safe_teleports: 0,
        max_safe_teleports: 0,
        moveable_heaps: false,
    }
}

fn robots2() -> Profile {
    Profile {
        initial_type1: 8,
        initial_type2: 2,
        increment_type1: 8,
        increment_type2: 2,
        maximum_type1: 9999,
        maximum_type2: 9999,
        score_type1: 10,
        score_type2: 20,
        score_type1_waiting: 10,
        score_type2_waiting: 20,
        score_type1_splatted: 20,
        score_type2_splatted: 40,
        num_robots_per_safe: 1,
        safe_score_boundary: 0,
        initial_safe_teleports: 1,
        free_safe_teleports: 0,
        max_safe_teleports: 10,
        moveable_heaps: true,
    }
}

#[test]
fn classic_preset() {
    assert_eq!(Profile::classic(), classic());
    assert_eq!(Profile::get_profile(Profiles::Classic), classic());
}

#[test]
fn robots2_preset() {
    assert_eq!(Profile::robots2(), robots2());
    assert_eq!(Profile::get_profile(Profiles::Robots2), robots2());
}

#[test]
fn nightmare_preset() {
    let expected = Profile {
        initial_type1: 2,
        initial_type2: 8,
        increment_type1: 2,
        increment_type2: 8,
        num_robots_per_safe: 2,
        free_safe_teleports: 1,
        ..robots2()
    };
    assert_eq!(Profile::nightmare(), expected);
    assert_eq!(Profile::get_profile(Profiles::Nightmare), expected);
}

#[test]
fn robots2_easy_preset() {
    let expected = Profile { free_safe_teleports: 1, ..robots2() };
    assert_eq!(Profile::robots2_easy(), expected);
    assert_eq!(Profile::get_profile(Profiles::Robots2Easy), expected);
}

#[test]
fn classic_with_safe_teleports_preset() {
    let expected = Profile { num_robots_per_safe: 1, max_safe_teleports: 10, ..classic() };
    assert_eq!(Profile::classic_with_safe_teleports(), expected);
    assert_eq!(Profile::get_profile(Profiles::ClassicWithSafeTeleports), expected);
}

#[test]
fn default_options() {
    let options = Options::default();
    assert_eq!(options.boardsize, BoardSize::Normal);
    assert_eq!(options.boardtype, BoardType::Normal);
    assert!(!options.asciionly);
    assert!(options.colors);
    assert!(options.safe_moves);
    assert_eq!(options.profile(), robots2());
    assert_eq!(options.initial_type1, 8);
    assert_eq!(options.score_type2_splatted, 40);
    assert!(options.moveable_heaps);
}

#[test]
fn default_board() {
    assert_eq!(<BoardSize as Default>::default(), BoardSize::Normal);
    assert_eq!(<BoardType as Default>::default(), BoardType::Normal);
}

#[test]
fn set_profile_replaces_the_knobs_only() {
    let mut options = Options::default();
    options.boardtype = BoardType::Bsd;
    options.asciionly = true;
    options.colors = false;
    options.safe_moves = false;
    options.set_profile(Profiles::Classic);
    assert_eq!(options.profile(), classic());
    assert_eq!(options.boardtype, BoardType::Bsd);
    assert!(options.asciionly);
    assert!(!options.colors);
    assert!(!options.safe_moves);
    assert_eq!(options.maximum_type2, 0);
    assert_eq!(options.score_type1_splatted, 10);
    assert!(!options.moveable_heaps);
    options.set_profile(Profiles::Nightmare);
    assert_eq!(options.profile(), Profile::nightmare());
    assert_eq!(options.boardtype, BoardType::Bsd);
}

#[test]
fn board_and_arena_sizes() {
    let mut options = Options::default();
    assert_eq!(options.board_size(), (80, 24));
    assert_eq!(options.arena_size(), (78, 21));
    options.boardtype = BoardType::Bsd;
    assert_eq!(options.board_size(), (80, 24));
    assert_eq!(options.arena_size(), (59, 22));
}

#[test]
fn profiles_by_name() {
    assert_eq!(Profiles::from_str("CLASSIC"), Ok(Profiles::Classic));
    assert_eq!(Profiles::from_str("classic"), Ok(Profiles::Classic));
    assert_eq!(Profiles::from_str("Robots2"), Ok(Profiles::Robots2));
    assert_eq!(Profiles::from_str("nightMARE"), Ok(Profiles::Nightmare));
    assert_eq!(Profiles::from_str("robots2easy"), Ok(Profiles::Robots2Easy));
    assert_eq!(
        Profiles::from_str("ClassicWithSafeTeleports"),
        Ok(Profiles::ClassicWithSafeTeleports)
    );
    assert_eq!("robots2".parse::<Profiles>(), Ok(Profiles::Robots2));
}

#[test]
fn profiles_by_a_wrong_name() {
    assert_eq!(
        Profiles::from_str("Robots3"),
        Err("'Robots3' is not a valid value for Profiles".to_string())
    );
    assert_eq!(
        Profiles::from_str(""),
        Err("'' is not a valid value for Profiles".to_string())
    );
    assert_eq!(
        Profiles::from_str(" classic"),
        Err("' classic' is not a valid value for Profiles".to_string())
    );
    assert!(Profiles::from_str("robots2 easy").is_err());
}

#[test]
fn profiles_from_upper_takes_the_upper_case_form_only() {
    let upper = "NIGHTMARE".to_string();
    assert_eq!(Profiles::from_upper(&upper, "nightmare"), Ok(Profiles::Nightmare));
    let lower = "nightmare".to_string();
    assert_eq!(
        Profiles::from_upper(&lower, "nightmare"),
        Err("'nightmare' is not a valid value for Profiles".to_string())
    );
    assert_eq!(
        Profiles::from_upper(&"X".to_string(), "what was typed"),
        Err("'what was typed' is not a valid value for Profiles".to_string())
    );
}

#[test]
fn board_type_by_name() {
    assert_eq!(BoardType::from_str("NORMAL"), Ok(BoardType::Normal));
    assert_eq!(BoardType::from_str("normal"), Ok(BoardType::Normal));
    assert_eq!(BoardType::from_str("bsd"), Ok(BoardType::Bsd));
    assert_eq!(BoardType::from_str("Bsd"), Ok(BoardType::Bsd));
    assert_eq!(
        BoardType::from_str("gnome"),
        Err("'gnome' is not a valid value for BoardType".to_string())
    );
    assert_eq!(
        BoardType::from_upper(&"bsd".to_string(), "bsd"),
        Err("'bsd' is not a valid value for BoardType".to_string())
    );
    assert_eq!(BoardType::from_upper(&"BSD".to_string(), "bsd"), Ok(BoardType::Bsd));
}

#[test]
fn names_follow_unicode_upper_case() {
    // the dotless i has the plain upper case I
    assert_eq!(Profiles::from_str("class\u{131}c"), Ok(Profiles::Classic));
    assert_eq!(
        Profiles::from_str("CLASS\u{130}C"),
        Err("'CLASS\u{130}C' is not a valid value for Profiles".to_string())
    );
}

#[test]
fn settle_takes_over_layout_and_preset() {
    let mut options = Options::default();
    options.colors = false;
    options.settle(Some(BoardType::Bsd), Some(Profiles::Classic), false);
    assert_eq!(options.boardtype, BoardType::Bsd);
    assert_eq!(options.profile(), classic());
    assert!(!options.colors);
    let before = options;
    options.settle(None, None, false);
    assert_eq!(options, before);
    options.settle(None, Some(Profiles::Nightmare), false);
    assert_eq!(options.boardtype, BoardType::Bsd);
    assert_eq!(options.profile(), Profile::nightmare());
}

#[test]
fn settle_defaults_override_everything() {
    let mut options = Options::default();
    options.colors = false;
    options.safe_moves = false;
    options.settle(Some(BoardType::Bsd), Some(Profiles::Classic), true);
    assert_eq!(options, Options::default());
}
