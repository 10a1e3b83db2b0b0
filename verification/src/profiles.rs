//! Presets of the difficulty and economy knobs.

use vstd::prelude::*;
use crate::text::{complain, not_valid, reads, to_uppercase, uppercase};

verus! {

/// The names of the presets.
#[derive(PartialEq, Eq, Structural, Clone, Copy, Debug)]
pub enum Profiles {
    Classic,
    Robots2,
    Nightmare,
    Robots2Easy,
    ClassicWithSafeTeleports,
}

impl Profiles {
    /// The preset that a name in upper case stands for.
    pub open spec fn named(upper: Seq<char>) -> Option<Profiles> {
        if upper == "CLASSIC"@ {
            Some(Profiles::Classic)
        } else if upper == "ROBOTS2"@ {
            Some(Profiles::Robots2)
        } else if upper == "NIGHTMARE"@ {
            Some(Profiles::Nightmare)
        } else if upper == "ROBOTS2EASY"@ {
            Some(Profiles::Robots2Easy)
        } else if upper == "CLASSICWITHSAFETELEPORTS"@ {
            Some(Profiles::ClassicWithSafeTeleports)
        } else {
            None
        }
    }

    /// What reading a name gives, for the name as it was `given` and its
    /// form in upper case: the preset of that name, or the complaint that
    /// the name as given stands for none.
    pub open spec fn read(upper: Seq<char>, given: Seq<char>) -> Result<Profiles, Seq<char>> {
        match Self::named(upper) {
            Some(profile) => Ok(profile),
            None => Err(not_valid(given, "Profiles"@)),
        }
    }

    /// Reads the name of a preset from its form in upper case. `given` is
    /// the name as it was typed, which the complaint quotes.
    pub fn from_upper(upper: &String, given: &str) -> (parsed: Result<Profiles, String>)
        ensures
            match (parsed, Self::read(upper@, given@)) {
                (Ok(profile), Ok(expected)) => profile == expected,
                (Err(message), Err(expected)) => message@ == expected,
                _ => false,
            },
    {
        if reads(upper, "CLASSIC") {
            Ok(Profiles::Classic)
        } else if reads(upper, "ROBOTS2") {
            Ok(Profiles::Robots2)
        } else if reads(upper, "NIGHTMARE") {
            Ok(Profiles::Nightmare)
        } else if reads(upper, "ROBOTS2EASY") {
            Ok(Profiles::Robots2Easy)
        } else if reads(upper, "CLASSICWITHSAFETELEPORTS") {
            Ok(Profiles::ClassicWithSafeTeleports)
        } else {
            Err(complain(given, "Profiles"))
        }
    }
}

impl std::str::FromStr for Profiles {
    type Err = String;

    /// Reads the name of a preset, in upper or lower case.
    fn from_str(s: &str) -> (parsed: Result<Self, Self::Err>)
        ensures
            match (parsed, Self::read(uppercase(s@), s@)) {
                (Ok(profile), Ok(expected)) => profile == expected,
                (Err(message), Err(expected)) => message@ == expected,
                _ => false,
            },
    {
        let upper = to_uppercase(s);
        Self::from_upper(&upper, s)
    }
}

/// The knobs that decide how hard a session is and what it pays.
///
/// The counts of robots of a level are `initial + increment * level`, capped
/// at `maximum`, for each kind on its own. A robot pays `score_type*` when it
/// dies in a collision while the player plays, `score_type*_waiting` when it
/// does so while the player waits, and `score_type*_splatted` when a heap
/// ends it.
#[derive(PartialEq, Eq, Structural, Clone, Copy, Debug)]
pub struct Profile {
    pub initial_type1: u16,
    pub initial_type2: u16,
    pub increment_type1: u16,
    pub increment_type2: u16,
    pub maximum_type1: u16,
    pub maximum_type2: u16,
    pub score_type1: u64,
    pub score_type2: u64,
    pub score_type1_waiting: u64,
    pub score_type2_waiting: u64,
    pub score_type1_splatted: u64,
    pub score_type2_splatted: u64,
    /// Kill weight that earns one safe teleport while waiting; 0 switches it off.
    pub num_robots_per_safe: u16,
    /// Score of one waiting step that earns one safe teleport; 0 switches it off.
    pub safe_score_boundary: u64,
    pub initial_safe_teleports: u16,
    pub free_safe_teleports: u16,
    pub max_safe_teleports: u16,
    pub moveable_heaps: bool,
}

impl Profile {
    /// The classic game: one kind of robot, no safe teleports, heaps stay put.
    pub open spec fn spec_classic() -> Profile {
        Profile {
            initial_type1: 10,
            initial_type2: 0,
            increment_type1: 10,
            increment_type2: 0,
            maximum_type1: 9999,
            maximum_type2: 0,
            score_type1: 10,
            score_type2: 0,
            score_type1_waiting: 10,
            score_type2_waiting: 0,
            score_type1_splatted: 10,
            score_type2_splatted: 0,
            num_robots_per_safe: 0,
            safe_score_boundary: 0,
            initial_safe_teleports: 0,
            free_safe_teleports: 0,
            max_safe_teleports: 0,
            moveable_heaps: false,
        }
    }

    /// Both kinds of robot, safe teleports earned by kills, heaps can be pushed.
    pub open spec fn spec_robots2() -> Profile {
        Profile {
            initial_type1: 8,
            initial_type2: 2,
            increment_type1: 8,
            increment_type2: 2,
            maximum_type1: 9999,
            maximum_type2: 9999,
            score_type1: 10,
            score_type2: 20,
            score_type1_waiting: 10,
            score_type2_waiting: 20,
            score_type1_splatted: 20,
            score_type2_splatted: 40,
            num_robots_per_safe: 1,
            safe_score_boundary: 0,
            initial_safe_teleports: 1,
            free_safe_teleports: 0,
            max_safe_teleports: 10,
            moveable_heaps: true,
        }
    }

    /// Mostly fast robots.
    pub open spec fn spec_nightmare() -> Profile {
        Profile {
            initial_type1: 2,
            initial_type2: 8,
            increment_type1: 2,
            increment_type2: 8,
            maximum_type1: 9999,
            maximum_type2: 9999,
            score_type1: 10,
            score_type2: 20,
            score_type1_waiting: 10,
            score_type2_waiting: 20,
            score_type1_splatted: 20,
            score_type2_splatted: 40,
            num_robots_per_safe: 2,
            safe_score_boundary: 0,
            initial_safe_teleports: 1,
            free_safe_teleports: 1,
            max_safe_teleports: 10,
            moveable_heaps: true,
        }
    }

    /// `Robots2` with one free safe teleport per level.
    pub open spec fn spec_robots2_easy() -> Profile {
        Profile { free_safe_teleports: 1, ..Self::spec_robots2() }
    }

    /// `Classic` with safe teleports earned by kills.
    pub open spec fn spec_classic_with_safe_teleports() -> Profile {
        Profile { num_robots_per_safe: 1, max_safe_teleports: 10, ..Self::spec_classic() }
    }

    /// The knobs a preset stands for.
    pub open spec fn preset(profile: Profiles) -> Profile {
        match profile {
            Profiles::Classic => Self::spec_classic(),
            Profiles::Robots2 => Self::spec_robots2(),
            Profiles::Nightmare => Self::spec_nightmare(),
            Profiles::Robots2Easy => Self::spec_robots2_easy(),
            Profiles::ClassicWithSafeTeleports => Self::spec_classic_with_safe_teleports(),
        }
    }

    pub fn classic() -> (p: Self)
        ensures
            p == Self::spec_classic(),
    {
        Profile {
            initial_type1: 10,
            initial_type2: 0,
            increment_type1: 10,
            increment_type2: 0,
            maximum_type1: 9999,
            maximum_type2: 0,
            score_type1: 10,
            score_type2: 0,
            score_type1_waiting: 10,
            score_type2_waiting: 0,
            score_type1_splatted: 10,
            score_type2_splatted: 0,
            num_robots_per_safe: 0,
            safe_score_boundary: 0,
            max_safe_teleports: 0,
            free_safe_teleports: 0,
            initial_safe_teleports: 0,
            moveable_heaps: false,
        }
    }

    pub fn robots2() -> (p: Self)
        ensures
            p == Self::spec_robots2(),
    {
        Profile {
            initial_type1: 8,
            initial_type2: 2,
            increment_type1: 8,
            increment_type2: 2,
            maximum_type1: 9999,
            maximum_type2: 9999,
            score_type1: 10,
            score_type2: 20,
            score_type1_waiting: 10,
            score_type2_waiting: 20,
            score_type1_splatted: 20,
            score_type2_splatted: 40,
            num_robots_per_safe: 1,
            safe_score_boundary: 0,
            initial_safe_teleports: 1,
            free_safe_teleports: 0,
            max_safe_teleports: 10,
            moveable_heaps: true,
        }
    }

    pub fn nightmare() -> (p: Self)
        ensures
            p == Self::spec_nightmare(),
    {
        Profile {
            initial_type1: 2,
            initial_type2: 8,
            increment_type1: 2,
            increment_type2: 8,
            maximum_type1: 9999,
            maximum_type2: 9999,
            score_type1: 10,
            score_type2: 20,
            score_type1_waiting: 10,
            score_type2_waiting: 20,
            score_type1_splatted: 20,
            score_type2_splatted: 40,
            num_robots_per_safe: 2,
            safe_score_boundary: 0,
            initial_safe_teleports: 1,
            free_safe_teleports: 1,
            max_safe_teleports: 10,
            moveable_heaps: true,
        }
    }

    pub fn robots2_easy() -> (p: Self)
        ensures
            p == Self::spec_robots2_easy(),
    {
        let mut profile = Profile::robots2();
        profile.free_safe_teleports = 1;
        profile
    }

    pub fn classic_with_safe_teleports() -> (p: Self)
        ensures
            p == Self::spec_classic_with_safe_teleports(),
    {
        let mut profile = Profile::classic();
        profile.num_robots_per_safe = 1;
        profile.max_safe_teleports = 10;
        profile
    }

    pub fn get_profile(profile: Profiles) -> (p: Self)
        ensures
            p == Self::preset(profile),
    {
        match profile {
            Profiles::Classic => Profile::classic(),
            Profiles::Robots2 => Profile::robots2(),
            Profiles::Nightmare => Profile::nightmare(),
            Profiles::Robots2Easy => Profile::robots2_easy(),
            Profiles::ClassicWithSafeTeleports => Profile::classic_with_safe_teleports(),
        }
    }
}

} // verus!
