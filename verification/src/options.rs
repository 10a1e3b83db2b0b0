//! The configuration a session is created from.

use vstd::prelude::*;
use crate::profiles::{Profile, Profiles};
use crate::text::{complain, not_valid, reads, to_uppercase, uppercase};

verus! {

/// How large the board is; the arena is the board without its frame.
#[derive(PartialEq, Eq, Structural, Clone, Copy, Debug)]
pub enum BoardSize {
    Normal,
}

impl Default for BoardSize {
    fn default() -> (size: Self)
        ensures
            size == BoardSize::Normal,
    {
        BoardSize::Normal
    }
}

/// How the board is laid out.
#[derive(PartialEq, Eq, Structural, Clone, Copy, Debug)]
pub enum BoardType {
    /// The arena fills the board; the status line stands below it.
    Normal,
    /// The arena leaves a column on the right for the legend and the status.
    Bsd,
}

impl Default for BoardType {
    fn default() -> (layout: Self)
        ensures
            layout == BoardType::Normal,
    {
        BoardType::Normal
    }
}

impl BoardType {
    /// The layout that a name in upper case stands for.
    pub open spec fn named(upper: Seq<char>) -> Option<BoardType> {
        if upper == "NORMAL"@ {
            Some(BoardType::Normal)
        } else if upper == "BSD"@ {
            Some(BoardType::Bsd)
        } else {
            None
        }
    }

    /// What reading a name gives, for the name as it was `given` and its
    /// form in upper case: the layout of that name, or the complaint that
    /// the name as given stands for none.
    pub open spec fn read(upper: Seq<char>, given: Seq<char>) -> Result<BoardType, Seq<char>> {
        match Self::named(upper) {
            Some(layout) => Ok(layout),
            None => Err(not_valid(given, "BoardType"@)),
        }
    }

    /// Reads the name of a layout from its form in upper case. `given` is
    /// the name as it was typed, which the complaint quotes.
    pub fn from_upper(upper: &String, given: &str) -> (parsed: Result<BoardType, String>)
        ensures
            match (parsed, Self::read(upper@, given@)) {
                (Ok(layout), Ok(expected)) => layout == expected,
                (Err(message), Err(expected)) => message@ == expected,
                _ => false,
            },
    {
        if reads(upper, "NORMAL") {
            Ok(BoardType::Normal)
        } else if reads(upper, "BSD") {
            Ok(BoardType::Bsd)
        } else {
            Err(complain(given, "BoardType"))
        }
    }
}

impl std::str::FromStr for BoardType {
    type Err = String;

    /// Reads the name of a layout, in upper or lower case.
    fn from_str(s: &str) -> (parsed: Result<Self, Self::Err>)
        ensures
            match (parsed, Self::read(uppercase(s@), s@)) {
                (Ok(layout), Ok(expected)) => layout == expected,
                (Err(message), Err(expected)) => message@ == expected,
                _ => false,
            },
    {
        let upper = to_uppercase(s);
        Self::from_upper(&upper, s)
    }
}

/// Everything that is fixed when a session is created.
#[derive(PartialEq, Eq, Structural, Clone, Copy, Debug)]
pub struct Options {
    pub boardsize: BoardSize,
    pub boardtype: BoardType,
    pub asciionly: bool,
    pub colors: bool,
    /// Refuse the moves that would get the player killed.
    pub safe_moves: bool,
    pub initial_type1: u16,
    pub initial_type2: u16,
    pub increment_type1: u16,
    pub increment_type2: u16,
    pub maximum_type1: u16,
    pub maximum_type2: u16,
    pub score_type1: u64,
    pub score_type2: u64,
    pub score_type1_waiting: u64,
    pub score_type2_waiting: u64,
    pub score_type1_splatted: u64,
    pub score_type2_splatted: u64,
    pub num_robots_per_safe: u16,
    pub safe_score_boundary: u64,
    pub initial_safe_teleports: u16,
    pub free_safe_teleports: u16,
    pub max_safe_teleports: u16,
    pub moveable_heaps: bool,
}

impl Options {
    /// The difficulty and economy knobs of the configuration.
    pub open spec fn knobs(self) -> Profile {
        Profile {
            initial_type1: self.initial_type1,
            initial_type2: self.initial_type2,
            increment_type1: self.increment_type1,
            increment_type2: self.increment_type2,
            maximum_type1: self.maximum_type1,
            maximum_type2: self.maximum_type2,
            score_type1: self.score_type1,
            score_type2: self.score_type2,
            score_type1_waiting: self.score_type1_waiting,
            score_type2_waiting: self.score_type2_waiting,
            score_type1_splatted: self.score_type1_splatted,
            score_type2_splatted: self.score_type2_splatted,
            num_robots_per_safe: self.num_robots_per_safe,
            safe_score_boundary: self.safe_score_boundary,
            initial_safe_teleports: self.initial_safe_teleports,
            free_safe_teleports: self.free_safe_teleports,
            max_safe_teleports: self.max_safe_teleports,
            moveable_heaps: self.moveable_heaps,
        }
    }

    /// The configuration with its knobs replaced and the rest as it was.
    pub open spec fn with_knobs(self, knobs: Profile) -> Options {
        Options {
            boardsize: self.boardsize,
            boardtype: self.boardtype,
            asciionly: self.asciionly,
            colors: self.colors,
            safe_moves: self.safe_moves,
            initial_type1: knobs.initial_type1,
            initial_type2: knobs.initial_type2,
            increment_type1: knobs.increment_type1,
            increment_type2: knobs.increment_type2,
            maximum_type1: knobs.maximum_type1,
            maximum_type2: knobs.maximum_type2,
            score_type1: knobs.score_type1,
            score_type2: knobs.score_type2,
            score_type1_waiting: knobs.score_type1_waiting,
            score_type2_waiting: knobs.score_type2_waiting,
            score_type1_splatted: knobs.score_type1_splatted,
            score_type2_splatted: knobs.score_type2_splatted,
            num_robots_per_safe: knobs.num_robots_per_safe,
            safe_score_boundary: knobs.safe_score_boundary,
            initial_safe_teleports: knobs.initial_safe_teleports,
            free_safe_teleports: knobs.free_safe_teleports,
            max_safe_teleports: knobs.max_safe_teleports,
            moveable_heaps: knobs.moveable_heaps,
        }
    }

    /// The width and the height of the board, frame included.
    pub open spec fn spec_board_size(&self) -> (usize, usize) {
        match self.boardsize {
            BoardSize::Normal => (80usize, 24usize),
        }
    }

    /// The width and the height of the arena: the board without its frame,
    /// and without the status line or the side column of its layout.
    pub open spec fn spec_arena_size(&self) -> (usize, usize) {
        let (board_width, board_height) = self.spec_board_size();
        match self.boardtype {
            BoardType::Normal => ((board_width - 2) as usize, (board_height - 3) as usize),
            BoardType::Bsd => ((board_width - 2 - 19) as usize, (board_height - 2) as usize),
        }
    }

    /// The configuration a first start uses: the normal board in colours,
    /// safe moves, and the knobs of `Profiles::Robots2`.
    pub open spec fn spec_default() -> Options {
        Options {
            boardsize: BoardSize::Normal,
            boardtype: BoardType::Normal,
            asciionly: false,
            colors: true,
            safe_moves: true,
            initial_type1: 0,
            initial_type2: 0,
            increment_type1: 0,
            increment_type2: 0,
            maximum_type1: 0,
            maximum_type2: 0,
            score_type1: 0,
            score_type2: 0,
            score_type1_waiting: 0,
            score_type2_waiting: 0,
            score_type1_splatted: 0,
            score_type2_splatted: 0,
            num_robots_per_safe: 0,
            safe_score_boundary: 0,
            initial_safe_teleports: 0,
            free_safe_teleports: 0,
            max_safe_teleports: 0,
            moveable_heaps: false,
        }.with_knobs(Profile::preset(Profiles::Robots2))
    }

    pub fn default() -> (options: Self)
        ensures
            options == Self::spec_default(),
    {
        let mut options = Options {
            boardsize: BoardSize::Normal,
            boardtype: BoardType::Normal,
            asciionly: false,
            colors: true,
            safe_moves: true,
            initial_type1: 0,
            initial_type2: 0,
            increment_type1: 0,
            increment_type2: 0,
            maximum_type1: 0,
            maximum_type2: 0,
            score_type1: 0,
            score_type2: 0,
            score_type1_waiting: 0,
            score_type2_waiting: 0,
            score_type1_splatted: 0,
            score_type2_splatted: 0,
            num_robots_per_safe: 0,
            safe_score_boundary: 0,
            initial_safe_teleports: 0,
            free_safe_teleports: 0,
            max_safe_teleports: 0,
            moveable_heaps: false,
        };
        options.set_profile(Profiles::Robots2);
        options
    }

    /// Replaces the knobs by those of a preset; the board, the colours and
    /// the safe moves stay as they are.
    pub fn set_profile(&mut self, profile: Profiles)
        ensures
            *final(self) == old(self).with_knobs(Profile::preset(profile)),
    {
        let profile = Profile::get_profile(profile);
        self.initial_type1 = profile.initial_type1;
        self.initial_type2 = profile.initial_type2;
        self.increment_type1 = profile.increment_type1;
        self.increment_type2 = profile.increment_type2;
        self.maximum_type1 = profile.maximum_type1;
        self.maximum_type2 = profile.maximum_type2;
        self.score_type1 = profile.score_type1;
        self.score_type2 = profile.score_type2;
        self.score_type1_waiting = profile.score_type1_waiting;
        self.score_type2_waiting = profile.score_type2_waiting;
        self.score_type1_splatted = profile.score_type1_splatted;
        self.score_type2_splatted = profile.score_type2_splatted;
        self.num_robots_per_safe = profile.num_robots_per_safe;
        self.safe_score_boundary = profile.safe_score_boundary;
        self.max_safe_teleports = profile.max_safe_teleports;
        self.free_safe_teleports = profile.free_safe_teleports;
        self.initial_safe_teleports = profile.initial_safe_teleports;
        self.moveable_heaps = profile.moveable_heaps;
    }

    /// The configuration after the wishes of a start have been taken over.
    /// A layout and a preset replace what they name; asking for the
    /// defaults overrides both, and everything else too.
    pub open spec fn settled(
        self,
        boardtype: Option<BoardType>,
        profile: Option<Profiles>,
        default: bool,
    ) -> Options {
        if default {
            Self::spec_default()
        } else {
            let laid_out = match boardtype {
                Some(layout) => Options { boardtype: layout, ..self },
                None => self,
            };
            match profile {
                Some(preset) => laid_out.with_knobs(Profile::preset(preset)),
                None => laid_out,
            }
        }
    }

    /// Takes over the wishes of a start: a layout, a preset, and whether to
    /// go back to the defaults.
    pub fn settle(
        &mut self,
        boardtype: Option<BoardType>,
        profile: Option<Profiles>,
        default: bool,
    )
        ensures
            *final(self) == old(self).settled(boardtype, profile, default),
    {
        if let Some(boardtype) = boardtype {
            self.boardtype = boardtype;
        }
        if let Some(profile) = profile {
            self.set_profile(profile);
        }
        if default {
            *self = Options::default();
        }
    }

    /// The knobs of the configuration as one value.
    pub fn profile(&self) -> (knobs: Profile)
        ensures
            knobs == self.knobs(),
    {
        Profile {
            initial_type1: self.initial_type1,
            initial_type2: self.initial_type2,
            increment_type1: self.increment_type1,
            increment_type2: self.increment_type2,
            maximum_type1: self.maximum_type1,
            maximum_type2: self.maximum_type2,
            score_type1: self.score_type1,
            score_type2: self.score_type2,
            score_type1_waiting: self.score_type1_waiting,
            score_type2_waiting: self.score_type2_waiting,
            score_type1_splatted: self.score_type1_splatted,
            score_type2_splatted: self.score_type2_splatted,
            num_robots_per_safe: self.num_robots_per_safe,
            safe_score_boundary: self.safe_score_boundary,
            initial_safe_teleports: self.initial_safe_teleports,
            free_safe_teleports: self.free_safe_teleports,
            max_safe_teleports: self.max_safe_teleports,
            moveable_heaps: self.moveable_heaps,
        }
    }

    #[verifier::when_used_as_spec(spec_board_size)]
    pub fn board_size(&self) -> (size: (usize, usize))
        ensures
            size == self.spec_board_size(),
    {
        match self.boardsize {
            BoardSize::Normal => (80, 24),
        }
    }

    #[verifier::when_used_as_spec(spec_arena_size)]
    pub fn arena_size(&self) -> (size: (usize, usize))
        ensures
            size == self.spec_arena_size(),
            size == (78usize, 21usize) || size == (59usize, 22usize),
    {
        let (board_width, board_height) = self.board_size();
        match self.boardtype {
            BoardType::Normal => (board_width - 2, board_height - 3),
            BoardType::Bsd => (board_width - 2 - 19, board_height - 2),
        }
    }
}

} // verus!
