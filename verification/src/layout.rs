//! Where things go on the board: the arithmetic behind the frame, the status
//! line, the dialogs and the messages next to the player. All lengths are
//! counted in characters.

use vstd::prelude::*;

verus! {

/// The gap to leave before a board of `board` characters so that it stands
/// in the middle of a terminal of `terminal` characters, or `None` if the
/// terminal is too small for the board.
pub fn centered(terminal: usize, board: usize) -> (gap: Option<usize>)
    ensures
        gap == if terminal < board {
            None
        } else {
            Some(((terminal - board) / 2) as usize)
        },
{
    if terminal < board {
        None
    } else {
        Some((terminal - board) / 2)
    }
}

/// Where on the board a message about the player starts, for a player on
/// the cell `(x, y)` of the arena.
///
/// The message goes into the row above the player, or into the row below
/// for a player in the top row. It starts in the player's column, moved to
/// the left as far as it takes to end inside the arena.
pub fn message_origin(
    x: usize,
    y: usize,
    message_len: usize,
    arena_width: usize,
) -> (at: (usize, usize))
    requires
        x < arena_width,
        message_len <= arena_width,
    ensures
        at.0 == if x + 1 + message_len > arena_width {
            arena_width - message_len
        } else {
            x + 1
        },
        at.1 == if y == 0 {
            2
        } else {
            y as int
        },
{
    let row = if y == 0 {
        2
    } else {
        y
    };
    let column = if x + 1 > arena_width - message_len {
        arena_width - message_len
    } else {
        x + 1
    };
    (column, row)
}

/// The widths that the score and the safe teleports are padded to in a
/// status line of `status_len` characters that starts with the level: the
/// score ends as far right of the middle as half of its length, and the
/// safe teleports end at the end of the line.
pub fn status_padding(
    status_len: usize,
    level_len: usize,
    score_len: usize,
) -> (padding: (usize, usize))
    requires
        level_len <= status_len / 2,
        score_len / 2 <= status_len - status_len / 2,
    ensures
        padding.0 == status_len / 2 - level_len + score_len / 2,
        padding.1 == status_len - padding.0 - level_len,
{
    let score_padding = status_len / 2 - level_len + score_len / 2;
    let safes_padding = status_len - score_padding - level_len;
    (score_padding, safes_padding)
}

/// The frame of a dialog around a text of `text_width` by `text_height`
/// characters, in the middle of the arena: the column and the row of its top
/// left corner on the board, its width and its height.
pub fn dialog_frame(
    arena_width: usize,
    arena_height: usize,
    text_width: usize,
    text_height: usize,
) -> (frame: (usize, usize, usize, usize))
    requires
        text_width + 2 <= arena_width,
        text_height + 2 <= arena_height,
    ensures
        frame.2 == text_width + 2,
        frame.3 == text_height + 2,
        frame.0 == (arena_width - frame.2) / 2 + 1,
        frame.1 == (arena_height - frame.3) / 2 + 1,
{
    let width = text_width + 2;
    let height = text_height + 2;
    ((arena_width - width) / 2 + 1, (arena_height - height) / 2 + 1, width, height)
}

} // verus!
