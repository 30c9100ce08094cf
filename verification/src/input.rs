use crate::board::Board;
use crate::game::Marker;
use crate::mark::Mark;
use crate::mark::lemma_index_roundtrip;
use crate::mark::mark_of_index;
use vstd::prelude::*;

verus! {

/// ASCII code points used by the text answers.
pub const UPPER_A: u8 = 65;

pub const UPPER_Z: u8 = 90;

pub const CASE_GAP: u8 = 32;

pub const LOWER_Y: u8 = 121;

pub const LOWER_E: u8 = 101;

pub const LOWER_S: u8 = 115;

pub const LOWER_N: u8 = 110;

pub const LOWER_O: u8 = 111;

pub const LOWER_X: u8 = 120;

/// The ASCII-lowercase of one byte.
pub open spec fn lower_byte(b: u8) -> u8 {
    if UPPER_A <= b <= UPPER_Z {
        (b + CASE_GAP) as u8
    } else {
        b
    }
}

/// Whether the text accepts, case-insensitively: "y" or "yes".
pub open spec fn is_yes(s: Seq<u8>) -> bool {
    ||| (s.len() == 1 && lower_byte(s[0]) == LOWER_Y)
    ||| (s.len() == 3 && lower_byte(s[0]) == LOWER_Y && lower_byte(s[1]) == LOWER_E && lower_byte(
        s[2],
    ) == LOWER_S)
}

/// Whether the text declines, case-insensitively: "n" or "no".
pub open spec fn is_no(s: Seq<u8>) -> bool {
    ||| (s.len() == 1 && lower_byte(s[0]) == LOWER_N)
    ||| (s.len() == 2 && lower_byte(s[0]) == LOWER_N && lower_byte(s[1]) == LOWER_O)
}

fn to_lower(b: u8) -> (r: u8)
    ensures
        r == lower_byte(b),
{
    if UPPER_A <= b && b <= UPPER_Z {
        b + CASE_GAP
    } else {
        b
    }
}

/// Classify a yes/no answer, case-insensitively: `Some(true)` for "y"
/// or "yes", `Some(false)` for "n" or "no", `None` for anything else.
pub fn parse_yes_no(input: &[u8]) -> (r: Option<bool>)
    ensures
        r == Some(true) <==> is_yes(input@),
        r == Some(false) <==> is_no(input@),
        r is None <==> !is_yes(input@) && !is_no(input@),
{
    if input.len() == 1 {
        let c = to_lower(input[0]);
        if c == LOWER_Y {
            Some(true)
        } else if c == LOWER_N {
            Some(false)
        } else {
            None
        }
    } else if input.len() == 2 {
        if to_lower(input[0]) == LOWER_N && to_lower(input[1]) == LOWER_O {
            Some(false)
        } else {
            None
        }
    } else if input.len() == 3 {
        if to_lower(input[0]) == LOWER_Y && to_lower(input[1]) == LOWER_E && to_lower(input[2]) == LOWER_S {
            Some(true)
        } else {
            None
        }
    } else {
        None
    }
}

/// Whether the text picks the cross symbol, case-insensitively: "x".
pub open spec fn is_cross(s: Seq<u8>) -> bool {
    s.len() == 1 && lower_byte(s[0]) == LOWER_X
}

/// Whether the text picks the naught symbol, case-insensitively: "o".
pub open spec fn is_naught(s: Seq<u8>) -> bool {
    s.len() == 1 && lower_byte(s[0]) == LOWER_O
}

/// Classify a marker choice, case-insensitively: `Some(Cross)` for
/// "x", `Some(Naught)` for "o", `None` for anything else.
pub fn parse_marker(input: &[u8]) -> (r: Option<Marker>)
    ensures
        r == Some(Marker::Cross) <==> is_cross(input@),
        r == Some(Marker::Naught) <==> is_naught(input@),
        r is None <==> !is_cross(input@) && !is_naught(input@),
{
    if input.len() == 1 {
        let c = to_lower(input[0]);
        if c == LOWER_X {
            Some(Marker::Cross)
        } else if c == LOWER_O {
            Some(Marker::Naught)
        } else {
            None
        }
    } else {
        None
    }
}

/// Decide a human move given as a linear cell index: accepted exactly
/// when the index is in range and its cell is still empty, and then
/// converted to the mark to play.
pub fn validate_move(board: &Board, index: usize) -> (r: Option<Mark>)
    ensures
        index < 9 && board@[index as int] is Empty ==> r == Some(mark_of_index(index as int)),
        !(index < 9 && board@[index as int] is Empty) ==> r is None,
{
    if index >= 9 {
        return None;
    }
    proof {
        lemma_index_roundtrip(index as int);
    }
    let mark = Mark::from(index);
    if board.get(mark.x, mark.y).is_empty() {
        Some(mark)
    } else {
        None
    }
}

} // verus!
