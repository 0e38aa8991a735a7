//! Small helpers of the game: validating a player's name, writing a duration,
//! scoring a game.

use vstd::prelude::*;
use vstd::string::{StrSliceExecFns, StringExecFns, StringSliceAdditionalSpecFns};
use vstd::utf8::encode_utf8;
use crate::game::GameConfig;
use crate::record::{GameRecord, GameRecordView};
use crate::text::{
    alphanumeric, byte_len, decimal, decimal_digits, is_alphanumeric, same_text,
};

verus! {

/// The most bytes a player's name or an account name may have.
pub const MAX_NAME_BYTES: usize = 64;

/// Whether `c` may stand in a name: a letter or a number, `_` or `-`, and
/// `.` where dots are allowed.
pub open spec fn name_char(c: char, dots: bool) -> bool {
    alphanumeric(c) || c == '_' || c == '-' || (dots && c == '.')
}

/// Whether every character of `name` may stand in a name.
pub open spec fn name_chars_only(name: Seq<char>, dots: bool) -> bool {
    forall|i: int| 0 <= i < name.len() ==> name_char(#[trigger] name[i], dots)
}

/// Whether every character of `name` may stand in a name.
pub fn has_name_chars_only(name: &str, dots: bool) -> (yes: bool)
    ensures
        yes == name_chars_only(name@, dots),
{
    let n: usize = name.unicode_len();
    let mut i: usize = 0;
    while i < n
        invariant
            n == name@.len(),
            i <= n,
            forall|j: int| 0 <= j < i ==> name_char(#[trigger] name@[j], dots),
        decreases n - i,
    {
        let c: char = name.get_char(i);
        if !(is_alphanumeric(c) || c == '_' || c == '-' || (dots && c == '.')) {
            assert(!name_char(name@[i as int], dots));
            return false;
        }
        i = i + 1;
    }
    true
}

/// Whether `id` can name a player: not empty, at most 64 bytes, and made of
/// letters, numbers, `_` and `-` only.
pub open spec fn valid_player_id(id: Seq<char>) -> bool {
    &&& id.len() > 0
    &&& encode_utf8(id).len() <= MAX_NAME_BYTES
    &&& name_chars_only(id, false)
}

/// Whether `player_id` can name a player.
pub fn is_valid_player_id(player_id: &str) -> (valid: bool)
    ensures
        valid == valid_player_id(player_id@),
{
    !player_id.is_empty() && byte_len(player_id) <= MAX_NAME_BYTES && has_name_chars_only(
        player_id,
        false,
    )
}

/// A duration in words: seconds below a minute, minutes and seconds below an
/// hour, hours and minutes from there on.
pub open spec fn duration_text(seconds: nat) -> Seq<char> {
    if seconds < 60 {
        decimal_digits(seconds) + " 秒"@
    } else if seconds < 3600 {
        decimal_digits(seconds / 60) + " 分 "@ + decimal_digits(seconds % 60) + " 秒"@
    } else {
        decimal_digits(seconds / 3600) + " 时 "@ + decimal_digits((seconds % 3600) / 60) + " 分"@
    }
}

/// Writes a duration in words.
pub fn format_duration(seconds: u64) -> (text: String)
    ensures
        text@ == duration_text(seconds as nat),
{
    if seconds < 60 {
        decimal(seconds as u128).concat(" 秒")
    } else if seconds < 3600 {
        decimal((seconds / 60) as u128).concat(" 分 ").concat(
            decimal((seconds % 60) as u128).as_str(),
        ).concat(" 秒")
    } else {
        decimal((seconds / 3600) as u128).concat(" 时 ").concat(
            decimal(((seconds % 3600) / 60) as u128).as_str(),
        ).concat(" 分")
    }
}

/// The score of a game: nothing for a lost game; for a won one, 1000 less 50
/// per attempt (800 at most), 100 more for a game under a minute, all of it
/// once for `easy`, three times for `hard` and twice otherwise, and never
/// under 100.
pub open spec fn game_score(record: GameRecordView) -> nat {
    if !record.success {
        0
    } else {
        let penalty: nat = if record.attempts * 50 < 800 {
            (record.attempts * 50) as nat
        } else {
            800
        };
        let bonus: nat = if record.duration_seconds < 60 {
            100
        } else {
            0
        };
        let factor: nat = if record.difficulty == "easy"@ {
            1
        } else if record.difficulty == "hard"@ {
            3
        } else {
            2
        };
        let score = ((1000 - penalty + bonus) * factor) as nat;
        if score < 100 {
            100
        } else {
            score
        }
    }
}

/// Computes the score of a game.
pub fn calculate_game_score(record: &GameRecord, _config: &GameConfig) -> (score: u32)
    ensures
        score == game_score(record@),
{
    if !record.success {
        return 0;
    }
    let penalty: u32 = if record.attempts < 16 {
        record.attempts * 50
    } else {
        800
    };
    let bonus: u32 = if record.duration_seconds < 60 {
        100
    } else {
        0
    };
    let factor: u32 = if same_text(record.difficulty.as_str(), "easy") {
        1
    } else if same_text(record.difficulty.as_str(), "hard") {
        3
    } else {
        2
    };
    let score: u32 = (1000 - penalty + bonus) * factor;
    if score < 100 {
        100
    } else {
        score
    }
}

} // verus!
