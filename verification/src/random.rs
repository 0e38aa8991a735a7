//! Where chance comes in: the target of a new game and the identifiers that
//! are made up on the spot.

use rand::Rng;
use vstd::prelude::*;
use vstd::string::StringExecFns;

verus! {

/// `Rng::gen_range` of the crate rand, on the inclusive range `low..=high`
/// and with rand's thread-local generator. The crate panics on an empty
/// range, so the range must hold a number; whatever number comes back lies in
/// the range.
#[verifier::external_body]
pub(crate) fn random_in_range(low: u32, high: u32) -> (n: u32)
    requires
        low <= high,
    ensures
        low <= n <= high,
{
    rand::thread_rng().gen_range(low..=high)
}

/// `Uuid::new_v4` of the crate uuid. The one identifier that was drawn is
/// handed back written out twice: in its hyphenated form, which always has
/// 36 characters, and in its simple form, which always has 32.
#[verifier::external_body]
pub(crate) fn random_uuid() -> (id: (String, String))
    ensures
        id.0@.len() == 36,
        id.1@.len() == 32,
{
    let id = uuid::Uuid::new_v4();
    (id.to_string(), id.simple().to_string())
}

/// A new identifier for a game: 36 characters drawn at random.
pub fn new_game_id() -> (id: String)
    ensures
        id@.len() == 36,
{
    random_uuid().0
}

/// Whether `c` is a lowercase hexadecimal digit.
pub open spec fn is_hex_digit(c: char) -> bool {
    ('0' <= c && c <= '9') || ('a' <= c && c <= 'f')
}

/// The one-character text of a hexadecimal digit.
fn hex_digit_text(d: u32) -> (text: &'static str)
    requires
        d < 16,
    ensures
        text@.len() == 1,
        is_hex_digit(text@[0]),
{
    proof {
        reveal_strlit("0");
        reveal_strlit("1");
        reveal_strlit("2");
        reveal_strlit("3");
        reveal_strlit("4");
        reveal_strlit("5");
        reveal_strlit("6");
        reveal_strlit("7");
        reveal_strlit("8");
        reveal_strlit("9");
        reveal_strlit("a");
        reveal_strlit("b");
        reveal_strlit("c");
        reveal_strlit("d");
        reveal_strlit("e");
        reveal_strlit("f");
    }
    if d == 0 {
        "0"
    } else if d == 1 {
        "1"
    } else if d == 2 {
        "2"
    } else if d == 3 {
        "3"
    } else if d == 4 {
        "4"
    } else if d == 5 {
        "5"
    } else if d == 6 {
        "6"
    } else if d == 7 {
        "7"
    } else if d == 8 {
        "8"
    } else if d == 9 {
        "9"
    } else if d == 10 {
        "a"
    } else if d == 11 {
        "b"
    } else if d == 12 {
        "c"
    } else if d == 13 {
        "d"
    } else if d == 14 {
        "e"
    } else {
        "f"
    }
}

/// A made-up transaction hash: 64 hexadecimal digits drawn at random.
pub fn generate_mock_tx_hash() -> (hash: String)
    ensures
        hash@.len() == 64,
        forall|i: int| 0 <= i < 64 ==> is_hex_digit(#[trigger] hash@[i]),
{
    let mut hash = String::from_str("");
    proof {
        reveal_strlit("");
    }
    let mut i: usize = 0;
    while i < 64
        invariant
            i <= 64,
            hash@.len() == i,
            forall|j: int| 0 <= j < i ==> is_hex_digit(#[trigger] hash@[j]),
        decreases 64 - i,
    {
        let digit = random_in_range(0, 15);
        hash = hash.concat(hex_digit_text(digit));
        i = i + 1;
    }
    hash
}

/// A made-up player name: `player_` and 32 characters drawn at random.
pub fn generate_player_id() -> (id: String)
    ensures
        id@.len() == 39,
        id@.subrange(0, 7) == "player_"@,
{
    proof {
        reveal_strlit("player_");
    }
    let id = String::from_str("player_").concat(random_uuid().1.as_str());
    assert(id@.subrange(0, 7) =~= "player_"@);
    id
}

} // verus!
