//! One decoded match record, and the decoder that assembles it.

use crate::error::ReplayError;
use crate::field::{le_i64, le_u32, le_u64, read_i64, read_u32, read_u64, read_u8};
use crate::mode::{parse_mode, resolve_mode, Mode, Rule};
use crate::modifier::{modifier_tags, parse_modifier, Mod};
use crate::text::{decimal, push_decimal};
use vstd::prelude::*;
use vstd::string::StringExecFns;

verus! {

/// Where the Shiranui points stand.
pub const SHIRANUI_POINTS_OFFSET: usize = 0x0C;

/// Where the Steam id of the player stands, eight bytes.
pub const STEAM_ID_OFFSET: usize = 0x10;

/// Where the time of the match stands, eight bytes of Unix seconds.
pub const TIMESTAMP_OFFSET: usize = 0x18;

/// Where the auxiliary tag stands. The value 3 marks a two-player match.
pub const ALT_OFFSET: usize = 0x20;

/// Where the mode tag stands.
pub const MODE_OFFSET: usize = 0x24;

/// Where the rule byte of the player stands.
pub const RULE_OFFSET: usize = 0x28;

/// Where the rule byte of the opponent stands.
pub const OPPONENT_RULE_OFFSET: usize = 0x2C;

/// Where the modifier flags stand.
pub const MODIFIER_OFFSET: usize = 0x30;

/// Where the seed of the player stands, four bytes.
pub const SEED_OFFSET: usize = 0x34;

/// Where the length of the match in frames stands, four bytes.
pub const FRAMES_OFFSET: usize = 0x38;

/// Where the level stands, four bytes.
pub const LEVEL_OFFSET: usize = 0x3C;

/// Where the score stands, four bytes.
pub const SCORE_OFFSET: usize = 0x40;

/// Where the bravo count stands.
pub const BRAVO_OFFSET: usize = 0x44;

/// Where the Shiranui tier stands.
pub const SHIRANUI_TIER_OFFSET: usize = 0x48;

/// Where the seed of the opponent stands, four bytes.
pub const OPPONENT_SEED_OFFSET: usize = 0x104;

/// The value of the auxiliary tag that marks a two-player match.
pub const VERSUS_TAG: u8 = 0x03;

/// The mode tag of a Shiranui match, and of an unmodelled two-player match.
pub const SHIRANUI_TAG: u8 = 0x04;

/// The length that every record needs: the bravo count is the last byte that
/// is always read.
pub const BASE_LEN: usize = 0x45;

/// The length that a two-player record needs: it ends with the seed of the
/// opponent.
pub const VERSUS_LEN: usize = 0x108;

/// The other player of a two-player match.
#[derive(Debug, Clone, Copy, PartialEq, Eq, Structural)]
pub struct Opponent {
    pub seed: u32,
    pub rule: Rule,
}

/// One decoded match.
#[derive(Debug, Clone)]
pub struct Replay {
    pub mode: Mode,
    pub rule: Rule,
    pub steamid: u64,
    /// When the match was played, in seconds since the Unix epoch.
    pub played_at: i64,
    pub modifiers: Vec<Mod>,
    pub score: u32,
    pub seed: u32,
    /// How long the match lasted, in milliseconds.
    pub time: u64,
    pub level: u32,
    pub bravo: u8,
    /// The other player, present exactly when the record is a two-player
    /// match, whatever its mode.
    pub opponent: Option<Opponent>,
}

/// What a [`Replay`] holds, as a mathematical value.
pub struct ReplayData {
    pub mode: Mode,
    pub rule: Rule,
    pub steamid: u64,
    pub played_at: i64,
    pub modifiers: Seq<Mod>,
    pub score: u32,
    pub seed: u32,
    pub time: u64,
    pub level: u32,
    pub bravo: u8,
    pub opponent: Option<Opponent>,
}

impl View for Replay {
    type V = ReplayData;

    open spec fn view(&self) -> ReplayData {
        ReplayData {
            mode: self.mode,
            rule: self.rule,
            steamid: self.steamid,
            played_at: self.played_at,
            modifiers: self.modifiers@,
            score: self.score,
            seed: self.seed,
            time: self.time,
            level: self.level,
            bravo: self.bravo,
            opponent: self.opponent,
        }
    }
}

/// The length of `frames` frames in milliseconds, at sixty frames a second:
/// `100 / 6` milliseconds a frame, rounded to the nearest millisecond.
pub open spec fn millis_of_frames(frames: int) -> int {
    (100 * frames + 3) / 6
}

/// Converts a length in frames to milliseconds, rounded to the nearest.
pub fn frames_to_millis(frames: u32) -> (millis: u64)
    ensures
        millis == millis_of_frames(frames as int),
{
    (100 * (frames as u64) + 3) / 6
}

/// Whether `chrono` has a date and a time of day for a Unix time in seconds.
pub uninterp spec fn has_calendar_date(secs: i64) -> bool;

/// Asks `chrono::DateTime::from_timestamp`, with the seconds given and no
/// nanoseconds, whether it has a date for them. The answer depends on the
/// seconds alone.
#[verifier::external_body]
fn calendar_date_exists(secs: i64) -> (exists: bool)
    ensures
        exists == has_calendar_date(secs),
{
    chrono::DateTime::from_timestamp(secs, 0).is_some()
}

/// A number below a hundred in two digits, a longer one as it is.
pub open spec fn two_digits(n: nat) -> Seq<char> {
    if n < 10 {
        seq!['0'] + decimal(n)
    } else {
        decimal(n)
    }
}

/// How a length in milliseconds is shown: the minutes and the seconds, two
/// digits each, then the hundreds of the milliseconds and their last digit.
pub open spec fn playtime_text(millis: nat) -> Seq<char> {
    let secs = millis / 1000;
    let rest = millis % 1000;
    two_digits(secs / 60) + seq!['\''] + two_digits(secs % 60) + seq!['"'] + decimal(rest / 100)
        + decimal(rest % 10)
}

/// Appends a number in at least two digits.
fn push_two_digits(text: &mut String, n: u64)
    ensures
        final(text)@ == old(text)@ + two_digits(n as nat),
{
    proof {
        reveal_strlit("0");
    }
    if n < 10 {
        text.append("0");
    }
    push_decimal(text, n);
    assert(text@ =~= old(text)@ + two_digits(n as nat));
}

/// Whether the record is a two-player match: its auxiliary tag is there and
/// holds the marker.
pub open spec fn is_versus(bytes: Seq<u8>) -> bool {
    bytes.len() > ALT_OFFSET && bytes[ALT_OFFSET as int] == VERSUS_TAG
}

/// The least length at which a record can decode: every record needs the
/// fields that are always read, a two-player record those of the opponent
/// too.
pub open spec fn required_len(bytes: Seq<u8>) -> nat {
    if is_versus(bytes) {
        VERSUS_LEN as nat
    } else {
        BASE_LEN as nat
    }
}

/// The opponent of a record that is long enough, if it is a two-player
/// match.
pub open spec fn opponent_of(bytes: Seq<u8>) -> Option<Opponent> {
    if is_versus(bytes) {
        Some(
            Opponent {
                seed: le_u32_at(bytes, OPPONENT_SEED_OFFSET),
                rule: Rule::of_byte(bytes[OPPONENT_RULE_OFFSET as int]),
            },
        )
    } else {
        None
    }
}

/// The `u32` at a field's offset in a record that is long enough.
pub open spec fn le_u32_at(bytes: Seq<u8>, offset: usize) -> u32 {
    le_u32(bytes, offset as int) as u32
}

/// The Shiranui tier of a record, zero where the record ends before it.
pub open spec fn tier_of(bytes: Seq<u8>) -> u8 {
    if bytes.len() > SHIRANUI_TIER_OFFSET {
        bytes[SHIRANUI_TIER_OFFSET as int]
    } else {
        0
    }
}

/// The mode of a record that is long enough, if its tags select one.
pub open spec fn mode_of(bytes: Seq<u8>) -> Option<Mode> {
    resolve_mode(
        bytes[ALT_OFFSET as int],
        bytes[MODE_OFFSET as int],
        bytes[SHIRANUI_POINTS_OFFSET as int],
        tier_of(bytes),
        Rule::of_byte(bytes[RULE_OFFSET as int]),
    )
}

/// What decoding a record gives.
///
/// A record shorter than [`required_len`] is truncated, whatever else it
/// holds. One that is long enough and whose tags select no mode is
/// unrecognized. A Shiranui record also needs its tier byte, and is truncated
/// without it. Every other record decodes, and no value of a field is
/// rejected.
pub open spec fn decode(bytes: Seq<u8>) -> Result<ReplayData, ReplayError> {
    if bytes.len() < required_len(bytes) {
        Err(ReplayError::TruncatedBuffer)
    } else {
        match mode_of(bytes) {
            None => Err(ReplayError::UnrecognizedMode),
            Some(mode) => if mode is Shiranui && bytes.len() <= SHIRANUI_TIER_OFFSET {
                Err(ReplayError::TruncatedBuffer)
            } else {
                Ok(
                    ReplayData {
                        mode,
                        rule: Rule::of_byte(bytes[RULE_OFFSET as int]),
                        steamid: le_u64(bytes, STEAM_ID_OFFSET as int) as u64,
                        played_at: le_i64(bytes, TIMESTAMP_OFFSET as int) as i64,
                        modifiers: modifier_tags(bytes[MODIFIER_OFFSET as int]),
                        score: le_u32_at(bytes, SCORE_OFFSET),
                        seed: le_u32_at(bytes, SEED_OFFSET),
                        time: millis_of_frames(le_u32_at(bytes, FRAMES_OFFSET) as int) as u64,
                        level: le_u32_at(bytes, LEVEL_OFFSET),
                        bravo: bytes[BRAVO_OFFSET as int],
                        opponent: opponent_of(bytes),
                    },
                )
            },
        }
    }
}

/// A record that is shorter than it must be is truncated, whatever its tags
/// say, and gives no record at all.
pub proof fn lemma_short_record_is_truncated(bytes: Seq<u8>)
    requires
        bytes.len() < required_len(bytes),
    ensures
        decode(bytes) == Err::<ReplayData, ReplayError>(ReplayError::TruncatedBuffer),
{
}

/// Which records decode: those that are long enough, whose mode byte is one
/// of 0, 1, 3, 4 and 5, and that hold the tier byte if they are Shiranui
/// matches. An unrecognized mode is reported only of a record that is long
/// enough.
pub proof fn lemma_decode_outcomes(bytes: Seq<u8>)
    ensures
        decode(bytes) is Ok <==> bytes.len() >= required_len(bytes) && mode_of(bytes) is Some && (
        mode_of(bytes)->Some_0 is Shiranui ==> bytes.len() > SHIRANUI_TIER_OFFSET),
        decode(bytes) == Err::<ReplayData, ReplayError>(ReplayError::UnrecognizedMode)
            <==> bytes.len() >= required_len(bytes) && mode_of(bytes) is None,
        decode(bytes) != Err::<ReplayData, ReplayError>(ReplayError::ClassificationAnomaly),
        bytes.len() >= required_len(bytes) ==> (mode_of(bytes) is Some <==> (bytes[MODE_OFFSET as int]
            == 0 || bytes[MODE_OFFSET as int] == 1 || bytes[MODE_OFFSET as int] == 3
            || bytes[MODE_OFFSET as int] == 4 || bytes[MODE_OFFSET as int] == 5)),
{
}

/// A decoded record has an opponent exactly when the record is a two-player
/// match, whatever mode its tags select.
pub proof fn lemma_opponent_follows_versus_flag(bytes: Seq<u8>)
    requires
        decode(bytes) is Ok,
    ensures
        decode(bytes)->Ok_0.opponent is Some <==> is_versus(bytes),
{
}

/// A decoded record with the marker for an unmodelled two-player match is a
/// two-player match, and so has an opponent.
pub proof fn lemma_marker_has_opponent(bytes: Seq<u8>)
    requires
        decode(bytes) is Ok,
        decode(bytes)->Ok_0.mode is Versus,
    ensures
        decode(bytes)->Ok_0.opponent is Some,
{
}

/// The length in milliseconds is the whole number nearest to `100 / 6` times
/// the number of frames, it grows with the number of frames, and sixty frames
/// make a second.
pub proof fn lemma_millis_of_frames(frames: int, more: int)
    requires
        0 <= frames <= more,
    ensures
        -3 < 6 * millis_of_frames(frames) - 100 * frames <= 3,
        millis_of_frames(frames) <= millis_of_frames(more),
        millis_of_frames(frames + 60) == millis_of_frames(frames) + 1000,
{
}

impl Replay {
    /// Whether the time at which the match was played can be shown as a date.
    /// Decoding does not ask for that: it hands on whatever the record holds.
    pub fn has_date(&self) -> (shown: bool)
        ensures
            shown == has_calendar_date(self.played_at),
    {
        calendar_date_exists(self.played_at)
    }

    /// How long the match lasted, as it is shown in a list.
    pub fn playtime(&self) -> (text: String)
        ensures
            text@ == playtime_text(self.time as nat),
    {
        proof {
            reveal_strlit("'");
            reveal_strlit("\"");
        }
        let secs = self.time / 1000;
        let rest = self.time % 1000;
        let mut text = String::new();
        push_two_digits(&mut text, secs / 60);
        text.append("'");
        push_two_digits(&mut text, secs % 60);
        text.append("\"");
        push_decimal(&mut text, rest / 100);
        push_decimal(&mut text, rest % 10);
        assert(text@ =~= playtime_text(self.time as nat));
        text
    }

    /// Decodes one record.
    ///
    /// Fails with `TruncatedBuffer` where a field that the record needs ends
    /// beyond the buffer, and with `UnrecognizedMode` where the buffer is long
    /// enough and its tags select no mode. The length is looked at first, so
    /// a record that is too short is truncated whatever its tags say. The
    /// record that comes out has an opponent exactly when the buffer is a
    /// two-player match.
    pub fn from_bytes(bytes: &[u8]) -> (decoded: Result<Replay, ReplayError>)
        ensures
            match decoded {
                Ok(replay) => decode(bytes@) == Ok::<ReplayData, ReplayError>(replay@),
                Err(error) => decode(bytes@) == Err::<ReplayData, ReplayError>(error),
            },
            bytes@.len() < required_len(bytes@) ==> decoded is Err && decoded->Err_0
                == ReplayError::TruncatedBuffer,
            decoded is Ok ==> (decoded->Ok_0.opponent is Some <==> is_versus(bytes@)),
    {
        let steamid = read_u64(bytes, STEAM_ID_OFFSET)?;
        let played_at = read_i64(bytes, TIMESTAMP_OFFSET)?;
        let alt_byte = read_u8(bytes, ALT_OFFSET)?;
        let mode_byte = read_u8(bytes, MODE_OFFSET)?;
        let shiranui_points_byte = read_u8(bytes, SHIRANUI_POINTS_OFFSET)?;
        let rule_player = Rule::from(read_u8(bytes, RULE_OFFSET)?);
        let modifier_byte = read_u8(bytes, MODIFIER_OFFSET)?;
        let seed = read_u32(bytes, SEED_OFFSET)?;
        let frames = read_u32(bytes, FRAMES_OFFSET)?;
        let level = read_u32(bytes, LEVEL_OFFSET)?;
        let score = read_u32(bytes, SCORE_OFFSET)?;
        let bravo = read_u8(bytes, BRAVO_OFFSET)?;

        let is_versus = alt_byte == VERSUS_TAG;
        let opponent = if is_versus {
            let opponent_seed = read_u32(bytes, OPPONENT_SEED_OFFSET)?;
            let rule_aux_byte = read_u8(bytes, OPPONENT_RULE_OFFSET)?;
            Some(Opponent { seed: opponent_seed, rule: Rule::from(rule_aux_byte) })
        } else {
            None
        };

        let shiranui_tier_byte = if mode_byte == SHIRANUI_TAG && !is_versus {
            read_u8(bytes, SHIRANUI_TIER_OFFSET)?
        } else {
            0
        };
        let mode = match parse_mode(
            alt_byte,
            mode_byte,
            shiranui_points_byte,
            shiranui_tier_byte,
            &rule_player,
        ) {
            Some(mode) => mode,
            None => {
                return Err(ReplayError::UnrecognizedMode);
            },
        };

        Ok(
            Replay {
                mode,
                rule: rule_player,
                steamid,
                played_at,
                modifiers: parse_modifier(modifier_byte),
                score,
                seed,
                time: frames_to_millis(frames),
                level,
                bravo,
                opponent,
            },
        )
    }
}

} // verus!
