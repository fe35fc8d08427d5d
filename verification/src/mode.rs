//! Rule sets and game modes, and how the tag bytes of a record select them.

use crate::text::{decimal, push_decimal};
use vstd::prelude::*;
use vstd::string::StringExecFns;

verus! {

/// The scoring rule set a match was played under.
#[derive(Debug, Clone, Copy, PartialEq, Eq, Structural)]
pub enum Rule {
    Standard,
    Tgm,
}

impl Rule {
    /// The rule set that a rule byte stands for: zero is `Standard`, every
    /// other value is `Tgm`.
    pub open spec fn of_byte(value: u8) -> Rule {
        if value == 0 {
            Rule::Standard
        } else {
            Rule::Tgm
        }
    }

    /// The name under which the rule set is displayed.
    pub open spec fn label_spec(self) -> Seq<char> {
        match self {
            Rule::Standard => "Standard"@,
            Rule::Tgm => "TGM"@,
        }
    }

    /// The name under which the rule set is displayed.
    pub fn label(&self) -> (text: &'static str)
        ensures
            text@ == self.label_spec(),
    {
        match self {
            Rule::Standard => "Standard",
            Rule::Tgm => "TGM",
        }
    }
}

impl vstd::std_specs::convert::FromSpecImpl<u8> for Rule {
    open spec fn obeys_from_spec() -> bool {
        true
    }

    open spec fn from_spec(value: u8) -> Rule {
        Rule::of_byte(value)
    }
}

impl From<u8> for Rule {
    fn from(value: u8) -> (rule: Rule) {
        match value {
            0x00 => Rule::Standard,
            _ => Rule::Tgm,
        }
    }
}

/// The difficulty of a Konoha game.
#[derive(Debug, Clone, Copy, PartialEq, Eq, Structural)]
pub enum KonohaDifficulty {
    Easy,
    Hard,
}

impl KonohaDifficulty {
    /// The difficulty that a tag byte stands for: zero is `Easy`, every other
    /// value is `Hard`.
    pub open spec fn of_byte(value: u8) -> KonohaDifficulty {
        if value == 0 {
            KonohaDifficulty::Easy
        } else {
            KonohaDifficulty::Hard
        }
    }
}

impl vstd::std_specs::convert::FromSpecImpl<u8> for KonohaDifficulty {
    open spec fn obeys_from_spec() -> bool {
        true
    }

    open spec fn from_spec(value: u8) -> KonohaDifficulty {
        KonohaDifficulty::of_byte(value)
    }
}

impl From<u8> for KonohaDifficulty {
    fn from(value: u8) -> (difficulty: KonohaDifficulty) {
        match value {
            0x00 => KonohaDifficulty::Easy,
            _ => KonohaDifficulty::Hard,
        }
    }
}

/// The game variant a match was played in.
#[derive(Debug, Clone, Copy, PartialEq, Eq, Structural)]
pub enum Mode {
    Marathon,
    Master,
    Normal,
    Konoha(KonohaDifficulty),
    /// A Shiranui match, with its tier and its points.
    Shiranui(u8, u8),
    Asuka,
    /// The marker for a two-player match that the decoder does not model.
    /// It is no mode of its own and has no bucket.
    Versus,
}

impl Mode {
    /// The name under which the mode is listed. A Shiranui match is listed
    /// with its tier and its points, a Konoha game with its difficulty.
    pub open spec fn label_spec(self) -> Seq<char> {
        match self {
            Mode::Marathon => "Marathon"@,
            Mode::Master => "Master"@,
            Mode::Normal => "Normal"@,
            Mode::Konoha(KonohaDifficulty::Hard) => "Konoha Hard"@,
            Mode::Konoha(KonohaDifficulty::Easy) => "Konoha Easy"@,
            Mode::Shiranui(tier, points) => "Shiranui (Tier: "@ + decimal(tier as nat)
                + ", Points: "@ + decimal(points as nat) + ")"@,
            Mode::Asuka => "Asuka"@,
            Mode::Versus => "Versus"@,
        }
    }

    /// The name under which the mode is listed.
    pub fn label(&self) -> (text: String)
        ensures
            text@ == self.label_spec(),
    {
        match self {
            Mode::Marathon => "Marathon".to_owned(),
            Mode::Master => "Master".to_owned(),
            Mode::Normal => "Normal".to_owned(),
            Mode::Konoha(KonohaDifficulty::Hard) => "Konoha Hard".to_owned(),
            Mode::Konoha(KonohaDifficulty::Easy) => "Konoha Easy".to_owned(),
            Mode::Shiranui(tier, points) => {
                let mut text = "Shiranui (Tier: ".to_owned();
                push_decimal(&mut text, *tier as u64);
                text.append(", Points: ");
                push_decimal(&mut text, *points as u64);
                text.append(")");
                text
            },
            Mode::Asuka => "Asuka".to_owned(),
            Mode::Versus => "Versus".to_owned(),
        }
    }
}

/// The mode that the tag bytes of a record select, if any. The first line
/// that matches decides.
pub open spec fn resolve_mode(
    alt_byte: u8,
    mode_byte: u8,
    shiranui_points_byte: u8,
    shiranui_tier_byte: u8,
    rule: Rule,
) -> Option<Mode> {
    if mode_byte == 0 && rule == Rule::Standard {
        Some(Mode::Marathon)
    } else if mode_byte == 0 {
        Some(Mode::Normal)
    } else if mode_byte == 1 {
        Some(Mode::Master)
    } else if mode_byte == 3 {
        Some(Mode::Konoha(KonohaDifficulty::of_byte(alt_byte)))
    } else if mode_byte == 4 && alt_byte == 3 {
        Some(Mode::Versus)
    } else if mode_byte == 4 {
        Some(Mode::Shiranui(shiranui_tier_byte, shiranui_points_byte))
    } else if mode_byte == 5 {
        Some(Mode::Asuka)
    } else {
        None
    }
}

/// Resolves the tag bytes of a record to its mode. `None` means that the
/// mode byte is none of 0, 1, 3, 4 and 5.
pub fn parse_mode(
    alt_byte: u8,
    mode_byte: u8,
    shiranui_points_byte: u8,
    shiranui_tier_byte: u8,
    rule: &Rule,
) -> (mode: Option<Mode>)
    ensures
        mode == resolve_mode(
            alt_byte,
            mode_byte,
            shiranui_points_byte,
            shiranui_tier_byte,
            *rule,
        ),
{
    match mode_byte {
        0x00 => match rule {
            Rule::Standard => Some(Mode::Marathon),
            Rule::Tgm => Some(Mode::Normal),
        },
        0x01 => Some(Mode::Master),
        0x03 => Some(Mode::Konoha(KonohaDifficulty::from(alt_byte))),
        0x04 => if alt_byte == 0x03 {
            Some(Mode::Versus)
        } else {
            Some(Mode::Shiranui(shiranui_tier_byte, shiranui_points_byte))
        },
        0x05 => Some(Mode::Asuka),
        _ => None,
    }
}

/// A record has a mode exactly when its mode byte is one of 0, 1, 3, 4 and 5,
/// whatever the other bytes and the rule set are.
pub proof fn lemma_mode_recognized(
    alt_byte: u8,
    mode_byte: u8,
    shiranui_points_byte: u8,
    shiranui_tier_byte: u8,
    rule: Rule,
)
    ensures
        resolve_mode(alt_byte, mode_byte, shiranui_points_byte, shiranui_tier_byte, rule) is Some
            <==> (mode_byte == 0 || mode_byte == 1 || mode_byte == 3 || mode_byte == 4 || mode_byte
            == 5),
{
}

/// Mode byte 0 stands for two modes, and the rule set alone tells them
/// apart: `Standard` gives Marathon, `Tgm` gives Normal.
pub proof fn lemma_mode_zero_follows_rule(
    alt_byte: u8,
    shiranui_points_byte: u8,
    shiranui_tier_byte: u8,
)
    ensures
        resolve_mode(alt_byte, 0, shiranui_points_byte, shiranui_tier_byte, Rule::Standard) == Some(
            Mode::Marathon,
        ),
        resolve_mode(alt_byte, 0, shiranui_points_byte, shiranui_tier_byte, Rule::Tgm) == Some(
            Mode::Normal,
        ),
{
}

/// Mode byte 4 stands for Shiranui and for the two-player marker, and the
/// auxiliary byte alone tells them apart: 3 gives the marker, every other
/// value a Shiranui match that carries the tier and the points.
pub proof fn lemma_mode_four_follows_alt(
    alt_byte: u8,
    shiranui_points_byte: u8,
    shiranui_tier_byte: u8,
    rule: Rule,
)
    ensures
        resolve_mode(alt_byte, 4, shiranui_points_byte, shiranui_tier_byte, rule) == if alt_byte
            == 3 {
            Some(Mode::Versus)
        } else {
            Some(Mode::Shiranui(shiranui_tier_byte, shiranui_points_byte))
        },
{
}

} // verus!
