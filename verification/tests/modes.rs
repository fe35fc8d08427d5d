use tgm4_replay::mode::{parse_mode, KonohaDifficulty, Mode, Rule};

#[test]
fn rule_byte_zero_is_standard_and_the_rest_is_tgm() {
    assert_eq!(Rule::from(0x00), Rule::Standard);
    assert_eq!(Rule::from(0x01), Rule::Tgm);
    assert_eq!(Rule::from(0x02), Rule::Tgm);
    assert_eq!(Rule::from(0xFF), Rule::Tgm);
}

#[test]
fn difficulty_byte_zero_is_easy_and_the_rest_is_hard() {
    assert_eq!(KonohaDifficulty::from(0x00), KonohaDifficulty::Easy);
    assert_eq!(KonohaDifficulty::from(0x01), KonohaDifficulty::Hard);
    assert_eq!(KonohaDifficulty::from(0x80), KonohaDifficulty::Hard);
}

#[test]
fn rule_labels() {
    assert_eq!(Rule::Standard.label(), "Standard");
    assert_eq!(Rule::Tgm.label(), "TGM");
}

#[test]
fn mode_zero_goes_by_the_rule() {
    assert_eq!(parse_mode(0, 0, 0, 0, &Rule::Standard), Some(Mode::Marathon));
    assert_eq!(parse_mode(0, 0, 0, 0, &Rule::Tgm), Some(Mode::Normal));
    assert_eq!(parse_mode(3, 0, 9, 9, &Rule::Standard), Some(Mode::Marathon));
    assert_eq!(parse_mode(3, 0, 9, 9, &Rule::Tgm), Some(Mode::Normal));
}

#[test]
fn mode_one_is_master_under_either_rule() {
    assert_eq!(parse_mode(0, 1, 0, 0, &Rule::Standard), Some(Mode::Master));
    assert_eq!(parse_mode(7, 1, 2, 3, &Rule::Tgm), Some(Mode::Master));
}

#[test]
fn mode_three_is_konoha_with_the_difficulty_of_the_alt_byte() {
    assert_eq!(
        parse_mode(0, 3, 0, 0, &Rule::Tgm),
        Some(Mode::Konoha(KonohaDifficulty::Easy))
    );
    assert_eq!(
        parse_mode(1, 3, 0, 0, &Rule::Tgm),
        Some(Mode::Konoha(KonohaDifficulty::Hard))
    );
    assert_eq!(
        parse_mode(3, 3, 0, 0, &Rule::Standard),
        Some(Mode::Konoha(KonohaDifficulty::Hard))
    );
}

#[test]
fn mode_four_with_alt_three_is_the_versus_marker() {
    assert_eq!(parse_mode(3, 4, 5, 6, &Rule::Standard), Some(Mode::Versus));
    assert_eq!(parse_mode(3, 4, 5, 6, &Rule::Tgm), Some(Mode::Versus));
}

#[test]
fn mode_four_otherwise_is_shiranui_with_tier_then_points() {
    assert_eq!(
        parse_mode(0, 4, 5, 6, &Rule::Standard),
        Some(Mode::Shiranui(6, 5))
    );
    assert_eq!(
        parse_mode(2, 4, 200, 17, &Rule::Tgm),
        Some(Mode::Shiranui(17, 200))
    );
    assert_eq!(parse_mode(4, 4, 0, 0, &Rule::Tgm), Some(Mode::Shiranui(0, 0)));
}

#[test]
fn mode_five_is_asuka() {
    assert_eq!(parse_mode(0, 5, 0, 0, &Rule::Standard), Some(Mode::Asuka));
    assert_eq!(parse_mode(3, 5, 1, 1, &Rule::Tgm), Some(Mode::Asuka));
}

#[test]
fn every_other_mode_byte_is_unrecognized() {
    for mode_byte in 0..=255u8 {
        let known = matches!(mode_byte, 0 | 1 | 3 | 4 | 5);
        for alt_byte in [0u8, 1, 3, 255] {
            for rule in [Rule::Standard, Rule::Tgm] {
                let mode = parse_mode(alt_byte, mode_byte, 1, 2, &rule);
                assert_eq!(mode.is_some(), known);
            }
        }
    }
    assert_eq!(parse_mode(0, 2, 0, 0, &Rule::Standard), None);
    assert_eq!(parse_mode(3, 6, 0, 0, &Rule::Tgm), None);
}

#[test]
fn mode_labels() {
    assert_eq!(Mode::Marathon.label(), "Marathon");
    assert_eq!(Mode::Master.label(), "Master");
    assert_eq!(Mode::Normal.label(), "Normal");
    assert_eq!(Mode::Konoha(KonohaDifficulty::Hard).label(), "Konoha Hard");
    assert_eq!(Mode::Konoha(KonohaDifficulty::Easy).label(), "Konoha Easy");
    assert_eq!(
        Mode::Shiranui(12, 250).label(),
        "Shiranui (Tier: 12, Points: 250)"
    );
    assert_eq!(Mode::Shiranui(0, 7).label(), "Shiranui (Tier: 0, Points: 7)");
    assert_eq!(Mode::Asuka.label(), "Asuka");
    assert_eq!(Mode::Versus.label(), "Versus");
}
