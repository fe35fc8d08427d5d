use tgm4_replay::error::ReplayError;
use tgm4_replay::mode::{KonohaDifficulty, Mode, Rule};
use tgm4_replay::replay::{Opponent, Replay};
use tgm4_replay::store::{Bucket, ReplayStore};

/// A record of the given mode, told apart from others by its score.
fn replay(mode: Mode, opponent: bool, score: u32) -> Replay {
    Replay {
        mode,
        rule: Rule::Standard,
        steamid: 1,
        played_at: 0,
        modifiers: vec![],
        score,
        seed: 0,
        time: 0,
        level: 0,
        bravo: 0,
        opponent: if opponent {
            Some(Opponent { seed: 5, rule: Rule::Tgm })
        } else {
            None
        },
    }
}

fn scores(replays: &[Replay]) -> Vec<u32> {
    replays.iter().map(|replay| replay.score).collect()
}

/// A record file of `len` zero bytes with the given tags and score.
fn file(len: usize, alt: u8, mode: u8, rule: u8, score: u32) -> Vec<u8> {
    let mut bytes = vec![0u8; len];
    if len > 0x28 {
        bytes[0x20] = alt;
        bytes[0x24] = mode;
        bytes[0x28] = rule;
    }
    if len >= 0x44 {
        bytes[0x40..0x44].copy_from_slice(&score.to_le_bytes());
    }
    bytes
}

#[test]
fn an_empty_batch_leaves_every_bucket_empty() {
    let (store, rejected) = ReplayStore::classify(vec![]);
    assert!(store.normal.is_empty());
    assert!(store.marathon.is_empty());
    assert!(store.asuka.is_empty());
    assert!(store.master.is_empty());
    assert!(store.shiranui.is_empty());
    assert!(store.konoha.is_empty());
    assert!(store.pvp.is_empty());
    assert!(rejected.is_empty());
}

#[test]
fn the_default_store_is_empty() {
    let store = ReplayStore::default();
    for bucket in [
        Bucket::Normal,
        Bucket::Marathon,
        Bucket::Asuka,
        Bucket::Master,
        Bucket::Shiranui,
        Bucket::Konoha,
        Bucket::Pvp,
    ] {
        assert!(store.replays(bucket).is_empty());
    }
}

#[test]
fn shiranui_with_an_opponent_stays_shiranui_and_normal_with_one_is_pvp() {
    let (store, rejected) = ReplayStore::classify(vec![
        (replay(Mode::Shiranui(3, 4), true, 1), "a.bin".to_string()),
        (replay(Mode::Normal, true, 2), "b.bin".to_string()),
    ]);
    assert_eq!(scores(&store.shiranui), vec![1]);
    assert_eq!(scores(&store.pvp), vec![2]);
    assert!(store.normal.is_empty());
    assert!(store.marathon.is_empty());
    assert!(store.asuka.is_empty());
    assert!(store.master.is_empty());
    assert!(store.konoha.is_empty());
    assert!(rejected.is_empty());
}

#[test]
fn each_mode_without_an_opponent_goes_to_its_own_bucket() {
    let (store, rejected) = ReplayStore::classify(vec![
        (replay(Mode::Marathon, false, 1), "1".to_string()),
        (replay(Mode::Master, false, 2), "2".to_string()),
        (replay(Mode::Normal, false, 3), "3".to_string()),
        (replay(Mode::Konoha(KonohaDifficulty::Easy), false, 4), "4".to_string()),
        (replay(Mode::Konoha(KonohaDifficulty::Hard), false, 5), "5".to_string()),
        (replay(Mode::Shiranui(0, 0), false, 6), "6".to_string()),
        (replay(Mode::Asuka, false, 7), "7".to_string()),
    ]);
    assert_eq!(scores(&store.marathon), vec![1]);
    assert_eq!(scores(&store.master), vec![2]);
    assert_eq!(scores(&store.normal), vec![3]);
    assert_eq!(scores(&store.konoha), vec![4, 5]);
    assert_eq!(scores(&store.shiranui), vec![6]);
    assert_eq!(scores(&store.asuka), vec![7]);
    assert!(store.pvp.is_empty());
    assert!(rejected.is_empty());
}

#[test]
fn every_stored_mode_but_shiranui_goes_to_pvp_with_an_opponent() {
    let (store, rejected) = ReplayStore::classify(vec![
        (replay(Mode::Marathon, true, 1), "1".to_string()),
        (replay(Mode::Master, true, 2), "2".to_string()),
        (replay(Mode::Konoha(KonohaDifficulty::Easy), true, 3), "3".to_string()),
        (replay(Mode::Asuka, true, 4), "4".to_string()),
        (replay(Mode::Normal, true, 5), "5".to_string()),
    ]);
    assert_eq!(scores(&store.pvp), vec![1, 2, 3, 4, 5]);
    assert!(store.marathon.is_empty());
    assert!(store.master.is_empty());
    assert!(store.konoha.is_empty());
    assert!(store.asuka.is_empty());
    assert!(store.normal.is_empty());
    assert!(rejected.is_empty());
}

#[test]
fn the_marker_with_an_opponent_is_not_stored_either() {
    let (store, rejected) = ReplayStore::classify(vec![
        (replay(Mode::Asuka, true, 1), "kept.bin".to_string()),
        (replay(Mode::Versus, true, 2), "marker.bin".to_string()),
    ]);
    assert_eq!(scores(&store.pvp), vec![1]);
    assert!(store.normal.is_empty());
    assert!(store.marathon.is_empty());
    assert!(store.asuka.is_empty());
    assert!(store.master.is_empty());
    assert!(store.shiranui.is_empty());
    assert!(store.konoha.is_empty());
    assert_eq!(
        rejected,
        vec![("marker.bin".to_string(), ReplayError::ClassificationAnomaly)]
    );
}

#[test]
fn the_bare_marker_is_stored_nowhere_and_reported_once() {
    let (store, rejected) = ReplayStore::classify(vec![
        (replay(Mode::Normal, false, 1), "first.bin".to_string()),
        (replay(Mode::Versus, false, 2), "odd.bin".to_string()),
        (replay(Mode::Normal, false, 3), "last.bin".to_string()),
    ]);
    assert_eq!(scores(&store.normal), vec![1, 3]);
    let stored = store.normal.len()
        + store.marathon.len()
        + store.asuka.len()
        + store.master.len()
        + store.shiranui.len()
        + store.konoha.len()
        + store.pvp.len();
    assert_eq!(stored, 2);
    assert_eq!(
        rejected,
        vec![("odd.bin".to_string(), ReplayError::ClassificationAnomaly)]
    );
}

#[test]
fn a_rejected_record_does_not_stop_the_batch() {
    let (store, rejected) = ReplayStore::classify(vec![
        (replay(Mode::Versus, false, 1), "x".to_string()),
        (replay(Mode::Versus, false, 2), "y".to_string()),
        (replay(Mode::Asuka, false, 3), "z".to_string()),
    ]);
    assert_eq!(scores(&store.asuka), vec![3]);
    assert_eq!(
        rejected,
        vec![
            ("x".to_string(), ReplayError::ClassificationAnomaly),
            ("y".to_string(), ReplayError::ClassificationAnomaly),
        ]
    );
}

#[test]
fn a_bucket_keeps_the_order_of_the_batch_and_its_duplicates() {
    let (store, _) = ReplayStore::classify(vec![
        (replay(Mode::Master, false, 30), "a".to_string()),
        (replay(Mode::Normal, false, 99), "b".to_string()),
        (replay(Mode::Master, false, 10), "c".to_string()),
        (replay(Mode::Master, false, 30), "d".to_string()),
        (replay(Mode::Master, false, 20), "e".to_string()),
    ]);
    assert_eq!(scores(&store.master), vec![30, 10, 30, 20]);
    assert_eq!(scores(&store.normal), vec![99]);
}

#[test]
fn place_appends_to_one_bucket_and_names_it() {
    let mut store = ReplayStore::default();
    assert_eq!(store.place(replay(Mode::Asuka, false, 1)), Ok(Bucket::Asuka));
    assert_eq!(store.place(replay(Mode::Asuka, true, 2)), Ok(Bucket::Pvp));
    assert_eq!(
        store.place(replay(Mode::Shiranui(1, 1), true, 3)),
        Ok(Bucket::Shiranui)
    );
    assert_eq!(
        store.place(replay(Mode::Versus, false, 4)),
        Err(ReplayError::ClassificationAnomaly)
    );
    assert_eq!(
        store.place(replay(Mode::Versus, true, 6)),
        Err(ReplayError::ClassificationAnomaly)
    );
    assert_eq!(store.place(replay(Mode::Asuka, false, 5)), Ok(Bucket::Asuka));
    assert_eq!(scores(store.replays(Bucket::Asuka)), vec![1, 5]);
    assert_eq!(scores(store.replays(Bucket::Pvp)), vec![2]);
    assert_eq!(scores(store.replays(Bucket::Shiranui)), vec![3]);
    assert!(store.replays(Bucket::Normal).is_empty());
}

#[test]
fn bucket_of_a_record() {
    assert_eq!(replay(Mode::Marathon, false, 0).bucket(), Some(Bucket::Marathon));
    assert_eq!(replay(Mode::Marathon, true, 0).bucket(), Some(Bucket::Pvp));
    assert_eq!(replay(Mode::Versus, true, 0).bucket(), None);
    assert_eq!(replay(Mode::Versus, false, 0).bucket(), None);
    assert_eq!(
        replay(Mode::Shiranui(0, 0), true, 0).bucket(),
        Some(Bucket::Shiranui)
    );
}

#[test]
fn files_are_decoded_and_sorted_and_failures_are_named() {
    let (store, failed) = ReplayStore::new(vec![
        ("a.bin".to_string(), file(0x45, 0, 0, 1, 1)),
        ("short.bin".to_string(), file(0x20, 0, 0, 0, 0)),
        ("b.bin".to_string(), file(0x108, 3, 4, 0, 2)),
        ("what.bin".to_string(), file(0x45, 0, 9, 0, 0)),
        ("c.bin".to_string(), file(0x49, 0, 4, 0, 3)),
        ("cut.bin".to_string(), file(0x100, 3, 1, 0, 0)),
        ("d.bin".to_string(), file(0x45, 0, 0, 1, 4)),
        ("e.bin".to_string(), file(0x108, 3, 0, 1, 5)),
    ]);
    assert_eq!(scores(&store.normal), vec![1, 4]);
    assert_eq!(scores(&store.pvp), vec![5]);
    assert_eq!(scores(&store.shiranui), vec![3]);
    assert!(store.marathon.is_empty());
    assert!(store.master.is_empty());
    assert!(store.asuka.is_empty());
    assert!(store.konoha.is_empty());
    assert_eq!(store.pvp[0].mode, Mode::Normal);
    assert_eq!(
        failed,
        vec![
            ("short.bin".to_string(), ReplayError::TruncatedBuffer),
            ("b.bin".to_string(), ReplayError::ClassificationAnomaly),
            ("what.bin".to_string(), ReplayError::UnrecognizedMode),
            ("cut.bin".to_string(), ReplayError::TruncatedBuffer),
        ]
    );
}

#[test]
fn no_files_give_an_empty_store() {
    let (store, failed) = ReplayStore::new(vec![]);
    assert!(store.normal.is_empty());
    assert!(store.pvp.is_empty());
    assert!(failed.is_empty());
}
