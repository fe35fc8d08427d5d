use std::collections::HashSet;
use tgm4_replay::manager::{toggle_row_selection, ManagerUI, SelectedRows, Tab};
use tgm4_replay::mode::{KonohaDifficulty, Mode, Rule};
use tgm4_replay::replay::Replay;
use tgm4_replay::store::{Bucket, ReplayStore};

fn scored(mode: Mode, score: u32) -> (Replay, String) {
    let replay = Replay {
        mode,
        rule: Rule::Tgm,
        steamid: 0,
        played_at: 0,
        modifiers: vec![],
        score,
        seed: 0,
        time: 0,
        level: 0,
        bravo: 0,
        opponent: None,
    };
    (replay, String::new())
}

#[test]
fn a_click_picks_a_row_and_a_second_click_lets_it_go() {
    let mut rows: HashSet<usize> = HashSet::new();
    toggle_row_selection(&mut rows, 3, true);
    assert_eq!(rows, HashSet::from([3]));
    toggle_row_selection(&mut rows, 5, true);
    assert_eq!(rows, HashSet::from([3, 5]));
    toggle_row_selection(&mut rows, 3, true);
    assert_eq!(rows, HashSet::from([5]));
}

#[test]
fn without_a_click_the_rows_stay() {
    let mut rows: HashSet<usize> = HashSet::from([1, 2]);
    toggle_row_selection(&mut rows, 1, false);
    toggle_row_selection(&mut rows, 9, false);
    assert_eq!(rows, HashSet::from([1, 2]));
}

#[test]
fn the_bucket_shown_for_a_mode() {
    assert_eq!(Bucket::shown_for(Mode::Marathon), Bucket::Marathon);
    assert_eq!(Bucket::shown_for(Mode::Master), Bucket::Master);
    assert_eq!(Bucket::shown_for(Mode::Normal), Bucket::Normal);
    assert_eq!(
        Bucket::shown_for(Mode::Konoha(KonohaDifficulty::Hard)),
        Bucket::Konoha
    );
    assert_eq!(Bucket::shown_for(Mode::Shiranui(1, 2)), Bucket::Shiranui);
    assert_eq!(Bucket::shown_for(Mode::Asuka), Bucket::Asuka);
    assert_eq!(Bucket::shown_for(Mode::Versus), Bucket::Pvp);
}

#[test]
fn rows_are_picked_bucket_by_bucket() {
    let mut rows = SelectedRows::default();
    assert!(!rows.contains(Bucket::Normal, 0));
    rows.toggle(Bucket::Normal, 0, true);
    rows.toggle(Bucket::Pvp, 4, true);
    rows.toggle(Bucket::Master, 4, false);
    assert!(rows.contains(Bucket::Normal, 0));
    assert!(rows.contains(Bucket::Pvp, 4));
    assert!(!rows.contains(Bucket::Master, 4));
    assert!(!rows.contains(Bucket::Pvp, 0));
    rows.toggle(Bucket::Pvp, 4, true);
    assert!(!rows.contains(Bucket::Pvp, 4));
    assert_eq!(rows.normal, HashSet::from([0]));
}

#[test]
fn the_list_starts_on_the_normal_matches_of_the_game_tab() {
    let ui = ManagerUI::default();
    assert_eq!(ui.selected_tab, Tab::Game);
    assert_eq!(ui.selected_mode, Mode::Normal);
    assert!(ui.shown_replays().is_empty());
    assert!(!ui.row_selected(0));
}

#[test]
fn the_list_shows_the_bucket_of_the_chosen_mode() {
    let (store, _) = ReplayStore::classify(vec![
        scored(Mode::Normal, 1),
        scored(Mode::Asuka, 2),
        scored(Mode::Normal, 3),
    ]);
    let mut ui = ManagerUI::new(store);
    assert_eq!(ui.shown_replays().len(), 2);
    assert_eq!(ui.shown_replays()[1].score, 3);
    ui.selected_mode = Mode::Asuka;
    assert_eq!(ui.shown_replays().len(), 1);
    assert_eq!(ui.shown_replays()[0].score, 2);
    ui.selected_mode = Mode::Versus;
    assert!(ui.shown_replays().is_empty());
}

#[test]
fn a_click_in_the_list_picks_a_row_of_the_bucket_on_display() {
    let mut ui = ManagerUI::default();
    ui.toggle_row(1, true);
    assert!(ui.row_selected(1));
    ui.selected_mode = Mode::Asuka;
    assert!(!ui.row_selected(1));
    ui.toggle_row(1, false);
    assert!(!ui.row_selected(1));
    ui.toggle_row(2, true);
    ui.selected_mode = Mode::Normal;
    assert!(ui.row_selected(1));
    assert!(!ui.row_selected(2));
    ui.toggle_row(1, true);
    assert!(!ui.row_selected(1));
    assert!(ui.selected_rows.contains(Bucket::Asuka, 2));
}
