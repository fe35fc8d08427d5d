//! What a list of the stored records shows: the bucket on display and the
//! rows that are picked out in each bucket.

use crate::mode::Mode;
use crate::replay::Replay;
use crate::store::{Bucket, ReplayStore};
use std::collections::HashSet;
use vstd::prelude::*;

verus! {

/// Where the records on display come from.
#[derive(Debug, Clone, Copy, PartialEq, Eq, Structural)]
pub enum Tab {
    Game,
    Backup,
    Tap,
}

impl Bucket {
    /// The bucket that is listed when a mode is chosen: its own, and `Pvp`
    /// for the two-player marker.
    pub open spec fn shown_for_spec(mode: Mode) -> Bucket {
        match mode {
            Mode::Marathon => Bucket::Marathon,
            Mode::Master => Bucket::Master,
            Mode::Normal => Bucket::Normal,
            Mode::Konoha(_) => Bucket::Konoha,
            Mode::Shiranui(_, _) => Bucket::Shiranui,
            Mode::Asuka => Bucket::Asuka,
            Mode::Versus => Bucket::Pvp,
        }
    }

    /// The bucket that is listed when a mode is chosen.
    pub fn shown_for(mode: Mode) -> (bucket: Bucket)
        ensures
            bucket == Bucket::shown_for_spec(mode),
    {
        match mode {
            Mode::Marathon => Bucket::Marathon,
            Mode::Master => Bucket::Master,
            Mode::Normal => Bucket::Normal,
            Mode::Konoha(_) => Bucket::Konoha,
            Mode::Shiranui(_, _) => Bucket::Shiranui,
            Mode::Asuka => Bucket::Asuka,
            Mode::Versus => Bucket::Pvp,
        }
    }
}

/// The rows after a click on one of them: that row has changed sides, every
/// other row is as it was.
pub open spec fn toggled(rows: Set<usize>, row_index: usize) -> Set<usize> {
    if rows.contains(row_index) {
        rows.remove(row_index)
    } else {
        rows.insert(row_index)
    }
}

/// A click on a row picks it out, or lets it go if it was picked out. Without
/// a click nothing changes.
pub fn toggle_row_selection(selected_rows: &mut HashSet<usize>, row_index: usize, clicked: bool)
    ensures
        final(selected_rows)@ == if clicked {
            toggled(old(selected_rows)@, row_index)
        } else {
            old(selected_rows)@
        },
{
    if clicked {
        if selected_rows.contains(&row_index) {
            selected_rows.remove(&row_index);
        } else {
            selected_rows.insert(row_index);
        }
    }
}

/// Two clicks on the same row leave the rows as they were.
pub proof fn lemma_toggle_twice(rows: Set<usize>, row_index: usize)
    ensures
        toggled(toggled(rows, row_index), row_index) == rows,
        toggled(rows, row_index).contains(row_index) == !rows.contains(row_index),
        forall|other: usize|
            other != row_index ==> toggled(rows, row_index).contains(other) == rows.contains(other),
{
    assert(toggled(toggled(rows, row_index), row_index) =~= rows);
}

/// The rows that are picked out, bucket by bucket.
#[derive(Debug)]
pub struct SelectedRows {
    pub normal: HashSet<usize>,
    pub marathon: HashSet<usize>,
    pub asuka: HashSet<usize>,
    pub master: HashSet<usize>,
    pub shiranui: HashSet<usize>,
    pub konoha: HashSet<usize>,
    pub pvp: HashSet<usize>,
}

impl SelectedRows {
    /// The rows picked out in `bucket`.
    pub open spec fn rows(&self, bucket: Bucket) -> Set<usize> {
        match bucket {
            Bucket::Normal => self.normal@,
            Bucket::Marathon => self.marathon@,
            Bucket::Asuka => self.asuka@,
            Bucket::Master => self.master@,
            Bucket::Shiranui => self.shiranui@,
            Bucket::Konoha => self.konoha@,
            Bucket::Pvp => self.pvp@,
        }
    }

    /// Whether a row of `bucket` is picked out.
    pub fn contains(&self, bucket: Bucket, row_index: usize) -> (picked: bool)
        ensures
            picked == self.rows(bucket).contains(row_index),
    {
        match bucket {
            Bucket::Normal => self.normal.contains(&row_index),
            Bucket::Marathon => self.marathon.contains(&row_index),
            Bucket::Asuka => self.asuka.contains(&row_index),
            Bucket::Master => self.master.contains(&row_index),
            Bucket::Shiranui => self.shiranui.contains(&row_index),
            Bucket::Konoha => self.konoha.contains(&row_index),
            Bucket::Pvp => self.pvp.contains(&row_index),
        }
    }

    /// Handles a row of `bucket` that may have been clicked: a click changes
    /// the side of that row in that bucket, and nothing else.
    pub fn toggle(&mut self, bucket: Bucket, row_index: usize, clicked: bool)
        ensures
            forall|other: Bucket|
                final(self).rows(other) == if other == bucket && clicked {
                    toggled(old(self).rows(other), row_index)
                } else {
                    old(self).rows(other)
                },
    {
        match bucket {
            Bucket::Normal => toggle_row_selection(&mut self.normal, row_index, clicked),
            Bucket::Marathon => toggle_row_selection(&mut self.marathon, row_index, clicked),
            Bucket::Asuka => toggle_row_selection(&mut self.asuka, row_index, clicked),
            Bucket::Master => toggle_row_selection(&mut self.master, row_index, clicked),
            Bucket::Shiranui => toggle_row_selection(&mut self.shiranui, row_index, clicked),
            Bucket::Konoha => toggle_row_selection(&mut self.konoha, row_index, clicked),
            Bucket::Pvp => toggle_row_selection(&mut self.pvp, row_index, clicked),
        }
    }
}

impl Default for SelectedRows {
    /// No row picked out in any bucket.
    fn default() -> (selected: SelectedRows)
        ensures
            forall|bucket: Bucket| selected.rows(bucket) == Set::<usize>::empty(),
    {
        SelectedRows {
            normal: HashSet::new(),
            marathon: HashSet::new(),
            asuka: HashSet::new(),
            master: HashSet::new(),
            shiranui: HashSet::new(),
            konoha: HashSet::new(),
            pvp: HashSet::new(),
        }
    }
}

/// The state of the list of records: what is stored, which bucket is on
/// display, and which rows are picked out.
#[derive(Debug)]
pub struct ManagerUI {
    pub selected_tab: Tab,
    pub selected_mode: Mode,
    pub selected_rows: SelectedRows,
    pub replay_store: ReplayStore,
}

impl ManagerUI {
    /// The bucket on display.
    pub open spec fn shown(&self) -> Bucket {
        Bucket::shown_for_spec(self.selected_mode)
    }

    /// The list as it first appears, over the records in `replay_store`: the
    /// game tab, the Normal matches, no row picked out.
    pub fn new(replay_store: ReplayStore) -> (ui: ManagerUI)
        ensures
            ui.selected_tab == Tab::Game,
            ui.selected_mode == Mode::Normal,
            ui.replay_store == replay_store,
            forall|bucket: Bucket| ui.selected_rows.rows(bucket) == Set::<usize>::empty(),
    {
        ManagerUI {
            selected_tab: Tab::Game,
            selected_mode: Mode::Normal,
            selected_rows: SelectedRows::default(),
            replay_store,
        }
    }

    /// The records on display, in order.
    pub fn shown_replays(&self) -> (records: &Vec<Replay>)
        ensures
            records@ == self.replay_store.records(self.shown()),
    {
        self.replay_store.replays(Bucket::shown_for(self.selected_mode))
    }

    /// Whether a row of the bucket on display is picked out.
    pub fn row_selected(&self, row_index: usize) -> (picked: bool)
        ensures
            picked == self.selected_rows.rows(self.shown()).contains(row_index),
    {
        self.selected_rows.contains(Bucket::shown_for(self.selected_mode), row_index)
    }

    /// Handles a row of the bucket on display that may have been clicked.
    /// Only the rows picked out in that bucket can change.
    pub fn toggle_row(&mut self, row_index: usize, clicked: bool)
        ensures
            final(self).selected_tab == old(self).selected_tab,
            final(self).selected_mode == old(self).selected_mode,
            final(self).replay_store == old(self).replay_store,
            forall|bucket: Bucket|
                final(self).selected_rows.rows(bucket) == if bucket == old(self).shown() && clicked {
                    toggled(old(self).selected_rows.rows(bucket), row_index)
                } else {
                    old(self).selected_rows.rows(bucket)
                },
    {
        let bucket = Bucket::shown_for(self.selected_mode);
        self.selected_rows.toggle(bucket, row_index, clicked);
    }
}

impl Default for ManagerUI {
    /// The list as it first appears, over an empty store.
    fn default() -> (ui: ManagerUI)
        ensures
            ui.selected_tab == Tab::Game,
            ui.selected_mode == Mode::Normal,
            forall|bucket: Bucket| ui.replay_store.records(bucket) == Seq::<Replay>::empty(),
            forall|bucket: Bucket| ui.selected_rows.rows(bucket) == Set::<usize>::empty(),
    {
        ManagerUI::new(ReplayStore::default())
    }
}

} // verus!
