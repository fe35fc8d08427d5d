//! The per-mode aggregation of decoded records.

use crate::error::ReplayError;
use crate::mode::Mode;
use crate::replay::{
    decode, is_versus, Replay, ReplayData, MODE_OFFSET, SHIRANUI_TAG, VERSUS_LEN,
};
use vstd::prelude::*;

verus! {

/// One of the seven ordered sequences of a [`ReplayStore`].
#[derive(Debug, Clone, Copy, PartialEq, Eq, Structural)]
pub enum Bucket {
    Normal,
    Marathon,
    Asuka,
    Master,
    Shiranui,
    Konoha,
    Pvp,
}

/// The bucket that a record belongs to, if any.
///
/// The marker for an unmodelled two-player match has no bucket, with or
/// without an opponent. A Shiranui match belongs to `Shiranui`, with or
/// without an opponent. Every other record belongs to `Pvp` if it has an
/// opponent, and to the bucket of its mode if it has none.
pub open spec fn bucket_of(replay: ReplayData) -> Option<Bucket> {
    match replay.mode {
        Mode::Versus => None,
        Mode::Shiranui(_, _) => Some(Bucket::Shiranui),
        mode => if replay.opponent is Some {
            Some(Bucket::Pvp)
        } else {
            match mode {
                Mode::Marathon => Some(Bucket::Marathon),
                Mode::Master => Some(Bucket::Master),
                Mode::Konoha(_) => Some(Bucket::Konoha),
                Mode::Asuka => Some(Bucket::Asuka),
                _ => Some(Bucket::Normal),
            }
        },
    }
}

impl Replay {
    /// The bucket that this record belongs to, if any.
    pub fn bucket(&self) -> (bucket: Option<Bucket>)
        ensures
            bucket == bucket_of(self@),
    {
        match self.mode {
            Mode::Versus => None,
            Mode::Shiranui(_, _) => Some(Bucket::Shiranui),
            mode => if self.opponent.is_some() {
                Some(Bucket::Pvp)
            } else {
                match mode {
                    Mode::Marathon => Some(Bucket::Marathon),
                    Mode::Master => Some(Bucket::Master),
                    Mode::Konoha(_) => Some(Bucket::Konoha),
                    Mode::Asuka => Some(Bucket::Asuka),
                    _ => Some(Bucket::Normal),
                }
            },
        }
    }
}

/// Decoded records, sorted by mode. Each bucket keeps the order in which its
/// records came, and nothing is removed or merged. No bucket holds the
/// marker for an unmodelled two-player match.
#[derive(Debug)]
pub struct ReplayStore {
    pub normal: Vec<Replay>,
    pub marathon: Vec<Replay>,
    pub asuka: Vec<Replay>,
    pub master: Vec<Replay>,
    pub shiranui: Vec<Replay>,
    pub konoha: Vec<Replay>,
    pub pvp: Vec<Replay>,
}

/// The records of a batch that belong to `bucket`, in the order of the batch.
pub open spec fn placed(records: Seq<(Replay, String)>, bucket: Bucket) -> Seq<Replay> {
    records.filter(|record: (Replay, String)| bucket_of(record.0@) == Some(bucket)).map_values(
        |record: (Replay, String)| record.0,
    )
}

/// The reports on the records of a batch that belong to no bucket, in the
/// order of the batch: each names where its record came from.
pub open spec fn anomalies(records: Seq<(Replay, String)>) -> Seq<(String, ReplayError)> {
    records.filter(|record: (Replay, String)| bucket_of(record.0@) is None).map_values(
        |record: (Replay, String)| (record.1, ReplayError::ClassificationAnomaly),
    )
}

/// What becomes of one record file: the bucket that its record lands in, or
/// why it lands in none.
pub open spec fn outcome(bytes: Seq<u8>) -> Result<Bucket, ReplayError> {
    match decode(bytes) {
        Err(error) => Err(error),
        Ok(replay) => match bucket_of(replay) {
            Some(bucket) => Ok(bucket),
            None => Err(ReplayError::ClassificationAnomaly),
        },
    }
}

/// The records decoded from those files of a batch that land in `bucket`, in
/// the order of the batch.
pub open spec fn loaded(files: Seq<(String, Vec<u8>)>, bucket: Bucket) -> Seq<ReplayData> {
    files.filter(|file: (String, Vec<u8>)| outcome(file.1@) == Ok::<Bucket, ReplayError>(bucket))
        .map_values(|file: (String, Vec<u8>)| decode(file.1@)->Ok_0)
}

/// The reports on those files of a batch that land in no bucket, in the order
/// of the batch: each names its file and says why.
pub open spec fn failures(files: Seq<(String, Vec<u8>)>) -> Seq<(String, ReplayError)> {
    files.filter(|file: (String, Vec<u8>)| outcome(file.1@) is Err).map_values(
        |file: (String, Vec<u8>)| (file.0, outcome(file.1@)->Err_0),
    )
}

/// The values of a sequence of records.
pub open spec fn values(records: Seq<Replay>) -> Seq<ReplayData> {
    records.map_values(|replay: Replay| replay@)
}

/// Where a record belongs, mode by mode: the marker nowhere, a Shiranui
/// match with the Shiranui matches, any other record with an opponent in
/// `Pvp`, and any other record without one in the bucket named after its
/// mode.
pub proof fn lemma_bucket_of(replay: ReplayData)
    ensures
        bucket_of(replay) is None <==> replay.mode is Versus,
        replay.mode is Shiranui ==> bucket_of(replay) == Some(Bucket::Shiranui),
        bucket_of(replay) == Some(Bucket::Pvp) <==> replay.opponent is Some && !(replay.mode
            is Shiranui) && !(replay.mode is Versus),
        replay.opponent is None ==> bucket_of(replay) == match replay.mode {
            Mode::Marathon => Some(Bucket::Marathon),
            Mode::Master => Some(Bucket::Master),
            Mode::Normal => Some(Bucket::Normal),
            Mode::Konoha(_) => Some(Bucket::Konoha),
            Mode::Shiranui(_, _) => Some(Bucket::Shiranui),
            Mode::Asuka => Some(Bucket::Asuka),
            Mode::Versus => None,
        },
{
}

/// Why a record file is reported: because it does not decode, and then for
/// the reason that decoding gives, or because it decodes to the marker, which
/// is the case exactly of the two-player records with mode byte 4.
pub proof fn lemma_file_outcomes(bytes: Seq<u8>)
    ensures
        outcome(bytes) matches Err(error) ==> error == ReplayError::ClassificationAnomaly
            || decode(bytes) == Err::<ReplayData, ReplayError>(error),
        outcome(bytes) == Err::<Bucket, ReplayError>(ReplayError::ClassificationAnomaly) <==> (
        decode(bytes) matches Ok(replay) && replay.mode is Versus),
        outcome(bytes) == Err::<Bucket, ReplayError>(ReplayError::ClassificationAnomaly)
            <==> is_versus(bytes) && bytes.len() >= VERSUS_LEN && bytes[MODE_OFFSET as int]
            == SHIRANUI_TAG,
{
}

/// An empty batch leaves all seven buckets empty and reports nothing.
pub proof fn lemma_empty_batch()
    ensures
        forall|bucket: Bucket| placed(Seq::empty(), bucket) == Seq::<Replay>::empty(),
        anomalies(Seq::empty()) == Seq::<(String, ReplayError)>::empty(),
        forall|bucket: Bucket| loaded(Seq::empty(), bucket) == Seq::<ReplayData>::empty(),
        failures(Seq::empty()) == Seq::<(String, ReplayError)>::empty(),
{
    let none: Seq<(Replay, String)> = Seq::empty();
    let lost = |r: (Replay, String)| bucket_of(r.0@) is None;
    assert forall|bucket: Bucket| placed(none, bucket) == Seq::<Replay>::empty() by {
        let kept = |r: (Replay, String)| bucket_of(r.0@) == Some(bucket);
        none.lemma_filter_len(kept);
        assert(placed(none, bucket) =~= Seq::<Replay>::empty());
    }
    none.lemma_filter_len(lost);
    assert(anomalies(none) =~= Seq::<(String, ReplayError)>::empty());
    let no_files: Seq<(String, Vec<u8>)> = Seq::empty();
    let failed = |file: (String, Vec<u8>)| outcome(file.1@) is Err;
    assert forall|bucket: Bucket| loaded(no_files, bucket) == Seq::<ReplayData>::empty() by {
        let kept = |file: (String, Vec<u8>)| outcome(file.1@) == Ok::<Bucket, ReplayError>(bucket);
        no_files.lemma_filter_len(kept);
        assert(loaded(no_files, bucket) =~= Seq::<ReplayData>::empty());
    }
    no_files.lemma_filter_len(failed);
    assert(failures(no_files) =~= Seq::<(String, ReplayError)>::empty());
}

/// One more record at the end of a batch comes last in its bucket and leaves
/// the other buckets alone, or comes last among the reports.
pub proof fn lemma_batch_grows(records: Seq<(Replay, String)>, record: (Replay, String))
    ensures
        forall|bucket: Bucket| #[trigger]
            placed(records.push(record), bucket) == if bucket_of(record.0@) == Some(bucket) {
                placed(records, bucket).push(record.0)
            } else {
                placed(records, bucket)
            },
        anomalies(records.push(record)) == if bucket_of(record.0@) is None {
            anomalies(records).push((record.1, ReplayError::ClassificationAnomaly))
        } else {
            anomalies(records)
        },
{
    let take = |r: (Replay, String)| r.0;
    let report = |r: (Replay, String)| (r.1, ReplayError::ClassificationAnomaly);
    let lost = |r: (Replay, String)| bucket_of(r.0@) is None;
    assert forall|bucket: Bucket| #[trigger]
        placed(records.push(record), bucket) == if bucket_of(record.0@) == Some(bucket) {
            placed(records, bucket).push(record.0)
        } else {
            placed(records, bucket)
        } by {
        let kept = |r: (Replay, String)| bucket_of(r.0@) == Some(bucket);
        records.lemma_filter_push(record, kept);
        records.filter(kept).lemma_push_map_commute(take, record);
    }
    records.lemma_filter_push(record, lost);
    records.filter(lost).lemma_push_map_commute(report, record);
}

/// Sorting two batches one after the other gives, in each bucket and among
/// the reports, what the first batch gives followed by what the second gives.
pub proof fn lemma_batches_join(first: Seq<(Replay, String)>, second: Seq<(Replay, String)>)
    ensures
        forall|bucket: Bucket| #[trigger]
            placed(first + second, bucket) == placed(first, bucket) + placed(second, bucket),
        anomalies(first + second) == anomalies(first) + anomalies(second),
    decreases second.len(),
{
    lemma_empty_batch();
    if second.len() == 0 {
        assert(first + second =~= first);
        assert(second =~= Seq::empty());
        assert forall|bucket: Bucket| #[trigger]
            placed(first + second, bucket) == placed(first, bucket) + placed(second, bucket) by {
            assert(placed(first, bucket) + Seq::<Replay>::empty() =~= placed(first, bucket));
        }
        assert(anomalies(first) + Seq::<(String, ReplayError)>::empty() =~= anomalies(first));
    } else {
        let front = second.drop_last();
        let last = second.last();
        lemma_batches_join(first, front);
        lemma_batch_grows(first + front, last);
        lemma_batch_grows(front, last);
        assert(first + second =~= (first + front).push(last));
        assert(second =~= front.push(last));
        assert forall|bucket: Bucket| #[trigger]
            placed(first + second, bucket) == placed(first, bucket) + placed(second, bucket) by {
            assert(placed(first + front, bucket) == placed(first, bucket) + placed(front, bucket));
            assert((placed(first, bucket) + placed(front, bucket)).push(last.0) =~= placed(
                first,
                bucket,
            ) + placed(front, bucket).push(last.0));
        }
        assert((anomalies(first) + anomalies(front)).push(
            (last.1, ReplayError::ClassificationAnomaly),
        ) =~= anomalies(first) + anomalies(front).push(
            (last.1, ReplayError::ClassificationAnomaly),
        ));
    }
}

/// Each record of a batch lands in exactly one place, exactly once: at its
/// turn in the bucket it belongs to, or, if it belongs to none, at its turn
/// among the reports and in no bucket.
pub proof fn lemma_record_lands_once(records: Seq<(Replay, String)>, at: int)
    requires
        0 <= at < records.len(),
    ensures
        forall|bucket: Bucket| #[trigger]
            placed(records, bucket) == placed(records.take(at), bucket) + (if bucket_of(
                records[at].0@,
            ) == Some(bucket) {
                seq![records[at].0]
            } else {
                Seq::empty()
            }) + placed(records.skip(at + 1), bucket),
        anomalies(records) == anomalies(records.take(at)) + (if bucket_of(records[at].0@) is None {
            seq![(records[at].1, ReplayError::ClassificationAnomaly)]
        } else {
            Seq::empty()
        }) + anomalies(records.skip(at + 1)),
{
    let before = records.take(at);
    let after = records.skip(at + 1);
    let record = records[at];
    assert(records =~= before.push(record) + after);
    lemma_batches_join(before.push(record), after);
    lemma_batch_grows(before, record);
    assert forall|bucket: Bucket| #[trigger]
        placed(records, bucket) == placed(before, bucket) + (if bucket_of(record.0@) == Some(
            bucket,
        ) {
            seq![record.0]
        } else {
            Seq::empty()
        }) + placed(after, bucket) by {
        assert(placed(before, bucket).push(record.0) =~= placed(before, bucket) + seq![record.0]);
        assert(placed(before, bucket) =~= placed(before, bucket) + Seq::<Replay>::empty());
    }
    let report = (record.1, ReplayError::ClassificationAnomaly);
    assert(anomalies(before).push(report) =~= anomalies(before) + seq![report]);
    assert(anomalies(before) =~= anomalies(before) + Seq::<(String, ReplayError)>::empty());
}

/// Every record in a bucket belongs there and stood in the batch. So no
/// record stands in two buckets, and one that belongs to none stands in
/// none.
pub proof fn lemma_buckets_hold_their_own(
    records: Seq<(Replay, String)>,
    bucket: Bucket,
    replay: Replay,
)
    requires
        placed(records, bucket).contains(replay),
    ensures
        bucket_of(replay@) == Some(bucket),
        exists|at: int| 0 <= at < records.len() && (#[trigger] records[at]).0 == replay,
{
    let kept = |r: (Replay, String)| bucket_of(r.0@) == Some(bucket);
    let chosen = records.filter(kept);
    let k = choose|k: int| 0 <= k < placed(records, bucket).len() && placed(records, bucket)[k]
        == replay;
    records.lemma_filter_pred(kept, k);
    assert(chosen.contains(chosen[k]));
    records.lemma_filter_contains_rev(kept, chosen[k]);
    let at = choose|at: int| 0 <= at < records.len() && records[at] == chosen[k];
    assert(records[at].0 == replay);
}

/// A record with the marker is stored in no bucket and reported exactly
/// once, at its turn among the reports, under the note of where it came from.
pub proof fn lemma_marker_reported_once(records: Seq<(Replay, String)>, at: int)
    requires
        0 <= at < records.len(),
        records[at].0.mode is Versus,
    ensures
        forall|bucket: Bucket| !(#[trigger] placed(records, bucket)).contains(records[at].0),
        anomalies(records) == anomalies(records.take(at)) + seq![
            (records[at].1, ReplayError::ClassificationAnomaly),
        ] + anomalies(records.skip(at + 1)),
{
    lemma_record_lands_once(records, at);
    assert forall|bucket: Bucket| !(#[trigger] placed(records, bucket)).contains(
        records[at].0,
    ) by {
        if placed(records, bucket).contains(records[at].0) {
            lemma_buckets_hold_their_own(records, bucket, records[at].0);
        }
    }
}

/// One more file at the end of a batch adds its record at the end of its
/// bucket and leaves the other buckets alone, or adds its report at the end
/// of the reports.
pub proof fn lemma_files_grow(files: Seq<(String, Vec<u8>)>, file: (String, Vec<u8>))
    ensures
        forall|bucket: Bucket| #[trigger]
            loaded(files.push(file), bucket) == if outcome(file.1@) == Ok::<Bucket, ReplayError>(
                bucket,
            ) {
                loaded(files, bucket).push(decode(file.1@)->Ok_0)
            } else {
                loaded(files, bucket)
            },
        failures(files.push(file)) == if outcome(file.1@) is Err {
            failures(files).push((file.0, outcome(file.1@)->Err_0))
        } else {
            failures(files)
        },
{
    let read = |f: (String, Vec<u8>)| decode(f.1@)->Ok_0;
    let report = |f: (String, Vec<u8>)| (f.0, outcome(f.1@)->Err_0);
    let failed = |f: (String, Vec<u8>)| outcome(f.1@) is Err;
    assert forall|bucket: Bucket| #[trigger]
        loaded(files.push(file), bucket) == if outcome(file.1@) == Ok::<Bucket, ReplayError>(
            bucket,
        ) {
            loaded(files, bucket).push(decode(file.1@)->Ok_0)
        } else {
            loaded(files, bucket)
        } by {
        let kept = |f: (String, Vec<u8>)| outcome(f.1@) == Ok::<Bucket, ReplayError>(bucket);
        files.lemma_filter_push(file, kept);
        files.filter(kept).lemma_push_map_commute(read, file);
    }
    files.lemma_filter_push(file, failed);
    files.filter(failed).lemma_push_map_commute(report, file);
}

impl ReplayStore {
    /// The records in `bucket`, in order.
    pub open spec fn records(&self, bucket: Bucket) -> Seq<Replay> {
        match bucket {
            Bucket::Normal => self.normal@,
            Bucket::Marathon => self.marathon@,
            Bucket::Asuka => self.asuka@,
            Bucket::Master => self.master@,
            Bucket::Shiranui => self.shiranui@,
            Bucket::Konoha => self.konoha@,
            Bucket::Pvp => self.pvp@,
        }
    }

    /// The values of the records in `bucket`, in order.
    pub open spec fn data(&self, bucket: Bucket) -> Seq<ReplayData> {
        values(self.records(bucket))
    }

    /// Whether every record stands in the bucket it belongs to. The buckets
    /// of such a store share no record, and none of them holds the marker.
    pub open spec fn well_sorted(&self) -> bool {
        forall|bucket: Bucket, i: int|
            0 <= i < self.records(bucket).len() ==> bucket_of(
                (#[trigger] self.records(bucket)[i])@,
            ) == Some(bucket)
    }

    /// The records in `bucket`, in order.
    pub fn replays(&self, bucket: Bucket) -> (records: &Vec<Replay>)
        ensures
            records@ == self.records(bucket),
    {
        match bucket {
            Bucket::Normal => &self.normal,
            Bucket::Marathon => &self.marathon,
            Bucket::Asuka => &self.asuka,
            Bucket::Master => &self.master,
            Bucket::Shiranui => &self.shiranui,
            Bucket::Konoha => &self.konoha,
            Bucket::Pvp => &self.pvp,
        }
    }

    /// Appends a record to the bucket it belongs to, and says which that is.
    /// A record that belongs to none is reported and the store stays as it
    /// was.
    pub fn place(&mut self, replay: Replay) -> (placed: Result<Bucket, ReplayError>)
        ensures
            match bucket_of(replay@) {
                Some(bucket) => placed == Ok::<Bucket, ReplayError>(bucket) && forall|other: Bucket|
                    final(self).records(other) == if other == bucket {
                        old(self).records(other).push(replay)
                    } else {
                        old(self).records(other)
                    },
                None => placed == Err::<Bucket, ReplayError>(ReplayError::ClassificationAnomaly)
                    && *final(self) == *old(self),
            },
            old(self).well_sorted() ==> final(self).well_sorted(),
    {
        match replay.bucket() {
            Some(bucket) => {
                match bucket {
                    Bucket::Normal => self.normal.push(replay),
                    Bucket::Marathon => self.marathon.push(replay),
                    Bucket::Asuka => self.asuka.push(replay),
                    Bucket::Master => self.master.push(replay),
                    Bucket::Shiranui => self.shiranui.push(replay),
                    Bucket::Konoha => self.konoha.push(replay),
                    Bucket::Pvp => self.pvp.push(replay),
                }
                proof {
                    if old(self).well_sorted() {
                        assert forall|other: Bucket, i: int|
                            0 <= i < self.records(other).len() implies bucket_of(
                            (#[trigger] self.records(other)[i])@,
                        ) == Some(other) by {
                            if i < old(self).records(other).len() {
                                assert(self.records(other)[i] == old(self).records(other)[i]);
                            }
                        }
                    }
                }
                Ok(bucket)
            },
            None => Err(ReplayError::ClassificationAnomaly),
        }
    }

    /// Sorts a batch of decoded records, each with a note of where it came
    /// from, into a new store, and reports those that belong to no bucket.
    pub fn classify(records: Vec<(Replay, String)>) -> (sorted: (
        ReplayStore,
        Vec<(String, ReplayError)>,
    ))
        ensures
            forall|bucket: Bucket| sorted.0.records(bucket) == placed(records@, bucket),
            sorted.1@ == anomalies(records@),
            sorted.0.well_sorted(),
    {
        let mut store = ReplayStore::default();
        let mut rejected: Vec<(String, ReplayError)> = Vec::new();
        let ghost all = records@;
        proof {
            lemma_empty_batch();
            assert(all.take(0) =~= Seq::empty());
        }
        for record in it: records
            invariant
                it.seq() == all,
                forall|bucket: Bucket|
                    store.records(bucket) == placed(all.take(it.index() as int), bucket),
                rejected@ == anomalies(all.take(it.index() as int)),
                store.well_sorted(),
        {
            proof {
                let seen = all.take(it.index() as int);
                lemma_batch_grows(seen, record);
                all.lemma_take_succ_push(it.index() as int);
            }
            let (replay, source) = record;
            match store.place(replay) {
                Ok(_) => {},
                Err(error) => rejected.push((source, error)),
            }
        }
        proof {
            all.lemma_take_len();
        }
        (store, rejected)
    }

    /// Decodes a batch of record files, each given with its name, and sorts
    /// the records into a new store. A file that does not decode, or whose
    /// record belongs to no bucket, is reported under its name and left out;
    /// the files after it are handled as if it had not been there.
    pub fn new(files: Vec<(String, Vec<u8>)>) -> (built: (ReplayStore, Vec<(String, ReplayError)>))
        ensures
            forall|bucket: Bucket| built.0.data(bucket) == loaded(files@, bucket),
            built.1@ == failures(files@),
            built.0.well_sorted(),
    {
        let mut store = ReplayStore::default();
        let mut failed: Vec<(String, ReplayError)> = Vec::new();
        let ghost all = files@;
        proof {
            lemma_empty_batch();
            assert(all.take(0) =~= Seq::empty());
            assert forall|bucket: Bucket| store.data(bucket) == loaded(all.take(0), bucket) by {
                assert(store.data(bucket) =~= Seq::<ReplayData>::empty());
            }
        }
        for file in it: files
            invariant
                it.seq() == all,
                forall|bucket: Bucket|
                    store.data(bucket) == loaded(all.take(it.index() as int), bucket),
                failed@ == failures(all.take(it.index() as int)),
                store.well_sorted(),
        {
            proof {
                lemma_files_grow(all.take(it.index() as int), file);
                all.lemma_take_succ_push(it.index() as int);
            }
            let ghost before = store;
            let (source, bytes) = file;
            match Replay::from_bytes(bytes.as_slice()) {
                Ok(replay) => {
                    match store.place(replay) {
                        Ok(_) => {
                            proof {
                                assert forall|bucket: Bucket|
                                    store.data(bucket) == if outcome(bytes@) == Ok::<
                                        Bucket,
                                        ReplayError,
                                    >(bucket) {
                                        before.data(bucket).push(replay@)
                                    } else {
                                        before.data(bucket)
                                    } by {
                                    before.records(bucket).lemma_push_map_commute(
                                        |r: Replay| r@,
                                        replay,
                                    );
                                }
                            }
                        },
                        Err(error) => failed.push((source, error)),
                    }
                },
                Err(error) => failed.push((source, error)),
            }
        }
        proof {
            all.lemma_take_len();
        }
        (store, failed)
    }
}

impl Default for ReplayStore {
    /// A store with seven empty buckets.
    fn default() -> (store: ReplayStore)
        ensures
            forall|bucket: Bucket| store.records(bucket) == Seq::<Replay>::empty(),
            store.well_sorted(),
    {
        ReplayStore {
            normal: Vec::new(),
            marathon: Vec::new(),
            asuka: Vec::new(),
            master: Vec::new(),
            shiranui: Vec::new(),
            konoha: Vec::new(),
            pvp: Vec::new(),
        }
    }
}

} // verus!
