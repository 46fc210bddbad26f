//! The download-history ledger.
//!
//! The ledger answers "has this exact release already been acquired?"
//! and records acquisitions under a uniqueness constraint on the release
//! fingerprint: a fingerprint can be inserted at most once, so recording
//! is a safe at-most-once operation even under retries or concurrent
//! passes — the second insertion reports a conflict instead of making a
//! duplicate row.

use vstd::prelude::*;
use crate::TrackerError;
use crate::text::str_eq;

verus! {

/// One acquisition: which show, which episode, under which fingerprint.
#[derive(Debug, Clone)]
pub struct DownloadRecord {
    pub id: u32,
    pub show_id: u32,
    pub episode: u16,
    pub info_hash: String,
    pub torrent_url: Option<String>,
    pub downloaded_at: Option<String>,
}

/// Some record carries this fingerprint.
pub open spec fn spec_has_hash(records: Seq<DownloadRecord>, h: Seq<char>) -> bool {
    exists|i: int| 0 <= i < records.len() && (#[trigger] records[i]).info_hash@ == h
}

/// How many records carry this fingerprint.
pub open spec fn hash_count(records: Seq<DownloadRecord>, h: Seq<char>) -> int
    decreases records.len(),
{
    if records.len() == 0 {
        0
    } else {
        hash_count(records.drop_last(), h) + if records.last().info_hash@ == h {
            1int
        } else {
            0int
        }
    }
}

/// The ledger's uniqueness constraint: no fingerprint twice.
pub open spec fn hashes_unique(records: Seq<DownloadRecord>) -> bool {
    forall|i: int, j: int|
        0 <= i < j < records.len() ==> (#[trigger] records[i]).info_hash@ != (
        #[trigger] records[j]).info_hash@
}

/// The records of one show, newest first, taken from the first `i` rows.
pub open spec fn show_history_upto(records: Seq<DownloadRecord>, show_id: u32, i: int) -> Seq<
    DownloadRecord,
>
    decreases i,
    when 0 <= i <= records.len()
{
    if i == 0 {
        Seq::empty()
    } else if records[i - 1].show_id == show_id {
        seq![records[i - 1]] + show_history_upto(records, show_id, i - 1)
    } else {
        show_history_upto(records, show_id, i - 1)
    }
}

/// All records, newest first, taken from the first `i` rows.
pub open spec fn all_history_upto(records: Seq<DownloadRecord>, i: int) -> Seq<DownloadRecord>
    decreases i,
    when 0 <= i <= records.len()
{
    if i == 0 {
        Seq::empty()
    } else {
        seq![records[i - 1]] + all_history_upto(records, i - 1)
    }
}

/// The append-only download history with its uniqueness constraint.
pub struct DownloadHistory {
    pub records: Vec<DownloadRecord>,
    pub next_id: u32,
}

impl DownloadHistory {
    /// The ledger's well-formedness: fingerprints are unique.
    pub open spec fn wf(&self) -> bool {
        hashes_unique(self.records@)
    }

    /// An empty ledger.
    pub fn new() -> (r: Self)
        ensures
            r.wf(),
            r.records@.len() == 0,
            r.next_id == 1,
    {
        DownloadHistory { records: Vec::new(), next_id: 1 }
    }

    /// Whether this exact release was already acquired.
    pub fn is_already_downloaded(&self, info_hash: &str) -> (r: bool)
        ensures
            r == spec_has_hash(self.records@, info_hash@),
    {
        let mut i: usize = 0;
        while i < self.records.len()
            invariant
                0 <= i <= self.records@.len(),
                forall|j: int| 0 <= j < i ==> (#[trigger] self.records@[j]).info_hash@ != info_hash@,
            decreases self.records@.len() - i,
        {
            if str_eq(self.records[i].info_hash.as_str(), info_hash) {
                return true;
            }
            i = i + 1;
        }
        false
    }

    /// Records an acquisition; a fingerprint already present reports a
    /// conflict and changes nothing, which makes recording idempotent.
    pub fn record_download(
        &mut self,
        show_id: u32,
        episode: u16,
        hash: &str,
        url: &str,
    ) -> (r: Result<(), TrackerError>)
        requires
            old(self).wf(),
            old(self).next_id < u32::MAX,
        ensures
            final(self).wf(),
            spec_has_hash(old(self).records@, hash@) ==> (r matches Err(e) && e
                == TrackerError::Conflict && *final(self) == *old(self)),
            !spec_has_hash(old(self).records@, hash@) ==> ({
                let added = final(self).records@.last();
                &&& r is Ok
                &&& final(self).records@.len() == old(self).records@.len() + 1
                &&& final(self).records@.drop_last() == old(self).records@
                &&& added.id == old(self).next_id
                &&& added.show_id == show_id
                &&& added.episode == episode
                &&& added.info_hash@ == hash@
                &&& (added.torrent_url matches Some(u) && u@ == url@)
                &&& added.downloaded_at is None
                &&& final(self).next_id == old(self).next_id + 1
            }),
    {
        if self.is_already_downloaded(hash) {
            return Err(TrackerError::Conflict);
        }
        let rec = DownloadRecord {
            id: self.next_id,
            show_id,
            episode,
            info_hash: hash.to_owned(),
            torrent_url: Some(url.to_owned()),
            downloaded_at: None,
        };
        self.next_id = self.next_id + 1;
        let ghost before = self.records@;
        self.records.push(rec);
        proof {
            assert forall|i: int, j: int| 0 <= i < j < self.records@.len() implies (
            #[trigger] self.records@[i]).info_hash@ != (#[trigger] self.records@[j]).info_hash@ by {
                if j == self.records@.len() - 1 {
                    assert(self.records@[i] == before[i]);
                }
            }
        }
        Ok(())
    }

    /// The download history of one show, newest first.
    pub fn get_show_history(&self, show_id: u32) -> (r: Vec<DownloadRecord>)
        ensures
            r@ == show_history_upto(self.records@, show_id, self.records@.len() as int),
    {
        let mut r: Vec<DownloadRecord> = Vec::new();
        let mut i: usize = self.records.len();
        while i > 0
            invariant
                0 <= i <= self.records@.len(),
                r@ + show_history_upto(self.records@, show_id, i as int) == show_history_upto(
                    self.records@,
                    show_id,
                    self.records@.len() as int,
                ),
            decreases i,
        {
            let rec = &self.records[i - 1];
            if rec.show_id == show_id {
                let ghost prev = r@;
                r.push(clone_record(rec));
                proof {
                    assert(r@ + show_history_upto(self.records@, show_id, i - 1) =~= prev + (seq![
                        self.records@[i - 1],
                    ] + show_history_upto(self.records@, show_id, i - 1)));
                }
            }
            i = i - 1;
        }
        proof {
            assert(r@ =~= r@ + show_history_upto(self.records@, show_id, 0));
        }
        r
    }

    /// The whole download history, newest first.
    pub fn get_all_history(&self) -> (r: Vec<DownloadRecord>)
        ensures
            r@ == all_history_upto(self.records@, self.records@.len() as int),
    {
        let mut r: Vec<DownloadRecord> = Vec::new();
        let mut i: usize = self.records.len();
        while i > 0
            invariant
                0 <= i <= self.records@.len(),
                r@ + all_history_upto(self.records@, i as int) == all_history_upto(
                    self.records@,
                    self.records@.len() as int,
                ),
            decreases i,
        {
            let ghost prev = r@;
            let rec = &self.records[i - 1];
            r.push(clone_record(rec));
            proof {
                assert(r@ + all_history_upto(self.records@, i - 1) =~= prev + (seq![
                    self.records@[i - 1],
                ] + all_history_upto(self.records@, i - 1)));
            }
            i = i - 1;
        }
        proof {
            assert(r@ =~= r@ + all_history_upto(self.records@, 0));
        }
        r
    }
}

/// A field-exact copy of one record.
fn clone_record(rec: &DownloadRecord) -> (r: DownloadRecord)
    ensures
        r == *rec,
{
    DownloadRecord {
        id: rec.id,
        show_id: rec.show_id,
        episode: rec.episode,
        info_hash: rec.info_hash.clone(),
        torrent_url: match &rec.torrent_url {
            Some(u) => Some(u.clone()),
            None => None,
        },
        downloaded_at: match &rec.downloaded_at {
            Some(u) => Some(u.clone()),
            None => None,
        },
    }
}

proof fn lemma_hash_count_zero(records: Seq<DownloadRecord>, h: Seq<char>)
    requires
        !spec_has_hash(records, h),
    ensures
        hash_count(records, h) == 0,
    decreases records.len(),
{
    if records.len() > 0 {
        let prev = records.drop_last();
        assert(forall|i: int| 0 <= i < prev.len() ==> prev[i] == records[i]);
        assert(records.last().info_hash@ != h);
        lemma_hash_count_zero(prev, h);
    }
}

/// Ledger idempotence: recording a fingerprint not yet present yields
/// exactly one row with that fingerprint, and from then on the ledger
/// reports the fingerprint as already downloaded, so a second recording
/// must conflict and change nothing.
pub proof fn lemma_record_idempotent(
    before: Seq<DownloadRecord>,
    after: Seq<DownloadRecord>,
    rec: DownloadRecord,
)
    requires
        !spec_has_hash(before, rec.info_hash@),
        after == before.push(rec),
    ensures
        spec_has_hash(after, rec.info_hash@),
        hash_count(after, rec.info_hash@) == 1,
{
    assert(after[after.len() - 1] == rec);
    lemma_hash_count_zero(before, rec.info_hash@);
    assert(after.drop_last() =~= before);
}

} // verus!
