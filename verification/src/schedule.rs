//! Polling schedule and the per-entity download decisions.
//!
//! The scheduler alternates between waiting for the next run and one
//! polling pass over the tracked entities. The wait comes from the
//! polling configuration when it is usable, else from a fixed
//! twice-daily fallback, so the loop stays self-scheduling even with a
//! corrupted configuration. Within a pass, the decisions — which filter
//! result to dispatch next, and how the watermark advances — are pure
//! functions here; performing the network calls is the caller's job.

use vstd::prelude::*;
use crate::episodes::spec_parse_full;
use crate::feed::RssItem;
use crate::filter::FilterResult;
use crate::ledger::{spec_has_hash, DownloadRecord};
use crate::text::{chars_of, push_all, string_of};

verus! {

/// The singleton polling configuration.
#[derive(Debug, Clone)]
pub struct RssConfig {
    pub id: u32,
    pub poll_times_per_day: u8,
    pub last_poll_time: Option<String>,
    pub enabled: bool,
}

impl Default for RssConfig {
    /// Four polls per day, enabled, never polled yet.
    fn default() -> (r: Self)
        ensures
            r.id == 1,
            r.poll_times_per_day == 4,
            r.last_poll_time is None,
            r.enabled,
    {
        RssConfig { id: 1, poll_times_per_day: 4, last_poll_time: None, enabled: true }
    }
}

/// A tracked entity. The scheduler only ever advances the watermark
/// fields; everything else is owned by the collaborator that edits shows.
#[derive(Debug, Clone)]
pub struct Show {
    pub id: u32,
    pub title: String,
    pub alternate: String,
    pub season: u8,
    pub source: String,
    pub quality: String,
    pub download_path: Option<String>,
    pub last_downloaded_episode: u16,
    pub last_downloaded_hash: Option<String>,
    pub is_tracked: bool,
    pub latest_episode: Option<String>,
    pub next_air_date: Option<String>,
    pub created_at: Option<String>,
    pub updated_at: Option<String>,
}

impl Default for Show {
    /// An untitled tracked show on the default source and quality.
    fn default() -> (r: Self)
        ensures
            r.id == 0,
            r.title@.len() == 0,
            r.alternate@.len() == 0,
            r.season == 1,
            r.source@ == "subsplease"@,
            r.quality@ == "1080p"@,
            r.download_path is None,
            r.last_downloaded_episode == 0,
            r.last_downloaded_hash is None,
            r.is_tracked,
            r.latest_episode is None,
            r.next_air_date is None,
            r.created_at is None,
            r.updated_at is None,
    {
        proof {
            reveal_strlit("");
        }
        Show {
            id: 0,
            title: String::new(),
            alternate: String::new(),
            season: 1,
            source: "subsplease".to_owned(),
            quality: "1080p".to_owned(),
            download_path: None,
            last_downloaded_episode: 0,
            last_downloaded_hash: None,
            is_tracked: true,
            latest_episode: None,
            next_air_date: None,
            created_at: None,
            updated_at: None,
        }
    }
}

impl Show {
    /// Advances the watermark after a confirmed successful dispatch.
    pub fn update_last_downloaded(&mut self, episode: u16, hash: &str)
        ensures
            final(self).last_downloaded_episode == episode,
            final(self).last_downloaded_hash matches Some(h) && h@ == hash@,
            final(self).id == old(self).id,
            final(self).title == old(self).title,
            final(self).alternate == old(self).alternate,
            final(self).season == old(self).season,
            final(self).source == old(self).source,
            final(self).quality == old(self).quality,
            final(self).download_path == old(self).download_path,
            final(self).is_tracked == old(self).is_tracked,
            final(self).latest_episode == old(self).latest_episode,
            final(self).next_air_date == old(self).next_air_date,
    {
        self.last_downloaded_episode = episode;
        self.last_downloaded_hash = Some(hash.to_owned());
    }
}

/// Seconds of waiting between polls when the configuration is usable:
/// the day split into equal slots, kept to whole minutes.
pub fn poll_interval_seconds(cfg: &RssConfig) -> (r: Option<u32>)
    ensures
        cfg.enabled && cfg.poll_times_per_day > 0 ==> (r matches Some(x) && x as int == 60 * (
        1440int / cfg.poll_times_per_day as int)),
        !(cfg.enabled && cfg.poll_times_per_day > 0) ==> r is None,
{
    if cfg.enabled && cfg.poll_times_per_day > 0 {
        let minutes: u32 = 1440 / (cfg.poll_times_per_day as u32);
        Some(minutes * 60)
    } else {
        None
    }
}

/// The fixed twice-daily fallback: seconds from `now_secs` (seconds past
/// local midnight) to the next of 05:00 and 17:00, rolling to the next
/// day once both have passed.
pub fn fallback_wait_seconds(now_secs: u32) -> (r: u32)
    requires
        now_secs < 86400,
    ensures
        now_secs < 18000 ==> r == 18000 - now_secs,
        18000 <= now_secs < 61200 ==> r == 61200 - now_secs,
        61200 <= now_secs ==> r as int == 18000 + 86400 - now_secs,
{
    if now_secs < 18000 {
        18000 - now_secs
    } else if now_secs < 61200 {
        61200 - now_secs
    } else {
        18000 + 86400 - now_secs
    }
}

/// Seconds to wait until the next poll: the configured interval when the
/// configuration is usable, else the fallback schedule. A disabled or
/// zero configuration is never fatal.
pub fn next_wait_seconds(cfg: &RssConfig, now_secs: u32) -> (r: u32)
    requires
        now_secs < 86400,
    ensures
        cfg.enabled && cfg.poll_times_per_day > 0 ==> r as int == 60 * (1440int
            / cfg.poll_times_per_day as int),
        !(cfg.enabled && cfg.poll_times_per_day > 0) ==> (now_secs < 18000 ==> r == 18000
            - now_secs) && (18000 <= now_secs < 61200 ==> r == 61200 - now_secs) && (61200
            <= now_secs ==> r as int == 18000 + 86400 - now_secs),
{
    match poll_interval_seconds(cfg) {
        Some(secs) => secs,
        None => fallback_wait_seconds(now_secs),
    }
}

/// The fingerprint of a release: the provider's content identifier when
/// it carries one, else a deterministic synthesis from the provider name
/// and the locator, so the uniqueness constraint still applies.
pub open spec fn spec_fingerprint(source: Seq<char>, item: RssItem) -> Seq<char> {
    if item.info_hash@.len() > 0 {
        item.info_hash@
    } else {
        source + ":"@ + item.torrent_link@
    }
}

/// Computes a release's fingerprint.
pub fn fingerprint(source: &str, item: &RssItem) -> (r: String)
    ensures
        r@ == spec_fingerprint(source@, *item),
{
    if item.info_hash.as_str().is_empty() {
        let mut cs = chars_of(source);
        push_all(&mut cs, &chars_of(":"));
        push_all(&mut cs, &chars_of(item.torrent_link.as_str()));
        string_of(&cs)
    } else {
        item.info_hash.as_str().to_owned()
    }
}

/// A filter result is worth dispatching for this show: its title parses
/// to an episode beyond the watermark, and its fingerprint is not in the
/// ledger. The watermark gate is independent of the ledger: it skips
/// already-seen episode numbers even if the ledger were cleared.
pub open spec fn candidate_ok(show: Show, ledger: Seq<DownloadRecord>, fr: FilterResult) -> bool {
    &&& spec_parse_full(fr.item.title@) matches Some(e) && e.episode
        > show.last_downloaded_episode as int
    &&& !spec_has_hash(ledger, spec_fingerprint(show.source@, fr.item))
}

/// Picks the next filter result to dispatch: the first, in the given
/// score order, that is fresh by the watermark and new to the ledger.
/// Unparseable titles and stale or known releases are skipped.
pub fn next_candidate(
    show: &Show,
    ledger: &crate::ledger::DownloadHistory,
    results: &Vec<FilterResult>,
    from: usize,
) -> (r: Option<usize>)
    ensures
        match r {
            Some(i) => from <= i < results@.len() && candidate_ok(
                *show,
                ledger.records@,
                results@[i as int],
            ) && (forall|j: int|
                from <= j < i ==> !candidate_ok(*show, ledger.records@, #[trigger] results@[j])),
            None => forall|j: int|
                from <= j < results@.len() ==> !candidate_ok(
                    *show,
                    ledger.records@,
                    #[trigger] results@[j],
                ),
        },
{
    let mut i: usize = from;
    while i < results.len()
        invariant
            from <= i <= results@.len() || (from > results@.len() && i == from),
            forall|j: int|
                from <= j < i && j < results@.len() ==> !candidate_ok(
                    *show,
                    ledger.records@,
                    #[trigger] results@[j],
                ),
        decreases results@.len() - i,
    {
        let fr = &results[i];
        match crate::episodes::parse_episode_info_full(fr.item.title.as_str()) {
            Some(info) => {
                if info.episode > show.last_downloaded_episode {
                    let fp = fingerprint(show.source.as_str(), &fr.item);
                    if !ledger.is_already_downloaded(fp.as_str()) {
                        return Some(i);
                    }
                }
            },
            None => {},
        }
        proof {
            assert(!candidate_ok(*show, ledger.records@, results@[i as int]));
        }
        i = i + 1;
    }
    None
}

/// Trailing `p` tags stripped from a quality label: the firehose feed
/// is addressed by the bare tier number.
pub open spec fn spec_quality_tier(q: Seq<char>) -> Seq<char>
    decreases q.len(),
{
    if q.len() > 0 && q.last() == 'p' {
        spec_quality_tier(q.drop_last())
    } else {
        q
    }
}

/// Strips the trailing `p` from a quality label.
pub fn quality_tier(quality: &str) -> (r: String)
    ensures
        r@ == spec_quality_tier(quality@),
{
    let v = chars_of(quality);
    let mut e: usize = v.len();
    proof {
        assert(v@.subrange(0, v@.len() as int) =~= v@);
    }
    while e > 0 && v[e - 1] == 'p'
        invariant
            0 <= e <= v@.len(),
            spec_quality_tier(v@) == spec_quality_tier(v@.subrange(0, e as int)),
        decreases e,
    {
        proof {
            assert(v@.subrange(0, e as int).drop_last() =~= v@.subrange(0, e - 1));
        }
        e = e - 1;
    }
    proof {
        assert(spec_quality_tier(v@.subrange(0, e as int)) == v@.subrange(0, e as int));
    }
    string_of(&crate::text::subrange_vec(&v, 0, e))
}

/// The searchable feed's query: the provider name, a space, and the
/// show's normalized search title.
pub fn search_query(source: &str, alternate: &str) -> (r: String)
    ensures
        r@ == source@ + " "@ + crate::seasons::spec_normalize_title(alternate@),
{
    let normalized = crate::seasons::normalize_title_for_search(alternate);
    let mut cs = chars_of(source);
    push_all(&mut cs, &chars_of(" "));
    push_all(&mut cs, &chars_of(normalized.as_str()));
    string_of(&cs)
}

/// The download destination of a show: under the media root, by title,
/// and into a season folder when the season is known.
pub open spec fn spec_destination(name: Seq<char>, season: Option<u8>) -> Seq<char> {
    match season {
        Some(s) => "/data/Anime/"@ + name + "/Season "@ + crate::text::dec_chars(s as int) + "/"@,
        None => "/data/Anime/"@ + name + "/"@,
    }
}

/// Builds the destination path a dispatched release is filed under.
pub fn destination_path(show_name: &str, season: Option<u8>) -> (r: String)
    ensures
        r@ == spec_destination(show_name@, season),
{
    let mut cs = chars_of("/data/Anime/");
    push_all(&mut cs, &chars_of(show_name));
    match season {
        Some(s) => {
            push_all(&mut cs, &chars_of("/Season "));
            push_all(&mut cs, &crate::text::u32_chars(s as u32));
            push_all(&mut cs, &chars_of("/"));
        },
        None => {
            push_all(&mut cs, &chars_of("/"));
        },
    }
    string_of(&cs)
}

/// Monotonic watermark: whatever the ledger holds — even were it
/// cleared — no release whose episode is at or below the watermark is
/// ever a dispatch candidate for this show.
pub proof fn lemma_watermark_monotonic(
    show: Show,
    ledger: Seq<DownloadRecord>,
    fr: FilterResult,
    n: u16,
)
    requires
        show.last_downloaded_episode >= n,
        candidate_ok(show, ledger, fr),
    ensures
        spec_parse_full(fr.item.title@) matches Some(e) && e.episode > n as int,
{
}

} // verus!
