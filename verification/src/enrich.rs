//! The episode enricher: a step machine that walks the raw catalog entries
//! of one brand in upstream order, asks its driver to look sizes up in the
//! persistent store, to probe the CDN only on a store miss, and to persist
//! freshly probed sizes, and builds the ordered episode list. A failed
//! probe drops exactly that entry; a date-parse or persist failure abandons
//! the whole feed, as the pipeline's asymmetric failure policy demands.

use vstd::prelude::*;

use crate::calendar::{date_valid, Date};
use crate::custom_date::{
    format_rfc822, parse_custom_date_on, spec_parse_custom_date, spec_rfc822, today_in_moscow,
    DateError,
};
use crate::feed::{media_url_for, spec_media_url, Episode, EpisodeModel};
use crate::text::{
    remove_escaped_quotes, remove_quote_chars, remove_quotes, str_eq, strip_esc_quotes,
    trim_quote_ends, trim_quotes,
};

verus! {

/// One raw catalog entry: the upstream JSON token text of each field, held
/// as plain strings.
pub struct CatalogEntry {
    pub id: u64,
    /// Token text of the upstream activity flag.
    pub active_raw: String,
    /// Token text of the entry's announcement, used as the title.
    pub title_raw: String,
    pub description_raw: String,
    pub duration_raw: String,
    pub published_raw: String,
    pub image_raw: String,
}

/// Ghost image of a raw catalog entry.
pub struct EntryModel {
    pub id: u64,
    pub active_raw: Seq<char>,
    pub title_raw: Seq<char>,
    pub description_raw: Seq<char>,
    pub duration_raw: Seq<char>,
    pub published_raw: Seq<char>,
    pub image_raw: Seq<char>,
}

impl View for CatalogEntry {
    type V = EntryModel;

    open spec fn view(&self) -> EntryModel {
        EntryModel {
            id: self.id,
            active_raw: self.active_raw@,
            title_raw: self.title_raw@,
            description_raw: self.description_raw@,
            duration_raw: self.duration_raw@,
            published_raw: self.published_raw@,
            image_raw: self.image_raw@,
        }
    }
}

/// The polarity observed upstream: an entry is left out of the feed when
/// its activity flag's token text reads `true`. This looks inverted
/// relative to the flag's name; it is kept exactly as observed.
pub open spec fn entry_skipped(e: EntryModel) -> bool {
    e.active_raw == "true"@
}

/// A record persisted for an episode whose size came from a fresh probe;
/// written at most once per episode id, never updated.
pub struct SizeRecord {
    pub id: u64,
    pub brand_id: u64,
    pub title: String,
    pub description: String,
    pub size: u64,
    pub duration: String,
    pub published: String,
    pub image: String,
}

/// Ghost image of a persisted size record.
pub struct SizeRecordModel {
    pub id: u64,
    pub brand_id: u64,
    pub title: Seq<char>,
    pub description: Seq<char>,
    pub size: u64,
    pub duration: Seq<char>,
    pub published: Seq<char>,
    pub image: Seq<char>,
}

impl View for SizeRecord {
    type V = SizeRecordModel;

    open spec fn view(&self) -> SizeRecordModel {
        SizeRecordModel {
            id: self.id,
            brand_id: self.brand_id,
            title: self.title@,
            description: self.description@,
            size: self.size,
            duration: self.duration@,
            published: self.published@,
            image: self.image@,
        }
    }
}

/// The record persisted for an episode: the episode's own normalized
/// fields together with its resolved size.
pub open spec fn spec_record_of(m: EpisodeModel) -> SizeRecordModel {
    SizeRecordModel {
        id: m.id,
        brand_id: m.brand_id,
        title: m.title,
        description: m.description,
        size: m.media_size,
        duration: m.duration,
        published: m.published,
        image: m.image,
    }
}

/// The episode built from one raw entry given its resolved size, or the
/// date error that abandons the feed: backslash-escaped quotes leave the
/// title and description, quote characters leave the duration, the image
/// is quote-trimmed, the media URL is derived from the id, and the
/// publication date is normalized and rendered as RFC-822 text.
pub open spec fn spec_episode_of(e: EntryModel, brand: u64, size: u64, today: Date) -> Result<
    EpisodeModel,
    DateError,
> {
    match spec_parse_custom_date(e.published_raw, today) {
        Err(err) => Err(err),
        Ok(ts) => Ok(
            EpisodeModel {
                id: e.id,
                brand_id: brand,
                title: strip_esc_quotes(e.title_raw),
                description: strip_esc_quotes(e.description_raw),
                duration: remove_quotes(e.duration_raw),
                published: spec_rfc822(ts),
                image: trim_quotes(e.image_raw),
                media_url: spec_media_url(e.id),
                media_size: size,
            },
        ),
    }
}

/// Builds the episode for one raw entry and its resolved size.
pub fn episode_from_entry(e: &CatalogEntry, brand: u64, size: u64, today: Date) -> (r: Result<
    Episode,
    DateError,
>)
    requires
        date_valid(today),
        1 <= today.year <= 9999,
    ensures
        match r {
            Ok(ep) => spec_episode_of(e@, brand, size, today) == Ok::<EpisodeModel, DateError>(
                ep@,
            ),
            Err(err) => spec_episode_of(e@, brand, size, today) == Err::<EpisodeModel, DateError>(
                err,
            ),
        },
{
    let ts = match parse_custom_date_on(e.published_raw.as_str(), today) {
        Ok(ts) => ts,
        Err(err) => {
            return Err(err);
        },
    };
    let published = format_rfc822(ts);
    Ok(
        Episode {
            id: e.id,
            brand_id: brand,
            title: remove_escaped_quotes(e.title_raw.as_str()),
            description: remove_escaped_quotes(e.description_raw.as_str()),
            duration: remove_quote_chars(e.duration_raw.as_str()),
            published,
            image: trim_quote_ends(e.image_raw.as_str()),
            media_url: media_url_for(e.id),
            media_size: size,
        },
    )
}

/// How one settled entry was resolved.
pub enum EntryStep {
    /// Left out by the activity flag.
    Inactive,
    /// Size found in the persistent store; no probe was issued.
    Stored(u64),
    /// Size freshly probed, and persisted.
    Probed(u64),
    /// The probe failed; only this entry is left out.
    ProbeFailed,
}

/// The resolved size a step carries, if any.
pub open spec fn step_size(s: EntryStep) -> Option<u64> {
    match s {
        EntryStep::Stored(z) => Some(z),
        EntryStep::Probed(z) => Some(z),
        _ => None,
    }
}

/// A step is recorded only for the entry it fits: `Inactive` exactly for
/// flagged entries, a size resolution only for the others.
pub open spec fn step_fits(e: EntryModel, s: EntryStep) -> bool {
    match s {
        EntryStep::Inactive => entry_skipped(e),
        _ => !entry_skipped(e),
    }
}

pub open spec fn steps_fit(entries: Seq<EntryModel>, steps: Seq<EntryStep>) -> bool {
    &&& steps.len() <= entries.len()
    &&& forall|i: int| 0 <= i < steps.len() ==> step_fits(entries[i], steps[i])
}

/// Every sized step of the settled prefix built its episode without a date
/// error.
pub open spec fn prefix_builds(
    brand: u64,
    entries: Seq<EntryModel>,
    steps: Seq<EntryStep>,
    today: Date,
) -> bool {
    forall|i: int|
        0 <= i < steps.len() ==> match step_size(#[trigger] steps[i]) {
            Some(sz) => spec_episode_of(entries[i], brand, sz, today) is Ok,
            None => true,
        }
}

/// The episodes produced by a settled prefix of entries, in upstream
/// order: sized steps contribute their episode, flagged and probe-failed
/// entries contribute nothing.
pub open spec fn enrich_models(
    brand: u64,
    entries: Seq<EntryModel>,
    steps: Seq<EntryStep>,
    today: Date,
) -> Seq<EpisodeModel>
    decreases steps.len(),
{
    if steps.len() == 0 {
        Seq::empty()
    } else {
        let pre = enrich_models(brand, entries, steps.drop_last(), today);
        let i = steps.len() - 1;
        match step_size(steps.last()) {
            None => pre,
            Some(sz) => match spec_episode_of(entries[i], brand, sz, today) {
                Ok(m) => pre.push(m),
                Err(_) => pre,
            },
        }
    }
}

/// What the enricher waits for next.
#[derive(Clone, Copy, PartialEq, Eq, Structural, Debug)]
pub enum Phase {
    /// Nothing pending; call `advance`.
    Scan,
    /// A store lookup for the entry under consideration is pending.
    AwaitSize,
    /// A CDN probe for the entry under consideration is pending.
    AwaitProbe,
    /// A record write for the just-built episode is pending.
    AwaitPersist,
    /// All entries settled; take the episodes.
    Done,
    /// The feed was abandoned.
    Failed,
}

/// Why a feed was abandoned.
#[derive(Clone, Copy, PartialEq, Eq, Structural, Debug)]
pub enum EnrichError {
    /// An entry's publication date failed to parse; this is fatal to the
    /// whole feed, unlike a probe failure.
    Date(DateError),
    /// The store write failed.
    Persist,
}

/// What the driver must do next.
pub enum EnrichAction {
    /// Look this episode id up in the persistent size store and report
    /// the outcome through `size_found`.
    QuerySize { id: u64 },
    /// Probe this URL for its content length and report the outcome
    /// through `probe_result`.
    Probe { url: String },
    /// Write this record to the store and report through `persist_done`.
    Persist { record: SizeRecord },
    /// Call `advance` for the next entry.
    Continue,
    /// Every entry is settled; call `take_episodes`.
    Finished,
    /// The feed is abandoned with this error.
    Abort { error: EnrichError },
}

/// The enrichment pass over one catalog, driven from outside: the machine
/// decides, the driver performs the store lookups, probes and writes.
pub struct Enricher {
    pub brand_id: u64,
    pub today: Date,
    pub entries: Vec<CatalogEntry>,
    /// Entries before this index are settled.
    pub idx: usize,
    pub phase: Phase,
    pub episodes: Vec<Episode>,
    /// How each settled entry was resolved, in order.
    pub history: Ghost<Seq<EntryStep>>,
}

impl Enricher {
    pub open spec fn entry_models(&self) -> Seq<EntryModel> {
        self.entries@.map_values(|e: CatalogEntry| e@)
    }

    pub open spec fn episode_models(&self) -> Seq<EpisodeModel> {
        self.episodes@.map_values(|e: Episode| e@)
    }

    /// The machine's invariant: the settled prefix is recorded step by
    /// step, each step fits its entry, every sized step built its episode,
    /// and the episode list is exactly the enrichment of the settled steps.
    pub open spec fn wf(&self) -> bool {
        &&& date_valid(self.today)
        &&& 1 <= self.today.year <= 9999
        &&& self.idx <= self.entries@.len()
        &&& self.history@.len() == self.idx
        &&& steps_fit(self.entry_models(), self.history@)
        &&& prefix_builds(self.brand_id, self.entry_models(), self.history@, self.today)
        &&& self.episode_models() == enrich_models(
            self.brand_id,
            self.entry_models(),
            self.history@,
            self.today,
        )
        &&& match self.phase {
            Phase::AwaitSize | Phase::AwaitProbe => self.idx < self.entries@.len()
                && !entry_skipped(self.entry_models()[self.idx as int]),
            Phase::Done => self.idx == self.entries@.len(),
            _ => true,
        }
    }

    /// Starts an enrichment pass with an explicit notion of today.
    pub fn new(brand_id: u64, entries: Vec<CatalogEntry>, today: Date) -> (r: Enricher)
        requires
            date_valid(today),
            1 <= today.year <= 9999,
        ensures
            r.wf(),
            r.phase == Phase::Scan,
            r.idx == 0,
            r.brand_id == brand_id,
            r.entries == entries,
            r.today == today,
            r.history@ == Seq::<EntryStep>::empty(),
            r.episodes@ == Seq::<Episode>::empty(),
    {
        let r = Enricher {
            brand_id,
            today,
            entries,
            idx: 0,
            phase: Phase::Scan,
            episodes: Vec::new(),
            history: Ghost(Seq::empty()),
        };
        proof {
            assert(r.episode_models() =~= Seq::<EpisodeModel>::empty());
        }
        r
    }

    /// Starts an enrichment pass, taking today's Moscow date from the
    /// clock.
    pub fn start(brand_id: u64, entries: Vec<CatalogEntry>) -> (r: Enricher)
        ensures
            r.wf(),
            r.phase == Phase::Scan,
            r.idx == 0,
            r.brand_id == brand_id,
            r.entries == entries,
            r.history@ == Seq::<EntryStep>::empty(),
            r.episodes@ == Seq::<Episode>::empty(),
    {
        let today = today_in_moscow();
        Self::new(brand_id, entries, today)
    }

    /// Moves over entries, recording the flagged ones as left out, until
    /// one needs a size or the catalog ends. The only actions it returns
    /// are a store lookup or the end of the pass.
    pub fn advance(&mut self) -> (a: EnrichAction)
        requires
            old(self).wf(),
            old(self).phase == Phase::Scan,
        ensures
            final(self).wf(),
            final(self).brand_id == old(self).brand_id,
            final(self).today == old(self).today,
            final(self).entries == old(self).entries,
            final(self).episodes == old(self).episodes,
            old(self).idx <= final(self).idx,
            final(self).history@.take(old(self).idx as int) == old(self).history@,
            forall|j: int|
                old(self).idx <= j < final(self).idx ==> final(self).history@[j]
                    == EntryStep::Inactive,
            match a {
                EnrichAction::QuerySize { id } => final(self).phase == Phase::AwaitSize
                    && final(self).idx < final(self).entries@.len() && id == final(self).entries@[final(self).idx as int].id && !entry_skipped(
                    final(self).entry_models()[final(self).idx as int],
                ),
                EnrichAction::Finished => final(self).phase == Phase::Done,
                _ => false,
            },
    {
        proof {
            assert(old(self).history@.take(old(self).idx as int) =~= old(self).history@);
        }
        loop
            invariant
                self.wf(),
                self.phase == Phase::Scan,
                self.brand_id == old(self).brand_id,
                self.today == old(self).today,
                self.entries == old(self).entries,
                self.episodes == old(self).episodes,
                old(self).idx <= self.idx,
                self.history@.take(old(self).idx as int) == old(self).history@,
                forall|j: int|
                    old(self).idx <= j < self.idx ==> self.history@[j] == EntryStep::Inactive,
            decreases self.entries@.len() - self.idx,
        {
            if self.idx >= self.entries.len() {
                self.phase = Phase::Done;
                return EnrichAction::Finished;
            }
            let skip_entry = str_eq(self.entries[self.idx].active_raw.as_str(), "true");
            if !skip_entry {
                self.phase = Phase::AwaitSize;
                return EnrichAction::QuerySize { id: self.entries[self.idx].id };
            }
            let ghost h0 = self.history@;
            proof {
                assert(h0.push(EntryStep::Inactive).drop_last() =~= h0);
                assert(h0.push(EntryStep::Inactive).take(old(self).idx as int) =~= h0.take(
                    old(self).idx as int,
                ));
            }
            self.history = Ghost(self.history@.push(EntryStep::Inactive));
            self.idx = self.idx + 1;
        }
    }

    /// Settles the entry under consideration from the store lookup's
    /// outcome. A hit never leads to a probe: the stored size is used as
    /// it is. Only a miss asks for a probe, of this entry's media URL.
    /// Records the built episode for the entry under consideration,
    /// advances past it, and moves to the given phase.
    #[verifier::rlimit(100)]
    #[verifier::spinoff_prover]
    fn commit_built(&mut self, ep: Episode, step: Ghost<EntryStep>, new_phase: Phase)
        requires
            old(self).wf(),
            old(self).phase == Phase::AwaitSize || old(self).phase == Phase::AwaitProbe,
            step_fits(old(self).entry_models()[old(self).idx as int], step@),
            match step_size(step@) {
                Some(sz) => spec_episode_of(
                    old(self).entry_models()[old(self).idx as int],
                    old(self).brand_id,
                    sz,
                    old(self).today,
                ) == Ok::<EpisodeModel, DateError>(ep@),
                None => false,
            },
            new_phase == Phase::Scan || new_phase == Phase::AwaitPersist,
        ensures
            final(self).wf(),
            final(self).brand_id == old(self).brand_id,
            final(self).today == old(self).today,
            final(self).entries == old(self).entries,
            final(self).idx == old(self).idx + 1,
            final(self).history@ == old(self).history@.push(step@),
            final(self).episode_models() == old(self).episode_models().push(ep@),
            final(self).phase == new_phase,
    {
        let ghost h0 = self.history@;
        proof {
            assert(h0.push(step@).drop_last() =~= h0);
        }
        let n = self.entries.len();
        proof {
            assert(self.idx < n);
        }
        self.episodes.push(ep);
        self.history = Ghost(self.history@.push(step@));
        self.idx = self.idx + 1;
        self.phase = new_phase;
        proof {
            assert(self.entry_models() == old(self).entry_models());
            assert(steps_fit(self.entry_models(), self.history@));
            assert(prefix_builds(self.brand_id, self.entry_models(), self.history@, self.today));
            assert(self.episode_models() =~= old(self).episode_models().push(ep@));
            assert(self.episode_models() =~= enrich_models(
                self.brand_id,
                self.entry_models(),
                self.history@,
                self.today,
            ));
        }
    }

    /// Settles the entry under consideration from the store lookup's
    /// outcome. A hit never leads to a probe: the stored size is used as
    /// it is. Only a miss asks for a probe, of this entry's media URL.
    #[verifier::rlimit(100)]
    #[verifier::spinoff_prover]
    pub fn size_found(&mut self, found: Option<u64>) -> (a: EnrichAction)
        requires
            old(self).wf(),
            old(self).phase == Phase::AwaitSize,
        ensures
            final(self).wf(),
            final(self).brand_id == old(self).brand_id,
            final(self).today == old(self).today,
            final(self).entries == old(self).entries,
            found is Some ==> !(a is Probe),
            match found {
                None => final(self).phase == Phase::AwaitProbe && final(self).idx == old(self).idx
                    && final(self).history@ == old(self).history@ && final(self).episodes == old(
                    self,
                ).episodes && (a matches EnrichAction::Probe { url } && url@ == spec_media_url(
                    old(self).entries@[old(self).idx as int].id,
                )),
                Some(sz) => match spec_episode_of(
                    old(self).entry_models()[old(self).idx as int],
                    old(self).brand_id,
                    sz,
                    old(self).today,
                ) {
                    Ok(m) => a is Continue && final(self).phase == Phase::Scan && final(self).idx
                        == old(self).idx + 1 && final(self).history@ == old(self).history@.push(
                        EntryStep::Stored(sz),
                    ) && final(self).episode_models() == old(self).episode_models().push(m),
                    Err(err) => final(self).phase == Phase::Failed && a == (EnrichAction::Abort {
                        error: EnrichError::Date(err),
                    }),
                },
            },
    {
        match found {
            None => {
                self.phase = Phase::AwaitProbe;
                let url = media_url_for(self.entries[self.idx].id);
                EnrichAction::Probe { url }
            },
            Some(sz) => {
                match episode_from_entry(&self.entries[self.idx], self.brand_id, sz, self.today) {
                    Ok(ep) => {
                        self.commit_built(ep, Ghost(EntryStep::Stored(sz)), Phase::Scan);
                        EnrichAction::Continue
                    },
                    Err(err) => {
                        self.phase = Phase::Failed;
                        EnrichAction::Abort { error: EnrichError::Date(err) }
                    },
                }
            },
        }
    }

    /// Settles the probe's outcome. A failed probe leaves exactly this
    /// entry out and the pass goes on with the episodes built so far
    /// untouched; a successful probe yields the episode and asks for its
    /// record to be persisted.
    #[verifier::rlimit(100)]
    #[verifier::spinoff_prover]
    pub fn probe_result(&mut self, probed: Option<u64>) -> (a: EnrichAction)
        requires
            old(self).wf(),
            old(self).phase == Phase::AwaitProbe,
        ensures
            final(self).wf(),
            final(self).brand_id == old(self).brand_id,
            final(self).today == old(self).today,
            final(self).entries == old(self).entries,
            match probed {
                None => a is Continue && final(self).phase == Phase::Scan && final(self).idx == old(
                    self,
                ).idx + 1 && final(self).history@ == old(self).history@.push(
                    EntryStep::ProbeFailed,
                ) && final(self).episodes == old(self).episodes,
                Some(sz) => match spec_episode_of(
                    old(self).entry_models()[old(self).idx as int],
                    old(self).brand_id,
                    sz,
                    old(self).today,
                ) {
                    Ok(m) => final(self).phase == Phase::AwaitPersist && final(self).idx == old(
                        self,
                    ).idx + 1 && final(self).history@ == old(self).history@.push(
                        EntryStep::Probed(sz),
                    ) && final(self).episode_models() == old(self).episode_models().push(m) && (
                    a matches EnrichAction::Persist { record } && record@ == spec_record_of(m)),
                    Err(err) => final(self).phase == Phase::Failed && a == (EnrichAction::Abort {
                        error: EnrichError::Date(err),
                    }),
                },
            },
    {
        match probed {
            None => {
                let ghost h0 = self.history@;
                proof {
                    assert(h0.push(EntryStep::ProbeFailed).drop_last() =~= h0);
                }
                let n = self.entries.len();
                proof {
                    assert(self.idx < n);
                }
                self.history = Ghost(self.history@.push(EntryStep::ProbeFailed));
                self.idx = self.idx + 1;
                self.phase = Phase::Scan;
                proof {
                    assert(steps_fit(self.entry_models(), self.history@));
                    assert(prefix_builds(
                        self.brand_id,
                        self.entry_models(),
                        self.history@,
                        self.today,
                    ));
                }
                EnrichAction::Continue
            },
            Some(sz) => {
                match episode_from_entry(&self.entries[self.idx], self.brand_id, sz, self.today) {
                    Ok(ep) => {
                        let record = SizeRecord {
                            id: ep.id,
                            brand_id: ep.brand_id,
                            title: ep.title.clone(),
                            description: ep.description.clone(),
                            size: ep.media_size,
                            duration: ep.duration.clone(),
                            published: ep.published.clone(),
                            image: ep.image.clone(),
                        };
                        self.commit_built(ep, Ghost(EntryStep::Probed(sz)), Phase::AwaitPersist);
                        EnrichAction::Persist { record }
                    },
                    Err(err) => {
                        self.phase = Phase::Failed;
                        EnrichAction::Abort { error: EnrichError::Date(err) }
                    },
                }
            },
        }
    }

    /// Acknowledges the record write. A failed store write abandons the
    /// whole feed: records must never be left half-written.
    pub fn persist_done(&mut self, ok: bool) -> (a: EnrichAction)
        requires
            old(self).wf(),
            old(self).phase == Phase::AwaitPersist,
        ensures
            final(self).wf(),
            final(self).brand_id == old(self).brand_id,
            final(self).today == old(self).today,
            final(self).entries == old(self).entries,
            final(self).episodes == old(self).episodes,
            final(self).history@ == old(self).history@,
            final(self).idx == old(self).idx,
            ok ==> final(self).phase == Phase::Scan && a is Continue,
            !ok ==> final(self).phase == Phase::Failed && a == (EnrichAction::Abort {
                error: EnrichError::Persist,
            }),
    {
        if ok {
            self.phase = Phase::Scan;
            EnrichAction::Continue
        } else {
            self.phase = Phase::Failed;
            EnrichAction::Abort { error: EnrichError::Persist }
        }
    }

    /// Hands out the finished episode list: exactly the enrichment of the
    /// full, settled catalog.
    pub fn take_episodes(self) -> (r: Vec<Episode>)
        requires
            self.wf(),
            self.phase == Phase::Done,
        ensures
            r@.map_values(|e: Episode| e@) == enrich_models(
                self.brand_id,
                self.entry_models(),
                self.history@,
                self.today,
            ),
            self.history@.len() == self.entries@.len(),
    {
        self.episodes
    }
}

/// Two entry lists that agree on the settled prefix enrich identically.
proof fn lemma_enrich_entries_agree(
    brand: u64,
    e1: Seq<EntryModel>,
    e2: Seq<EntryModel>,
    steps: Seq<EntryStep>,
    today: Date,
)
    requires
        forall|j: int| 0 <= j < steps.len() ==> e1[j] == e2[j],
    ensures
        enrich_models(brand, e1, steps, today) == enrich_models(brand, e2, steps, today),
    decreases steps.len(),
{
    if steps.len() > 0 {
        lemma_enrich_entries_agree(brand, e1, e2, steps.drop_last(), today);
    }
}

/// A failed size probe is local: removing that entry and its step leaves
/// the enrichment unchanged — the feed holds every other entry's episode,
/// in order, and omits only the failed one.
pub proof fn lemma_probe_failure_is_local(
    brand: u64,
    entries: Seq<EntryModel>,
    steps: Seq<EntryStep>,
    today: Date,
    i: int,
)
    requires
        0 <= i < steps.len() <= entries.len(),
        steps[i] == EntryStep::ProbeFailed,
    ensures
        enrich_models(brand, entries, steps, today) == enrich_models(
            brand,
            entries.remove(i),
            steps.remove(i),
            today,
        ),
    decreases steps.len(),
{
    let n = steps.len() as int;
    if i == n - 1 {
        assert(steps.remove(i) =~= steps.drop_last());
        lemma_enrich_entries_agree(brand, entries, entries.remove(i), steps.drop_last(), today);
    } else {
        lemma_probe_failure_is_local(brand, entries, steps.drop_last(), today, i);
        assert(steps.remove(i).drop_last() =~= steps.drop_last().remove(i));
        assert(steps.remove(i).last() == steps.last());
        assert(entries.remove(i)[steps.remove(i).len() - 1] == entries[n - 1]);
    }
}

} // verus!
