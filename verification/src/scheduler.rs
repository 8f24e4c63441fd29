//! The periodic enrichment of asset profiles.
//!
//! After an initial delay the assets are listed, the profiles of those that need it are enriched,
//! and after an interval it begins anew. [`next_action`] takes what has happened and says what is
//! next. While the profiles of a cycle are enriched, a [`Cycle`] says which of them to start on.
//! What holds of all that may happen in the course of a schedule is stated in [`crate::course`].

use vstd::prelude::*;
use vstd::string::*;

verus! {

/// How many profiles are enriched at a time, at most.
pub const MAX_CONCURRENT_ENRICHMENTS: usize = 5;

/// Where the quotes of an asset come from.
#[derive(Debug, Clone, Copy, PartialEq, Eq, Structural)]
pub enum QuoteMode {
    /// From a market data provider.
    Market,
    /// From the user.
    Manual,
}

/// What the schedule reads of an asset.
#[derive(Debug, PartialEq, Eq)]
pub struct Asset {
    pub id: String,
    pub is_active: bool,
    pub quote_mode: QuoteMode,
}

/// The profile of the asset is enriched: the asset is in use, and its quotes come from a market.
pub open spec fn is_enriched(asset: Asset) -> bool {
    asset.is_active && asset.quote_mode == QuoteMode::Market
}

/// The assets whose profiles are enriched, by their ids and in their order.
pub open spec fn enriched_ids(assets: Seq<Asset>) -> Seq<Seq<char>> {
    assets.filter(|asset: Asset| is_enriched(asset)).map_values(|asset: Asset| asset.id@)
}

/// The assets whose profiles are enriched, by their ids and in their order.
pub fn enrichment_ids(assets: &Vec<Asset>) -> (ids: Vec<String>)
    ensures
        ids.deep_view() == enriched_ids(assets@),
{
    let ghost counts = |asset: Asset| is_enriched(asset);
    let ghost as_id = |asset: Asset| asset.id@;
    let mut ids: Vec<String> = Vec::new();
    let mut i: usize = 0;
    proof {
        reveal(Seq::filter);
        assert(assets@.take(0).filter(counts) =~= Seq::empty());
    }
    while i < assets.len()
        invariant
            i <= assets@.len(),
            counts == |asset: Asset| is_enriched(asset),
            as_id == |asset: Asset| asset.id@,
            ids.deep_view() == assets@.take(i as int).filter(counts).map_values(as_id),
        decreases assets@.len() - i,
    {
        let ghost before = assets@.take(i as int).filter(counts);
        let ghost earlier = ids.deep_view();
        proof {
            reveal(Seq::filter);
            let asset = assets@[i as int];
            assert(assets@.take(i + 1).drop_last() =~= assets@.take(i as int));
            assert(assets@.take(i + 1).last() == asset);
            assert(before.push(asset).map_values(as_id) =~= before.map_values(as_id).push(
                as_id(asset),
            ));
        }
        if assets[i].is_active && assets[i].quote_mode == QuoteMode::Market {
            let id = assets[i].id.clone();
            ids.push(id);
            assert(ids.deep_view() =~= earlier.push(id@));
        }
        i += 1;
    }
    assert(assets@.take(i as int) =~= assets@);
    ids
}

/// What came of enriching one profile: the asset's id, and the printed reason of a failure.
pub type EnrichmentResult = (String, Result<(), String>);

/// What came of enriching the profiles of a cycle.
#[derive(Debug, Clone, Copy, PartialEq, Eq, Structural)]
pub struct CycleSummary {
    pub enriched: usize,
    pub failed: usize,
}

/// The number of profiles that were enriched.
pub open spec fn enriched_count(results: Seq<EnrichmentResult>) -> nat {
    results.filter(|result: EnrichmentResult| result.1 is Ok).len()
}

/// The number of profiles that could not be enriched.
pub open spec fn failed_count(results: Seq<EnrichmentResult>) -> nat {
    results.filter(|result: EnrichmentResult| result.1 is Err).len()
}

/// Each profile was enriched, or could not be.
pub proof fn counts_add_up(results: Seq<EnrichmentResult>)
    ensures
        enriched_count(results) + failed_count(results) == results.len(),
    decreases results.len(),
{
    reveal(Seq::filter);
    if results.len() > 0 {
        counts_add_up(results.drop_last());
    }
}

/// Counts what came of enriching the profiles of a cycle.
pub fn summarize(results: &Vec<EnrichmentResult>) -> (summary: CycleSummary)
    ensures
        summary.enriched == enriched_count(results@),
        summary.failed == failed_count(results@),
        summary.enriched + summary.failed == results@.len(),
{
    let mut enriched: usize = 0;
    let mut failed: usize = 0;
    let mut i: usize = 0;
    proof {
        reveal(Seq::filter);
    }
    while i < results.len()
        invariant
            i <= results@.len(),
            enriched == enriched_count(results@.take(i as int)),
            failed == failed_count(results@.take(i as int)),
            enriched + failed == i,
        decreases results@.len() - i,
    {
        proof {
            reveal(Seq::filter);
            assert(results@.take(i + 1).drop_last() =~= results@.take(i as int));
            assert(results@.take(i + 1).last() == results@[i as int]);
        }
        if results[i].1.is_ok() {
            enriched += 1;
        } else {
            failed += 1;
        }
        i += 1;
    }
    assert(results@.take(i as int) =~= results@);
    CycleSummary { enriched, failed }
}

/// How long the schedule sleeps.
#[derive(Debug, Clone, Copy, PartialEq, Eq, Structural)]
pub enum Delay {
    /// The delay before the first cycle.
    Initial,
    /// The interval between two cycles.
    Interval,
}

/// What has happened.
#[derive(Debug, PartialEq, Eq)]
pub enum SchedulerEvent {
    /// The schedule was started.
    Started,
    /// A sleep is over.
    Woken,
    /// The assets were listed, or could not be, for the printed reason.
    Listed(Result<Vec<Asset>, String>),
    /// The profiles of a cycle were enriched, or could not be.
    Enriched(Vec<EnrichmentResult>),
}

/// What is to be done.
#[derive(Debug, PartialEq, Eq)]
pub enum SchedulerAction {
    /// Sleep; where a cycle was completed before, this is what came of it.
    Sleep { delay: Delay, completed: Option<CycleSummary> },
    /// List the assets.
    ListAssets,
    /// Enrich the profiles of the assets with these ids.
    Enrich { ids: Vec<String> },
}

/// The content of a [`SchedulerAction`].
pub enum SchedulerActionView {
    Sleep { delay: Delay, completed: Option<(nat, nat)> },
    ListAssets,
    Enrich { ids: Seq<Seq<char>> },
}

impl DeepView for SchedulerAction {
    type V = SchedulerActionView;

    open spec fn deep_view(&self) -> SchedulerActionView {
        match *self {
            SchedulerAction::Sleep { delay, completed: Some(summary) } => {
                SchedulerActionView::Sleep {
                    delay,
                    completed: Some((summary.enriched as nat, summary.failed as nat)),
                }
            },
            SchedulerAction::Sleep { delay, completed: None } => SchedulerActionView::Sleep {
                delay,
                completed: None,
            },
            SchedulerAction::ListAssets => SchedulerActionView::ListAssets,
            SchedulerAction::Enrich { ids } => SchedulerActionView::Enrich { ids: ids.deep_view() },
        }
    }
}

/// What is to be done after `event`.
pub open spec fn action_after(event: SchedulerEvent) -> SchedulerActionView {
    match event {
        SchedulerEvent::Started => SchedulerActionView::Sleep {
            delay: Delay::Initial,
            completed: None,
        },
        SchedulerEvent::Woken => SchedulerActionView::ListAssets,
        SchedulerEvent::Listed(Err(_)) => SchedulerActionView::Sleep {
            delay: Delay::Interval,
            completed: None,
        },
        SchedulerEvent::Listed(Ok(assets)) => SchedulerActionView::Enrich {
            ids: enriched_ids(assets@),
        },
        SchedulerEvent::Enriched(results) => action_after_cycle(results@),
    }
}

/// What is to be done after a cycle: to sleep for an interval, with what came of the cycle.
pub open spec fn action_after_cycle(results: Seq<EnrichmentResult>) -> SchedulerActionView {
    SchedulerActionView::Sleep {
        delay: Delay::Interval,
        completed: Some((enriched_count(results), failed_count(results))),
    }
}

/// What is to be done after `event`.
pub fn next_action(event: SchedulerEvent) -> (action: SchedulerAction)
    ensures
        action.deep_view() == action_after(event),
{
    match event {
        SchedulerEvent::Started => SchedulerAction::Sleep {
            delay: Delay::Initial,
            completed: None,
        },
        SchedulerEvent::Woken => SchedulerAction::ListAssets,
        SchedulerEvent::Listed(listed) => match listed {
            Ok(assets) => SchedulerAction::Enrich { ids: enrichment_ids(&assets) },
            Err(_) => SchedulerAction::Sleep { delay: Delay::Interval, completed: None },
        },
        SchedulerEvent::Enriched(results) => SchedulerAction::Sleep {
            delay: Delay::Interval,
            completed: Some(summarize(&results)),
        },
    }
}

/// How far a cycle has come: the assets whose profiles it enriches, how many of them it has
/// started on, in their order, and what came of those that are completed, in the order of their
/// completion.
pub struct CycleView {
    pub ids: Seq<Seq<char>>,
    pub started: nat,
    pub results: Seq<EnrichmentResult>,
}

impl CycleView {
    /// A cycle that has not started on any asset.
    pub open spec fn begin(ids: Seq<Seq<char>>) -> CycleView {
        CycleView { ids, started: 0, results: Seq::empty() }
    }

    /// The number of enrichments that are started and not completed.
    pub open spec fn in_flight(self) -> int {
        self.started - self.results.len()
    }

    /// Only what was started is completed, only assets of the cycle are started on, and never are
    /// more in flight than may be.
    pub open spec fn is_valid(self) -> bool {
        &&& self.started <= self.ids.len()
        &&& 0 <= self.in_flight() <= MAX_CONCURRENT_ENRICHMENTS
    }

    /// All enrichments of the cycle are completed.
    pub open spec fn is_done(self) -> bool {
        self.results.len() == self.ids.len()
    }

    /// The asset to start on now: the next one, unless as many are in flight as may be.
    pub open spec fn next_id(self) -> Option<Seq<char>> {
        if self.started < self.ids.len() && self.in_flight() < MAX_CONCURRENT_ENRICHMENTS {
            Some(self.ids[self.started as int])
        } else {
            None
        }
    }

    /// The cycle after it has started on its next asset.
    pub open spec fn start(self) -> CycleView {
        CycleView { started: self.started + 1, ..self }
    }

    /// The cycle after an enrichment is completed.
    pub open spec fn complete(self, result: EnrichmentResult) -> CycleView {
        CycleView { results: self.results.push(result), ..self }
    }
}

/// The enrichments of a cycle.
pub struct Cycle {
    ids: Vec<String>,
    started: usize,
    results: Vec<EnrichmentResult>,
}

impl View for Cycle {
    type V = CycleView;

    closed spec fn view(&self) -> CycleView {
        CycleView {
            ids: self.ids.deep_view(),
            started: self.started as nat,
            results: self.results@,
        }
    }
}

impl Cycle {
    #[verifier::type_invariant]
    spec fn keeps_the_limit(self) -> bool {
        self@.is_valid()
    }

    /// A cycle over the assets with these ids.
    pub fn begin(ids: Vec<String>) -> (cycle: Cycle)
        ensures
            cycle@ == CycleView::begin(ids.deep_view()),
    {
        Cycle { ids, started: 0, results: Vec::new() }
    }

    /// The number of enrichments that are started and not completed.
    pub fn in_flight(&self) -> (count: usize)
        ensures
            count == self@.in_flight(),
            count <= MAX_CONCURRENT_ENRICHMENTS,
    {
        proof {
            use_type_invariant(self);
        }
        self.started - self.results.len()
    }

    /// Starts on the next asset, unless as many enrichments are in flight as may be.
    pub fn start(&mut self) -> (id: Option<String>)
        ensures
            id.deep_view() == old(self)@.next_id(),
            final(self)@ == if old(self)@.next_id() is Some {
                old(self)@.start()
            } else {
                old(self)@
            },
    {
        proof {
            use_type_invariant(&*self);
        }
        if self.started < self.ids.len() && self.started - self.results.len()
            < MAX_CONCURRENT_ENRICHMENTS {
            let id = self.ids[self.started].clone();
            self.started = self.started + 1;
            Some(id)
        } else {
            None
        }
    }

    /// Takes note of what came of an enrichment that was in flight.
    pub fn complete(self, result: EnrichmentResult) -> (cycle: Cycle)
        requires
            self@.in_flight() > 0,
        ensures
            cycle@ == self@.complete(result),
    {
        proof {
            use_type_invariant(&self);
        }
        let mut results = self.results;
        results.push(result);
        Cycle { ids: self.ids, started: self.started, results }
    }

    /// All enrichments of the cycle are completed.
    pub fn is_done(&self) -> (done: bool)
        ensures
            done == self@.is_done(),
    {
        self.results.len() == self.ids.len()
    }

    /// What came of the enrichments of a cycle that is done, each of which was started.
    pub fn finish(self) -> (results: Vec<EnrichmentResult>)
        requires
            self@.is_done(),
        ensures
            results@ == self@.results,
            self@.started == self@.ids.len(),
            self@.in_flight() == 0,
    {
        proof {
            use_type_invariant(&self);
        }
        self.results
    }
}

/// A cycle does not stall: until it is done, an enrichment is in flight or is to be started; and
/// one is to be started as long as there are assets left and fewer in flight than may be.
pub proof fn cycles_do_not_stall(cycle: CycleView)
    requires
        cycle.is_valid(),
    ensures
        !cycle.is_done() ==> cycle.in_flight() > 0 || cycle.next_id() is Some,
        cycle.next_id() is None <==> cycle.started == cycle.ids.len() || cycle.in_flight()
            == MAX_CONCURRENT_ENRICHMENTS,
{
}

/// Starting on what the cycle says and completing what is in flight keeps a cycle valid, as it is
/// from its beginning.
pub proof fn cycles_stay_valid(
    ids: Seq<Seq<char>>,
    cycle: CycleView,
    result: EnrichmentResult,
)
    requires
        cycle.is_valid(),
    ensures
        CycleView::begin(ids).is_valid(),
        cycle.next_id() is Some ==> cycle.start().is_valid(),
        cycle.in_flight() > 0 ==> cycle.complete(result).is_valid(),
{
}

/// The schedule sleeps the initial delay once, when it is started, and an interval after each
/// cycle and after each failure to list the assets; in between it does not sleep.
pub proof fn cycles_are_an_interval_apart(event: SchedulerEvent)
    ensures
        (action_after(event) matches SchedulerActionView::Sleep { delay, .. } && delay
            == Delay::Initial) <==> event is Started,
        (action_after(event) matches SchedulerActionView::Sleep { delay, .. } && delay
            == Delay::Interval) <==> event is Enriched || (event matches SchedulerEvent::Listed(
            listed,
        ) && listed is Err),
{
}

/// No failure ends the schedule: whatever failed in a cycle, the next step is to sleep for an
/// interval, and after a sleep the assets are listed.
pub proof fn failures_do_not_end_the_schedule(
    reason: String,
    results: Vec<EnrichmentResult>,
)
    ensures
        action_after(SchedulerEvent::Listed(Err(reason))) == (SchedulerActionView::Sleep {
            delay: Delay::Interval,
            completed: None,
        }),
        action_after(SchedulerEvent::Enriched(results)) matches SchedulerActionView::Sleep {
            delay,
            ..
        } && delay == Delay::Interval,
        action_after(SchedulerEvent::Woken) is ListAssets,
{
}

/// The profile of each asset in use whose quotes come from a market is enriched, and no other.
pub proof fn enriches_active_market_assets(assets: Seq<Asset>)
    ensures
        forall|i: int|
            0 <= i < assets.len() && is_enriched(#[trigger] assets[i]) ==> enriched_ids(
                assets,
            ).contains(assets[i].id@),
        forall|id: Seq<char>| #[trigger]
            enriched_ids(assets).contains(id) ==> exists|i: int|
                0 <= i < assets.len() && is_enriched(#[trigger] assets[i]) && assets[i].id@ == id,
{
    let counts = |asset: Asset| is_enriched(asset);
    let kept = assets.filter(counts);
    let ids = enriched_ids(assets);
    assert forall|i: int| 0 <= i < assets.len() && is_enriched(#[trigger] assets[i]) implies ids.contains(
        assets[i].id@,
    ) by {
        assert(counts(assets[i]));
        assert(kept.contains(assets[i]));
        let j = choose|j: int| 0 <= j < kept.len() && kept[j] == assets[i];
        assert(ids[j] == assets[i].id@);
    }
    assert forall|id: Seq<char>| #[trigger] ids.contains(id) implies exists|i: int|
        0 <= i < assets.len() && is_enriched(#[trigger] assets[i]) && assets[i].id@ == id by {
        let j = choose|j: int| 0 <= j < ids.len() && ids[j] == id;
        assert(counts(kept[j]));
        assert(kept.contains(kept[j]));
        assets.lemma_filter_contains_rev(counts, kept[j]);
        let i = choose|i: int| 0 <= i < assets.len() && assets[i] == kept[j];
        assert(is_enriched(assets[i]) && assets[i].id@ == id);
    }
}

} // verus!
