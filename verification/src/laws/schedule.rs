//! What a schedule does, in terms of the assets that are listed and of what comes back.

use vstd::prelude::*;

use crate::course;
use crate::course::{Happening, Step, Timing};
use crate::laws::selection;
use crate::scheduler;
use crate::scheduler::{
    Asset, CycleView, Delay, EnrichmentResult, SchedulerActionView, SchedulerEvent,
};

verus! {

/// The asset at position `i` is in use, and its quotes come from a market.
pub open spec fn needs_enrichment(assets: Seq<Asset>, i: int) -> bool {
    assets[i].is_active && assets[i].quote_mode is Market
}

/// The ids are those of the assets that are in use and whose quotes come from a market: of each of
/// them, in the order of the list, and of no other. `picked` are the positions of these assets.
pub proof fn all_assets_that_need_it_are_enriched(assets: Seq<Asset>) -> (picked: Seq<int>)
    ensures
        selection::picks(picked, assets.len(), |i: int| needs_enrichment(assets, i)),
        scheduler::enriched_ids(assets).len() == picked.len(),
        forall|k: int|
            0 <= k < picked.len() ==> #[trigger] scheduler::enriched_ids(assets)[k]
                == assets[picked[k]].id@,
{
    let keep = |asset: Asset| scheduler::is_enriched(asset);
    let make = |asset: Asset| asset.id@;
    let picked = selection::lemma_filtered(assets, keep, make);
    assert(scheduler::enriched_ids(assets) == picked.map_values(|i: int| make(assets[i])));
    let counts = |i: int| keep(assets[i]);
    let needed = |i: int| needs_enrichment(assets, i);
    assert forall|i: int| #[trigger] counts(i) == needed(i) by {}
    assert forall|i: int| 0 <= i < assets.len() && #[trigger] needed(i) implies picked.contains(
        i,
    ) by {
        assert(counts(i));
    }
    assert forall|k: int| 0 <= k < picked.len() implies needed(#[trigger] picked[k]) by {
        assert(counts(picked[k]));
    }
    picked
}

/// After the assets were listed, the profiles of all that need it are to be enriched, however many
/// they are.
pub proof fn a_listing_is_enriched_whole(assets: Vec<Asset>) -> (picked: Seq<int>)
    ensures
        selection::picks(picked, assets@.len(), |i: int| needs_enrichment(assets@, i)),
        scheduler::action_after(SchedulerEvent::Listed(Ok(assets)))
            matches SchedulerActionView::Enrich { ids } && {
            &&& ids.len() == picked.len()
            &&& forall|k: int|
                0 <= k < picked.len() ==> #[trigger] ids[k] == assets@[picked[k]].id@
        },
{
    all_assets_that_need_it_are_enriched(assets@)
}

/// An asset added to the list adds its id at the end if it needs enrichment, and changes nothing
/// if it does not.
pub proof fn one_more_asset_adds_at_most_its_id(assets: Seq<Asset>, asset: Asset)
    ensures
        scheduler::enriched_ids(assets.push(asset)) == if asset.is_active && asset.quote_mode
            is Market {
            scheduler::enriched_ids(assets).push(asset.id@)
        } else {
            scheduler::enriched_ids(assets)
        },
{
    reveal(Seq::filter);
    assert(assets.push(asset).drop_last() =~= assets);
    assert(scheduler::enriched_ids(assets.push(asset)) =~= if asset.is_active && asset.quote_mode
        is Market {
        scheduler::enriched_ids(assets).push(asset.id@)
    } else {
        scheduler::enriched_ids(assets)
    });
}

/// What is done after a start, after a sleep, after a listing that failed, and after a cycle.
pub proof fn sleeps_and_listings_take_turns(
    reason: String,
    results: Vec<EnrichmentResult>,
)
    ensures
        scheduler::action_after(SchedulerEvent::Started) == (SchedulerActionView::Sleep {
            delay: Delay::Initial,
            completed: None,
        }),
        scheduler::action_after(SchedulerEvent::Woken) is ListAssets,
        scheduler::action_after(SchedulerEvent::Listed(Err(reason))) == (
        SchedulerActionView::Sleep { delay: Delay::Interval, completed: None }),
        scheduler::action_after(SchedulerEvent::Enriched(results))
            matches SchedulerActionView::Sleep { delay, completed } && delay == Delay::Interval
            && completed == Some(
            (scheduler::enriched_count(results@), scheduler::failed_count(results@)),
        ),
        scheduler::action_after_cycle(results@) == scheduler::action_after(
            SchedulerEvent::Enriched(results),
        ),
{
}

/// Each result counts once, as one of a profile that was enriched or of one that could not be; and
/// without results there is nothing to count.
pub proof fn each_result_counts_once(
    results: Seq<EnrichmentResult>,
    result: EnrichmentResult,
)
    ensures
        scheduler::enriched_count(Seq::empty()) == 0,
        scheduler::failed_count(Seq::empty()) == 0,
        scheduler::enriched_count(results.push(result)) == scheduler::enriched_count(results) + if (
        result.1 is Ok) {
            1int
        } else {
            0
        },
        scheduler::failed_count(results.push(result)) == scheduler::failed_count(results) + if (
        result.1 is Err) {
            1int
        } else {
            0
        },
{
    reveal(Seq::filter);
    assert(results.push(result).drop_last() =~= results);
    let empty = Seq::<EnrichmentResult>::empty();
    assert(empty.filter(|result: EnrichmentResult| result.1 is Ok).len() == 0);
    assert(empty.filter(|result: EnrichmentResult| result.1 is Err).len() == 0);
}

/// A cycle begins with nothing started and nothing completed, over all the ids that it is given.
pub proof fn cycles_begin_with_all_their_ids(ids: Seq<Seq<char>>)
    ensures
        CycleView::begin(ids).ids == ids,
        CycleView::begin(ids).started == 0,
        CycleView::begin(ids).results.len() == 0,
{
}

/// The next asset is started on as long as there is one and fewer than five enrichments are
/// started and not completed; and a cycle is done when as many are completed as it has assets.
pub proof fn five_places_are_filled_in_order(cycle: CycleView)
    ensures
        cycle.in_flight() == cycle.started - cycle.results.len(),
        cycle.next_id() is Some <==> cycle.started < cycle.ids.len() && cycle.started
            - cycle.results.len() < 5,
        cycle.next_id() matches Some(id) ==> id == cycle.ids[cycle.started as int],
        cycle.is_done() <==> cycle.results.len() == cycle.ids.len(),
{
}

/// A start and a completion change a cycle by that alone.
pub proof fn starts_and_completions_are_counted(cycle: CycleView, result: EnrichmentResult)
    ensures
        cycle.start().ids == cycle.ids,
        cycle.start().started == cycle.started + 1,
        cycle.start().results == cycle.results,
        cycle.complete(result).ids == cycle.ids,
        cycle.complete(result).started == cycle.started,
        cycle.complete(result).results == cycle.results.push(result),
{
}

/// Since a listing, the first assets of the cycle were started on, in their order, and no others:
/// each at a moment of its own. `moments` are these moments.
proof fn lemma_started_since_listing(
    timing: Timing,
    course: Seq<Step>,
    listing: int,
    moment: int,
    assets: Vec<Asset>,
) -> (moments: Seq<int>)
    requires
        course::may_happen(timing, course),
        0 <= listing < moment <= course.len(),
        course[listing].happening == (Happening::Listed { listed: Ok(assets) }),
        forall|j: int|
            listing < j < moment ==> (#[trigger] course[j]).happening is Started
                || course[j].happening is Completed,
    ensures
        ({
            let cycle = course::stand_after(course.take(moment)).cycle;
            &&& cycle.ids == scheduler::enriched_ids(assets@)
            &&& cycle.started == moments.len()
            &&& cycle.is_valid()
            &&& forall|k: int|
                0 <= k < moments.len() ==> {
                    &&& listing < #[trigger] moments[k] < moment
                    &&& course[moments[k]].happening == (Happening::Started {
                        id: scheduler::enriched_ids(assets@)[k],
                    })
                }
            &&& forall|k: int, l: int|
                0 <= k < l < moments.len() ==> #[trigger] moments[k] < #[trigger] moments[l]
        }),
    decreases moment,
{
    course::lemma_step(timing, course, moment - 1);
    course::lemma_earlier_moment(timing, course, moment);
    course::lemma_stand(timing, course.take(moment));
    if moment == listing + 1 {
        Seq::empty()
    } else {
        let earlier = lemma_started_since_listing(timing, course, listing, moment - 1, assets);
        if course[moment - 1].happening is Started {
            let moments = earlier.push(moment - 1);
            let before = course::stand_after(course.take(moment - 1)).cycle;
            assert(before.next_id() == Some(before.ids[before.started as int]));
            assert forall|k: int| 0 <= k < moments.len() implies listing < #[trigger] moments[k]
                < moment && course[moments[k]].happening == (Happening::Started {
                id: scheduler::enriched_ids(assets@)[k],
            }) by {
                if k < earlier.len() {
                    assert(moments[k] == earlier[k]);
                }
            }
            assert forall|k: int, l: int| 0 <= k < l < moments.len() implies #[trigger] moments[k]
                < #[trigger] moments[l] by {
                assert(moments[k] == earlier[k]);
                if l < earlier.len() {
                    assert(moments[l] == earlier[l]);
                }
            }
            moments
        } else {
            earlier
        }
    }
}

/// When a cycle is over, an enrichment was started, since the assets were listed, for every listed
/// asset that is in use and has its quotes from a market, and no enrichment is left in flight.
/// `listing` is the moment of that listing.
pub proof fn no_asset_is_left_out_of_its_cycle(timing: Timing, course: Seq<Step>, end: int) -> (
    listing: int)
    requires
        course::may_happen(timing, course),
        0 <= end < course.len(),
        course[end].happening is Enriched,
    ensures
        0 <= listing < end,
        course::in_flight_after(course.take(end)) == 0,
        course[listing].happening matches Happening::Listed { listed: Ok(assets) } && forall|i: int|
            0 <= i < assets@.len() && #[trigger] needs_enrichment(assets@, i)
                ==> is_started_between(course, listing, end, assets@[i].id@),
{
    course::lemma_step(timing, course, end);
    let listing = course::lemma_listing_before(timing, course, end);
    if let Happening::Listed { listed: Ok(assets) } = course[listing].happening {
        let moments = lemma_started_since_listing(timing, course, listing, end, assets);
        course::lemma_stand(timing, course.take(end));
        let picked = all_assets_that_need_it_are_enriched(assets@);
        let needed = |i: int| needs_enrichment(assets@, i);
        assert forall|i: int|
            0 <= i < assets@.len() && #[trigger] needs_enrichment(
                assets@,
                i,
            ) implies is_started_between(course, listing, end, assets@[i].id@) by {
            assert(needed(i));
            assert(picked.contains(i));
            let k = choose|k: int| 0 <= k < picked.len() && picked[k] == i;
            assert(scheduler::enriched_ids(assets@)[k] == assets@[i].id@);
            let j = moments[k];
            assert(course[j].happening == (Happening::Started { id: assets@[i].id@ }));
        }
    }
    listing
}

/// The enrichment of the asset `id` is started after the moment `listing` and before `end`.
pub open spec fn is_started_between(
    course: Seq<Step>,
    listing: int,
    end: int,
    id: Seq<char>,
) -> bool {
    exists|j: int|
        listing < j < end && (#[trigger] course[j]).happening == (Happening::Started { id })
}

} // verus!
