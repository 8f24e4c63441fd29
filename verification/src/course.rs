//! The course of a schedule: what may happen, step by step, where each step answers what
//! [`crate::scheduler::next_action`] and [`crate::scheduler::Cycle`] say is to be done, and what
//! holds of every course.

use vstd::prelude::*;

use crate::scheduler;
use crate::scheduler::{
    Asset, CycleView, Delay, EnrichmentResult, SchedulerActionView, SchedulerEvent,
};

verus! {

/// How long a schedule is to sleep, in any unit of time.
pub struct Timing {
    pub initial_delay: nat,
    pub interval: nat,
}

impl Timing {
    /// How long the schedule is to sleep for `delay`.
    pub open spec fn length(self, delay: Delay) -> nat {
        match delay {
            Delay::Initial => self.initial_delay,
            Delay::Interval => self.interval,
        }
    }
}

/// What happens in the course of a schedule.
pub enum Happening {
    /// A sleep is over.
    Woken,
    /// The assets were listed, or could not be.
    Listed { listed: Result<Vec<Asset>, String> },
    /// An enrichment is started.
    Started { id: Seq<char> },
    /// An enrichment is completed, with success or without.
    Completed { result: EnrichmentResult },
    /// All profiles of a cycle were enriched, or could not be.
    Enriched,
}

/// Something that happens, and the time that has gone by since the schedule was started.
pub struct Step {
    pub at: nat,
    pub happening: Happening,
}

impl Step {
    /// The assets were listed, or could not be.
    pub open spec fn lists(self) -> bool {
        self.happening is Listed
    }

    /// A call of the asset service is made, or comes back: the assets are listed, or a profile is
    /// enriched.
    pub open spec fn calls(self) -> bool {
        self.happening is Listed || self.happening is Started || self.happening is Completed
    }

    /// A round of the schedule ends: a cycle is over, or the assets could not be listed.
    pub open spec fn ends_a_round(self) -> bool {
        match self.happening {
            Happening::Enriched => true,
            Happening::Listed { listed } => listed is Err,
            _ => false,
        }
    }
}

/// Where a schedule stands: what is to be done, the cycle that it is in or was in last, and the
/// time of the last step.
pub struct Stand {
    pub action: SchedulerActionView,
    pub cycle: CycleView,
    pub at: nat,
}

impl Stand {
    /// Where a schedule stands when it is started.
    pub open spec fn initial() -> Stand {
        Stand {
            action: scheduler::action_after(SchedulerEvent::Started),
            cycle: CycleView::begin(Seq::empty()),
            at: 0,
        }
    }

    /// The step is one that answers what is to be done. A sleep lasts at least as long as it is to
    /// last; the assets are listed only when they are to be; and within a cycle, what is started
    /// is what the cycle says, what is completed was in flight, and the cycle is over when it is
    /// done.
    pub open spec fn permits(self, timing: Timing, step: Step) -> bool {
        &&& self.at <= step.at
        &&& match step.happening {
            Happening::Woken => match self.action {
                SchedulerActionView::Sleep { delay, .. } => self.at + timing.length(delay)
                    <= step.at,
                _ => false,
            },
            Happening::Listed { .. } => self.action is ListAssets,
            Happening::Started { id } => self.action is Enrich && self.cycle.next_id() == Some(id),
            Happening::Completed { .. } => self.action is Enrich && self.cycle.in_flight() > 0,
            Happening::Enriched => self.action is Enrich && self.cycle.is_done(),
        }
    }

    /// Where a schedule stands after a step.
    pub open spec fn after(self, step: Step) -> Stand {
        match step.happening {
            Happening::Woken => Stand {
                action: scheduler::action_after(SchedulerEvent::Woken),
                cycle: self.cycle,
                at: step.at,
            },
            Happening::Listed { listed } => {
                let action = scheduler::action_after(SchedulerEvent::Listed(listed));
                let cycle = match action {
                    SchedulerActionView::Enrich { ids } => CycleView::begin(ids),
                    _ => self.cycle,
                };
                Stand { action, cycle, at: step.at }
            },
            Happening::Started { .. } => Stand {
                action: self.action,
                cycle: self.cycle.start(),
                at: step.at,
            },
            Happening::Completed { result } => Stand {
                action: self.action,
                cycle: self.cycle.complete(result),
                at: step.at,
            },
            Happening::Enriched => Stand {
                action: scheduler::action_after_cycle(self.cycle.results),
                cycle: self.cycle,
                at: step.at,
            },
        }
    }

    /// How many steps a schedule takes before the assets are listed.
    pub open spec fn steps_to_listing(self) -> int {
        match self.action {
            SchedulerActionView::ListAssets => 0,
            SchedulerActionView::Sleep { .. } => 1,
            SchedulerActionView::Enrich { .. } => (self.cycle.ids.len() - self.cycle.started) + (
            self.cycle.ids.len() - self.cycle.results.len()) + 2,
        }
    }
}

/// Where a schedule stands after the steps of `course`.
pub open spec fn stand_after(course: Seq<Step>) -> Stand
    decreases course.len(),
{
    if course.len() == 0 {
        Stand::initial()
    } else {
        stand_after(course.drop_last()).after(course.last())
    }
}

/// Each step of `course` answers what is to be done after those before it.
pub open spec fn may_happen(timing: Timing, course: Seq<Step>) -> bool
    decreases course.len(),
{
    course.len() > 0 ==> {
        &&& may_happen(timing, course.drop_last())
        &&& stand_after(course.drop_last()).permits(timing, course.last())
    }
}

/// The number of enrichments that were started in `course` and not completed.
pub open spec fn in_flight_after(course: Seq<Step>) -> int
    decreases course.len(),
{
    if course.len() == 0 {
        0
    } else {
        in_flight_after(course.drop_last()) + match course.last().happening {
            Happening::Started { .. } => 1int,
            Happening::Completed { .. } => -1,
            _ => 0,
        }
    }
}

/// What may happen may happen up to any moment.
pub proof fn lemma_earlier_moment(timing: Timing, course: Seq<Step>, moment: int)
    requires
        may_happen(timing, course),
        0 <= moment <= course.len(),
    ensures
        may_happen(timing, course.take(moment)),
    decreases course.len(),
{
    if moment == course.len() {
        assert(course.take(moment) =~= course);
    } else {
        lemma_earlier_moment(timing, course.drop_last(), moment);
        assert(course.drop_last().take(moment) =~= course.take(moment));
    }
}

/// Each step answers what was to be done right before it, and leads on from there.
pub proof fn lemma_step(timing: Timing, course: Seq<Step>, i: int)
    requires
        may_happen(timing, course),
        0 <= i < course.len(),
    ensures
        may_happen(timing, course.take(i)),
        stand_after(course.take(i)).permits(timing, course[i]),
        stand_after(course.take(i + 1)) == stand_after(course.take(i)).after(course[i]),
{
    lemma_earlier_moment(timing, course, i);
    lemma_earlier_moment(timing, course, i + 1);
    assert(course.take(i + 1).drop_last() =~= course.take(i));
    assert(course.take(i + 1).last() == course[i]);
}

/// Wherever a schedule stands, the cycle is valid, the enrichments in flight are those of the
/// cycle, and there are none but while the profiles of a cycle are enriched.
pub proof fn lemma_stand(timing: Timing, course: Seq<Step>)
    requires
        may_happen(timing, course),
    ensures
        stand_after(course).cycle.is_valid(),
        in_flight_after(course) == stand_after(course).cycle.in_flight(),
        stand_after(course).action !is Enrich ==> stand_after(course).cycle.in_flight() == 0,
    decreases course.len(),
{
    if course.len() > 0 {
        lemma_stand(timing, course.drop_last());
    }
}

/// Time does not run backwards.
proof fn lemma_times_are_in_order(timing: Timing, course: Seq<Step>, i: int, j: int)
    requires
        may_happen(timing, course),
        0 <= i <= j < course.len(),
    ensures
        course[i].at <= course[j].at,
    decreases j - i,
{
    if i < j {
        lemma_times_are_in_order(timing, course, i, j - 1);
        lemma_step(timing, course, j - 1);
        lemma_step(timing, course, j);
    }
}

/// At every moment of a schedule at most five enrichments are started and not completed, whatever
/// cycles it goes through and in whatever order enrichments are completed.
pub proof fn at_most_five_enrichments_at_a_time(timing: Timing, course: Seq<Step>, moment: int)
    requires
        may_happen(timing, course),
        0 <= moment <= course.len(),
    ensures
        0 <= in_flight_after(course.take(moment)) <= 5,
{
    lemma_earlier_moment(timing, course, moment);
    lemma_stand(timing, course.take(moment));
}

/// First of all the schedule sleeps for the initial delay: no call of the asset service is made
/// before.
pub proof fn no_calls_before_the_initial_delay(timing: Timing, course: Seq<Step>, i: int)
    requires
        may_happen(timing, course),
        0 <= i < course.len(),
        course[i].calls(),
    ensures
        i > 0,
        course[0].happening is Woken,
        timing.initial_delay <= course[0].at <= course[i].at,
{
    lemma_step(timing, course, 0);
    assert(course.take(0) =~= Seq::empty());
    lemma_times_are_in_order(timing, course, 0, i);
}

/// The assets are listed right after a sleep only. The first time, that sleep was the initial
/// delay. Every later time it was an interval, which began when a cycle was over, with no
/// enrichment in flight, or when the assets could not be listed.
pub proof fn listings_are_an_interval_apart(timing: Timing, course: Seq<Step>, i: int)
    requires
        may_happen(timing, course),
        0 <= i < course.len(),
        course[i].lists(),
    ensures
        i > 0,
        course[i - 1].happening is Woken,
        course[i - 1].at <= course[i].at,
        i == 1 ==> timing.initial_delay <= course[0].at,
        i > 1 ==> {
            &&& course[i - 2].ends_a_round()
            &&& in_flight_after(course.take(i - 1)) == 0
            &&& course[i - 2].at + timing.interval <= course[i - 1].at
        },
{
    lemma_step(timing, course, i);
    assert(course.take(0) =~= Seq::empty());
    lemma_step(timing, course, i - 1);
    if i > 1 {
        lemma_step(timing, course, i - 2);
        lemma_earlier_moment(timing, course, i - 1);
        lemma_stand(timing, course.take(i - 1));
    }
}

/// No enrichment is started but between a listing of the assets and the end of the cycle that the
/// listing began: whenever one is started, the assets were listed before, and the schedule has
/// not slept since.
pub proof fn enrichments_follow_a_listing(timing: Timing, course: Seq<Step>, i: int) -> (listing:
    int)
    requires
        may_happen(timing, course),
        0 <= i < course.len(),
        course[i].happening is Started,
    ensures
        0 <= listing < i,
        course[listing].happening matches Happening::Listed { listed } && listed is Ok,
        forall|j: int|
            listing < j < i ==> (#[trigger] course[j]).happening is Started
                || course[j].happening is Completed,
{
    lemma_step(timing, course, i);
    lemma_listing_before(timing, course, i)
}

/// While the profiles of a cycle are enriched, the assets were listed before, and since then
/// enrichments were started and completed only.
pub proof fn lemma_listing_before(timing: Timing, course: Seq<Step>, moment: int) -> (listing: int)
    requires
        may_happen(timing, course),
        0 <= moment <= course.len(),
        stand_after(course.take(moment)).action is Enrich,
    ensures
        0 <= listing < moment,
        course[listing].happening matches Happening::Listed { listed } && listed is Ok,
        forall|j: int|
            listing < j < moment ==> (#[trigger] course[j]).happening is Started
                || course[j].happening is Completed,
    decreases moment,
{
    assert(course.take(0) =~= Seq::empty());
    lemma_step(timing, course, moment - 1);
    if course[moment - 1].happening is Listed {
        moment - 1
    } else {
        lemma_listing_before(timing, course, moment - 1)
    }
}

/// A schedule can always go on, and whatever the asset service answers is an answer to go on with:
/// a sleep ends, a listing gives any assets (or none) or fails, an enrichment that is to be started
/// is, one in flight is completed with success or without, and a cycle that is done is over. One
/// of these is always to be done.
pub proof fn schedules_never_end(
    timing: Timing,
    course: Seq<Step>,
    listed: Result<Vec<Asset>, String>,
    result: EnrichmentResult,
    at: nat,
)
    requires
        may_happen(timing, course),
    ensures
        ({
            let stand = stand_after(course);
            &&& match stand.action {
                SchedulerActionView::Sleep { delay, .. } => stand.at + timing.length(delay) <= at
                    ==> may_happen(timing, course.push(Step { at, happening: Happening::Woken })),
                SchedulerActionView::ListAssets => stand.at <= at ==> may_happen(
                    timing,
                    course.push(Step { at, happening: Happening::Listed { listed } }),
                ),
                SchedulerActionView::Enrich { .. } => {
                    &&& stand.cycle.next_id() is Some || stand.cycle.in_flight() > 0
                        || stand.cycle.is_done()
                    &&& stand.at <= at ==> {
                        &&& stand.cycle.next_id() matches Some(id) ==> may_happen(
                            timing,
                            course.push(Step { at, happening: Happening::Started { id } }),
                        )
                        &&& stand.cycle.in_flight() > 0 ==> may_happen(
                            timing,
                            course.push(Step { at, happening: Happening::Completed { result } }),
                        )
                        &&& stand.cycle.is_done() ==> may_happen(
                            timing,
                            course.push(Step { at, happening: Happening::Enriched }),
                        )
                    }
                },
            }
        }),
{
    lemma_stand(timing, course);
    assert forall|step: Step| stand_after(course).permits(timing, step) implies may_happen(
        timing,
        #[trigger] course.push(step),
    ) by {
        assert(course.push(step).drop_last() =~= course);
    }
}

/// From any moment on, the assets are next listed after a number of steps that is known beforehand
/// and does not depend on what is answered.
pub proof fn assets_are_listed_in_time(timing: Timing, course: Seq<Step>, moment: int)
    requires
        may_happen(timing, course),
        0 <= moment <= course.len(),
        moment + stand_after(course.take(moment)).steps_to_listing() < course.len(),
    ensures
        ({
            let listing = moment + stand_after(course.take(moment)).steps_to_listing();
            &&& moment <= listing
            &&& course[listing].lists()
            &&& forall|j: int| moment <= j < listing ==> !(#[trigger] course[j]).lists()
        }),
    decreases stand_after(course.take(moment)).steps_to_listing(),
{
    lemma_earlier_moment(timing, course, moment);
    lemma_stand(timing, course.take(moment));
    lemma_step(timing, course, moment);
    if stand_after(course.take(moment)).steps_to_listing() > 0 {
        lemma_earlier_moment(timing, course, moment + 1);
        lemma_stand(timing, course.take(moment + 1));
        assets_are_listed_in_time(timing, course, moment + 1);
    }
}

/// The first steps of a course without end.
pub open spec fn beginning(course: spec_fn(int) -> Step, length: nat) -> Seq<Step> {
    Seq::new(length, course)
}

/// In a course without end the assets are listed again and again: after every moment there is a
/// listing, also where the lists are empty and every call fails.
pub proof fn assets_are_listed_again_and_again(
    timing: Timing,
    course: spec_fn(int) -> Step,
    moment: nat,
) -> (listing: int)
    requires
        forall|length: nat| may_happen(timing, #[trigger] beginning(course, length)),
    ensures
        moment <= listing,
        course(listing).lists(),
{
    let before = beginning(course, moment);
    lemma_stand(timing, before);
    let listing = moment + stand_after(before).steps_to_listing();
    let longer = beginning(course, (listing + 1) as nat);
    assert(longer.take(moment as int) =~= before);
    assets_are_listed_in_time(timing, longer, moment as int);
    listing
}

} // verus!
