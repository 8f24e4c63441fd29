//! What the dividends of an answer are in terms of the chart that they are read from.

use vstd::prelude::*;

use crate::laws::selection;
use crate::laws::times;
use crate::models::{ChartPoint, DividendEvent};
use crate::quotes;
use crate::quotes::DatedAmount;
use crate::time::Timestamp;

verus! {

/// The dividends of a chart are all taken, each with the day that its date names and its amount.
pub proof fn all_dividends_are_dated<A>(dividends: Seq<ChartPoint<A>>)
    ensures
        quotes::dated_amounts(dividends).len() == dividends.len(),
        forall|i: int|
            0 <= i < dividends.len() ==> {
                &&& (#[trigger] quotes::dated_amounts(dividends)[i]).day == times::named_day(
                    dividends[i].date@,
                )
                &&& quotes::dated_amounts(dividends)[i].amount == dividends[i].value
            },
{
}

/// The answer holds an event of each dividend of the chart whose date names a day that begins
/// within the range, in the chart's order: its amount, and the second at which its day begins.
/// `picked` are the positions of these dividends in the chart.
pub proof fn dividends_are_those_of_the_chart<A>(
    dividends: Seq<ChartPoint<A>>,
    start: Timestamp,
    end: Timestamp,
) -> (picked: Seq<int>)
    ensures
        selection::picks(
            picked,
            dividends.len(),
            |i: int| times::dated_within(dividends[i].date@, start, end),
        ),
        ({
            let events = quotes::dividend_events(quotes::dated_amounts(dividends), start, end);
            &&& events.len() == picked.len()
            &&& forall|k: int|
                0 <= k < picked.len() ==> {
                    &&& (#[trigger] events[k]).amount == dividends[picked[k]].value
                    &&& events[k].date == times::first_second(
                        times::named_day(dividends[picked[k]].date@)->0 as int,
                    )
                }
        }),
{
    all_dividends_are_dated(dividends);
    let points = quotes::dated_amounts(dividends);
    let picked = selected_dividends_have_their_amounts(points, start, end);
    let counts = |i: int|
        points[i].day matches Some(day) && times::begins_within(day as int, start, end);
    let shown = |i: int| times::dated_within(dividends[i].date@, start, end);
    assert(selection::picks(picked, points.len(), counts));
    assert forall|i: int| 0 <= i < dividends.len() implies #[trigger] shown(i) == counts(i) by {
        assert(points[i].day == times::named_day(dividends[i].date@));
    }
    assert forall|k: int| 0 <= k < picked.len() implies shown(#[trigger] picked[k]) by {
        assert(counts(picked[k]));
    }
    picked
}

/// The same of dividends whose days are known already.
pub proof fn selected_dividends_have_their_amounts<A>(
    points: Seq<DatedAmount<A>>,
    start: Timestamp,
    end: Timestamp,
) -> (picked: Seq<int>)
    ensures
        selection::picks(
            picked,
            points.len(),
            |i: int|
                points[i].day matches Some(day) && times::begins_within(day as int, start, end),
        ),
        ({
            let events = quotes::dividend_events(points, start, end);
            &&& events.len() == picked.len()
            &&& forall|k: int|
                0 <= k < picked.len() ==> {
                    &&& (#[trigger] events[k]).amount == points[picked[k]].amount
                    &&& events[k].date == times::first_second(points[picked[k]].day->0 as int)
                }
        }),
{
    let keep = |point: DatedAmount<A>| quotes::day_within(point.day, start, end);
    let make = |point: DatedAmount<A>| point.event();
    let picked = selection::lemma_filtered(points, keep, make);
    let events = quotes::dividend_events(points, start, end);
    assert(events == picked.map_values(|i: int| make(points[i])));
    let counts = |i: int| keep(points[i]);
    let shown = |i: int|
        points[i].day matches Some(day) && times::begins_within(day as int, start, end);
    assert forall|i: int| #[trigger] counts(i) == shown(i) by {
        if let Some(day) = points[i].day {
            times::lemma_begins_within(day, start, end);
        }
    }
    assert forall|i: int| 0 <= i < points.len() && #[trigger] shown(i) implies picked.contains(
        i,
    ) by {
        assert(counts(i));
    }
    assert forall|k: int| 0 <= k < picked.len() implies shown(#[trigger] picked[k]) by {
        assert(counts(picked[k]));
    }
    assert forall|k: int| 0 <= k < picked.len() implies (#[trigger] events[k]).amount
        == points[picked[k]].amount && events[k].date == times::first_second(
        points[picked[k]].day->0 as int,
    ) by {
        assert(shown(picked[k]));
        times::midnights_are_whole_days(points[picked[k]].day->0);
    }
    picked
}

} // verus!
