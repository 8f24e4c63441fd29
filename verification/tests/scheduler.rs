use just_etf::scheduler::{
    enrichment_ids, next_action, summarize, Asset, Cycle, CycleSummary, Delay, QuoteMode, SchedulerAction,
    SchedulerEvent, MAX_CONCURRENT_ENRICHMENTS,
};

fn asset(id: &str, is_active: bool, quote_mode: QuoteMode) -> Asset {
    Asset { id: String::from(id), is_active, quote_mode }
}

fn assets() -> Vec<Asset> {
    vec![
        asset("a", true, QuoteMode::Market),
        asset("b", false, QuoteMode::Market),
        asset("c", true, QuoteMode::Manual),
        asset("d", false, QuoteMode::Manual),
        asset("e", true, QuoteMode::Market),
    ]
}

fn results() -> Vec<(String, Result<(), String>)> {
    vec![
        (String::from("a"), Ok(())),
        (String::from("e"), Err(String::from("no such fund"))),
        (String::from("f"), Ok(())),
    ]
}

#[test]
fn active_market_assets_are_enriched() {
    assert_eq!(enrichment_ids(&assets()), vec!["a", "e"]);
    assert_eq!(enrichment_ids(&vec![]), Vec::<String>::new());
}

#[test]
fn cycles_are_counted() {
    assert_eq!(summarize(&results()), CycleSummary { enriched: 2, failed: 1 });
    assert_eq!(summarize(&vec![]), CycleSummary { enriched: 0, failed: 0 });
}

#[test]
fn schedule() {
    assert_eq!(
        next_action(SchedulerEvent::Started),
        SchedulerAction::Sleep { delay: Delay::Initial, completed: None }
    );
    assert_eq!(next_action(SchedulerEvent::Woken), SchedulerAction::ListAssets);
    assert_eq!(
        next_action(SchedulerEvent::Listed(Ok(assets()))),
        SchedulerAction::Enrich { ids: vec![String::from("a"), String::from("e")] }
    );
    assert_eq!(
        next_action(SchedulerEvent::Enriched(results())),
        SchedulerAction::Sleep {
            delay: Delay::Interval,
            completed: Some(CycleSummary { enriched: 2, failed: 1 }),
        }
    );
    assert_eq!(
        next_action(SchedulerEvent::Listed(Err(String::from("database is locked")))),
        SchedulerAction::Sleep { delay: Delay::Interval, completed: None }
    );
    assert_eq!(MAX_CONCURRENT_ENRICHMENTS, 5);
}

fn ids(count: usize) -> Vec<String> {
    (0..count).map(|i| format!("id-{}", i)).collect()
}

#[test]
fn five_enrichments_at_a_time() {
    let mut cycle = Cycle::begin(ids(7));
    for i in 0..5 {
        assert_eq!(cycle.in_flight(), i);
        assert_eq!(cycle.start(), Some(format!("id-{}", i)));
    }
    assert_eq!(cycle.start(), None);
    assert_eq!(cycle.in_flight(), 5);
    // One completed, one started.
    cycle = cycle.complete((String::from("id-3"), Ok(())));
    assert_eq!(cycle.in_flight(), 4);
    assert_eq!(cycle.start(), Some(String::from("id-5")));
    assert_eq!(cycle.start(), None);
    // Two completed, and one is left to start.
    cycle = cycle.complete((String::from("id-0"), Err(String::from("no such fund"))));
    cycle = cycle.complete((String::from("id-5"), Ok(())));
    assert_eq!(cycle.start(), Some(String::from("id-6")));
    assert_eq!(cycle.start(), None);
    assert_eq!(cycle.in_flight(), 4);
    for id in ["id-6", "id-1", "id-2", "id-4"] {
        assert!(!cycle.is_done());
        cycle = cycle.complete((String::from(id), Ok(())));
    }
    assert!(cycle.is_done());
    let results = cycle.finish();
    assert_eq!(summarize(&results), CycleSummary { enriched: 6, failed: 1 });
    let order: Vec<&str> = results.iter().map(|result| result.0.as_str()).collect();
    assert_eq!(order, vec!["id-3", "id-0", "id-5", "id-6", "id-1", "id-2", "id-4"]);
}

#[test]
fn cycles_without_assets_are_done() {
    let mut cycle = Cycle::begin(vec![]);
    assert_eq!(cycle.start(), None);
    assert_eq!(cycle.in_flight(), 0);
    assert!(cycle.is_done());
    assert_eq!(cycle.finish(), vec![]);
}

#[test]
fn the_assets_are_listed_again_and_again() {
    let listings: Vec<Result<Vec<Asset>, String>> =
        vec![Ok(assets()), Err(String::from("database is locked")), Ok(vec![]), Ok(assets())];
    let mut log: Vec<String> = vec![];
    let mut event = SchedulerEvent::Started;
    let mut listings = listings.into_iter();
    loop {
        event = match next_action(event) {
            SchedulerAction::Sleep { delay, .. } => {
                log.push(format!("{:?}", delay));
                SchedulerEvent::Woken
            }
            SchedulerAction::ListAssets => match listings.next() {
                Some(listed) => {
                    log.push(String::from("list"));
                    SchedulerEvent::Listed(listed)
                }
                None => break,
            },
            SchedulerAction::Enrich { ids } => {
                let mut cycle = Cycle::begin(ids);
                let mut running = vec![];
                loop {
                    while let Some(id) = cycle.start() {
                        log.push(format!("start {}", id));
                        running.push(id);
                    }
                    match running.pop() {
                        Some(id) => cycle = cycle.complete((id, Err(String::from("failed")))),
                        None => break,
                    }
                }
                assert!(cycle.is_done());
                SchedulerEvent::Enriched(cycle.finish())
            }
        };
    }
    let round = ["list", "start a", "start e", "Interval"];
    let mut expected = vec!["Initial"];
    expected.extend(round);
    expected.extend(["list", "Interval"]);
    expected.extend(["list", "Interval"]);
    expected.extend(round);
    assert_eq!(log, expected);
}
