use rddns::addresses::AddressMap;
use rddns::config::{Config, DdnsEntry};
use rddns::executor::UpdateOutcome;
use rddns::trigger::{timed_trigger_continues, timer_tick_addresses, webhook_response};
use rddns::updater::{
    collect_outcomes, combine_errors, cycle_plan_with_interfaces, entry_outcome, plan_entries,
    EntryPlan,
};

fn entry(url: &str) -> DdnsEntry {
    DdnsEntry { url: url.to_string(), username: None, password: None }
}

#[test]
fn cycle_failure_mentions_every_failing_entry() {
    let mut m = AddressMap::new();
    m.insert("a".to_string(), "1.2.3.4".to_string());
    let entries = vec![
        entry("http://one.example/{a}"),
        entry("http://two.example/{missing}"),
        entry("http://three.example/{a}"),
    ];
    let plans = plan_entries(&entries, &m);
    let outcomes = vec![
        entry_outcome(&plans[0], Some(200), String::new()),
        entry_outcome(&plans[1], None, String::new()),
        entry_outcome(&plans[2], Some(404), String::new()),
    ];
    let text = collect_outcomes(&outcomes).unwrap_err();
    assert!(text.contains("http://two.example/{missing}: unresolved placeholder missing"));
    assert!(text.contains("http://three.example/{a}: unexpected HTTP status 404"));
    assert!(!text.contains("http://one.example"));
}

#[test]
fn cycle_succeeds_when_every_entry_succeeds() {
    let mut m = AddressMap::new();
    m.insert("a".to_string(), "1.2.3.4".to_string());
    let entries = vec![entry("http://one.example/{a}"), entry("http://two.example/{a}")];
    let plans = plan_entries(&entries, &m);
    let outcomes = vec![
        entry_outcome(&plans[0], Some(200), String::new()),
        entry_outcome(&plans[1], Some(204), String::new()),
    ];
    assert!(collect_outcomes(&outcomes).is_ok());
}

#[test]
fn credentials_flow_into_the_plan() {
    let mut m = AddressMap::new();
    m.insert("a".to_string(), "1.2.3.4".to_string());
    let entries = vec![DdnsEntry {
        url: "http://one.example/{a}".to_string(),
        username: Some("user".to_string()),
        password: Some("pass".to_string()),
    }];
    let plans = plan_entries(&entries, &m);
    match &plans[0] {
        EntryPlan::Ready { url, authorization, entry_url } => {
            assert_eq!(url, &"http://one.example/1.2.3.4".to_string());
            assert_eq!(authorization, &Some("Basic dXNlcjpwYXNz".to_string()));
            assert_eq!(entry_url, &"http://one.example/{a}".to_string());
        },
        other => panic!("expected a ready plan, got {:?}", other),
    }
}

#[test]
fn empty_configuration_succeeds_trivially() {
    let config = Config { ddns_entries: vec![], ip_addresses: vec![], triggers: vec![] };
    let plans = cycle_plan_with_interfaces(&config, &AddressMap::new(), &vec![]).unwrap();
    assert_eq!(plans.len(), 0);
    let outcomes: Vec<UpdateOutcome> = vec![];
    assert!(collect_outcomes(&outcomes).is_ok());
}

#[test]
fn combine_errors_keeps_every_message() {
    let results = vec![
        Err("first trigger failed".to_string()),
        Ok(()),
        Err("second trigger failed".to_string()),
    ];
    let combined = combine_errors(results).unwrap_err();
    assert_eq!(combined, "first trigger failed\nsecond trigger failed".to_string());
}

#[test]
fn combine_errors_with_no_failures_is_success() {
    assert!(combine_errors(vec![]).is_ok());
    assert!(combine_errors(vec![Ok(()), Ok(())]).is_ok());
}

#[test]
fn combine_errors_counts_blank_error_text_as_failure() {
    assert_eq!(combine_errors(vec![Err(String::new())]).unwrap_err(), String::new());
    assert_eq!(
        combine_errors(vec![Err(String::new()), Err(String::new())]).unwrap_err(),
        "\n".to_string()
    );
}

#[test]
fn webhook_response_reflects_the_cycle_result() {
    let (status, body) = webhook_response(&Ok(()));
    assert_eq!(status, 200);
    assert_eq!(body, String::new());
    let (status, body) = webhook_response(&Err("entry failed".to_string()));
    assert_eq!(status, 500);
    assert_eq!(body, "entry failed".to_string());
}

#[test]
fn timer_failure_does_not_stop_the_next_tick() {
    let first_tick = collect_outcomes(&vec![UpdateOutcome::Failed {
        url: "http://one.example".to_string(),
        message: "down".to_string(),
    }]);
    assert!(first_tick.is_err());
    assert!(timed_trigger_continues(&first_tick));
    let second_tick = collect_outcomes(&vec![UpdateOutcome::Succeeded {
        url: "http://one.example".to_string(),
        status: 200,
    }]);
    assert!(second_tick.is_ok());
}

#[test]
fn timer_ticks_supply_no_addresses() {
    let m = timer_tick_addresses();
    assert!(m.get(&"anything".to_string()).is_none());
}
