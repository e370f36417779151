use rule_config::config::Config;
use rule_config::configuration_service::{ConfigWatcher, PollOutcome, load_config};
use rule_config::errors::SourceError;

fn doc(group: &str) -> String {
    format!(
        r#"<c><ValidationRules><Groups>
             <ValidationRulesGroup Group="{}">
               <ValidationRule Type="SideJobPrevention" Enabled="true">
                 <Rules><Rule ForCandidateStatusIds="1,2" Enforce="true"/></Rules>
               </ValidationRule>
             </ValidationRulesGroup>
           </Groups></ValidationRules></c>"#,
        group
    )
}

fn cfg(group: &str) -> Config {
    load_config(Some(doc(group).as_str())).unwrap()
}

#[test]
fn load_config_maps_failures() {
    assert!(matches!(load_config(None), Err(SourceError::Unavailable)));
    assert!(matches!(load_config(Some("not xml <")), Err(SourceError::Malformed(_))));
    assert!(load_config(Some(doc("G").as_str())).is_ok());
}

#[test]
fn construction_requires_a_first_snapshot() {
    let w = ConfigWatcher::new(Ok(cfg("A"))).unwrap();
    assert_eq!(w.version, 0);
    assert!(*w.current_snapshot() == cfg("A"));

    match ConfigWatcher::new(Err(SourceError::Unavailable)) {
        Err(SourceError::Unavailable) => (),
        other => panic!("expected Unavailable, got {:?}", other),
    }
}

#[test]
fn publish_only_on_real_change() {
    let mut w = ConfigWatcher::new(Ok(cfg("A"))).unwrap();
    assert!(matches!(w.apply_poll(Ok(cfg("A"))), PollOutcome::Unchanged));
    assert_eq!(w.version, 0);
    assert!(matches!(w.apply_poll(Ok(cfg("B"))), PollOutcome::Published));
    assert_eq!(w.version, 1);
    assert!(*w.current_snapshot() == cfg("B"));
    assert!(matches!(w.apply_poll(Ok(cfg("B"))), PollOutcome::Unchanged));
    assert_eq!(w.version, 1);
}

#[test]
fn wake_count_equals_distinct_successive_configs() {
    // duplicate loads in the middle must not wake anybody
    let loads = ["A", "A", "B", "B", "B", "A", "A", "C"];
    let mut w = ConfigWatcher::new(Ok(cfg(loads[0]))).unwrap();
    let mut wakes = 0u64;
    for g in &loads[1..] {
        if matches!(w.apply_poll(Ok(cfg(g))), PollOutcome::Published) {
            wakes += 1;
        }
    }
    // distinct successive snapshots after the initial one: B, A, C
    assert_eq!(wakes, 3);
    assert_eq!(w.version, 3);
}

#[test]
fn failed_poll_keeps_previous_snapshot() {
    let mut w = ConfigWatcher::new(Ok(cfg("A"))).unwrap();
    match w.apply_poll(load_config(None)) {
        PollOutcome::Failed(SourceError::Unavailable) => (),
        other => panic!("expected Failed(Unavailable), got {:?}", other),
    }
    assert!(*w.current_snapshot() == cfg("A"));
    assert_eq!(w.version, 0);

    match w.apply_poll(load_config(Some("<broken"))) {
        PollOutcome::Failed(SourceError::Malformed(_)) => (),
        other => panic!("expected Failed(Malformed), got {:?}", other),
    }
    assert!(*w.current_snapshot() == cfg("A"));
    assert_eq!(w.version, 0);
}

#[test]
fn subscriptions_coalesce_to_latest() {
    let mut w = ConfigWatcher::new(Ok(cfg("A"))).unwrap();
    let mut sub = w.subscribe();
    assert!(!w.has_update(&sub));

    w.apply_poll(Ok(cfg("B")));
    w.apply_poll(Ok(cfg("C")));
    assert!(w.has_update(&sub));
    // a slow subscriber sees only the latest snapshot, not B
    assert!(*w.read_latest(&mut sub) == cfg("C"));
    assert!(!w.has_update(&sub));
}
