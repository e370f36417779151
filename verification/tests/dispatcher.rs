use rule_config::config::Config;
use rule_config::configuration_service::{ConfigWatcher, Configuration};
use rule_config::decode::decode_config;
use rule_config::rule_types::RuleType;
use rule_config::rule_validation_service::{
    RuleValidationService, active_kinds, collect_outcomes, dispatch_plan, filter_configured_groups,
};

const SCENARIO_DOC: &str = r#"<c><ValidationRules><Groups>
  <ValidationRulesGroup Group="Candidate">
    <ValidationRule Type="SideJobPrevention" Enabled="true">
      <Rules><Rule ForCandidateStatusIds="1" Enforce="true"/></Rules>
    </ValidationRule>
    <ValidationRule Type="ExhaustionPrevention" Enabled="false">
      <Rules><Rule ForCandidateStatusIds="" Enforce="false"/></Rules>
    </ValidationRule>
  </ValidationRulesGroup>
  <ValidationRulesGroup Group="Shift">
    <ValidationRule Type="IndecisivePrevention" Enabled="true">
      <Rules><Rule ForCandidateStatusIds="" Enforce="false"/></Rules>
    </ValidationRule>
  </ValidationRulesGroup>
</Groups></ValidationRules></c>"#;

fn scenario_config() -> Config {
    decode_config(SCENARIO_DOC).unwrap()
}

fn scenario_active() -> Configuration {
    Configuration {
        rules: vec![RuleType::SideJobPrevention, RuleType::ExhaustionPrevention],
    }
}

#[test]
fn active_subset_intersects_and_respects_enabled() {
    // active set {SideJobPrevention, ExhaustionPrevention}; the document
    // enables SideJobPrevention and IndecisivePrevention only
    let config = scenario_config();
    let kinds = active_kinds(&config, &scenario_active());
    assert_eq!(kinds, vec![RuleType::SideJobPrevention]);
}

#[test]
fn plan_pairs_each_kind_with_its_declaration() {
    let config = scenario_config();
    let plan = dispatch_plan(&config, &scenario_active());
    assert_eq!(plan.len(), 1);
    assert_eq!(plan[0].0, RuleType::SideJobPrevention);
    assert_eq!(plan[0].1.rule_type, RuleType::SideJobPrevention);
    assert_eq!(plan[0].1.rules.rules[0].for_candidate_status_ids, vec![1]);

    let all = Configuration {
        rules: vec![
            RuleType::SideJobPrevention,
            RuleType::ExhaustionPrevention,
            RuleType::IndecisivePrevention,
        ],
    };
    let plan = dispatch_plan(&config, &all);
    let kinds: Vec<RuleType> = plan.iter().map(|p| p.0).collect();
    assert_eq!(kinds, vec![RuleType::SideJobPrevention, RuleType::IndecisivePrevention]);
}

#[test]
fn plan_lists_each_kind_once_in_document_order() {
    let doc = r#"<c><ValidationRules><Groups>
      <ValidationRulesGroup Group="G">
        <ValidationRule Type="ExhaustionPrevention" Enabled="true">
          <Rules></Rules>
        </ValidationRule>
        <ValidationRule Type="SideJobPrevention" Enabled="true">
          <Rules></Rules>
        </ValidationRule>
        <ValidationRule Type="ExhaustionPrevention" Enabled="true">
          <Rules><Rule ForCandidateStatusIds="9"/></Rules>
        </ValidationRule>
      </ValidationRulesGroup>
    </Groups></ValidationRules></c>"#;
    let config = decode_config(doc).unwrap();
    let active = Configuration {
        rules: vec![RuleType::SideJobPrevention, RuleType::ExhaustionPrevention],
    };
    let plan = dispatch_plan(&config, &active);
    let kinds: Vec<RuleType> = plan.iter().map(|p| p.0).collect();
    assert_eq!(kinds, vec![RuleType::ExhaustionPrevention, RuleType::SideJobPrevention]);
    // the first declaration of a kind carries the data
    assert_eq!(plan[0].1.rules.rules.len(), 0);
}

#[test]
fn group_filter_keeps_document_order() {
    let config = scenario_config();
    let groups = &config.validation_rules.groups.validation_rules_groups;
    let active = scenario_active();
    let first = filter_configured_groups(&groups[0], &active);
    assert_eq!(first.len(), 1);
    assert_eq!(first[0].rule_type, RuleType::SideJobPrevention);
    let second = filter_configured_groups(&groups[1], &active);
    assert_eq!(second.len(), 0);
}

#[test]
fn fanout_isolation_reports_the_one_failure() {
    // three active kinds, one evaluator always fails
    let results: Vec<(RuleType, Result<(), String>)> = vec![
        (RuleType::SideJobPrevention, Ok(())),
        (RuleType::ExhaustionPrevention, Err("exhaustion ledger offline".to_string())),
        (RuleType::IndecisivePrevention, Ok(())),
    ];
    let report = collect_outcomes(results);
    assert_eq!(report.succeeded, 2);
    assert_eq!(report.failures.len(), 1);
    assert_eq!(report.failures[0].rule_name, "ExhaustionPrevention");
    assert_eq!(report.failures[0].cause, "exhaustion ledger offline");
}

#[test]
fn dispatcher_waits_reacts_and_waits_again() {
    let initial = scenario_config();
    let mut watcher = ConfigWatcher::new(Ok(initial)).unwrap();
    let mut service = RuleValidationService::new(&watcher, scenario_active());

    // caught up: nothing to do
    assert!(service.process_rules(&watcher).is_none());

    // a republished change wakes the dispatcher with the new plan
    let changed = decode_config(
        r#"<c><ValidationRules><Groups>
             <ValidationRulesGroup Group="Candidate">
               <ValidationRule Type="ExhaustionPrevention" Enabled="true">
                 <Rules><Rule ForCandidateStatusIds="3"/></Rules>
               </ValidationRule>
             </ValidationRulesGroup>
           </Groups></ValidationRules></c>"#,
    )
    .unwrap();
    watcher.apply_poll(Ok(changed));
    let plan = service.process_rules(&watcher).expect("a change must produce a plan");
    assert_eq!(plan.len(), 1);
    assert_eq!(plan[0].0, RuleType::ExhaustionPrevention);

    // after the fan-out the dispatcher is caught up again
    assert!(service.process_rules(&watcher).is_none());
}
