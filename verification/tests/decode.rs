use rule_config::config::Config;
use rule_config::decode::decode_config;
use rule_config::errors::{DecodeError, MalformedKind};
use rule_config::rule_types::RuleType;
use rule_config::scalars::{parse_csv_string, parse_i32_str};
use rule_config::xml::{XmlToken, scan_xml};

fn open_names(tokens: &[XmlToken]) -> Vec<String> {
    let mut names = Vec::new();
    for t in tokens {
        if let XmlToken::Open { name, .. } = t {
            names.push(name.clone());
        }
    }
    names
}

#[test]
fn test_simple() {
    let xml = r#"<tag1 att1 = "test">
                    <tag2><!--Test comment-->Test</tag2>
                    <tag3>Test 2</tag3>
                </tag1>"#;
    let tokens = scan_xml(xml).unwrap();
    let names = open_names(&tokens);
    for name in &names[..2] {
        match name.as_str() {
            "tag1" | "tag2" => (),
            tag => panic!("unexpected early tag {:?}", tag),
        }
    }
    assert_eq!("tag3", names[2]);
}

#[test]
fn test_cfg_parsing() {
    let xml = r#"
<config>
    <!--
        Rules Config ======================
        This config is parsed and used as 'Rule validation engine'
    -->
    <ValidationRules>
      <Groups>
        <ValidationRulesGroup Group="Candidate">
          <ValidationRule Type="IndecisivePrevention" Enabled="True">
            <Rules>
              <Rule ForCandidateStatusIds="" IfShiftEndReasonIds="1" Enforce="False" ForTheNextXDays=""/>
            </Rules>
          </ValidationRule>
        </ValidationRulesGroup>
        <ValidationRulesGroup Group="Shift">
          <ValidationRule Type="SideJobPrevention" PositionTypeIDs="a" FromMatchStatusId="c" Enabled="True">
            <Rules>
              <Rule ForCandidateStatusIds="" Enforce="true"/>
            </Rules>
          </ValidationRule>
          <ValidationRule Type="LastMinuteActionPreventionForBooking" Enabled="True">
            <Rules>
              <Rule ForCandidateStatusIds="" Minutes="" Enforce="false"/>
            </Rules>
          </ValidationRule>
          <ValidationRule Type="LastMinuteActionPreventionForCanceling" Enabled="False">
            <Rules>
              <Rule ForCandidateStatusIds="" Minutes="" Enforce="False"/>
            </Rules>
          </ValidationRule>
          <ValidationRule Type="ExhaustionPrevention" FallbackShiftStatusId="1" Enabled="False">
            <Rules>
              <Rule ForCandidateStatusIds="" ForShiftStatusIds="" HoursAllowed="" WithinXHours="" Enforce="False"/>
            </Rules>
          </ValidationRule>
        </ValidationRulesGroup>
      </Groups>
    </ValidationRules>
  </config>
"#;
    let tokens = scan_xml(xml).unwrap();
    for t in &tokens {
        match t {
            XmlToken::Open { name, attrs, .. } => {
                println!("Start tag: {:?}", name);
                for (key, value) in attrs {
                    println!("{:?} = {:?}", key, value);
                    if key == "PositionTypeIDs" && parse_csv_string(value.trim()).is_ok() {
                        continue;
                    }
                    if key == "FromMatchStatusId" && parse_i32_str(value.trim()).is_some() {
                        continue;
                    }
                }
            }
            XmlToken::SelfClose { name, attrs, .. } => {
                println!("Empty tag: {:?}", name);
                for (key, value) in attrs {
                    println!("{:?} = {:?}", key, value);
                }
            }
            XmlToken::Close { name, .. } => {
                println!("End tag: {:?}", name);
            }
        }
    }
}

const VALID_DOC: &str = r#"<?xml version="1.0" encoding="UTF-8"?>
<config>
  <!-- rule validation settings -->
  <ValidationRules>
    <Groups>
      <ValidationRulesGroup Group="Shift">
        <ValidationRule Type="SideJobPrevention" PositionTypeIDs="1" FromMatchStatusId="0" Enabled="True">
          <Rules>
            <Rule ForCandidateStatusIds="" Enforce="true"/>
          </Rules>
        </ValidationRule>
        <ValidationRule Type="ExhaustionPrevention" FallbackShiftStatusId="-2" Enabled="false">
          <Rules>
            <Rule ForCandidateStatusIds="4,5" Enforce="False"/>
            <Rule ForCandidateStatusIds="6,,7"/>
          </Rules>
        </ValidationRule>
      </ValidationRulesGroup>
    </Groups>
  </ValidationRules>
</config>
"#;

#[test]
fn decode_reads_every_field() {
    let config = decode_config(VALID_DOC).unwrap();
    let groups = &config.validation_rules.groups.validation_rules_groups;
    assert_eq!(groups.len(), 1);
    assert_eq!(groups[0].group, "Shift");
    let rules = &groups[0].validation_rules;
    assert_eq!(rules.len(), 2);

    assert_eq!(rules[0].rule_type, RuleType::SideJobPrevention);
    assert_eq!(rules[0].enabled, true);
    assert_eq!(rules[0].position_type_ids, vec![1]);
    assert_eq!(rules[0].from_match_status_id, Some(0));
    assert_eq!(rules[0].fallback_shift_status_id, None);
    assert_eq!(rules[0].rules.rules.len(), 1);
    assert_eq!(rules[0].rules.rules[0].for_candidate_status_ids, Vec::<i32>::new());
    assert_eq!(rules[0].rules.rules[0].enforce, true);

    assert_eq!(rules[1].rule_type, RuleType::ExhaustionPrevention);
    assert_eq!(rules[1].enabled, false);
    assert_eq!(rules[1].fallback_shift_status_id, Some(-2));
    assert_eq!(rules[1].rules.rules.len(), 2);
    assert_eq!(rules[1].rules.rules[0].for_candidate_status_ids, vec![4, 5]);
    assert_eq!(rules[1].rules.rules[0].enforce, false);
    assert_eq!(rules[1].rules.rules[1].for_candidate_status_ids, vec![6, 7]);
    assert_eq!(rules[1].rules.rules[1].enforce, false);
}

#[test]
fn decode_is_deterministic_and_equality_behaves() {
    let a = decode_config(VALID_DOC).unwrap();
    let b = decode_config(VALID_DOC).unwrap();
    assert!(a == b);
    assert!(b == a);
    let c = a.clone();
    let _ = c;
    let other = decode_config(
        r#"<c><ValidationRules><Groups></Groups></ValidationRules></c>"#,
    )
    .unwrap();
    assert!(a != other);
}

#[test]
fn decode_handles_entities_and_single_quotes() {
    let doc = r#"<c><ValidationRules><Groups>
        <ValidationRulesGroup Group='A&amp;B &lt;&gt; &quot;&apos;'>
        </ValidationRulesGroup>
    </Groups></ValidationRules></c>"#;
    let config = decode_config(doc).unwrap();
    assert_eq!(
        config.validation_rules.groups.validation_rules_groups[0].group,
        "A&B <> \"'"
    );
}

#[test]
fn malformed_kinds_have_messages() {
    assert_eq!(MalformedKind::MissingRoot.message(), "no root element");
    assert_eq!(MalformedKind::UnexpectedEnd.message(), "unexpected end of document");
    assert_eq!(MalformedKind::MismatchedTag.message(), "closing tag does not match");
}

fn expect_malformed(doc: &str, want: MalformedKind) -> Option<usize> {
    match decode_config(doc) {
        Err(DecodeError::MalformedDocument { kind, offset }) => {
            assert_eq!(kind, want, "on {:?}", doc);
            offset
        }
        other => panic!("expected {:?} for {:?}, got {:?}", want, doc, other),
    }
}

#[test]
fn decode_structural_errors() {
    assert_eq!(expect_malformed("", MalformedKind::MissingRoot), None);
    assert_eq!(expect_malformed("   <!-- only a comment -->", MalformedKind::MissingRoot), None);
    assert_eq!(expect_malformed("<a/>", MalformedKind::MissingValidationRules), Some(0));
    assert_eq!(expect_malformed("<a></a>", MalformedKind::MissingValidationRules), Some(0));
    assert_eq!(
        expect_malformed("<a><ValidationRules></ValidationRules></a>", MalformedKind::MissingGroups),
        Some(3)
    );
    expect_malformed("<a><b></c></a>", MalformedKind::MismatchedTag);
    expect_malformed("<a><ValidationRules>", MalformedKind::UnexpectedEnd);
    expect_malformed("<!-- never closed", MalformedKind::UnexpectedEnd);
    expect_malformed("<a", MalformedKind::UnexpectedEnd);
    expect_malformed("<a x=5></a>", MalformedKind::BadMarkup);
    expect_malformed("<a x='&bogus;'></a>", MalformedKind::BadEntity);
    expect_malformed(
        "<c><ValidationRules><Groups><ValidationRulesGroup></ValidationRulesGroup></Groups></ValidationRules></c>",
        MalformedKind::MissingGroupName,
    );
    expect_malformed(
        "<c><ValidationRules><Groups><ValidationRulesGroup Group=''/></Groups></ValidationRules></c>",
        MalformedKind::MissingGroupName,
    );
    expect_malformed(
        "<c><ValidationRules><Groups><ValidationRulesGroup Group='G'><ValidationRule Enabled='true'><Rules></Rules></ValidationRule></ValidationRulesGroup></Groups></ValidationRules></c>",
        MalformedKind::MissingType,
    );
    expect_malformed(
        "<c><ValidationRules><Groups><ValidationRulesGroup Group='G'><ValidationRule Type='SideJobPrevention'><Rules></Rules></ValidationRule></ValidationRulesGroup></Groups></ValidationRules></c>",
        MalformedKind::MissingEnabled,
    );
    expect_malformed(
        "<c><ValidationRules><Groups><ValidationRulesGroup Group='G'><ValidationRule Type='SideJobPrevention' Enabled='true'></ValidationRule></ValidationRulesGroup></Groups></ValidationRules></c>",
        MalformedKind::MissingRules,
    );
    expect_malformed(
        "<c><ValidationRules><Groups><ValidationRulesGroup Group='G'><ValidationRule Type='SideJobPrevention' Enabled='true' FallbackShiftStatusId='x'><Rules></Rules></ValidationRule></ValidationRulesGroup></Groups></ValidationRules></c>",
        MalformedKind::BadInteger,
    );
}

#[test]
fn decode_scalar_errors() {
    match decode_config(
        "<c><ValidationRules><Groups><ValidationRulesGroup Group='G'><ValidationRule Type='Bogus' Enabled='true'><Rules></Rules></ValidationRule></ValidationRulesGroup></Groups></ValidationRules></c>",
    ) {
        Err(DecodeError::UnknownRuleKind(raw)) => assert_eq!(raw, "Bogus"),
        other => panic!("expected UnknownRuleKind, got {:?}", other),
    }
    match decode_config(
        "<c><ValidationRules><Groups><ValidationRulesGroup Group='G'><ValidationRule Type='SideJobPrevention' Enabled='maybe'><Rules></Rules></ValidationRule></ValidationRulesGroup></Groups></ValidationRules></c>",
    ) {
        Err(DecodeError::InvalidBoolean(raw)) => assert_eq!(raw, "maybe"),
        other => panic!("expected InvalidBoolean, got {:?}", other),
    }
    match decode_config(
        "<c><ValidationRules><Groups><ValidationRulesGroup Group='G'><ValidationRule Type='SideJobPrevention' Enabled='true' PositionTypeIDs='1,a'><Rules></Rules></ValidationRule></ValidationRulesGroup></Groups></ValidationRules></c>",
    ) {
        Err(DecodeError::InvalidIntegerList(raw, seg)) => {
            assert_eq!(raw, "1,a");
            assert_eq!(seg, "a");
        }
        other => panic!("expected InvalidIntegerList, got {:?}", other),
    }
}

#[test]
fn decode_rejects_the_event_fixture() {
    // the fixture walked by `test_cfg_parsing` declares PositionTypeIDs="a",
    // which fails the integer-list decoder
    let doc = r#"<config><ValidationRules><Groups>
        <ValidationRulesGroup Group="Shift">
          <ValidationRule Type="SideJobPrevention" PositionTypeIDs="a" FromMatchStatusId="c" Enabled="True">
            <Rules><Rule ForCandidateStatusIds="" Enforce="true"/></Rules>
          </ValidationRule>
        </ValidationRulesGroup>
    </Groups></ValidationRules></config>"#;
    match decode_config(doc) {
        Err(DecodeError::InvalidIntegerList(raw, seg)) => {
            assert_eq!(raw, "a");
            assert_eq!(seg, "a");
        }
        other => panic!("expected InvalidIntegerList, got {:?}", other),
    }
}

#[test]
fn decode_ignores_unknown_elements_and_attributes() {
    let doc = r#"<c>
      <Extra><Nested attr="1"/></Extra>
      <ValidationRules>
        <Noise/>
        <Groups>
          <Chatter level="9"><Deep><Deeper/></Deep></Chatter>
          <ValidationRulesGroup Group="G" Extra="x">
            <Hint/>
            <ValidationRule Type="IndecisivePrevention" Enabled="false" Surplus="y">
              <Remark/>
              <Rules>
                <Footnote/>
                <Rule ForCandidateStatusIds="9" Enforce="true" Unused=""/>
              </Rules>
            </ValidationRule>
          </ValidationRulesGroup>
        </Groups>
      </ValidationRules>
    </c>"#;
    let config: Config = decode_config(doc).unwrap();
    let groups = &config.validation_rules.groups.validation_rules_groups;
    assert_eq!(groups.len(), 1);
    let rules = &groups[0].validation_rules;
    assert_eq!(rules.len(), 1);
    assert_eq!(rules[0].rule_type, RuleType::IndecisivePrevention);
    assert_eq!(rules[0].rules.rules.len(), 1);
    assert_eq!(rules[0].rules.rules[0].for_candidate_status_ids, vec![9]);
}
