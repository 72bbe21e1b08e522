use jlo::error::AppError;
use jlo::mock_decider::{mock_requirement_yaml, plan_mock_decider, requirement_for_event, tag_decided_event};

fn ids(xs: &[&str]) -> Vec<String> {
    xs.iter().map(|s| s.to_string()).collect()
}

#[test]
fn mock_decider_routes_first_event_to_planner() {
    let plan = plan_mock_decider(&ids(&["aa1111", "bb2222", "cc3333"]), "mock-test-decider", &ids(&["bugs", "feats"])).unwrap();
    assert_eq!(plan.label, "bugs");
    assert_eq!(plan.planner_events, ids(&["aa1111"]));
    assert_eq!(plan.implementer_events, ids(&["bb2222", "cc3333"]));
    assert_eq!(plan.planner_file, "planner-mock-test-decider.yml");
    assert_eq!(plan.implementer_file, "impl-mock-test-decider.yml");
    assert_eq!(requirement_for_event("aa1111", &plan, "p1", "i1"), "p1");
    assert_eq!(requirement_for_event("cc3333", &plan, "p1", "i1"), "i1");
}

#[test]
fn mock_decider_refusals() {
    match plan_mock_decider(&ids(&["a", "b"]), "bad/tag", &ids(&["bugs"])) {
        Err(AppError::InvalidConfig(m)) => assert!(m.contains("must be a safe path component")),
        other => panic!("unexpected: {:?}", other.err()),
    }
    match plan_mock_decider(&ids(&["a", "b"]), "tag", &Vec::new()) {
        Err(AppError::InvalidConfig(m)) => assert_eq!(m, "No requirement labels available for mock decider"),
        other => panic!("unexpected: {:?}", other.err()),
    }
    match plan_mock_decider(&ids(&["a"]), "tag", &ids(&["bugs"])) {
        Err(AppError::InvalidConfig(m)) => {
            assert_eq!(m, "Mock decider requires at least 2 decided events for tag 'tag', found 1")
        }
        other => panic!("unexpected: {:?}", other.err()),
    }
}

const TEMPLATE: &str = "id: mock01\nlabel: bugs\nsummary: s\nsource_events:\n- event1\ntitle: t\npriority: medium\nimplementation_ready: true\nplanner_request_reason: ''\n";

#[test]
fn mock_decider_processes_events_and_creates_requirements() {
    let plan = plan_mock_decider(&ids(&["event1", "event2"]), "mock-test-decider", &ids(&["bugs"])).unwrap();
    let planner = mock_requirement_yaml(TEMPLATE, "abc123", &plan.label, "mock-test-decider", &plan.planner_events, true).unwrap();
    let planner_yaml: serde_yaml::Value = serde_yaml::from_str(&planner).unwrap();
    assert_eq!(planner_yaml["id"].as_str(), Some("abc123"));
    assert_eq!(planner_yaml["implementation_ready"].as_bool(), Some(false));
    assert_eq!(planner_yaml["priority"].as_str(), Some("high"));
    assert!(!planner_yaml["planner_request_reason"].as_str().unwrap_or("").trim().is_empty());
    assert_eq!(planner_yaml["source_events"][0].as_str(), Some("event1"));
    assert_eq!(planner_yaml["source_events"].as_sequence().unwrap().len(), 1);
    assert!(planner_yaml["summary"].as_str().unwrap().ends_with("Mock tag: mock-test-decider"));

    let implementer = mock_requirement_yaml(TEMPLATE, "def456", &plan.label, "mock-test-decider", &plan.implementer_events, false).unwrap();
    let impl_yaml: serde_yaml::Value = serde_yaml::from_str(&implementer).unwrap();
    assert_eq!(impl_yaml["implementation_ready"].as_bool(), Some(true));
    assert_eq!(impl_yaml["planner_request_reason"].as_str(), Some(""));
    assert_eq!(impl_yaml["source_events"][0].as_str(), Some("event2"));
    assert_eq!(impl_yaml["title"].as_str(), Some("Mock requirement ready for implementation"));
}

#[test]
fn mock_requirement_template_errors() {
    match mock_requirement_yaml("a: [", "x", "bugs", "t", &Vec::new(), true) {
        Err(AppError::InternalError(m)) => assert!(m.starts_with("Failed to parse mock requirement template: ")),
        other => panic!("unexpected: {:?}", other),
    }
}

#[test]
fn decided_event_records_its_requirement() {
    let out = tag_decided_event("id: event1\nsummary: s1\n", "requirement_id", "abc123").unwrap();
    let v: serde_yaml::Value = serde_yaml::from_str(&out).unwrap();
    assert_eq!(v["requirement_id"].as_str(), Some("abc123"));
    assert_eq!(v["id"].as_str(), Some("event1"));
    assert_eq!(tag_decided_event("- a\n- b\n", "requirement_id", "x"), None);
    assert_eq!(tag_decided_event("a: [", "requirement_id", "x"), None);
}
