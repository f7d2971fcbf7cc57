use knative_explorer::types::knative;
use knative_explorer::types::{extract_ingress_hostname, extract_ready_status};

fn ready_condition(status: &str) -> knative::Condition {
    knative::Condition {
        condition_type: "Ready".into(),
        status: status.into(),
        reason: None,
        message: None,
    }
}

fn other_condition() -> knative::Condition {
    knative::Condition {
        condition_type: "ConfigurationsReady".into(),
        status: "True".into(),
        reason: None,
        message: None,
    }
}

#[test]
fn ingress_hostname_extracted() {
    assert_eq!(
        extract_ingress_hostname("Host(`my-service.int.example.com`)"),
        Some("my-service.int.example.com".into())
    );
}

#[test]
fn ingress_hostname_complex_rule() {
    assert_eq!(
        extract_ingress_hostname("Host(`foo.example.com`) && PathPrefix(`/api`)"),
        Some("foo.example.com".into())
    );
}

#[test]
fn ingress_hostname_no_backticks() {
    assert_eq!(extract_ingress_hostname("Host(\"foo.example.com\")"), None);
}

#[test]
fn ready_when_condition_true() {
    assert!(extract_ready_status(Some(&vec![ready_condition("True")])));
}

#[test]
fn not_ready_when_condition_false() {
    assert!(!extract_ready_status(Some(&vec![ready_condition("False")])));
}

#[test]
fn not_ready_when_condition_unknown() {
    assert!(!extract_ready_status(Some(&vec![ready_condition("Unknown")])));
}

#[test]
fn not_ready_when_no_conditions() {
    assert!(!extract_ready_status(None));
}

#[test]
fn not_ready_when_only_other_conditions() {
    assert!(!extract_ready_status(Some(&vec![other_condition()])));
}

#[test]
fn ready_found_among_multiple_conditions() {
    assert!(extract_ready_status(Some(&vec![
        other_condition(),
        ready_condition("True")
    ])));
}

#[test]
fn ingress_hostname_single_backtick() {
    assert_eq!(extract_ingress_hostname("Host(`foo.example.com"), None);
}

#[test]
fn ingress_hostname_empty_between_backticks() {
    assert_eq!(extract_ingress_hostname("Host(``)"), Some(String::new()));
}

#[test]
fn ingress_hostname_non_ascii() {
    assert_eq!(
        extract_ingress_hostname("Host(`bücher.example`)"),
        Some("bücher.example".into())
    );
}

#[test]
fn any_ready_true_condition_counts() {
    assert!(extract_ready_status(Some(&vec![
        ready_condition("False"),
        ready_condition("True")
    ])));
}

#[test]
fn not_ready_when_conditions_empty() {
    assert!(!extract_ready_status(Some(&vec![])));
}

#[test]
fn host_rule_round_trip() {
    for host in ["a", "my-service.int.example.com", "", "x.y.z"] {
        assert_eq!(extract_ingress_hostname(&format!("Host(`{host}`)")), Some(host.to_string()));
        assert_eq!(
            extract_ingress_hostname(&format!("Host(`{host}`) || Host(`other`)")),
            Some(host.to_string())
        );
    }
}

#[test]
fn extracted_host_has_no_backtick() {
    for rule in ["`a`b`", "x`y`", "``", "no ticks", "one ` tick"] {
        if let Some(h) = extract_ingress_hostname(rule) {
            assert!(!h.contains('`'));
        } else {
            assert!(rule.matches('`').count() < 2);
        }
    }
}
