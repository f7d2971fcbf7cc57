use knative_explorer::logs::{
    combine_pod_logs, service_event_field_selector, service_label_selector, PodLogs,
};
use knative_explorer::watcher::services_to_refresh;

#[test]
fn no_pods_message() {
    assert_eq!(combine_pod_logs(&vec![]), "No pods found for this service.");
}

#[test]
fn logs_prefixed_with_pod_name() {
    let pods = vec![
        PodLogs { pod_name: "p1".into(), logs: Ok("line 1\nline 2".into()) },
        PodLogs { pod_name: "p2".into(), logs: Ok("done\n".into()) },
        PodLogs { pod_name: "p3".into(), logs: Err("forbidden".into()) },
        PodLogs { pod_name: "p4".into(), logs: Ok(String::new()) },
    ];
    assert_eq!(
        combine_pod_logs(&pods),
        "=== p1 ===\nline 1\nline 2\n=== p2 ===\ndone\n=== p3 (error) ===\nforbidden\n=== p4 ===\n\n"
    );
}

#[test]
fn selectors_name_the_service() {
    assert_eq!(service_label_selector("hello"), "serving.knative.dev/service=hello");
    assert_eq!(
        service_event_field_selector("hello"),
        "involvedObject.name=hello,involvedObject.kind=Service"
    );
}

#[test]
fn refresh_each_service_once() {
    let r = services_to_refresh(
        "a".into(),
        vec!["b".into(), "a".into(), "c".into(), "b".into()],
        true,
        "default",
    );
    assert_eq!(r, vec!["a", "b", "c"]);
}

#[test]
fn refresh_nothing_when_hidden_or_unwatched() {
    assert!(services_to_refresh("a".into(), vec!["b".into()], false, "default").is_empty());
    assert!(services_to_refresh("a".into(), vec!["b".into()], true, "").is_empty());
}

#[test]
fn combined_logs_end_with_newline() {
    for logs in [Ok(String::new()), Ok("a".to_string()), Ok("a\n".to_string()), Err("e".to_string())] {
        let out = combine_pod_logs(&vec![PodLogs { pod_name: "p".into(), logs }]);
        assert!(out.ends_with('\n'));
    }
}
