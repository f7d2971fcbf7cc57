use knative_explorer::error::AppError;
use knative_explorer::k8s::{Event, Label, ObjectMeta, ObjectReference, Pod, PodStatus};
use knative_explorer::logic::{
    classify_service_lookup, count_running_pods, events_for_service, external_url_for,
    image_for_revision, ingress_route_to_url, is_knative_service_event, is_pod_running,
    namespaces_with_services, ping_result, summarize_conditions, summarize_one_service,
    summarize_services, to_event_summary, truncate_to_last_n, LookupError,
    KNATIVE_SERVICE_LABEL,
};
use knative_explorer::types::knative::{
    Condition, KnativeServiceSpec, KnativeServiceStatus, Revision, RevisionContainer,
    RevisionSpec, Service,
};
use knative_explorer::types::traefik::{IngressRoute, IngressRouteSpec, Route};
use knative_explorer::types::EventSummary;

fn meta(name: &str) -> ObjectMeta {
    ObjectMeta {
        name: Some(name.to_string()),
        generate_name: None,
        namespace: Some("default".to_string()),
        labels: vec![],
    }
}

fn condition(t: &str, s: &str) -> Condition {
    Condition {
        condition_type: t.to_string(),
        status: s.to_string(),
        reason: Some("Because".to_string()),
        message: None,
    }
}

fn service(name: &str, ready: bool, url: Option<&str>, latest: Option<&str>) -> Service {
    Service {
        metadata: meta(name),
        spec: KnativeServiceSpec {},
        status: Some(KnativeServiceStatus {
            url: url.map(|u| u.to_string()),
            conditions: Some(vec![
                condition("ConfigurationsReady", "True"),
                condition("Ready", if ready { "True" } else { "False" }),
            ]),
            latest_ready_revision_name: latest.map(|l| l.to_string()),
            latest_created_revision_name: None,
        }),
    }
}

fn route(name: &str, rule: &str, entry_points: &[&str]) -> IngressRoute {
    IngressRoute {
        metadata: meta(name),
        spec: IngressRouteSpec {
            entry_points: entry_points.iter().map(|e| e.to_string()).collect(),
            routes: vec![Route { rule: rule.to_string() }],
        },
    }
}

fn revision(name: &str, image: &str) -> Revision {
    Revision {
        metadata: meta(name),
        spec: RevisionSpec { containers: vec![RevisionContainer { image: image.to_string() }] },
    }
}

fn pod(name: &str, service: Option<&str>, phase: &str) -> Pod {
    let mut m = meta(name);
    if let Some(s) = service {
        m.labels = vec![
            Label { key: "app".to_string(), value: "x".to_string() },
            Label { key: KNATIVE_SERVICE_LABEL.to_string(), value: s.to_string() },
        ];
    }
    Pod { metadata: m, status: Some(PodStatus { phase: Some(phase.to_string()) }) }
}

fn event(service: &str, reason: &str) -> Event {
    Event {
        involved_object: ObjectReference {
            api_version: Some("serving.knative.dev/v1".to_string()),
            kind: Some("Service".to_string()),
            name: Some(service.to_string()),
        },
        reason: Some(reason.to_string()),
        message: Some(format!("{reason} happened")),
        count: Some(2),
        type_: Some("Warning".to_string()),
        last_timestamp: None,
        creation_timestamp: None,
    }
}

fn timed_event(service: &str, reason: &str, last: Option<i64>, created: Option<i64>) -> Event {
    let mut ev = event(service, reason);
    ev.last_timestamp = last;
    ev.creation_timestamp = created;
    ev
}

fn summary(reason: &str) -> EventSummary {
    EventSummary {
        reason: reason.to_string(),
        message: String::new(),
        count: 1,
        event_type: "Normal".to_string(),
    }
}

fn reasons(v: &[EventSummary]) -> Vec<String> {
    v.iter().map(|e| e.reason.clone()).collect()
}

#[test]
fn conditions_copied_in_order() {
    let conds = vec![condition("Ready", "True"), condition("RoutesReady", "False")];
    let s = summarize_conditions(Some(&conds));
    assert_eq!(s.len(), 2);
    assert_eq!(s[0].condition_type, "Ready");
    assert_eq!(s[0].status, "True");
    assert_eq!(s[0].reason.as_deref(), Some("Because"));
    assert_eq!(s[1].condition_type, "RoutesReady");
    assert_eq!(s[1].status, "False");
    assert!(s[1].message.is_none());
}

#[test]
fn no_conditions_summarized_as_empty() {
    assert!(summarize_conditions(None).is_empty());
}

#[test]
fn pod_running_only_in_running_phase() {
    assert!(is_pod_running(&pod("a", None, "Running")));
    assert!(!is_pod_running(&pod("a", None, "Pending")));
    assert!(!is_pod_running(&Pod { metadata: meta("a"), status: None }));
    assert!(!is_pod_running(&Pod { metadata: meta("a"), status: Some(PodStatus { phase: None }) }));
}

#[test]
fn truncate_keeps_last_events() {
    let mut v: Vec<EventSummary> = (1..=7).map(|i| summary(&format!("e{i}"))).collect();
    truncate_to_last_n(&mut v, 5);
    assert_eq!(reasons(&v), vec!["e3", "e4", "e5", "e6", "e7"]);
    truncate_to_last_n(&mut v, 5);
    assert_eq!(v.len(), 5);
}

#[test]
fn truncate_keeps_short_list() {
    let mut v: Vec<EventSummary> = (1..=3).map(|i| summary(&format!("e{i}"))).collect();
    truncate_to_last_n(&mut v, 5);
    assert_eq!(reasons(&v), vec!["e1", "e2", "e3"]);
    truncate_to_last_n(&mut v, 0);
    assert!(v.is_empty());
}

#[test]
fn route_url_https_on_websecure() {
    let ir = route("svc", "Host(`svc.example.com`)", &["web", "websecure"]);
    assert_eq!(ingress_route_to_url(&ir), Some("https://svc.example.com".to_string()));
}

#[test]
fn route_url_http_otherwise() {
    let ir = route("svc", "Host(`svc.example.com`) && PathPrefix(`/x`)", &["web"]);
    assert_eq!(ingress_route_to_url(&ir), Some("http://svc.example.com".to_string()));
}

#[test]
fn route_url_none_without_host() {
    let ir = route("svc", "PathPrefix(\"/x\")", &["websecure"]);
    assert_eq!(ingress_route_to_url(&ir), None);
    let empty = IngressRoute {
        metadata: meta("svc"),
        spec: IngressRouteSpec { entry_points: vec![], routes: vec![] },
    };
    assert_eq!(ingress_route_to_url(&empty), None);
}

#[test]
fn event_summary_defaults() {
    let ev = Event {
        involved_object: ObjectReference { api_version: None, kind: None, name: None },
        reason: None,
        message: None,
        count: None,
        type_: None,
        last_timestamp: None,
        creation_timestamp: None,
    };
    let s = to_event_summary(&ev);
    assert_eq!(s.reason, "");
    assert_eq!(s.message, "");
    assert_eq!(s.count, 1);
    assert_eq!(s.event_type, "Normal");
    let s = to_event_summary(&event("a", "Created"));
    assert_eq!(s.reason, "Created");
    assert_eq!(s.message, "Created happened");
    assert_eq!(s.count, 2);
    assert_eq!(s.event_type, "Warning");
}

#[test]
fn knative_service_events_recognized() {
    assert!(is_knative_service_event(&event("a", "x")));
    let mut core = event("a", "x");
    core.involved_object.api_version = Some("v1".to_string());
    assert!(!is_knative_service_event(&core));
    let mut rev = event("a", "x");
    rev.involved_object.kind = Some("Revision".to_string());
    assert!(!is_knative_service_event(&rev));
}

#[test]
fn later_route_wins_and_urlless_route_is_skipped() {
    let irs = vec![
        route("svc", "Host(`one.example.com`)", &["web"]),
        route("svc", "Host(`two.example.com`)", &["websecure"]),
        route("svc", "no host here", &["web"]),
        route("other", "Host(`three.example.com`)", &["web"]),
    ];
    assert_eq!(external_url_for(&irs, "svc"), Some("https://two.example.com".to_string()));
    assert_eq!(external_url_for(&irs, "missing"), None);
}

#[test]
fn revision_image_skips_empty() {
    let revs = vec![revision("svc-1", "img:1"), revision("svc-1", ""), revision("svc-2", "img:2")];
    assert_eq!(image_for_revision(&revs, "svc-1"), Some("img:1".to_string()));
    assert_eq!(image_for_revision(&revs, "svc-2"), Some("img:2".to_string()));
    assert_eq!(image_for_revision(&revs, "svc-3"), None);
}

#[test]
fn running_pods_counted_per_service() {
    let pods = vec![
        pod("p1", Some("a"), "Running"),
        pod("p2", Some("a"), "Pending"),
        pod("p3", Some("b"), "Running"),
        pod("p4", None, "Running"),
        pod("p5", Some("a"), "Running"),
    ];
    assert_eq!(count_running_pods(&pods, "a"), 2);
    assert_eq!(count_running_pods(&pods, "b"), 1);
    assert_eq!(count_running_pods(&pods, "c"), 0);
}

#[test]
fn events_filtered_and_limited_to_five() {
    let mut evs: Vec<Event> = (1..=7).map(|i| event("a", &format!("e{i}"))).collect();
    evs.insert(3, event("b", "other"));
    let s = events_for_service(&evs, "a");
    assert_eq!(reasons(&s), vec!["e3", "e4", "e5", "e6", "e7"]);
    assert_eq!(reasons(&events_for_service(&evs, "b")), vec!["other"]);
}

#[test]
fn services_summarized_in_order() {
    let services = vec![
        service("a", true, Some("http://a.default.svc"), Some("a-00002")),
        service("b", false, Some("http://b.default.svc"), None),
        service("a", true, None, None),
    ];
    let irs = vec![route("a", "Host(`a.example.com`)", &["websecure"])];
    let revs = vec![revision("a-00001", "img:old"), revision("a-00002", "img:new")];
    let evs = vec![event("a", "Created"), event("b", "Failed")];
    let pods = vec![pod("p1", Some("a"), "Running"), pod("p2", Some("a"), "Running")];
    let r = summarize_services("default", &services, Some(irs), Some(revs), Some(evs), Some(pods));
    assert_eq!(r.len(), 3);
    assert_eq!(r[0].name, "a");
    assert_eq!(r[0].namespace, "default");
    assert_eq!(r[0].url.as_deref(), Some("https://a.example.com"));
    assert!(r[0].ready);
    assert_eq!(r[0].instance_count, 2);
    assert_eq!(r[0].conditions.len(), 2);
    assert_eq!(r[0].latest_revision.as_deref(), Some("a-00002"));
    assert_eq!(r[0].image.as_deref(), Some("img:new"));
    assert_eq!(reasons(&r[0].events), vec!["Created"]);
    assert_eq!(r[1].url.as_deref(), Some("http://b.default.svc"));
    assert!(!r[1].ready);
    assert_eq!(r[1].instance_count, 0);
    assert_eq!(r[1].image, None);
    assert_eq!(reasons(&r[1].events), vec!["Failed"]);
    // A second service of the same name finds its events already taken.
    assert!(r[2].events.is_empty());
    assert_eq!(r[2].instance_count, 2);
}

#[test]
fn services_summarized_without_optional_lists() {
    let services = vec![service("a", true, Some("http://a.default.svc"), Some("a-1"))];
    let r = summarize_services("ns", &services, None, None, None, None);
    assert_eq!(r.len(), 1);
    assert_eq!(r[0].url.as_deref(), Some("http://a.default.svc"));
    assert_eq!(r[0].image, None);
    assert_eq!(r[0].instance_count, 0);
    assert!(r[0].events.is_empty());
}

#[test]
fn lookup_not_found_is_none() {
    let r = classify_service_lookup(Err(LookupError { api_status: Some(404), message: "nf".into() }));
    assert!(matches!(r, Ok(None)));
}

#[test]
fn lookup_other_error_is_kube_error() {
    let r = classify_service_lookup(Err(LookupError { api_status: Some(500), message: "boom".into() }));
    match r {
        Err(AppError::Kube(m)) => assert_eq!(m, "boom"),
        _ => panic!("expected a Kubernetes error"),
    }
    let r = classify_service_lookup(Err(LookupError { api_status: None, message: "io".into() }));
    match r {
        Err(e) => assert_eq!(e.to_string(), "kubernetes error: io"),
        _ => panic!("expected an error"),
    }
}

#[test]
fn lookup_found_is_some() {
    let r = classify_service_lookup(Ok(service("a", true, None, None)));
    match r {
        Ok(Some(s)) => assert_eq!(s.metadata.name.as_deref(), Some("a")),
        _ => panic!("expected the service"),
    }
}

#[test]
fn one_service_summarized() {
    let svc = service("a", true, Some("http://a.default.svc"), Some("a-2"));
    let revs = vec![revision("a-2", ""), revision("a-2", "img:2")];
    let pods = vec![pod("p1", Some("a"), "Running"), pod("p2", Some("a"), "Failed")];
    let evs: Vec<Event> = (1..=6).map(|i| event("a", &format!("e{i}"))).collect();
    let r = summarize_one_service(
        "default".to_string(),
        &svc,
        Some(route("a", "Host(`a.example.com`)", &["web"])),
        Some(revs),
        Some(pods),
        Some(evs),
    );
    assert_eq!(r.name, "a");
    assert_eq!(r.url.as_deref(), Some("http://a.example.com"));
    assert!(r.ready);
    // The first revision of that name decides, and its image is empty.
    assert_eq!(r.image, None);
    assert_eq!(r.instance_count, 1);
    assert_eq!(reasons(&r.events), vec!["e2", "e3", "e4", "e5", "e6"]);
}

#[test]
fn one_service_falls_back_to_status_url() {
    let svc = service("a", false, Some("http://a.default.svc"), None);
    let r = summarize_one_service("default".to_string(), &svc, None, None, None, None);
    assert_eq!(r.url.as_deref(), Some("http://a.default.svc"));
    assert!(!r.ready);
    assert_eq!(r.instance_count, 0);
    assert!(r.events.is_empty());
    let r = summarize_one_service(
        "default".to_string(),
        &svc,
        Some(route("a", "no host", &["web"])),
        None,
        None,
        None,
    );
    assert_eq!(r.url.as_deref(), Some("http://a.default.svc"));
}

#[test]
fn namespaces_sorted_and_distinct() {
    let mut services = vec![
        service("a", true, None, None),
        service("b", true, None, None),
        service("c", true, None, None),
        service("d", true, None, None),
        service("e", true, None, None),
    ];
    services[0].metadata.namespace = Some("staging".into());
    services[1].metadata.namespace = Some("default".into());
    services[2].metadata.namespace = None;
    services[3].metadata.namespace = Some("staging".into());
    services[4].metadata.namespace = Some("apps".into());
    assert_eq!(namespaces_with_services(&services), vec!["apps", "default", "staging"]);
    assert!(namespaces_with_services(&vec![]).is_empty());
}

#[test]
fn namespaces_sorted_by_code_point() {
    let mut services = vec![service("a", true, None, None), service("b", true, None, None), service("c", true, None, None)];
    services[0].metadata.namespace = Some("b".into());
    services[1].metadata.namespace = Some("B".into());
    services[2].metadata.namespace = Some("ab".into());
    assert_eq!(namespaces_with_services(&services), vec!["B", "ab", "b"]);
}

#[test]
fn ping_result_keeps_status_and_latency() {
    let r = ping_result(200, 312);
    assert_eq!(r.status_code, 200);
    assert_eq!(r.latency_ms, 312);
    let r = ping_result(503, (1u128 << 64) + 7);
    assert_eq!(r.status_code, 503);
    assert_eq!(r.latency_ms, 7);
}

#[test]
fn name_any_falls_back_to_generate_name() {
    let mut m = meta("x");
    assert_eq!(m.name_any(), "x");
    m.name = None;
    m.generate_name = Some("x-".into());
    assert_eq!(m.name_any(), "x-");
    m.generate_name = None;
    assert_eq!(m.name_any(), "");
}

#[test]
fn label_lookup() {
    let p = pod("p", Some("svc"), "Running");
    assert_eq!(p.metadata.label(KNATIVE_SERVICE_LABEL), Some("svc".to_string()));
    assert_eq!(p.metadata.label("missing"), None);
}

#[test]
fn summary_ready_matches_its_conditions() {
    let services = vec![
        service("a", true, None, None),
        service("b", false, None, None),
        Service { metadata: meta("c"), spec: KnativeServiceSpec {}, status: None },
    ];
    for s in summarize_services("ns", &services, None, None, None, None) {
        let shown = s
            .conditions
            .iter()
            .any(|c| c.condition_type == "Ready" && c.status == "True");
        assert_eq!(s.ready, shown);
    }
}

#[test]
fn instance_count_never_exceeds_pods() {
    let pods = vec![pod("p1", Some("a"), "Running"), pod("p2", Some("a"), "Running")];
    let r = summarize_services("ns", &vec![service("a", true, None, None)], None, None, None, Some(pods));
    assert_eq!(r[0].instance_count, 2);
    assert!(r[0].instance_count <= 2);
}

#[test]
fn most_recent_events_by_timestamp() {
    // Newest first in the list: the five most recent are still chosen, oldest first.
    let evs: Vec<Event> = (1..=7)
        .rev()
        .map(|i| timed_event("a", &format!("e{i}"), Some(1000 + i), None))
        .collect();
    assert_eq!(reasons(&events_for_service(&evs, "a")), vec!["e3", "e4", "e5", "e6", "e7"]);
}

#[test]
fn creation_timestamp_used_when_last_missing() {
    let evs = vec![
        timed_event("a", "late", None, Some(50)),
        timed_event("a", "early", Some(10), Some(5)),
        timed_event("a", "untimed", None, None),
        timed_event("a", "middle", Some(30), Some(1)),
    ];
    assert_eq!(reasons(&events_for_service(&evs, "a")), vec!["untimed", "early", "middle", "late"]);
}

#[test]
fn equal_times_keep_list_order() {
    let evs = vec![
        timed_event("a", "x", Some(7), None),
        timed_event("a", "y", Some(7), None),
        timed_event("a", "z", Some(3), None),
    ];
    assert_eq!(reasons(&events_for_service(&evs, "a")), vec!["z", "x", "y"]);
}

#[test]
fn single_service_events_by_timestamp() {
    let svc = service("a", true, None, None);
    let evs: Vec<Event> = (1..=6)
        .rev()
        .map(|i| timed_event("a", &format!("e{i}"), Some(i), None))
        .collect();
    let r = summarize_one_service("default".to_string(), &svc, None, None, None, Some(evs));
    assert_eq!(reasons(&r.events), vec!["e2", "e3", "e4", "e5", "e6"]);
}

#[test]
fn single_summary_agrees_with_listing() {
    let services = vec![service("a", true, Some("http://a.default.svc"), Some("a-1")), service("b", false, None, None)];
    let irs = vec![route("a", "Host(`a.example.com`)", &["websecure"])];
    let listed = summarize_services("default", &services, Some(irs), None, None, None);
    let single = summarize_one_service(
        "default".to_string(),
        &services[0],
        Some(route("a", "Host(`a.example.com`)", &["websecure"])),
        None,
        None,
        None,
    );
    assert_eq!(listed[0].name, single.name);
    assert_eq!(listed[0].namespace, single.namespace);
    assert_eq!(listed[0].url, single.url);
    assert_eq!(listed[0].ready, single.ready);
    assert_eq!(listed[0].conditions.len(), single.conditions.len());
    assert_eq!(listed[0].latest_revision, single.latest_revision);
    let single_b = summarize_one_service("default".to_string(), &services[1], None, None, None, None);
    assert_eq!(listed[1].url, single_b.url);
}
