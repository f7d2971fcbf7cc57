//! How Kubernetes objects become service summaries: conditions, running pods, recent
//! events, external URLs and images.
use vstd::prelude::*;

use crate::k8s::{label_value, Event, Pod};
use crate::error::AppError;
use crate::events::{pick, recent_summaries, recent_views};
use crate::text::{
    clone_opt, lemma_lex_lt_total, lemma_lex_lt_transitive, lex_lt,
    opt_chars, owned, str_eq, str_lt, str_starts_with,
};
use crate::types::knative::{Condition, KnativeServiceStatus, Revision, Service};
use crate::types::traefik::IngressRoute;
use crate::types::{
    condition_views, conditions_ready, event_views, extract_ingress_hostname,
    extract_ready_status, spec_ingress_hostname, ConditionSummary, ConditionSummaryView,
    EventSummary, EventSummaryView, PingResult, ServiceSummary, ServiceSummaryView,
};

verus! {

/// The label that ties a pod to its Knative service.
pub const KNATIVE_SERVICE_LABEL: &'static str = "serving.knative.dev/service";

/// The characters of an optional string, the empty sequence when absent.
pub open spec fn chars_or_empty(o: Option<String>) -> Seq<char> {
    match o {
        Some(s) => s@,
        None => Seq::empty(),
    }
}

/// The elements of an optional list, none when absent.
pub open spec fn seq_or_empty<T>(o: Option<Vec<T>>) -> Seq<T> {
    match o {
        Some(v) => v@,
        None => Seq::empty(),
    }
}

/// The last `n` elements of `s` (all of them when there are fewer).
pub open spec fn last_n<A>(s: Seq<A>, n: nat) -> Seq<A> {
    if s.len() > n {
        s.skip(s.len() - n)
    } else {
        s
    }
}

/// A condition as the user sees it: the same four fields.
pub open spec fn condition_summary_of(c: Condition) -> ConditionSummaryView {
    ConditionSummaryView {
        condition_type: c.condition_type@,
        status: c.status@,
        reason: opt_chars(c.reason),
        message: opt_chars(c.message),
    }
}

/// The summaries of a service's conditions: one per condition, in order; none when the
/// service reports no conditions.
pub open spec fn spec_summarize_conditions(conds: Option<Seq<Condition>>) -> Seq<ConditionSummaryView> {
    match conds {
        Some(cs) => cs.map_values(|c: Condition| condition_summary_of(c)),
        None => Seq::empty(),
    }
}

/// Copies each condition into a `ConditionSummary`, keeping the order.
pub fn summarize_conditions(conditions: Option<&Vec<Condition>>) -> (r: Vec<ConditionSummary>)
    ensures
        condition_views(r@) == spec_summarize_conditions(
            match conditions {
                Some(v) => Some(v@),
                None => None,
            },
        ),
{
    match conditions {
        None => {
            let r: Vec<ConditionSummary> = Vec::new();
            assert(condition_views(r@) =~= Seq::<ConditionSummaryView>::empty());
            r
        },
        Some(conds) => copy_conditions(conds),
    }
}

/// One `ConditionSummary` per condition of `conds`, in order.
fn copy_conditions(conds: &Vec<Condition>) -> (r: Vec<ConditionSummary>)
    ensures
        condition_views(r@) == conds@.map_values(|c: Condition| condition_summary_of(c)),
{
    let mut r: Vec<ConditionSummary> = Vec::new();
    let mut i: usize = 0;
    while i < conds.len()
        invariant
            i <= conds@.len(),
            condition_views(r@) =~= conds@.take(i as int).map_values(
                |c: Condition| condition_summary_of(c),
            ),
        decreases conds@.len() - i,
    {
        let c = &conds[i];
        let s = ConditionSummary {
            condition_type: c.condition_type.clone(),
            status: c.status.clone(),
            reason: clone_opt(&c.reason),
            message: clone_opt(&c.message),
        };
        assert(s@ == condition_summary_of(conds@[i as int]));
        let ghost before = r@;
        r.push(s);
        proof {
            assert(condition_views(r@) =~= condition_views(before).push(s@));
            assert(conds@.take(i + 1) =~= conds@.take(i as int).push(conds@[i as int]));
        }
        i = i + 1;
    }
    assert(conds@.take(i as int) =~= conds@);
    r
}

/// A pod counts as running when its reported phase is `Running`.
pub open spec fn spec_pod_running(pod: Pod) -> bool {
    match pod.status {
        Some(st) => match st.phase {
            Some(p) => p@ == "Running"@,
            None => false,
        },
        None => false,
    }
}

/// Whether the pod's phase is `Running`.
pub fn is_pod_running(pod: &Pod) -> (r: bool)
    ensures
        r == spec_pod_running(*pod),
{
    match &pod.status {
        Some(st) => match &st.phase {
            Some(p) => str_eq(p.as_str(), "Running"),
            None => false,
        },
        None => false,
    }
}

/// Keeps only the last `n` events (the list is oldest-first, so these are the most recent).
pub fn truncate_to_last_n(events: &mut Vec<EventSummary>, n: usize)
    ensures
        final(events)@ == last_n(old(events)@, n as nat),
{
    let len = events.len();
    let keep = if len > n {
        len - n
    } else {
        0
    };
    let tail = events.split_off(keep);
    *events = tail;
    assert(old(events)@.subrange(keep as int, len as int) =~= last_n(old(events)@, n as nat));
}

/// Whether some entry point of the route is `websecure`.
pub open spec fn has_websecure(entry_points: Seq<String>) -> bool {
    exists|i: int| 0 <= i < entry_points.len() && #[trigger] entry_points[i]@ == "websecure"@
}

/// The external URL an ingress route gives: the scheme (`https` when it listens on the
/// `websecure` entry point, else `http`), `://`, and the host of its first route's rule.
pub open spec fn spec_route_url(ir: IngressRoute) -> Option<Seq<char>> {
    if ir.spec.routes.len() == 0 {
        None
    } else {
        match spec_ingress_hostname(ir.spec.routes[0].rule@) {
            None => None,
            Some(host) => Some(
                (if has_websecure(ir.spec.entry_points@) {
                    "https"@
                } else {
                    "http"@
                }) + "://"@ + host,
            ),
        }
    }
}

/// The external URL of an ingress route, when its first route names a host.
pub fn ingress_route_to_url(ir: &IngressRoute) -> (r: Option<String>)
    ensures
        opt_chars(r) == spec_route_url(*ir),
{
    if ir.spec.routes.len() == 0 {
        return None;
    }
    let host = match extract_ingress_hostname(ir.spec.routes[0].rule.as_str()) {
        Some(h) => h,
        None => {
            return None;
        },
    };
    let mut secure = false;
    let mut i: usize = 0;
    while i < ir.spec.entry_points.len()
        invariant
            i <= ir.spec.entry_points@.len(),
            secure == exists|k: int|
                0 <= k < i && #[trigger] ir.spec.entry_points@[k]@ == "websecure"@,
        decreases ir.spec.entry_points@.len() - i,
    {
        if str_eq(ir.spec.entry_points[i].as_str(), "websecure") {
            secure = true;
        }
        i = i + 1;
    }
    let mut url = if secure {
        owned("https")
    } else {
        owned("http")
    };
    url.append("://");
    url.append(host.as_str());
    Some(url)
}

/// An event as the user sees it: missing reason and message read as empty, a missing
/// count as 1 and a missing type as `Normal`.
pub open spec fn event_summary_of(ev: Event) -> EventSummaryView {
    EventSummaryView {
        reason: chars_or_empty(ev.reason),
        message: chars_or_empty(ev.message),
        count: match ev.count {
            Some(c) => c,
            None => 1,
        },
        event_type: match ev.type_ {
            Some(t) => t@,
            None => "Normal"@,
        },
    }
}

/// The summary of one event.
pub fn to_event_summary(ev: &Event) -> (r: EventSummary)
    ensures
        r@ == event_summary_of(*ev),
{
    EventSummary {
        reason: match &ev.reason {
            Some(s) => s.clone(),
            None => String::new(),
        },
        message: match &ev.message {
            Some(s) => s.clone(),
            None => String::new(),
        },
        count: match ev.count {
            Some(c) => c,
            None => 1,
        },
        event_type: match &ev.type_ {
            Some(s) => s.clone(),
            None => owned("Normal"),
        },
    }
}

/// An event is about a Knative service when its object has kind `Service` and an API
/// version starting with `serving.knative.dev`.
pub open spec fn spec_is_knative_service_event(ev: Event) -> bool {
    &&& ev.involved_object.kind matches Some(k) && k@ == "Service"@
    &&& ev.involved_object.api_version matches Some(v) && "serving.knative.dev"@.is_prefix_of(v@)
}

/// Whether the event is about a Knative service.
pub fn is_knative_service_event(ev: &Event) -> (r: bool)
    ensures
        r == spec_is_knative_service_event(*ev),
{
    let kind_ok = match &ev.involved_object.kind {
        Some(k) => str_eq(k.as_str(), "Service"),
        None => false,
    };
    kind_ok && match &ev.involved_object.api_version {
        Some(v) => str_starts_with(v.as_str(), "serving.knative.dev"),
        None => false,
    }
}

/// The URL of the last ingress route named `name` that gives one (later routes of the
/// same name take precedence, as when they are collected into a map by name).
pub open spec fn route_url_for(irs: Seq<IngressRoute>, name: Seq<char>) -> Option<Seq<char>>
    decreases irs.len(),
{
    if irs.len() == 0 {
        None
    } else if irs.last().metadata.spec_name_any() == name && spec_route_url(irs.last()) is Some {
        spec_route_url(irs.last())
    } else {
        route_url_for(irs.drop_last(), name)
    }
}

/// The external URL that the ingress routes give to the service `name`.
pub fn external_url_for(irs: &Vec<IngressRoute>, name: &str) -> (r: Option<String>)
    ensures
        opt_chars(r) == route_url_for(irs@, name@),
{
    let mut found: Option<String> = None;
    let mut i: usize = 0;
    while i < irs.len()
        invariant
            i <= irs@.len(),
            opt_chars(found) == route_url_for(irs@.take(i as int), name@),
        decreases irs@.len() - i,
    {
        let ir = &irs[i];
        let ir_name = ir.metadata.name_any();
        if str_eq(ir_name.as_str(), name) {
            match ingress_route_to_url(ir) {
                Some(u) => {
                    found = Some(u);
                },
                None => {},
            }
        }
        proof {
            assert(irs@.take(i + 1).drop_last() =~= irs@.take(i as int));
            assert(irs@.take(i + 1).last() == irs@[i as int]);
        }
        i = i + 1;
    }
    assert(irs@.take(i as int) =~= irs@);
    found
}

/// The image of a revision: that of its first container, when it is not empty.
pub open spec fn spec_revision_image(rev: Revision) -> Option<Seq<char>> {
    if rev.spec.containers.len() > 0 && rev.spec.containers[0].image@.len() > 0 {
        Some(rev.spec.containers[0].image@)
    } else {
        None
    }
}

/// The image of a revision, when its first container names one.
pub fn revision_image(rev: &Revision) -> (r: Option<String>)
    ensures
        opt_chars(r) == spec_revision_image(*rev),
{
    if rev.spec.containers.len() == 0 {
        return None;
    }
    let image = &rev.spec.containers[0].image;
    if image.as_str().is_empty() {
        None
    } else {
        Some(image.clone())
    }
}

/// The image of the last revision named `name` that has one.
pub open spec fn revision_image_for(revs: Seq<Revision>, name: Seq<char>) -> Option<Seq<char>>
    decreases revs.len(),
{
    if revs.len() == 0 {
        None
    } else if revs.last().metadata.spec_name_any() == name && spec_revision_image(revs.last()) is Some {
        spec_revision_image(revs.last())
    } else {
        revision_image_for(revs.drop_last(), name)
    }
}

/// The image that the revisions give to the revision `name`.
pub fn image_for_revision(revs: &Vec<Revision>, name: &str) -> (r: Option<String>)
    ensures
        opt_chars(r) == revision_image_for(revs@, name@),
{
    let mut found: Option<String> = None;
    let mut i: usize = 0;
    while i < revs.len()
        invariant
            i <= revs@.len(),
            opt_chars(found) == revision_image_for(revs@.take(i as int), name@),
        decreases revs@.len() - i,
    {
        let rev = &revs[i];
        let rev_name = rev.metadata.name_any();
        if str_eq(rev_name.as_str(), name) {
            match revision_image(rev) {
                Some(img) => {
                    found = Some(img);
                },
                None => {},
            }
        }
        proof {
            assert(revs@.take(i + 1).drop_last() =~= revs@.take(i as int));
            assert(revs@.take(i + 1).last() == revs@[i as int]);
        }
        i = i + 1;
    }
    assert(revs@.take(i as int) =~= revs@);
    found
}

/// Whether the pod runs and carries the service label with value `name`.
pub open spec fn runs_for(pod: Pod, name: Seq<char>) -> bool {
    spec_pod_running(pod) && label_value(pod.metadata.labels@, KNATIVE_SERVICE_LABEL@) == Some(name)
}

/// The number of running pods labelled as belonging to the service `name`.
pub open spec fn running_pods_of(pods: Seq<Pod>, name: Seq<char>) -> nat
    decreases pods.len(),
{
    if pods.len() == 0 {
        0
    } else {
        running_pods_of(pods.drop_last(), name) + if runs_for(pods.last(), name) {
            1nat
        } else {
            0nat
        }
    }
}

/// `running_pods_of` never exceeds the number of pods.
pub proof fn lemma_running_pods_bound(pods: Seq<Pod>, name: Seq<char>)
    ensures
        running_pods_of(pods, name) <= pods.len(),
    decreases pods.len(),
{
    if pods.len() > 0 {
        lemma_running_pods_bound(pods.drop_last(), name);
    }
}

/// Counts the running pods labelled as belonging to the service `name`.
pub fn count_running_pods(pods: &Vec<Pod>, name: &str) -> (r: usize)
    ensures
        r == running_pods_of(pods@, name@),
{
    let mut count: usize = 0;
    let mut i: usize = 0;
    while i < pods.len()
        invariant
            i <= pods@.len(),
            count == running_pods_of(pods@.take(i as int), name@),
            count <= i,
        decreases pods@.len() - i,
    {
        let pod = &pods[i];
        proof {
            assert(pods@.take(i + 1).drop_last() =~= pods@.take(i as int));
            assert(pods@.take(i + 1).last() == pods@[i as int]);
        }
        if is_pod_running(pod) {
            match pod.metadata.label(KNATIVE_SERVICE_LABEL) {
                Some(v) => {
                    if str_eq(v.as_str(), name) {
                        count = count + 1;
                    }
                },
                None => {},
            }
        }
        i = i + 1;
    }
    assert(pods@.take(i as int) =~= pods@);
    count
}

/// The events about the Knative service `name`, in list order.
pub open spec fn service_events(events: Seq<Event>, name: Seq<char>) -> Seq<Event>
    decreases events.len(),
{
    if events.len() == 0 {
        Seq::empty()
    } else {
        let prev = service_events(events.drop_last(), name);
        let ev = events.last();
        if spec_is_knative_service_event(ev) && opt_chars(ev.involved_object.name) == Some(name) {
            prev.push(ev)
        } else {
            prev
        }
    }
}

/// How many recent events a summary shows.
pub const RECENT_EVENTS: usize = 5;

/// The summaries of the five most recent events about the Knative service `name`
/// (by last timestamp, else creation timestamp), oldest first.
pub fn events_for_service(events: &Vec<Event>, name: &str) -> (r: Vec<EventSummary>)
    ensures
        event_views(r@) == recent_views(service_events(events@, name@)),
{
    let mut idx: Vec<usize> = Vec::new();
    let mut i: usize = 0;
    while i < events.len()
        invariant
            i <= events@.len(),
            forall|k: int| 0 <= k < idx@.len() ==> #[trigger] idx@[k] < events@.len(),
            pick(events@, idx@) == service_events(events@.take(i as int), name@),
        decreases events@.len() - i,
    {
        let ev = &events[i];
        proof {
            assert(events@.take(i + 1).drop_last() =~= events@.take(i as int));
            assert(events@.take(i + 1).last() == events@[i as int]);
        }
        if is_knative_service_event(ev) {
            match &ev.involved_object.name {
                Some(n) => {
                    if str_eq(n.as_str(), name) {
                        let ghost before = idx@;
                        idx.push(i);
                        assert(pick(events@, idx@) =~= pick(events@, before).push(events@[i as int]));
                    }
                },
                None => {},
            }
        }
        i = i + 1;
    }
    assert(events@.take(i as int) =~= events@);
    recent_summaries(events, &idx)
}

/// The conditions of an optional status.
pub open spec fn status_conditions(st: Option<KnativeServiceStatus>) -> Option<Seq<Condition>> {
    match st {
        Some(s) => match s.conditions {
            Some(v) => Some(v@),
            None => None,
        },
        None => None,
    }
}

/// The URL an optional status reports.
pub open spec fn status_url(st: Option<KnativeServiceStatus>) -> Option<Seq<char>> {
    match st {
        Some(s) => opt_chars(s.url),
        None => None,
    }
}

/// The latest ready revision an optional status reports.
pub open spec fn status_latest_revision(st: Option<KnativeServiceStatus>) -> Option<Seq<char>> {
    match st {
        Some(s) => opt_chars(s.latest_ready_revision_name),
        None => None,
    }
}

/// Whether optional conditions say "ready".
pub open spec fn ready_of(conds: Option<Seq<Condition>>) -> bool {
    match conds {
        Some(cs) => conditions_ready(cs),
        None => false,
    }
}

/// The summary of service `svc` in a namespace listing: the URL of its ingress route,
/// else the one its status reports; readiness and conditions from its status; the image of
/// its latest ready revision; its running pods; and its five most recent events, unless a service
/// of the same name earlier in the listing took them (`events_taken`).
pub open spec fn spec_listed_summary(
    namespace: Seq<char>,
    svc: Service,
    events_taken: bool,
    irs: Seq<IngressRoute>,
    revs: Seq<Revision>,
    events: Seq<Event>,
    pods: Seq<Pod>,
) -> ServiceSummaryView {
    let name = svc.metadata.spec_name_any();
    let latest = status_latest_revision(svc.status);
    ServiceSummaryView {
        name: name,
        namespace: namespace,
        url: match route_url_for(irs, name) {
            Some(u) => Some(u),
            None => status_url(svc.status),
        },
        ready: ready_of(status_conditions(svc.status)),
        instance_count: running_pods_of(pods, name) as u32,
        conditions: spec_summarize_conditions(status_conditions(svc.status)),
        latest_revision: latest,
        image: match latest {
            Some(rev) => revision_image_for(revs, rev),
            None => None,
        },
        events: if events_taken {
            Seq::empty()
        } else {
            recent_views(service_events(events, name))
        },
    }
}

/// Whether a service before position `i` has the same name as the one at `i`.
pub open spec fn name_seen_before(svcs: Seq<Service>, i: int) -> bool {
    exists|j: int|
        0 <= j < i && #[trigger] svcs[j].metadata.spec_name_any() == svcs[i].metadata.spec_name_any()
}

/// The status fields that a summary copies.
fn status_parts(st: &Option<KnativeServiceStatus>) -> (r: (Option<&Vec<Condition>>, Option<String>, Option<String>))
    ensures
        match r.0 {
            Some(v) => status_conditions(*st) == Some(v@),
            None => status_conditions(*st) is None,
        },
        opt_chars(r.1) == status_url(*st),
        opt_chars(r.2) == status_latest_revision(*st),
{
    match st {
        Some(s) => {
            let conds = match &s.conditions {
                Some(v) => Some(v),
                None => None,
            };
            (conds, clone_opt(&s.url), clone_opt(&s.latest_ready_revision_name))
        },
        None => (None, None, None),
    }
}

/// The summary of one service of a namespace listing.
fn summarize_listed_service(
    namespace: &str,
    svc: &Service,
    events_taken: bool,
    irs: &Vec<IngressRoute>,
    revs: &Vec<Revision>,
    events: &Vec<Event>,
    pods: &Vec<Pod>,
) -> (r: ServiceSummary)
    ensures
        r@ == spec_listed_summary(namespace@, *svc, events_taken, irs@, revs@, events@, pods@),
{
    let name = svc.metadata.name_any();
    let (conds, status_url_value, latest_revision) = status_parts(&svc.status);
    let ready = extract_ready_status(conds);
    let url = match external_url_for(irs, name.as_str()) {
        Some(u) => Some(u),
        None => status_url_value,
    };
    let conditions = summarize_conditions(conds);
    let image = match &latest_revision {
        Some(rev) => image_for_revision(revs, rev.as_str()),
        None => None,
    };
    let count = count_running_pods(pods, name.as_str());
    let recent = if events_taken {
        Vec::new()
    } else {
        events_for_service(events, name.as_str())
    };
    let r = ServiceSummary {
        name: name,
        namespace: owned(namespace),
        url: url,
        ready: ready,
        instance_count: count as u32,
        conditions: conditions,
        latest_revision: latest_revision,
        image: image,
        events: recent,
    };
    assert(event_views(Seq::<EventSummary>::empty()) =~= Seq::<EventSummaryView>::empty());
    r
}

/// The elements of an optional list, an empty list when absent.
fn vec_or_empty<T>(o: Option<Vec<T>>) -> (r: Vec<T>)
    ensures
        r@ == seq_or_empty(o),
{
    match o {
        Some(v) => v,
        None => Vec::new(),
    }
}

/// Summarizes every Knative service of `namespace`, in listing order. Ingress routes,
/// revisions, events and pods are `None` when they could not be listed; they then
/// contribute nothing.
pub fn summarize_services(
    namespace: &str,
    services: &Vec<Service>,
    ingress_routes: Option<Vec<IngressRoute>>,
    revisions: Option<Vec<Revision>>,
    events: Option<Vec<Event>>,
    pods: Option<Vec<Pod>>,
) -> (r: Vec<ServiceSummary>)
    ensures
        r@.len() == services@.len(),
        forall|i: int|
            0 <= i < services@.len() ==> #[trigger] r@[i]@ == spec_listed_summary(
                namespace@,
                services@[i],
                name_seen_before(services@, i),
                seq_or_empty(ingress_routes),
                seq_or_empty(revisions),
                seq_or_empty(events),
                seq_or_empty(pods),
            ),
{
    let irs = vec_or_empty(ingress_routes);
    let revs = vec_or_empty(revisions);
    let evs = vec_or_empty(events);
    let pds = vec_or_empty(pods);
    let mut names: Vec<String> = Vec::new();
    let mut r: Vec<ServiceSummary> = Vec::new();
    let mut i: usize = 0;
    while i < services.len()
        invariant
            i <= services@.len(),
            names@.len() == i,
            r@.len() == i,
            forall|k: int| 0 <= k < i ==> #[trigger] names@[k]@ == services@[k].metadata.spec_name_any(),
            forall|k: int|
                0 <= k < i ==> #[trigger] r@[k]@ == spec_listed_summary(
                    namespace@,
                    services@[k],
                    name_seen_before(services@, k),
                    irs@,
                    revs@,
                    evs@,
                    pds@,
                ),
        decreases services@.len() - i,
    {
        let svc = &services[i];
        let name = svc.metadata.name_any();
        let mut seen = false;
        let mut j: usize = 0;
        while j < i
            invariant
                j <= i,
                i < services@.len(),
                names@.len() == i,
                name@ == services@[i as int].metadata.spec_name_any(),
                forall|k: int| 0 <= k < i ==> #[trigger] names@[k]@ == services@[k].metadata.spec_name_any(),
                seen == exists|k: int|
                    0 <= k < j && #[trigger] services@[k].metadata.spec_name_any() == services@[i as int].metadata.spec_name_any(),
            decreases i - j,
        {
            if str_eq(names[j].as_str(), name.as_str()) {
                seen = true;
            }
            proof {
                if seen {
                    if names@[j as int]@ == name@ {
                        assert(services@[j as int].metadata.spec_name_any() == services@[i as int].metadata.spec_name_any());
                    }
                }
            }
            j = j + 1;
        }
        let s = summarize_listed_service(namespace, svc, seen, &irs, &revs, &evs, &pds);
        r.push(s);
        names.push(name);
        i = i + 1;
    }
    r
}

/// Why looking up one service failed: the API's status code when the API answered with an
/// error, and the client's message.
pub struct LookupError {
    pub api_status: Option<u16>,
    pub message: String,
}

/// What a lookup of one service means: the service; `None` when the API answered 404
/// (not found); any other failure is a Kubernetes error carrying the client's message.
pub fn classify_service_lookup(lookup: Result<Service, LookupError>) -> (r: Result<Option<Service>, AppError>)
    ensures
        match lookup {
            Ok(s) => r == Ok::<Option<Service>, AppError>(Some(s)),
            Err(e) => if e.api_status == Some(404u16) {
                r == Ok::<Option<Service>, AppError>(None)
            } else {
                r matches Err(AppError::Kube(m)) && m@ == e.message@
            },
        },
{
    match lookup {
        Ok(s) => Ok(Some(s)),
        Err(e) => {
            if e.api_status == Some(404u16) {
                Ok(None)
            } else {
                Err(AppError::Kube(e.message))
            }
        },
    }
}

/// The first revision named `name`.
pub open spec fn first_revision_named(revs: Seq<Revision>, name: Seq<char>) -> Option<Revision>
    decreases revs.len(),
{
    if revs.len() == 0 {
        None
    } else if revs[0].metadata.spec_name_any() == name {
        Some(revs[0])
    } else {
        first_revision_named(revs.drop_first(), name)
    }
}

/// The number of running pods.
pub open spec fn running_pod_count(pods: Seq<Pod>) -> nat
    decreases pods.len(),
{
    if pods.len() == 0 {
        0
    } else {
        running_pod_count(pods.drop_last()) + if spec_pod_running(pods.last()) {
            1nat
        } else {
            0nat
        }
    }
}

/// The summary of a single service looked up by name: the URL of the ingress route of that
/// name, else the one its status reports; readiness and conditions from its status; the
/// image of the first revision named as its latest ready revision; the number of running
/// pods among `pods`; and the five most recent of `events`.
pub open spec fn spec_single_summary(
    namespace: Seq<char>,
    svc: Service,
    route: Option<IngressRoute>,
    revs: Seq<Revision>,
    pods: Seq<Pod>,
    events: Seq<Event>,
) -> ServiceSummaryView {
    let latest = status_latest_revision(svc.status);
    ServiceSummaryView {
        name: svc.metadata.spec_name_any(),
        namespace: namespace,
        url: match route {
            Some(ir) => match spec_route_url(ir) {
                Some(u) => Some(u),
                None => status_url(svc.status),
            },
            None => status_url(svc.status),
        },
        ready: ready_of(status_conditions(svc.status)),
        instance_count: running_pod_count(pods) as u32,
        conditions: spec_summarize_conditions(status_conditions(svc.status)),
        latest_revision: latest,
        image: match latest {
            Some(rev) => match first_revision_named(revs, rev) {
                Some(found) => spec_revision_image(found),
                None => None,
            },
            None => None,
        },
        events: recent_views(events),
    }
}

/// The image of the first revision named `name`.
fn image_of_first_named(revs: &Vec<Revision>, name: &str) -> (r: Option<String>)
    ensures
        opt_chars(r) == match first_revision_named(revs@, name@) {
            Some(found) => spec_revision_image(found),
            None => None,
        },
{
    let mut i: usize = 0;
    assert(revs@.skip(0) =~= revs@);
    while i < revs.len()
        invariant
            i <= revs@.len(),
            first_revision_named(revs@, name@) == first_revision_named(revs@.skip(i as int), name@),
        decreases revs@.len() - i,
    {
        proof {
            assert(revs@.skip(i as int).drop_first() =~= revs@.skip(i + 1));
        }
        let rev_name = revs[i].metadata.name_any();
        if str_eq(rev_name.as_str(), name) {
            assert(first_revision_named(revs@.skip(i as int), name@) == Some(revs@[i as int]));
            return revision_image(&revs[i]);
        }
        i = i + 1;
    }
    None
}

/// Counts the running pods.
fn count_running(pods: &Vec<Pod>) -> (r: usize)
    ensures
        r == running_pod_count(pods@),
{
    let mut count: usize = 0;
    let mut i: usize = 0;
    while i < pods.len()
        invariant
            i <= pods@.len(),
            count == running_pod_count(pods@.take(i as int)),
            count <= i,
        decreases pods@.len() - i,
    {
        proof {
            assert(pods@.take(i + 1).drop_last() =~= pods@.take(i as int));
            assert(pods@.take(i + 1).last() == pods@[i as int]);
        }
        if is_pod_running(&pods[i]) {
            count = count + 1;
        }
        i = i + 1;
    }
    assert(pods@.take(i as int) =~= pods@);
    count
}

/// The summaries of the five most recent events, oldest first.
fn recent_event_summaries(events: &Vec<Event>) -> (r: Vec<EventSummary>)
    ensures
        event_views(r@) == recent_views(events@),
{
    let mut idx: Vec<usize> = Vec::new();
    let mut i: usize = 0;
    while i < events.len()
        invariant
            i <= events@.len(),
            idx@ == Seq::new(i as nat, |k: int| k as usize),
        decreases events@.len() - i,
    {
        idx.push(i);
        assert(idx@ =~= Seq::new((i + 1) as nat, |k: int| k as usize));
        i = i + 1;
    }
    assert(pick(events@, idx@) =~= events@);
    recent_summaries(events, &idx)
}

/// Summarizes a single service looked up by name. `route` is the ingress route of the
/// same name; revisions, pods and events are those selected for the service, `None` when
/// they could not be listed (they then contribute nothing).
pub fn summarize_one_service(
    namespace: String,
    svc: &Service,
    route: Option<IngressRoute>,
    revisions: Option<Vec<Revision>>,
    pods: Option<Vec<Pod>>,
    events: Option<Vec<Event>>,
) -> (r: ServiceSummary)
    ensures
        r@ == spec_single_summary(
            namespace@,
            *svc,
            route,
            seq_or_empty(revisions),
            seq_or_empty(pods),
            seq_or_empty(events),
        ),
{
    let (conds, status_url_value, latest_revision) = status_parts(&svc.status);
    let url = match &route {
        Some(ir) => match ingress_route_to_url(ir) {
            Some(u) => Some(u),
            None => status_url_value,
        },
        None => status_url_value,
    };
    let ready = extract_ready_status(conds);
    let conditions = summarize_conditions(conds);
    let revs = vec_or_empty(revisions);
    let image = match &latest_revision {
        Some(rev) => image_of_first_named(&revs, rev.as_str()),
        None => None,
    };
    let pds = vec_or_empty(pods);
    let count = count_running(&pds);
    let evs = vec_or_empty(events);
    let recent = recent_event_summaries(&evs);
    ServiceSummary {
        name: svc.metadata.name_any(),
        namespace: namespace,
        url: url,
        ready: ready,
        instance_count: count as u32,
        conditions: conditions,
        latest_revision: latest_revision,
        image: image,
        events: recent,
    }
}

/// The namespace of a service, if it has one.
pub open spec fn namespace_of(svc: Service) -> Option<Seq<char>> {
    opt_chars(svc.metadata.namespace)
}

/// The characters of each string.
pub open spec fn string_views(v: Seq<String>) -> Seq<Seq<char>> {
    v.map_values(|s: String| s@)
}

/// Strictly increasing in lexicographic order (so also free of duplicates).
pub open spec fn strictly_sorted(s: Seq<Seq<char>>) -> bool {
    forall|i: int, j: int| 0 <= i < j < s.len() ==> lex_lt(#[trigger] s[i], #[trigger] s[j])
}

/// Adds `s` to a strictly sorted list unless it is already there.
fn insert_sorted(v: &mut Vec<String>, s: String)
    requires
        strictly_sorted(string_views(old(v)@)),
    ensures
        strictly_sorted(string_views(final(v)@)),
        forall|x: Seq<char>|
            string_views(final(v)@).contains(x) <==> (string_views(old(v)@).contains(x) || x == s@),
{
    let ghost old_views = string_views(v@);
    let mut p: usize = 0;
    while p < v.len() && str_lt(v[p].as_str(), s.as_str())
        invariant
            p <= v@.len(),
            v@ == old(v)@,
            old_views == string_views(v@),
            strictly_sorted(old_views),
            forall|k: int| 0 <= k < p ==> lex_lt(#[trigger] old_views[k], s@),
        decreases v@.len() - p,
    {
        p = p + 1;
    }
    if p < v.len() && str_eq(v[p].as_str(), s.as_str()) {
        assert forall|x: Seq<char>| string_views(v@).contains(x) <==> (old_views.contains(x) || x == s@) by {
            if x == s@ {
                assert(old_views[p as int] == x);
            }
        }
        return;
    }
    proof {
        if p < v@.len() {
            lemma_lex_lt_total(old_views[p as int], s@);
            assert(lex_lt(s@, old_views[p as int]));
            assert forall|k: int| p <= k < old_views.len() implies lex_lt(s@, #[trigger] old_views[k]) by {
                if k > p {
                    lemma_lex_lt_transitive(s@, old_views[p as int], old_views[k]);
                }
            }
        }
    }
    let ghost sv = s@;
    v.insert(p, s);
    proof {
        let nv = string_views(v@);
        assert(nv =~= old_views.insert(p as int, sv));
        assert forall|i: int, j: int| 0 <= i < j < nv.len() implies lex_lt(#[trigger] nv[i], #[trigger] nv[j]) by {
            if j < p {
            } else if j == p {
            } else if i < p {
                lemma_lex_lt_transitive(nv[i], sv, nv[j]);
            } else if i == p {
            } else {
            }
        }
        assert forall|x: Seq<char>| nv.contains(x) <==> (old_views.contains(x) || x == sv) by {
            if nv.contains(x) {
                let i = choose|i: int| 0 <= i < nv.len() && nv[i] == x;
                if i < p {
                    assert(old_views[i] == x);
                } else if i > p {
                    assert(old_views[i - 1] == x);
                }
            }
            if old_views.contains(x) {
                let i = choose|i: int| 0 <= i < old_views.len() && old_views[i] == x;
                if i < p {
                    assert(nv[i] == x);
                } else {
                    assert(nv[i + 1] == x);
                }
            }
            if x == sv {
                assert(nv[p as int] == x);
            }
        }
    }
}

/// The distinct namespaces that hold at least one of `services`, in sorted order.
pub fn namespaces_with_services(services: &Vec<Service>) -> (r: Vec<String>)
    ensures
        strictly_sorted(string_views(r@)),
        forall|x: Seq<char>|
            string_views(r@).contains(x) <==> exists|k: int|
                0 <= k < services@.len() && #[trigger] namespace_of(services@[k]) == Some(x),
{
    let mut r: Vec<String> = Vec::new();
    let mut i: usize = 0;
    while i < services.len()
        invariant
            i <= services@.len(),
            strictly_sorted(string_views(r@)),
            forall|x: Seq<char>|
                string_views(r@).contains(x) <==> exists|k: int|
                    0 <= k < i && #[trigger] namespace_of(services@[k]) == Some(x),
        decreases services@.len() - i,
    {
        let ghost before = string_views(r@);
        match &services[i].metadata.namespace {
            Some(ns) => {
                insert_sorted(&mut r, ns.clone());
            },
            None => {},
        }
        proof {
            assert forall|x: Seq<char>|
                string_views(r@).contains(x) <==> exists|k: int|
                    0 <= k < i + 1 && #[trigger] namespace_of(services@[k]) == Some(x) by {
                if namespace_of(services@[i as int]) == Some(x) {
                    assert(0 <= i < i + 1);
                }
                if exists|k: int| 0 <= k < i + 1 && #[trigger] namespace_of(services@[k]) == Some(x) {
                    let k = choose|k: int| 0 <= k < i + 1 && #[trigger] namespace_of(services@[k]) == Some(x);
                    if k < i {
                        assert(before.contains(x));
                    }
                }
            }
        }
        i = i + 1;
    }
    r
}

/// The outcome of a ping: its status code and the latency in whole milliseconds,
/// truncated to 64 bits.
pub fn ping_result(status_code: u16, elapsed_millis: u128) -> (r: PingResult)
    ensures
        r.status_code == status_code,
        r.latency_ms == elapsed_millis as u64,
{
    PingResult { status_code: status_code, latency_ms: elapsed_millis as u64 }
}

} // verus!
