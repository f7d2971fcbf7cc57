//! Properties that hold across the library's functions.
use vstd::prelude::*;

use crate::k8s::{label_value, Event, Pod};
use crate::events::{lemma_sort_by_time, ordered_by_time, recent_views, sort_by_time};
use crate::logic::{
    event_summary_of, revision_image_for, route_url_for, service_events, spec_revision_image,
    spec_route_url, last_n, ready_of, running_pods_of, lemma_running_pods_bound, spec_listed_summary,
    spec_single_summary, spec_summarize_conditions, strictly_sorted, RECENT_EVENTS,
};
use crate::logs::{log_block, log_blocks, spec_combined_logs, PodLogs};
use crate::text::{find_char, lemma_find_char, lemma_find_char_at, lemma_lex_lt_irreflexive, lex_lt};
use crate::types::knative::{Condition, Revision, Service};
use crate::types::traefik::IngressRoute;
use crate::types::{is_ready_true, spec_ingress_hostname, ConditionSummaryView};
use crate::watcher::dedup;

verus! {

/// A rule of the form `prefix`, backtick, `host`, backtick, `rest` names `host`, when
/// neither `prefix` nor `host` holds a backtick (so ``Host(`h`)`` names `h`).
pub proof fn law_hostname_round_trip(prefix: Seq<char>, host: Seq<char>, rest: Seq<char>)
    requires
        !prefix.contains('`'),
        !host.contains('`'),
    ensures
        spec_ingress_hostname(prefix + seq!['`'] + host + seq!['`'] + rest) == Some(host),
{
    let s = prefix + seq!['`'] + host + seq!['`'] + rest;
    let i = prefix.len() as int;
    assert(s.take(i) =~= prefix);
    assert(s[i] == '`');
    lemma_find_char_at(s, '`', i);
    let t = s.skip(i + 1);
    assert(t =~= host + seq!['`'] + rest);
    let k = host.len() as int;
    assert(t.take(k) =~= host);
    assert(t[k] == '`');
    lemma_find_char_at(t, '`', k);
    assert(s.subrange(i + 1, i + 1 + k) =~= host);
}

/// A rule names a host exactly when it holds two backticks; the host is what lies between
/// the first two, so it never holds a backtick itself.
pub proof fn law_hostname_between_first_backticks(rule: Seq<char>)
    ensures
        spec_ingress_hostname(rule) is Some <==> exists|i: int, j: int|
            0 <= i < j < rule.len() && rule[i] == '`' && rule[j] == '`',
        spec_ingress_hostname(rule) matches Some(h) ==> !h.contains('`'),
{
    lemma_find_char(rule, '`');
    match find_char(rule, '`') {
        None => {
            if exists|i: int, j: int| 0 <= i < j < rule.len() && rule[i] == '`' && rule[j] == '`' {
                let (i, j) = choose|i: int, j: int|
                    0 <= i < j < rule.len() && rule[i] == '`' && rule[j] == '`';
                assert(rule.contains(rule[i]));
            }
        },
        Some(i) => {
            let t = rule.skip(i + 1);
            lemma_find_char(t, '`');
            match find_char(t, '`') {
                None => {
                    if exists|a: int, b: int| 0 <= a < b < rule.len() && rule[a] == '`' && rule[b] == '`' {
                        let (a, b) = choose|a: int, b: int|
                            0 <= a < b < rule.len() && rule[a] == '`' && rule[b] == '`';
                        if a < i {
                            assert(rule.take(i)[a] == '`');
                        } else if b > i {
                            assert(t[b - i - 1] == '`');
                        } else {
                            assert(rule.take(i)[a] == '`');
                        }
                    }
                },
                Some(k) => {
                    assert(rule[i + 1 + k] == t[k]);
                    let h = rule.subrange(i + 1, i + 1 + k);
                    assert(h =~= t.take(k));
                },
            }
        },
    }
}

/// Whether some summary is of type `Ready` with status `True`.
pub open spec fn summaries_ready(cs: Seq<ConditionSummaryView>) -> bool {
    exists|i: int|
        0 <= i < cs.len() && #[trigger] cs[i].condition_type == "Ready"@ && cs[i].status == "True"@
}

/// Readiness read from conditions agrees with readiness read from their summaries.
pub proof fn law_ready_agrees_with_condition_summaries(conds: Option<Seq<Condition>>)
    ensures
        ready_of(conds) == summaries_ready(spec_summarize_conditions(conds)),
{
    match conds {
        Some(cs) => {
            let sums = spec_summarize_conditions(conds);
            if ready_of(conds) {
                let i = choose|i: int| 0 <= i < cs.len() && #[trigger] is_ready_true(cs[i]);
                assert(sums[i].condition_type == cs[i].condition_type@);
            }
            if summaries_ready(sums) {
                let i = choose|i: int|
                    0 <= i < sums.len() && #[trigger] sums[i].condition_type == "Ready"@ && sums[i].status == "True"@;
                assert(is_ready_true(cs[i]));
            }
        },
        None => {},
    }
}

/// Every summary of a namespace listing is ready exactly when the conditions it shows say
/// so.
pub proof fn law_listed_summary_ready_matches_conditions(
    namespace: Seq<char>,
    svc: Service,
    events_taken: bool,
    irs: Seq<IngressRoute>,
    revs: Seq<Revision>,
    events: Seq<Event>,
    pods: Seq<Pod>,
)
    ensures
        ({
            let v = spec_listed_summary(namespace, svc, events_taken, irs, revs, events, pods);
            v.ready == summaries_ready(v.conditions)
        }),
{
    law_ready_agrees_with_condition_summaries(crate::logic::status_conditions(svc.status));
}

/// The summary of a single service is ready exactly when the conditions it shows say so.
pub proof fn law_single_summary_ready_matches_conditions(
    namespace: Seq<char>,
    svc: Service,
    route: Option<IngressRoute>,
    revs: Seq<Revision>,
    pods: Seq<Pod>,
    events: Seq<Event>,
)
    ensures
        ({
            let v = spec_single_summary(namespace, svc, route, revs, pods, events);
            v.ready == summaries_ready(v.conditions)
        }),
{
    law_ready_agrees_with_condition_summaries(crate::logic::status_conditions(svc.status));
}

/// Keeping the last `n` elements keeps `min(len, n)` of them, all from the end, and doing
/// it again changes nothing.
pub proof fn law_last_n<A>(s: Seq<A>, n: nat)
    ensures
        last_n(s, n).len() == if s.len() > n {
            n
        } else {
            s.len()
        },
        last_n(s, n).is_suffix_of(s),
        last_n(last_n(s, n), n) == last_n(s, n),
{
    let r = last_n(s, n);
    assert(r =~= s.subrange(s.len() - r.len(), s.len() as int));
}

/// The events shown are the five most recent (all, when fewer): the events ordered from
/// oldest to newest by last timestamp, else creation timestamp, keeping every event, and
/// then the last five of that order.
pub proof fn law_recent_events_are_latest(evs: Seq<Event>)
    ensures
        ordered_by_time(sort_by_time(evs)),
        sort_by_time(evs).to_multiset() == evs.to_multiset(),
        recent_views(evs) == last_n(
            sort_by_time(evs).map_values(|e: Event| event_summary_of(e)),
            RECENT_EVENTS as nat,
        ),
        recent_views(evs).len() == if evs.len() > RECENT_EVENTS {
            RECENT_EVENTS as nat
        } else {
            evs.len()
        },
{
    lemma_sort_by_time(evs);
    assert(sort_by_time(evs).len() == evs.len()) by {
        broadcast use vstd::seq_lib::group_to_multiset_ensures;
        assert(sort_by_time(evs).to_multiset().len() == evs.to_multiset().len());
    }
    law_last_n(sort_by_time(evs).map_values(|e: Event| event_summary_of(e)), RECENT_EVENTS as nat);
}

/// A listed summary shows the five most recent events about its service, unless a service of
/// the same name earlier in the listing took them.
pub proof fn law_listed_summary_recent_events(
    namespace: Seq<char>,
    svc: Service,
    events_taken: bool,
    irs: Seq<IngressRoute>,
    revs: Seq<Revision>,
    events: Seq<Event>,
    pods: Seq<Pod>,
)
    ensures
        ({
            let v = spec_listed_summary(namespace, svc, events_taken, irs, revs, events, pods);
            &&& v.events.len() <= RECENT_EVENTS
            &&& !events_taken ==> v.events == recent_views(
                service_events(events, svc.metadata.spec_name_any()),
            )
        }),
{
    law_recent_events_are_latest(service_events(events, svc.metadata.spec_name_any()));
}

/// A summary never counts more running pods than were listed.
pub proof fn law_listed_instance_count_bound(
    namespace: Seq<char>,
    svc: Service,
    events_taken: bool,
    irs: Seq<IngressRoute>,
    revs: Seq<Revision>,
    events: Seq<Event>,
    pods: Seq<Pod>,
)
    requires
        pods.len() <= u32::MAX,
    ensures
        spec_listed_summary(namespace, svc, events_taken, irs, revs, events, pods).instance_count
            == running_pods_of(pods, svc.metadata.spec_name_any()),
        spec_listed_summary(namespace, svc, events_taken, irs, revs, events, pods).instance_count
            <= pods.len(),
{
    lemma_running_pods_bound(pods, svc.metadata.spec_name_any());
}

/// Removing repeats keeps every name, adds none, and leaves no repeat.
pub proof fn law_dedup(s: Seq<Seq<char>>)
    ensures
        dedup(s).no_duplicates(),
        forall|x: Seq<char>| dedup(s).contains(x) <==> s.contains(x),
    decreases s.len(),
{
    if s.len() > 0 {
        let prev = s.drop_last();
        law_dedup(prev);
        assert(s =~= prev.push(s.last()));
        let last = s.last();
        let dp = dedup(prev);
        assert forall|x: Seq<char>| s.contains(x) <==> (prev.contains(x) || x == last) by {
            if s.contains(x) {
                let k = choose|k: int| 0 <= k < s.len() && s[k] == x;
                if k < prev.len() {
                    assert(prev[k] == x);
                }
            }
            if prev.contains(x) {
                let k = choose|k: int| 0 <= k < prev.len() && prev[k] == x;
                assert(s[k] == x);
            }
            if x == last {
                assert(s[s.len() - 1] == x);
            }
        }
        if !dp.contains(last) {
            assert forall|x: Seq<char>| dp.push(last).contains(x) <==> (dp.contains(x) || x == last) by {
                if dp.push(last).contains(x) {
                    let k = choose|k: int| 0 <= k < dp.len() + 1 && dp.push(last)[k] == x;
                    if k < dp.len() {
                        assert(dp[k] == x);
                    }
                }
                if dp.contains(x) {
                    let k = choose|k: int| 0 <= k < dp.len() && dp[k] == x;
                    assert(dp.push(last)[k] == x);
                }
                if x == last {
                    assert(dp.push(last)[dp.len() as int] == x);
                }
            }
        }
    }
}

/// Every pod's block of log output ends with a line feed.
pub proof fn law_log_block_ends_with_newline(p: PodLogs)
    ensures
        log_block(p).len() > 0,
        log_block(p).last() == '\n',
{
    reveal_strlit("\n");
    reveal_strlit("=== ");
    match p.logs {
        Ok(l) => {
            reveal_strlit(" ===\n");
        },
        Err(e) => {},
    }
}

/// The combined logs of a service with pods end with a line feed.
pub proof fn law_combined_logs_end_with_newline(ps: Seq<PodLogs>)
    requires
        ps.len() > 0,
    ensures
        spec_combined_logs(ps).len() > 0,
        spec_combined_logs(ps).last() == '\n',
{
    law_log_block_ends_with_newline(ps.last());
    let a = log_blocks(ps.drop_last());
    let b = log_block(ps.last());
    assert((a + b).last() == b.last());
}

/// A strictly sorted list (such as the namespace listing) holds no name twice.
pub proof fn law_sorted_names_are_distinct(s: Seq<Seq<char>>)
    requires
        strictly_sorted(s),
    ensures
        s.no_duplicates(),
{
    assert forall|i: int, j: int| 0 <= i < s.len() && 0 <= j < s.len() && i != j implies s[i] != s[j] by {
        if s[i] == s[j] {
            lemma_lex_lt_irreflexive(s[i]);
            if i < j {
                assert(crate::text::lex_lt(s[i], s[j]));
            } else {
                assert(crate::text::lex_lt(s[j], s[i]));
            }
        }
    }
}

/// When every ingress route named `name` is `ir`, the listing's URL for `name` is that of
/// `ir` if some route has the name, and none otherwise.
proof fn lemma_route_url_for_unique(irs: Seq<IngressRoute>, name: Seq<char>, ir: IngressRoute)
    requires
        forall|k: int| 0 <= k < irs.len() && #[trigger] irs[k].metadata.spec_name_any() == name ==> irs[k] == ir,
    ensures
        route_url_for(irs, name) == if exists|k: int|
            0 <= k < irs.len() && #[trigger] irs[k].metadata.spec_name_any() == name {
            spec_route_url(ir)
        } else {
            None
        },
    decreases irs.len(),
{
    if irs.len() > 0 {
        let d = irs.drop_last();
        assert forall|k: int| 0 <= k < d.len() && #[trigger] d[k].metadata.spec_name_any() == name implies d[k] == ir by {
            assert(irs[k] == d[k]);
        }
        lemma_route_url_for_unique(d, name, ir);
        if irs.last().metadata.spec_name_any() == name {
            assert(irs[irs.len() - 1].metadata.spec_name_any() == name);
        } else {
            if exists|k: int| 0 <= k < irs.len() && #[trigger] irs[k].metadata.spec_name_any() == name {
                let k = choose|k: int| 0 <= k < irs.len() && #[trigger] irs[k].metadata.spec_name_any() == name;
                assert(k < d.len());
                assert(d[k].metadata.spec_name_any() == name);
            }
            if exists|k: int| 0 <= k < d.len() && #[trigger] d[k].metadata.spec_name_any() == name {
                let k = choose|k: int| 0 <= k < d.len() && #[trigger] d[k].metadata.spec_name_any() == name;
                assert(irs[k].metadata.spec_name_any() == name);
            }
        }
    }
}

/// For the same cluster state, the summary of a single service agrees with its entry in the
/// namespace listing on name, namespace, URL, readiness, conditions and latest revision, when
/// ingress-route names are unique: the route fetched by the service's name is the one route
/// of that name in the listing, or there is none.
pub proof fn law_single_summary_agrees_with_listing(
    namespace: Seq<char>,
    svc: Service,
    events_taken: bool,
    irs: Seq<IngressRoute>,
    revs: Seq<Revision>,
    events: Seq<Event>,
    pods: Seq<Pod>,
    route: Option<IngressRoute>,
    single_revs: Seq<Revision>,
    single_pods: Seq<Pod>,
    single_events: Seq<Event>,
)
    requires
        match route {
            Some(ir) => {
                &&& irs.contains(ir)
                &&& forall|k: int|
                    0 <= k < irs.len() && #[trigger] irs[k].metadata.spec_name_any()
                        == svc.metadata.spec_name_any() ==> irs[k] == ir
                &&& ir.metadata.spec_name_any() == svc.metadata.spec_name_any()
            },
            None => forall|k: int|
                0 <= k < irs.len() ==> #[trigger] irs[k].metadata.spec_name_any()
                    != svc.metadata.spec_name_any(),
        },
    ensures
        ({
            let l = spec_listed_summary(namespace, svc, events_taken, irs, revs, events, pods);
            let s = spec_single_summary(namespace, svc, route, single_revs, single_pods, single_events);
            &&& l.name == s.name
            &&& l.namespace == s.namespace
            &&& l.url == s.url
            &&& l.ready == s.ready
            &&& l.conditions == s.conditions
            &&& l.latest_revision == s.latest_revision
        }),
{
    let name = svc.metadata.spec_name_any();
    match route {
        Some(ir) => {
            lemma_route_url_for_unique(irs, name, ir);
            let k = choose|k: int| 0 <= k < irs.len() && irs[k] == ir;
            assert(irs[k].metadata.spec_name_any() == name);
        },
        None => {
            lemma_route_url_for_unique(irs, name, arbitrary::<IngressRoute>());
        },
    }
}

/// The pod reports the phase `Running` (and no other phase).
pub open spec fn in_running_phase(p: Pod) -> bool {
    p.status matches Some(st) && st.phase matches Some(ph) && ph@ == "Running"@
}

/// The pod is in phase `Running` and labelled as belonging to the service `name`.
pub open spec fn running_for_service(p: Pod, name: Seq<char>) -> bool {
    in_running_phase(p) && label_value(p.metadata.labels@, crate::logic::KNATIVE_SERVICE_LABEL@) == Some(name)
}

proof fn lemma_running_pod_count_is_filter(pods: Seq<Pod>)
    ensures
        crate::logic::running_pod_count(pods) == pods.filter(|p: Pod| in_running_phase(p)).len(),
    decreases pods.len(),
{
    reveal(Seq::filter);
    if pods.len() > 0 {
        lemma_running_pod_count_is_filter(pods.drop_last());
    }
}

proof fn lemma_running_pods_of_is_filter(pods: Seq<Pod>, name: Seq<char>)
    ensures
        running_pods_of(pods, name) == pods.filter(|p: Pod| running_for_service(p, name)).len(),
    decreases pods.len(),
{
    reveal(Seq::filter);
    if pods.len() > 0 {
        lemma_running_pods_of_is_filter(pods.drop_last(), name);
    }
}

/// The summary of a single service counts exactly the given pods whose phase is `Running`;
/// a pod in any other phase (`Pending`, `Failed`, ...) or without a status adds nothing.
pub proof fn law_single_instance_count_counts_running_pods(
    namespace: Seq<char>,
    svc: Service,
    route: Option<IngressRoute>,
    revs: Seq<Revision>,
    pods: Seq<Pod>,
    events: Seq<Event>,
)
    ensures
        spec_single_summary(namespace, svc, route, revs, pods, events).instance_count == pods.filter(
            |p: Pod| in_running_phase(p),
        ).len() as u32,
{
    lemma_running_pod_count_is_filter(pods);
}

/// A listed summary counts exactly the pods in phase `Running` labelled with its service's
/// name.
pub proof fn law_listed_instance_count_counts_running_pods(
    namespace: Seq<char>,
    svc: Service,
    events_taken: bool,
    irs: Seq<IngressRoute>,
    revs: Seq<Revision>,
    events: Seq<Event>,
    pods: Seq<Pod>,
)
    ensures
        spec_listed_summary(namespace, svc, events_taken, irs, revs, events, pods).instance_count
            == pods.filter(|p: Pod| running_for_service(p, svc.metadata.spec_name_any())).len() as u32,
{
    lemma_running_pods_of_is_filter(pods, svc.metadata.spec_name_any());
}

/// Whether a pod is running is decided by its phase alone: `Running` and nothing else.
pub proof fn law_pod_running_means_running_phase(p: Pod)
    ensures
        crate::logic::spec_pod_running(p) == in_running_phase(p),
{
}

/// Condition summaries copy the conditions one for one: the same number, and the i-th
/// summary has the i-th condition's type, status, reason and message.
pub proof fn law_condition_summaries_copy_fields(cs: Seq<Condition>)
    ensures
        spec_summarize_conditions(Some(cs)).len() == cs.len(),
        forall|i: int|
            0 <= i < cs.len() ==> {
                let s = #[trigger] spec_summarize_conditions(Some(cs))[i];
                &&& s.condition_type == cs[i].condition_type@
                &&& s.status == cs[i].status@
                &&& s.reason == match cs[i].reason {
                    Some(r) => Some(r@),
                    None => None::<Seq<char>>,
                }
                &&& s.message == match cs[i].message {
                    Some(m) => Some(m@),
                    None => None::<Seq<char>>,
                }
            },
        spec_summarize_conditions(None).len() == 0,
{
}

/// A listed summary shows its service's conditions, each with its type, status, reason and
/// message; a service without reported conditions shows none.
pub proof fn law_listed_summary_shows_conditions(
    namespace: Seq<char>,
    svc: Service,
    events_taken: bool,
    irs: Seq<IngressRoute>,
    revs: Seq<Revision>,
    events: Seq<Event>,
    pods: Seq<Pod>,
)
    ensures
        ({
            let v = spec_listed_summary(namespace, svc, events_taken, irs, revs, events, pods);
            match svc.status {
                Some(st) => match st.conditions {
                    Some(cs) => {
                        &&& v.conditions.len() == cs@.len()
                        &&& forall|i: int|
                            0 <= i < cs@.len() ==> {
                                &&& (#[trigger] v.conditions[i]).condition_type == cs@[i].condition_type@
                                &&& v.conditions[i].status == cs@[i].status@
                                &&& v.conditions[i].reason == match cs@[i].reason {
                                    Some(r) => Some(r@),
                                    None => None::<Seq<char>>,
                                }
                                &&& v.conditions[i].message == match cs@[i].message {
                                    Some(m) => Some(m@),
                                    None => None::<Seq<char>>,
                                }
                            }
                    },
                    None => v.conditions.len() == 0,
                },
                None => v.conditions.len() == 0,
            }
        }),
{
    match svc.status {
        Some(st) => match st.conditions {
            Some(cs) => law_condition_summaries_copy_fields(cs@),
            None => {},
        },
        None => {},
    }
}

/// The summary of a single service shows its conditions, each with its type, status,
/// reason and message.
pub proof fn law_single_summary_shows_conditions(
    namespace: Seq<char>,
    svc: Service,
    route: Option<IngressRoute>,
    revs: Seq<Revision>,
    pods: Seq<Pod>,
    events: Seq<Event>,
)
    ensures
        ({
            let v = spec_single_summary(namespace, svc, route, revs, pods, events);
            match svc.status {
                Some(st) => match st.conditions {
                    Some(cs) => {
                        &&& v.conditions.len() == cs@.len()
                        &&& forall|i: int|
                            0 <= i < cs@.len() ==> {
                                &&& (#[trigger] v.conditions[i]).condition_type == cs@[i].condition_type@
                                &&& v.conditions[i].status == cs@[i].status@
                                &&& v.conditions[i].reason == match cs@[i].reason {
                                    Some(r) => Some(r@),
                                    None => None::<Seq<char>>,
                                }
                                &&& v.conditions[i].message == match cs@[i].message {
                                    Some(m) => Some(m@),
                                    None => None::<Seq<char>>,
                                }
                            }
                    },
                    None => v.conditions.len() == 0,
                },
                None => v.conditions.len() == 0,
            }
        }),
{
    match svc.status {
        Some(st) => match st.conditions {
            Some(cs) => law_condition_summaries_copy_fields(cs@),
            None => {},
        },
        None => {},
    }
}

/// The event is about the Knative service `name`: its object has kind `Service`, an API
/// version starting with `serving.knative.dev`, and the name `name`.
pub open spec fn about_knative_service(ev: Event, name: Seq<char>) -> bool {
    &&& ev.involved_object.kind matches Some(kd) && kd@ == "Service"@
    &&& ev.involved_object.api_version matches Some(av) && "serving.knative.dev"@.is_prefix_of(av@)
    &&& ev.involved_object.name matches Some(n) && n@ == name
}

proof fn lemma_service_events_from_input(events: Seq<Event>, name: Seq<char>)
    ensures
        forall|j: int|
            0 <= j < service_events(events, name).len() ==> exists|k: int|
                0 <= k < events.len() && about_knative_service(events[k], name)
                    && #[trigger] service_events(events, name)[j] == events[k],
    decreases events.len(),
{
    if events.len() > 0 {
        let d = events.drop_last();
        lemma_service_events_from_input(d, name);
        let se = service_events(events, name);
        let sd = service_events(d, name);
        assert forall|j: int| 0 <= j < se.len() implies exists|k: int|
            0 <= k < events.len() && about_knative_service(events[k], name) && #[trigger] se[j] == events[k] by {
            if j < sd.len() {
                let k = choose|k: int|
                    0 <= k < d.len() && about_knative_service(d[k], name) && #[trigger] sd[j] == d[k];
                assert(se[j] == sd[j]);
                assert(events[k] == d[k]);
            } else {
                let k = events.len() - 1;
                assert(se[j] == events[k]);
                assert(about_knative_service(events[k], name));
            }
        }
    }
}

/// Every event shown for a service is the summary of an input event about that Knative
/// service: kind `Service`, an API version under `serving.knative.dev`, and the service's
/// name. Events about its configuration, routes or revisions are never shown.
pub proof fn law_shown_events_are_about_the_service(events: Seq<Event>, name: Seq<char>)
    ensures
        forall|i: int|
            0 <= i < recent_views(service_events(events, name)).len() ==> exists|k: int|
                0 <= k < events.len() && about_knative_service(events[k], name)
                    && #[trigger] recent_views(service_events(events, name))[i] == event_summary_of(events[k]),
{
    broadcast use vstd::seq_lib::group_to_multiset_ensures;

    let se = service_events(events, name);
    let sorted = sort_by_time(se);
    let views = sorted.map_values(|e: Event| event_summary_of(e));
    let shown = recent_views(se);
    lemma_service_events_from_input(events, name);
    lemma_sort_by_time(se);
    assert(sorted.to_multiset().len() == se.to_multiset().len());
    law_last_n(views, RECENT_EVENTS as nat);
    assert forall|i: int| 0 <= i < shown.len() implies exists|k: int|
        0 <= k < events.len() && about_knative_service(events[k], name) && #[trigger] shown[i] == event_summary_of(events[k]) by {
        let off = views.len() - shown.len();
        assert(shown[i] == views[i + off]);
        let x = sorted[i + off];
        assert(sorted.to_multiset().count(x) > 0);
        assert(se.to_multiset().count(x) > 0);
        assert(se.contains(x));
        let j = choose|j: int| 0 <= j < se.len() && se[j] == x;
        let k = choose|k: int| 0 <= k < events.len() && about_knative_service(events[k], name) && #[trigger] se[j] == events[k];
        assert(shown[i] == event_summary_of(events[k]));
    }
}

/// A listed summary shows only events about its own Knative service.
pub proof fn law_listed_summary_events_are_about_the_service(
    namespace: Seq<char>,
    svc: Service,
    events_taken: bool,
    irs: Seq<IngressRoute>,
    revs: Seq<Revision>,
    events: Seq<Event>,
    pods: Seq<Pod>,
)
    ensures
        ({
            let v = spec_listed_summary(namespace, svc, events_taken, irs, revs, events, pods);
            forall|i: int|
                0 <= i < v.events.len() ==> exists|k: int|
                    0 <= k < events.len() && about_knative_service(events[k], svc.metadata.spec_name_any())
                        && #[trigger] v.events[i] == event_summary_of(events[k])
        }),
{
    law_shown_events_are_about_the_service(events, svc.metadata.spec_name_any());
}

/// The URL of an ingress route is `https://` and the host of its first route's rule when
/// some entry point, at any position, is `websecure`; `http://` and that host otherwise; and
/// there is none when it has no route or the first rule names no host.
pub proof fn law_route_url_scheme(ir: IngressRoute, h: Seq<char>)
    ensures
        ir.spec.routes.len() == 0 ==> spec_route_url(ir) is None,
        ir.spec.routes.len() > 0 && spec_ingress_hostname(ir.spec.routes[0].rule@) is None
            ==> spec_route_url(ir) is None,
        ir.spec.routes.len() > 0 && spec_ingress_hostname(ir.spec.routes[0].rule@) == Some(h)
            && (exists|i: int|
            0 <= i < ir.spec.entry_points@.len() && #[trigger] ir.spec.entry_points@[i]@ == "websecure"@)
            ==> spec_route_url(ir) == Some("https://"@ + h),
        ir.spec.routes.len() > 0 && spec_ingress_hostname(ir.spec.routes[0].rule@) == Some(h)
            && !(exists|i: int|
            0 <= i < ir.spec.entry_points@.len() && #[trigger] ir.spec.entry_points@[i]@ == "websecure"@)
            ==> spec_route_url(ir) == Some("http://"@ + h),
{
    reveal_strlit("https");
    reveal_strlit("http");
    reveal_strlit("://");
    reveal_strlit("https://");
    reveal_strlit("http://");
    assert("https"@ + "://"@ =~= "https://"@);
    assert("http"@ + "://"@ =~= "http://"@);
    assert("https"@ + "://"@ + h =~= "https://"@ + h);
    assert("http"@ + "://"@ + h =~= "http://"@ + h);
}

/// A sequence sorts strictly before every longer sequence it is a prefix of.
pub proof fn law_prefix_sorts_first(a: Seq<char>, s: Seq<char>)
    requires
        s.len() > 0,
    ensures
        lex_lt(a, a + s),
        !lex_lt(a + s, a),
    decreases a.len(),
{
    if a.len() > 0 {
        law_prefix_sorts_first(a.drop_first(), s);
        assert((a + s).drop_first() =~= a.drop_first() + s);
        assert((a + s)[0] == a[0]);
    } else {
        assert(a + s =~= s);
    }
}

/// After a common prefix, the first differing character decides the order, by code point.
pub proof fn law_first_difference_decides(p: Seq<char>, c1: char, c2: char, x: Seq<char>, y: Seq<char>)
    requires
        c1 < c2,
    ensures
        lex_lt(p + seq![c1] + x, p + seq![c2] + y),
        !lex_lt(p + seq![c2] + y, p + seq![c1] + x),
    decreases p.len(),
{
    let a = p + seq![c1] + x;
    let b = p + seq![c2] + y;
    if p.len() > 0 {
        law_first_difference_decides(p.drop_first(), c1, c2, x, y);
        assert(a.drop_first() =~= p.drop_first() + seq![c1] + x);
        assert(b.drop_first() =~= p.drop_first() + seq![c2] + y);
        assert(a[0] == b[0]);
    } else {
        assert(a[0] == c1);
        assert(b[0] == c2);
    }
}

/// The events considered for a service are exactly the input events about that Knative
/// service, in input order.
pub proof fn law_service_events_are_those_about_it(events: Seq<Event>, name: Seq<char>)
    ensures
        service_events(events, name) == events.filter(|e: Event| about_knative_service(e, name)),
    decreases events.len(),
{
    reveal(Seq::filter);
    if events.len() > 0 {
        law_service_events_are_those_about_it(events.drop_last(), name);
    }
}

/// The URL the listing gives the service `name` is that of the last ingress route named
/// `name` that has one; there is none when no route of that name has one.
pub proof fn law_route_url_is_last_with_one(irs: Seq<IngressRoute>, name: Seq<char>)
    ensures
        route_url_for(irs, name) is None ==> forall|k: int|
            0 <= k < irs.len() && #[trigger] irs[k].metadata.spec_name_any() == name
                ==> spec_route_url(irs[k]) is None,
        route_url_for(irs, name) matches Some(u) ==> exists|k: int|
            0 <= k < irs.len() && #[trigger] irs[k].metadata.spec_name_any() == name
                && spec_route_url(irs[k]) == Some(u) && forall|j: int|
                k < j < irs.len() && #[trigger] irs[j].metadata.spec_name_any() == name
                    ==> spec_route_url(irs[j]) is None,
    decreases irs.len(),
{
    if irs.len() > 0 {
        let d = irs.drop_last();
        law_route_url_is_last_with_one(d, name);
        let last = irs.len() - 1;
        if irs[last].metadata.spec_name_any() == name && spec_route_url(irs[last]) is Some {
        } else {
            if route_url_for(irs, name) is None {
                assert forall|k: int|
                    0 <= k < irs.len() && #[trigger] irs[k].metadata.spec_name_any() == name
                        implies spec_route_url(irs[k]) is None by {
                    if k < last {
                        assert(d[k] == irs[k]);
                    }
                }
            }
            if let Some(u) = route_url_for(irs, name) {
                let k = choose|k: int|
                    0 <= k < d.len() && #[trigger] d[k].metadata.spec_name_any() == name
                        && spec_route_url(d[k]) == Some(u) && forall|j: int|
                        k < j < d.len() && #[trigger] d[j].metadata.spec_name_any() == name
                            ==> spec_route_url(d[j]) is None;
                assert(irs[k] == d[k]);
                assert forall|j: int| k < j < irs.len() && #[trigger] irs[j].metadata.spec_name_any() == name
                    implies spec_route_url(irs[j]) is None by {
                    if j < last {
                        assert(d[j] == irs[j]);
                    }
                }
            }
        }
    }
}

/// The image the listing gives the revision `name` is that of the last revision named
/// `name` whose first container has a non-empty image; there is none when no such revision
/// exists.
pub proof fn law_revision_image_is_last_with_one(revs: Seq<Revision>, name: Seq<char>)
    ensures
        revision_image_for(revs, name) is None ==> forall|k: int|
            0 <= k < revs.len() && #[trigger] revs[k].metadata.spec_name_any() == name
                ==> !has_image(revs[k]),
        revision_image_for(revs, name) matches Some(img) ==> exists|k: int|
            0 <= k < revs.len() && #[trigger] revs[k].metadata.spec_name_any() == name
                && has_image(revs[k]) && img == revs[k].spec.containers[0].image@ && forall|j: int|
                k < j < revs.len() && #[trigger] revs[j].metadata.spec_name_any() == name
                    ==> !has_image(revs[j]),
    decreases revs.len(),
{
    if revs.len() > 0 {
        let d = revs.drop_last();
        law_revision_image_is_last_with_one(d, name);
        let last = revs.len() - 1;
        if revs[last].metadata.spec_name_any() == name && spec_revision_image(revs[last]) is Some {
        } else {
            if revision_image_for(revs, name) is None {
                assert forall|k: int|
                    0 <= k < revs.len() && #[trigger] revs[k].metadata.spec_name_any() == name
                        implies !has_image(revs[k]) by {
                    if k < last {
                        assert(d[k] == revs[k]);
                    }
                }
            }
            if let Some(img) = revision_image_for(revs, name) {
                let k = choose|k: int|
                    0 <= k < d.len() && #[trigger] d[k].metadata.spec_name_any() == name
                        && has_image(d[k]) && img == d[k].spec.containers[0].image@ && forall|j: int|
                        k < j < d.len() && #[trigger] d[j].metadata.spec_name_any() == name
                            ==> !has_image(d[j]);
                assert(revs[k] == d[k]);
                assert forall|j: int| k < j < revs.len() && #[trigger] revs[j].metadata.spec_name_any() == name
                    implies !has_image(revs[j]) by {
                    if j < last {
                        assert(d[j] == revs[j]);
                    }
                }
            }
        }
    }
}

/// The revision's first container names a non-empty image.
pub open spec fn has_image(r: Revision) -> bool {
    r.spec.containers.len() > 0 && r.spec.containers[0].image@.len() > 0
}

/// The image a single-service summary shows is that of the first revision named as the
/// latest ready one, when that revision's first container names a non-empty image.
pub proof fn law_single_image_from_first_named_revision(
    namespace: Seq<char>,
    svc: Service,
    route: Option<IngressRoute>,
    revs: Seq<Revision>,
    pods: Seq<Pod>,
    events: Seq<Event>,
    k: int,
)
    requires
        crate::logic::status_latest_revision(svc.status) matches Some(rev) && 0 <= k < revs.len()
            && revs[k].metadata.spec_name_any() == rev && forall|j: int|
            0 <= j < k ==> #[trigger] revs[j].metadata.spec_name_any() != rev,
    ensures
        spec_single_summary(namespace, svc, route, revs, pods, events).image == if has_image(revs[k]) {
            Some(revs[k].spec.containers[0].image@)
        } else {
            None
        },
{
    let rev = crate::logic::status_latest_revision(svc.status)->0;
    lemma_first_revision_named(revs, rev, k);
}

proof fn lemma_first_revision_named(revs: Seq<Revision>, name: Seq<char>, k: int)
    requires
        0 <= k < revs.len(),
        revs[k].metadata.spec_name_any() == name,
        forall|j: int| 0 <= j < k ==> #[trigger] revs[j].metadata.spec_name_any() != name,
    ensures
        crate::logic::first_revision_named(revs, name) == Some(revs[k]),
    decreases k,
{
    if k > 0 {
        let d = revs.drop_first();
        assert forall|j: int| 0 <= j < k - 1 implies #[trigger] d[j].metadata.spec_name_any() != name by {
            assert(d[j] == revs[j + 1]);
        }
        assert(revs[0].metadata.spec_name_any() != name);
        lemma_first_revision_named(d, name, k - 1);
    }
}

/// A label lookup gives the value of the first label with that key, and nothing when no label
/// has the key.
pub proof fn law_label_lookup_first_match(labels: Seq<crate::k8s::Label>, key: Seq<char>)
    ensures
        label_value(labels, key) is None ==> forall|k: int| 0 <= k < labels.len() ==> #[trigger] labels[k].key@ != key,
        label_value(labels, key) matches Some(v) ==> exists|k: int|
            0 <= k < labels.len() && #[trigger] labels[k].key@ == key && labels[k].value@ == v
                && forall|j: int| 0 <= j < k ==> #[trigger] labels[j].key@ != key,
    decreases labels.len(),
{
    if labels.len() > 0 {
        let d = labels.drop_first();
        law_label_lookup_first_match(d, key);
        if labels[0].key@ == key {
            assert(labels[0].key@ == key);
        } else {
            if label_value(labels, key) is None {
                assert forall|k: int| 0 <= k < labels.len() implies #[trigger] labels[k].key@ != key by {
                    if k > 0 {
                        assert(labels[k] == d[k - 1]);
                    }
                }
            }
            if let Some(v) = label_value(labels, key) {
                let k = choose|k: int|
                    0 <= k < d.len() && #[trigger] d[k].key@ == key && d[k].value@ == v
                        && forall|j: int| 0 <= j < k ==> #[trigger] d[j].key@ != key;
                assert(labels[k + 1] == d[k]);
                assert forall|j: int| 0 <= j < k + 1 implies #[trigger] labels[j].key@ != key by {
                    if j > 0 {
                        assert(labels[j] == d[j - 1]);
                    }
                }
            }
        }
    }
}

/// An event's summary keeps its reason, message, count and type; a missing reason or
/// message shows as empty, a missing count as 1 and a missing type as `Normal`.
pub proof fn law_event_summary_fields(ev: Event)
    ensures
        event_summary_of(ev).reason == match ev.reason {
            Some(r) => r@,
            None => Seq::<char>::empty(),
        },
        event_summary_of(ev).message == match ev.message {
            Some(m) => m@,
            None => Seq::<char>::empty(),
        },
        event_summary_of(ev).count == match ev.count {
            Some(c) => c,
            None => 1i32,
        },
        event_summary_of(ev).event_type == match ev.type_ {
            Some(t) => t@,
            None => "Normal"@,
        },
{
}

/// Combining the logs of two non-empty groups of pods gives the first group's output
/// followed by the second's; a single pod whose logs end in a line feed gives a header
/// line `=== name ===` followed by its logs.
pub proof fn law_combined_logs_concatenate(ps: Seq<PodLogs>, qs: Seq<PodLogs>)
    requires
        ps.len() > 0,
        qs.len() > 0,
    ensures
        spec_combined_logs(ps + qs) == spec_combined_logs(ps) + spec_combined_logs(qs),
    decreases qs.len(),
{
    if qs.len() == 1 {
        assert((ps + qs).drop_last() =~= ps);
        assert(log_blocks(qs.drop_last()) == Seq::<char>::empty());
        assert(log_blocks(qs) =~= log_block(qs.last()));
    } else {
        let q1 = qs.drop_last();
        law_combined_logs_concatenate(ps, q1);
        assert((ps + qs).drop_last() =~= ps + q1);
        assert((ps + qs).last() == qs.last());
        assert(log_blocks(ps + qs) =~= log_blocks(ps) + log_blocks(qs));
    }
}

/// The output for a single pod whose logs end in a line feed is the header line
/// `=== name ===` followed by its logs.
pub proof fn law_single_pod_logs(p: PodLogs, l: String)
    requires
        p.logs == Ok::<String, String>(l),
        l@.len() > 0,
        l@.last() == '\n',
    ensures
        spec_combined_logs(seq![p]) == "=== "@ + p.pod_name@ + " ===\n"@ + l@,
{
    assert(seq![p].drop_last() =~= Seq::<PodLogs>::empty());
    assert(seq![p].last() == p);
    assert(log_blocks(Seq::<PodLogs>::empty()) == Seq::<char>::empty());
    assert(log_blocks(seq![p]) =~= log_block(p));
    assert(log_block(p) =~= "=== "@ + p.pod_name@ + " ===\n"@ + l@);
}

/// The status of a service reports a `Ready` condition with status `True`.
pub open spec fn status_says_ready(svc: Service) -> bool {
    svc.status matches Some(st) && st.conditions matches Some(cs) && exists|i: int|
        0 <= i < cs@.len() && #[trigger] cs@[i].condition_type@ == "Ready"@ && cs@[i].status@ == "True"@
}

/// The URL the status of a service reports.
pub open spec fn reported_url(svc: Service) -> Option<Seq<char>> {
    match svc.status {
        Some(st) => match st.url {
            Some(u) => Some(u@),
            None => None,
        },
        None => None,
    }
}

/// The latest ready revision the status of a service reports.
pub open spec fn reported_latest_revision(svc: Service) -> Option<Seq<char>> {
    match svc.status {
        Some(st) => match st.latest_ready_revision_name {
            Some(r) => Some(r@),
            None => None,
        },
        None => None,
    }
}

/// A listed summary carries the service's name and the listing's namespace; its URL is the
/// one an ingress route of that name gives, else the one the status reports; it is ready
/// exactly when the status reports a `Ready` condition with status `True`; its latest
/// revision is the one the status reports; and its image is the one the revisions give to
/// that revision.
pub proof fn law_listed_summary_fields(
    namespace: Seq<char>,
    svc: Service,
    events_taken: bool,
    irs: Seq<IngressRoute>,
    revs: Seq<Revision>,
    events: Seq<Event>,
    pods: Seq<Pod>,
)
    ensures
        ({
            let v = spec_listed_summary(namespace, svc, events_taken, irs, revs, events, pods);
            let name = svc.metadata.spec_name_any();
            &&& v.name == name
            &&& v.namespace == namespace
            &&& v.url == match route_url_for(irs, name) {
                Some(u) => Some(u),
                None => reported_url(svc),
            }
            &&& v.ready == status_says_ready(svc)
            &&& v.latest_revision == reported_latest_revision(svc)
            &&& v.image == match reported_latest_revision(svc) {
                Some(r) => revision_image_for(revs, r),
                None => None,
            }
        }),
{
    lemma_status_ready(svc);
}

/// The summary of a single service carries its name and the given namespace; its URL is
/// the one the ingress route fetched by its name gives, else the one the status reports; it
/// is ready exactly when the status reports a `Ready` condition with status `True`; and its
/// latest revision is the one the status reports.
pub proof fn law_single_summary_fields(
    namespace: Seq<char>,
    svc: Service,
    route: Option<IngressRoute>,
    revs: Seq<Revision>,
    pods: Seq<Pod>,
    events: Seq<Event>,
)
    ensures
        ({
            let v = spec_single_summary(namespace, svc, route, revs, pods, events);
            &&& v.name == svc.metadata.spec_name_any()
            &&& v.namespace == namespace
            &&& v.url == match route {
                Some(ir) => match spec_route_url(ir) {
                    Some(u) => Some(u),
                    None => reported_url(svc),
                },
                None => reported_url(svc),
            }
            &&& v.ready == status_says_ready(svc)
            &&& v.latest_revision == reported_latest_revision(svc)
        }),
{
    lemma_status_ready(svc);
}

proof fn lemma_status_ready(svc: Service)
    ensures
        ready_of(crate::logic::status_conditions(svc.status)) == status_says_ready(svc),
{
    match svc.status {
        Some(st) => match st.conditions {
            Some(cs) => {
                if status_says_ready(svc) {
                    let i = choose|i: int|
                        0 <= i < cs@.len() && #[trigger] cs@[i].condition_type@ == "Ready"@ && cs@[i].status@ == "True"@;
                    assert(is_ready_true(cs@[i]));
                }
                if ready_of(crate::logic::status_conditions(svc.status)) {
                    let i = choose|i: int| 0 <= i < cs@.len() && #[trigger] is_ready_true(cs@[i]);
                    assert(cs@[i].condition_type@ == "Ready"@);
                }
            },
            None => {},
        },
        None => {},
    }
}

/// When an event happened, for ordering: its last timestamp, else its creation timestamp;
/// an event with neither comes before every timestamped one.
pub open spec fn happened_at(ev: Event) -> int {
    if ev.last_timestamp is Some {
        ev.last_timestamp->0 as int
    } else if ev.creation_timestamp is Some {
        ev.creation_timestamp->0 as int
    } else {
        i64::MIN as int - 1
    }
}

/// Events are ranked from oldest to newest by last timestamp, falling back to creation
/// timestamp, and ranking keeps every event; the shown ones are the last five of that
/// ranking.
pub proof fn law_events_ranked_by_last_then_creation_time(evs: Seq<Event>)
    ensures
        forall|i: int, j: int|
            0 <= i < j < sort_by_time(evs).len() ==> happened_at(#[trigger] sort_by_time(evs)[i])
                <= happened_at(#[trigger] sort_by_time(evs)[j]),
        sort_by_time(evs).to_multiset() == evs.to_multiset(),
        recent_views(evs) == last_n(
            sort_by_time(evs).map_values(|e: Event| event_summary_of(e)),
            RECENT_EVENTS as nat,
        ),
{
    lemma_sort_by_time(evs);
    let s = sort_by_time(evs);
    assert forall|i: int, j: int| 0 <= i < j < s.len() implies happened_at(#[trigger] s[i]) <= happened_at(
        #[trigger] s[j],
    ) by {
        assert(crate::events::event_time(s[i]) == happened_at(s[i]));
        assert(crate::events::event_time(s[j]) == happened_at(s[j]));
    }
}

/// The logs of a service: a notice when it has no pods; otherwise, for each pod in order,
/// a header line naming it and its logs ending in a line feed, or, when fetching failed, an
/// error header and the message. Pods combine by concatenation.
pub proof fn law_pod_log_text(p: PodLogs)
    ensures
        spec_combined_logs(Seq::<PodLogs>::empty()) == "No pods found for this service."@,
        spec_combined_logs(seq![p]) == match p.logs {
            Ok(l) => "=== "@ + p.pod_name@ + " ===\n"@ + l@ + if l@.len() > 0 && l@.last() == '\n' {
                Seq::<char>::empty()
            } else {
                "\n"@
            },
            Err(e) => "=== "@ + p.pod_name@ + " (error) ===\n"@ + e@ + "\n"@,
        },
{
    assert(seq![p].drop_last() =~= Seq::<PodLogs>::empty());
    assert(seq![p].last() == p);
    assert(log_blocks(Seq::<PodLogs>::empty()) == Seq::<char>::empty());
    assert(log_blocks(seq![p]) =~= log_block(p));
}

/// The message of each error: a prefix naming the kind of failure, then its message.
pub proof fn law_error_messages(m: String)
    ensures
        crate::error::AppError::Kube(m).display() == "kubernetes error: "@ + m@,
        crate::error::AppError::Http(m).display() == "http error: "@ + m@,
        crate::error::AppError::Open(m).display() == "failed to open URL: "@ + m@,
{
}

/// An object's most useful name is its name, else its generated-name prefix, else empty.
pub proof fn law_name_any(meta: crate::k8s::ObjectMeta)
    ensures
        meta.spec_name_any() == if meta.name is Some {
            meta.name->0@
        } else if meta.generate_name is Some {
            meta.generate_name->0@
        } else {
            Seq::<char>::empty()
        },
{
}

proof fn lemma_insert_keeps_same_time_order(r: Seq<Event>, e: Event, t: int)
    ensures
        crate::events::insert_by_time(r, e).filter(|x: Event| happened_at(x) == t) == if happened_at(e) == t {
            r.filter(|x: Event| happened_at(x) == t).push(e)
        } else {
            r.filter(|x: Event| happened_at(x) == t)
        },
    decreases r.len(),
{
    reveal(Seq::filter);
    let ins = crate::events::insert_by_time(r, e);
    if r.len() == 0 {
        assert(ins.drop_last() =~= r);
        assert(r.filter(|x: Event| happened_at(x) == t) =~= Seq::<Event>::empty());
    } else if crate::events::event_time(r.last()) <= crate::events::event_time(e) {
        assert(ins.drop_last() =~= r);
    } else {
        let d = r.drop_last();
        lemma_insert_keeps_same_time_order(d, e, t);
        let i1 = crate::events::insert_by_time(d, e);
        assert(ins == i1.push(r.last()));
        assert(ins.drop_last() =~= i1);
    }
}

/// Events that happened at the same time keep their input order: for every time `t`, the
/// ranked events of time `t` are the input events of time `t`, in input order.
pub proof fn law_equal_times_keep_input_order(evs: Seq<Event>, t: int)
    ensures
        sort_by_time(evs).filter(|x: Event| happened_at(x) == t) == evs.filter(|x: Event| happened_at(x) == t),
    decreases evs.len(),
{
    reveal(Seq::filter);
    if evs.len() > 0 {
        let d = evs.drop_last();
        law_equal_times_keep_input_order(d, t);
        lemma_insert_keeps_same_time_order(sort_by_time(d), evs.last(), t);
    }
}

} // verus!
