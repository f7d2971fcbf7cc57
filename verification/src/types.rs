//! Domain types shown to the user, and the two rules read straight off resources:
//! the host of an ingress match rule and the readiness of a service.
pub mod knative;
pub mod traefik;

use vstd::prelude::*;

use crate::text::{chars_of, find_char, find_char_from, lemma_find_char, opt_chars, owned, str_eq};
use crate::types::knative::Condition;

verus! {

/// A condition as shown to the user.
pub struct ConditionSummary {
    pub condition_type: String,
    pub status: String,
    pub reason: Option<String>,
    pub message: Option<String>,
}

/// An event as shown to the user.
pub struct EventSummary {
    pub reason: String,
    pub message: String,
    pub count: i32,
    pub event_type: String,
}

/// Everything shown about one Knative service.
pub struct ServiceSummary {
    pub name: String,
    pub namespace: String,
    pub url: Option<String>,
    pub ready: bool,
    /// Number of running pods of the service.
    pub instance_count: u32,
    pub conditions: Vec<ConditionSummary>,
    pub latest_revision: Option<String>,
    pub image: Option<String>,
    pub events: Vec<EventSummary>,
}

/// The outcome of pinging a service URL.
pub struct PingResult {
    pub status_code: u16,
    pub latency_ms: u64,
}

/// The content of a `ConditionSummary`.
pub struct ConditionSummaryView {
    pub condition_type: Seq<char>,
    pub status: Seq<char>,
    pub reason: Option<Seq<char>>,
    pub message: Option<Seq<char>>,
}

/// The content of an `EventSummary`.
pub struct EventSummaryView {
    pub reason: Seq<char>,
    pub message: Seq<char>,
    pub count: i32,
    pub event_type: Seq<char>,
}

/// The content of a `ServiceSummary`.
pub struct ServiceSummaryView {
    pub name: Seq<char>,
    pub namespace: Seq<char>,
    pub url: Option<Seq<char>>,
    pub ready: bool,
    pub instance_count: u32,
    pub conditions: Seq<ConditionSummaryView>,
    pub latest_revision: Option<Seq<char>>,
    pub image: Option<Seq<char>>,
    pub events: Seq<EventSummaryView>,
}

impl View for ConditionSummary {
    type V = ConditionSummaryView;

    open spec fn view(&self) -> ConditionSummaryView {
        ConditionSummaryView {
            condition_type: self.condition_type@,
            status: self.status@,
            reason: opt_chars(self.reason),
            message: opt_chars(self.message),
        }
    }
}

impl View for EventSummary {
    type V = EventSummaryView;

    open spec fn view(&self) -> EventSummaryView {
        EventSummaryView {
            reason: self.reason@,
            message: self.message@,
            count: self.count,
            event_type: self.event_type@,
        }
    }
}

/// The contents of a list of condition summaries.
pub open spec fn condition_views(s: Seq<ConditionSummary>) -> Seq<ConditionSummaryView> {
    s.map_values(|c: ConditionSummary| c@)
}

/// The contents of a list of event summaries.
pub open spec fn event_views(s: Seq<EventSummary>) -> Seq<EventSummaryView> {
    s.map_values(|e: EventSummary| e@)
}

impl View for ServiceSummary {
    type V = ServiceSummaryView;

    open spec fn view(&self) -> ServiceSummaryView {
        ServiceSummaryView {
            name: self.name@,
            namespace: self.namespace@,
            url: opt_chars(self.url),
            ready: self.ready,
            instance_count: self.instance_count,
            conditions: condition_views(self.conditions@),
            latest_revision: opt_chars(self.latest_revision),
            image: opt_chars(self.image),
            events: event_views(self.events@),
        }
    }
}

/// The text between the first backtick of `rule` and the backtick after it, if there are two.
pub open spec fn spec_ingress_hostname(rule: Seq<char>) -> Option<Seq<char>> {
    match find_char(rule, '`') {
        None => None,
        Some(i) => match find_char(rule.skip(i + 1), '`') {
            None => None,
            Some(k) => Some(rule.subrange(i + 1, i + 1 + k)),
        },
    }
}

/// Extracts the first hostname from a Traefik match rule like ``Host(`foo.example.com`)``:
/// the text between the first two backticks, or `None` when the rule has fewer than two.
pub fn extract_ingress_hostname(rule: &str) -> (r: Option<String>)
    ensures
        opt_chars(r) == spec_ingress_hostname(rule@),
{
    let v = chars_of(rule);
    assert(v@.skip(0) =~= v@);
    let first = find_char_from(&v, '`', 0);
    let start = match first {
        Some(i) => {
            proof {
                lemma_find_char(v@, '`');
            }
            i + 1
        },
        None => {
            return None;
        },
    };
    let k = match find_char_from(&v, '`', start) {
        Some(k) => {
            proof {
                lemma_find_char(v@.skip(start as int), '`');
                assert(k < v@.len() - start);
            }
            k
        },
        None => {
            return None;
        },
    };
    Some(owned(rule.substring_char(start, start + k)))
}

/// Whether the condition is of type `Ready` with status `True`.
pub open spec fn is_ready_true(c: Condition) -> bool {
    c.condition_type@ == "Ready"@ && c.status@ == "True"@
}

/// A list of conditions says "ready" when it holds a `Ready` condition with status `True`.
pub open spec fn conditions_ready(conds: Seq<Condition>) -> bool {
    exists|i: int| 0 <= i < conds.len() && #[trigger] is_ready_true(conds[i])
}

/// Returns true when the conditions list contains a Ready condition with status "True".
pub fn extract_ready_status(conditions: Option<&Vec<Condition>>) -> (r: bool)
    ensures
        r == match conditions {
            Some(v) => conditions_ready(v@),
            None => false,
        },
{
    match conditions {
        None => false,
        Some(conds) => conditions_are_ready(conds),
    }
}

/// Whether `conds` holds a `Ready` condition with status `True`.
fn conditions_are_ready(conds: &Vec<Condition>) -> (r: bool)
    ensures
        r == conditions_ready(conds@),
{
    let mut i: usize = 0;
    while i < conds.len()
        invariant
            i <= conds@.len(),
            forall|k: int| 0 <= k < i ==> !#[trigger] is_ready_true(conds@[k]),
        decreases conds@.len() - i,
    {
        if str_eq(conds[i].condition_type.as_str(), "Ready") && str_eq(conds[i].status.as_str(), "True") {
            assert(is_ready_true(conds@[i as int]));
            return true;
        }
        i = i + 1;
    }
    false
}

} // verus!
