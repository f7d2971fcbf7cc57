//! The text of a service's logs and the selectors that pick its pods and events.
use vstd::prelude::*;

use crate::logic::KNATIVE_SERVICE_LABEL;
use crate::text::{ends_with_newline, owned};

verus! {

/// The container of a Knative pod that runs the user's code, whose logs are shown.
pub const LOG_CONTAINER: &'static str = "user-container";

/// What fetching the logs of one pod gave: its log text, or the error's message.
pub struct PodLogs {
    pub pod_name: String,
    pub logs: Result<String, String>,
}

/// The block of output for one pod: a header with its name, then its logs ending in a line
/// feed (one is added when missing); or, when fetching failed, an error header and the
/// message.
pub open spec fn log_block(p: PodLogs) -> Seq<char> {
    match p.logs {
        Ok(l) => "=== "@ + p.pod_name@ + " ===\n"@ + l@ + if l@.len() > 0 && l@.last() == '\n' {
            Seq::<char>::empty()
        } else {
            "\n"@
        },
        Err(e) => "=== "@ + p.pod_name@ + " (error) ===\n"@ + e@ + "\n"@,
    }
}

/// The blocks of all pods, in order.
pub open spec fn log_blocks(ps: Seq<PodLogs>) -> Seq<char>
    decreases ps.len(),
{
    if ps.len() == 0 {
        Seq::empty()
    } else {
        log_blocks(ps.drop_last()) + log_block(ps.last())
    }
}

/// The combined logs of a service: a notice when it has no pods, else every pod's block.
pub open spec fn spec_combined_logs(ps: Seq<PodLogs>) -> Seq<char> {
    if ps.len() == 0 {
        "No pods found for this service."@
    } else {
        log_blocks(ps)
    }
}

/// Appends the block of one pod to `out`.
fn append_block(out: &mut String, p: &PodLogs)
    ensures
        final(out)@ == old(out)@ + log_block(*p),
{
    match &p.logs {
        Ok(l) => {
            out.append("=== ");
            out.append(p.pod_name.as_str());
            out.append(" ===\n");
            out.append(l.as_str());
            if !ends_with_newline(l.as_str()) {
                out.append("\n");
            }
        },
        Err(e) => {
            out.append("=== ");
            out.append(p.pod_name.as_str());
            out.append(" (error) ===\n");
            out.append(e.as_str());
            out.append("\n");
        },
    }
}

/// Combines the logs of all pods of a service, prefixing each with the pod's name.
pub fn combine_pod_logs(pods: &Vec<PodLogs>) -> (r: String)
    ensures
        r@ == spec_combined_logs(pods@),
{
    if pods.len() == 0 {
        return owned("No pods found for this service.");
    }
    let mut out = String::new();
    let mut i: usize = 0;
    while i < pods.len()
        invariant
            i <= pods@.len(),
            out@ == log_blocks(pods@.take(i as int)),
        decreases pods@.len() - i,
    {
        append_block(&mut out, &pods[i]);
        proof {
            assert(pods@.take(i + 1).drop_last() =~= pods@.take(i as int));
            assert(pods@.take(i + 1).last() == pods@[i as int]);
        }
        i = i + 1;
    }
    assert(pods@.take(i as int) =~= pods@);
    out
}

/// The label selector for the pods and revisions of the service `name`.
pub fn service_label_selector(name: &str) -> (r: String)
    ensures
        r@ == KNATIVE_SERVICE_LABEL@ + "="@ + name@,
{
    let mut r = owned(KNATIVE_SERVICE_LABEL);
    r.append("=");
    r.append(name);
    r
}

/// The field selector for the events about the service `name`.
pub fn service_event_field_selector(name: &str) -> (r: String)
    ensures
        r@ == "involvedObject.name="@ + name@ + ",involvedObject.kind=Service"@,
{
    let mut r = owned("involvedObject.name=");
    r.append(name);
    r.append(",involvedObject.kind=Service");
    r
}

} // verus!
