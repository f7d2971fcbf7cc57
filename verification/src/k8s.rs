//! The parts of core Kubernetes objects (metadata, pods, events) that the summaries read,
//! held as plain values.
use vstd::prelude::*;

use crate::text::str_eq;

verus! {

/// One label of an object: a key and its value.
pub struct Label {
    pub key: String,
    pub value: String,
}

/// Object metadata: names, namespace and labels (a key's value is that of its first pair).
pub struct ObjectMeta {
    pub name: Option<String>,
    pub generate_name: Option<String>,
    pub namespace: Option<String>,
    pub labels: Vec<Label>,
}

/// The value of the first label whose key is `key`.
pub open spec fn label_value(labels: Seq<Label>, key: Seq<char>) -> Option<Seq<char>>
    decreases labels.len(),
{
    if labels.len() == 0 {
        None
    } else if labels[0].key@ == key {
        Some(labels[0].value@)
    } else {
        label_value(labels.drop_first(), key)
    }
}

impl ObjectMeta {
    /// The most useful name of the object: its name, else its generated-name prefix,
    /// else the empty string.
    pub open spec fn spec_name_any(&self) -> Seq<char> {
        match self.name {
            Some(n) => n@,
            None => match self.generate_name {
                Some(g) => g@,
                None => Seq::empty(),
            },
        }
    }

    /// The most useful name of the object: its name, else its generated-name prefix,
    /// else the empty string.
    pub fn name_any(&self) -> (r: String)
        ensures
            r@ == self.spec_name_any(),
    {
        match &self.name {
            Some(n) => n.clone(),
            None => match &self.generate_name {
                Some(g) => g.clone(),
                None => String::new(),
            },
        }
    }

    /// The value of the label `key`, if the object has it.
    pub fn label(&self, key: &str) -> (r: Option<String>)
        ensures
            r matches Some(v) ==> label_value(self.labels@, key@) == Some(v@),
            r is None ==> label_value(self.labels@, key@) is None,
    {
        let mut i: usize = 0;
        assert(self.labels@.skip(0) =~= self.labels@);
        while i < self.labels.len()
            invariant
                i <= self.labels@.len(),
                label_value(self.labels@, key@) == label_value(self.labels@.skip(i as int), key@),
            decreases self.labels@.len() - i,
        {
            proof {
                assert(self.labels@.skip(i as int).drop_first() =~= self.labels@.skip(i + 1));
            }
            if str_eq(self.labels[i].key.as_str(), key) {
                return Some(self.labels[i].value.clone());
            }
            i = i + 1;
        }
        None
    }
}

/// The observed state of a pod.
pub struct PodStatus {
    /// `Pending`, `Running`, `Succeeded`, `Failed` or `Unknown`.
    pub phase: Option<String>,
}

/// A pod: its metadata and observed status.
pub struct Pod {
    pub metadata: ObjectMeta,
    pub status: Option<PodStatus>,
}

/// The object an event is about.
pub struct ObjectReference {
    pub api_version: Option<String>,
    pub kind: Option<String>,
    pub name: Option<String>,
}

/// A cluster event. Timestamps are in seconds since the Unix epoch.
pub struct Event {
    pub involved_object: ObjectReference,
    pub reason: Option<String>,
    pub message: Option<String>,
    pub count: Option<i32>,
    pub type_: Option<String>,
    /// When the event last occurred.
    pub last_timestamp: Option<i64>,
    /// When the event object was created.
    pub creation_timestamp: Option<i64>,
}

} // verus!
