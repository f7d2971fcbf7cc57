//! What a burst of change notifications asks to refresh.
use vstd::prelude::*;

use crate::logic::string_views;
use crate::text::str_eq;

verus! {

/// The names of `s` without repeats, each where it first occurs.
pub open spec fn dedup(s: Seq<Seq<char>>) -> Seq<Seq<char>>
    decreases s.len(),
{
    if s.len() == 0 {
        Seq::empty()
    } else {
        let prev = dedup(s.drop_last());
        if prev.contains(s.last()) {
            prev
        } else {
            prev.push(s.last())
        }
    }
}

/// Whether `v` holds a string equal to `name`.
fn contains_name(v: &Vec<String>, name: &str) -> (r: bool)
    ensures
        r == string_views(v@).contains(name@),
{
    let mut i: usize = 0;
    while i < v.len()
        invariant
            i <= v@.len(),
            forall|k: int| 0 <= k < i ==> v@[k]@ != name@,
        decreases v@.len() - i,
    {
        if str_eq(v[i].as_str(), name) {
            assert(string_views(v@)[i as int] == name@);
            return true;
        }
        i = i + 1;
    }
    proof {
        if string_views(v@).contains(name@) {
            let k = choose|k: int| 0 <= k < v@.len() && string_views(v@)[k] == name@;
            assert(v@[k]@ == name@);
        }
    }
    false
}

/// The services to refresh after a burst of notifications (`first`, then `rest`): each
/// named service once, in order of first mention; none while the window is hidden or no
/// namespace is being watched.
pub fn services_to_refresh(
    first: String,
    rest: Vec<String>,
    window_visible: bool,
    namespace: &str,
) -> (r: Vec<String>)
    ensures
        window_visible && namespace@.len() > 0 ==> string_views(r@) == dedup(
            seq![first@] + string_views(rest@),
        ),
        !(window_visible && namespace@.len() > 0) ==> r@.len() == 0,
{
    let mut r: Vec<String> = Vec::new();
    if !window_visible || namespace.is_empty() {
        return r;
    }
    let ghost all = seq![first@] + string_views(rest@);
    assert(all.take(1).drop_last() =~= Seq::<Seq<char>>::empty());
    assert(dedup(Seq::<Seq<char>>::empty()) =~= Seq::<Seq<char>>::empty());
    r.push(first);
    assert(string_views(r@) =~= dedup(all.take(1)));
    let mut i: usize = 0;
    while i < rest.len()
        invariant
            i <= rest@.len(),
            all == seq![first@] + string_views(rest@),
            string_views(r@) == dedup(all.take(i + 1)),
        decreases rest@.len() - i,
    {
        proof {
            assert(all.take(i + 2).drop_last() =~= all.take(i + 1));
            assert(all.take(i + 2).last() == rest@[i as int]@);
        }
        if !contains_name(&r, rest[i].as_str()) {
            let ghost before = string_views(r@);
            r.push(rest[i].clone());
            assert(string_views(r@) =~= before.push(rest@[i as int]@));
        }
        i = i + 1;
    }
    assert(all.take(i + 1) =~= all);
    r
}

} // verus!
