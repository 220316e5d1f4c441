//! The table of issue states that derivation looks blockers up in, keyed by
//! issue number.

use std::collections::BTreeMap;

use vstd::prelude::*;

use crate::derive::known_state;
use crate::model::{IssueState, RawIssue};

verus! {

broadcast use vstd::std_specs::btree::group_btree_axioms;

/// Issue numbers are ordered as `BTreeMap` needs its keys to be.
pub open spec fn numbers_are_ordered() -> bool {
    vstd::laws_cmp::obeys_cmp::<u64>()
}

proof fn lemma_numbers_are_ordered()
    ensures
        numbers_are_ordered(),
{
    broadcast use vstd::laws_cmp::group_laws_cmp;
}

/// `m` maps each number that `issues` carry to the state of the last issue
/// that carries it, and holds no other number.
pub open spec fn tracks_states(m: Map<u64, IssueState>, issues: Seq<RawIssue>) -> bool {
    forall|n: u64| #![trigger m.contains_key(n)] #![trigger known_state(issues, n)]
        (m.contains_key(n) <==> known_state(issues, n) is Some)
            && (m.contains_key(n) ==> known_state(issues, n) == Some(m[n]))
}

/// The states of `issues` by number, a later issue with the same number
/// replacing an earlier one.
pub fn issue_states(issues: &[RawIssue]) -> (m: BTreeMap<u64, IssueState>)
    ensures
        tracks_states(m@, issues@),
{
    proof {
        lemma_numbers_are_ordered();
    }
    let mut m: BTreeMap<u64, IssueState> = BTreeMap::new();
    let mut i: usize = 0;
    while i < issues.len()
        invariant
            i <= issues@.len(),
            numbers_are_ordered(),
            tracks_states(m@, issues@.take(i as int)),
        decreases issues@.len() - i,
    {
        let issue = &issues[i];
        let ghost before = m@;
        m.insert(issue.number, issue.state);
        proof {
            let t = issues@.take(i + 1);
            assert(t.drop_last() == issues@.take(i as int));
            assert(t.last() == issues@[i as int]);
            assert forall|n: u64| #![trigger m@.contains_key(n)] #![trigger known_state(t, n)]
                (m@.contains_key(n) <==> known_state(t, n) is Some)
                    && (m@.contains_key(n) ==> known_state(t, n) == Some(m@[n])) by {
                assert(known_state(issues@.take(i as int), n) is Some <==> before.contains_key(n));
            }
        }
        i = i + 1;
    }
    assert(issues@.take(issues@.len() as int) == issues@);
    m
}

/// The state `issues` give to `number`, looked up in their table.
pub(crate) fn state_in(states: &BTreeMap<u64, IssueState>, number: u64, Ghost(issues): Ghost<Seq<RawIssue>>) -> (r: Option<IssueState>)
    requires
        tracks_states(states@, issues),
    ensures
        r == known_state(issues, number),
{
    proof {
        lemma_numbers_are_ordered();
    }
    match states.get(&number) {
        Some(s) => Some(*s),
        None => None,
    }
}

} // verus!
