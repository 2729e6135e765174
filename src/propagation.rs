use vstd::prelude::*;

use std::collections::HashMap;

use crate::machine::{EntityPickingState, PickingStateMachine};
use crate::transitions::PickingTransition;
use crate::types::EntityId;

verus! {

broadcast use vstd::std_specs::hash::group_hash_axioms;

/// Which further entities count as active along with the active one, for
/// `PropagatedPickingStateMachine`. It does not affect anything else.
#[derive(Clone, Copy, Debug, PartialEq, Eq, Structural)]
pub enum PickingPropagation {
    /// The same as having no policy: propagate to descendants.
    PropagateDown,
    /// Propagate to `x` parent entities and all their descendants.
    PropagateUp(usize),
    /// Propagate to `x` parent entities, and to **this** entity's descendants.
    AndPropagateUp(usize),
    /// Propagate neither to parents nor to descendants.
    NoPropagation,
}

impl Default for PickingPropagation {
    fn default() -> (r: Self)
        ensures
            r == PickingPropagation::PropagateDown,
    {
        PickingPropagation::PropagateDown
    }
}

/// The `k`-th ancestor of `e` under the parent links `p` (the 0-th is `e`
/// itself), if the chain is that long.
pub open spec fn ancestor(p: Map<u64, u64>, e: u64, k: nat) -> Option<u64>
    decreases k,
{
    if k == 0 {
        Some(e)
    } else {
        match ancestor(p, e, (k - 1) as nat) {
            Some(a) => if p.contains_key(a) {
                Some(p[a])
            } else {
                None
            },
            None => None,
        }
    }
}

/// `a` is a strict ancestor of `e`. The walk is bounded by the number of
/// parent links, which no chain of a forest exceeds.
pub open spec fn has_ancestor(p: Map<u64, u64>, e: u64, a: u64) -> bool {
    exists|k: nat| 1 <= k <= p.len() && #[trigger] ancestor(p, e, k) == Some(a)
}

/// The `n`-th ancestor of `e`, or the root of its chain if that is nearer.
pub open spec fn climb(p: Map<u64, u64>, e: u64, n: nat) -> u64
    decreases n,
{
    if n == 0 {
        e
    } else {
        let r = climb(p, e, (n - 1) as nat);
        if p.contains_key(r) {
            p[r]
        } else {
            r
        }
    }
}

/// `to` is one of the first `n` ancestors of `e`.
pub open spec fn among_ancestors(p: Map<u64, u64>, e: u64, to: u64, n: nat) -> bool {
    exists|k: nat| 1 <= k <= n && #[trigger] ancestor(p, e, k) == Some(to)
}

/// The policy attached to `e`, `PropagateDown` without one.
pub open spec fn policy_of(policies: Map<u64, PickingPropagation>, e: u64) -> PickingPropagation {
    if policies.contains_key(e) {
        policies[e]
    } else {
        PickingPropagation::PropagateDown
    }
}

/// Events of `active` are visible from `to`.
pub open spec fn equivalent(
    p: Map<u64, u64>,
    policies: Map<u64, PickingPropagation>,
    active: EntityId,
    to: EntityId,
) -> bool {
    if active == to {
        true
    } else {
        match policy_of(policies, active.0) {
            PickingPropagation::NoPropagation => false,
            PickingPropagation::PropagateDown => has_ancestor(p, to.0, active.0),
            PickingPropagation::PropagateUp(n) => has_ancestor(p, to.0, active.0) || has_ancestor(
                p,
                to.0,
                climb(p, active.0, n as nat),
            ),
            PickingPropagation::AndPropagateUp(n) => has_ancestor(p, to.0, active.0)
                || among_ancestors(p, active.0, to.0, n as nat),
        }
    }
}

/// The first event of `s` whose entity's events are visible from `to`.
pub open spec fn first_equivalent(
    p: Map<u64, u64>,
    policies: Map<u64, PickingPropagation>,
    s: Seq<PickingTransition>,
    to: EntityId,
) -> Option<PickingTransition>
    decreases s.len(),
{
    if s.len() == 0 {
        None
    } else if equivalent(p, policies, s[0].target(), to) {
        Some(s[0])
    } else {
        first_equivalent(p, policies, s.drop_first(), to)
    }
}

/// Once a chain has ended it stays ended.
proof fn lemma_ancestor_ended(p: Map<u64, u64>, e: u64, i: nat, k: nat)
    requires
        i <= k,
        ancestor(p, e, i) is None,
    ensures
        ancestor(p, e, k) is None,
    decreases k - i,
{
    if i < k {
        lemma_ancestor_ended(p, e, i, (k - 1) as nat);
    }
}

/// Once the climb has reached a root it stays there.
proof fn lemma_climb_stuck(p: Map<u64, u64>, e: u64, i: nat, n: nat)
    requires
        i <= n,
        !p.contains_key(climb(p, e, i)),
    ensures
        climb(p, e, n) == climb(p, e, i),
    decreases n - i,
{
    if i < n {
        lemma_climb_stuck(p, e, i, (n - 1) as nat);
    }
}

/// Chains agree from two steps that reach the same entity onwards.
proof fn lemma_ancestor_shift(p: Map<u64, u64>, e: u64, i: nat, j: nat, t: nat)
    requires
        ancestor(p, e, i) == ancestor(p, e, j),
    ensures
        ancestor(p, e, i + t) == ancestor(p, e, j + t),
    decreases t,
{
    if t > 0 {
        lemma_ancestor_shift(p, e, i, j, (t - 1) as nat);
        assert((i + t - 1) as nat == (i + (t - 1)) as nat);
        assert((j + t - 1) as nat == (j + (t - 1)) as nat);
    }
}

/// Every step before one that exists exists too, and has a parent.
proof fn lemma_chain_prefix(p: Map<u64, u64>, e: u64, i: nat, k: nat)
    requires
        i < k,
        ancestor(p, e, k) is Some,
    ensures
        ancestor(p, e, i) is Some,
        p.contains_key(ancestor(p, e, i)->0),
{
    if ancestor(p, e, i + 1) is None {
        lemma_ancestor_ended(p, e, i + 1, k);
    }
    assert(((i + 1) - 1) as nat == i);
}

/// An ancestor at any distance is reached within as many steps as there are
/// parent links: a longer chain passes an entity twice and can be shortened.
pub proof fn lemma_ancestor_within_bound(p: Map<u64, u64>, e: u64, a: u64, k: nat)
    requires
        p.dom().finite(),
        1 <= k,
        ancestor(p, e, k) == Some(a),
    ensures
        has_ancestor(p, e, a),
    decreases k,
{
    if k <= p.len() {
        assert(ancestor(p, e, k) == Some(a));
    } else {
        let s = Seq::new(k, |i: int| ancestor(p, e, i as nat)->0);
        if s.no_duplicates() {
            s.unique_seq_to_set();
            assert forall|x: u64| s.to_set().contains(x) implies p.dom().contains(x) by {
                assert(s.contains(x));
                let i = choose|i: int| 0 <= i < s.len() && s[i] == x;
                lemma_chain_prefix(p, e, i as nat, k);
            }
            vstd::set_lib::lemma_len_subset(s.to_set(), p.dom());
            assert(false);
        } else {
            let (i, j) = choose|i: int, j: int|
                0 <= i < s.len() && 0 <= j < s.len() && i != j && s[i] == s[j];
            let lo: nat = if i < j { i as nat } else { j as nat };
            let hi: nat = if i < j { j as nat } else { i as nat };
            lemma_chain_prefix(p, e, lo, k);
            lemma_chain_prefix(p, e, hi, k);
            assert(s[lo as int] == s[hi as int]);
            assert(ancestor(p, e, lo) == ancestor(p, e, hi));
            lemma_ancestor_shift(p, e, lo, hi, (k - hi) as nat);
            assert(hi + (k - hi) as nat == k);
            lemma_ancestor_within_bound(p, e, a, lo + (k - hi) as nat);
        }
    }
}

/// With `PropagateUp(1)` on `active`, whose parent is `parent`, the events of
/// `active` are visible from `active`, from its descendants and from the
/// descendants of `parent` at any depth, and from nothing else: not from
/// another subtree.
pub proof fn lemma_propagate_up_one(
    p: Map<u64, u64>,
    policies: Map<u64, PickingPropagation>,
    active: EntityId,
    parent: EntityId,
    to: EntityId,
)
    requires
        policies.contains_key(active.0),
        policies[active.0] == PickingPropagation::PropagateUp(1),
        p.dom().finite(),
        p.contains_key(active.0),
        p[active.0] == parent.0,
    ensures
        equivalent(p, policies, active, to) <==> to == active || has_ancestor(p, to.0, active.0)
            || has_ancestor(p, to.0, parent.0),
        forall|k: nat|
            1 <= k && #[trigger] ancestor(p, to.0, k) == Some(parent.0) ==> equivalent(
                p,
                policies,
                active,
                to,
            ),
{
    assert(climb(p, active.0, 0) == active.0);
    assert(climb(p, active.0, 1) == parent.0);
    assert forall|k: nat|
        1 <= k && #[trigger] ancestor(p, to.0, k) == Some(parent.0) implies equivalent(
        p,
        policies,
        active,
        to,
    ) by {
        lemma_ancestor_within_bound(p, to.0, parent.0, k);
    }
}

/// Whether `a` is a strict ancestor of `e` (see `has_ancestor`).
fn chain_contains(parents: &HashMap<u64, u64>, e: u64, a: u64) -> (r: bool)
    ensures
        r == has_ancestor(parents@, e, a),
{
    let bound = parents.len();
    let mut current = e;
    let mut k: usize = 0;
    while k < bound
        invariant
            bound == parents@.len(),
            0 <= k <= bound,
            ancestor(parents@, e, k as nat) == Some(current),
            forall|j: nat| 1 <= j <= k ==> #[trigger] ancestor(parents@, e, j) != Some(a),
        decreases bound - k,
    {
        match parents.get(&current) {
            Some(q) => {
                let q = *q;
                assert(ancestor(parents@, e, (k + 1) as nat) == Some(q));
                if q == a {
                    return true;
                }
                current = q;
                k = k + 1;
            },
            None => {
                assert(ancestor(parents@, e, (k + 1) as nat) is None);
                assert forall|j: nat| 1 <= j <= bound implies #[trigger] ancestor(parents@, e, j)
                    != Some(a) by {
                    if j > k {
                        lemma_ancestor_ended(parents@, e, (k + 1) as nat, j);
                    }
                }
                return false;
            },
        }
    }
    false
}

/// The `n`-th ancestor of `e`, or the root of its chain if that is nearer.
fn climb_up(parents: &HashMap<u64, u64>, e: u64, n: usize) -> (r: u64)
    ensures
        r == climb(parents@, e, n as nat),
{
    let mut root = e;
    let mut i: usize = 0;
    while i < n
        invariant
            0 <= i <= n,
            root == climb(parents@, e, i as nat),
        decreases n - i,
    {
        match parents.get(&root) {
            Some(q) => {
                root = *q;
            },
            None => {
                proof {
                    lemma_climb_stuck(parents@, e, i as nat, n as nat);
                }
                return root;
            },
        }
        i = i + 1;
    }
    root
}

/// Whether `to` is one of the first `n` ancestors of `e`.
fn up_within(parents: &HashMap<u64, u64>, e: u64, to: u64, n: usize) -> (r: bool)
    ensures
        r == among_ancestors(parents@, e, to, n as nat),
{
    let mut current = e;
    let mut i: usize = 0;
    while i < n
        invariant
            0 <= i <= n,
            ancestor(parents@, e, i as nat) == Some(current),
            forall|j: nat| 1 <= j <= i ==> #[trigger] ancestor(parents@, e, j) != Some(to),
        decreases n - i,
    {
        match parents.get(&current) {
            Some(q) => {
                current = *q;
                assert(ancestor(parents@, e, (i + 1) as nat) == Some(current));
                if current == to {
                    return true;
                }
            },
            None => {
                assert(ancestor(parents@, e, (i + 1) as nat) is None);
                assert forall|j: nat| 1 <= j <= n implies #[trigger] ancestor(parents@, e, j)
                    != Some(to) by {
                    if j > i {
                        lemma_ancestor_ended(parents@, e, (i + 1) as nat, j);
                    }
                }
                return false;
            },
        }
        i = i + 1;
    }
    false
}

/// Reads the machine through the entity hierarchy: `parents` maps an entity
/// to its parent, `propagation` holds the policies attached to entities.
pub struct PropagatedPickingStateMachine<'a> {
    pub state_machine: &'a PickingStateMachine,
    pub parents: &'a HashMap<u64, u64>,
    pub propagation: &'a HashMap<u64, PickingPropagation>,
}

impl<'a> PropagatedPickingStateMachine<'a> {
    pub open spec fn equivalent_spec(&self, active: EntityId, to: EntityId) -> bool {
        equivalent(self.parents@, self.propagation@, active, to)
    }

    /// Whether events of `active` are visible from `to`.
    pub fn entity_equivalent(&self, active: EntityId, to: EntityId) -> (r: bool)
        ensures
            r == self.equivalent_spec(active, to),
    {
        if active.0 == to.0 {
            return true;
        }
        let policy = match self.propagation.get(&active.0) {
            Some(p) => *p,
            None => PickingPropagation::PropagateDown,
        };
        match policy {
            PickingPropagation::NoPropagation => false,
            PickingPropagation::PropagateDown => chain_contains(self.parents, to.0, active.0),
            PickingPropagation::PropagateUp(count) => {
                let root = climb_up(self.parents, active.0, count);
                chain_contains(self.parents, to.0, active.0) || chain_contains(
                    self.parents,
                    to.0,
                    root,
                )
            },
            PickingPropagation::AndPropagateUp(count) => {
                chain_contains(self.parents, to.0, active.0) || up_within(
                    self.parents,
                    active.0,
                    to.0,
                    count,
                )
            },
        }
    }

    /// The state of `entity`: that of the active entity where its events are
    /// visible from `entity`, `Idle` otherwise.
    pub fn get_state(&self, entity: EntityId) -> (r: EntityPickingState)
        ensures
            r == match self.state_machine.current.active() {
                Some(a) => if self.equivalent_spec(a, entity) {
                    self.state_machine.current.projection()
                } else {
                    EntityPickingState::Idle
                },
                None => EntityPickingState::Idle,
            },
    {
        match self.state_machine.get_active_entity() {
            None => EntityPickingState::Idle,
            Some(active) => {
                if self.entity_equivalent(active, entity) {
                    self.state_machine.active_state()
                } else {
                    EntityPickingState::Idle
                }
            },
        }
    }

    /// The first transition of this frame whose entity's events are visible
    /// from `entity`.
    pub fn get_transition(&self, entity: EntityId) -> (r: Option<PickingTransition>)
        ensures
            r == first_equivalent(
                self.parents@,
                self.propagation@,
                self.state_machine.transitions@,
                entity,
            ),
    {
        let events = self.state_machine.transitions.iter();
        let ghost s = self.state_machine.transitions@;
        let mut i: usize = 0;
        assert(s.skip(0) == s);
        while i < events.len()
            invariant
                events@ == s,
                s == self.state_machine.transitions@,
                0 <= i <= s.len(),
                first_equivalent(self.parents@, self.propagation@, s, entity) == first_equivalent(
                    self.parents@,
                    self.propagation@,
                    s.skip(i as int),
                    entity,
                ),
            decreases events.len() - i,
        {
            assert(s.skip(i as int).drop_first() == s.skip(i + 1));
            let t = events[i];
            assert(s.skip(i as int)[0] == t);
            if self.entity_equivalent(t.entity(), entity) {
                return Some(t);
            }
            i = i + 1;
        }
        assert(s.skip(i as int).len() == 0);
        None
    }
}

} // verus!
