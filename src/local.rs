use vstd::prelude::*;

use crate::types::{EntityId, MouseButton};

verus! {

/// Restricts which buttons can turn a hover of an entity into a press.
#[derive(Clone, Debug)]
pub struct ButtonFilter(pub Vec<MouseButton>);

impl ButtonFilter {
    /// A filter that lets exactly the given buttons press.
    pub fn new(buttons: Vec<MouseButton>) -> (r: ButtonFilter)
        ensures
            r.0@ == buttons@,
    {
        ButtonFilter(buttons)
    }

    /// Whether `btn` may press an entity with this filter.
    pub fn contains(&self, btn: MouseButton) -> (r: bool)
        ensures
            r == self.0@.contains(btn),
    {
        let mut i: usize = 0;
        while i < self.0.len()
            invariant
                0 <= i <= self.0@.len(),
                forall|k: int| 0 <= k < i ==> self.0@[k] != btn,
            decreases self.0.len() - i,
        {
            if self.0[i] == btn {
                assert(self.0@[i as int] == btn);
                return true;
            }
            i = i + 1;
        }
        false
    }
}

/// The filter attached to `e`: the first entry for `e`, if any.
pub open spec fn filter_of(filters: Seq<(EntityId, ButtonFilter)>, e: EntityId) -> Option<ButtonFilter>
    decreases filters.len(),
{
    if filters.len() == 0 {
        None
    } else if filters[0].0 == e {
        Some(filters[0].1)
    } else {
        filter_of(filters.drop_first(), e)
    }
}

/// `btn` may press `e`: it has no filter, or its filter holds `btn`.
pub open spec fn permits(filters: Seq<(EntityId, ButtonFilter)>, e: EntityId, btn: MouseButton) -> bool {
    match filter_of(filters, e) {
        None => true,
        Some(f) => f.0@.contains(btn),
    }
}

/// Whether `btn` may press `e` under the filters attached to entities.
pub fn filter_permits(filters: &Vec<(EntityId, ButtonFilter)>, e: EntityId, btn: MouseButton) -> (r:
    bool)
    ensures
        r == permits(filters@, e, btn),
{
    let mut i: usize = 0;
    assert(filters@.skip(0) == filters@);
    while i < filters.len()
        invariant
            0 <= i <= filters@.len(),
            filter_of(filters@, e) == filter_of(filters@.skip(i as int), e),
        decreases filters.len() - i,
    {
        assert(filters@.skip(i as int).drop_first() == filters@.skip(i + 1));
        if filters[i].0 == e {
            return filters[i].1.contains(btn);
        }
        i = i + 1;
    }
    assert(filters@.skip(i as int).len() == 0);
    true
}

} // verus!
