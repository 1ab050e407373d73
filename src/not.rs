use std::sync::Arc;
use indexmap::IndexMap;
use vstd::prelude::*;
use crate::condition::{condition_holds, BoxCondition, Condition, ConditionKind};
use crate::error::ConditionError;
use crate::event::{Event, EventView};
use crate::maps::{get_sibling, sibling_map};
use crate::static_value::StaticConfig;

verus! {

/// The configuration of the `not` kind: the name of the condition it negates.
pub struct NotConfig {
    pub child: String,
}

/// The `not` kind: holds exactly when its child does not. Until `init` the
/// child is a placeholder that never holds.
pub struct Not {
    pub child_name: String,
    pub child: Arc<BoxCondition>,
}

impl NotConfig {
    pub fn new(child: String) -> (r: NotConfig)
        ensures
            r.child@ == child@,
    {
        NotConfig { child }
    }

    /// A `not` condition that waits for its child to be resolved by name.
    pub fn build(&self) -> (r: Not)
        ensures
            r.child_name@ == self.child@,
            *r.child.inner == ConditionKind::Static(StaticConfig { value: false }),
    {
        Not {
            child_name: self.child.clone(),
            child: Arc::new(BoxCondition::from_static(StaticConfig::new(false))),
        }
    }
}

impl Not {
    /// Resolves the child by name among `siblings`; fails, leaving `self`
    /// as it was, where no sibling has that name.
    pub fn init(&mut self, siblings: &IndexMap<String, Arc<BoxCondition>>) -> (r: Result<(), ConditionError>)
        ensures
            final(self).child_name == old(self).child_name,
            r is Ok == sibling_map(*siblings).contains_key(old(self).child_name@),
            r is Ok ==> *final(self).child == sibling_map(*siblings)[old(self).child_name@],
            r matches Err(e) ==> e.message() == (ConditionError::SiblingNotFound(old(self).child_name)).message()
                && *final(self) == *old(self),
    {
        match get_sibling(siblings, self.child_name.as_str()) {
            Some(c) => {
                self.child = c.clone();
                Ok(())
            },
            None => Err(ConditionError::SiblingNotFound(self.child_name.clone())),
        }
    }
}

impl Condition for Not {
    open spec fn holds(&self, e: EventView) -> bool {
        !condition_holds(*self.child, e)
    }

    fn check(&self, e: &Event) -> (r: bool) {
        !self.child.check(e)
    }
}

/// A `not` whose child is a `static` condition holds exactly when that
/// condition's value is false, whatever the event.
pub proof fn lemma_not_of_static(n: Not, v: bool, e: EventView)
    requires
        *n.child.inner == ConditionKind::Static(StaticConfig { value: v }),
    ensures
        n.holds(e) == !v,
        condition_holds(BoxCondition { inner: Box::new(ConditionKind::Not(n)) }, e) == !v,
{
    let b = BoxCondition { inner: Box::new(ConditionKind::Not(n)) };
    assert(*b.inner == ConditionKind::Not(n));
    assert(condition_holds(*n.child, e) == v);
}

} // verus!
