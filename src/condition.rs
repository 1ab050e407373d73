use vstd::prelude::*;
use crate::check_fields::{all_match, CheckFields};
use crate::event::{Event, EventView};
use crate::not::Not;
use crate::static_value::StaticConfig;

verus! {

/// A predicate over events. Checking is total: it never fails.
pub trait Condition {
    spec fn holds(&self, e: EventView) -> bool;

    fn check(&self, e: &Event) -> (r: bool)
        ensures
            r == self.holds(e@),
    ;
}

/// The built condition of one of the registered kinds.
pub enum ConditionKind {
    Static(StaticConfig),
    Not(Not),
    CheckFields(CheckFields),
}

/// A built condition of any kind.
pub struct BoxCondition {
    pub inner: Box<ConditionKind>,
}

/// Whether condition `c` holds of an event.
pub open spec fn condition_holds(c: BoxCondition, e: EventView) -> bool
    decreases c,
{
    match *c.inner {
        ConditionKind::Static(s) => s.value,
        ConditionKind::Not(n) => !condition_holds(*n.child, e),
        ConditionKind::CheckFields(f) => all_match(f.predicates@, e),
    }
}

impl Condition for BoxCondition {
    open spec fn holds(&self, e: EventView) -> bool {
        condition_holds(*self, e)
    }

    fn check(&self, e: &Event) -> (r: bool)
        decreases *self,
    {
        match &*self.inner {
            ConditionKind::Static(s) => s.check(e),
            ConditionKind::Not(n) => !n.child.check(e),
            ConditionKind::CheckFields(f) => f.check(e),
        }
    }
}

impl BoxCondition {
    pub fn from_static(c: StaticConfig) -> (r: BoxCondition)
        ensures
            *r.inner == ConditionKind::Static(c),
    {
        BoxCondition { inner: Box::new(ConditionKind::Static(c)) }
    }

    pub fn from_not(c: Not) -> (r: BoxCondition)
        ensures
            *r.inner == ConditionKind::Not(c),
    {
        BoxCondition { inner: Box::new(ConditionKind::Not(c)) }
    }

    pub fn from_check_fields(c: CheckFields) -> (r: BoxCondition)
        ensures
            *r.inner == ConditionKind::CheckFields(c),
    {
        BoxCondition { inner: Box::new(ConditionKind::CheckFields(c)) }
    }
}

} // verus!
