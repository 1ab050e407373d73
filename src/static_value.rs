use vstd::prelude::*;
use crate::condition::Condition;
use crate::event::{Event, EventView};

verus! {

/// The `static` kind: a condition whose verdict is fixed by its configuration.
#[derive(Clone, Debug)]
pub struct StaticConfig {
    pub value: bool,
}

impl StaticConfig {
    pub fn new(v: bool) -> (r: Self)
        ensures
            r.value == v,
    {
        Self { value: v }
    }
}

impl Condition for StaticConfig {
    open spec fn holds(&self, e: EventView) -> bool {
        self.value
    }

    fn check(&self, e: &Event) -> (r: bool) {
        self.value
    }
}

} // verus!
