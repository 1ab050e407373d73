use indexmap::IndexMap;
use vstd::prelude::*;
use crate::config::ConditionConfig;

verus! {

/// A declarative test of a pipeline: an input event and the conditions its
/// outputs must meet.
pub struct TestDefinition {
    pub name: String,
    pub input: TestInput,
    pub outputs: Vec<TestOutput>,
}

/// Where a test inserts its input, of which kind, and with what value.
pub struct TestInput {
    pub insert_at: String,
    pub type_str: String,
    pub value: Option<String>,
}

impl TestInput {
    /// An input whose kind is `type_str` where given, else the default.
    pub fn new(insert_at: String, type_str: Option<String>, value: Option<String>) -> (r: TestInput)
        ensures
            r.insert_at@ == insert_at@,
            type_str matches Some(t) ==> r.type_str@ == t@,
            type_str is None ==> r.type_str@ == "raw"@,
            r.value == value,
    {
        let type_str = match type_str {
            Some(t) => t,
            None => crate::default_input_type(),
        };
        TestInput { insert_at, type_str, value }
    }
}

/// A condition of a test output: the name of a configured condition, or one
/// written in place.
pub enum TestCondition {
    String(String),
    Embedded(ConditionConfig),
}

/// The component an output is taken from, and the conditions it must meet.
pub struct TestOutput {
    pub extract_from: String,
    pub conditions: IndexMap<String, TestCondition>,
}

/// The arguments of the `test` command.
pub struct Opts {
    pub target: String,
}

} // verus!
