use vstd::prelude::*;

verus! {

/// A scalar: the operand of a field predicate, a value of an event field, and
/// a value of a configuration entry.
///
/// A floating-point number is held as its IEEE 754 bit pattern.
#[derive(Clone, Debug)]
pub enum CheckFieldsPredicateArg {
    String(String),
    Integer(i64),
    Float(u64),
    Boolean(bool),
}

/// What a scalar holds, with text as its characters.
pub enum ArgView {
    String(Seq<char>),
    Integer(i64),
    Float(u64),
    Boolean(bool),
}

impl View for CheckFieldsPredicateArg {
    type V = ArgView;

    open spec fn view(&self) -> ArgView {
        match self {
            CheckFieldsPredicateArg::String(s) => ArgView::String(s@),
            CheckFieldsPredicateArg::Integer(i) => ArgView::Integer(*i),
            CheckFieldsPredicateArg::Float(f) => ArgView::Float(*f),
            CheckFieldsPredicateArg::Boolean(b) => ArgView::Boolean(*b),
        }
    }
}

impl CheckFieldsPredicateArg {
    /// A copy of the scalar.
    pub fn duplicate(&self) -> (r: CheckFieldsPredicateArg)
        ensures
            r@ == self@,
    {
        match self {
            CheckFieldsPredicateArg::String(s) => CheckFieldsPredicateArg::String(s.clone()),
            CheckFieldsPredicateArg::Integer(i) => CheckFieldsPredicateArg::Integer(*i),
            CheckFieldsPredicateArg::Float(f) => CheckFieldsPredicateArg::Float(*f),
            CheckFieldsPredicateArg::Boolean(b) => CheckFieldsPredicateArg::Boolean(*b),
        }
    }
}

/// The fields of an event, in insertion order; a later entry for a path
/// shadows an earlier one.
pub type EventView = Seq<(Seq<char>, ArgView)>;

/// A structured record addressed by dotted field paths.
pub struct Event {
    fields: Vec<(String, CheckFieldsPredicateArg)>,
}

/// The view of a field list: each path as its characters.
pub open spec fn fields_view(f: Seq<(String, CheckFieldsPredicateArg)>) -> EventView {
    f.map_values(|p: (String, CheckFieldsPredicateArg)| (p.0@, p.1@))
}

/// The value of the last field stored under `path`, if any.
pub open spec fn field_at(e: EventView, path: Seq<char>) -> Option<ArgView>
    decreases e.len(),
{
    if e.len() == 0 {
        None
    } else if e.last().0 == path {
        Some(e.last().1)
    } else {
        field_at(e.drop_last(), path)
    }
}

/// Whether two strings hold the same characters.
pub fn text_eq(a: &str, b: &str) -> (r: bool)
    ensures
        r == (a@ == b@),
{
    let n = a.unicode_len();
    if n != b.unicode_len() {
        return false;
    }
    let mut i: usize = 0;
    while i < n
        invariant
            n == a@.len(),
            n == b@.len(),
            i <= n,
            a@.subrange(0, i as int) == b@.subrange(0, i as int),
        decreases n - i,
    {
        if a.get_char(i) != b.get_char(i) {
            return false;
        }
        proof {
            assert(a@.subrange(0, i + 1) =~= a@.subrange(0, i as int).push(a@[i as int]));
            assert(b@.subrange(0, i + 1) =~= b@.subrange(0, i as int).push(b@[i as int]));
        }
        i = i + 1;
    }
    proof {
        assert(a@ =~= a@.subrange(0, n as int));
        assert(b@ =~= b@.subrange(0, n as int));
    }
    true
}

impl View for Event {
    type V = EventView;

    closed spec fn view(&self) -> EventView {
        fields_view(self.fields@)
    }
}

impl Event {
    /// An event with no fields.
    pub fn new() -> (r: Event)
        ensures
            r@ == Seq::<(Seq<char>, ArgView)>::empty(),
    {
        let r = Event { fields: Vec::new() };
        proof {
            assert(r@ =~= Seq::<(Seq<char>, ArgView)>::empty());
        }
        r
    }

    /// A log event whose `message` field holds `message`.
    pub fn from_message(message: &str) -> (r: Event)
        ensures
            r@.len() == 1,
            r@[0].0 == "message"@,
            r@[0].1 == ArgView::String(message@),
    {
        let mut r = Event::new();
        r.insert(String::from_str("message"), CheckFieldsPredicateArg::String(String::from_str(message)));
        r
    }

    /// Sets the field at `path` to `value`.
    pub fn insert(&mut self, path: String, value: CheckFieldsPredicateArg)
        ensures
            final(self)@ == old(self)@.push((path@, value@)),
    {
        self.fields.push((path, value));
        proof {
            assert(final(self)@ =~= old(self)@.push((path@, value@)));
        }
    }

    /// The value at `path`, or `None` where the event has no such field.
    pub fn get(&self, path: &str) -> (r: Option<&CheckFieldsPredicateArg>)
        ensures
            r matches Some(v) ==> field_at(self@, path@) == Some(v@),
            r is None ==> field_at(self@, path@) is None,
    {
        let mut i: usize = self.fields.len();
        proof {
            assert(self@.subrange(0, i as int) =~= self@);
        }
        while i > 0
            invariant
                i <= self.fields@.len(),
                field_at(self@, path@) == field_at(self@.subrange(0, i as int), path@),
            decreases i,
        {
            let entry = &self.fields[i - 1];
            proof {
                let s = self@.subrange(0, i as int);
                assert(s.drop_last() =~= self@.subrange(0, i - 1));
                assert(s.last() == self@[i - 1]);
                assert(self@[i - 1] == (entry.0@, entry.1@));
            }
            if text_eq(entry.0.as_str(), path) {
                return Some(&entry.1);
            }
            i = i - 1;
        }
        None
    }
}

} // verus!
