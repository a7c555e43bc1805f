//! Structured payloads.
use vstd::prelude::*;

use crate::text::same;

verus! {

/// A structured value as it travels in events and messages.
#[derive(Debug)]
pub enum Value {
    /// Nothing.
    Null,
    /// A truth value.
    Bool(bool),
    /// A number that is not negative.
    Unsigned(u64),
    /// A negative number.
    Negative(i64),
    /// A number with a fraction, by its bits.
    Fraction(u64),
    /// A text.
    Text(String),
    /// A list.
    List(Vec<Value>),
    /// Named values.
    Object(Vec<(String, Value)>),
}

/// The position of the first entry with the given name, at or after `from`.
pub open spec fn entry_from(entries: Seq<(String, Value)>, name: Seq<char>, from: int) -> Option<int>
    decreases entries.len() - from,
{
    if from < 0 || from >= entries.len() {
        None
    } else if entries[from].0@ == name {
        Some(from)
    } else {
        entry_from(entries, name, from + 1)
    }
}

impl Value {
    /// The value under a name; only objects have any.
    pub open spec fn field(self, name: Seq<char>) -> Option<Value> {
        match self {
            Value::Object(entries) => match entry_from(entries@, name, 0) {
                Some(i) => Some(entries@[i].1),
                None => None,
            },
            _ => None,
        }
    }

    /// The characters of a text; other values have none.
    pub open spec fn chars(self) -> Option<Seq<char>> {
        match self {
            Value::Text(text) => Some(text@),
            _ => None,
        }
    }

    /// The value under a name.
    pub fn get(&self, name: &str) -> (r: Option<&Value>)
        ensures
            match r {
                Some(v) => self.field(name@) == Some(*v),
                None => self.field(name@) is None,
            },
    {
        match self {
            Value::Object(entries) => {
                let mut i: usize = 0;
                while i < entries.len()
                    invariant
                        i <= entries@.len(),
                        *self == Value::Object(*entries),
                        entry_from(entries@, name@, 0) == entry_from(entries@, name@, i as int),
                    decreases entries@.len() - i,
                {
                    if same(entries[i].0.as_str(), name) {
                        return Some(&entries[i].1);
                    }
                    i += 1;
                }
                None
            },
            _ => None,
        }
    }

    /// The text that the value is.
    pub fn as_str(&self) -> (r: Option<&str>)
        ensures
            match r {
                Some(text) => self.chars() == Some(text@),
                None => self.chars() is None,
            },
    {
        match self {
            Value::Text(text) => Some(text.as_str()),
            _ => None,
        }
    }

    /// The number that the value is, where it is not negative.
    pub fn as_u64(&self) -> (r: Option<u64>)
        ensures
            r == match *self {
                Value::Unsigned(n) => Some(n),
                _ => None,
            },
    {
        match self {
            Value::Unsigned(n) => Some(*n),
            _ => None,
        }
    }
}

proof fn lemma_entry(entries: Seq<(String, Value)>, name: Seq<char>, from: int, i: int)
    requires
        0 <= from <= i < entries.len(),
        entries[i].0@ == name,
        forall|j: int| from <= j < i ==> (#[trigger] entries[j]).0@ != name,
    ensures
        entry_from(entries, name, from) == Some(i),
    decreases i - from,
{
    if from < i {
        assert(entries[from].0@ != name);
        lemma_entry(entries, name, from + 1, i);
    }
}

proof fn lemma_no_entry(entries: Seq<(String, Value)>, name: Seq<char>, from: int)
    requires
        0 <= from,
        forall|j: int| from <= j < entries.len() ==> (#[trigger] entries[j]).0@ != name,
    ensures
        entry_from(entries, name, from) is None,
    decreases entries.len() - from,
{
    if from < entries.len() {
        assert(entries[from].0@ != name);
        lemma_no_entry(entries, name, from + 1);
    }
}

/// A value under a name is the first one of an object with that name; what is no
/// object has none.
pub proof fn law_first_entry_counts(
    entries: Vec<(String, Value)>,
    name: &str,
    i: int,
    r: Option<&Value>,
    other: Value,
    s: Option<&Value>,
)
    requires
        call_ensures(Value::get, (&Value::Object(entries), name), r),
        call_ensures(Value::get, (&other, name), s),
        !(other is Object),
    ensures
        0 <= i < entries@.len() && entries@[i].0@ == name@ && (forall|j: int|
            0 <= j < i ==> (#[trigger] entries@[j]).0@ != name@) ==> r == Some(&entries@[i].1),
        (forall|j: int| 0 <= j < entries@.len() ==> (#[trigger] entries@[j]).0@ != name@)
            ==> r is None,
        s is None,
{
    if 0 <= i < entries@.len() && entries@[i].0@ == name@ && (forall|j: int|
        0 <= j < i ==> (#[trigger] entries@[j]).0@ != name@) {
        lemma_entry(entries@, name@, 0, i);
    }
    if forall|j: int| 0 <= j < entries@.len() ==> (#[trigger] entries@[j]).0@ != name@ {
        lemma_no_entry(entries@, name@, 0);
    }
}

/// Only a text is read as a text, and only a number that is not negative as one.
pub proof fn law_values_are_read_as_they_are(value: Value, text: Option<&str>, number: Option<u64>)
    requires
        call_ensures(Value::as_str, (&value,), text),
        call_ensures(Value::as_u64, (&value,), number),
    ensures
        text is Some <==> value is Text,
        value matches Value::Text(t) ==> text is Some && text->0@ == t@,
        number is Some <==> value is Unsigned,
        value matches Value::Unsigned(n) ==> number == Some(n),
{
}

} // verus!
