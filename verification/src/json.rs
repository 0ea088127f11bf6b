//! The JSON values that the site's API answers with, as the source reads them.
use vstd::prelude::*;
use crate::text::opt_text;

verus! {

/// A JSON number, as the source reads it.
#[derive(Debug)]
pub struct JsonNumber {
    /// The number as an `i64`, when it is an integer in `i64`'s range (`as_i64`).
    pub int: Option<i64>,
    /// The bit pattern of the number as an `f64` (`as_f64`).
    pub float_bits: u64,
}

/// A JSON value. An object keeps its members in order; a key occurs once.
#[derive(Debug)]
pub enum Json {
    Null,
    Bool(bool),
    Number(JsonNumber),
    Str(String),
    Array(Vec<Json>),
    Object(Vec<(String, Json)>),
}

/// The value of the first member named `key` among `members`.
pub open spec fn member(members: Seq<(String, Json)>, key: Seq<char>) -> Option<Json>
    decreases members.len(),
{
    if members.len() == 0 {
        None
    } else if members[0].0@ == key {
        Some(members[0].1)
    } else {
        member(members.drop_first(), key)
    }
}

impl Json {
    /// The member `key` of an object (`Value::get` with a string index).
    pub open spec fn field(self, key: Seq<char>) -> Option<Json> {
        match self {
            Json::Object(members) => member(members@, key),
            _ => None,
        }
    }

    /// The items of an array (`Value::as_array`).
    pub open spec fn array_items(self) -> Option<Seq<Json>> {
        match self {
            Json::Array(items) => Some(items@),
            _ => None,
        }
    }

    /// The text of a string (`Value::as_str`).
    pub open spec fn text(self) -> Option<Seq<char>> {
        match self {
            Json::Str(s) => Some(s@),
            _ => None,
        }
    }

    /// The integer of a number (`Value::as_i64`).
    pub open spec fn integer(self) -> Option<i64> {
        match self {
            Json::Number(n) => n.int,
            _ => None,
        }
    }

    /// The `f64` bits of a number (`Value::as_f64`).
    pub open spec fn number_bits(self) -> Option<u64> {
        match self {
            Json::Number(n) => Some(n.float_bits),
            _ => None,
        }
    }

    /// Whether the value is an object (`Value::as_object` gives `Some`).
    pub open spec fn is_object(self) -> bool {
        self is Object
    }

    /// The member `key` of an object.
    pub fn get(&self, key: &str) -> (r: Option<&Json>)
        ensures
            match r {
                Some(v) => self.field(key@) == Some(*v),
                None => self.field(key@) is None,
            },
    {
        match self {
            Json::Object(members) => {
                let k = String::from_str(key);
                let mut i: usize = 0;
                assert(members@.skip(0) =~= members@);
                while i < members.len()
                    invariant
                        i <= members@.len(),
                        k@ == key@,
                        self.field(key@) == member(members@, key@),
                        member(members@, key@) == member(members@.skip(i as int), key@),
                    decreases members.len() - i,
                {
                    assert(members@.skip(i as int)[0] == members@[i as int]);
                    let same = members[i].0.eq(&k);
                    if same {
                        assert(members@[i as int].0@ == key@);
                        return Some(&members[i].1);
                    }
                    assert(members@.skip(i as int).drop_first() =~= members@.skip(i + 1));
                    i = i + 1;
                }
                None
            },
            _ => None,
        }
    }

    /// The items of an array.
    pub fn as_array(&self) -> (r: Option<&Vec<Json>>)
        ensures
            match r {
                Some(v) => self.array_items() == Some(v@),
                None => self.array_items() is None,
            },
    {
        match self {
            Json::Array(items) => Some(items),
            _ => None,
        }
    }

    /// The text of a string.
    pub fn as_str(&self) -> (r: Option<&String>)
        ensures
            match r {
                Some(s) => self.text() == Some(s@),
                None => self.text() is None,
            },
    {
        match self {
            Json::Str(s) => Some(s),
            _ => None,
        }
    }

    /// The integer of a number.
    pub fn as_i64(&self) -> (r: Option<i64>)
        ensures
            r == self.integer(),
    {
        match self {
            Json::Number(n) => n.int,
            _ => None,
        }
    }

    /// The `f64` bits of a number.
    pub fn as_f64_bits(&self) -> (r: Option<u64>)
        ensures
            r == self.number_bits(),
    {
        match self {
            Json::Number(n) => Some(n.float_bits),
            _ => None,
        }
    }

    /// Whether the value is an object.
    pub fn is_object_exec(&self) -> (b: bool)
        ensures
            b == self.is_object(),
    {
        match self {
            Json::Object(_) => true,
            _ => false,
        }
    }
}

/// The member `key` of `v`, when `v` is present.
pub open spec fn field_of(v: Option<Json>, key: Seq<char>) -> Option<Json> {
    match v {
        Some(j) => j.field(key),
        None => None,
    }
}

/// The text of `v`, or the empty text (`and_then(as_str).unwrap_or_default()`).
pub open spec fn text_or_empty(v: Option<Json>) -> Seq<char> {
    match v {
        Some(j) => match j.text() {
            Some(t) => t,
            None => Seq::empty(),
        },
        None => Seq::empty(),
    }
}

/// `a.or_else(|| b)`.
pub open spec fn first_present(a: Option<Json>, b: Option<Json>) -> Option<Json> {
    match a {
        Some(v) => Some(v),
        None => b,
    }
}

/// The objects among `items`, in order.
pub open spec fn objects(items: Seq<Json>) -> Seq<Json>
    decreases items.len(),
{
    if items.len() == 0 {
        Seq::empty()
    } else if items.last().is_object() {
        objects(items.drop_last()).push(items.last())
    } else {
        objects(items.drop_last())
    }
}

/// The text of an optional string reference, or the empty text.
pub fn text_or_empty_exec(v: Option<&Json>) -> (s: String)
    ensures
        s@ == text_or_empty(match v {
            Some(j) => Some(*j),
            None => None,
        }),
{
    match v {
        Some(j) => match j.as_str() {
            Some(t) => t.clone(),
            None => String::new(),
        },
        None => String::new(),
    }
}

// ---------------------------------------------------------------------------
// serde_json
// ---------------------------------------------------------------------------

/// What `serde_json::from_str::<serde_json::Value>` makes of `text`, read as a
/// top-level array of which the string items are kept: `None` when `text` is
/// not JSON, `Some(None)` when it is JSON but not an array, and otherwise, for
/// each item, its text when it is a string.
pub uninterp spec fn json_string_items(text: Seq<char>) -> Option<Option<Seq<Option<Seq<char>>>>>;

/// Calls `serde_json::from_str::<serde_json::Value>` and reads the top-level
/// array; claims only that the result is the one named by `json_string_items`.
#[verifier::external_body]
pub(crate) fn parse_string_items(text: &str) -> (r: Option<Option<Vec<Option<String>>>>)
    ensures
        match r {
            None => json_string_items(text@) is None,
            Some(None) => json_string_items(text@) == Some(None::<Seq<Option<Seq<char>>>>),
            Some(Some(v)) => json_string_items(text@) == Some(
                Some(v@.map_values(|o: Option<String>| opt_text(o))),
            ),
        },
{
    match serde_json::from_str::<serde_json::Value>(text) {
        Ok(serde_json::Value::Array(items)) => Some(
            Some(
                items.into_iter().map(
                    |v| match v {
                        serde_json::Value::String(s) => Some(s),
                        _ => None,
                    },
                ).collect(),
            ),
        ),
        Ok(_) => Some(None),
        Err(_) => None,
    }
}

} // verus!
