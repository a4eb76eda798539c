//! JSON values as the library sees them: numbers are kept as the text that
//! `serde_json` prints for them, objects as key/value lists without repeated keys.

use vstd::prelude::*;
use crate::text::{chars_of, eq_chars};

verus! {

/// A JSON value.
#[derive(Debug, PartialEq)]
pub enum JsonValue {
    Null,
    Bool(bool),
    /// A number, by its canonical text (`1`, `-2.5`, ...)
    Number(String),
    String(String),
    Array(Vec<JsonValue>),
    Object(Vec<(String, JsonValue)>),
}

/// The value stored under `key` in an object's entries (the last entry with that key).
pub open spec fn entry_value(entries: Seq<(String, JsonValue)>, key: Seq<char>) -> Option<JsonValue>
    decreases entries.len(),
{
    if entries.len() == 0 {
        None
    } else if entries.last().0@ == key {
        Some(entries.last().1)
    } else {
        entry_value(entries.drop_last(), key)
    }
}

/// The member `key` of `v`, when `v` is an object holding it.
pub open spec fn member(v: JsonValue, key: Seq<char>) -> Option<JsonValue> {
    match v {
        JsonValue::Object(entries) => entry_value(entries@, key),
        _ => None,
    }
}

/// The text of `v`, when `v` is a JSON string.
pub open spec fn as_text(v: Option<JsonValue>) -> Option<Seq<char>> {
    match v {
        Some(JsonValue::String(s)) => Some(s@),
        _ => None,
    }
}

impl JsonValue {
    /// The member `key` of an object (`Value::get` with a string key).
    pub fn get(&self, key: &str) -> (r: Option<&JsonValue>)
        ensures
            match r {
                Some(x) => member(*self, key@) == Some(*x),
                None => member(*self, key@) is None,
            },
    {
        match self {
            JsonValue::Object(entries) => {
                let k = chars_of(key);
                let mut i = entries.len();
                proof {
                    assert(entries@.take(i as int) =~= entries@);
                }
                while i > 0
                    invariant
                        i <= entries@.len(),
                        k@ == key@,
                        member(*self, key@) == entry_value(entries@, key@),
                        entry_value(entries@.take(i as int), key@) == entry_value(entries@, key@),
                    decreases i,
                {
                    proof {
                        assert(entries@.take(i as int).drop_last() =~= entries@.take(i - 1));
                        assert(entries@.take(i as int).last() == entries@[i - 1]);
                    }
                    let kc = chars_of(entries[i - 1].0.as_str());
                    if eq_chars(kc.as_slice(), k.as_slice()) {
                        proof {
                            assert(entry_value(entries@.take(i as int), key@) == Some(entries@[i - 1].1));
                        }
                        return Some(&entries[i - 1].1);
                    }
                    i = i - 1;
                }
                None
            },
            _ => None,
        }
    }

    /// Whether this is an object (`Value::is_object`).
    pub fn is_object(&self) -> (r: bool)
        ensures
            r == (*self is Object),
    {
        match self {
            JsonValue::Object(_) => true,
            _ => false,
        }
    }

    /// Whether this is an array (`Value::is_array`).
    pub fn is_array(&self) -> (r: bool)
        ensures
            r == (*self is Array),
    {
        match self {
            JsonValue::Array(_) => true,
            _ => false,
        }
    }

    /// The text of a JSON string (`Value::as_str`).
    pub fn as_str(&self) -> (r: Option<&str>)
        ensures
            match r {
                Some(s) => *self matches JsonValue::String(t) && t@ == s@,
                None => !(*self is String),
            },
    {
        match self {
            JsonValue::String(s) => Some(s.as_str()),
            _ => None,
        }
    }
}

/// A JSON string holding the text of `s`.
pub fn json_str(s: &str) -> (r: JsonValue)
    ensures
        r matches JsonValue::String(t) && t@ == s@,
{
    JsonValue::String(String::from_str(s))
}

/// The value of a string of decimal digits.
pub open spec fn digits_value(s: Seq<char>) -> nat
    decreases s.len(),
{
    if s.len() == 0 {
        0
    } else {
        digits_value(s.drop_last()) * 10 + ((s.last() as u32) - ('0' as u32)) as nat
    }
}

/// Every character is a decimal digit.
pub open spec fn all_digits(s: Seq<char>) -> bool {
    forall|i: int| 0 <= i < s.len() ==> '0' <= #[trigger] s[i] && s[i] <= '9'
}

/// The unsigned 64-bit value a number's text stands for, if it is one
/// (`Value::as_u64`): digits only, and no larger than `u64::MAX`.
pub open spec fn number_u64(t: Seq<char>) -> Option<nat> {
    if t.len() > 0 && all_digits(t) && digits_value(t) <= u64::MAX {
        Some(digits_value(t))
    } else {
        None
    }
}

proof fn lemma_digits_value_grows(s: Seq<char>, i: int)
    requires
        0 <= i <= s.len(),
        all_digits(s),
    ensures
        digits_value(s.take(i)) <= digits_value(s),
    decreases s.len() - i,
{
    if i < s.len() {
        lemma_digits_value_grows(s, i + 1);
        assert(s.take(i + 1).drop_last() =~= s.take(i));
        assert(s.take(i + 1).last() == s[i]);
    } else {
        assert(s.take(i) =~= s);
    }
}

fn number_text_u64(t: &str) -> (r: Option<u64>)
    ensures
        match r {
            Some(n) => number_u64(t@) == Some(n as nat),
            None => number_u64(t@) is None,
        },
{
    let v = chars_of(t);
    if v.len() == 0 {
        return None;
    }
    let mut acc: u64 = 0;
    let mut i: usize = 0;
    while i < v.len()
        invariant
            i <= v@.len(),
            v@ == t@,
            acc as nat == digits_value(v@.take(i as int)),
            all_digits(v@.take(i as int)),
        decreases v@.len() - i,
    {
        let c = v[i];
        proof {
            assert(v@.take(i + 1).drop_last() =~= v@.take(i as int));
            assert(v@.take(i + 1).last() == c);
        }
        if c < '0' || c > '9' {
            proof {
                assert(!all_digits(t@)) by {
                    assert(t@[i as int] == c);
                }
            }
            return None;
        }
        let d = (c as u32 - '0' as u32) as u64;
        let next = match acc.checked_mul(10) {
            Some(m) => m.checked_add(d),
            None => None,
        };
        match next {
            None => {
                proof {
                    assert(all_digits(v@.take(i + 1)));
                    if all_digits(t@) {
                        lemma_digits_value_grows(t@, i + 1);
                    }
                }
                return None;
            },
            Some(n) => {
                acc = n;
            },
        }
        i = i + 1;
    }
    proof {
        assert(v@.take(v@.len() as int) =~= v@);
    }
    Some(acc)
}

impl JsonValue {
    /// The value of a number that is an unsigned 64-bit integer (`Value::as_u64`).
    pub fn as_u64(&self) -> (r: Option<u64>)
        ensures
            match r {
                Some(n) => *self matches JsonValue::Number(t) && number_u64(t@) == Some(n as nat),
                None => !(*self matches JsonValue::Number(t) && number_u64(t@) is Some),
            },
    {
        match self {
            JsonValue::Number(t) => number_text_u64(t.as_str()),
            _ => None,
        }
    }
}

/// A JSON value as plain text and numbers.
pub enum JsonView {
    Null,
    Bool(bool),
    Number(Seq<char>),
    String(Seq<char>),
    Array(Seq<JsonView>),
    Object(Seq<(Seq<char>, JsonView)>),
}

/// The plain form of a JSON value.
pub open spec fn json_view(v: JsonValue) -> JsonView
    decreases v, 0nat,
{
    match v {
        JsonValue::Null => JsonView::Null,
        JsonValue::Bool(b) => JsonView::Bool(b),
        JsonValue::Number(n) => JsonView::Number(n@),
        JsonValue::String(s) => JsonView::String(s@),
        JsonValue::Array(items) => JsonView::Array(json_views(items@, items@.len() as nat)),
        JsonValue::Object(entries) => JsonView::Object(entry_views(entries@, entries@.len() as nat)),
    }
}

/// The plain forms of the first `n` items.
pub open spec fn json_views(items: Seq<JsonValue>, n: nat) -> Seq<JsonView>
    decreases items, n,
{
    if n == 0 || n > items.len() {
        seq![]
    } else {
        json_views(items, (n - 1) as nat).push(json_view(items[n - 1]))
    }
}

/// The plain forms of the first `n` entries.
pub open spec fn entry_views(entries: Seq<(String, JsonValue)>, n: nat) -> Seq<(Seq<char>, JsonView)>
    decreases entries, n,
{
    if n == 0 || n > entries.len() {
        seq![]
    } else {
        entry_views(entries, (n - 1) as nat).push((entries[n - 1].0@, json_view(entries[n - 1].1)))
    }
}

proof fn lemma_json_views_len(items: Seq<JsonValue>, n: nat)
    requires
        n <= items.len(),
    ensures
        json_views(items, n).len() == n,
        forall|i: int| 0 <= i < n ==> #[trigger] json_views(items, n)[i] == json_view(items[i]),
    decreases n,
{
    if n > 0 {
        lemma_json_views_len(items, (n - 1) as nat);
    }
}

proof fn lemma_entry_views_len(entries: Seq<(String, JsonValue)>, n: nat)
    requires
        n <= entries.len(),
    ensures
        entry_views(entries, n).len() == n,
        forall|i: int| 0 <= i < n ==> #[trigger] entry_views(entries, n)[i] == (entries[i].0@, json_view(entries[i].1)),
    decreases n,
{
    if n > 0 {
        lemma_entry_views_len(entries, (n - 1) as nat);
    }
}

/// The elements of an array's plain form are the plain forms of its items.
pub proof fn lemma_array_view(items: Seq<JsonValue>)
    ensures
        json_views(items, items.len()).len() == items.len(),
        forall|i: int| 0 <= i < items.len() ==> #[trigger] json_views(items, items.len())[i] == json_view(items[i]),
{
    lemma_json_views_len(items, items.len());
}

/// The entries of an object's plain form are the plain forms of its entries.
pub proof fn lemma_object_view(entries: Seq<(String, JsonValue)>)
    ensures
        entry_views(entries, entries.len()).len() == entries.len(),
        forall|i: int| 0 <= i < entries.len() ==> #[trigger] entry_views(entries, entries.len())[i] == (entries[i].0@, json_view(entries[i].1)),
{
    lemma_entry_views_len(entries, entries.len());
}


/// The plain form of a JSON string.
pub open spec fn text_view(s: Seq<char>) -> JsonView {
    JsonView::String(s)
}

/// An object with these entries, in this order; its plain form lists the
/// plain forms of the entries.
pub fn json_object(entries: Vec<(String, JsonValue)>) -> (r: JsonValue)
    ensures
        r == JsonValue::Object(entries),
        json_view(r) == JsonView::Object(
            Seq::new(entries@.len(), |i: int| (entries@[i].0@, json_view(entries@[i].1))),
        ),
{
    proof {
        lemma_object_view(entries@);
        assert(entry_views(entries@, entries@.len()) =~= Seq::new(
            entries@.len(),
            |i: int| (entries@[i].0@, json_view(entries@[i].1)),
        ));
    }
    JsonValue::Object(entries)
}

/// An array with these items, in this order; its plain form lists the plain
/// forms of the items.
pub fn json_array(items: Vec<JsonValue>) -> (r: JsonValue)
    ensures
        r == JsonValue::Array(items),
        json_view(r) == JsonView::Array(Seq::new(items@.len(), |i: int| json_view(items@[i]))),
{
    proof {
        lemma_array_view(items@);
        assert(json_views(items@, items@.len()) =~= Seq::new(items@.len(), |i: int| json_view(items@[i])));
    }
    JsonValue::Array(items)
}

/// A JSON string holding the text of `s`, with its plain form.
pub fn json_text(s: &str) -> (r: JsonValue)
    ensures
        r matches JsonValue::String(t) && t@ == s@,
        json_view(r) == text_view(s@),
{
    JsonValue::String(String::from_str(s))
}

} // verus!
