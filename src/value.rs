//! The values that a metadata field can hold.
use vstd::prelude::*;

use crate::text::push_char;

verus! {

#[verifier::external_type_specification]
#[verifier::external_body]
pub struct ExJsonValue(serde_json::Value);

#[verifier::external_type_specification]
#[verifier::external_body]
pub struct ExJsonNumber(serde_json::Number);

/// Relies on the derived `Clone` of `serde_json::Value`: the copy is the same value.
pub assume_specification[ <serde_json::Value as Clone>::clone ](v: &serde_json::Value) -> (r:
    serde_json::Value)
    ensures
        r == *v,
;

/// A field value, one case per kind of value a metadata block holds.
///
/// Lists whose items are all strings get a case of their own; anything more
/// deeply structured is carried through untouched in `Other`.
pub enum FieldValue {
    Null,
    Bool(bool),
    Number(String),
    Text(String),
    List(Vec<String>),
    Other(serde_json::Value),
}

/// What a field value is, with strings and lists seen as sequences.
pub ghost enum FieldModel {
    Null,
    Bool(bool),
    Number(Seq<char>),
    Text(Seq<char>),
    List(Seq<Seq<char>>),
    Other(serde_json::Value),
}

/// The characters of each string in `items`.
pub open spec fn texts_of(items: Seq<String>) -> Seq<Seq<char>> {
    items.map_values(|s: String| s@)
}

impl View for FieldValue {
    type V = FieldModel;

    open spec fn view(&self) -> FieldModel {
        match self {
            FieldValue::Null => FieldModel::Null,
            FieldValue::Bool(b) => FieldModel::Bool(*b),
            FieldValue::Number(n) => FieldModel::Number(n@),
            FieldValue::Text(s) => FieldModel::Text(s@),
            FieldValue::List(items) => FieldModel::List(texts_of(items@)),
            FieldValue::Other(v) => FieldModel::Other(*v),
        }
    }
}

/// One layer of a decoded value, its variant told apart.
pub enum JsonParts {
    Null,
    Bool(bool),
    Number(serde_json::Number),
    Text(String),
    Array(Vec<serde_json::Value>),
    Object(serde_json::Value),
}

/// One layer of a decoded value, as the proofs see it.
pub ghost enum JsonModel {
    Null,
    Bool(bool),
    Number(serde_json::Number),
    Text(Seq<char>),
    Array(Seq<serde_json::Value>),
    Object,
}

impl View for JsonParts {
    type V = JsonModel;

    open spec fn view(&self) -> JsonModel {
        match self {
            JsonParts::Null => JsonModel::Null,
            JsonParts::Bool(b) => JsonModel::Bool(*b),
            JsonParts::Number(n) => JsonModel::Number(*n),
            JsonParts::Text(s) => JsonModel::Text(s@),
            JsonParts::Array(a) => JsonModel::Array(a@),
            JsonParts::Object(_) => JsonModel::Object,
        }
    }
}

/// Which variant of `serde_json::Value` a value is, with what it holds.
pub uninterp spec fn json_kind(v: serde_json::Value) -> JsonModel;

/// What `serde_json::Number`'s `Display` writes for a number.
pub uninterp spec fn number_text_of(n: serde_json::Number) -> Seq<char>;

/// The field value a decoded value becomes: arrays whose items are all
/// strings become lists, other arrays and objects are kept as they are.
pub open spec fn field_model(v: serde_json::Value) -> FieldModel {
    match json_kind(v) {
        JsonModel::Null => FieldModel::Null,
        JsonModel::Bool(b) => FieldModel::Bool(b),
        JsonModel::Number(n) => FieldModel::Number(number_text_of(n)),
        JsonModel::Text(s) => FieldModel::Text(s),
        JsonModel::Array(items) => if forall|i: int|
            0 <= i < items.len() ==> #[trigger] json_kind(items[i]) is Text {
            FieldModel::List(items.map_values(|x: serde_json::Value| json_kind(x)->Text_0))
        } else {
            FieldModel::Other(v)
        },
        JsonModel::Object => FieldModel::Other(v),
    }
}

/// The `serde_json::Value` made of one layer: a variant and what it holds.
pub uninterp spec fn json_built(m: JsonModel) -> serde_json::Value;

/// What `serde_json::Number`'s `FromStr` reads from a text.
pub uninterp spec fn number_parsed(s: Seq<char>) -> Option<serde_json::Number>;

/// The decoded form a field value is written in.
pub open spec fn json_of(m: FieldModel) -> serde_json::Value {
    match m {
        FieldModel::Null => json_built(JsonModel::Null),
        FieldModel::Bool(b) => json_built(JsonModel::Bool(b)),
        FieldModel::Number(t) => match number_parsed(t) {
            Some(x) => json_built(JsonModel::Number(x)),
            None => json_built(JsonModel::Text(t)),
        },
        FieldModel::Text(s) => json_built(JsonModel::Text(s)),
        FieldModel::List(items) => json_built(
            JsonModel::Array(items.map_values(|s: Seq<char>| json_built(JsonModel::Text(s)))),
        ),
        FieldModel::Other(v) => v,
    }
}

/// Relies on the variants of `serde_json::Value`: each one is moved into its own case.
#[verifier::external_body]
fn json_parts(v: serde_json::Value) -> (r: JsonParts)
    ensures
        r@ == json_kind(v),
{
    match v {
        serde_json::Value::Null => JsonParts::Null,
        serde_json::Value::Bool(b) => JsonParts::Bool(b),
        serde_json::Value::Number(n) => JsonParts::Number(n),
        serde_json::Value::String(s) => JsonParts::Text(s),
        serde_json::Value::Array(a) => JsonParts::Array(a),
        other => JsonParts::Object(other),
    }
}

/// Relies on the variants of `serde_json::Value`: each case is moved into its variant.
#[verifier::external_body]
fn json_from_parts(p: JsonParts) -> (r: serde_json::Value)
    ensures
        p is Object ==> r == p->Object_0,
        !(p is Object) ==> r == json_built(p@),
{
    match p {
        JsonParts::Null => serde_json::Value::Null,
        JsonParts::Bool(b) => serde_json::Value::Bool(b),
        JsonParts::Number(n) => serde_json::Value::Number(n),
        JsonParts::Text(s) => serde_json::Value::String(s),
        JsonParts::Array(a) => serde_json::Value::Array(a),
        JsonParts::Object(v) => v,
    }
}

/// Relies on `serde_json::Number`'s `Display`: the number in decimal notation.
#[verifier::external_body]
fn number_text(n: &serde_json::Number) -> (r: String)
    ensures
        r@ == number_text_of(*n),
{
    n.to_string()
}

/// Relies on `serde_json::Number`'s `FromStr`: reads a number in JSON notation.
#[verifier::external_body]
fn number_from_text(s: &str) -> (r: Option<serde_json::Number>)
    ensures
        r == number_parsed(s@),
{
    s.parse::<serde_json::Number>().ok()
}

/// `items` between brackets, separated by a comma and a space.
pub open spec fn bracketed(items: Seq<String>) -> Seq<char> {
    seq!['['] + joined(items) + seq![']']
}

/// `items` separated by a comma and a space.
pub open spec fn joined(items: Seq<String>) -> Seq<char>
    decreases items.len(),
{
    if items.len() == 0 {
        Seq::empty()
    } else if items.len() == 1 {
        items[0]@
    } else {
        joined(items.drop_last()) + seq![',', ' '] + items.last()@
    }
}

/// The text of a boolean.
pub open spec fn bool_text(b: bool) -> Seq<char> {
    if b {
        seq!['t', 'r', 'u', 'e']
    } else {
        seq!['f', 'a', 'l', 's', 'e']
    }
}

/// The text shown for a value that has no text of its own.
pub open spec fn placeholder_text() -> Seq<char> {
    seq!['\u{2014}']
}

/// The text that editing a value starts from: scalars as text, anything else empty.
pub open spec fn edit_text_of(v: FieldModel) -> Seq<char> {
    match v {
        FieldModel::Text(s) => s,
        FieldModel::Bool(b) => bool_text(b),
        FieldModel::Number(n) => n,
        _ => Seq::empty(),
    }
}

/// Appends `t` to `s`.
pub fn append_text(s: &mut String, t: &str)
    ensures
        final(s)@ == old(s)@ + t@,
{
    s.append(t);
}

/// The string "true" or "false".
pub fn bool_string(b: bool) -> (r: String)
    ensures
        r@ == bool_text(b),
{
    let mut r = String::new();
    if b {
        push_char(&mut r, 't');
        push_char(&mut r, 'r');
        push_char(&mut r, 'u');
        push_char(&mut r, 'e');
    } else {
        push_char(&mut r, 'f');
        push_char(&mut r, 'a');
        push_char(&mut r, 'l');
        push_char(&mut r, 's');
        push_char(&mut r, 'e');
    }
    assert(r@ =~= bool_text(b));
    r
}

/// A copy of `v`, item for item.
pub fn copy_strings(v: &Vec<String>) -> (r: Vec<String>)
    ensures
        r@ == v@,
{
    let mut r: Vec<String> = Vec::new();
    let mut i: usize = 0;
    while i < v.len()
        invariant
            i <= v.len(),
            r@ == v@.subrange(0, i as int),
        decreases v.len() - i,
    {
        r.push(v[i].clone());
        i = i + 1;
        assert(r@ =~= v@.subrange(0, i as int));
    }
    assert(r@ =~= v@);
    r
}

impl FieldValue {
    /// A copy of this value.
    pub fn duplicate(&self) -> (r: FieldValue)
        ensures
            r@ == self@,
    {
        match self {
            FieldValue::Null => FieldValue::Null,
            FieldValue::Bool(b) => FieldValue::Bool(*b),
            FieldValue::Number(n) => FieldValue::Number(n.clone()),
            FieldValue::Text(s) => FieldValue::Text(s.clone()),
            FieldValue::List(v) => FieldValue::List(copy_strings(v)),
            FieldValue::Other(v) => FieldValue::Other(v.clone()),
        }
    }

    /// The value as one line of text: strings as they are, booleans as words,
    /// lists of strings between brackets.
    pub fn display_text(&self) -> (r: String)
        ensures
            match self {
                FieldValue::Text(s) => r@ == s@,
                FieldValue::Bool(b) => r@ == bool_text(*b),
                FieldValue::List(items) => r@ == bracketed(items@),
                FieldValue::Null => r@ == placeholder_text(),
                FieldValue::Other(_) => r@ == placeholder_text(),
                FieldValue::Number(n) => r@ == n@,
            },
    {
        match self {
            FieldValue::Text(s) => s.clone(),
            FieldValue::Bool(b) => bool_string(*b),
            FieldValue::Number(n) => n.clone(),
            FieldValue::List(items) => {
                let mut r = String::new();
                push_char(&mut r, '[');
                let mut i: usize = 0;
                while i < items.len()
                    invariant
                        i <= items.len(),
                        r@ == seq!['['] + joined(items@.subrange(0, i as int)),
                    decreases items.len() - i,
                {
                    if i > 0 {
                        push_char(&mut r, ',');
                        push_char(&mut r, ' ');
                    }
                    append_text(&mut r, items[i].as_str());
                    proof {
                        let pre = items@.subrange(0, i as int);
                        let post = items@.subrange(0, i + 1);
                        assert(post.drop_last() =~= pre);
                        if i == 0 {
                            assert(joined(post) == items@[0]@);
                        }
                    }
                    i = i + 1;
                    assert(r@ =~= seq!['['] + joined(items@.subrange(0, i as int)));
                }
                push_char(&mut r, ']');
                assert(items@.subrange(0, items.len() as int) =~= items@);
                assert(r@ =~= bracketed(items@));
                r
            },
            FieldValue::Null | FieldValue::Other(_) => {
                let mut r = String::new();
                push_char(&mut r, '\u{2014}');
                assert(r@ =~= placeholder_text());
                r
            },
        }
    }

    /// The text that editing this value starts from: scalars as text, anything
    /// else empty.
    pub fn edit_text(&self) -> (r: String)
        ensures
            r@ == edit_text_of(self@),
            match self {
                FieldValue::Text(s) => r@ == s@,
                FieldValue::Bool(b) => r@ == bool_text(*b),
                FieldValue::Number(n) => r@ == n@,
                _ => r@.len() == 0,
            },
    {
        match self {
            FieldValue::Text(s) => s.clone(),
            FieldValue::Bool(b) => bool_string(*b),
            FieldValue::Number(n) => n.clone(),
            _ => String::new(),
        }
    }

    /// The value as the structured form that the metadata block is written in.
    pub fn to_json(&self) -> (r: serde_json::Value)
        ensures
            r == json_of(self@),
    {
        match self {
            FieldValue::Null => json_from_parts(JsonParts::Null),
            FieldValue::Bool(b) => json_from_parts(JsonParts::Bool(*b)),
            FieldValue::Number(n) => match number_from_text(n.as_str()) {
                Some(x) => json_from_parts(JsonParts::Number(x)),
                None => json_from_parts(JsonParts::Text(n.clone())),
            },
            FieldValue::Text(s) => json_from_parts(JsonParts::Text(s.clone())),
            FieldValue::List(items) => {
                let mut out: Vec<serde_json::Value> = Vec::new();
                let mut i: usize = 0;
                while i < items.len()
                    invariant
                        i <= items.len(),
                        out.len() == i,
                        forall|j: int|
                            0 <= j < i ==> #[trigger] out@[j] == json_built(
                                JsonModel::Text(items@[j]@),
                            ),
                    decreases items.len() - i,
                {
                    out.push(json_from_parts(JsonParts::Text(items[i].clone())));
                    i = i + 1;
                }
                assert(out@ =~= texts_of(items@).map_values(
                    |s: Seq<char>| json_built(JsonModel::Text(s)),
                ));
                json_from_parts(JsonParts::Array(out))
            },
            FieldValue::Other(v) => v.clone(),
        }
    }

    /// The field value for a decoded value: arrays of strings become lists,
    /// arrays holding anything else and objects are kept as they are.
    pub fn from_json(v: serde_json::Value) -> (r: FieldValue)
        ensures
            r@ == field_model(v),
    {
        let whole = v.clone();
        match json_parts(v) {
            JsonParts::Null => FieldValue::Null,
            JsonParts::Bool(b) => FieldValue::Bool(b),
            JsonParts::Number(n) => FieldValue::Number(number_text(&n)),
            JsonParts::Text(s) => FieldValue::Text(s),
            JsonParts::Array(items) => {
                let ghost it = items@;
                let mut texts: Vec<String> = Vec::new();
                let mut all_text = true;
                let mut i: usize = 0;
                while i < items.len()
                    invariant
                        i <= items.len(),
                        it == items@,
                        all_text == forall|j: int| 0 <= j < i ==> #[trigger] json_kind(it[j]) is Text,
                        all_text ==> texts.len() == i,
                        all_text ==> forall|j: int|
                            0 <= j < i ==> (#[trigger] texts@[j])@ == json_kind(it[j])->Text_0,
                    decreases items.len() - i,
                {
                    let part = json_parts(items[i].clone());
                    match part {
                        JsonParts::Text(s) => {
                            texts.push(s);
                        },
                        _ => {
                            all_text = false;
                        },
                    }
                    assert(part@ == json_kind(it[i as int]));
                    i = i + 1;
                }
                if all_text {
                    assert(texts_of(texts@) =~= it.map_values(
                        |x: serde_json::Value| json_kind(x)->Text_0,
                    ));
                    FieldValue::List(texts)
                } else {
                    FieldValue::Other(whole)
                }
            },
            JsonParts::Object(_) => FieldValue::Other(whole),
        }
    }
}

} // verus!
