//! The document format: a metadata block between two `---` lines, then the body.
//!
//! Writing a document back re-encodes its metadata, so the block may come out
//! formatted differently from how it was read (key order, quoting, spacing);
//! what the fields hold is kept, the exact bytes of the block are not.
use vstd::prelude::*;

use crate::metadata::Metadata;
use crate::text::{
    compare_text, chars_of, contains, find_from, occurs_at, push_char, string_of, trim_bounds,
    trimmed,
};
use crate::value::{
    append_text, bool_text, copy_strings, field_model, json_of, texts_of, FieldModel, FieldValue,
};

verus! {

/// The line that opens and closes a metadata block.
pub open spec fn delimiter() -> Seq<char> {
    seq!['-', '-', '-']
}

/// `t` starts with the block delimiter.
pub open spec fn opens_block(t: Seq<char>) -> bool {
    t.len() >= 3 && t.subrange(0, 3) == delimiter()
}

/// `k` is the first place after the opening delimiter where the delimiter occurs again.
pub open spec fn closes_at(t: Seq<char>, k: int) -> bool {
    &&& 3 <= k
    &&& occurs_at(t, delimiter(), k)
    &&& forall|j: int| 3 <= j < k ==> !occurs_at(t, delimiter(), j)
}

/// What follows the closing delimiter, without the line break that ends the
/// delimiter's line and the blank line that writing puts after it.
pub open spec fn body_of(rest: Seq<char>) -> Seq<char> {
    if rest.len() >= 2 && rest[0] == '\n' && rest[1] == '\n' {
        rest.subrange(2, rest.len() as int)
    } else if rest.len() >= 1 && rest[0] == '\n' {
        rest.subrange(1, rest.len() as int)
    } else {
        rest
    }
}

/// The block text and the body of `t`, when `t` holds a delimited block.
pub open spec fn split_spec(t: Seq<char>) -> Option<(Seq<char>, Seq<char>)> {
    if opens_block(t) && exists|k: int| closes_at(t, k) {
        let k = choose|k: int| closes_at(t, k);
        Some((t.subrange(3, k), body_of(t.subrange(k + 3, t.len() as int))))
    } else {
        None
    }
}

/// A document made of an encoded block and a body.
pub open spec fn framed(block: Seq<char>, body: Seq<char>) -> Seq<char> {
    delimiter() + seq!['\n'] + trimmed(block) + seq!['\n'] + delimiter() + seq!['\n', '\n'] + body
}

/// Why a document's metadata block could not be read.
pub enum DecodeError {
    /// The block is not a well-formed mapping; the decoder's message.
    Syntax(String),
    /// A well-known field holds a value of the wrong kind; the field's name.
    FieldType(String),
}

/// What `serde_yaml::from_str` decodes a block into, as a mapping from names
/// to values listed in the mapping's order; nothing when it fails.
pub uninterp spec fn yaml_mapping(block: Seq<char>) -> Option<Seq<(Seq<char>, serde_json::Value)>>;

/// The names and values of `v`, the names as characters.
pub open spec fn pairs_view(v: Seq<(String, serde_json::Value)>) -> Seq<(Seq<char>, serde_json::Value)> {
    v.map_values(|e: (String, serde_json::Value)| (e.0@, e.1))
}

/// The fields of a decoded block, a later name overriding an earlier one.
pub open spec fn pairs_map(es: Seq<(Seq<char>, serde_json::Value)>) -> Map<Seq<char>, FieldModel>
    decreases es.len(),
{
    if es.len() == 0 {
        Map::empty()
    } else {
        pairs_map(es.drop_last()).insert(es.last().0, field_model(es.last().1))
    }
}

/// The fields a block decodes to, if it decodes.
pub open spec fn block_fields(block: Seq<char>) -> Option<Map<Seq<char>, FieldModel>> {
    match yaml_mapping(block) {
        Some(es) => Some(pairs_map(es)),
        None => None,
    }
}

/// Relies on `serde_yaml::from_str`: decodes the block as a mapping from names to values.
#[verifier::external_body]
fn decode_block(block: &str) -> (r: Result<Vec<(String, serde_json::Value)>, String>)
    ensures
        match yaml_mapping(block@) {
            None => r is Err,
            Some(es) => r matches Ok(v) && pairs_view(v@) == es,
        },
{
    match serde_yaml::from_str::<serde_json::Map<String, serde_json::Value>>(block) {
        Ok(m) => Ok(m.into_iter().collect()),
        Err(e) => Err(e.to_string()),
    }
}

/// What `serde_yaml::to_string` writes for the fields as a mapping; nothing
/// when it fails.
pub uninterp spec fn yaml_text(fields: Seq<(Seq<char>, serde_json::Value)>) -> Option<Seq<char>>;

/// The fields of `meta` in the decoded form they are written in.
pub open spec fn encoded_fields(meta: Metadata) -> Seq<(Seq<char>, serde_json::Value)> {
    meta.entries@.map_values(|e: (String, FieldValue)| (e.0@, json_of(e.1@)))
}

/// The document text for `meta` and `body`, if the fields encode.
pub open spec fn rendered(meta: Metadata, body: Seq<char>) -> Option<Seq<char>> {
    match yaml_text(encoded_fields(meta)) {
        Some(y) => Some(framed(y, body)),
        None => None,
    }
}

/// Relies on `serde_yaml::to_string`: encodes the fields as a mapping.
#[verifier::external_body]
fn encode_block(fields: Vec<(String, serde_json::Value)>) -> (r: Result<String, String>)
    ensures
        match yaml_text(pairs_view(fields@)) {
            Some(t) => r matches Ok(x) && x@ == t,
            None => r is Err,
        },
{
    let m: serde_json::Map<String, serde_json::Value> = fields.into_iter().collect();
    serde_yaml::to_string(&m).map_err(|e| e.to_string())
}

/// Splits `raw` into its block text and its body, if it opens with the
/// delimiter and the delimiter occurs again later.
pub fn split_document(raw: &str) -> (r: Option<(String, String)>)
    ensures
        match split_spec(raw@) {
            Some((b, t)) => match r {
                Some(p) => p.0@ == b && p.1@ == t,
                None => false,
            },
            None => r is None,
        },
{
    let cs = chars_of(raw);
    let mut d: Vec<char> = Vec::new();
    d.push('-');
    d.push('-');
    d.push('-');
    assert(d@ =~= delimiter());
    if cs.len() < 3 || !crate::text::occurs_at_exec(&cs, &d, 0) {
        return None;
    }
    assert(cs@.subrange(0, 3) == delimiter());
    match find_from(&cs, &d, 3) {
        None => {
            assert(!exists|k: int| closes_at(raw@, k));
            None
        },
        Some(k) => {
            assert(closes_at(raw@, k as int));
            let ghost c = choose|k: int| closes_at(raw@, k);
            assert(c == k) by {
                if c < k {
                    assert(!occurs_at(raw@, delimiter(), c));
                }
                if k < c {
                    assert(!occurs_at(raw@, delimiter(), k as int));
                }
            }
            let block = string_of(&cs, 3, k);
            let n = cs.len();
            let lo: usize = if n - k >= 5 && cs[k + 3] == '\n' && cs[k + 4] == '\n' {
                k + 5
            } else if n - k >= 4 && cs[k + 3] == '\n' {
                k + 4
            } else {
                k + 3
            };
            assert(cs@.subrange(lo as int, n as int) == body_of(cs@.subrange(k + 3, n as int)));
            let body = string_of(&cs, lo, n);
            Some((block, body))
        },
    }
}

/// The document text for an encoded block and a body: the delimiter, the
/// trimmed block, the delimiter again, a blank line, then the body.
pub fn frame_document(block: &str, body: &str) -> (r: String)
    ensures
        r@ == framed(block@, body@),
{
    let bc = chars_of(block);
    let (lo, hi) = trim_bounds(&bc, 0, bc.len());
    assert(bc@.subrange(0, bc.len() as int) =~= block@);
    let inner = string_of(&bc, lo, hi);
    let mut r = String::new();
    push_char(&mut r, '-');
    push_char(&mut r, '-');
    push_char(&mut r, '-');
    push_char(&mut r, '\n');
    append_text(&mut r, inner.as_str());
    push_char(&mut r, '\n');
    push_char(&mut r, '-');
    push_char(&mut r, '-');
    push_char(&mut r, '-');
    push_char(&mut r, '\n');
    push_char(&mut r, '\n');
    append_text(&mut r, body);
    assert(r@ =~= framed(block@, body@));
    r
}

/// Reading back a framed document gives the trimmed block between two line
/// breaks, and the body exactly, provided the block holds no delimiter.
pub proof fn lemma_frame_then_split(block: Seq<char>, body: Seq<char>)
    requires
        !contains(trimmed(block), delimiter()),
    ensures
        split_spec(framed(block, body)) == Some(
            (seq!['\n'] + trimmed(block) + seq!['\n'], body),
        ),
{
    let y = trimmed(block);
    let t = framed(block, body);
    let n = y.len() as int;
    let k: int = n + 5;
    lemma_framed_shape(block, body);
    assert(t.subrange(0, 3) =~= delimiter());
    assert(occurs_at(t, delimiter(), k)) by {
        assert(t.subrange(k, k + 3) =~= delimiter());
    }
    assert forall|j: int| 3 <= j < k implies !occurs_at(t, delimiter(), j) by {
        lemma_no_delimiter_inside(block, body, j);
    }
    assert(closes_at(t, k));
    let c = choose|c: int| closes_at(t, c);
    assert(c == k) by {
        if c < k {
            assert(!occurs_at(t, delimiter(), c));
        }
        if k < c {
            assert(!occurs_at(t, delimiter(), k));
        }
    }
    assert(t.subrange(3, k) =~= seq!['\n'] + y + seq!['\n']);
    let rest = t.subrange(k + 3, t.len() as int);
    assert(rest =~= seq!['\n', '\n'] + body);
    assert(body_of(rest) =~= body);
}

/// Where each part of a framed document stands.
proof fn lemma_framed_shape(block: Seq<char>, body: Seq<char>)
    ensures
        ({
            let y = trimmed(block);
            let t = framed(block, body);
            let k = y.len() as int + 5;
            &&& t.len() == k + 5 + body.len()
            &&& t[3] == '\n'
            &&& t[k - 1] == '\n'
            &&& t.subrange(0, 3) == delimiter()
            &&& t.subrange(4, k - 1) == y
            &&& t.subrange(k, k + 3) == delimiter()
            &&& t.subrange(k + 3, t.len() as int) == seq!['\n', '\n'] + body
        }),
{
    let y = trimmed(block);
    let t = framed(block, body);
    let k = y.len() as int + 5;
    assert(t.subrange(0, 3) =~= delimiter());
    assert(t.subrange(4, k - 1) =~= y);
    assert(t.subrange(k, k + 3) =~= delimiter());
    assert(t.subrange(k + 3, t.len() as int) =~= seq!['\n', '\n'] + body);
}

/// No delimiter starts between the opening one and the closing one.
proof fn lemma_no_delimiter_inside(block: Seq<char>, body: Seq<char>, j: int)
    requires
        !contains(trimmed(block), delimiter()),
        3 <= j < trimmed(block).len() + 5,
    ensures
        !occurs_at(framed(block, body), delimiter(), j),
{
    let y = trimmed(block);
    let t = framed(block, body);
    let k = y.len() as int + 5;
    lemma_framed_shape(block, body);
    if occurs_at(t, delimiter(), j) {
        let w = t.subrange(j, j + 3);
        if j == 3 {
            assert(w[0] == t[3]);
        } else if j + 3 <= k - 1 {
            assert(y.subrange(j - 4, j - 1) =~= t.subrange(4, k - 1).subrange(j - 4, j - 1));
            assert(t.subrange(4, k - 1).subrange(j - 4, j - 1) =~= w);
            assert(occurs_at(y, delimiter(), j - 4));
        } else {
            assert(w[k - 1 - j] == t[k - 1]);
        }
    }
}

/// The name under which a post's title is stored.
pub open spec fn title_key() -> Seq<char> {
    "title"@
}

/// The names that decoding gives a fixed kind.
pub open spec fn well_known(k: Seq<char>) -> bool {
    k == "title"@ || k == "date"@ || k == "draft"@ || k == "content_type"@ || k
        == "categories"@ || k == "tags"@
}

/// A field read as text: `None` when it holds something else, `Some(None)`
/// when it is absent or null.
pub open spec fn text_field(m: Map<Seq<char>, FieldModel>, k: Seq<char>) -> Option<
    Option<Seq<char>>,
> {
    if !m.contains_key(k) {
        Some(None)
    } else {
        match m[k] {
            FieldModel::Null => Some(None),
            FieldModel::Text(s) => Some(Some(s)),
            FieldModel::Number(s) => Some(Some(s)),
            FieldModel::Bool(b) => Some(Some(bool_text(b))),
            _ => None,
        }
    }
}

/// A field read as a flag, false when absent or null.
pub open spec fn flag_field(m: Map<Seq<char>, FieldModel>, k: Seq<char>) -> Option<bool> {
    if !m.contains_key(k) {
        Some(false)
    } else {
        match m[k] {
            FieldModel::Null => Some(false),
            FieldModel::Bool(b) => Some(b),
            _ => None,
        }
    }
}

/// A field read as a list of strings, empty when absent or null.
pub open spec fn list_field(m: Map<Seq<char>, FieldModel>, k: Seq<char>) -> Option<
    Seq<Seq<char>>,
> {
    if !m.contains_key(k) {
        Some(Seq::empty())
    } else {
        match m[k] {
            FieldModel::Null => Some(Seq::empty()),
            FieldModel::List(v) => Some(v),
            _ => None,
        }
    }
}

/// The fields of `m` whose names are not well known.
pub open spec fn extra_fields(m: Map<Seq<char>, FieldModel>) -> Map<Seq<char>, FieldModel> {
    Map::new(|k: Seq<char>| m.contains_key(k) && !well_known(k), |k: Seq<char>| m[k])
}

/// `m` with `k` set to the list `v` when `v` is not empty.
pub open spec fn with_list(m: Map<Seq<char>, FieldModel>, k: Seq<char>, v: Seq<Seq<char>>) -> Map<
    Seq<char>,
    FieldModel,
> {
    if v.len() > 0 {
        m.insert(k, FieldModel::List(v))
    } else {
        m
    }
}

/// The metadata mapping for a decoded block `m`, or the name of the first
/// well-known field that holds the wrong kind of value.
///
/// `title` and `content_type` default to empty text, `draft` to false; `date`
/// is kept as text when present; `categories` and `tags` are kept when not
/// empty; every other field is kept as it is.
pub open spec fn decoded_fields(m: Map<Seq<char>, FieldModel>) -> Result<
    Map<Seq<char>, FieldModel>,
    Seq<char>,
> {
    if text_field(m, "title"@) is None {
        Err("title"@)
    } else if text_field(m, "date"@) is None {
        Err("date"@)
    } else if flag_field(m, "draft"@) is None {
        Err("draft"@)
    } else if text_field(m, "content_type"@) is None {
        Err("content_type"@)
    } else if list_field(m, "categories"@) is None {
        Err("categories"@)
    } else if list_field(m, "tags"@) is None {
        Err("tags"@)
    } else {
        let title = text_field(m, "title"@)->0;
        let ct = text_field(m, "content_type"@)->0;
        let a = extra_fields(m).insert(
            "title"@,
            FieldModel::Text(if title is Some { title->0 } else { Seq::empty() }),
        ).insert("draft"@, FieldModel::Bool(flag_field(m, "draft"@)->0)).insert(
            "content_type"@,
            FieldModel::Text(if ct is Some { ct->0 } else { Seq::empty() }),
        );
        let date = text_field(m, "date"@)->0;
        let b = if date is Some {
            a.insert("date"@, FieldModel::Text(date->0))
        } else {
            a
        };
        Ok(
            with_list(
                with_list(b, "categories"@, list_field(m, "categories"@)->0),
                "tags"@,
                list_field(m, "tags"@)->0,
            ),
        )
    }
}

/// The fields among the first `i` of `raw` whose names are not well known.
pub open spec fn extra_prefix(raw: Metadata, i: int) -> Map<Seq<char>, FieldModel> {
    Map::new(
        |k: Seq<char>| (exists|j: int| 0 <= j < i && #[trigger] raw.key(j) == k) && !well_known(k),
        |k: Seq<char>| raw@[k],
    )
}

/// Whether `a` and `b` hold the same characters.
pub fn same_text(a: &str, b: &str) -> (r: bool)
    ensures
        r == (a@ == b@),
{
    compare_text(a, b) == 0
}

/// Whether `k` is one of the names that decoding gives a fixed kind.
pub fn is_well_known(k: &str) -> (r: bool)
    ensures
        r == well_known(k@),
{
    same_text(k, "title") || same_text(k, "date") || same_text(k, "draft") || same_text(
        k,
        "content_type",
    ) || same_text(k, "categories") || same_text(k, "tags")
}

/// The field named `k` read as text, as `text_field` says.
fn text_value(raw: &Metadata, k: &str) -> (r: Result<Option<String>, ()>)
    requires
        raw.wf(),
    ensures
        match text_field(raw@, k@) {
            None => r is Err,
            Some(None) => r matches Ok(None),
            Some(Some(s)) => r matches Ok(Some(t)) && t@ == s,
        },
{
    match raw.get(k) {
        None => Ok(None),
        Some(v) => match v {
            FieldValue::Null => Ok(None),
            FieldValue::Text(s) => Ok(Some(s.clone())),
            FieldValue::Number(s) => Ok(Some(s.clone())),
            FieldValue::Bool(b) => Ok(Some(crate::value::bool_string(*b))),
            _ => Err(()),
        },
    }
}

/// The field named `k` read as a flag, as `flag_field` says.
fn flag_value(raw: &Metadata, k: &str) -> (r: Result<bool, ()>)
    requires
        raw.wf(),
    ensures
        match flag_field(raw@, k@) {
            None => r is Err,
            Some(b) => r == Ok::<bool, ()>(b),
        },
{
    match raw.get(k) {
        None => Ok(false),
        Some(v) => match v {
            FieldValue::Null => Ok(false),
            FieldValue::Bool(b) => Ok(*b),
            _ => Err(()),
        },
    }
}

/// The field named `k` read as a list, as `list_field` says.
fn list_value(raw: &Metadata, k: &str) -> (r: Result<Vec<String>, ()>)
    requires
        raw.wf(),
    ensures
        match list_field(raw@, k@) {
            None => r is Err,
            Some(v) => r matches Ok(out) && texts_of(out@) == v,
        },
{
    match raw.get(k) {
        None => {
            let e: Vec<String> = Vec::new();
            assert(texts_of(e@) =~= Seq::<Seq<char>>::empty());
            Ok(e)
        },
        Some(v) => match v {
            FieldValue::Null => {
                let e: Vec<String> = Vec::new();
                assert(texts_of(e@) =~= Seq::<Seq<char>>::empty());
                Ok(e)
            },
            FieldValue::List(items) => Ok(copy_strings(items)),
            _ => Err(()),
        },
    }
}

/// The fields of `raw` whose names are not well known.
fn extras_of(raw: &Metadata) -> (r: Metadata)
    requires
        raw.wf(),
    ensures
        r.wf(),
        r@ == extra_fields(raw@),
{
    let mut out = Metadata::new();
    let mut i: usize = 0;
    assert(out@ =~= extra_prefix(*raw, 0));
    while i < raw.entries.len()
        invariant
            raw.wf(),
            out.wf(),
            i <= raw.entries.len(),
            out@ == extra_prefix(*raw, i as int),
        decreases raw.entries.len() - i,
    {
        proof {
            raw.lemma_at(i as int);
        }
        let ghost before = out@;
        if !is_well_known(raw.entries[i].0.as_str()) {
            out.insert(raw.entries[i].0.clone(), raw.entries[i].1.duplicate());
        }
        assert(out@ =~= extra_prefix(*raw, i + 1)) by {
            assert forall|k: Seq<char>| #[trigger]
                extra_prefix(*raw, i + 1).contains_key(k) == out@.contains_key(k) by {
                if extra_prefix(*raw, i + 1).contains_key(k) {
                    let j = choose|j: int| 0 <= j < i + 1 && #[trigger] raw.key(j) == k;
                    if j < i {
                        assert(extra_prefix(*raw, i as int).contains_key(k));
                    }
                }
                if before.contains_key(k) {
                    let j = choose|j: int| 0 <= j < i && #[trigger] raw.key(j) == k;
                    assert(extra_prefix(*raw, i + 1).contains_key(k));
                }
                if k == raw.key(i as int) && !well_known(k) {
                    assert(extra_prefix(*raw, i + 1).contains_key(k));
                }
            }
        }
        i = i + 1;
    }
    assert(out@ =~= extra_fields(raw@)) by {
        assert forall|k: Seq<char>| #[trigger] out@.contains_key(k) == extra_fields(
            raw@,
        ).contains_key(k) by {
            if raw.has(k) {
                let j = choose|j: int| 0 <= j < raw.entries.len() && #[trigger] raw.key(j) == k;
                assert(extra_prefix(*raw, raw.entries.len() as int).contains_key(k) || well_known(
                    k,
                ));
            }
        }
    }
    out
}

/// A string holding the characters of `s`.
pub fn owned(s: &str) -> (r: String)
    ensures
        r@ == s@,
{
    s.to_owned()
}

/// The metadata mapping for the decoded block `raw`, as `decoded_fields` says.
pub fn frontmatter_fields(raw: &Metadata) -> (r: Result<Metadata, DecodeError>)
    requires
        raw.wf(),
    ensures
        match decoded_fields(raw@) {
            Ok(m) => r matches Ok(out) && out.wf() && out@ == m,
            Err(name) => r matches Err(DecodeError::FieldType(n)) && n@ == name,
        },
{
    let title = match text_value(raw, "title") {
        Ok(t) => t,
        Err(_) => return Err(DecodeError::FieldType(owned("title"))),
    };
    let date = match text_value(raw, "date") {
        Ok(t) => t,
        Err(_) => return Err(DecodeError::FieldType(owned("date"))),
    };
    let draft = match flag_value(raw, "draft") {
        Ok(b) => b,
        Err(_) => return Err(DecodeError::FieldType(owned("draft"))),
    };
    let ct = match text_value(raw, "content_type") {
        Ok(t) => t,
        Err(_) => return Err(DecodeError::FieldType(owned("content_type"))),
    };
    let categories = match list_value(raw, "categories") {
        Ok(v) => v,
        Err(_) => return Err(DecodeError::FieldType(owned("categories"))),
    };
    let tags = match list_value(raw, "tags") {
        Ok(v) => v,
        Err(_) => return Err(DecodeError::FieldType(owned("tags"))),
    };
    let mut out = extras_of(raw);
    let title_text = match title {
        Some(t) => t,
        None => String::new(),
    };
    out.insert(owned("title"), FieldValue::Text(title_text));
    out.insert(owned("draft"), FieldValue::Bool(draft));
    let ct_text = match ct {
        Some(t) => t,
        None => String::new(),
    };
    out.insert(owned("content_type"), FieldValue::Text(ct_text));
    match date {
        Some(d) => out.insert(owned("date"), FieldValue::Text(d)),
        None => {},
    }
    if categories.len() > 0 {
        out.insert(owned("categories"), FieldValue::List(categories));
    }
    if tags.len() > 0 {
        out.insert(owned("tags"), FieldValue::List(tags));
    }
    Ok(out)
}

/// Reads a document: its metadata mapping and its trimmed body.
///
/// Text that does not open with the delimiter, or opens it and never closes it,
/// has no metadata and is all body. A block that does not decode, or whose
/// well-known fields hold the wrong kind of value, is an error.
pub fn parse_frontmatter(raw: &str) -> (r: Result<(Metadata, String), DecodeError>)
    ensures
        match split_spec(raw@) {
            None => r matches Ok((m, body)) && m.wf() && m@ == Map::<
                Seq<char>,
                FieldModel,
            >::empty() && body@ == raw@,
            Some((block, body)) => match block_fields(block) {
                None => r matches Err(DecodeError::Syntax(_)),
                Some(d) => match decoded_fields(d) {
                    Ok(m) => r matches Ok((mm, b)) && mm.wf() && mm@ == m && b@ == body,
                    Err(n) => r matches Err(DecodeError::FieldType(x)) && x@ == n,
                },
            },
        },
{
    match split_document(raw) {
        None => Ok((Metadata::new(), owned(raw))),
        Some((block, body)) => {
            let pairs = match decode_block(block.as_str()) {
                Ok(p) => p,
                Err(msg) => return Err(DecodeError::Syntax(msg)),
            };
            let ghost es = pairs_view(pairs@);
            let mut fields = Metadata::new();
            let mut i: usize = 0;
            assert(es.subrange(0, 0) =~= Seq::<(Seq<char>, serde_json::Value)>::empty());
            while i < pairs.len()
                invariant
                    fields.wf(),
                    i <= pairs.len(),
                    es == pairs_view(pairs@),
                    fields@ == pairs_map(es.subrange(0, i as int)),
                decreases pairs.len() - i,
            {
                let k = pairs[i].0.clone();
                let v = FieldValue::from_json(pairs[i].1.clone());
                fields.insert(k, v);
                assert(es.subrange(0, i + 1).drop_last() =~= es.subrange(0, i as int));
                i = i + 1;
            }
            assert(es.subrange(0, pairs.len() as int) =~= es);
            match frontmatter_fields(&fields) {
                Ok(m) => Ok((m, body)),
                Err(e) => Err(e),
            }
        },
    }
}

/// Writes a document: the encoded metadata between delimiters, a blank line,
/// then the body. Fails with the encoder's message if the fields cannot be encoded.
pub fn render_document(meta: &Metadata, body: &str) -> (r: Result<String, String>)
    ensures
        match rendered(*meta, body@) {
            Some(t) => r matches Ok(x) && x@ == t,
            None => r is Err,
        },
{
    let mut fields: Vec<(String, serde_json::Value)> = Vec::new();
    let mut i: usize = 0;
    while i < meta.entries.len()
        invariant
            i <= meta.entries.len(),
            fields.len() == i,
            forall|j: int|
                0 <= j < i ==> #[trigger] pairs_view(fields@)[j] == encoded_fields(*meta)[j],
        decreases meta.entries.len() - i,
    {
        let ghost before = fields@;
        fields.push((meta.entries[i].0.clone(), meta.entries[i].1.to_json()));
        assert forall|j: int| 0 <= j < i + 1 implies #[trigger] pairs_view(fields@)[j]
            == encoded_fields(*meta)[j] by {
            if j < i {
                assert(fields@[j] == before[j]);
                assert(pairs_view(before)[j] == encoded_fields(*meta)[j]);
            }
        }
        i = i + 1;
    }
    assert(pairs_view(fields@) =~= encoded_fields(*meta));
    match encode_block(fields) {
        Ok(block) => Ok(frame_document(block.as_str(), body)),
        Err(e) => Err(e),
    }
}

} // verus!
