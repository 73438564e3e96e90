//! Posts: a document's path, body and metadata, with the fields read from it.
use vstd::prelude::*;

use crate::codec::{parse_frontmatter, render_document, framed, title_key, DecodeError};
use crate::metadata::Metadata;
use crate::value::{copy_strings, texts_of, FieldModel, FieldValue};

verus! {

/// An instant: seconds since the Unix epoch, and nanoseconds within that second.
#[derive(Clone, Copy, Debug, PartialEq, Eq, Structural)]
pub struct Timestamp {
    pub secs: i64,
    pub nanos: u32,
}

/// `a` is an earlier instant than `b`.
pub open spec fn instant_lt(a: Timestamp, b: Timestamp) -> bool {
    a.secs < b.secs || (a.secs == b.secs && a.nanos < b.nanos)
}

/// The order on optional dates: no date before any date, dates by instant.
pub open spec fn date_lt(a: Option<Timestamp>, b: Option<Timestamp>) -> bool {
    match (a, b) {
        (None, Some(_)) => true,
        (Some(x), Some(y)) => instant_lt(x, y),
        _ => false,
    }
}

/// What `DateTime::parse_from_rfc3339` reads from a text, as seconds and nanoseconds.
pub uninterp spec fn rfc3339_instant(s: Seq<char>) -> Option<(i64, u32)>;

/// What `NaiveDate::parse_from_str` reads from a text with a format, as the
/// seconds since the epoch at that date's midnight UTC.
pub uninterp spec fn calendar_midnight(s: Seq<char>, fmt: Seq<char>) -> Option<i64>;

/// Relies on chrono's `DateTime::parse_from_rfc3339`: the instant the text names.
#[verifier::external_body]
fn parse_rfc3339(s: &str) -> (r: Option<(i64, u32)>)
    ensures
        r == rfc3339_instant(s@),
{
    chrono::DateTime::parse_from_rfc3339(s).ok().map(|d| (d.timestamp(), d.timestamp_subsec_nanos()))
}

/// Relies on chrono's `NaiveDate::parse_from_str`: the date the text names, at midnight UTC.
#[verifier::external_body]
fn parse_calendar_date(s: &str, fmt: &str) -> (r: Option<i64>)
    ensures
        r == calendar_midnight(s@, fmt@),
{
    chrono::NaiveDate::parse_from_str(s, fmt).ok().map(
        |d| d.and_time(chrono::NaiveTime::MIN).and_utc().timestamp(),
    )
}

/// The date a text names: a full timestamp with its offset, or else a bare
/// `year-month-day` date at midnight UTC.
pub open spec fn date_of(s: Seq<char>) -> Option<Timestamp> {
    match rfc3339_instant(s) {
        Some((secs, nanos)) => Some(Timestamp { secs, nanos }),
        None => match calendar_midnight(s, "%Y-%m-%d"@) {
            Some(secs) => Some(Timestamp { secs, nanos: 0 }),
            None => None,
        },
    }
}

/// Reads a date as `date_of` says; any other text gives no date.
pub fn parse_date(s: &str) -> (r: Option<Timestamp>)
    ensures
        r == date_of(s@),
{
    match parse_rfc3339(s) {
        Some((secs, nanos)) => Some(Timestamp { secs, nanos }),
        None => match parse_calendar_date(s, "%Y-%m-%d") {
            Some(secs) => Some(Timestamp { secs, nanos: 0 }),
            None => None,
        },
    }
}

/// Three-way comparison of two optional dates in the order `date_lt` gives.
pub fn compare_dates(a: Option<Timestamp>, b: Option<Timestamp>) -> (r: i8)
    ensures
        r < 0 <==> date_lt(a, b),
        r > 0 <==> date_lt(b, a),
        r == 0 <==> a == b,
{
    match (a, b) {
        (None, None) => 0,
        (None, Some(_)) => -1,
        (Some(_), None) => 1,
        (Some(x), Some(y)) => {
            if x.secs < y.secs {
                -1
            } else if x.secs > y.secs {
                1
            } else if x.nanos < y.nanos {
                -1
            } else if x.nanos > y.nanos {
                1
            } else {
                0
            }
        },
    }
}

/// The title a post shows when its metadata holds no text title.
pub open spec fn untitled() -> Seq<char> {
    "Untitled"@
}

/// The field `k` of `m` when it is text, else `default`.
pub open spec fn text_or(m: Map<Seq<char>, FieldModel>, k: Seq<char>, default: Seq<char>) -> Seq<
    char,
> {
    if m.contains_key(k) && m[k] is Text {
        m[k]->Text_0
    } else {
        default
    }
}

/// The field `k` of `m` when it is a flag, else false.
pub open spec fn flag_or_false(m: Map<Seq<char>, FieldModel>, k: Seq<char>) -> bool {
    m.contains_key(k) && m[k] is Bool && m[k]->Bool_0
}

/// The field `k` of `m` when it is a list of strings, else empty.
pub open spec fn list_or_empty(m: Map<Seq<char>, FieldModel>, k: Seq<char>) -> Seq<Seq<char>> {
    if m.contains_key(k) && m[k] is List {
        m[k]->List_0
    } else {
        Seq::empty()
    }
}

/// The date field of `m`, read when it is text.
pub open spec fn date_field(m: Map<Seq<char>, FieldModel>) -> Option<Timestamp> {
    if m.contains_key("date"@) && m["date"@] is Text {
        date_of(m["date"@]->Text_0)
    } else {
        None
    }
}

/// `m` with a title, the placeholder one if it had none.
pub open spec fn with_title(m: Map<Seq<char>, FieldModel>) -> Map<Seq<char>, FieldModel> {
    if m.contains_key(title_key()) {
        m
    } else {
        m.insert(title_key(), FieldModel::Text(untitled()))
    }
}

/// The metadata and body a document's text reads as; nothing when its block
/// does not decode or a well-known field holds the wrong kind of value.
pub open spec fn parsed(raw: Seq<char>) -> Option<(Map<Seq<char>, FieldModel>, Seq<char>)> {
    match crate::codec::split_spec(raw) {
        None => Some((Map::empty(), raw)),
        Some((block, body)) => match crate::codec::block_fields(block) {
            None => None,
            Some(d) => match crate::codec::decoded_fields(d) {
                Ok(m) => Some((m, body)),
                Err(_) => None,
            },
        },
    }
}

/// One markdown document.
pub struct Post {
    pub path: String,
    pub title: String,
    pub date: Option<Timestamp>,
    pub draft: bool,
    pub content_type: String,
    pub categories: Vec<String>,
    pub tags: Vec<String>,
    pub content: String,
    pub metadata: Metadata,
}

impl Post {
    /// The metadata is well formed and holds a title.
    pub open spec fn wf(self) -> bool {
        self.metadata.wf() && self.metadata@.contains_key(title_key())
    }

    /// The post's fields read from its metadata `m`, as a post is loaded.
    pub open spec fn reads(self, m: Map<Seq<char>, FieldModel>) -> bool {
        &&& self.metadata@ == with_title(m)
        &&& self.title@ == text_or(with_title(m), "title"@, untitled())
        &&& self.date == date_field(m)
        &&& self.draft == flag_or_false(m, "draft"@)
        &&& self.content_type@ == text_or(m, "content_type"@, Seq::empty())
        &&& texts_of(self.categories@) == list_or_empty(m, "categories"@)
        &&& texts_of(self.tags@) == list_or_empty(m, "tags"@)
    }
}

/// The field `k` of `m` when it is text.
fn text_of(m: &Metadata, k: &str, default: &str) -> (r: String)
    requires
        m.wf(),
    ensures
        r@ == text_or(m@, k@, default@),
{
    match m.get(k) {
        Some(FieldValue::Text(s)) => s.clone(),
        _ => crate::codec::owned(default),
    }
}

/// The field `k` of `m` when it is a list of strings.
fn list_of(m: &Metadata, k: &str) -> (r: Vec<String>)
    requires
        m.wf(),
    ensures
        texts_of(r@) == list_or_empty(m@, k@),
{
    match m.get(k) {
        Some(FieldValue::List(v)) => copy_strings(v),
        _ => {
            let e: Vec<String> = Vec::new();
            assert(texts_of(e@) =~= Seq::<Seq<char>>::empty());
            e
        },
    }
}

/// A post from the path and text of its document.
///
/// The metadata gets a placeholder title when it has none; the title, date,
/// draft flag, content type, categories and tags are read from it.
pub fn post_from_text(path: String, raw: &str) -> (r: Result<Post, DecodeError>)
    ensures
        match parsed(raw@) {
            Some((m, b)) => r matches Ok(p) && p.wf() && p.path@ == path@ && p.content@ == b
                && p.reads(m),
            None => r is Err,
        },
{
    let (mut meta, body) = match parse_frontmatter(raw) {
        Ok(x) => x,
        Err(e) => return Err(e),
    };
    let ghost m0 = meta@;
    let date = match meta.get("date") {
        Some(FieldValue::Text(s)) => parse_date(s.as_str()),
        _ => None,
    };
    let draft = match meta.get("draft") {
        Some(FieldValue::Bool(b)) => *b,
        _ => false,
    };
    let content_type = text_of(&meta, "content_type", "");
    let categories = list_of(&meta, "categories");
    let tags = list_of(&meta, "tags");
    match meta.find("title") {
        Ok(_) => {},
        Err(_) => meta.insert(
            crate::codec::owned("title"),
            FieldValue::Text(crate::codec::owned("Untitled")),
        ),
    }
    let title = text_of(&meta, "title", "Untitled");
    let p = Post {
        path,
        title,
        date,
        draft,
        content_type,
        categories,
        tags,
        content: body,
        metadata: meta,
    };
    proof {
        reveal_strlit("");
        assert(""@ =~= Seq::<char>::empty());
    }
    assert(p.reads(m0));
    Ok(p)
}

/// The document text for a post: its metadata encoded between delimiters,
/// then its body. Fails with the encoder's message.
pub fn render_post(post: &Post) -> (r: Result<String, String>)
    ensures
        match crate::codec::rendered(post.metadata, post.content@) {
            Some(t) => r matches Ok(x) && x@ == t,
            None => r is Err,
        },
{
    render_document(&post.metadata, post.content.as_str())
}

/// The value an edited field takes: `draft` becomes a flag, true exactly when
/// the text is `true`; every other field takes the text.
pub open spec fn edited_value(key: Seq<char>, text: Seq<char>) -> FieldModel {
    if key == "draft"@ {
        FieldModel::Bool(text == "true"@)
    } else {
        FieldModel::Text(text)
    }
}

/// What became of a request to delete a field.
pub enum DeleteOutcome {
    /// The field with this name was removed.
    Deleted(String),
    /// The field is the title, which is never removed.
    Protected,
    /// No field stands at that position.
    Missing,
}

impl Post {
    /// `self` and `other` agree on everything but the metadata.
    pub open spec fn same_but_metadata(self, other: Post) -> bool {
        &&& self.path == other.path
        &&& self.title == other.title
        &&& self.date == other.date
        &&& self.draft == other.draft
        &&& self.content_type == other.content_type
        &&& self.categories == other.categories
        &&& self.tags == other.tags
        &&& self.content == other.content
    }

    /// Commits an edit of the field `key` with the text `text`.
    ///
    /// The field takes `edited_value`; the title, draft flag and content type
    /// follow their fields (`content_type` or `type`). Categories and tags are
    /// not read again.
    pub fn set_field(&mut self, key: String, text: String)
        requires
            old(self).wf(),
        ensures
            final(self).wf(),
            final(self).metadata@ == old(self).metadata@.insert(key@, edited_value(key@, text@)),
            final(self).title@ == if key@ == "title"@ {
                text@
            } else {
                old(self).title@
            },
            final(self).draft == if key@ == "draft"@ {
                text@ == "true"@
            } else {
                old(self).draft
            },
            final(self).content_type@ == if key@ == "content_type"@ || key@ == "type"@ {
                text@
            } else {
                old(self).content_type@
            },
            final(self).path == old(self).path,
            final(self).date == old(self).date,
            final(self).categories == old(self).categories,
            final(self).tags == old(self).tags,
            final(self).content == old(self).content,
    {
        let is_draft = crate::codec::same_text(key.as_str(), "draft");
        let is_title = crate::codec::same_text(key.as_str(), "title");
        let is_type = crate::codec::same_text(key.as_str(), "content_type")
            || crate::codec::same_text(key.as_str(), "type");
        let truthy = crate::codec::same_text(text.as_str(), "true");
        if is_title {
            self.title = text.clone();
        }
        if is_draft {
            self.draft = truthy;
        }
        if is_type {
            self.content_type = text.clone();
        }
        let value = if is_draft {
            FieldValue::Bool(truthy)
        } else {
            FieldValue::Text(text)
        };
        self.metadata.insert(key, value);
    }

    /// Sets the field `key` to the text `text`, adding it if it was absent.
    pub fn add_field(&mut self, key: String, text: String)
        requires
            old(self).wf(),
        ensures
            final(self).wf(),
            final(self).metadata@ == old(self).metadata@.insert(key@, FieldModel::Text(text@)),
            final(self).same_but_metadata(*old(self)),
    {
        self.metadata.insert(key, FieldValue::Text(text));
    }

    /// Deletes the field at position `i` of the metadata, unless it is the title.
    pub fn delete_field(&mut self, i: usize) -> (r: DeleteOutcome)
        requires
            old(self).wf(),
        ensures
            final(self).wf(),
            final(self).same_but_metadata(*old(self)),
            i >= old(self).metadata.entries.len() ==> (r is Missing && final(self).metadata@
                == old(self).metadata@),
            i < old(self).metadata.entries.len() && old(self).metadata.key(i as int)
                == title_key() ==> (r is Protected && final(self).metadata@
                == old(self).metadata@),
            i < old(self).metadata.entries.len() && old(self).metadata.key(i as int)
                != title_key() ==> (r matches DeleteOutcome::Deleted(k) && k@ == old(self).metadata.key(i as int) && final(self).metadata@ == old(self).metadata@.remove(k@)),
            !(r is Deleted) ==> *final(self) == *old(self),
            final(self).metadata.entries.len() == old(self).metadata.entries.len() - (
            if r is Deleted {
                1int
            } else {
                0
            }),
    {
        if i >= self.metadata.len() {
            return DeleteOutcome::Missing;
        }
        if crate::codec::same_text(self.metadata.entries[i].0.as_str(), "title") {
            return DeleteOutcome::Protected;
        }
        let (k, _) = self.metadata.remove_at(i);
        DeleteOutcome::Deleted(k)
    }
}

} // verus!
