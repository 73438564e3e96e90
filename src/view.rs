//! The visible posts: those that pass the draft filter and the search, in sort order.
use vstd::prelude::*;

use crate::metadata::lemma_text_lt_transitive;
use crate::posts::{compare_dates, date_lt, Post};
use crate::text::{compare_text, contains, lower_of, lowercase, text_contains, text_lt};

verus! {

broadcast use vstd::seq_lib::to_multiset_insert, vstd::seq_lib::to_multiset_build;

/// How the visible posts are ordered.
#[derive(Clone, Copy, Debug, PartialEq, Eq, Structural)]
pub enum SortMode {
    DateDesc,
    DateAsc,
    TitleAsc,
    TitleDesc,
}

impl SortMode {
    /// The mode after this one in the ring newest-first, oldest-first,
    /// title ascending, title descending.
    pub open spec fn following(self) -> SortMode {
        match self {
            SortMode::DateDesc => SortMode::DateAsc,
            SortMode::DateAsc => SortMode::TitleAsc,
            SortMode::TitleAsc => SortMode::TitleDesc,
            SortMode::TitleDesc => SortMode::DateDesc,
        }
    }

    /// The mode after this one in the ring.
    pub fn next(self) -> (r: SortMode)
        ensures
            r == self.following(),
    {
        match self {
            SortMode::DateDesc => SortMode::DateAsc,
            SortMode::DateAsc => SortMode::TitleAsc,
            SortMode::TitleAsc => SortMode::TitleDesc,
            SortMode::TitleDesc => SortMode::DateDesc,
        }
    }
}

/// The post at `a` sorts strictly before the one at `b` by the mode's key.
pub open spec fn key_lt(posts: Seq<Post>, mode: SortMode, a: int, b: int) -> bool {
    match mode {
        SortMode::DateDesc => date_lt(posts[b].date, posts[a].date),
        SortMode::DateAsc => date_lt(posts[a].date, posts[b].date),
        SortMode::TitleAsc => text_lt(posts[a].title@, posts[b].title@),
        SortMode::TitleDesc => text_lt(posts[b].title@, posts[a].title@),
    }
}

/// The posts at `a` and `b` have the same key under the mode.
pub open spec fn key_eq(posts: Seq<Post>, mode: SortMode, a: int, b: int) -> bool {
    match mode {
        SortMode::DateDesc | SortMode::DateAsc => posts[a].date == posts[b].date,
        _ => posts[a].title@ == posts[b].title@,
    }
}

/// The post at `a` comes before the one at `b`: by key, and on equal keys by
/// position in the collection, so that the order is stable.
pub open spec fn precedes(posts: Seq<Post>, mode: SortMode, a: int, b: int) -> bool {
    key_lt(posts, mode, a, b) || (key_eq(posts, mode, a, b) && a < b)
}

/// Each position of `s` comes before the next.
pub open spec fn in_order(posts: Seq<Post>, mode: SortMode, s: Seq<usize>) -> bool {
    forall|i: int| 0 <= i < s.len() - 1 ==> #[trigger] precedes(posts, mode, s[i] as int, s[i + 1] as int)
}

/// Positions into `posts`, none twice.
pub open spec fn valid_positions(posts: Seq<Post>, s: Seq<usize>) -> bool {
    &&& forall|i: int| 0 <= i < s.len() ==> (#[trigger] s[i]) < posts.len()
    &&& forall|i: int, j: int| 0 <= i < j < s.len() ==> s[i] != s[j]
}

/// The search hit: the lowercased query occurs in the lowercased title, body or
/// some category. Tags and other fields are not searched.
pub open spec fn search_hit(p: Post, lq: Seq<char>) -> bool {
    contains(lower_of(p.title@), lq) || contains(lower_of(p.content@), lq) || exists|i: int|
        0 <= i < p.categories.len() && contains(lower_of(#[trigger] p.categories@[i]@), lq)
}

/// The post passes the draft filter and the search for `q`; an empty query
/// lets every post through.
pub open spec fn passes(p: Post, drafts_only: bool, q: Seq<char>) -> bool {
    (!drafts_only || p.draft) && (q.len() == 0 || search_hit(p, lower_of(q)))
}

/// The positions among the first `n` posts that pass, in collection order.
pub open spec fn kept(posts: Seq<Post>, drafts_only: bool, q: Seq<char>, n: int) -> Seq<usize>
    decreases n,
{
    if n <= 0 {
        Seq::empty()
    } else if passes(posts[n - 1], drafts_only, q) {
        kept(posts, drafts_only, q, n - 1).push((n - 1) as usize)
    } else {
        kept(posts, drafts_only, q, n - 1)
    }
}

/// Turning on the draft filter never lets more posts through.
pub proof fn lemma_drafts_only_keeps_fewer(posts: Seq<Post>, q: Seq<char>, n: int)
    ensures
        kept(posts, true, q, n).len() <= kept(posts, false, q, n).len(),
    decreases n,
{
    if n > 0 {
        lemma_drafts_only_keeps_fewer(posts, q, n - 1);
    }
}

/// The kept positions ascend and lie below `n`.
proof fn lemma_kept_ascends(posts: Seq<Post>, drafts_only: bool, q: Seq<char>, n: int)
    requires
        n <= posts.len(),
        n <= usize::MAX,
    ensures
        forall|i: int, j: int|
            0 <= i < j < kept(posts, drafts_only, q, n).len() ==> kept(posts, drafts_only, q, n)[i]
                < kept(posts, drafts_only, q, n)[j],
        forall|i: int|
            0 <= i < kept(posts, drafts_only, q, n).len() ==> 0 <= #[trigger] kept(
                posts,
                drafts_only,
                q,
                n,
            )[i] < n,
    decreases n,
{
    if n > 0 {
        lemma_kept_ascends(posts, drafts_only, q, n - 1);
        let s = kept(posts, drafts_only, q, n - 1);
        if passes(posts[n - 1], drafts_only, q) {
            assert(kept(posts, drafts_only, q, n) == s.push((n - 1) as usize));
            assert forall|i: int| 0 <= i < s.len() + 1 implies 0 <= #[trigger] s.push(
                (n - 1) as usize,
            )[i] < n by {
                if i < s.len() {
                    assert(s.push((n - 1) as usize)[i] == s[i]);
                }
            }
        }
    }
}

/// The key order is asymmetric and, on distinct positions, total.
proof fn lemma_precedes_order(posts: Seq<Post>, mode: SortMode, a: int, b: int)
    ensures
        precedes(posts, mode, a, b) ==> !precedes(posts, mode, b, a),
{
    match mode {
        SortMode::TitleAsc | SortMode::TitleDesc => {
            let x = posts[a].title@;
            let y = posts[b].title@;
            crate::metadata::lemma_text_lt_irreflexive(x);
            crate::metadata::lemma_text_lt_irreflexive(y);
            if text_lt(x, y) && text_lt(y, x) {
                lemma_text_lt_transitive(x, y, x);
            }
        },
        _ => {},
    }
}

/// Whether the post at `a` comes before the one at `b`.
pub fn precedes_exec(posts: &Vec<Post>, mode: SortMode, a: usize, b: usize) -> (r: bool)
    requires
        a < posts.len(),
        b < posts.len(),
    ensures
        r == precedes(posts@, mode, a as int, b as int),
        a != b && !r ==> precedes(posts@, mode, b as int, a as int),
{
    let c = match mode {
        SortMode::DateDesc => compare_dates(posts[b].date, posts[a].date),
        SortMode::DateAsc => compare_dates(posts[a].date, posts[b].date),
        SortMode::TitleAsc => compare_text(posts[a].title.as_str(), posts[b].title.as_str()),
        SortMode::TitleDesc => compare_text(posts[b].title.as_str(), posts[a].title.as_str()),
    };
    c < 0 || (c == 0 && a < b)
}

/// `ps` in the order `precedes` gives.
///
/// The result holds the same positions and each comes before the next; input
/// that is already in order comes back unchanged, so sorting twice gives the
/// order that sorting once gave.
pub fn sort_positions(posts: &Vec<Post>, mode: SortMode, ps: &Vec<usize>) -> (r: Vec<usize>)
    requires
        valid_positions(posts@, ps@),
    ensures
        r@.to_multiset() == ps@.to_multiset(),
        r.len() == ps.len(),
        valid_positions(posts@, r@),
        in_order(posts@, mode, r@),
        in_order(posts@, mode, ps@) ==> r@ == ps@,
{
    let mut out: Vec<usize> = Vec::new();
    let mut i: usize = 0;
    assert(ps@.subrange(0, 0) =~= Seq::<usize>::empty());
    assert(out@ =~= Seq::<usize>::empty());
    while i < ps.len()
        invariant
            valid_positions(posts@, ps@),
            i <= ps.len(),
            out.len() == i,
            out@.to_multiset() == ps@.subrange(0, i as int).to_multiset(),
            forall|j: int| 0 <= j < out.len() ==> exists|k: int| 0 <= k < i && ps@[k] == #[trigger] out@[j],
            valid_positions(posts@, out@),
            in_order(posts@, mode, out@),
            in_order(posts@, mode, ps@) ==> out@ == ps@.subrange(0, i as int),
        decreases ps.len() - i,
    {
        let x = ps[i];
        let mut pos: usize = out.len();
        proof {
            if in_order(posts@, mode, ps@) && i > 0 {
                let k = i - 1;
                assert(precedes(posts@, mode, ps@[k] as int, ps@[k + 1] as int));
                lemma_precedes_order(posts@, mode, ps@[k] as int, ps@[k + 1] as int);
            }
        }
        while pos > 0 && precedes_exec(posts, mode, x, out[pos - 1])
            invariant
                valid_positions(posts@, ps@),
                valid_positions(posts@, out@),
                i < ps.len(),
                x == ps@[i as int],
                pos <= out.len(),
                forall|j: int| pos <= j < out.len() ==> precedes(posts@, mode, x as int, #[trigger] out@[j] as int),
                in_order(posts@, mode, ps@) ==> out@ == ps@.subrange(0, i as int),
                in_order(posts@, mode, ps@) && i > 0 ==> !precedes(posts@, mode, x as int, ps@[i - 1] as int),
                in_order(posts@, mode, ps@) ==> pos == out.len(),
                out.len() == i,
            decreases pos,
        {
            pos = pos - 1;
        }
        proof {
            assert forall|j: int| 0 <= j < out.len() implies out@[j] != x by {
                let k = choose|k: int| 0 <= k < i && ps@[k] == #[trigger] out@[j];
                assert(ps@[k] != ps@[i as int]);
            }
        }
        let ghost before = out@;
        out.insert(pos, x);
        proof {
            assert(out@ == before.insert(pos as int, x));
            assert(ps@.subrange(0, i + 1) =~= ps@.subrange(0, i as int).push(x));
            assert forall|j: int| 0 <= j < out.len() implies exists|k: int|
                0 <= k < i + 1 && ps@[k] == #[trigger] out@[j] by {
                if j < pos {
                    assert(out@[j] == before[j]);
                    let k = choose|k: int| 0 <= k < i && ps@[k] == #[trigger] before[j];
                } else if j == pos {
                    assert(ps@[i as int] == out@[j]);
                } else {
                    assert(out@[j] == before[j - 1]);
                    let k = choose|k: int| 0 <= k < i && ps@[k] == #[trigger] before[j - 1];
                }
            }
            assert forall|a: int, b: int| 0 <= a < b < out.len() implies out@[a] != out@[b] by {
                if a != pos && b != pos {
                    let a0 = if a < pos { a } else { a - 1 };
                    let b0 = if b < pos { b } else { b - 1 };
                    assert(before[a0] != before[b0]);
                }
            }
            assert forall|j: int| 0 <= j < out.len() - 1 implies #[trigger] precedes(
                posts@,
                mode,
                out@[j] as int,
                out@[j + 1] as int,
            ) by {
                if j + 1 < pos {
                    assert(precedes(posts@, mode, before[j] as int, before[j + 1] as int));
                } else if j + 1 == pos {
                    assert(!precedes(posts@, mode, x as int, before[j] as int));
                } else if j == pos {
                } else {
                    let k = j - 1;
                    assert(precedes(posts@, mode, before[k] as int, before[k + 1] as int));
                }
            }
            if in_order(posts@, mode, ps@) {
                assert(out@ =~= ps@.subrange(0, i + 1));
            }
        }
        i = i + 1;
    }
    assert(ps@.subrange(0, ps.len() as int) =~= ps@);
    out
}

/// Whether the post passes the search for the lowercased query `lq`.
pub fn post_matches(p: &Post, lq: &str) -> (r: bool)
    ensures
        r == search_hit(*p, lq@),
{
    let t = lowercase(p.title.as_str());
    if text_contains(t.as_str(), lq) {
        return true;
    }
    let c = lowercase(p.content.as_str());
    if text_contains(c.as_str(), lq) {
        return true;
    }
    let mut i: usize = 0;
    while i < p.categories.len()
        invariant
            i <= p.categories.len(),
            !contains(lower_of(p.title@), lq@),
            !contains(lower_of(p.content@), lq@),
            forall|j: int| 0 <= j < i ==> !contains(lower_of(#[trigger] p.categories@[j]@), lq@),
        decreases p.categories.len() - i,
    {
        let lc = lowercase(p.categories[i].as_str());
        if text_contains(lc.as_str(), lq) {
            return true;
        }
        i = i + 1;
    }
    false
}

/// The positions of the posts that pass the draft filter and the search for
/// `query`, in collection order.
pub fn filter_positions(posts: &Vec<Post>, drafts_only: bool, query: &str) -> (r: Vec<usize>)
    ensures
        r@ == kept(posts@, drafts_only, query@, posts.len() as int),
{
    let lq = lowercase(query);
    let empty = query.is_empty();
    let mut out: Vec<usize> = Vec::new();
    let mut i: usize = 0;
    while i < posts.len()
        invariant
            i <= posts.len(),
            empty == (query@.len() == 0),
            lq@ == lower_of(query@),
            out@ == kept(posts@, drafts_only, query@, i as int),
        decreases posts.len() - i,
    {
        let p = &posts[i];
        let pass = (!drafts_only || p.draft) && (empty || post_matches(p, lq.as_str()));
        if pass {
            out.push(i);
        }
        i = i + 1;
    }
    out
}

/// The visible posts: the positions of those that pass the draft filter and
/// the search, ordered by `precedes`.
pub fn visible_positions(posts: &Vec<Post>, drafts_only: bool, query: &str, mode: SortMode) -> (r:
    Vec<usize>)
    ensures
        r@.to_multiset() == kept(posts@, drafts_only, query@, posts.len() as int).to_multiset(),
        r.len() == kept(posts@, drafts_only, query@, posts.len() as int).len(),
        valid_positions(posts@, r@),
        in_order(posts@, mode, r@),
{
    let kept_ps = filter_positions(posts, drafts_only, query);
    proof {
        lemma_kept_ascends(posts@, drafts_only, query@, posts.len() as int);
    }
    sort_positions(posts, mode, &kept_ps)
}

/// `posts` rearranged: the post at each position of `order`, in turn.
pub fn arrange(posts: Vec<Post>, order: &Vec<usize>) -> (r: Vec<Post>)
    requires
        valid_positions(posts@, order@),
    ensures
        r.len() == order.len(),
        forall|i: int| 0 <= i < order.len() ==> r@[i] == posts@[#[trigger] order@[i] as int],
{
    let ghost orig = posts@;
    let n = posts.len();
    let mut rest = posts;
    let mut slots: Vec<Option<Post>> = Vec::new();
    while rest.len() > 0
        invariant
            slots.len() + rest.len() == n,
            n == orig.len(),
            forall|k: int| 0 <= k < slots.len() ==> slots@[k] == Some(orig[k]),
            forall|k: int| 0 <= k < rest.len() ==> rest@[k] == orig[slots.len() + k],
        decreases rest.len(),
    {
        let p = rest.remove(0);
        slots.push(Some(p));
    }
    let mut out: Vec<Post> = Vec::new();
    let mut j: usize = 0;
    while j < order.len()
        invariant
            valid_positions(orig, order@),
            slots.len() == n,
            n == orig.len(),
            j <= order.len(),
            out.len() == j,
            forall|i: int| 0 <= i < j ==> out@[i] == orig[#[trigger] order@[i] as int],
            forall|k: int|
                0 <= k < n ==> #[trigger] slots@[k] == if (exists|i: int|
                    0 <= i < j && order@[i] == k) {
                    None
                } else {
                    Some(orig[k])
                },
        decreases order.len() - j,
    {
        let k = order[j];
        proof {
            assert forall|i: int| 0 <= i < j implies order@[i] != k by {
                assert(order@[i] != order@[j as int]);
            }
        }
        slots.push(None);
        let taken = slots.swap_remove(k);
        assert(taken == Some(orig[k as int]));
        if let Some(p) = taken {
            out.push(p);
        }
        proof {
            assert forall|m: int| 0 <= m < n implies #[trigger] slots@[m] == if (exists|i: int|
                0 <= i < j + 1 && order@[i] == m) {
                None
            } else {
                Some(orig[m])
            } by {
                if m == k {
                    assert(order@[j as int] == m);
                } else if exists|i: int| 0 <= i < j + 1 && order@[i] == m {
                    let i = choose|i: int| 0 <= i < j + 1 && order@[i] == m;
                    assert(i < j);
                }
            }
        }
        j = j + 1;
    }
    out
}

/// The positions `0..n`, ascending.
fn all_positions(n: usize) -> (r: Vec<usize>)
    ensures
        r.len() == n,
        forall|i: int| 0 <= i < n ==> #[trigger] r@[i] == i,
{
    let mut r: Vec<usize> = Vec::new();
    let mut i: usize = 0;
    while i < n
        invariant
            i <= n,
            r.len() == i,
            forall|k: int| 0 <= k < i ==> #[trigger] r@[k] == k,
        decreases n - i,
    {
        r.push(i);
        i = i + 1;
    }
    r
}

/// `posts` newest first; posts without a date after all dated ones, and posts
/// with equal dates in the order they came in.
pub fn order_by_date(posts: Vec<Post>) -> (r: Vec<Post>)
    ensures
        exists|o: Seq<usize>|
            {
                &&& o.len() == posts.len()
                &&& valid_positions(posts@, o)
                &&& in_order(posts@, SortMode::DateDesc, o)
                &&& r.len() == o.len()
                &&& forall|i: int| 0 <= i < o.len() ==> r@[i] == posts@[#[trigger] o[i] as int]
            },
{
    let all = all_positions(posts.len());
    let order = sort_positions(&posts, SortMode::DateDesc, &all);
    let ghost o = order@;
    let ghost orig = posts@;
    let r = arrange(posts, &order);
    assert(forall|i: int| 0 <= i < o.len() ==> r@[i] == orig[#[trigger] o[i] as int]);
    r
}

/// What `Path::extension` reads from a path: the text after the last dot of
/// its file name, if there is one.
pub uninterp spec fn extension_of(path: Seq<char>) -> Option<Seq<char>>;

/// Relies on `Path::extension`: the file name's extension, as text.
#[verifier::external_body]
fn path_extension(path: &str) -> (r: Option<String>)
    ensures
        r matches Some(e) ==> extension_of(path@) == Some(e@),
        r is None ==> extension_of(path@) is None,
{
    std::path::Path::new(path).extension().map(|e| e.to_string_lossy().into_owned())
}

/// The path names a markdown document: its extension is `md` or `markdown`.
pub open spec fn is_markdown(path: Seq<char>) -> bool {
    extension_of(path) == Some("md"@) || extension_of(path) == Some("markdown"@)
}

/// Whether the path names a markdown document.
pub fn is_markdown_path(path: &str) -> (r: bool)
    ensures
        r == is_markdown(path@),
{
    match path_extension(path) {
        Some(e) => crate::codec::same_text(e.as_str(), "md") || crate::codec::same_text(
            e.as_str(),
            "markdown",
        ),
        None => false,
    }
}

/// The files that give a post: markdown paths whose text reads, in walk order.
pub open spec fn loadable(files: Seq<(String, String)>) -> Seq<(String, String)>
    decreases files.len(),
{
    if files.len() == 0 {
        Seq::empty()
    } else {
        let f = files.last();
        let rest = loadable(files.drop_last());
        if is_markdown(f.0@) && crate::posts::parsed(f.1@) is Some {
            rest.push(f)
        } else {
            rest
        }
    }
}

/// `ps` are the posts read from `fs`, one for one.
pub open spec fn read_from(ps: Seq<Post>, fs: Seq<(String, String)>) -> bool {
    &&& ps.len() == fs.len()
    &&& forall|i: int|
        0 <= i < ps.len() ==> {
            &&& (#[trigger] ps[i]).wf()
            &&& ps[i].path@ == fs[i].0@
            &&& match crate::posts::parsed(fs[i].1@) {
                Some((m, b)) => ps[i].content@ == b && ps[i].reads(m),
                None => false,
            }
        }
}

/// The posts of a content tree from its files, each a path and its text, in
/// the order the tree was walked.
///
/// Each markdown file whose text reads gives a post; other files and
/// documents that do not read are passed over. The posts come newest first,
/// undated ones last, and posts with equal dates in walk order.
pub fn collect_posts(files: Vec<(String, String)>) -> (r: Vec<Post>)
    ensures
        exists|ps: Seq<Post>, o: Seq<usize>|
            {
                &&& read_from(ps, loadable(files@))
                &&& o.len() == ps.len()
                &&& valid_positions(ps, o)
                &&& in_order(ps, SortMode::DateDesc, o)
                &&& r.len() == o.len()
                &&& forall|i: int| 0 <= i < o.len() ==> r@[i] == ps[#[trigger] o[i] as int]
            },
{
    let mut loaded: Vec<Post> = Vec::new();
    let mut i: usize = 0;
    while i < files.len()
        invariant
            i <= files.len(),
            read_from(loaded@, loadable(files@.subrange(0, i as int))),
        decreases files.len() - i,
    {
        let ghost pre = loaded@;
        let path = files[i].0.clone();
        let text = &files[i].1;
        assert(files@.subrange(0, i + 1).drop_last() =~= files@.subrange(0, i as int));
        if is_markdown_path(path.as_str()) {
            match crate::posts::post_from_text(path, text.as_str()) {
                Ok(p) => {
                    loaded.push(p);
                    assert(read_from(loaded@, loadable(files@.subrange(0, i + 1)))) by {
                        let fs = loadable(files@.subrange(0, i + 1));
                        assert forall|j: int| 0 <= j < loaded@.len() implies {
                            &&& (#[trigger] loaded@[j]).wf()
                            &&& loaded@[j].path@ == fs[j].0@
                            &&& match crate::posts::parsed(fs[j].1@) {
                                Some((m, b)) => loaded@[j].content@ == b && loaded@[j].reads(m),
                                None => false,
                            }
                        } by {
                            if j < pre.len() {
                                assert(loaded@[j] == pre[j]);
                            }
                        }
                    }
                },
                Err(_) => {},
            }
        }
        i = i + 1;
    }
    assert(files@.subrange(0, files.len() as int) =~= files@);
    let ghost before = loaded@;
    let r = order_by_date(loaded);
    proof {
        let o = choose|o: Seq<usize>|
            {
                &&& o.len() == before.len()
                &&& valid_positions(before, o)
                &&& in_order(before, SortMode::DateDesc, o)
                &&& r.len() == o.len()
                &&& forall|i: int| 0 <= i < o.len() ==> r@[i] == before[#[trigger] o[i] as int]
            };
        assert(read_from(before, loadable(files@)));
    }
    r
}

/// The order on positions is transitive.
pub proof fn lemma_precedes_transitive(posts: Seq<Post>, mode: SortMode, a: int, b: int, c: int)
    requires
        precedes(posts, mode, a, b),
        precedes(posts, mode, b, c),
    ensures
        precedes(posts, mode, a, c),
{
    match mode {
        SortMode::TitleAsc => {
            let (x, y, z) = (posts[a].title@, posts[b].title@, posts[c].title@);
            if text_lt(x, y) && text_lt(y, z) {
                lemma_text_lt_transitive(x, y, z);
            }
        },
        SortMode::TitleDesc => {
            let (x, y, z) = (posts[a].title@, posts[b].title@, posts[c].title@);
            if text_lt(z, y) && text_lt(y, x) {
                lemma_text_lt_transitive(z, y, x);
            }
        },
        _ => {},
    }
}

/// In a list where each position comes before the next, each comes before
/// every later one.
pub proof fn lemma_in_order_pairwise(posts: Seq<Post>, mode: SortMode, s: Seq<usize>, i: int, j: int)
    requires
        in_order(posts, mode, s),
        0 <= i < j < s.len(),
    ensures
        precedes(posts, mode, s[i] as int, s[j] as int),
    decreases j - i,
{
    if j == i + 1 {
        assert(precedes(posts, mode, s[i] as int, s[i + 1] as int));
    } else {
        lemma_in_order_pairwise(posts, mode, s, i, j - 1);
        let k = j - 1;
        assert(precedes(posts, mode, s[k] as int, s[k + 1] as int));
        lemma_precedes_transitive(posts, mode, s[i] as int, s[j - 1] as int, s[j] as int);
    }
}

/// Two lists of the same positions, each in order, are the same list: the
/// visible list is determined by the posts, the filters and the sort mode.
pub proof fn lemma_order_unique(posts: Seq<Post>, mode: SortMode, s: Seq<usize>, t: Seq<usize>)
    requires
        s.to_multiset() == t.to_multiset(),
        in_order(posts, mode, s),
        in_order(posts, mode, t),
    ensures
        s == t,
    decreases s.len(),
{
    broadcast use vstd::seq_lib::to_multiset_contains, vstd::seq_lib::to_multiset_remove,
        vstd::seq_lib::to_multiset_len;

    vstd::seq_lib::to_multiset_len(s);
    vstd::seq_lib::to_multiset_len(t);
    if s.len() == 0 {
        assert(t.len() == 0);
        assert(s =~= t);
    } else {
        assert(s.to_multiset().count(s[0]) > 0);
        assert(t.contains(s[0]));
        let j = choose|j: int| 0 <= j < t.len() && t[j] == s[0];
        assert(t.to_multiset().count(t[0]) > 0);
        assert(s.contains(t[0]));
        let i = choose|i: int| 0 <= i < s.len() && s[i] == t[0];
        if i > 0 && j > 0 {
            lemma_in_order_pairwise(posts, mode, s, 0, i);
            lemma_in_order_pairwise(posts, mode, t, 0, j);
            lemma_precedes_order(posts, mode, s[0] as int, t[0] as int);
        }
        assert(s[0] == t[0]);
        let s1 = s.remove(0);
        let t1 = t.remove(0);
        assert(s1.to_multiset() == t1.to_multiset());
        assert forall|k: int| 0 <= k < s1.len() - 1 implies #[trigger] precedes(
            posts,
            mode,
            s1[k] as int,
            s1[k + 1] as int,
        ) by {
            let m = k + 1;
            assert(precedes(posts, mode, s[m] as int, s[m + 1] as int));
        }
        assert forall|k: int| 0 <= k < t1.len() - 1 implies #[trigger] precedes(
            posts,
            mode,
            t1[k] as int,
            t1[k + 1] as int,
        ) by {
            let m = k + 1;
            assert(precedes(posts, mode, t[m] as int, t[m + 1] as int));
        }
        lemma_order_unique(posts, mode, s1, t1);
        assert forall|k: int| 0 <= k < s.len() implies s[k] == t[k] by {
            if k > 0 {
                assert(s[k] == s1[k - 1]);
                assert(t[k] == t1[k - 1]);
            }
        }
        assert(s =~= t);
    }
}

} // verus!
