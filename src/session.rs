//! The interactive session: pane focus, selection, search capture, field
//! editing, and the actions handed to the surrounding program.
use vstd::prelude::*;

use crate::codec::owned;
use crate::config::Config;
use crate::posts::{edited_value, render_post, DeleteOutcome, Post};
use crate::value::{append_text, edit_text_of, FieldModel};
use crate::view::{in_order, kept, valid_positions, visible_positions, SortMode};

verus! {

/// The three panes focus moves between.
#[derive(Clone, Copy, Debug, PartialEq, Eq, Structural)]
pub enum Pane {
    List,
    Metadata,
    Body,
}

impl Pane {
    /// The pane that follows this one in the ring list, metadata, body.
    pub open spec fn after(self) -> Pane {
        match self {
            Pane::List => Pane::Metadata,
            Pane::Metadata => Pane::Body,
            Pane::Body => Pane::List,
        }
    }

    /// The pane after this one.
    pub fn next(self) -> (r: Pane)
        ensures
            r == self.after(),
    {
        match self {
            Pane::List => Pane::Metadata,
            Pane::Metadata => Pane::Body,
            Pane::Body => Pane::List,
        }
    }

    /// The pane before this one in the ring.
    pub fn prev(self) -> (r: Pane)
        ensures
            r.after() == self,
    {
        match self {
            Pane::List => Pane::Body,
            Pane::Metadata => Pane::List,
            Pane::Body => Pane::Metadata,
        }
    }
}

/// A key press, as the session tells keys apart.
#[derive(Clone, Copy, Debug, PartialEq, Eq, Structural)]
pub enum Key {
    Char(char),
    Ctrl(char),
    Enter,
    Esc,
    Backspace,
    Tab,
    BackTab,
    Left,
    Right,
    Up,
    Down,
    Other,
}

/// What the surrounding program is asked to do after a key.
pub enum Action {
    /// Nothing.
    Stay,
    /// End the session.
    Quit,
    /// Write `text` to the file at `path`, then report with `save_finished`.
    Write { path: String, text: String },
    /// Open the file at `path` in the editor, then report with `editor_finished`.
    EditFile { path: String },
    /// Load the posts again, then hand them to `replace_posts`.
    Rescan,
    /// Open `url` in a browser, then report with `browser_finished`.
    OpenUrl { url: String },
}

/// The session state.
pub struct App {
    pub config: Config,
    pub posts: Vec<Post>,
    pub selected: usize,
    pub focused_pane: Pane,
    pub metadata_selected: usize,
    pub content_scroll: usize,
    pub search_query: String,
    pub search_mode: bool,
    pub sort_mode: SortMode,
    pub drafts_only: bool,
    pub edit_mode: bool,
    pub edit_buffer: String,
    pub status_message: String,
    pub adding_field: bool,
    pub new_field_key: String,
}

/// `s` followed by `t`, as a new string.
fn concat(s: &str, t: &str) -> (r: String)
    ensures
        r@ == s@ + t@,
{
    let mut r = owned(s);
    append_text(&mut r, t);
    r
}

/// Relies on `String::pop`: the last character comes off, if there is one.
#[verifier::external_body]
fn pop_char(s: &mut String)
    ensures
        old(s)@.len() > 0 ==> final(s)@ == old(s)@.drop_last(),
        old(s)@.len() == 0 ==> final(s)@ == old(s)@,
{
    s.pop();
}

/// `v` is the visible list of `posts` under the filters and the sort mode.
pub open spec fn view_of(
    posts: Seq<Post>,
    drafts_only: bool,
    q: Seq<char>,
    mode: SortMode,
    v: Seq<usize>,
) -> bool {
    &&& v.to_multiset() == kept(posts, drafts_only, q, posts.len() as int).to_multiset()
    &&& v.len() == kept(posts, drafts_only, q, posts.len() as int).len()
    &&& valid_positions(posts, v)
    &&& in_order(posts, mode, v)
}

/// Position `selected` of the visible list holds `k`.
pub open spec fn selected_in(
    posts: Seq<Post>,
    drafts_only: bool,
    q: Seq<char>,
    mode: SortMode,
    selected: int,
    k: int,
) -> bool {
    exists|v: Seq<usize>|
        view_of(posts, drafts_only, q, mode, v) && 0 <= selected < v.len() && v[selected] == k
}

/// The selection points at one post at most.
pub proof fn lemma_selection_unique(
    posts: Seq<Post>,
    drafts_only: bool,
    q: Seq<char>,
    mode: SortMode,
    selected: int,
    k1: int,
    k2: int,
)
    requires
        selected_in(posts, drafts_only, q, mode, selected, k1),
        selected_in(posts, drafts_only, q, mode, selected, k2),
    ensures
        k1 == k2,
{
    let v1 = choose|v: Seq<usize>|
        view_of(posts, drafts_only, q, mode, v) && 0 <= selected < v.len() && v[selected] == k1;
    let v2 = choose|v: Seq<usize>|
        view_of(posts, drafts_only, q, mode, v) && 0 <= selected < v.len() && v[selected] == k2;
    crate::view::lemma_order_unique(posts, mode, v1, v2);
}

/// The status line after a key: kept on Ctrl-S, cleared on any other key.
pub open spec fn status_after(pre: App, post: App, key: Key) -> bool {
    post.status_message@ == if key == Key::Ctrl('s') {
        pre.status_message@
    } else {
        Seq::empty()
    }
}

/// One key while the search query is typed: characters extend the query,
/// backspace shortens it, and either selects the first post; Enter or Esc
/// end the capture and keep the query. Nothing else changes.
pub open spec fn search_step(pre: App, post: App, key: Key) -> bool {
    &&& status_after(pre, post, key)
    &&& match key {
        Key::Char(c) | Key::Ctrl(c) => {
            &&& post.search_query@ == pre.search_query@.push(c)
            &&& post == App {
                search_query: post.search_query,
                selected: 0,
                status_message: post.status_message,
                ..pre
            }
        },
        Key::Backspace => {
            &&& pre.search_query@.len() > 0 ==> post.search_query@
                == pre.search_query@.drop_last()
            &&& pre.search_query@.len() == 0 ==> post.search_query@ == pre.search_query@
            &&& post == App {
                search_query: post.search_query,
                selected: 0,
                status_message: post.status_message,
                ..pre
            }
        },
        Key::Enter | Key::Esc => post == App {
            search_mode: false,
            status_message: post.status_message,
            ..pre
        },
        _ => post == App { status_message: post.status_message, ..pre },
    }
}

/// The post at `k` alone changed, and its metadata is now `after`.
pub open spec fn only_changed(pre: App, post: App, k: int, after: Map<Seq<char>, FieldModel>) -> bool {
    &&& 0 <= k < pre.posts.len()
    &&& post.posts@ == pre.posts@.update(k, post.posts@[k])
    &&& post.posts@[k].metadata@ == after
}

/// The edit buffer committed to the selected field of the post at `k`: the
/// field takes `edited_value`, and the title, draft flag and content type
/// follow it. Without a field at the selected row, no post changes.
pub open spec fn committed(pre: App, post: App, k: int) -> bool {
    let ms = pre.metadata_selected as int;
    if ms < pre.posts@[k].metadata.entries.len() {
        let key = pre.field_key(k, ms);
        let b = pre.edit_buffer@;
        let (p, q) = (pre.posts@[k], post.posts@[k]);
        &&& only_changed(pre, post, k, p.metadata@.insert(key, edited_value(key, b)))
        &&& q.title@ == if key == "title"@ { b } else { p.title@ }
        &&& q.draft == if key == "draft"@ { b == "true"@ } else { p.draft }
        &&& q.content_type@ == if key == "content_type"@ || key == "type"@ {
            b
        } else {
            p.content_type@
        }
        &&& q.path == p.path && q.date == p.date && q.content == p.content
        &&& q.categories == p.categories && q.tags == p.tags
    } else {
        post.posts@ == pre.posts@
    }
}

/// One key while a field is edited or added: characters go into the buffer
/// and backspace shortens it; Esc drops the edit and changes no post; Enter
/// commits the edit, or in adding takes the name first and sets the field
/// second. Nothing else changes.
pub open spec fn edit_step(pre: App, post: App, key: Key) -> bool {
    &&& status_after(pre, post, key)
    &&& match key {
        Key::Char(c) | Key::Ctrl(c) => {
            &&& post.edit_buffer@ == pre.edit_buffer@.push(c)
            &&& post == App {
                edit_buffer: post.edit_buffer,
                status_message: post.status_message,
                ..pre
            }
        },
        Key::Backspace => {
            &&& pre.edit_buffer@.len() > 0 ==> post.edit_buffer@ == pre.edit_buffer@.drop_last()
            &&& pre.edit_buffer@.len() == 0 ==> post.edit_buffer@ == pre.edit_buffer@
            &&& post == App {
                edit_buffer: post.edit_buffer,
                status_message: post.status_message,
                ..pre
            }
        },
        Key::Esc => {
            &&& post.edit_buffer@.len() == 0
            &&& post.new_field_key@.len() == 0
            &&& post == App {
                edit_mode: false,
                adding_field: false,
                edit_buffer: post.edit_buffer,
                new_field_key: post.new_field_key,
                status_message: post.status_message,
                ..pre
            }
        },
        Key::Enter => if pre.adding_field {
            if pre.new_field_key@.len() == 0 {
                &&& post.edit_buffer@.len() == 0
                &&& post == App {
                    new_field_key: pre.edit_buffer,
                    edit_buffer: post.edit_buffer,
                    status_message: post.status_message,
                    ..pre
                }
            } else {
                &&& post.edit_buffer@.len() == 0
                &&& post.new_field_key@.len() == 0
                &&& post == App {
                    posts: post.posts,
                    adding_field: false,
                    edit_buffer: post.edit_buffer,
                    new_field_key: post.new_field_key,
                    status_message: post.status_message,
                    ..pre
                }
                &&& pre.selected >= pre.view_len() ==> post.posts@ == pre.posts@
                &&& pre.selected < pre.view_len() ==> exists|k: int|
                    #[trigger] pre.selects(k) && only_changed(
                        pre,
                        post,
                        k,
                        pre.posts@[k].metadata@.insert(
                            pre.new_field_key@,
                            FieldModel::Text(pre.edit_buffer@),
                        ),
                    ) && post.posts@[k].same_but_metadata(pre.posts@[k])
            }
        } else {
            &&& post.edit_buffer@.len() == 0
            &&& post == App {
                posts: post.posts,
                edit_mode: false,
                edit_buffer: post.edit_buffer,
                status_message: post.status_message,
                ..pre
            }
            &&& pre.selected >= pre.view_len() ==> post.posts@ == pre.posts@
            &&& pre.selected < pre.view_len() ==> exists|k: int|
                #[trigger] pre.selects(k) && committed(pre, post, k)
        },
        _ => post == App { status_message: post.status_message, ..pre },
    }
}

/// Enter on the metadata pane: on the row after the last field, adding starts
/// with empty buffers; on a field, editing starts from the field's text.
pub open spec fn confirm_fields(pre: App, post: App) -> bool {
    &&& pre.selected >= pre.view_len() ==> !post.adding_field && !post.edit_mode
    &&& pre.selected < pre.view_len() ==> exists|k: int|
        #[trigger] pre.selects(k) && {
            let n = pre.posts@[k].metadata.entries.len();
            &&& post.adding_field == (pre.metadata_selected == n)
            &&& post.edit_mode == (pre.metadata_selected < n)
            &&& post.adding_field ==> post.edit_buffer@.len() == 0 && post.new_field_key@.len()
                == 0
            &&& post.edit_mode ==> post.edit_buffer@ == edit_text_of(
                pre.posts@[k].metadata.value(pre.metadata_selected as int),
            )
        }
}

/// `d` on the metadata pane with the post at `k` selected: a field other than
/// the title is removed and named in the status line; the title stays and the
/// status line says so; the row after the last field removes nothing.
pub open spec fn deleted(pre: App, post: App, k: int) -> bool {
    let ms = pre.metadata_selected as int;
    let n = pre.posts@[k].metadata.entries.len();
    if ms >= n {
        post.posts@ == pre.posts@ && post.metadata_selected == pre.metadata_selected
    } else if pre.field_key(k, ms) == crate::codec::title_key() {
        &&& post.posts@ == pre.posts@
        &&& post.metadata_selected == pre.metadata_selected
        &&& post.status_message@ == "\u{2717} Cannot delete title field"@
    } else {
        let key = pre.field_key(k, ms);
        &&& only_changed(pre, post, k, pre.posts@[k].metadata@.remove(key))
        &&& post.posts@[k].same_but_metadata(pre.posts@[k])
        &&& post.status_message@ == "\u{2713} Deleted field: "@ + key
        &&& post.metadata_selected == if ms > 0 && ms > n - 1 {
            ms - 1
        } else {
            ms
        }
    }
}

/// Ctrl-S: the selected post's document text is asked to be written to its
/// path, or the status line gives the encoder's error.
pub open spec fn save_asked(pre: App, post: App, r: Action) -> bool {
    &&& post == App { status_message: post.status_message, ..pre }
    &&& pre.selected >= pre.view_len() ==> r is Stay && post.status_message == pre.status_message
    &&& pre.selected < pre.view_len() ==> exists|k: int|
        #[trigger] pre.selects(k) && match crate::codec::rendered(
            pre.posts@[k].metadata,
            pre.posts@[k].content@,
        ) {
            Some(t) => (r matches Action::Write { path, text } && path == pre.posts@[k].path
                && text@ == t) && post.status_message == pre.status_message,
            None => r is Stay && exists|e: Seq<char>|
                post.status_message@ == "\u{2717} Error saving: "@ + e,
        }
}

/// `o`: the selected post's preview address is asked to be opened, or the
/// status line says none can be made.
pub open spec fn preview_asked(pre: App, post: App, r: Action) -> bool {
    &&& post == App { status_message: post.status_message, ..pre }
    &&& pre.selected >= pre.view_len() ==> r is Stay && post.status_message == pre.status_message
    &&& pre.selected < pre.view_len() ==> exists|k: int|
        #[trigger] pre.selects(k) && match crate::config::preview_of(
            pre.config.ssg,
            pre.config.site_path@,
            pre.posts@[k].path@,
        ) {
            Some(u) => (r matches Action::OpenUrl { url } && url@ == u) && post.status_message
                == pre.status_message,
            None => r is Stay && post.status_message@
                == "\u{2717} Could not construct preview URL"@,
        }
}

/// `d` on the metadata pane, as `deleted` says for the selected post.
pub open spec fn delete_done(pre: App, post: App) -> bool {
    &&& post == App {
        posts: post.posts,
        metadata_selected: post.metadata_selected,
        status_message: post.status_message,
        ..pre
    }
    &&& pre.selected >= pre.view_len() ==> {
        &&& post.posts@ == pre.posts@
        &&& post.metadata_selected == pre.metadata_selected
        &&& post.status_message == pre.status_message
    }
    &&& pre.selected < pre.view_len() ==> exists|k: int|
        #[trigger] pre.selects(k) && deleted(pre, post, k)
}

/// Enter in normal mode on each pane.
pub open spec fn confirm_done(pre: App, post: App, r: Action) -> bool {
    &&& pre.focused_pane == Pane::List ==> r is Stay && post == pre
    &&& pre.focused_pane == Pane::Metadata ==> {
        &&& r is Stay
        &&& confirm_fields(pre, post)
        &&& post == App {
            edit_mode: post.edit_mode,
            adding_field: post.adding_field,
            edit_buffer: post.edit_buffer,
            new_field_key: post.new_field_key,
            ..pre
        }
    }
    &&& pre.focused_pane == Pane::Body ==> {
        &&& post == App { status_message: post.status_message, ..pre }
        &&& pre.selected < pre.view_len() ==> post.status_message == pre.status_message
            && exists|k: int|
            #[trigger] pre.selects(k) && (r matches Action::EditFile { path } && path
                == pre.posts@[k].path)
        &&& pre.selected >= pre.view_len() ==> r is Rescan && post.status_message@
            == "\u{2713} Reloaded after edit"@
    }
}

/// One key in normal mode. Only the quit keys end the session; saving,
/// opening the editor, loading again and previewing are asked for through the
/// action; every other key answers `Stay`. Nothing but what is named changes.
pub open spec fn normal_step(pre: App, post: App, key: Key, r: Action) -> bool {
    match plain(key) {
        Key::Char('q') | Key::Ctrl('c') => {
            &&& r is Quit
            &&& post.status_message@.len() == 0
            &&& post == App { status_message: post.status_message, ..pre }
        },
        Key::Tab | Key::Char('l') | Key::Right => {
            &&& r is Stay
            &&& post.status_message@.len() == 0
            &&& post == App {
                focused_pane: pre.focused_pane.after(),
                metadata_selected: 0,
                content_scroll: 0,
                status_message: post.status_message,
                ..pre
            }
        },
        Key::BackTab | Key::Char('h') | Key::Left => {
            &&& r is Stay
            &&& post.status_message@.len() == 0
            &&& post.focused_pane.after() == pre.focused_pane
            &&& post == App {
                focused_pane: post.focused_pane,
                metadata_selected: 0,
                content_scroll: 0,
                status_message: post.status_message,
                ..pre
            }
        },
        Key::Char('/') => {
            &&& r is Stay
            &&& post.search_query@.len() == 0
            &&& post.status_message@ == "Search mode: type to filter posts"@
            &&& post == App {
                search_mode: true,
                search_query: post.search_query,
                selected: 0,
                status_message: post.status_message,
                ..pre
            }
        },
        Key::Char('s') => {
            &&& r is Stay
            &&& post.status_message@.len() == 0
            &&& post == App {
                sort_mode: pre.sort_mode.following(),
                selected: 0,
                status_message: post.status_message,
                ..pre
            }
        },
        Key::Char('f') => {
            &&& r is Stay
            &&& post.status_message@.len() == 0
            &&& post == App {
                drafts_only: !pre.drafts_only,
                selected: 0,
                status_message: post.status_message,
                ..pre
            }
        },
        Key::Char('r') => {
            &&& r is Rescan
            &&& post.status_message@.len() == 0
            &&& post == App { status_message: post.status_message, ..pre }
        },
        Key::Char('j') | Key::Down => {
            &&& r is Stay
            &&& post.status_message@.len() == 0
            &&& post == App {
                selected: post.selected,
                metadata_selected: post.metadata_selected,
                content_scroll: post.content_scroll,
                status_message: post.status_message,
                ..pre
            }
            &&& pre.focused_pane == Pane::List ==> {
                &&& post.selected == if pre.view_len() > 0 && pre.selected < pre.view_len() - 1 {
                    pre.selected + 1
                } else {
                    pre.selected as int
                }
                &&& post.metadata_selected == pre.metadata_selected
                &&& post.content_scroll == pre.content_scroll
            }
            &&& pre.focused_pane == Pane::Metadata ==> {
                &&& post.selected == pre.selected
                &&& post.content_scroll == pre.content_scroll
                &&& pre.selected >= pre.view_len() ==> post.metadata_selected
                    == pre.metadata_selected
                &&& pre.selected < pre.view_len() ==> exists|k: int|
                    #[trigger] pre.selects(k) && post.metadata_selected == if pre.metadata_selected
                        < pre.posts@[k].metadata.entries.len() {
                        pre.metadata_selected + 1
                    } else {
                        pre.metadata_selected as int
                    }
            }
            &&& pre.focused_pane == Pane::Body ==> {
                &&& post.selected == pre.selected
                &&& post.metadata_selected == pre.metadata_selected
                &&& post.content_scroll == if pre.content_scroll < usize::MAX {
                    pre.content_scroll + 1
                } else {
                    pre.content_scroll as int
                }
            }
        },
        Key::Char('k') | Key::Up => {
            &&& r is Stay
            &&& post.status_message@.len() == 0
            &&& post == App {
                selected: post.selected,
                metadata_selected: post.metadata_selected,
                content_scroll: post.content_scroll,
                status_message: post.status_message,
                ..pre
            }
            &&& post.selected == if pre.focused_pane == Pane::List && pre.selected > 0 {
                pre.selected - 1
            } else {
                pre.selected as int
            }
            &&& post.metadata_selected == if pre.focused_pane == Pane::Metadata
                && pre.metadata_selected > 0 {
                pre.metadata_selected - 1
            } else {
                pre.metadata_selected as int
            }
            &&& post.content_scroll == if pre.focused_pane == Pane::Body && pre.content_scroll
                > 0 {
                pre.content_scroll - 1
            } else {
                pre.content_scroll as int
            }
        },
        Key::Enter => {
            &&& pre.focused_pane == Pane::List ==> r is Stay && post.status_message@.len() == 0
                && post == App { status_message: post.status_message, ..pre }
            &&& pre.focused_pane == Pane::Metadata ==> {
                &&& r is Stay
                &&& post.status_message@.len() == 0
                &&& confirm_fields(pre, post)
                &&& post == App {
                    edit_mode: post.edit_mode,
                    adding_field: post.adding_field,
                    edit_buffer: post.edit_buffer,
                    new_field_key: post.new_field_key,
                    status_message: post.status_message,
                    ..pre
                }
            }
            &&& pre.focused_pane == Pane::Body ==> {
                &&& post == App { status_message: post.status_message, ..pre }
                &&& pre.selected < pre.view_len() ==> post.status_message@.len() == 0
                    && exists|k: int|
                    #[trigger] pre.selects(k) && (r matches Action::EditFile { path } && path
                        == pre.posts@[k].path)
                &&& pre.selected >= pre.view_len() ==> r is Rescan && post.status_message@
                    == "\u{2713} Reloaded after edit"@
            }
        },
        Key::Esc => {
            &&& r is Stay
            &&& post == App {
                search_query: post.search_query,
                selected: post.selected,
                status_message: post.status_message,
                ..pre
            }
            &&& pre.search_query@.len() > 0 ==> {
                &&& post.search_query@.len() == 0
                &&& post.selected == 0
                &&& post.status_message@ == "Search cleared"@
            }
            &&& pre.search_query@.len() == 0 ==> {
                &&& post.search_query == pre.search_query
                &&& post.selected == pre.selected
                &&& post.status_message@.len() == 0
            }
        },
        Key::Ctrl('s') => {
            &&& post == App { status_message: post.status_message, ..pre }
            &&& pre.selected >= pre.view_len() ==> r is Stay && post.status_message
                == pre.status_message
            &&& pre.selected < pre.view_len() ==> exists|k: int|
                #[trigger] pre.selects(k) && match crate::codec::rendered(
                    pre.posts@[k].metadata,
                    pre.posts@[k].content@,
                ) {
                    Some(t) => (r matches Action::Write { path, text } && path
                        == pre.posts@[k].path && text@ == t) && post.status_message
                        == pre.status_message,
                    None => r is Stay && exists|e: Seq<char>|
                        post.status_message@ == "\u{2717} Error saving: "@ + e,
                }
        },
        Key::Char('d') => {
            &&& r is Stay
            &&& post == App {
                posts: post.posts,
                metadata_selected: post.metadata_selected,
                status_message: post.status_message,
                ..pre
            }
            &&& pre.focused_pane != Pane::Metadata || pre.selected >= pre.view_len() ==> {
                &&& post.posts@ == pre.posts@
                &&& post.metadata_selected == pre.metadata_selected
                &&& post.status_message@.len() == 0
            }
            &&& pre.focused_pane == Pane::Metadata && pre.selected < pre.view_len() ==> exists|
                k: int,
            | #[trigger] pre.selects(k) && deleted(pre, post, k)
        },
        Key::Char('o') => {
            &&& post == App { status_message: post.status_message, ..pre }
            &&& pre.selected >= pre.view_len() ==> r is Stay && post.status_message@.len() == 0
            &&& pre.selected < pre.view_len() ==> exists|k: int|
                #[trigger] pre.selects(k) && match crate::config::preview_of(
                    pre.config.ssg,
                    pre.config.site_path@,
                    pre.posts@[k].path@,
                ) {
                    Some(u) => (r matches Action::OpenUrl { url } && url@ == u)
                        && post.status_message@.len() == 0,
                    None => r is Stay && post.status_message@
                        == "\u{2717} Could not construct preview URL"@,
                }
        },
        _ => {
            &&& r is Stay
            &&& post.status_message@.len() == 0
            &&& post == App { status_message: post.status_message, ..pre }
        },
    }
}

impl App {
    /// Every post is well formed.
    pub open spec fn wf(self) -> bool {
        forall|i: int| 0 <= i < self.posts.len() ==> (#[trigger] self.posts@[i]).wf()
    }

    /// `v` is the visible list: the positions of the posts that pass the
    /// filters, in sort order.
    pub open spec fn is_view(self, v: Seq<usize>) -> bool {
        view_of(self.posts@, self.drafts_only, self.search_query@, self.sort_mode, v)
    }

    /// How many posts are visible.
    pub open spec fn view_len(self) -> int {
        kept(self.posts@, self.drafts_only, self.search_query@, self.posts.len() as int).len()
            as int
    }

    /// The selection points at the post at `k`.
    pub open spec fn selects(self, k: int) -> bool {
        selected_in(
            self.posts@,
            self.drafts_only,
            self.search_query@,
            self.sort_mode,
            self.selected as int,
            k,
        )
    }

    /// A session over `posts`, focused on the list, nothing selected beyond the
    /// first post, newest first, no filter, no search.
    pub fn new(config: Config, posts: Vec<Post>) -> (r: App)
        requires
            forall|i: int| 0 <= i < posts.len() ==> (#[trigger] posts@[i]).wf(),
        ensures
            r.wf(),
            r.posts == posts,
            r.selected == 0,
            r.focused_pane == Pane::List,
            r.metadata_selected == 0,
            r.content_scroll == 0,
            r.search_query@.len() == 0,
            !r.search_mode,
            r.sort_mode == SortMode::DateDesc,
            !r.drafts_only,
            !r.edit_mode,
            r.edit_buffer@.len() == 0,
            r.status_message@.len() == 0,
            !r.adding_field,
            r.new_field_key@.len() == 0,
    {
        App {
            config,
            posts,
            selected: 0,
            focused_pane: Pane::List,
            metadata_selected: 0,
            content_scroll: 0,
            search_query: String::new(),
            search_mode: false,
            sort_mode: SortMode::DateDesc,
            drafts_only: false,
            edit_mode: false,
            edit_buffer: String::new(),
            status_message: String::new(),
            adding_field: false,
            new_field_key: String::new(),
        }
    }

    /// The visible list: positions of the posts that pass the draft filter and
    /// the search, in sort order.
    pub fn get_filtered_posts(&self) -> (r: Vec<usize>)
        ensures
            self.is_view(r@),
    {
        visible_positions(&self.posts, self.drafts_only, self.search_query.as_str(), self.sort_mode)
    }

    /// The position in `posts` of the selected post, if the selection points at one.
    pub fn selected_position(&self) -> (r: Option<usize>)
        ensures
            match r {
                Some(k) => k < self.posts.len() && self.selects(k as int),
                None => self.selected >= self.view_len(),
            },
    {
        let v = self.get_filtered_posts();
        if self.selected < v.len() {
            assert(v@[self.selected as int] < self.posts.len());
            Some(v[self.selected])
        } else {
            None
        }
    }

    /// Moves the selection down one post, stopping at the last.
    pub fn select_next(&mut self)
        ensures
            final(self).selected == if old(self).view_len() > 0 && old(self).selected < old(self).view_len() - 1 {
                old(self).selected + 1
            } else {
                old(self).selected as int
            },
            *final(self) == (App { selected: final(self).selected, ..*old(self) }),
    {
        let n = self.get_filtered_posts().len();
        if n > 0 && self.selected < n - 1 {
            self.selected = self.selected + 1;
        }
    }

    /// Moves the selection up one post, stopping at the first.
    pub fn select_prev(&mut self)
        ensures
            final(self).selected == if old(self).selected > 0 {
                old(self).selected - 1
            } else {
                0int
            },
            *final(self) == (App { selected: final(self).selected, ..*old(self) }),
    {
        if self.selected > 0 {
            self.selected = self.selected - 1;
        }
    }

    /// Moves to the next sort mode and selects the first post.
    pub fn cycle_sort(&mut self)
        ensures
            *final(self) == (App { sort_mode: old(self).sort_mode.following(), selected: 0, ..*old(self) }),
    {
        self.sort_mode = self.sort_mode.next();
        self.selected = 0;
    }

    /// Turns the draft filter on or off and selects the first post.
    pub fn toggle_drafts(&mut self)
        ensures
            *final(self) == (App { drafts_only: !old(self).drafts_only, selected: 0, ..*old(self) }),
    {
        self.drafts_only = !self.drafts_only;
        self.selected = 0;
    }

    /// Replaces the posts with a fresh load.
    pub fn replace_posts(&mut self, posts: Vec<Post>)
        requires
            forall|i: int| 0 <= i < posts.len() ==> (#[trigger] posts@[i]).wf(),
        ensures
            final(self).wf(),
            final(self).posts == posts,
            final(self).selected == old(self).selected,
    {
        self.posts = posts;
    }

    /// Records how writing the file at `path` went.
    pub fn save_finished(&mut self, path: &str, result: Result<(), String>)
        ensures
            final(self).status_message@ == match result {
                Ok(_) => "\u{2713} Saved: "@ + path@,
                Err(e) => "\u{2717} Error saving: "@ + e@,
            },
            final(self).posts@ == old(self).posts@,
    {
        self.status_message = match result {
            Ok(_) => concat("\u{2713} Saved: ", path),
            Err(e) => concat("\u{2717} Error saving: ", e.as_str()),
        };
    }

    /// Records how the editor went: on success the posts are the fresh load
    /// that followed it.
    pub fn editor_finished(&mut self, result: Result<Vec<Post>, String>)
        requires
            old(self).wf(),
            result matches Ok(ps) ==> forall|i: int| 0 <= i < ps.len() ==> (#[trigger] ps@[i]).wf(),
        ensures
            final(self).wf(),
            match result {
                Ok(ps) => final(self).posts == ps && final(self).status_message@
                    == "\u{2713} Reloaded after edit"@,
                Err(e) => final(self).posts@ == old(self).posts@ && final(self).status_message@
                    == "\u{2717} Error opening editor: "@ + e@,
            },
    {
        match result {
            Ok(ps) => {
                self.posts = ps;
                self.status_message = owned("\u{2713} Reloaded after edit");
            },
            Err(e) => {
                self.status_message = concat("\u{2717} Error opening editor: ", e.as_str());
            },
        }
    }

    /// Records how opening `url` in a browser went.
    pub fn browser_finished(&mut self, url: &str, result: Result<(), String>)
        ensures
            final(self).status_message@ == match result {
                Ok(_) => "\u{2713} Opening in browser: "@ + url@,
                Err(e) => "\u{2717} Could not open browser: "@ + e@,
            },
            final(self).posts@ == old(self).posts@,
    {
        self.status_message = match result {
            Ok(_) => concat("\u{2713} Opening in browser: ", url),
            Err(e) => concat("\u{2717} Could not open browser: ", e.as_str()),
        };
    }

    /// A key while the search query is being typed: characters extend the
    /// query, backspace shortens it, and either one selects the first post;
    /// Enter or Esc end the capture and keep the query.
    pub fn search_key(&mut self, key: Key)
        requires
            old(self).wf(),
        ensures
            final(self).wf(),
            final(self).posts@ == old(self).posts@,
            final(self).edit_buffer == old(self).edit_buffer,
            final(self).status_message@ == if key == Key::Ctrl('s') {
                old(self).status_message@
            } else {
                Seq::empty()
            },
            search_step(*old(self), *final(self), key),
    {
        if key != Key::Ctrl('s') {
            self.status_message = String::new();
        }
        match key {
            Key::Char(c) | Key::Ctrl(c) => {
                crate::text::push_char(&mut self.search_query, c);
                self.selected = 0;
            },
            Key::Backspace => {
                pop_char(&mut self.search_query);
                self.selected = 0;
            },
            Key::Enter | Key::Esc => {
                self.search_mode = false;
            },
            _ => {},
        }
    }

    /// The name of field `i` of the post at `k`.
    pub open spec fn field_key(self, k: int, i: int) -> Seq<char> {
        self.posts@[k].metadata.key(i)
    }

    /// Commits the edit buffer to the selected field of the post at `k`.
    fn commit_edit(&mut self, k: usize)
        requires
            old(self).wf(),
            k < old(self).posts.len(),
        ensures
            final(self).wf(),
            committed(*old(self), *final(self), k as int),
            *final(self) == (App { posts: final(self).posts, ..*old(self) }),
    {
        let i = self.metadata_selected;
        if i < self.posts[k].metadata.len() {
            let key = self.posts[k].metadata.entries[i].0.clone();
            let text = self.edit_buffer.clone();
            let mut p = self.posts.remove(k);
            p.set_field(key, text);
            self.posts.insert(k, p);
            assert(self.posts@ == old(self).posts@.update(k as int, self.posts@[k as int]));
            assert forall|j: int| 0 <= j < self.posts.len() implies (
            #[trigger] self.posts@[j]).wf() by {
                if j != k {
                    assert(self.posts@[j] == old(self).posts@[j]);
                }
            }
        }
    }

    /// A key while a field is edited or added: characters go into the buffer,
    /// backspace shortens it, Esc drops the edit; Enter commits an edit, or in
    /// adding takes the name first and the value second.
    pub fn edit_key(&mut self, key: Key)
        requires
            old(self).wf(),
        ensures
            final(self).wf(),
            final(self).search_query == old(self).search_query,
            final(self).selected == old(self).selected,
            final(self).status_message@ == if key == Key::Ctrl('s') {
                old(self).status_message@
            } else {
                Seq::empty()
            },
            edit_step(*old(self), *final(self), key),
    {
        if key != Key::Ctrl('s') {
            self.status_message = String::new();
        }
        assert(forall|k: int| #[trigger] self.selects(k) == old(self).selects(k));
        match key {
            Key::Char(c) | Key::Ctrl(c) => {
                crate::text::push_char(&mut self.edit_buffer, c);
            },
            Key::Backspace => {
                pop_char(&mut self.edit_buffer);
            },
            Key::Enter => {
                if self.adding_field {
                    if self.new_field_key.as_str().is_empty() {
                        self.new_field_key = self.edit_buffer.clone();
                        self.edit_buffer = String::new();
                    } else {
                        match self.selected_position() {
                            Some(k) => {
                                let name = self.new_field_key.clone();
                                let text = self.edit_buffer.clone();
                                let mut p = self.posts.remove(k);
                                p.add_field(name, text);
                                self.posts.insert(k, p);
                                assert forall|j: int| 0 <= j < self.posts.len() implies (
                                #[trigger] self.posts@[j]).wf() by {
                                    if j != k {
                                        assert(self.posts@[j] == old(self).posts@[j]);
                                    }
                                }
                                assert(self.posts@ == old(self).posts@.update(
                                    k as int,
                                    self.posts@[k as int],
                                ));
                            },
                            None => {},
                        }
                        self.adding_field = false;
                        self.new_field_key = String::new();
                        self.edit_buffer = String::new();
                    }
                } else {
                    match self.selected_position() {
                        Some(k) => {
                            self.commit_edit(k);
                        },
                        None => {},
                    }
                    self.edit_mode = false;
                    self.edit_buffer = String::new();
                }
            },
            Key::Esc => {
                self.edit_mode = false;
                self.adding_field = false;
                self.edit_buffer = String::new();
                self.new_field_key = String::new();
            },
            _ => {},
        }
    }
}

/// The key as normal mode reads it: a control chord other than Ctrl-S and
/// Ctrl-C acts as its plain character.
pub open spec fn plain(key: Key) -> Key {
    match key {
        Key::Ctrl(c) => if c == 's' || c == 'c' {
            key
        } else {
            Key::Char(c)
        },
        _ => key,
    }
}

impl App {
    /// A key in normal mode: navigation, focus, sort and filter changes, field
    /// deletion, and the actions that need the outside world.
    pub fn normal_key(&mut self, key: Key) -> (r: Action)
        requires
            old(self).wf(),
            !old(self).search_mode,
            !old(self).edit_mode,
            !old(self).adding_field,
        ensures
            final(self).wf(),
            normal_step(*old(self), *final(self), key, r),
    {
        if key != Key::Ctrl('s') {
            self.status_message = String::new();
        }
        assert(forall|k: int| #[trigger] self.selects(k) == old(self).selects(k));
        let ghost mid = *self;
        let k = match key {
            Key::Ctrl(c) => if c == 's' || c == 'c' {
                key
            } else {
                Key::Char(c)
            },
            _ => key,
        };
        assert(k == plain(key));
        match k {
            Key::Char('q') | Key::Ctrl('c') => Action::Quit,
            Key::Ctrl('s') => self.save_selected(),
            Key::Char('j') | Key::Down => {
                match self.focused_pane {
                    Pane::List => self.select_next(),
                    Pane::Metadata => {
                        match self.selected_position() {
                            Some(p) => {
                                if self.metadata_selected < self.posts[p].metadata.len() {
                                    self.metadata_selected = self.metadata_selected + 1;
                                }
                            },
                            None => {},
                        }
                    },
                    Pane::Body => {
                        if self.content_scroll < usize::MAX {
                            self.content_scroll = self.content_scroll + 1;
                        }
                    },
                }
                Action::Stay
            },
            Key::Char('k') | Key::Up => {
                match self.focused_pane {
                    Pane::List => self.select_prev(),
                    Pane::Metadata => {
                        if self.metadata_selected > 0 {
                            self.metadata_selected = self.metadata_selected - 1;
                        }
                    },
                    Pane::Body => {
                        if self.content_scroll > 0 {
                            self.content_scroll = self.content_scroll - 1;
                        }
                    },
                }
                Action::Stay
            },
            Key::Enter => self.confirm(),
            Key::Tab | Key::Char('l') | Key::Right => {
                self.focused_pane = self.focused_pane.next();
                self.metadata_selected = 0;
                self.content_scroll = 0;
                Action::Stay
            },
            Key::BackTab | Key::Char('h') | Key::Left => {
                self.focused_pane = self.focused_pane.prev();
                self.metadata_selected = 0;
                self.content_scroll = 0;
                Action::Stay
            },
            Key::Char('d') => {
                if self.focused_pane == Pane::Metadata {
                    self.delete_selected_field();
                    proof {
                        if old(self).selected < old(self).view_len() {
                            let k = choose|k: int| #[trigger]
                                mid.selects(k) && deleted(mid, *self, k);
                            assert(old(self).selects(k));
                            assert(deleted(*old(self), *self, k));
                        }
                    }
                }
                Action::Stay
            },
            Key::Char('s') => {
                self.cycle_sort();
                Action::Stay
            },
            Key::Char('f') => {
                self.toggle_drafts();
                Action::Stay
            },
            Key::Char('r') => Action::Rescan,
            Key::Char('o') => self.preview_selected(),
            Key::Char('/') => {
                self.search_mode = true;
                self.search_query = String::new();
                self.selected = 0;
                self.status_message = owned("Search mode: type to filter posts");
                Action::Stay
            },
            Key::Esc => {
                if !self.search_query.as_str().is_empty() {
                    self.search_query = String::new();
                    self.selected = 0;
                    self.status_message = owned("Search cleared");
                }
                Action::Stay
            },
            _ => Action::Stay,
        }
    }

    /// Renders the selected post for writing back to its file.
    fn save_selected(&mut self) -> (r: Action)
        requires
            old(self).wf(),
        ensures
            final(self).wf(),
            save_asked(*old(self), *final(self), r),
    {
        match self.selected_position() {
            Some(k) => match render_post(&self.posts[k]) {
                Ok(text) => Action::Write { path: self.posts[k].path.clone(), text },
                Err(e) => {
                    self.status_message = concat("\u{2717} Error saving: ", e.as_str());
                    Action::Stay
                },
            },
            None => Action::Stay,
        }
    }

    /// Enter in normal mode: on the metadata pane, starts adding a field on
    /// the row after the last field, else starts editing the selected field;
    /// on the body pane, asks for the post to be opened in the editor.
    fn confirm(&mut self) -> (r: Action)
        requires
            old(self).wf(),
            !old(self).edit_mode,
            !old(self).adding_field,
        ensures
            final(self).wf(),
            confirm_done(*old(self), *final(self), r),
    {
        match self.focused_pane {
            Pane::Metadata => {
                match self.selected_position() {
                    Some(k) => {
                        let n = self.posts[k].metadata.len();
                        if self.metadata_selected == n {
                            self.adding_field = true;
                            self.edit_buffer = String::new();
                            self.new_field_key = String::new();
                        } else if self.metadata_selected < n {
                            self.edit_buffer = self.posts[k].metadata.entries[self.metadata_selected].1.edit_text();
                            self.edit_mode = true;
                        }
                    },
                    None => {},
                }
                Action::Stay
            },
            Pane::Body => {
                match self.selected_position() {
                    Some(k) => Action::EditFile { path: self.posts[k].path.clone() },
                    None => {
                        self.status_message = owned("\u{2713} Reloaded after edit");
                        Action::Rescan
                    },
                }
            },
            Pane::List => Action::Stay,
        }
    }

    /// Deletes the selected field of the selected post, unless it is the title.
    fn delete_selected_field(&mut self)
        requires
            old(self).wf(),
        ensures
            final(self).wf(),
            delete_done(*old(self), *final(self)),
    {
        match self.selected_position() {
            Some(k) => {
                let mut p = self.posts.remove(k);
                let outcome = p.delete_field(self.metadata_selected);
                let remaining = p.metadata.len();
                let ghost changed = p;
                self.posts.insert(k, p);
                assert forall|j: int| 0 <= j < self.posts.len() implies (
                #[trigger] self.posts@[j]).wf() by {
                    if j != k {
                        assert(self.posts@[j] == old(self).posts@[j]);
                    }
                }
                match outcome {
                    DeleteOutcome::Deleted(name) => {
                        self.status_message = concat("\u{2713} Deleted field: ", name.as_str());
                        if self.metadata_selected > 0 && self.metadata_selected > remaining {
                            self.metadata_selected = self.metadata_selected - 1;
                        }
                        assert(self.posts@ == old(self).posts@.update(k as int, self.posts@[k as int]));
                    },
                    DeleteOutcome::Protected => {
                        self.status_message = owned("\u{2717} Cannot delete title field");
                        assert(self.posts@ =~= old(self).posts@);
                    },
                    DeleteOutcome::Missing => {
                        assert(self.posts@ =~= old(self).posts@);
                    },
                }
            },
            None => {},
        }
    }

    /// Asks for the selected post's preview address to be opened.
    fn preview_selected(&mut self) -> (r: Action)
        requires
            old(self).wf(),
        ensures
            final(self).wf(),
            preview_asked(*old(self), *final(self), r),
    {
        match self.selected_position() {
            Some(k) => match self.config.preview_url(self.posts[k].path.as_str()) {
                Some(url) => Action::OpenUrl { url },
                None => {
                    self.status_message = owned("\u{2717} Could not construct preview URL");
                    Action::Stay
                },
            },
            None => Action::Stay,
        }
    }

    /// Handles one key press: clears the status line unless the key is Ctrl-S,
    /// then reads the key in the mode the session is in.
    pub fn handle_key(&mut self, key: Key) -> (r: Action)
        requires
            old(self).wf(),
        ensures
            final(self).wf(),
            old(self).search_mode ==> r is Stay && search_step(*old(self), *final(self), key),
            !old(self).search_mode && (old(self).edit_mode || old(self).adding_field) ==> r is Stay
                && edit_step(*old(self), *final(self), key),
            !old(self).search_mode && !old(self).edit_mode && !old(self).adding_field
                ==> normal_step(*old(self), *final(self), key, r),
            key != Key::Ctrl('s') && (old(self).search_mode || old(self).edit_mode || old(
                self).adding_field) ==> final(self).status_message@.len() == 0,
    {
        if self.search_mode {
            self.search_key(key);
            Action::Stay
        } else if self.edit_mode || self.adding_field {
            self.edit_key(key);
            Action::Stay
        } else {
            self.normal_key(key)
        }
    }
}

} // verus!
