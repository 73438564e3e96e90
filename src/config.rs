//! Where the site lives, what generates it, and the addresses derived from that.
use vstd::prelude::*;

use crate::codec::owned;
use crate::text::{chars_of, push_char};
use crate::value::append_text;

verus! {

/// The static site generators a site can be built with.
#[derive(Clone, Copy, Debug, PartialEq, Eq, Structural)]
pub enum SsgType {
    Hugo,
    Jekyll,
    Eleventy,
}

/// The address of each generator's development server.
pub open spec fn dev_url(s: SsgType) -> Seq<char> {
    match s {
        SsgType::Hugo => "http://localhost:1313"@,
        SsgType::Jekyll => "http://localhost:4000"@,
        SsgType::Eleventy => "http://localhost:8080"@,
    }
}

impl SsgType {
    /// The default address of the generator's development server.
    pub fn dev_server_url(&self) -> (r: &'static str)
        ensures
            r@ == dev_url(*self),
    {
        match self {
            SsgType::Hugo => "http://localhost:1313",
            SsgType::Jekyll => "http://localhost:4000",
            SsgType::Eleventy => "http://localhost:8080",
        }
    }
}

/// The settings of the site being worked on.
pub struct Config {
    pub site_name: String,
    pub site_path: String,
    pub content_dir: String,
    pub ssg: SsgType,
    pub editor: Option<String>,
    pub notion_database_id: Option<String>,
    pub notion_token: Option<String>,
}

impl Default for Config {
    fn default() -> (r: Config)
        ensures
            r.site_name@ == "site"@,
            r.site_path@.len() == 0,
            r.content_dir@ == "content"@,
            r.ssg == SsgType::Hugo,
            r.editor is None,
            r.notion_database_id is None,
            r.notion_token is None,
    {
        Config {
            site_name: owned("site"),
            site_path: String::new(),
            content_dir: owned("content"),
            ssg: SsgType::Hugo,
            editor: None,
            notion_database_id: None,
            notion_token: None,
        }
    }
}

/// What `PathBuf::join` makes of a base path and a path joined to it, as text.
pub uninterp spec fn joined_path(base: Seq<char>, rel: Seq<char>) -> Seq<char>;

/// What `Path::strip_prefix` leaves of a path once a base is taken off its
/// front, as text; nothing when the base is not a prefix of the path.
pub uninterp spec fn stripped_path(path: Seq<char>, base: Seq<char>) -> Option<Seq<char>>;

/// What `Path::with_extension` with an empty extension makes of a path: the
/// path without its extension.
pub uninterp spec fn extension_removed(path: Seq<char>) -> Seq<char>;

/// Relies on `PathBuf::join`: the joined path, as text.
#[verifier::external_body]
fn join_path(base: &str, rel: &str) -> (r: String)
    ensures
        r@ == joined_path(base@, rel@),
{
    std::path::Path::new(base).join(rel).to_string_lossy().into_owned()
}

/// Relies on `Path::strip_prefix`: the rest of the path, as text.
#[verifier::external_body]
fn strip_path_prefix(path: &str, base: &str) -> (r: Option<String>)
    ensures
        r matches Some(s) ==> stripped_path(path@, base@) == Some(s@),
        r is None ==> stripped_path(path@, base@) is None,
{
    std::path::Path::new(path).strip_prefix(base).ok().map(|p| p.to_string_lossy().into_owned())
}

/// Relies on `Path::with_extension` with an empty extension, which holds no
/// separator: the path without its extension, as text.
#[verifier::external_body]
fn remove_extension(path: &str) -> (r: String)
    ensures
        r@ == extension_removed(path@),
{
    std::path::Path::new(path).with_extension("").to_string_lossy().into_owned()
}

/// `s` with each backslash turned into a forward slash.
pub open spec fn forward_slashes(s: Seq<char>) -> Seq<char> {
    s.map_values(|c: char| if c == '\\' { '/' } else { c })
}

/// The preview address of a post at `post_path` on a site at `site_path`.
pub open spec fn preview_of(ssg: SsgType, site_path: Seq<char>, post_path: Seq<char>) -> Option<
    Seq<char>,
> {
    match stripped_path(post_path, site_path) {
        None => None,
        Some(rel) => Some(dev_url(ssg) + seq!['/'] + forward_slashes(extension_removed(rel))),
    }
}

/// `s` with each backslash turned into a forward slash.
fn with_forward_slashes(s: &str) -> (r: String)
    ensures
        r@ == forward_slashes(s@),
{
    let cs = chars_of(s);
    let mut r = String::new();
    let mut i: usize = 0;
    while i < cs.len()
        invariant
            i <= cs.len(),
            cs@ == s@,
            r@ == forward_slashes(s@.subrange(0, i as int)),
        decreases cs.len() - i,
    {
        let c = cs[i];
        push_char(&mut r, if c == '\\' { '/' } else { c });
        i = i + 1;
        assert(r@ =~= forward_slashes(s@.subrange(0, i as int)));
    }
    assert(s@.subrange(0, cs.len() as int) =~= s@);
    r
}

impl Config {
    /// The directory that holds the posts: the content directory joined to the site path.
    pub fn content_path(&self) -> (r: String)
        ensures
            r@ == joined_path(self.site_path@, self.content_dir@),
    {
        join_path(self.site_path.as_str(), self.content_dir.as_str())
    }

    /// The address at which the development server shows the post at
    /// `post_path`: the server's address, then the post's path relative to the
    /// site without its extension. None when the post lies outside the site.
    pub fn preview_url(&self, post_path: &str) -> (r: Option<String>)
        ensures
            match preview_of(self.ssg, self.site_path@, post_path@) {
                None => r is None,
                Some(u) => r matches Some(s) && s@ == u,
            },
    {
        match strip_path_prefix(post_path, self.site_path.as_str()) {
            None => None,
            Some(rel) => {
                let bare = remove_extension(rel.as_str());
                let url_path = with_forward_slashes(bare.as_str());
                let mut r = owned(self.ssg.dev_server_url());
                push_char(&mut r, '/');
                append_text(&mut r, url_path.as_str());
                Some(r)
            },
        }
    }
}

/// `names` holds `n`.
pub open spec fn has_name(names: Seq<String>, n: Seq<char>) -> bool {
    exists|i: int| 0 <= i < names.len() && #[trigger] names[i]@ == n
}

/// Whether `names` holds `n`.
fn name_present(names: &Vec<String>, n: &str) -> (r: bool)
    ensures
        r == has_name(names@, n@),
{
    let mut i: usize = 0;
    while i < names.len()
        invariant
            i <= names.len(),
            forall|j: int| 0 <= j < i ==> #[trigger] names@[j]@ != n@,
        decreases names.len() - i,
    {
        if crate::codec::same_text(names[i].as_str(), n) {
            return true;
        }
        i = i + 1;
    }
    false
}

/// The generator a site uses, from the names of the files at its root.
pub open spec fn ssg_of(names: Seq<String>) -> SsgType {
    if has_name(names, "hugo.toml"@) || has_name(names, "hugo.yaml"@) || has_name(
        names,
        "config.toml"@,
    ) {
        SsgType::Hugo
    } else if has_name(names, "_config.yml"@) {
        SsgType::Jekyll
    } else if has_name(names, ".eleventy.js"@) || has_name(names, "eleventy.config.js"@) {
        SsgType::Eleventy
    } else {
        SsgType::Hugo
    }
}

/// The generator a site uses, from the names of the files at its root:
/// Hugo's, Jekyll's or Eleventy's configuration file, Hugo when there is none.
pub fn detect_ssg(names: &Vec<String>) -> (r: SsgType)
    ensures
        r == ssg_of(names@),
{
    if name_present(names, "hugo.toml") || name_present(names, "hugo.yaml") || name_present(
        names,
        "config.toml",
    ) {
        SsgType::Hugo
    } else if name_present(names, "_config.yml") {
        SsgType::Jekyll
    } else if name_present(names, ".eleventy.js") || name_present(names, "eleventy.config.js") {
        SsgType::Eleventy
    } else {
        SsgType::Hugo
    }
}

/// The content directory a site of the generator `ssg` keeps its posts in.
pub open spec fn content_dir_of(names: Seq<String>, ssg: SsgType) -> Seq<char> {
    match ssg {
        SsgType::Hugo => "content"@,
        SsgType::Jekyll => "_posts"@,
        SsgType::Eleventy => if !has_name(names, "posts"@) && has_name(names, "src"@) {
            "src"@
        } else {
            "posts"@
        },
    }
}

/// The content directory, from the names at the site's root: `content` for
/// Hugo, `_posts` for Jekyll, and for Eleventy `posts`, or `src` when only
/// that one exists.
pub fn detect_content_dir(names: &Vec<String>, ssg: &SsgType) -> (r: String)
    ensures
        r@ == content_dir_of(names@, *ssg),
{
    match ssg {
        SsgType::Hugo => owned("content"),
        SsgType::Jekyll => owned("_posts"),
        SsgType::Eleventy => {
            if name_present(names, "posts") {
                owned("posts")
            } else if name_present(names, "src") {
                owned("src")
            } else {
                owned("posts")
            }
        },
    }
}

/// The configuration for the site at `site_path`, named `site_name`, whose
/// root holds the files `names`, edited with `editor`.
pub fn site_config(site_path: String, site_name: String, names: &Vec<String>, editor: Option<
    String,
>) -> (r: Config)
    ensures
        r.site_path@ == site_path@,
        r.site_name@ == site_name@,
        r.ssg == ssg_of(names@),
        r.content_dir@ == content_dir_of(names@, ssg_of(names@)),
        r.editor == editor,
        r.notion_database_id is None,
        r.notion_token is None,
{
    let ssg = detect_ssg(names);
    let content_dir = detect_content_dir(names, &ssg);
    Config {
        site_name,
        site_path,
        content_dir,
        ssg,
        editor,
        notion_database_id: None,
        notion_token: None,
    }
}

/// The editor command: the configured one, else the one the environment
/// names, else `nano`.
pub fn editor_command(configured: &Option<String>, from_env: &Option<String>) -> (r: String)
    ensures
        r@ == match configured {
            Some(e) => e@,
            None => match from_env {
                Some(e) => e@,
                None => "nano"@,
            },
        },
{
    match configured {
        Some(e) => e.clone(),
        None => match from_env {
            Some(e) => e.clone(),
            None => owned("nano"),
        },
    }
}

} // verus!
