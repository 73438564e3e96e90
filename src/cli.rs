//! The command line: an optional subcommand; without one the interactive session starts.
use vstd::prelude::*;

verus! {

/// The parsed command line.
pub struct Cli {
    pub command: Option<Commands>,
}

/// The subcommands.
pub enum Commands {
    /// Configure the tool to use a site folder.
    Use { path: String },
    /// Create a new post.
    New { title: String, category: Option<String>, tags: Option<String>, no_edit: bool },
    /// List posts.
    List { drafts: bool, category: Option<String>, json: bool },
    /// Publish a draft post.
    Publish { slug: String },
    /// Capture an idea.
    Idea {
        title: String,
        category: Option<String>,
        notes: Option<String>,
        tags: Option<String>,
    },
    /// Start the development server.
    Serve { port: u16, no_drafts: bool },
    /// Build the site for production.
    Build { minify: bool },
}

impl Cli {
    /// Whether the command line asks for the interactive session.
    pub fn is_interactive(&self) -> (r: bool)
        ensures
            r == self.command is None,
    {
        self.command.is_none()
    }
}

} // verus!
