use textorium::config::{detect_content_dir, detect_ssg, editor_command, site_config, Config, SsgType};
use textorium::posts::{post_from_text, DeleteOutcome, Post};
use textorium::session::{Action, App, Key, Pane};
use textorium::value::FieldValue;
use textorium::view::{collect_posts, is_markdown_path, order_by_date, sort_positions, visible_positions, SortMode};

fn post(path: &str, raw: &str) -> Post {
    post_from_text(path.to_string(), raw).ok().unwrap()
}

fn dated(path: &str, title: &str, date: Option<&str>) -> Post {
    let raw = match date {
        Some(d) => format!("---\ntitle: {}\ndate: {}\n---\nbody", title, d),
        None => format!("---\ntitle: {}\n---\nbody", title),
    };
    post(path, &raw)
}

fn titles(posts: &Vec<Post>, v: &Vec<usize>) -> Vec<String> {
    v.iter().map(|&i| posts[i].title.clone()).collect()
}

fn field_index(p: &Post, name: &str) -> usize {
    p.metadata.entries.iter().position(|(k, _)| k == name).unwrap()
}

#[test]
fn drafts_only_never_shows_more() {
    let posts = vec![
        post("a.md", "---\ntitle: A\ndraft: true\n---\nx"),
        post("b.md", "---\ntitle: B\n---\nx"),
        post("c.md", "---\ntitle: C\ndraft: true\n---\nx"),
    ];
    let all = visible_positions(&posts, false, "", SortMode::TitleAsc);
    let drafts = visible_positions(&posts, true, "", SortMode::TitleAsc);
    assert_eq!(all.len(), 3);
    assert_eq!(drafts.len(), 2);
    assert!(drafts.len() <= all.len());
    assert_eq!(titles(&posts, &drafts), vec!["A", "C"]);
}

#[test]
fn search_covers_title_body_and_categories_only() {
    let posts = vec![post(
        "a.md",
        "---\ntitle: Alpha\ncategories: [Beta]\ntags: [Delta]\n---\n",
    )];
    assert_eq!(posts[0].content, "");
    assert_eq!(visible_positions(&posts, false, "alp", SortMode::DateDesc).len(), 1);
    assert_eq!(visible_positions(&posts, false, "BETA", SortMode::DateDesc).len(), 1);
    assert_eq!(visible_positions(&posts, false, "gamma", SortMode::DateDesc).len(), 0);
    assert_eq!(visible_positions(&posts, false, "delta", SortMode::DateDesc).len(), 0);
}

#[test]
fn search_matches_body_text() {
    let posts = vec![post("a.md", "---\ntitle: T\n---\nSome Words here")];
    assert_eq!(visible_positions(&posts, false, "words", SortMode::DateDesc).len(), 1);
}

#[test]
fn date_sorts_place_dated_posts_and_repeat() {
    let posts = vec![
        dated("a.md", "new", Some("2024-01-01")),
        dated("b.md", "old", Some("2023-01-01")),
        dated("c.md", "none", None),
    ];
    let desc = visible_positions(&posts, false, "", SortMode::DateDesc);
    assert_eq!(titles(&posts, &desc), vec!["new", "old", "none"]);
    let asc = visible_positions(&posts, false, "", SortMode::DateAsc);
    let t = titles(&posts, &asc);
    let pos_old = t.iter().position(|x| x == "old").unwrap();
    let pos_new = t.iter().position(|x| x == "new").unwrap();
    assert!(pos_old < pos_new);
    assert_eq!(t, vec!["none", "old", "new"]);
    let again = sort_positions(&posts, SortMode::DateAsc, &asc);
    assert_eq!(again, asc);
    let again = sort_positions(&posts, SortMode::DateDesc, &desc);
    assert_eq!(again, desc);
}

#[test]
fn title_sorts_and_stable_ties() {
    let posts = vec![
        dated("1.md", "b", None),
        dated("2.md", "a", None),
        dated("3.md", "b", None),
    ];
    let asc = visible_positions(&posts, false, "", SortMode::TitleAsc);
    assert_eq!(asc, vec![1, 0, 2]);
    let desc = visible_positions(&posts, false, "", SortMode::TitleDesc);
    assert_eq!(desc, vec![0, 2, 1]);
}

#[test]
fn scan_order_is_newest_first_and_skips_bad_files() {
    let files = vec![
        ("a.md".to_string(), "---\ntitle: old\ndate: 2023-01-01\n---\nx".to_string()),
        ("b.txt".to_string(), "---\ntitle: text\n---\nx".to_string()),
        ("c.markdown".to_string(), "---\ntitle: new\ndate: 2024-01-01\n---\nx".to_string()),
        ("d.md".to_string(), "---\ntitle: [bad\n---\nx".to_string()),
        ("e.md".to_string(), "plain".to_string()),
    ];
    let posts = collect_posts(files);
    let t: Vec<String> = posts.iter().map(|p| p.title.clone()).collect();
    assert_eq!(t, vec!["new", "old", "Untitled"]);
    assert!(is_markdown_path("x/y.md"));
    assert!(!is_markdown_path("x/y.txt"));
    let ordered = order_by_date(vec![dated("a", "u", None), dated("b", "d", Some("2020-05-05"))]);
    assert_eq!(ordered[0].title, "d");
}

#[test]
fn deleting_title_is_refused() {
    let mut p = post("a.md", "---\ntitle: Keep\nextra: x\n---\nb");
    let before = p.metadata.len();
    let i = field_index(&p, "title");
    assert!(matches!(p.delete_field(i), DeleteOutcome::Protected));
    assert_eq!(p.metadata.len(), before);
    let i = field_index(&p, "extra");
    match p.delete_field(i) {
        DeleteOutcome::Deleted(k) => assert_eq!(k, "extra"),
        _ => panic!("extra not deleted"),
    }
    assert!(p.metadata.get("extra").is_none());
    assert!(matches!(p.delete_field(99), DeleteOutcome::Missing));
}

fn app_with(posts: Vec<Post>) -> App {
    App::new(Config::default(), posts)
}

fn type_text(app: &mut App, s: &str) {
    for c in s.chars() {
        app.handle_key(Key::Char(c));
    }
}

#[test]
fn deleting_title_in_session_sets_status() {
    let mut app = app_with(vec![post("a.md", "---\ntitle: Keep\n---\nb")]);
    app.handle_key(Key::Tab);
    assert_eq!(app.focused_pane, Pane::Metadata);
    let i = field_index(&app.posts[0], "title");
    for _ in 0..i {
        app.handle_key(Key::Down);
    }
    let before = app.posts[0].metadata.len();
    app.handle_key(Key::Char('d'));
    assert_eq!(app.status_message, "\u{2717} Cannot delete title field");
    assert_eq!(app.posts[0].metadata.len(), before);
    assert_eq!(app.posts[0].title, "Keep");
}

#[test]
fn add_field_in_two_steps() {
    let mut app = app_with(vec![post("a.md", "---\ntitle: T\n---\nb")]);
    app.handle_key(Key::Tab);
    let n = app.posts[0].metadata.len();
    for _ in 0..n + 2 {
        app.handle_key(Key::Down);
    }
    assert_eq!(app.metadata_selected, n);
    app.handle_key(Key::Enter);
    assert!(app.adding_field);
    type_text(&mut app, "series");
    app.handle_key(Key::Enter);
    assert_eq!(app.new_field_key, "series");
    type_text(&mut app, "vol1");
    app.handle_key(Key::Enter);
    assert!(!app.adding_field);
    match app.posts[0].metadata.get("series") {
        Some(FieldValue::Text(s)) => assert_eq!(s, "vol1"),
        _ => panic!("series missing"),
    }
}

#[test]
fn add_field_cancelled_after_key_changes_nothing() {
    let mut app = app_with(vec![post("a.md", "---\ntitle: T\n---\nb")]);
    app.handle_key(Key::Tab);
    let n = app.posts[0].metadata.len();
    for _ in 0..n {
        app.handle_key(Key::Down);
    }
    app.handle_key(Key::Enter);
    type_text(&mut app, "series");
    app.handle_key(Key::Enter);
    app.handle_key(Key::Esc);
    assert!(!app.adding_field);
    assert_eq!(app.new_field_key, "");
    assert_eq!(app.edit_buffer, "");
    assert_eq!(app.posts[0].metadata.len(), n);
    assert!(app.posts[0].metadata.get("series").is_none());
}

fn edit_draft(text: &str) -> App {
    let mut app = app_with(vec![post("a.md", "---\ntitle: T\ndraft: false\n---\nb")]);
    app.handle_key(Key::Tab);
    let i = field_index(&app.posts[0], "draft");
    for _ in 0..i {
        app.handle_key(Key::Down);
    }
    app.handle_key(Key::Enter);
    assert!(app.edit_mode);
    assert_eq!(app.edit_buffer, "false");
    for _ in 0..5 {
        app.handle_key(Key::Backspace);
    }
    type_text(&mut app, text);
    app.handle_key(Key::Enter);
    assert!(!app.edit_mode);
    app
}

#[test]
fn editing_draft_with_true_sets_flag() {
    let app = edit_draft("true");
    assert!(matches!(app.posts[0].metadata.get("draft"), Some(FieldValue::Bool(true))));
    assert!(app.posts[0].draft);
}

#[test]
fn editing_draft_with_other_text_clears_flag() {
    let app = edit_draft("yes");
    assert!(matches!(app.posts[0].metadata.get("draft"), Some(FieldValue::Bool(false))));
    assert!(!app.posts[0].draft);
}

#[test]
fn editing_title_updates_post_title_but_not_categories() {
    let mut p = post("a.md", "---\ntitle: Old\ncategories: [x]\n---\nb");
    p.set_field("title".to_string(), "New".to_string());
    assert_eq!(p.title, "New");
    p.set_field("categories".to_string(), "y".to_string());
    assert_eq!(p.categories, vec!["x".to_string()]);
    p.set_field("type".to_string(), "page".to_string());
    assert_eq!(p.content_type, "page");
}

#[test]
fn focus_rotates_and_resets_positions() {
    let mut app = app_with(vec![post("a.md", "---\ntitle: T\n---\nb")]);
    app.handle_key(Key::Tab);
    app.handle_key(Key::Down);
    assert_eq!(app.metadata_selected, 1);
    app.handle_key(Key::Tab);
    assert_eq!(app.focused_pane, Pane::Body);
    assert_eq!(app.metadata_selected, 0);
    app.handle_key(Key::Down);
    app.handle_key(Key::Down);
    assert_eq!(app.content_scroll, 2);
    app.handle_key(Key::Up);
    assert_eq!(app.content_scroll, 1);
    app.handle_key(Key::Left);
    assert_eq!(app.focused_pane, Pane::Metadata);
    assert_eq!(app.content_scroll, 0);
    app.handle_key(Key::Char('h'));
    app.handle_key(Key::BackTab);
    assert_eq!(app.focused_pane, Pane::Body);
}

#[test]
fn list_selection_clamps() {
    let mut app = app_with(vec![dated("a", "a", None), dated("b", "b", None)]);
    app.handle_key(Key::Up);
    assert_eq!(app.selected, 0);
    app.handle_key(Key::Down);
    app.handle_key(Key::Down);
    assert_eq!(app.selected, 1);
    app.handle_key(Key::Char('k'));
    assert_eq!(app.selected, 0);
}

#[test]
fn search_capture_and_clear() {
    let mut app = app_with(vec![dated("a", "Alpha", None), dated("b", "Beta", None)]);
    app.handle_key(Key::Down);
    app.handle_key(Key::Char('/'));
    assert!(app.search_mode);
    assert_eq!(app.selected, 0);
    type_text(&mut app, "betq");
    assert_eq!(app.search_query, "betq");
    app.handle_key(Key::Backspace);
    assert_eq!(app.search_query, "bet");
    assert_eq!(app.get_filtered_posts().len(), 1);
    app.handle_key(Key::Esc);
    assert!(!app.search_mode);
    assert_eq!(app.search_query, "bet");
    app.handle_key(Key::Esc);
    assert_eq!(app.search_query, "");
    assert_eq!(app.status_message, "Search cleared");
}

#[test]
fn quit_only_in_normal_mode() {
    let mut app = app_with(vec![]);
    app.handle_key(Key::Char('/'));
    assert!(matches!(app.handle_key(Key::Char('q')), Action::Stay));
    app.handle_key(Key::Enter);
    assert!(matches!(app.handle_key(Key::Char('q')), Action::Quit));
    assert!(matches!(app.handle_key(Key::Ctrl('c')), Action::Quit));
}

#[test]
fn sort_and_filter_keys() {
    let mut app = app_with(vec![]);
    app.handle_key(Key::Char('s'));
    assert_eq!(app.sort_mode, SortMode::DateAsc);
    app.handle_key(Key::Char('s'));
    app.handle_key(Key::Char('s'));
    app.handle_key(Key::Char('s'));
    assert_eq!(app.sort_mode, SortMode::DateDesc);
    app.handle_key(Key::Char('f'));
    assert!(app.drafts_only);
    assert!(matches!(app.handle_key(Key::Char('r')), Action::Rescan));
}

#[test]
fn save_asks_for_a_write_of_the_rendered_post() {
    let mut app = app_with(vec![post("p/a.md", "---\ntitle: T\n---\nbody")]);
    match app.handle_key(Key::Ctrl('s')) {
        Action::Write { path, text } => {
            assert_eq!(path, "p/a.md");
            assert!(text.starts_with("---\n"));
            assert!(text.ends_with("---\n\nbody"));
            assert!(text.contains("title: T"));
            app.save_finished(&path, Ok(()));
            assert_eq!(app.status_message, "\u{2713} Saved: p/a.md");
            app.save_finished(&path, Err("denied".to_string()));
            assert_eq!(app.status_message, "\u{2717} Error saving: denied");
        }
        _ => panic!("no write"),
    }
}

#[test]
fn body_enter_asks_for_editor() {
    let mut app = app_with(vec![post("p/a.md", "x")]);
    app.handle_key(Key::Tab);
    app.handle_key(Key::Tab);
    match app.handle_key(Key::Enter) {
        Action::EditFile { path } => assert_eq!(path, "p/a.md"),
        _ => panic!("no editor request"),
    }
    app.editor_finished(Err("boom".to_string()));
    assert_eq!(app.status_message, "\u{2717} Error opening editor: boom");
    app.editor_finished(Ok(vec![]));
    assert_eq!(app.posts.len(), 0);
    assert_eq!(app.status_message, "\u{2713} Reloaded after edit");
}

#[test]
fn preview_key_builds_url() {
    let mut config = Config::default();
    config.site_path = "/site".to_string();
    let mut app = App::new(config, vec![post("/site/content/posts/hello.md", "x")]);
    match app.handle_key(Key::Char('o')) {
        Action::OpenUrl { url } => assert_eq!(url, "http://localhost:1313/content/posts/hello"),
        _ => panic!("no url"),
    }
    let mut app = app_with(vec![post("/elsewhere/a.md", "x")]);
    app.config.site_path = "/site".to_string();
    assert!(matches!(app.handle_key(Key::Char('o')), Action::Stay));
    assert_eq!(app.status_message, "\u{2717} Could not construct preview URL");
}

#[test]
fn config_paths_and_detection() {
    let mut c = Config::default();
    assert_eq!(c.content_dir, "content");
    c.site_path = "/s".to_string();
    assert_eq!(c.content_path(), "/s/content");
    c.ssg = SsgType::Jekyll;
    assert_eq!(c.preview_url("/s/_posts/x.md"), Some("http://localhost:4000/_posts/x".to_string()));
    assert_eq!(SsgType::Eleventy.dev_server_url(), "http://localhost:8080");
    let names = |v: &[&str]| v.iter().map(|s| s.to_string()).collect::<Vec<String>>();
    assert_eq!(detect_ssg(&names(&["_config.yml"])), SsgType::Jekyll);
    assert_eq!(detect_ssg(&names(&["eleventy.config.js"])), SsgType::Eleventy);
    assert_eq!(detect_ssg(&names(&["hugo.toml", "_config.yml"])), SsgType::Hugo);
    assert_eq!(detect_ssg(&names(&[])), SsgType::Hugo);
    assert_eq!(detect_content_dir(&names(&["src"]), &SsgType::Eleventy), "src");
    assert_eq!(detect_content_dir(&names(&["src", "posts"]), &SsgType::Eleventy), "posts");
    assert_eq!(detect_content_dir(&names(&[]), &SsgType::Jekyll), "_posts");
    let cfg = site_config("/s".to_string(), "s".to_string(), &names(&["_config.yml"]), None);
    assert_eq!(cfg.content_dir, "_posts");
    assert_eq!(editor_command(&None, &None), "nano");
    assert_eq!(editor_command(&None, &Some("vi".to_string())), "vi");
    assert_eq!(editor_command(&Some("code".to_string()), &Some("vi".to_string())), "code");
}

#[test]
fn scan_keeps_walk_order_for_equal_dates() {
    let files = vec![
        ("z.md".to_string(), "---\ntitle: first\n---\nx".to_string()),
        ("a.md".to_string(), "---\ntitle: second\n---\nx".to_string()),
        ("m.md".to_string(), "---\ntitle: dated\ndate: 2020-01-01\n---\nx".to_string()),
    ];
    let posts = collect_posts(files);
    let t: Vec<String> = posts.iter().map(|p| p.title.clone()).collect();
    assert_eq!(t, vec!["dated", "first", "second"]);
}

#[test]
fn deleting_other_field_in_session_names_it() {
    let mut app = app_with(vec![post("a.md", "---\ntitle: Keep\nextra: x\n---\nb")]);
    app.handle_key(Key::Tab);
    let i = field_index(&app.posts[0], "extra");
    for _ in 0..i {
        app.handle_key(Key::Down);
    }
    let before = app.posts[0].metadata.len();
    assert!(matches!(app.handle_key(Key::Char('d')), Action::Stay));
    assert_eq!(app.status_message, "\u{2713} Deleted field: extra");
    assert_eq!(app.posts[0].metadata.len(), before - 1);
    assert!(app.posts[0].metadata.get("extra").is_none());
}
