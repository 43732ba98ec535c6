use furbrowser_rs::config::{parse_blacklist, Blacklist, Config, Profile, Secrets};
use furbrowser_rs::database::{schema_statements, vote_count_query};
use furbrowser_rs::error::FurbrowserError;
use furbrowser_rs::post::{
    filter_blacklisted, join_strings, remove_existing, InlineView, Method, Post, PostFile, Posts,
};
use furbrowser_rs::vote::ImageVote;

fn sorted(b: &Blacklist) -> Vec<String> {
    let mut v = b.entries();
    v.sort();
    v
}

fn profile(query: Option<&str>, queries: Option<Vec<&str>>) -> Profile {
    Profile {
        blacklist_file: b"blacklist.txt".to_vec(),
        query: query.map(|s| s.to_string()),
        queries: queries.map(|v| v.into_iter().map(|s| s.to_string()).collect()),
    }
}

fn config() -> Config {
    Config {
        backward_compatibility: false,
        user_agent: "furbrowser/VERSION (by someone)".to_string(),
        posts_per_page: 50,
        domain: "e621.net".to_string(),
        database: "votes.db".to_string(),
        secrets: Secrets { username: "user".to_string(), api_key: "key".to_string() },
        profiles: vec![
            ("default".to_string(), profile(Some("cat"), None)),
            ("many".to_string(), profile(None, Some(vec!["dog", "fox rating:s"]))),
            ("none".to_string(), profile(None, None)),
        ],
    }
}

fn post(id: u32, tags: &[(&str, &[&str])]) -> Post {
    Post {
        id,
        created_at: "2024-01-02T03:04:05".to_string(),
        file: PostFile { width: 640, height: 480, ext: "png".to_string(), url: format!("https://static/{id}.png") },
        tags: tags
            .iter()
            .map(|(c, ts)| (c.to_string(), ts.iter().map(|t| t.to_string()).collect()))
            .collect(),
    }
}

fn ids(p: &Posts) -> Vec<u32> {
    p.posts.iter().map(|p| p.id).collect()
}

#[test]
fn blacklist_skips_comments_and_blank_lines() {
    let b = parse_blacklist("# comment\nfeet\n\n  gore  \n   # another\nfeet\r\n");
    assert_eq!(sorted(&b), vec!["feet".to_string(), "gore".to_string()]);
    assert!(b.contains(&"feet".to_string()));
    assert!(!b.contains(&"# comment".to_string()));
}

#[test]
fn blacklist_blank_line_gives_empty_tag() {
    let b = parse_blacklist("a\n   \nb");
    assert_eq!(sorted(&b), vec!["".to_string(), "a".to_string(), "b".to_string()]);
}

#[test]
fn blacklist_of_nothing_is_empty() {
    assert!(parse_blacklist("").entries().is_empty());
    assert!(parse_blacklist("\n\n  \n").entries().is_empty());
    assert!(parse_blacklist("#only a comment").entries().is_empty());
    assert!(Blacklist::empty().entries().is_empty());
}

#[test]
fn profile_lookup() {
    let c = config();
    assert_eq!(c.profile("default").unwrap().query.as_deref(), Some("cat"));
    assert!(matches!(c.profile("missing"), Err(FurbrowserError::NoSuchProfile)));
}

#[test]
fn search_queries_with_and_without_extra() {
    let c = config();
    let d = c.profile("default").unwrap();
    assert_eq!(d.search_queries(&None).unwrap(), vec!["cat".to_string()]);
    assert_eq!(
        d.search_queries(&Some("order:score".to_string())).unwrap(),
        vec!["cat order:score".to_string()]
    );
    let m = c.profile("many").unwrap();
    assert_eq!(
        m.search_queries(&Some("-feet".to_string())).unwrap(),
        vec!["dog -feet".to_string(), "fox rating:s -feet".to_string()]
    );
    let n = c.profile("none").unwrap();
    assert!(matches!(n.search_queries(&None), Err(FurbrowserError::MissingQuery)));
    let both = profile(Some("one"), Some(vec!["two"]));
    assert_eq!(both.search_queries(&None).unwrap(), vec!["one".to_string()]);
}

#[test]
fn config_path_choice() {
    assert_eq!(Config::config_path(true, Ok("/home/u".to_string())).unwrap(), "./config.toml");
    assert_eq!(
        Config::config_path(false, Ok("/home/u".to_string())).unwrap(),
        "/home/u/.furbrowserrc"
    );
    assert!(matches!(
        Config::config_path(false, Err(FurbrowserError::Environment("not set".to_string()))),
        Err(FurbrowserError::Environment(_))
    ));
    assert_eq!(config().greeting(), "Hello, user!");
}

#[test]
fn tags_are_distinct() {
    let p = post(1, &[("general", &["cat", "cute", "cat"]), ("artist", &["someone", "cute"])]);
    let mut t = p.tags();
    t.sort();
    assert_eq!(t, vec!["cat".to_string(), "cute".to_string(), "someone".to_string()]);
    assert!(post(2, &[]).tags().is_empty());
}

#[test]
fn filter_removes_blacklisted_posts_in_order() {
    let b = parse_blacklist("gore\nfeet");
    let posts = Posts {
        posts: vec![
            post(1, &[("general", &["cat"])]),
            post(2, &[("general", &["cat", "gore"])]),
            post(3, &[("species", &["dog"]), ("general", &["feet"])]),
            post(4, &[("general", &["fox"])]),
        ],
    };
    assert!(posts.posts[1].is_blacklisted(&b));
    assert!(!posts.posts[0].is_blacklisted(&b));
    let kept = filter_blacklisted(posts, &b);
    assert_eq!(ids(&kept), vec![1, 4]);
    let again = filter_blacklisted(kept, &b);
    assert_eq!(ids(&again), vec![1, 4]);
}

#[test]
fn empty_blacklist_keeps_everything() {
    let posts = Posts { posts: vec![post(1, &[("g", &["a"])]), post(2, &[])] };
    assert_eq!(ids(&filter_blacklisted(posts, &Blacklist::empty())), vec![1, 2]);
}

#[test]
fn remove_existing_keeps_unvoted() {
    let posts = Posts { posts: vec![post(1, &[]), post(2, &[]), post(3, &[])] };
    assert_eq!(ids(&remove_existing(posts, &vec![0, 1, 0])), vec![1, 3]);
    let posts = Posts { posts: vec![post(1, &[]), post(2, &[])] };
    assert!(remove_existing(posts, &vec![2, 1]).posts.is_empty());
}

#[test]
fn post_summary_and_tags_line() {
    let p = post(42, &[("general", &["cat"])]);
    assert_eq!(
        p.summary(),
        "#\u{1b}]8;;https://e621.net/posts/42\u{1b}\\42\u{1b}]8;;\u{1b}\\, 2024-01-02T03:04:05, 640x480"
    );
    assert_eq!(join_strings(&vec!["a".to_string(), "b".to_string(), "c".to_string()], ", "), "a, b, c");
    assert_eq!(join_strings(&vec![], ", "), "");
    assert_eq!(join_strings(&vec!["solo".to_string()], ", "), "solo");
}

#[test]
fn inline_view_choices() {
    let mut p = post(7, &[]);
    match p.inline_view(true) {
        InlineView::Picture(u) => assert_eq!(u, "https://static/7.png"),
        _ => panic!("expected a picture"),
    }
    match p.inline_view(false) {
        InlineView::Link(l) => assert_eq!(
            l,
            "\u{1b}]8;;https://static/7.png\u{1b}\\Image; please view externally or click here\u{1b}]8;;\u{1b}\\"
        ),
        _ => panic!("expected a link"),
    }
    p.file.ext = "webm".to_string();
    match p.inline_view(true) {
        InlineView::Link(l) => assert!(l.contains("Video; please view externally or click here")),
        _ => panic!("expected a link"),
    }
    p.file.ext = "swf".to_string();
    assert!(matches!(p.inline_view(false), InlineView::Link(_)));
}

#[test]
fn vote_requests_and_record() {
    let p = post(99, &[]);
    let up = p.vote_requests("e621.net", &ImageVote::Up);
    assert_eq!(up.len(), 2);
    assert_eq!(up[0].method, Method::Post);
    assert_eq!(up[0].url, "https://e621.net/posts/99/votes.json?no_unvote=true&score=1");
    assert_eq!(up[1].method, Method::Post);
    assert_eq!(up[1].url, "https://e621.net/favorites.json?post_id=99");
    let down = p.vote_requests("e621.net", &ImageVote::Down);
    assert_eq!(down[0].url, "https://e621.net/posts/99/votes.json?no_unvote=true&score=-1");
    assert_eq!(down[1].method, Method::Delete);
    assert_eq!(down[1].url, "https://e621.net/favorites/99.json");
    let r = p.vote_record(&ImageVote::Up);
    assert_eq!((r.id, r.liked.as_str(), r.disliked.as_str()), (99, "TRUE", "FALSE"));
    let r = p.vote_record(&ImageVote::Down);
    assert_eq!((r.liked.as_str(), r.disliked.as_str()), ("FALSE", "TRUE"));
}

#[test]
fn database_statements() {
    assert_eq!(
        schema_statements(false),
        vec![
            "DROP TABLE IF EXISTS tags".to_string(),
            "CREATE TABLE IF NOT EXISTS images (id INT NOT NULL, liked BOOL, disliked BOOL, PRIMARY KEY (id))".to_string(),
        ]
    );
    let bc = schema_statements(true);
    assert_eq!(bc.len(), 2);
    assert!(bc[1].starts_with("CREATE TABLE IF NOT EXISTS published"));
    assert_eq!(vote_count_query(123), "SELECT COUNT(*) FROM images WHERE id=123");
}

#[test]
fn blacklist_entries_are_trimmed_and_not_comments() {
    let b = parse_blacklist("  \t tag one \n#c\n  #also\n\u{a0}two\u{3000}\n");
    for e in b.entries() {
        assert_eq!(e.trim(), e);
        assert!(!e.starts_with('#'));
    }
    assert_eq!(sorted(&b), vec!["tag one".to_string(), "two".to_string()]);
}

#[test]
fn larger_blacklist_keeps_a_subsequence() {
    let make = || Posts {
        posts: vec![
            post(1, &[("general", &["cat"])]),
            post(2, &[("general", &["gore"])]),
            post(3, &[("general", &["feet", "dog"])]),
            post(4, &[("general", &["fox"])]),
            post(5, &[("general", &["dog"])]),
        ],
    };
    let small = filter_blacklisted(make(), &parse_blacklist("gore"));
    let large = filter_blacklisted(make(), &parse_blacklist("gore\nfeet\nfox"));
    assert_eq!(ids(&small), vec![1, 3, 4, 5]);
    assert_eq!(ids(&large), vec![1, 5]);
    // Post 5 has a recorded vote; the rest do not.
    let counts = |p: &Posts| p.posts.iter().map(|p| if p.id == 5 { 1 } else { 0 }).collect::<Vec<i64>>();
    let small_counts = counts(&small);
    let large_counts = counts(&large);
    assert_eq!(ids(&remove_existing(small, &small_counts)), vec![1, 3, 4]);
    assert_eq!(ids(&remove_existing(large, &large_counts)), vec![1]);
    let none = filter_blacklisted(make(), &Blacklist::empty());
    let none_counts = counts(&none);
    assert_eq!(ids(&remove_existing(none, &none_counts)), vec![1, 2, 3, 4]);
}

#[test]
fn post_rendering() {
    let p = post(8, &[("general", &["cat", "cute"]), ("artist", &["cat"])]);
    let r = p.render("Image:", "Tags:");
    let summary = p.summary();
    let first = format!("Image:      {}\n", summary);
    assert!(r.starts_with(&first));
    let rest = &r[first.len()..];
    assert!(rest == "Tags:       cat, cute\n" || rest == "Tags:       cute, cat\n");
    assert_eq!(post(9, &[]).render("I", "T"), format!("I      {}\nT       \n", post(9, &[]).summary()));
}
