use furbrowser_rs::config::{parse_blacklist, Config, Secrets};
use furbrowser_rs::error::FurbrowserError;
use furbrowser_rs::post::{Post, PostFile, Posts};
use furbrowser_rs::request::{
    authorization, next_request, page_url, page_urls, request_headers, user_agent, RequestStep,
};
use furbrowser_rs::session::{Action, Event, Phase, Session, MAX_ATTEMPTS};
use furbrowser_rs::tui::{
    answer, choices, clear_screen, erase_line, exact_answer, imgcat_command, imgcat_shell_line, link,
};
use furbrowser_rs::vote::ImageVote;

fn config() -> Config {
    Config {
        backward_compatibility: false,
        user_agent: "furbrowser/VERSION".to_string(),
        posts_per_page: 50,
        domain: "e621.net".to_string(),
        database: "votes.db".to_string(),
        secrets: Secrets { username: "user".to_string(), api_key: "key".to_string() },
        profiles: vec![],
    }
}

fn post(id: u32, tags: &[&str]) -> Post {
    Post {
        id,
        created_at: "now".to_string(),
        file: PostFile { width: 1, height: 1, ext: "png".to_string(), url: "u".to_string() },
        tags: vec![("general".to_string(), tags.iter().map(|t| t.to_string()).collect())],
    }
}

#[test]
fn user_agent_gets_version() {
    assert_eq!(user_agent("furbrowser/VERSION (by me)", "0.3.1"), "furbrowser/0.3.1 (by me)");
    assert_eq!(user_agent("plain", "0.3.1"), "plain");
}

#[test]
fn authorization_is_basic_base64() {
    let s = Secrets { username: "user".to_string(), api_key: "key".to_string() };
    assert_eq!(authorization(&s), "Basic dXNlcjprZXk=");
    let h = request_headers("a/VERSION", "1", &s);
    assert_eq!(h[0].name, "User-Agent");
    assert_eq!(h[0].value, "a/1");
    assert_eq!(h[1].name, "Authorization");
    assert_eq!(h[1].value, "Basic dXNlcjprZXk=");
}

#[test]
fn page_addresses_are_encoded() {
    let c = config();
    assert_eq!(
        page_url(&c, "cat rating:s", 2),
        "https://e621.net/posts.json?limit=50&tags=cat%20rating%3As&page=2"
    );
    assert_eq!(
        page_url(&c, "é-_.~", 1),
        "https://e621.net/posts.json?limit=50&tags=%C3%A9-_.~&page=1"
    );
    let v = page_urls(&c, &vec!["a".to_string(), "b c".to_string()], 3);
    assert_eq!(
        v,
        vec![
            "https://e621.net/posts.json?limit=50&tags=a&page=3".to_string(),
            "https://e621.net/posts.json?limit=50&tags=b%20c&page=3".to_string(),
        ]
    );
}

#[test]
fn terminal_sequences() {
    assert_eq!(link("https://x", "text"), "\u{1b}]8;;https://x\u{1b}\\text\u{1b}]8;;\u{1b}\\");
    assert_eq!(clear_screen(), "\u{1b}[2J\u{1b}[1;1H");
    assert_eq!(erase_line(), "\u{1b}[2K\r");
    assert_eq!(choices("u", "d"), "(u/d)");
}

#[test]
fn prompt_answers() {
    assert_eq!(answer("u\n", "u", "d"), Some(true));
    assert_eq!(answer("  d \r\n", "u", "d"), Some(false));
    assert_eq!(answer("x\n", "u", "d"), None);
    assert_eq!(exact_answer("u", "u", "d"), Some(true));
    assert_eq!(exact_answer("d", "u", "d"), Some(false));
    assert_eq!(exact_answer(" u", "u", "d"), None);
}

#[test]
fn imgcat_commands() {
    let c = imgcat_command(Some(b"/home/me".to_vec()), "https://p").unwrap();
    assert_eq!(c.program, b"/home/me/.iterm2/imgcat".to_vec());
    assert_eq!(c.args, vec!["-W", "100%", "-H", "90%", "-u", "https://p"]);
    let c = imgcat_command(Some(b"/home/me/".to_vec()), "x").unwrap();
    assert_eq!(c.program, b"/home/me/.iterm2/imgcat".to_vec());
    let c = imgcat_command(Some(vec![b'/', 0xff, b'x']), "x").unwrap();
    assert_eq!(c.program, b"/\xffx/.iterm2/imgcat".to_vec());
    let c = imgcat_command(Some(vec![]), "x").unwrap();
    assert_eq!(c.program, b".iterm2/imgcat".to_vec());
    assert!(matches!(imgcat_command(None, "x"), Err(FurbrowserError::NoValidHome)));
    assert_eq!(
        imgcat_shell_line("https://p"),
        "$HOME/.iterm2/imgcat -W 100% -H 90% -u \"https://p\""
    );
}

#[test]
fn session_runs_a_page() {
    let (mut s, a) = Session::start(true);
    assert!(matches!(a, Action::LoadBlacklist));
    let a = s.step(Event::BlacklistLoaded(parse_blacklist("gore")));
    assert!(matches!(a, Action::Download { page: 1 }));
    let a = s.step(Event::DownloadFailed);
    assert!(matches!(a, Action::RetryDownload { page: 1 }));
    let posts = Posts { posts: vec![post(1, &["cat"]), post(2, &["gore"]), post(3, &["dog"]), post(4, &["fox"])] };
    let a = s.step(Event::Downloaded(posts));
    assert_eq!(s.page, 2);
    match a {
        Action::CountVotes { ids } => assert_eq!(ids, vec![1, 3, 4]),
        _ => panic!("expected counting"),
    }
    let a = s.step(Event::VoteCounts(vec![0, 1, 0]));
    assert!(matches!(a, Action::Review { index: 0 }));
    assert_eq!(s.post(0).id, 1);
    assert_eq!(s.post(1).id, 4);
    // The first post is fine: vote up, publishing fails twice and then works.
    let a = s.step(Event::BlacklistReloaded(parse_blacklist("gore")));
    assert!(matches!(a, Action::AskVote { index: 0 }));
    let a = s.step(Event::Chosen(true));
    assert!(matches!(a, Action::Publish { index: 0, vote: ImageVote::Up, attempt: 1 }));
    let a = s.step(Event::Published(false));
    assert!(matches!(a, Action::Publish { attempt: 2, .. }));
    let a = s.step(Event::Published(true));
    assert!(matches!(a, Action::RecordPublished { id: 1, vote: ImageVote::Up }));
    let a = s.step(Event::Done);
    assert!(matches!(a, Action::Flush));
    let a = s.step(Event::Done);
    assert!(matches!(a, Action::Review { index: 1 }));
    // The blacklist now holds the second post's tag: it is skipped.
    let a = s.step(Event::BlacklistReloaded(parse_blacklist("fox")));
    assert!(matches!(a, Action::Skip { id: 4 }));
    let a = s.step(Event::Done);
    assert!(matches!(a, Action::LoadBlacklist));
    assert_eq!(s.phase, Phase::LoadingBlacklist);
    let a = s.step(Event::BlacklistLoaded(parse_blacklist("")));
    assert!(matches!(a, Action::Download { page: 2 }));
}

#[test]
fn publishing_gives_up_after_five_attempts() {
    let (mut s, _) = Session::start(false);
    s.step(Event::BlacklistLoaded(parse_blacklist("")));
    s.step(Event::Downloaded(Posts { posts: vec![post(5, &["cat"])] }));
    s.step(Event::VoteCounts(vec![0]));
    s.step(Event::BlacklistReloaded(parse_blacklist("")));
    let mut a = s.step(Event::Chosen(false));
    let mut attempts = 0;
    while let Action::Publish { attempt, vote, .. } = a {
        attempts += 1;
        assert_eq!(attempt, attempts);
        assert_eq!(vote, ImageVote::Down);
        a = s.step(Event::Published(false));
    }
    assert_eq!(attempts, MAX_ATTEMPTS);
    assert!(matches!(a, Action::Flush));
    let a = s.step(Event::Done);
    assert!(matches!(a, Action::LoadBlacklist));
}

#[test]
fn empty_page_goes_to_the_next() {
    let (mut s, _) = Session::start(false);
    s.step(Event::BlacklistLoaded(parse_blacklist("cat")));
    let a = s.step(Event::Downloaded(Posts { posts: vec![post(1, &["cat"])] }));
    match a {
        Action::CountVotes { ids } => assert!(ids.is_empty()),
        _ => panic!("expected counting"),
    }
    let a = s.step(Event::VoteCounts(vec![]));
    assert!(matches!(a, Action::LoadBlacklist));
    assert!(s.can_take(&Event::BlacklistLoaded(parse_blacklist(""))));
    assert!(!s.can_take(&Event::Done));
}

#[test]
fn requests_run_in_order_and_stop_at_a_failure() {
    assert_eq!(next_request(0, false, 2), RequestStep::Send { index: 0 });
    assert_eq!(next_request(1, false, 2), RequestStep::Send { index: 1 });
    assert_eq!(next_request(2, false, 2), RequestStep::Complete);
    assert_eq!(next_request(1, true, 2), RequestStep::Stop);
    assert_eq!(next_request(0, true, 1), RequestStep::Stop);
    assert_eq!(next_request(0, false, 0), RequestStep::Complete);
}
