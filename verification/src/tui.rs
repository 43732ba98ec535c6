//! The terminal interface: hyperlinks, answers to prompts, screen control,
//! and the decisions of the browsing session.

use vstd::prelude::*;
use vstd::utf8::encode_utf8;
use crate::config::views;
use crate::error::{FurbrowserError, FurbrowserResult};
use crate::text::{push_char, push_str, trim, trimmed};

verus! {

/// The escape character that starts terminal control sequences.
pub open spec fn esc() -> char {
    '\u{1b}'
}

/// A terminal hyperlink (OSC 8) to `url` that shows `text`.
pub open spec fn link_text(url: Seq<char>, text: Seq<char>) -> Seq<char> {
    seq![esc(), ']', '8', ';', ';'] + url + seq![esc(), '\\'] + text + seq![
        esc(),
        ']',
        '8',
        ';',
        ';',
        esc(),
        '\\',
    ]
}

/// Appends the characters of `cs` to `s`.
fn push_chars(s: &mut String, cs: &[char])
    ensures
        final(s)@ == old(s)@ + cs@,
{
    let mut k: usize = 0;
    while k < cs.len()
        invariant
            k <= cs@.len(),
            s@ == old(s)@ + cs@.take(k as int),
        decreases cs.len() - k,
    {
        push_char(s, cs[k]);
        assert(cs@.take(k + 1) =~= cs@.take(k as int).push(cs@[k as int]));
        assert(old(s)@ + cs@.take(k + 1) =~= (old(s)@ + cs@.take(k as int)).push(cs@[k as int]));
        k += 1;
    }
    assert(cs@.take(k as int) =~= cs@);
}

/// A terminal hyperlink to `url` that shows `text`.
pub fn link(url: &str, text: &str) -> (s: String)
    ensures
        s@ == link_text(url@, text@),
{
    let mut s = String::new();
    let open = ['\u{1b}', ']', '8', ';', ';'];
    let close = ['\u{1b}', '\\'];
    push_chars(&mut s, &open);
    push_str(&mut s, url);
    push_chars(&mut s, &close);
    push_str(&mut s, text);
    push_chars(&mut s, &open);
    push_chars(&mut s, &close);
    assert(open@ =~= seq![esc(), ']', '8', ';', ';']);
    assert(close@ =~= seq![esc(), '\\']);
    assert(s@ =~= link_text(url@, text@));
    s
}

/// The control sequence that clears the screen and moves the cursor to the
/// top left corner.
pub open spec fn clear_screen_text() -> Seq<char> {
    seq![esc(), '[', '2', 'J', esc(), '[', '1', ';', '1', 'H']
}

/// The control sequence that clears the screen and moves the cursor to the
/// top left corner.
pub fn clear_screen() -> (s: String)
    ensures
        s@ == clear_screen_text(),
{
    let mut s = String::new();
    let cs = ['\u{1b}', '[', '2', 'J', '\u{1b}', '[', '1', ';', '1', 'H'];
    push_chars(&mut s, &cs);
    assert(cs@ =~= clear_screen_text());
    s
}

/// The control sequence that erases the current line and returns the
/// cursor to its start, written before a prompt.
pub open spec fn erase_line_text() -> Seq<char> {
    seq![esc(), '[', '2', 'K', '\r']
}

/// The control sequence that erases the current line and returns the
/// cursor to its start.
pub fn erase_line() -> (s: String)
    ensures
        s@ == erase_line_text(),
{
    let mut s = String::new();
    let cs = ['\u{1b}', '[', '2', 'K', '\r'];
    push_chars(&mut s, &cs);
    assert(cs@ =~= erase_line_text());
    s
}

/// The choices offered by a prompt: "(yes/no)".
pub fn choices(yes: &str, no: &str) -> (s: String)
    ensures
        s@ == "("@ + yes@ + "/"@ + no@ + ")"@,
{
    let mut s = String::from_str("(");
    push_str(&mut s, yes);
    push_str(&mut s, "/");
    push_str(&mut s, no);
    push_str(&mut s, ")");
    s
}

/// What a line typed at a yes/no prompt answers, once trimmed: `yes`
/// gives true, `no` gives false, anything else asks again.
pub open spec fn answer_of(line: Seq<char>, yes: Seq<char>, no: Seq<char>) -> Option<bool> {
    if line == yes {
        Some(true)
    } else if line == no {
        Some(false)
    } else {
        None
    }
}

/// What a line typed at a yes/no prompt answers: its trimmed text is
/// compared with `yes`, then with `no`; `None` means the prompt is asked
/// again.
pub fn answer(line: &str, yes: &str, no: &str) -> (r: Option<bool>)
    ensures
        r == answer_of(trim(line@), yes@, no@),
{
    let t = trimmed(line);
    exact_answer(t.as_str(), yes, no)
}

/// What a line read at a yes/no prompt answers, compared as it is.
pub fn exact_answer(line: &str, yes: &str, no: &str) -> (r: Option<bool>)
    ensures
        r == answer_of(line@, yes@, no@),
{
    let l = String::from_str(line);
    let y = String::from_str(yes);
    let n = String::from_str(no);
    if l == y {
        Some(true)
    } else if l == n {
        Some(false)
    } else {
        None
    }
}

/// The bytes of the path `path` with the relative component `c`
/// appended, as `PathBuf::push` does on Unix: a `/` goes between them
/// unless `path` is empty or ends with one.
pub open spec fn path_join(path: Seq<u8>, c: Seq<u8>) -> Seq<u8> {
    if path.len() == 0 || path.last() == 47u8 {
        path + c
    } else {
        path + seq![47u8] + c
    }
}

/// Appends the relative component `c` to the path bytes `path`.
fn join_path(path: &mut Vec<u8>, c: &str)
    ensures
        final(path)@ == path_join(old(path)@, encode_utf8(c@)),
{
    if path.len() > 0 && path[path.len() - 1] != 47u8 {
        path.push(47u8);
    }
    let bytes = c.as_bytes();
    let ghost start = path@;
    let mut k: usize = 0;
    while k < bytes.len()
        invariant
            k <= bytes@.len(),
            path@ == start + bytes@.take(k as int),
        decreases bytes.len() - k,
    {
        path.push(bytes[k]);
        assert(bytes@.take(k + 1) =~= bytes@.take(k as int).push(bytes@[k as int]));
        assert(start + bytes@.take(k + 1) =~= (start + bytes@.take(k as int)).push(bytes@[k as int]));
        k += 1;
    }
    assert(bytes@.take(k as int) =~= bytes@);
    proof {
        if old(path)@.len() > 0 && old(path)@.last() != 47u8 {
            assert(start =~= old(path)@ + seq![47u8]);
        } else {
            assert(start =~= old(path)@);
        }
    }
}

/// A program to run, by the bytes of its path, and its arguments.
pub struct Command {
    pub program: Vec<u8>,
    pub args: Vec<String>,
}

/// The command that shows the picture at `url` in iTerm2: the `imgcat`
/// program in `.iterm2` under the home directory, given by the bytes of
/// its path, at full width and 90% of the height; `NoValidHome` when there
/// is no home directory.
pub fn imgcat_command(home: Option<Vec<u8>>, url: &str) -> (r: FurbrowserResult<Command>)
    ensures
        home is None ==> r == Err::<Command, FurbrowserError>(FurbrowserError::NoValidHome),
        home matches Some(h) ==> (r matches Ok(c) && c.program@ == path_join(
            path_join(h@, encode_utf8(".iterm2"@)),
            encode_utf8("imgcat"@),
        ) && views(c.args@) == seq!["-W"@, "100%"@, "-H"@, "90%"@, "-u"@, url@]),
{
    match home {
        None => Err(FurbrowserError::NoValidHome),
        Some(h) => {
            let mut program = h;
            join_path(&mut program, ".iterm2");
            join_path(&mut program, "imgcat");
            let mut args: Vec<String> = Vec::new();
            args.push(String::from_str("-W"));
            args.push(String::from_str("100%"));
            args.push(String::from_str("-H"));
            args.push(String::from_str("90%"));
            args.push(String::from_str("-u"));
            args.push(String::from_str(url));
            assert(views(args@) =~= seq!["-W"@, "100%"@, "-H"@, "90%"@, "-u"@, url@]);
            Ok(Command { program, args })
        },
    }
}

/// The shell command line that shows the picture at `url` with the
/// `imgcat` of `$HOME/.iterm2`, the address between double quotes.
pub fn imgcat_shell_line(url: &str) -> (s: String)
    ensures
        s@ == "$HOME/.iterm2/imgcat -W 100% -H 90% -u \""@ + url@ + "\""@,
{
    let mut s = String::from_str("$HOME/.iterm2/imgcat -W 100% -H 90% -u \"");
    push_str(&mut s, url);
    push_str(&mut s, "\"");
    s
}

} // verus!
