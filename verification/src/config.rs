//! The configuration: account secrets, profiles with their search queries,
//! and the blacklist of tags that a profile never wants to see.

use vstd::prelude::*;
use crate::error::{FurbrowserError, FurbrowserResult};
use crate::text::{
    chars_of, law_trim_idempotent, push_char, push_str, split_lines, string_of, trim, trim_bounds,
};

verus! {

/// The account that votes are published with.
pub struct Secrets {
    pub username: String,
    pub api_key: String,
}

/// A named way of browsing: which tags to search for and which to avoid
/// (the blacklist file, by the bytes of its path). Either `query` or
/// `queries` has to be given; `query` wins when both are.
pub struct Profile {
    pub blacklist_file: Vec<u8>,
    pub query: Option<String>,
    pub queries: Option<Vec<String>>,
}

/// The whole configuration file. `profiles` pairs each profile with its
/// name; the names are distinct.
pub struct Config {
    pub backward_compatibility: bool,
    pub user_agent: String,
    pub posts_per_page: usize,
    pub domain: String,
    pub database: String,
    pub secrets: Secrets,
    pub profiles: Vec<(String, Profile)>,
}

/// The views of a sequence of strings.
pub open spec fn views(v: Seq<String>) -> Seq<Seq<char>> {
    v.map_values(|s: String| s@)
}

proof fn lemma_views_take_succ(v: Seq<String>, k: int)
    requires
        0 <= k < v.len(),
    ensures
        views(v.take(k + 1)) == views(v.take(k)).push(v[k]@),
{
    assert(views(v.take(k + 1)) =~= views(v.take(k)).push(v[k]@));
}

proof fn lemma_views_push(v: Seq<String>, s: String)
    ensures
        views(v.push(s)) == views(v).push(s@),
{
    assert(views(v.push(s)) =~= views(v).push(s@));
}

/// The view of an optional string.
pub open spec fn opt_view(o: Option<String>) -> Option<Seq<char>> {
    match o {
        Some(s) => Some(s@),
        None => None,
    }
}

/// Whether the profile called `name` is at index `i`, and at no earlier one.
pub open spec fn first_profile_at(profiles: Seq<(String, Profile)>, name: Seq<char>, i: int) -> bool {
    &&& 0 <= i < profiles.len()
    &&& profiles[i].0@ == name
    &&& forall|j: int| 0 <= j < i ==> profiles[j].0@ != name
}

/// Whether some profile is called `name`.
pub open spec fn has_profile(profiles: Seq<(String, Profile)>, name: Seq<char>) -> bool {
    exists|i: int| 0 <= i < profiles.len() && profiles[i].0@ == name
}

/// The search queries that a profile names, before the extra tags are added.
pub open spec fn base_queries(p: Profile) -> Option<Seq<Seq<char>>> {
    match p.query {
        Some(q) => Some(seq![q@]),
        None => match p.queries {
            Some(qs) => Some(views(qs@)),
            None => None,
        },
    }
}

/// Each query with a space and the extra tags appended, when there are any.
pub open spec fn with_extra(qs: Seq<Seq<char>>, extra: Option<Seq<char>>) -> Seq<Seq<char>> {
    match extra {
        Some(e) => qs.map_values(|q: Seq<char>| q + seq![' '] + e),
        None => qs,
    }
}

impl Config {
    /// Names are distinct, as they are keys of the configuration file.
    pub open spec fn wf(&self) -> bool {
        forall|i: int, j: int|
            0 <= i < self.profiles@.len() && 0 <= j < self.profiles@.len() && i != j
                ==> self.profiles@[i].0@ != self.profiles@[j].0@
    }

    /// The profile called `name`, or `NoSuchProfile` when there is none.
    pub fn profile(&self, name: &str) -> (r: FurbrowserResult<&Profile>)
        ensures
            r is Ok <==> has_profile(self.profiles@, name@),
            r matches Ok(p) ==> exists|i: int|
                first_profile_at(self.profiles@, name@, i) && *p == self.profiles@[i].1,
            r matches Err(e) ==> e == FurbrowserError::NoSuchProfile,
            self.wf() ==> (r matches Ok(p) ==> forall|i: int|
                0 <= i < self.profiles@.len() && self.profiles@[i].0@ == name@ ==> *p
                    == self.profiles@[i].1),
    {
        let key = String::from_str(name);
        let mut i: usize = 0;
        while i < self.profiles.len()
            invariant
                i <= self.profiles@.len(),
                key@ == name@,
                forall|j: int| 0 <= j < i ==> self.profiles@[j].0@ != name@,
            decreases self.profiles.len() - i,
        {
            if self.profiles[i].0 == key {
                assert(first_profile_at(self.profiles@, name@, i as int));
                return Ok(&self.profiles[i].1);
            }
            i += 1;
        }
        Err(FurbrowserError::NoSuchProfile)
    }

    /// The greeting shown once the configuration is loaded.
    pub fn greeting(&self) -> (s: String)
        ensures
            s@ == "Hello, "@ + self.secrets.username@ + "!"@,
    {
        let mut s = String::from_str("Hello, ");
        push_str(&mut s, self.secrets.username.as_str());
        push_str(&mut s, "!");
        s
    }

    /// Where the configuration is read from: `./config.toml` when that file
    /// exists, else `.furbrowserrc` in the home directory, whose lookup may
    /// have failed.
    pub fn config_path(local_exists: bool, home: FurbrowserResult<String>) -> (r: FurbrowserResult<
        String,
    >)
        ensures
            local_exists ==> (r matches Ok(p) && p@ == "./config.toml"@),
            !local_exists ==> match home {
                Ok(h) => (r matches Ok(p) && p@ == h@ + "/.furbrowserrc"@),
                Err(e) => r == Err::<String, FurbrowserError>(e),
            },
    {
        if local_exists {
            Ok(String::from_str("./config.toml"))
        } else {
            match home {
                Ok(h) => {
                    let mut p = h;
                    push_str(&mut p, "/.furbrowserrc");
                    Ok(p)
                },
                Err(e) => Err(e),
            }
        }
    }
}

impl Profile {
    /// The search queries of the profile, each followed by a space and the
    /// `extra` tags when there are any; `MissingQuery` when the profile
    /// names neither a query nor a list of queries.
    pub fn search_queries(&self, extra: &Option<String>) -> (r: FurbrowserResult<Vec<String>>)
        ensures
            base_queries(*self) is None ==> r == Err::<Vec<String>, FurbrowserError>(
                FurbrowserError::MissingQuery,
            ),
            base_queries(*self) matches Some(qs) ==> (r matches Ok(v) && views(v@) == with_extra(
                qs,
                opt_view(*extra),
            )),
            extra is None && self.query is None && self.queries is Some ==> (r matches Ok(v)
                && views(v@) == views(self.queries->0@)),
            extra is None && self.query is Some ==> (r matches Ok(v) && views(v@) == seq![
                self.query->0@,
            ]),
    {
        proof {
            law_search_queries(*self, opt_view(*extra));
        }
        let mut base: Vec<String> = Vec::new();
        match &self.query {
            Some(q) => {
                base.push(q.clone());
                assert(views(base@) =~= seq![q@]);
            },
            None => match &self.queries {
                Some(qs) => {
                    let mut k: usize = 0;
                    while k < qs.len()
                        invariant
                            k <= qs@.len(),
                            views(base@) =~= views(qs@.take(k as int)),
                        decreases qs.len() - k,
                    {
                        let ghost before = base@;
                        base.push(qs[k].clone());
                        proof {
                            lemma_views_push(before, qs@[k as int]);
                            lemma_views_take_succ(qs@, k as int);
                        }
                        k += 1;
                    }
                    assert(qs@.take(qs@.len() as int) =~= qs@);
                },
                None => {
                    return Err(FurbrowserError::MissingQuery);
                },
            },
        }
        let ghost qs = views(base@);
        match extra {
            None => Ok(base),
            Some(e) => {
                let mut out: Vec<String> = Vec::new();
                let mut k: usize = 0;
                while k < base.len()
                    invariant
                        k <= base@.len(),
                        qs == views(base@),
                        views(out@) =~= with_extra(qs, Some(e@)).take(k as int),
                    decreases base.len() - k,
                {
                    let mut part = base[k].clone();
                    push_char(&mut part, ' ');
                    push_str(&mut part, e.as_str());
                    assert(part@ =~= qs[k as int] + seq![' '] + e@);
                    let ghost before = out@;
                    out.push(part);
                    proof {
                        lemma_views_push(before, part);
                    }
                    assert(views(out@) =~= with_extra(qs, Some(e@)).take(k + 1));
                    k += 1;
                }
                assert(with_extra(qs, Some(e@)).take(k as int) =~= with_extra(qs, Some(e@)));
                Ok(out)
            },
        }
    }
}

/// Whether a trimmed line is a comment.
pub open spec fn is_comment(t: Seq<char>) -> bool {
    t.len() > 0 && t[0] == '#'
}

/// The entries that the lines of a blacklist give, in order: each line
/// that is not empty, trimmed, unless it is a comment.
pub open spec fn kept_entries(lines: Seq<Seq<char>>) -> Seq<Seq<char>>
    decreases lines.len(),
{
    if lines.len() == 0 {
        Seq::empty()
    } else {
        let rest = kept_entries(lines.drop_last());
        let l = lines.last();
        if l.len() > 0 && !is_comment(trim(l)) {
            rest.push(trim(l))
        } else {
            rest
        }
    }
}

/// The tags that a blacklist file holds: the file is trimmed and cut at
/// line feeds, and each non-empty line that is not a comment once trimmed
/// gives its trimmed text.
pub open spec fn blacklist_of(text: Seq<char>) -> Set<Seq<char>> {
    kept_entries(split_lines(trim(text))).to_set()
}

/// The tags that a profile never wants to see.
#[derive(Debug)]
pub struct Blacklist(pub(crate) Vec<String>);

impl View for Blacklist {
    type V = Set<Seq<char>>;

    closed spec fn view(&self) -> Set<Seq<char>> {
        views(self.0@).to_set()
    }
}

impl Blacklist {
    /// No tag is held twice.
    #[verifier::type_invariant]
    spec fn distinct(self) -> bool {
        views(self.0@).no_duplicates()
    }

    /// The blacklist that holds no tag.
    pub fn empty() -> (b: Blacklist)
        ensures
            b@ == Set::<Seq<char>>::empty(),
    {
        let b = Blacklist(Vec::new());
        assert(views(b.0@).to_set() =~= Set::<Seq<char>>::empty());
        b
    }

    /// Whether `tag` is blacklisted.
    pub fn contains(&self, tag: &String) -> (b: bool)
        ensures
            b == self@.contains(tag@),
    {
        let mut k: usize = 0;
        while k < self.0.len()
            invariant
                k <= self.0@.len(),
                forall|j: int| 0 <= j < k ==> self.0@[j]@ != tag@,
            decreases self.0.len() - k,
        {
            if self.0[k] == *tag {
                assert(views(self.0@)[k as int] == tag@);
                return true;
            }
            k += 1;
        }
        assert(!views(self.0@).contains(tag@));
        false
    }

    /// The blacklisted tags, each once.
    pub fn entries(&self) -> (v: Vec<String>)
        ensures
            views(v@).to_set() == self@,
            views(v@).no_duplicates(),
    {
        proof {
            use_type_invariant(self);
        }
        let mut v: Vec<String> = Vec::new();
        let mut k: usize = 0;
        while k < self.0.len()
            invariant
                k <= self.0@.len(),
                views(v@) =~= views(self.0@).take(k as int),
            decreases self.0.len() - k,
        {
            let ghost before = v@;
            v.push(self.0[k].clone());
            proof {
                lemma_views_push(before, self.0@[k as int]);
                lemma_views_take_succ(self.0@, k as int);
            }
            assert(views(v@) =~= views(self.0@).take(k + 1)) by {
                assert(views(self.0@.take(k + 1)) =~= views(self.0@).take(k + 1));
            }
            k += 1;
        }
        assert(views(self.0@).take(k as int) =~= views(self.0@));
        v
    }
}

/// Adds `e` to `entries` unless it is there already.
pub(crate) fn add_distinct(entries: &mut Vec<String>, e: String)
    requires
        views(old(entries)@).no_duplicates(),
    ensures
        views(final(entries)@).no_duplicates(),
        views(final(entries)@).to_set() == views(old(entries)@).to_set().insert(e@),
{
    let mut k: usize = 0;
    while k < entries.len()
        invariant
            k <= entries@.len(),
            entries@ == old(entries)@,
            views(entries@).no_duplicates(),
            forall|j: int| 0 <= j < k ==> entries@[j]@ != e@,
        decreases entries.len() - k,
    {
        if entries[k] == e {
            assert(views(entries@)[k as int] == e@);
            assert(views(entries@).to_set() =~= views(entries@).to_set().insert(e@));
            return;
        }
        k += 1;
    }
    let ghost before = entries@;
    let ghost ev = e@;
    entries.push(e);
    proof {
        lemma_views_push(before, e);
        lemma_to_set_push(views(before), ev);
        assert(!views(before).contains(ev));
    }
}

proof fn lemma_kept_entries_push(lines: Seq<Seq<char>>, l: Seq<char>)
    ensures
        kept_entries(lines.push(l)) == (if l.len() > 0 && !is_comment(trim(l)) {
            kept_entries(lines).push(trim(l))
        } else {
            kept_entries(lines)
        }),
{
    assert(lines.push(l).drop_last() =~= lines);
}

proof fn lemma_split_lines_step(s: Seq<char>, a: int, ls: int, i: int, finished: Seq<Seq<char>>)
    requires
        0 <= a <= ls <= i < s.len(),
        split_lines(s.subrange(a, i)) == finished.push(s.subrange(ls, i)),
    ensures
        s[i] == '\n' ==> split_lines(s.subrange(a, i + 1)) == finished.push(s.subrange(ls, i)).push(
            s.subrange(i + 1, i + 1),
        ),
        s[i] != '\n' ==> split_lines(s.subrange(a, i + 1)) == finished.push(
            s.subrange(ls, i + 1),
        ),
{
    let t = s.subrange(a, i + 1);
    assert(t.drop_last() =~= s.subrange(a, i));
    assert(t.last() == s[i]);
    assert(s.subrange(i + 1, i + 1) =~= Seq::<char>::empty());
    if s[i] != '\n' {
        assert(s.subrange(ls, i).push(s[i]) =~= s.subrange(ls, i + 1));
        let init = finished.push(s.subrange(ls, i));
        assert(init.update(init.len() - 1, init.last().push(s[i])) =~= finished.push(
            s.subrange(ls, i + 1),
        ));
    }
}

/// Adds the entry that the line `cs[from..to]` gives, if any.
fn add_line(entries: &mut Vec<String>, cs: &Vec<char>, from: usize, to: usize)
    requires
        from <= to <= cs.len(),
        views(old(entries)@).no_duplicates(),
    ensures
        views(final(entries)@).no_duplicates(),
        ({
            let l = cs@.subrange(from as int, to as int);
            views(final(entries)@).to_set() == if l.len() > 0 && !is_comment(trim(l)) {
                views(old(entries)@).to_set().insert(trim(l))
            } else {
                views(old(entries)@).to_set()
            }
        }),
{
    if from < to {
        let (p, q) = trim_bounds(cs, from, to);
        if !(p < q && cs[p] == '#') {
            let e = string_of(cs, p, q);
            add_distinct(entries, e);
        }
    }
}

pub(crate) proof fn lemma_to_set_push(s: Seq<Seq<char>>, x: Seq<char>)
    ensures
        s.push(x).to_set() == s.to_set().insert(x),
{
    assert(s.push(x).to_set() =~= s.to_set().insert(x)) by {
        assert forall|y: Seq<char>| s.push(x).contains(y) implies s.contains(y) || y == x by {
            let k = choose|k: int| 0 <= k < s.push(x).len() && s.push(x)[k] == y;
            if k < s.len() {
                assert(s[k] == y);
            }
        }
        assert forall|y: Seq<char>| s.contains(y) implies s.push(x).contains(y) by {
            let k = choose|k: int| 0 <= k < s.len() && s[k] == y;
            assert(s.push(x)[k] == y);
        }
        assert(s.push(x)[s.len() as int] == x);
    }
}

/// The blacklist that the text of a blacklist file gives.
pub fn parse_blacklist(text: &str) -> (b: Blacklist)
    ensures
        b@ == blacklist_of(text@),
{
    let cs = chars_of(text);
    let (a, z) = trim_bounds(&cs, 0, cs.len());
    assert(cs@.subrange(0, cs.len() as int) =~= cs@);
    let mut entries: Vec<String> = Vec::new();
    let ghost mut finished: Seq<Seq<char>> = Seq::empty();
    let mut ls = a;
    let mut i = a;
    assert(split_lines(cs@.subrange(a as int, a as int)) =~= finished.push(
        cs@.subrange(ls as int, i as int),
    )) by {
        assert(cs@.subrange(a as int, a as int) =~= Seq::<char>::empty());
    }
    while i < z
        invariant
            a <= ls <= i <= z <= cs@.len(),
            split_lines(cs@.subrange(a as int, i as int)) == finished.push(
                cs@.subrange(ls as int, i as int),
            ),
            views(entries@).no_duplicates(),
            views(entries@).to_set() == kept_entries(finished).to_set(),
        decreases z - i,
    {
        proof {
            lemma_split_lines_step(cs@, a as int, ls as int, i as int, finished);
        }
        if cs[i] == '\n' {
            let ghost line = cs@.subrange(ls as int, i as int);
            add_line(&mut entries, &cs, ls, i);
            proof {
                lemma_kept_entries_push(finished, line);
                if line.len() > 0 && !is_comment(trim(line)) {
                    lemma_to_set_push(kept_entries(finished), trim(line));
                }
                finished = finished.push(line);
            }
            ls = i + 1;
        }
        i += 1;
    }
    let ghost line = cs@.subrange(ls as int, z as int);
    add_line(&mut entries, &cs, ls, z);
    proof {
        lemma_kept_entries_push(finished, line);
        if line.len() > 0 && !is_comment(trim(line)) {
            lemma_to_set_push(kept_entries(finished), trim(line));
        }
    }
    Blacklist(entries)
}

proof fn lemma_kept_entries_clean(lines: Seq<Seq<char>>)
    ensures
        forall|k: int|
            0 <= k < kept_entries(lines).len() ==> trim(#[trigger] kept_entries(lines)[k])
                == kept_entries(lines)[k] && !is_comment(kept_entries(lines)[k]),
    decreases lines.len(),
{
    if lines.len() > 0 {
        let rest = kept_entries(lines.drop_last());
        let l = lines.last();
        lemma_kept_entries_clean(lines.drop_last());
        law_trim_idempotent(l);
        assert forall|k: int| 0 <= k < kept_entries(lines).len() implies trim(
            #[trigger] kept_entries(lines)[k],
        ) == kept_entries(lines)[k] && !is_comment(kept_entries(lines)[k]) by {
            if k < rest.len() {
                assert(kept_entries(lines)[k] == rest[k]);
            }
        }
    }
}

/// Every tag of a blacklist is trimmed and is not a comment.
pub proof fn law_blacklist_entries_clean(text: Seq<char>)
    ensures
        forall|e: Seq<char>|
            #[trigger] blacklist_of(text).contains(e) ==> trim(e) == e && !is_comment(e),
{
    let entries = kept_entries(split_lines(trim(text)));
    lemma_kept_entries_clean(split_lines(trim(text)));
    assert forall|e: Seq<char>| #[trigger] blacklist_of(text).contains(e) implies trim(e) == e
        && !is_comment(e) by {
        let k = choose|k: int| 0 <= k < entries.len() && entries[k] == e;
        assert(trim(entries[k]) == entries[k]);
    }
}

/// Lines that are empty, or comments once trimmed, give no tag.
pub proof fn law_comment_lines_ignored(lines: Seq<Seq<char>>)
    requires
        forall|k: int| 0 <= k < lines.len() ==> #[trigger] lines[k].len() == 0 || is_comment(
            trim(lines[k]),
        ),
    ensures
        kept_entries(lines).len() == 0,
    decreases lines.len(),
{
    if lines.len() > 0 {
        law_comment_lines_ignored(lines.drop_last());
        assert(lines.last() == lines[lines.len() - 1]);
    }
}

/// The queries searched are the profile's own, in order, one for each:
/// its single query when it has one, else every query of its list; without
/// extra tags each is searched as it is, with them each is followed by a
/// space and the extra tags.
pub proof fn law_search_queries(p: Profile, extra: Option<Seq<char>>)
    ensures
        p.query matches Some(q) ==> base_queries(p) == Some(seq![q@]),
        p.query is None && p.queries is Some ==> base_queries(p) == Some(views(p.queries->0@)),
        p.query is None && p.queries is None ==> base_queries(p) is None,
        forall|qs: Seq<Seq<char>>| with_extra(qs, None) == qs,
        forall|qs: Seq<Seq<char>>, e: Seq<char>| #[trigger]
            with_extra(qs, Some(e)).len() == qs.len(),
        forall|qs: Seq<Seq<char>>, e: Seq<char>, i: int|
            0 <= i < qs.len() ==> #[trigger] with_extra(qs, Some(e))[i] == qs[i] + seq![' '] + e,
{
}

} // verus!
