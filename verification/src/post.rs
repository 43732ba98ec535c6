//! Posts as the site lists them, their tags, and what showing and voting on
//! a post amounts to.

use vstd::prelude::*;
use crate::config::{add_distinct, views, Blacklist};
use crate::text::{decimal, push_decimal, push_str};
use crate::tui::{link, link_text};
use crate::vote::ImageVote;

verus! {

/// The picture or video behind a post.
pub struct PostFile {
    pub width: u32,
    pub height: u32,
    pub ext: String,
    pub url: String,
}

/// The tags of a post, grouped by category: each category with its tags.
/// Categories are distinct.
pub type PostTags = Vec<(String, Vec<String>)>;

/// A post of the site.
pub struct Post {
    pub id: u32,
    pub created_at: String,
    pub file: PostFile,
    pub tags: PostTags,
}

/// A page of posts.
pub struct Posts {
    pub posts: Vec<Post>,
}

/// The distinct tags of a post, all categories together.
pub type Tags = Vec<String>;

/// Every tag of any category.
pub open spec fn tag_set(groups: Seq<(String, Vec<String>)>) -> Set<Seq<char>> {
    Set::new(
        |t: Seq<char>|
            exists|i: int, j: int|
                0 <= i < groups.len() && 0 <= j < groups[i].1@.len() && groups[i].1@[j]@ == t,
    )
}

/// The tags met before position `j` of category `i`, going through the
/// categories in order.
pub open spec fn tags_before(groups: Seq<(String, Vec<String>)>, i: int, j: int) -> Set<Seq<char>> {
    Set::new(
        |t: Seq<char>|
            exists|a: int, b: int|
                0 <= a < groups.len() && 0 <= b < groups[a].1@.len() && (a < i || (a == i && b
                    < j)) && groups[a].1@[b]@ == t,
    )
}

/// Whether some tag of the post is blacklisted.
pub open spec fn blacklisted(p: Post, blacklist: Set<Seq<char>>) -> bool {
    exists|t: Seq<char>| tag_set(p.tags@).contains(t) && blacklist.contains(t)
}

/// The posts that show no blacklisted tag, in their order.
pub open spec fn without_blacklisted(posts: Seq<Post>, blacklist: Set<Seq<char>>) -> Seq<Post> {
    posts.filter(|p: Post| !blacklisted(p, blacklist))
}

/// The posts whose count of earlier votes is zero, in their order.
pub open spec fn unseen(posts: Seq<Post>, counts: Seq<i64>) -> Seq<Post>
    decreases posts.len(),
{
    if posts.len() == 0 || counts.len() == 0 {
        Seq::empty()
    } else {
        let rest = unseen(posts.drop_last(), counts.drop_last());
        if counts.last() == 0 {
            rest.push(posts.last())
        } else {
            rest
        }
    }
}

/// `list` joined with `sep` between neighbours.
pub open spec fn join(list: Seq<Seq<char>>, sep: Seq<char>) -> Seq<char>
    decreases list.len(),
{
    if list.len() == 0 {
        Seq::empty()
    } else if list.len() == 1 {
        list[0]
    } else {
        join(list.drop_last(), sep) + sep + list.last()
    }
}

/// The strings of `list` joined with `sep` between neighbours.
pub fn join_strings(list: &Vec<String>, sep: &str) -> (s: String)
    ensures
        s@ == join(views(list@), sep@),
{
    let mut s = String::new();
    let mut k: usize = 0;
    while k < list.len()
        invariant
            k <= list@.len(),
            s@ == join(views(list@).take(k as int), sep@),
        decreases list.len() - k,
    {
        let ghost t = views(list@).take(k + 1);
        assert(t.drop_last() =~= views(list@).take(k as int));
        if k > 0 {
            push_str(&mut s, sep);
        } else {
            assert(views(list@).take(0) =~= Seq::<Seq<char>>::empty());
            assert(s@ =~= Seq::<char>::empty());
        }
        push_str(&mut s, list[k].as_str());
        assert(t.last() == list@[k as int]@);
        if k == 0 {
            assert(s@ =~= t[0]);
        }
        k += 1;
    }
    assert(views(list@).take(k as int) =~= views(list@));
    s
}

/// What showing a post inline amounts to.
pub enum InlineView {
    /// Print this link, which leads to the post's file, between brackets.
    Link(String),
    /// Show the picture at this address in the terminal.
    Picture(String),
}

/// A request to the site's API.
#[derive(PartialEq, Eq, Structural, Clone, Copy, Debug)]
pub enum Method {
    Post,
    Delete,
}

/// A request to the site's API: its method and address.
pub struct ApiRequest {
    pub method: Method,
    pub url: String,
}

/// The row that records a vote in the database.
pub struct VoteRecord {
    pub id: u32,
    pub liked: String,
    pub disliked: String,
}

impl Post {
    /// Every tag of the post.
    pub open spec fn tag_set(&self) -> Set<Seq<char>> {
        tag_set(self.tags@)
    }

    /// Whether the file is a video, which the terminal cannot show.
    pub open spec fn is_video(&self) -> bool {
        self.file.ext@ == "webm"@ || self.file.ext@ == "swf"@
    }

    /// The address of the post's page.
    pub open spec fn page_address(&self) -> Seq<char> {
        "https://e621.net/posts/"@ + decimal(self.id as nat)
    }

    /// "#" and the link to the post's page showing its number, then the
    /// creation time and the size.
    pub open spec fn summary_text(&self) -> Seq<char> {
        "#"@ + link_text(self.page_address(), decimal(self.id as nat)) + ", "@ + self.created_at@
            + ", "@ + decimal(self.file.width as nat) + "x"@ + decimal(self.file.height as nat)
    }

    /// The two lines that describe the post, for the given `image_label`
    /// and `tags_label` (the app styles them): the label, six spaces and
    /// the summary; then the label, seven spaces and the tags joined by
    /// ", ", each tag once, in some order.
    pub open spec fn rendering(&self, image_label: Seq<char>, tags_label: Seq<char>, tags: Seq<
        Seq<char>,
    >) -> Seq<char> {
        image_label + "      "@ + self.summary_text() + "\n"@ + tags_label + "       "@ + join(
            tags,
            ", "@,
        ) + "\n"@
    }

    /// The two lines that describe the post: its summary after
    /// `image_label`, and its tags, each once, after `tags_label`.
    pub fn render(&self, image_label: &str, tags_label: &str) -> (s: String)
        ensures
            exists|t: Seq<Seq<char>>|
                t.no_duplicates() && t.to_set() == self.tag_set() && s@ == self.rendering(
                    image_label@,
                    tags_label@,
                    t,
                ),
    {
        let tags = self.tags();
        let joined = join_strings(&tags, ", ");
        let summary = self.summary();
        let mut s = String::from_str(image_label);
        push_str(&mut s, "      ");
        push_str(&mut s, summary.as_str());
        push_str(&mut s, "\n");
        push_str(&mut s, tags_label);
        push_str(&mut s, "       ");
        push_str(&mut s, joined.as_str());
        push_str(&mut s, "\n");
        assert(s@ == self.rendering(image_label@, tags_label@, views(tags@)));
        s
    }

    /// The tags of the post, each once.
    pub fn tags(&self) -> (t: Tags)
        ensures
            views(t@).no_duplicates(),
            views(t@).to_set() == self.tag_set(),
    {
        let mut out: Vec<String> = Vec::new();
        let ghost groups = self.tags@;
        let mut i: usize = 0;
        assert(views(out@).to_set() =~= tags_before(groups, 0, 0));
        while i < self.tags.len()
            invariant
                groups == self.tags@,
                i <= groups.len(),
                views(out@).no_duplicates(),
                views(out@).to_set() == tags_before(groups, i as int, 0),
            decreases self.tags.len() - i,
        {
            let group = &self.tags[i].1;
            let mut j: usize = 0;
            while j < group.len()
                invariant
                    groups == self.tags@,
                    i < groups.len(),
                    *group == groups[i as int].1,
                    j <= group@.len(),
                    views(out@).no_duplicates(),
                    views(out@).to_set() == tags_before(groups, i as int, j as int),
                decreases group.len() - j,
            {
                let tag = group[j].clone();
                let ghost tv = tag@;
                let ghost before = views(out@).to_set();
                add_distinct(&mut out, tag);
                assert(tags_before(groups, i as int, j + 1) =~= before.insert(tv)) by {
                    assert forall|t: Seq<char>|
                        tags_before(groups, i as int, j + 1).contains(t) implies before.insert(
                            tv,
                        ).contains(t) by {
                        let (a, b) = choose|a: int, b: int|
                            0 <= a < groups.len() && 0 <= b < groups[a].1@.len() && (a < i || (a
                                == i && b < j + 1)) && groups[a].1@[b]@ == t;
                        if !(a == i && b == j) {
                            assert(tags_before(groups, i as int, j as int).contains(t));
                        }
                    }
                    assert(groups[i as int].1@[j as int]@ == tv);
                }
                j += 1;
            }
            assert(tags_before(groups, i as int, j as int) =~= tags_before(groups, i + 1, 0));
            i += 1;
        }
        assert(tags_before(groups, i as int, 0) =~= tag_set(groups));
        out
    }

    /// Whether some tag of the post is blacklisted.
    pub fn is_blacklisted(&self, blacklist: &Blacklist) -> (b: bool)
        ensures
            b == blacklisted(*self, blacklist@),
            b == (exists|i: int, j: int|
                0 <= i < self.tags@.len() && 0 <= j < self.tags@[i].1@.len()
                    && blacklist@.contains(#[trigger] self.tags@[i].1@[j]@)),
    {
        proof {
            law_blacklisted_any_category(*self, blacklist@);
        }
        let tags = self.tags();
        let mut k: usize = 0;
        while k < tags.len()
            invariant
                k <= tags@.len(),
                views(tags@).to_set() == self.tag_set(),
                forall|j: int| 0 <= j < k ==> !blacklist@.contains(#[trigger] tags@[j]@),
            decreases tags.len() - k,
        {
            if blacklist.contains(&tags[k]) {
                assert(views(tags@)[k as int] == tags@[k as int]@);
                assert(self.tag_set().contains(tags@[k as int]@));
                return true;
            }
            k += 1;
        }
        assert forall|t: Seq<char>| self.tag_set().contains(t) implies !blacklist@.contains(t) by {
            assert(views(tags@).contains(t));
            let j = choose|j: int| 0 <= j < views(tags@).len() && views(tags@)[j] == t;
            assert(tags@[j]@ == t);
        }
        false
    }

    /// The link to the post's page, showing its number: "#" followed by
    /// that link, the creation time and the size, for the post's header.
    pub fn summary(&self) -> (s: String)
        ensures
            s@ == self.summary_text(),
    {
        let mut address = String::from_str("https://e621.net/posts/");
        push_decimal(&mut address, self.id as u64);
        let mut number = String::new();
        push_decimal(&mut number, self.id as u64);
        let l = link(address.as_str(), number.as_str());
        let mut s = String::from_str("#");
        push_str(&mut s, l.as_str());
        push_str(&mut s, ", ");
        push_str(&mut s, self.created_at.as_str());
        push_str(&mut s, ", ");
        push_decimal(&mut s, self.file.width as u64);
        push_str(&mut s, "x");
        push_decimal(&mut s, self.file.height as u64);
        s
    }

    /// How to show the post: videos and, outside iTerm2, pictures as a
    /// link to the file; in iTerm2 the picture itself.
    pub fn inline_view(&self, iterm2: bool) -> (v: InlineView)
        ensures
            self.is_video() ==> (v matches InlineView::Link(l) && l@ == link_text(
                self.file.url@,
                "Video; please view externally or click here"@,
            )),
            !self.is_video() && iterm2 ==> (v matches InlineView::Picture(u) && u@
                == self.file.url@),
            !self.is_video() && !iterm2 ==> (v matches InlineView::Link(l) && l@ == link_text(
                self.file.url@,
                "Image; please view externally or click here"@,
            )),
            self.file.ext@ != "webm"@ && self.file.ext@ != "swf"@ && iterm2 ==> (
            v matches InlineView::Picture(u) && u@ == self.file.url@),
            (self.file.ext@ == "webm"@ || self.file.ext@ == "swf"@) ==> (
            v matches InlineView::Link(l) && l@ == link_text(
                self.file.url@,
                "Video; please view externally or click here"@,
            )),
    {
        let webm = String::from_str("webm");
        let swf = String::from_str("swf");
        if self.file.ext == webm || self.file.ext == swf {
            InlineView::Link(link(self.file.url.as_str(), "Video; please view externally or click here"))
        } else if iterm2 {
            InlineView::Picture(self.file.url.clone())
        } else {
            InlineView::Link(link(self.file.url.as_str(), "Image; please view externally or click here"))
        }
    }

    /// The requests that publish a vote on the post, in order: the vote
    /// itself, then adding the post to the favourites for an up vote or
    /// removing it from them for a down vote.
    pub fn vote_requests(&self, domain: &str, vote: &ImageVote) -> (r: Vec<ApiRequest>)
        ensures
            r@.len() == 2,
            r@[0].method == Method::Post,
            r@[0].url@ == "https://"@ + domain@ + "/posts/"@ + decimal(self.id as nat)
                + "/votes.json?no_unvote=true&score="@ + crate::text::signed_decimal(vote.score()),
            *vote == ImageVote::Up ==> r@[1].method == Method::Post && r@[1].url@ == "https://"@
                + domain@ + "/favorites.json?post_id="@ + decimal(self.id as nat),
            *vote == ImageVote::Down ==> r@[1].method == Method::Delete && r@[1].url@
                == "https://"@ + domain@ + "/favorites/"@ + decimal(self.id as nat) + ".json"@,
    {
        let mut first = String::from_str("https://");
        push_str(&mut first, domain);
        push_str(&mut first, "/posts/");
        push_decimal(&mut first, self.id as u64);
        push_str(&mut first, "/votes.json?no_unvote=true&score=");
        let score = vote.to_string();
        push_str(&mut first, score.as_str());
        let mut second = String::from_str("https://");
        push_str(&mut second, domain);
        let method = match vote {
            ImageVote::Up => {
                push_str(&mut second, "/favorites.json?post_id=");
                push_decimal(&mut second, self.id as u64);
                Method::Post
            },
            ImageVote::Down => {
                push_str(&mut second, "/favorites/");
                push_decimal(&mut second, self.id as u64);
                push_str(&mut second, ".json");
                Method::Delete
            },
        };
        let mut r: Vec<ApiRequest> = Vec::new();
        r.push(ApiRequest { method: Method::Post, url: first });
        r.push(ApiRequest { method, url: second });
        r
    }

    /// The database row for a vote on the post: its number, the vote's
    /// flag as "liked" and the opposite vote's flag as "disliked".
    pub fn vote_record(&self, vote: &ImageVote) -> (r: VoteRecord)
        ensures
            r.id == self.id,
            r.liked@ == vote.flag_text(),
            r.disliked@ == vote.spec_reverse().flag_text(),
    {
        VoteRecord { id: self.id, liked: vote.flag(), disliked: vote.reverse().flag() }
    }
}

/// The posts in the opposite order.
fn reverse_posts(posts: Vec<Post>) -> (r: Vec<Post>)
    ensures
        r@.len() == posts@.len(),
        forall|j: int| 0 <= j < posts@.len() ==> r@[j] == posts@[posts@.len() - 1 - j],
{
    let ghost all = posts@;
    let mut rest = posts;
    let len = rest.len();
    let mut reversed: Vec<Post> = Vec::new();
    let mut k: usize = 0;
    while k < len
        invariant
            k <= len == all.len(),
            rest@ == all.take(len - k),
            reversed@.len() == k,
            forall|j: int| 0 <= j < k ==> reversed@[j] == all[len - 1 - j],
        decreases len - k,
    {
        let p = rest.pop().unwrap();
        assert(rest@ =~= all.take(len - k - 1));
        reversed.push(p);
        k += 1;
    }
    reversed
}

proof fn lemma_filter_take_succ(s: Seq<Post>, pred: spec_fn(Post) -> bool, k: int)
    requires
        0 <= k < s.len(),
    ensures
        s.take(k + 1).filter(pred) == (if pred(s[k]) {
            s.take(k).filter(pred).push(s[k])
        } else {
            s.take(k).filter(pred)
        }),
{
    reveal(Seq::filter);
    assert(s.take(k + 1).drop_last() =~= s.take(k));
}

/// The posts of the page that show no blacklisted tag, in their order.
pub fn filter_blacklisted(posts: Posts, blacklist: &Blacklist) -> (r: Posts)
    ensures
        r.posts@ == without_blacklisted(posts.posts@, blacklist@),
{
    let ghost all = posts.posts@;
    let ghost pred = |p: Post| !blacklisted(p, blacklist@);
    let mut kept: Vec<Post> = Vec::new();
    let len = posts.posts.len();
    // The posts from the back, so that popping gives them in order.
    let mut reversed = reverse_posts(posts.posts);
    assert(all.take(0).filter(pred) =~= Seq::<Post>::empty()) by {
        reveal(Seq::filter);
    }
    let mut m: usize = 0;
    while m < len
        invariant
            m <= len == all.len(),
            reversed@.len() == len - m,
            forall|j: int| 0 <= j < len - m ==> reversed@[j] == all[len - 1 - j],
            kept@ == all.take(m as int).filter(pred),
            pred == (|p: Post| !blacklisted(p, blacklist@)),
        decreases len - m,
    {
        let p = reversed.pop().unwrap();
        assert(p == all[m as int]);
        proof {
            lemma_filter_take_succ(all, pred, m as int);
        }
        let b = p.is_blacklisted(blacklist);
        assert(pred(p) == !b);
        if !b {
            kept.push(p);
        }
        m += 1;
    }
    assert(all.take(len as int) =~= all);
    Posts { posts: kept }
}

proof fn lemma_unseen_take_succ(posts: Seq<Post>, counts: Seq<i64>, k: int)
    requires
        0 <= k < posts.len(),
        posts.len() == counts.len(),
    ensures
        unseen(posts.take(k + 1), counts.take(k + 1)) == (if counts[k] == 0 {
            unseen(posts.take(k), counts.take(k)).push(posts[k])
        } else {
            unseen(posts.take(k), counts.take(k))
        }),
{
    assert(posts.take(k + 1).drop_last() =~= posts.take(k));
    assert(counts.take(k + 1).drop_last() =~= counts.take(k));
}

/// The posts of the page that have not been voted on, in their order:
/// `counts[i]` is the number of recorded votes on `posts[i]`.
pub fn remove_existing(posts: Posts, counts: &Vec<i64>) -> (r: Posts)
    requires
        counts.len() == posts.posts.len(),
    ensures
        r.posts@ == unseen(posts.posts@, counts@),
{
    let ghost all = posts.posts@;
    let len = posts.posts.len();
    let mut reversed = reverse_posts(posts.posts);
    let mut kept: Vec<Post> = Vec::new();
    let mut m: usize = 0;
    assert(unseen(all.take(0), counts@.take(0)) =~= Seq::<Post>::empty());
    while m < len
        invariant
            m <= len == all.len() == counts@.len(),
            reversed@.len() == len - m,
            forall|j: int| 0 <= j < len - m ==> reversed@[j] == all[len - 1 - j],
            kept@ == unseen(all.take(m as int), counts@.take(m as int)),
        decreases len - m,
    {
        let p = reversed.pop().unwrap();
        assert(p == all[m as int]);
        proof {
            lemma_unseen_take_succ(all, counts@, m as int);
        }
        if counts[m] == 0 {
            kept.push(p);
        }
        m += 1;
    }
    assert(all.take(len as int) =~= all);
    assert(counts@.take(len as int) =~= counts@);
    Posts { posts: kept }
}

proof fn lemma_filter_all(s: Seq<Post>, pred: spec_fn(Post) -> bool)
    requires
        forall|i: int| 0 <= i < s.len() ==> pred(#[trigger] s[i]),
    ensures
        s.filter(pred) == s,
    decreases s.len(),
{
    reveal(Seq::filter);
    if s.len() > 0 {
        lemma_filter_all(s.drop_last(), pred);
        assert(pred(s[s.len() - 1]));
        assert(s.drop_last().push(s.last()) =~= s);
    }
}

/// Filtering keeps exactly the posts that show no blacklisted tag, in
/// their order: each kept post came from the page and shows none, each
/// post of the page that shows none is kept, and filtering again changes
/// nothing.
pub proof fn law_filter_blacklisted(posts: Seq<Post>, blacklist: Set<Seq<char>>)
    ensures
        forall|k: int|
            0 <= k < without_blacklisted(posts, blacklist).len() ==> !blacklisted(
                #[trigger] without_blacklisted(posts, blacklist)[k],
                blacklist,
            ) && posts.contains(without_blacklisted(posts, blacklist)[k]),
        forall|i: int|
            0 <= i < posts.len() && !blacklisted(posts[i], blacklist) ==> without_blacklisted(
                posts,
                blacklist,
            ).contains(#[trigger] posts[i]),
        without_blacklisted(without_blacklisted(posts, blacklist), blacklist)
            == without_blacklisted(posts, blacklist),
{
    let pred = |p: Post| !blacklisted(p, blacklist);
    let kept = posts.filter(pred);
    assert forall|k: int| 0 <= k < kept.len() implies !blacklisted(#[trigger] kept[k], blacklist)
        && posts.contains(kept[k]) by {
        posts.lemma_filter_pred(pred, k);
        posts.lemma_filter_contains_rev(pred, kept[k]);
        assert(kept.contains(kept[k]));
    }
    assert forall|i: int| 0 <= i < posts.len() && !blacklisted(posts[i], blacklist) implies kept.contains(
        #[trigger] posts[i],
    ) by {
        posts.lemma_filter_contains(pred, i);
    }
    lemma_filter_all(kept, pred);
}

/// With an empty blacklist, no post is filtered out.
pub proof fn law_empty_blacklist_keeps_all(posts: Seq<Post>)
    ensures
        without_blacklisted(posts, Set::empty()) == posts,
{
    lemma_filter_all(posts, |p: Post| !blacklisted(p, Set::empty()));
}

/// When no post has a recorded vote, every post is kept; when every post
/// has one, none is.
pub proof fn law_unseen_by_counts(posts: Seq<Post>, counts: Seq<i64>)
    requires
        posts.len() == counts.len(),
    ensures
        (forall|i: int| 0 <= i < counts.len() ==> #[trigger] counts[i] == 0) ==> unseen(
            posts,
            counts,
        ) == posts,
        (forall|i: int| 0 <= i < counts.len() ==> #[trigger] counts[i] != 0) ==> unseen(
            posts,
            counts,
        ).len() == 0,
    decreases posts.len(),
{
    if posts.len() > 0 {
        law_unseen_by_counts(posts.drop_last(), counts.drop_last());
        assert(counts.last() == counts[counts.len() - 1]);
        if forall|i: int| 0 <= i < counts.len() ==> #[trigger] counts[i] == 0 {
            assert(forall|i: int|
                0 <= i < counts.drop_last().len() ==> #[trigger] counts.drop_last()[i] == counts[i]);
            assert(posts.drop_last().push(posts.last()) =~= posts);
        }
        if forall|i: int| 0 <= i < counts.len() ==> #[trigger] counts[i] != 0 {
            assert(forall|i: int|
                0 <= i < counts.drop_last().len() ==> #[trigger] counts.drop_last()[i] == counts[i]);
        }
    }
}

/// Whether `a` is `b` with some posts left out, the others in their order.
pub open spec fn is_subsequence(a: Seq<Post>, b: Seq<Post>) -> bool
    decreases b.len(),
{
    if b.len() == 0 {
        a.len() == 0
    } else {
        ||| is_subsequence(a, b.drop_last())
        ||| (a.len() > 0 && a.last() == b.last() && is_subsequence(a.drop_last(), b.drop_last()))
    }
}

proof fn lemma_filter_stronger(s: Seq<Post>, p: spec_fn(Post) -> bool, q: spec_fn(Post) -> bool)
    requires
        forall|x: Post| #[trigger] p(x) ==> q(x),
    ensures
        is_subsequence(s.filter(p), s.filter(q)),
    decreases s.len(),
{
    reveal(Seq::filter);
    if s.len() == 0 {
    } else {
        let init = s.drop_last();
        let x = s.last();
        lemma_filter_stronger(init, p, q);
        if p(x) {
            assert(q(x));
            assert(s.filter(p).drop_last() =~= init.filter(p));
            assert(s.filter(q).drop_last() =~= init.filter(q));
        } else if q(x) {
            assert(s.filter(q).drop_last() =~= init.filter(q));
        }
    }
}

proof fn lemma_filter_filter(s: Seq<Post>, p: spec_fn(Post) -> bool, q: spec_fn(Post) -> bool)
    ensures
        s.filter(p).filter(q) == s.filter(|x: Post| p(x) && q(x)),
    decreases s.len(),
{
    reveal(Seq::filter);
    if s.len() > 0 {
        let init = s.drop_last();
        let x = s.last();
        lemma_filter_filter(init, p, q);
        if p(x) {
            assert(s.filter(p).drop_last() =~= init.filter(p));
            assert(s.filter(p).last() == x);
        }
    }
}

proof fn lemma_unseen_is_filter(s: Seq<Post>, count: spec_fn(Post) -> i64)
    ensures
        unseen(s, s.map_values(count)) == s.filter(|x: Post| count(x) == 0),
    decreases s.len(),
{
    reveal(Seq::filter);
    if s.len() > 0 {
        let init = s.drop_last();
        lemma_unseen_is_filter(init, count);
        assert(s.map_values(count).drop_last() =~= init.map_values(count));
    }
}

/// A larger blacklist keeps a part of what a smaller one keeps: the posts
/// it keeps are those the smaller one keeps, some left out, in order.
pub proof fn law_larger_blacklist_keeps_subsequence(
    posts: Seq<Post>,
    small: Set<Seq<char>>,
    large: Set<Seq<char>>,
)
    requires
        small.subset_of(large),
    ensures
        is_subsequence(without_blacklisted(posts, large), without_blacklisted(posts, small)),
{
    let p = |x: Post| !blacklisted(x, large);
    let q = |x: Post| !blacklisted(x, small);
    assert forall|x: Post| #[trigger] p(x) implies q(x) by {
        if blacklisted(x, small) {
            let t = choose|t: Seq<char>| tag_set(x.tags@).contains(t) && small.contains(t);
            assert(large.contains(t));
        }
    }
    lemma_filter_stronger(posts, p, q);
}

/// What filtering a page keeps, with the database fixed so that `count`
/// gives the number of recorded votes on each post: with an empty
/// blacklist it is what removing the voted posts alone keeps, and a larger
/// blacklist keeps a part of what a smaller one keeps, in order.
pub proof fn law_filter_page_monotone(
    posts: Seq<Post>,
    small: Set<Seq<char>>,
    large: Set<Seq<char>>,
    count: spec_fn(Post) -> i64,
)
    requires
        small.subset_of(large),
    ensures
        unseen(
            without_blacklisted(posts, Set::empty()),
            without_blacklisted(posts, Set::empty()).map_values(count),
        ) == unseen(posts, posts.map_values(count)),
        is_subsequence(
            unseen(
                without_blacklisted(posts, large),
                without_blacklisted(posts, large).map_values(count),
            ),
            unseen(
                without_blacklisted(posts, small),
                without_blacklisted(posts, small).map_values(count),
            ),
        ),
{
    law_empty_blacklist_keeps_all(posts);
    let unvoted = |x: Post| count(x) == 0;
    let p = |x: Post| !blacklisted(x, large);
    let q = |x: Post| !blacklisted(x, small);
    lemma_unseen_is_filter(without_blacklisted(posts, large), count);
    lemma_unseen_is_filter(without_blacklisted(posts, small), count);
    lemma_filter_filter(posts, p, unvoted);
    lemma_filter_filter(posts, q, unvoted);
    assert forall|x: Post| #[trigger] p(x) && unvoted(x) implies q(x) && unvoted(x) by {
        if blacklisted(x, small) {
            let t = choose|t: Seq<char>| tag_set(x.tags@).contains(t) && small.contains(t);
            assert(large.contains(t));
        }
    }
    lemma_filter_stronger(posts, |x: Post| p(x) && unvoted(x), |x: Post| q(x) && unvoted(x));
}

/// A post is blacklisted exactly when a tag of any of its categories, at
/// any position, is on the blacklist.
pub proof fn law_blacklisted_any_category(p: Post, b: Set<Seq<char>>)
    ensures
        blacklisted(p, b) == (exists|i: int, j: int|
            0 <= i < p.tags@.len() && 0 <= j < p.tags@[i].1@.len() && b.contains(
                #[trigger] p.tags@[i].1@[j]@,
            )),
        forall|i: int, j: int|
            0 <= i < p.tags@.len() && 0 <= j < p.tags@[i].1@.len() && b.contains(
                #[trigger] p.tags@[i].1@[j]@,
            ) ==> blacklisted(p, b),
{
    assert forall|i: int, j: int|
        0 <= i < p.tags@.len() && 0 <= j < p.tags@[i].1@.len() && b.contains(
            #[trigger] p.tags@[i].1@[j]@,
        ) implies blacklisted(p, b) by {
        assert(tag_set(p.tags@).contains(p.tags@[i].1@[j]@));
    }
    if blacklisted(p, b) {
        let t = choose|t: Seq<char>| tag_set(p.tags@).contains(t) && b.contains(t);
        let (i, j) = choose|i: int, j: int|
            0 <= i < p.tags@.len() && 0 <= j < p.tags@[i].1@.len() && p.tags@[i].1@[j]@ == t;
        assert(b.contains(p.tags@[i].1@[j]@));
    }
}

/// Only `webm` and `swf` files are videos: a file with any other
/// extension is a picture.
pub proof fn law_only_webm_and_swf_are_videos(p: Post)
    ensures
        p.file.ext@ == "webm"@ ==> p.is_video(),
        p.file.ext@ == "swf"@ ==> p.is_video(),
        p.file.ext@ != "webm"@ && p.file.ext@ != "swf"@ ==> !p.is_video(),
{
}

} // verus!
