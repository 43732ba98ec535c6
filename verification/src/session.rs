//! The decisions of a browsing session, as a state machine: the program
//! around it performs each action it asks for (reading files, talking to
//! the site and the database, asking the user) and hands back what came of
//! it as the next event.

use vstd::prelude::*;
use crate::config::Blacklist;
use crate::post::{blacklisted, filter_blacklisted, remove_existing, unseen, without_blacklisted, Post, Posts};
use crate::vote::{vote_of, ImageVote};

verus! {

/// How many times publishing a vote is tried before giving up.
pub const MAX_ATTEMPTS: u32 = 5;

/// Where the session stands: what it waits for.
#[derive(PartialEq, Eq, Structural, Clone, Copy, Debug)]
pub enum Phase {
    /// The profile's blacklist, before downloading a page.
    LoadingBlacklist,
    /// The page being downloaded.
    Downloading,
    /// The number of recorded votes on each post of the page.
    CountingVotes,
    /// The blacklist, read again before the post at `index` is shown.
    Reviewing { index: usize },
    /// The notice that the post at `index` is skipped.
    Skipping { index: usize },
    /// The user's vote on the post at `index`.
    Choosing { index: usize },
    /// The outcome of the `attempt`-th try to publish `vote`.
    Publishing { index: usize, vote: ImageVote, attempt: u32 },
    /// The row that records the vote in the older table.
    Recording { index: usize },
    /// The database writing its cache out.
    Flushing { index: usize },
}

/// What came of the last action.
pub enum Event {
    /// The profile's blacklist was read.
    BlacklistLoaded(Blacklist),
    /// The page was downloaded, the posts of all queries together.
    Downloaded(Posts),
    /// Downloading the page failed; the failure has been told and a
    /// second waited out.
    DownloadFailed,
    /// The number of recorded votes on each post, in the posts' order.
    VoteCounts(Vec<i64>),
    /// The blacklist was read again.
    BlacklistReloaded(Blacklist),
    /// The user answered: `true` is an up vote.
    Chosen(bool),
    /// Publishing the vote succeeded (`true`) or failed.
    Published(bool),
    /// The notice, the row or the flush is done.
    Done,
}

/// What the program around the session is to do next.
pub enum Action {
    /// Read the profile's blacklist.
    LoadBlacklist,
    /// Clear the screen, announce page `page` and download it.
    Download { page: usize },
    /// Download page `page` again, after a try that failed.
    RetryDownload { page: usize },
    /// Count the recorded votes on each of these posts.
    CountVotes { ids: Vec<u32> },
    /// Read the tally and the blacklist again for the post at `index`.
    Review { index: usize },
    /// Tell that the post `id` is now blacklisted and skip it.
    Skip { id: u32 },
    /// Show the post at `index` and ask for a vote on it.
    AskVote { index: usize },
    /// Try for the `attempt`-th time to publish `vote` on the post at
    /// `index`; the first try is announced on a cleared screen.
    Publish { index: usize, vote: ImageVote, attempt: u32 },
    /// Record in the older table that `vote` on post `id` was published.
    RecordPublished { id: u32, vote: ImageVote },
    /// Have the database write its cache out.
    Flush,
}

/// A browsing session: the next page to download, whether the older
/// table of published votes is kept up, the blacklist that the current
/// page was filtered with, and the posts of that page that remain to be
/// reviewed.
pub struct Session {
    pub page: usize,
    pub backward_compatibility: bool,
    pub phase: Phase,
    pub blacklist: Blacklist,
    pub posts: Vec<Post>,
}

impl Session {
    /// The index that the phase refers to is a post of the page, and the
    /// number of the attempt is between 1 and `MAX_ATTEMPTS`.
    pub open spec fn wf(&self) -> bool {
        &&& self.page >= 1
        &&& match self.phase {
            Phase::LoadingBlacklist | Phase::Downloading | Phase::CountingVotes => true,
            Phase::Reviewing { index } | Phase::Skipping { index } | Phase::Choosing { index }
            | Phase::Recording { index } | Phase::Flushing { index } => index < self.posts@.len(),
            Phase::Publishing { index, vote, attempt } => index < self.posts@.len() && 1 <= attempt
                <= MAX_ATTEMPTS,
        }
    }

    /// Whether `e` is what the session waits for.
    pub open spec fn accepts(&self, e: &Event) -> bool {
        match (self.phase, e) {
            (Phase::LoadingBlacklist, Event::BlacklistLoaded(_)) => true,
            (Phase::Downloading, Event::DownloadFailed) => true,
            (Phase::Downloading, Event::Downloaded(_)) => self.page < usize::MAX,
            (Phase::CountingVotes, Event::VoteCounts(counts)) => counts@.len()
                == self.posts@.len(),
            (Phase::Reviewing { .. }, Event::BlacklistReloaded(_)) => true,
            (Phase::Skipping { .. }, Event::Done) => true,
            (Phase::Choosing { .. }, Event::Chosen(_)) => true,
            (Phase::Publishing { .. }, Event::Published(_)) => true,
            (Phase::Recording { .. }, Event::Done) => true,
            (Phase::Flushing { .. }, Event::Done) => true,
            _ => false,
        }
    }
}

/// `post` is `pre` in another phase.
pub open spec fn same_page(pre: Session, post: Session) -> bool {
    &&& post.page == pre.page
    &&& post.backward_compatibility == pre.backward_compatibility
    &&& post.blacklist@ == pre.blacklist@
    &&& post.posts@ == pre.posts@
}

/// After the post at `i`: the next post is reviewed, or, after the last
/// one, the next page begins with reading the blacklist.
pub open spec fn moves_on(pre: Session, i: int, post: Session, a: Action) -> bool {
    &&& post.page == pre.page
    &&& post.backward_compatibility == pre.backward_compatibility
    &&& post.blacklist@ == pre.blacklist@
    &&& if i + 1 < pre.posts@.len() {
        &&& post.posts@ == pre.posts@
        &&& post.phase == Phase::Reviewing { index: (i + 1) as usize }
        &&& a == Action::Review { index: (i + 1) as usize }
    } else {
        &&& post.posts@.len() == 0
        &&& post.phase == Phase::LoadingBlacklist
        &&& a == Action::LoadBlacklist
    }
}

/// One step of the session: from `pre`, on event `e`, to `post`, asking
/// for action `a`.
pub open spec fn transition(pre: Session, e: Event, post: Session, a: Action) -> bool {
    match (pre.phase, e) {
        (Phase::LoadingBlacklist, Event::BlacklistLoaded(b)) => {
            &&& post.page == pre.page
            &&& post.backward_compatibility == pre.backward_compatibility
            &&& post.blacklist@ == b@
            &&& post.posts@ == pre.posts@
            &&& post.phase == Phase::Downloading
            &&& a == Action::Download { page: pre.page }
        },
        (Phase::Downloading, Event::DownloadFailed) => {
            &&& same_page(pre, post)
            &&& post.phase == Phase::Downloading
            &&& a == Action::RetryDownload { page: pre.page }
        },
        (Phase::Downloading, Event::Downloaded(ps)) => {
            &&& post.page == pre.page + 1
            &&& post.backward_compatibility == pre.backward_compatibility
            &&& post.blacklist@ == pre.blacklist@
            &&& post.posts@ == without_blacklisted(ps.posts@, pre.blacklist@)
            &&& post.phase == Phase::CountingVotes
            &&& a matches Action::CountVotes { ids } && ids@ == post.posts@.map_values(
                |p: Post| p.id,
            )
        },
        (Phase::CountingVotes, Event::VoteCounts(counts)) => {
            &&& post.page == pre.page
            &&& post.backward_compatibility == pre.backward_compatibility
            &&& post.blacklist@ == pre.blacklist@
            &&& post.posts@ == unseen(pre.posts@, counts@)
            &&& if post.posts@.len() > 0 {
                post.phase == Phase::Reviewing { index: 0 } && a == Action::Review { index: 0 }
            } else {
                post.phase == Phase::LoadingBlacklist && a == Action::LoadBlacklist
            }
        },
        (Phase::Reviewing { index }, Event::BlacklistReloaded(b)) => {
            &&& same_page(pre, post)
            &&& if blacklisted(pre.posts@[index as int], b@) {
                post.phase == Phase::Skipping { index } && a == Action::Skip {
                    id: pre.posts@[index as int].id,
                }
            } else {
                post.phase == Phase::Choosing { index } && a == Action::AskVote { index }
            }
        },
        (Phase::Skipping { index }, Event::Done) => moves_on(pre, index as int, post, a),
        (Phase::Choosing { index }, Event::Chosen(up)) => {
            &&& same_page(pre, post)
            &&& post.phase == Phase::Publishing { index, vote: vote_of(up), attempt: 1 }
            &&& a == Action::Publish { index, vote: vote_of(up), attempt: 1 }
        },
        (Phase::Publishing { index, vote, attempt }, Event::Published(ok)) => {
            &&& same_page(pre, post)
            &&& if !ok && attempt < MAX_ATTEMPTS {
                &&& post.phase == Phase::Publishing { index, vote, attempt: (attempt + 1) as u32 }
                &&& a == Action::Publish { index, vote, attempt: (attempt + 1) as u32 }
            } else if pre.backward_compatibility {
                &&& post.phase == Phase::Recording { index }
                &&& a == Action::RecordPublished { id: pre.posts@[index as int].id, vote }
            } else {
                post.phase == Phase::Flushing { index } && a == Action::Flush
            }
        },
        (Phase::Recording { index }, Event::Done) => {
            &&& same_page(pre, post)
            &&& post.phase == Phase::Flushing { index }
            &&& a == Action::Flush
        },
        (Phase::Flushing { index }, Event::Done) => moves_on(pre, index as int, post, a),
        _ => false,
    }
}

impl Session {
    /// A new session, which starts by reading the blacklist for page 1.
    pub fn start(backward_compatibility: bool) -> (r: (Session, Action))
        ensures
            r.0.wf(),
            r.0.page == 1,
            r.0.backward_compatibility == backward_compatibility,
            r.0.phase == Phase::LoadingBlacklist,
            r.0.posts@.len() == 0,
            r.1 == Action::LoadBlacklist,
    {
        let s = Session {
            page: 1,
            backward_compatibility,
            phase: Phase::LoadingBlacklist,
            blacklist: Blacklist::empty(),
            posts: Vec::new(),
        };
        (s, Action::LoadBlacklist)
    }

    /// Whether `e` is what the session waits for.
    pub fn can_take(&self, e: &Event) -> (b: bool)
        ensures
            b == self.accepts(e),
    {
        match (self.phase, e) {
            (Phase::LoadingBlacklist, Event::BlacklistLoaded(_)) => true,
            (Phase::Downloading, Event::DownloadFailed) => true,
            (Phase::Downloading, Event::Downloaded(_)) => self.page < usize::MAX,
            (Phase::CountingVotes, Event::VoteCounts(counts)) => counts.len() == self.posts.len(),
            (Phase::Reviewing { .. }, Event::BlacklistReloaded(_)) => true,
            (Phase::Skipping { .. }, Event::Done) => true,
            (Phase::Choosing { .. }, Event::Chosen(_)) => true,
            (Phase::Publishing { .. }, Event::Published(_)) => true,
            (Phase::Recording { .. }, Event::Done) => true,
            (Phase::Flushing { .. }, Event::Done) => true,
            _ => false,
        }
    }

    /// The post at `index` of the current page.
    pub fn post(&self, index: usize) -> (p: &Post)
        requires
            index < self.posts@.len(),
        ensures
            *p == self.posts@[index as int],
    {
        &self.posts[index]
    }

    /// Moves past the post at `index`.
    fn move_on(&mut self, index: usize) -> (a: Action)
        requires
            index < old(self).posts@.len(),
            old(self).page >= 1,
        ensures
            moves_on(*old(self), index as int, *final(self), a),
            final(self).wf(),
    {
        if index < self.posts.len() - 1 {
            self.phase = Phase::Reviewing { index: index + 1 };
            Action::Review { index: index + 1 }
        } else {
            self.posts = Vec::new();
            self.phase = Phase::LoadingBlacklist;
            Action::LoadBlacklist
        }
    }

    /// Takes the event `e` and says what to do next.
    pub fn step(&mut self, e: Event) -> (a: Action)
        requires
            old(self).wf(),
            old(self).accepts(&e),
        ensures
            final(self).wf(),
            transition(*old(self), e, *final(self), a),
    {
        match (self.phase, e) {
            (Phase::LoadingBlacklist, Event::BlacklistLoaded(b)) => {
                self.blacklist = b;
                self.phase = Phase::Downloading;
                Action::Download { page: self.page }
            },
            (Phase::Downloading, Event::DownloadFailed) => {
                Action::RetryDownload { page: self.page }
            },
            (Phase::Downloading, Event::Downloaded(ps)) => {
                self.page = self.page + 1;
                let kept = filter_blacklisted(ps, &self.blacklist);
                self.posts = kept.posts;
                self.phase = Phase::CountingVotes;
                let mut ids: Vec<u32> = Vec::new();
                let mut k: usize = 0;
                while k < self.posts.len()
                    invariant
                        k <= self.posts@.len(),
                        ids@ =~= self.posts@.take(k as int).map_values(|p: Post| p.id),
                    decreases self.posts.len() - k,
                {
                    ids.push(self.posts[k].id);
                    assert(self.posts@.take(k + 1).map_values(|p: Post| p.id) =~= self.posts@.take(
                        k as int,
                    ).map_values(|p: Post| p.id).push(self.posts@[k as int].id));
                    k += 1;
                }
                assert(self.posts@.take(k as int) =~= self.posts@);
                Action::CountVotes { ids }
            },
            (Phase::CountingVotes, Event::VoteCounts(counts)) => {
                let mut taken: Vec<Post> = Vec::new();
                std::mem::swap(&mut taken, &mut self.posts);
                let kept = remove_existing(Posts { posts: taken }, &counts);
                self.posts = kept.posts;
                if self.posts.len() > 0 {
                    self.phase = Phase::Reviewing { index: 0 };
                    Action::Review { index: 0 }
                } else {
                    self.phase = Phase::LoadingBlacklist;
                    Action::LoadBlacklist
                }
            },
            (Phase::Reviewing { index }, Event::BlacklistReloaded(b)) => {
                if self.posts[index].is_blacklisted(&b) {
                    self.phase = Phase::Skipping { index };
                    Action::Skip { id: self.posts[index].id }
                } else {
                    self.phase = Phase::Choosing { index };
                    Action::AskVote { index }
                }
            },
            (Phase::Skipping { index }, Event::Done) => self.move_on(index),
            (Phase::Choosing { index }, Event::Chosen(up)) => {
                let vote = ImageVote::from(up);
                self.phase = Phase::Publishing { index, vote, attempt: 1 };
                Action::Publish { index, vote, attempt: 1 }
            },
            (Phase::Publishing { index, vote, attempt }, Event::Published(ok)) => {
                if !ok && attempt < MAX_ATTEMPTS {
                    self.phase = Phase::Publishing { index, vote, attempt: attempt + 1 };
                    Action::Publish { index, vote, attempt: attempt + 1 }
                } else if self.backward_compatibility {
                    self.phase = Phase::Recording { index };
                    Action::RecordPublished { id: self.posts[index].id, vote }
                } else {
                    self.phase = Phase::Flushing { index };
                    Action::Flush
                }
            },
            (Phase::Recording { index }, Event::Done) => {
                self.phase = Phase::Flushing { index };
                Action::Flush
            },
            (Phase::Flushing { index }, Event::Done) => self.move_on(index),
            _ => Action::Flush,
        }
    }
}

/// Publishing a vote is tried at most `MAX_ATTEMPTS` times, and never
/// again once a try has succeeded.
pub proof fn law_publish_attempts_bounded(pre: Session, e: Event, post: Session, a: Action)
    requires
        pre.wf(),
        transition(pre, e, post, a),
    ensures
        a matches Action::Publish { attempt, .. } ==> 1 <= attempt <= MAX_ATTEMPTS,
        pre.phase is Publishing && e == Event::Published(true) ==> !(a is Publish),
        a matches Action::Publish { attempt, .. } ==> (attempt == 1 <==> pre.phase is Choosing),
{
}

/// A post that the blacklist, read again, rules out is never shown or
/// voted on: it is skipped.
pub proof fn law_blacklisted_post_skipped(pre: Session, b: Blacklist, post: Session, a: Action)
    requires
        pre.wf(),
        pre.phase is Reviewing,
        transition(pre, Event::BlacklistReloaded(b), post, a),
    ensures
        blacklisted(pre.posts@[pre.phase->Reviewing_index as int], b@) <==> a is Skip,
        blacklisted(pre.posts@[pre.phase->Reviewing_index as int], b@) ==> !(a is AskVote),
{
}

/// The older table of published votes is written only with backward
/// compatibility, and only once publishing is over.
pub proof fn law_record_needs_backward_compatibility(
    pre: Session,
    e: Event,
    post: Session,
    a: Action,
)
    requires
        transition(pre, e, post, a),
    ensures
        a is RecordPublished ==> pre.backward_compatibility && pre.phase is Publishing,
{
}

/// Pages are downloaded in order: a download asks for the session's next
/// page, a failed download asks for the same page again, and a page that
/// came moves the session on to the following one.
pub proof fn law_pages_in_order(pre: Session, e: Event, post: Session, a: Action)
    requires
        transition(pre, e, post, a),
    ensures
        a matches Action::Download { page } ==> page == pre.page && post.page == pre.page,
        a matches Action::RetryDownload { page } ==> page == pre.page && post.page == pre.page,
        e is Downloaded ==> post.page == pre.page + 1,
        !(e is Downloaded) ==> post.page == pre.page,
{
}

/// The posts reviewed from a page are those of the downloaded page, in
/// order, that show no tag of the blacklist read before the download and
/// have no recorded vote.
pub proof fn law_reviewed_posts(
    s0: Session,
    ps: Posts,
    s1: Session,
    a1: Action,
    counts: Vec<i64>,
    s2: Session,
    a2: Action,
)
    requires
        transition(s0, Event::Downloaded(ps), s1, a1),
        transition(s1, Event::VoteCounts(counts), s2, a2),
    ensures
        s2.posts@ == unseen(without_blacklisted(ps.posts@, s0.blacklist@), counts@),
        s2.posts@.len() > 0 <==> (a2 == (Action::Review { index: 0 })),
{
}

/// After a skipped or finished post, the session goes on with the next
/// post of the same page; only after the last post of the page does it go
/// on to the next page.
pub proof fn law_next_post_after_skip_or_flush(pre: Session, post: Session, a: Action)
    requires
        pre.wf(),
        pre.phase is Skipping || pre.phase is Flushing,
        transition(pre, Event::Done, post, a),
    ensures
        ({
            let i = if pre.phase is Skipping {
                pre.phase->Skipping_index
            } else {
                pre.phase->Flushing_index
            };
            &&& i + 1 < pre.posts@.len() ==> post.phase == (Phase::Reviewing { index: (i + 1) as usize })
                && a == (Action::Review { index: (i + 1) as usize }) && post.posts@ == pre.posts@
            &&& i + 1 == pre.posts@.len() ==> post.phase == Phase::LoadingBlacklist && a
                == Action::LoadBlacklist
        }),
        post.page == pre.page,
{
}

/// A vote is published on the post that the user was asked about, on the
/// first try and on every retry, and it is the vote that the user chose:
/// up for `true`, down for `false`.
pub proof fn law_vote_published_on_shown_post(pre: Session, e: Event, post: Session, a: Action)
    requires
        transition(pre, e, post, a),
    ensures
        pre.phase is Choosing && a is Publish ==> a->Publish_index == pre.phase->Choosing_index,
        pre.phase is Publishing && a is Publish ==> a->Publish_index
            == pre.phase->Publishing_index && a->Publish_vote == pre.phase->Publishing_vote,
        pre.phase is Choosing && e == Event::Chosen(true) ==> (a is Publish && a->Publish_vote
            == ImageVote::Up),
        pre.phase is Choosing && e == Event::Chosen(false) ==> (a is Publish && a->Publish_vote
            == ImageVote::Down),
        a is Publish ==> post.phase == (Phase::Publishing {
            index: a->Publish_index,
            vote: a->Publish_vote,
            attempt: a->Publish_attempt,
        }),
        pre.phase is Publishing && a is RecordPublished ==> a->RecordPublished_id
            == pre.posts@[pre.phase->Publishing_index as int].id,
{
}

} // verus!
