//! Votes on a post and the tally of votes cast so far.

use vstd::prelude::*;
use crate::text::{push_signed_decimal, push_str, signed_decimal};

verus! {

/// A vote on a post: `Up` also adds it to the favourites, `Down` removes it.
#[derive(PartialEq, Eq, Structural, Clone, Copy, Debug)]
pub enum ImageVote {
    Up,
    Down,
}

/// The vote that an answer to "upvote or downvote?" gives: `true` is up.
pub open spec fn vote_of(upvote: bool) -> ImageVote {
    if upvote {
        ImageVote::Up
    } else {
        ImageVote::Down
    }
}

impl From<bool> for ImageVote {
    fn from(value: bool) -> (v: Self) {
        if value {
            ImageVote::Up
        } else {
            ImageVote::Down
        }
    }
}

impl vstd::std_specs::convert::FromSpecImpl<bool> for ImageVote {
    open spec fn obeys_from_spec() -> bool {
        true
    }

    open spec fn from_spec(v: bool) -> ImageVote {
        vote_of(v)
    }
}

impl ImageVote {
    /// The opposite vote.
    pub open spec fn spec_reverse(self) -> ImageVote {
        match self {
            ImageVote::Up => ImageVote::Down,
            ImageVote::Down => ImageVote::Up,
        }
    }

    /// The score that the vote gives a post: 1 or -1.
    pub open spec fn score(self) -> int {
        match self {
            ImageVote::Up => 1,
            ImageVote::Down => -1,
        }
    }

    /// The text stored for the vote in a boolean column of the database.
    pub open spec fn flag_text(self) -> Seq<char> {
        match self {
            ImageVote::Up => "TRUE"@,
            ImageVote::Down => "FALSE"@,
        }
    }

    /// The opposite vote.
    pub fn reverse(&self) -> (r: Self)
        ensures
            r == self.spec_reverse(),
    {
        match self {
            ImageVote::Up => ImageVote::Down,
            ImageVote::Down => ImageVote::Up,
        }
    }

    /// The score of the vote as an integer: 1 for up, -1 for down.
    pub fn as_i32(&self) -> (n: i32)
        ensures
            n == self.score(),
    {
        match self {
            ImageVote::Up => 1,
            ImageVote::Down => -1,
        }
    }

    /// The text stored for the vote in the database: "TRUE" for up,
    /// "FALSE" for down.
    pub fn flag(&self) -> (s: String)
        ensures
            s@ == self.flag_text(),
    {
        match self {
            ImageVote::Up => String::from_str("TRUE"),
            ImageVote::Down => String::from_str("FALSE"),
        }
    }

    /// The score written in decimal ("1" or "-1"), as it goes into the
    /// voting request.
    pub fn to_string(&self) -> (s: String)
        ensures
            s@ == signed_decimal(self.score()),
    {
        let mut s = String::new();
        push_signed_decimal(&mut s, self.as_i32() as i64);
        s
    }
}

/// Reversing a vote twice gives the vote back, and never gives the same
/// vote: the two votes are each other's opposite.
pub proof fn law_reverse_involution(v: ImageVote)
    ensures
        v.spec_reverse().spec_reverse() == v,
        v.spec_reverse() != v,
{
}

/// The opposite vote has the opposite score and the other database flag.
pub proof fn law_reverse_negates(v: ImageVote)
    ensures
        v.spec_reverse().score() == -v.score(),
        v.spec_reverse().flag_text() != v.flag_text(),
{
    reveal_strlit("TRUE");
    reveal_strlit("FALSE");
    assert("TRUE"@.len() != "FALSE"@.len());
}

/// The vote of the opposite answer is the opposite vote.
pub proof fn law_reverse_of_answer(upvote: bool)
    ensures
        vote_of(!upvote) == vote_of(upvote).spec_reverse(),
        vote_of(upvote).score() == (if upvote { 1int } else { -1int }),
{
}

/// The number of posts voted up and down so far.
pub struct Score {
    pub upvotes: i64,
    pub downvotes: i64,
}

impl Score {
    /// The line that shows the tally: "<up> up, <down> down, <total> total".
    pub fn breakdown(&self) -> (s: String)
        requires
            i64::MIN <= self.upvotes + self.downvotes <= i64::MAX,
        ensures
            s@ == signed_decimal(self.upvotes as int) + " up, "@ + signed_decimal(
                self.downvotes as int,
            ) + " down, "@ + signed_decimal(self.upvotes + self.downvotes) + " total"@,
    {
        let mut s = String::new();
        push_signed_decimal(&mut s, self.upvotes);
        push_str(&mut s, " up, ");
        push_signed_decimal(&mut s, self.downvotes);
        push_str(&mut s, " down, ");
        push_signed_decimal(&mut s, self.upvotes + self.downvotes);
        push_str(&mut s, " total");
        s
    }
}

} // verus!
