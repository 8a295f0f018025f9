//! Vote counts as shown while the reader's own vote changes.
use vstd::prelude::*;

verus! {

/// The value of a vote: 1, -1, or 0 for none.
pub open spec fn vote_value(vote: Option<i16>) -> int {
    match vote {
        Some(v) => v as int,
        None => 0,
    }
}

/// The counts of a post or comment as shown.
#[derive(Debug, Clone, Copy, PartialEq, Eq)]
pub struct VoteCounts {
    pub upvotes: i128,
    pub downvotes: i128,
    pub score: i128,
}

/// The counts to show once the reader's vote is `vote`, given the counts the
/// server sent while the reader's vote was `sent_vote`: the sent vote is
/// taken out and the current one put in.
pub fn vote_counts(
    sent_vote: Option<i16>,
    vote: Option<i16>,
    upvotes: i64,
    downvotes: i64,
    score: i64,
) -> (r: VoteCounts)
    ensures
        r.score == score - vote_value(sent_vote) + vote_value(vote),
        r.upvotes == upvotes - (if vote_value(sent_vote) == 1 { 1int } else { 0 }) + (if vote_value(
            vote,
        ) == 1 {
            1int
        } else {
            0
        }),
        r.downvotes == downvotes - (if vote_value(sent_vote) == -1 { 1int } else { 0 }) + (
        if vote_value(vote) == -1 {
            1int
        } else {
            0
        }),
{
    let sent: i128 = match sent_vote {
        Some(v) => v as i128,
        None => 0,
    };
    let now: i128 = match vote {
        Some(v) => v as i128,
        None => 0,
    };
    let up_sent: i128 = if sent == 1 { 1 } else { 0 };
    let up_now: i128 = if now == 1 { 1 } else { 0 };
    let down_sent: i128 = if sent == -1 { 1 } else { 0 };
    let down_now: i128 = if now == -1 { 1 } else { 0 };
    VoteCounts {
        upvotes: upvotes as i128 - up_sent + up_now,
        downvotes: downvotes as i128 - down_sent + down_now,
        score: score as i128 - sent + now,
    }
}

/// The reader's vote after pressing the button for `direction` (1 up, -1
/// down): pressing it again takes the vote back.
pub fn toggle_vote(current: Option<i16>, direction: i16) -> (r: Option<i16>)
    ensures
        r == (if vote_value(current) == direction as int {
            None::<i16>
        } else {
            Some(direction)
        }),
{
    let value: i16 = match current {
        Some(v) => v,
        None => 0,
    };
    if value == direction {
        None
    } else {
        Some(direction)
    }
}

} // verus!
