//! The subscriptions page: which followed channels the group editor lists
//! for a query, and whose faces a group's row shows.
use vstd::prelude::*;
use crate::channel::Channel;
use crate::explore::{channels_matching, matching_channels};
use crate::library::channel_position;

verus! {

/// How many followed channels the page lays out before the reader asks for
/// more.
pub const CHANNEL_PAGE_SIZE: usize = 48;

/// How many faces a group's row shows.
pub const GROUP_FACES: usize = 5;

/// The channels the group editor lists for the lowercased query `needle`:
/// every followed channel with no query, else those whose name or handle
/// holds it.
pub open spec fn editor_channels_of(subscribed: Seq<Channel>, needle: Seq<char>) -> Seq<Channel> {
    if needle.len() == 0 {
        subscribed
    } else {
        matching_channels(subscribed, needle)
    }
}

/// The channels the group editor lists for the lowercased query `needle`.
pub fn channels_for_editor(subscribed: &Vec<Channel>, needle: &str) -> (r: Vec<Channel>)
    ensures
        r@ == editor_channels_of(subscribed@, needle@),
{
    let n = crate::text::chars_of(needle);
    if n.len() == 0 {
        let mut out: Vec<Channel> = Vec::new();
        let mut i: usize = 0;
        while i < subscribed.len()
            invariant
                i <= subscribed.len(),
                out@ == subscribed@.take(i as int),
            decreases subscribed.len() - i,
        {
            out.push(subscribed[i].clone());
            i = i + 1;
        }
        assert(subscribed@.take(subscribed.len() as int) =~= subscribed@);
        out
    } else {
        channels_matching(subscribed, needle)
    }
}

/// The followed channels among the first `upto` of a group's ids, in the
/// group's order: each id's first followed channel, ids nobody follows
/// passed over.
pub open spec fn members_of(ids: Seq<String>, subscribed: Seq<Channel>, upto: int) -> Seq<Channel>
    decreases upto,
{
    if upto <= 0 || upto > ids.len() {
        Seq::empty()
    } else {
        let before = members_of(ids, subscribed, upto - 1);
        match channel_position(subscribed, ids[upto - 1]@, 0) {
            Some(k) => before.push(subscribed[k]),
            None => before,
        }
    }
}

/// The faces a group's row shows: its first `GROUP_FACES` followed
/// members. Faces make a group's contents readable at a glance.
pub fn group_faces(channel_ids: &Vec<String>, subscribed: &Vec<Channel>) -> (r: Vec<Channel>)
    ensures
        r@ == ({
            let all = members_of(channel_ids@, subscribed@, channel_ids@.len() as int);
            if all.len() > GROUP_FACES {
                all.take(GROUP_FACES as int)
            } else {
                all
            }
        }),
{
    let n = subscribed.len();
    let mut out: Vec<Channel> = Vec::new();
    let mut i: usize = 0;
    while i < channel_ids.len() && out.len() < GROUP_FACES
        invariant
            n == subscribed@.len(),
            i <= channel_ids.len(),
            out@.len() <= GROUP_FACES,
            out@ == members_of(channel_ids@, subscribed@, i as int),
        decreases channel_ids.len() - i,
    {
        let found = channel_index(subscribed, &channel_ids[i]);
        match found {
            Some(k) => {
                assert(channel_position(subscribed@, channel_ids@[i as int]@, 0) == Some(k as int));
                out.push(subscribed[k].clone());
            },
            None => {},
        }
        i = i + 1;
    }
    proof {
        lemma_members_prefix(channel_ids@, subscribed@, i as int, channel_ids@.len() as int);
        let all = members_of(channel_ids@, subscribed@, channel_ids@.len() as int);
        if i < channel_ids@.len() {
            assert(all.take(GROUP_FACES as int) =~= out@);
        }
    }
    out
}

/// Where the first channel with id `id` stands in `channels`.
fn channel_index(channels: &Vec<Channel>, id: &String) -> (r: Option<usize>)
    ensures
        match channel_position(channels@, id@, 0) {
            Some(k) => r == Some(k as usize) && 0 <= k < channels@.len(),
            None => r is None,
        },
{
    let mut k: usize = 0;
    while k < channels.len()
        invariant
            k <= channels.len(),
            channel_position(channels@, id@, 0) == channel_position(channels@, id@, k as int),
        decreases channels.len() - k,
    {
        if channels[k].id == *id {
            return Some(k);
        }
        k = k + 1;
    }
    None
}

/// The members among a longer prefix of ids begin with those among a
/// shorter one.
proof fn lemma_members_prefix(ids: Seq<String>, subscribed: Seq<Channel>, i: int, j: int)
    requires
        0 <= i <= j <= ids.len(),
    ensures
        members_of(ids, subscribed, i).len() <= members_of(ids, subscribed, j).len(),
        members_of(ids, subscribed, j).take(members_of(ids, subscribed, i).len() as int)
            == members_of(ids, subscribed, i),
    decreases j - i,
{
    let a = members_of(ids, subscribed, i);
    if i < j {
        lemma_members_prefix(ids, subscribed, i, j - 1);
        let b = members_of(ids, subscribed, j - 1);
        let c = members_of(ids, subscribed, j);
        assert(c.take(a.len() as int) =~= b.take(a.len() as int));
    } else {
        assert(a.take(a.len() as int) =~= a);
    }
}

} // verus!
