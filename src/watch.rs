//! Watch sessions: who stopped and who started watching a channel between two
//! samples of its chatter list.

use vstd::prelude::*;
use crate::number::parse_i32;
use crate::privmsg_tag::int32_of;

verus! {

/// A chatter present in a channel, as the chatters endpoint lists it.
pub struct Chatter {
    pub user_id: String,
    pub user_login: String,
    pub user_name: String,
}

/// The numeric ids of `chatters`, in order; `None` when some id is no 32-bit
/// integer.
pub fn chatter_ids(chatters: &Vec<Chatter>) -> (r: Option<Vec<i32>>)
    ensures
        match r {
            Some(ids) => ids@.len() == chatters@.len() && forall|i: int|
                0 <= i < ids@.len() ==> int32_of(chatters@[i].user_id@) == Some(#[trigger] ids@[i] as int),
            None => exists|i: int| 0 <= i < chatters@.len() && int32_of(#[trigger] chatters@[i].user_id@) is None,
        },
{
    let mut ids: Vec<i32> = Vec::new();
    let mut i: usize = 0;
    while i < chatters.len()
        invariant
            i <= chatters@.len(),
            ids@.len() == i,
            forall|j: int| 0 <= j < i ==> int32_of(chatters@[j].user_id@) == Some(#[trigger] ids@[j] as int),
        decreases chatters.len() - i,
    {
        match parse_i32(chatters[i].user_id.as_str()) {
            Some(id) => ids.push(id),
            None => return None,
        }
        i = i + 1;
    }
    Some(ids)
}

/// The ids of `from` that are not in `other`, in order.
pub open spec fn absent_from(from: Seq<i32>, other: Seq<i32>) -> Seq<i32> {
    from.filter(|x: i32| !other.contains(x))
}

/// Whether `x` is in `v`.
fn listed(v: &Vec<i32>, x: i32) -> (r: bool)
    ensures
        r == v@.contains(x),
{
    let mut i: usize = 0;
    while i < v.len()
        invariant
            i <= v@.len(),
            forall|j: int| 0 <= j < i ==> v@[j] != x,
        decreases v.len() - i,
    {
        if v[i] == x {
            return true;
        }
        i = i + 1;
    }
    false
}

/// The ids of `from` that are not in `other`, in order.
fn without(from: &Vec<i32>, other: &Vec<i32>) -> (r: Vec<i32>)
    ensures
        r@ == absent_from(from@, other@),
{
    let mut out: Vec<i32> = Vec::new();
    let mut i: usize = 0;
    while i < from.len()
        invariant
            i <= from@.len(),
            out@ == absent_from(from@.take(i as int), other@),
        decreases from.len() - i,
    {
        proof {
            reveal(Seq::filter);
            assert(from@.take(i + 1).drop_last() =~= from@.take(i as int));
        }
        if !listed(other, from[i]) {
            out.push(from[i]);
        }
        i = i + 1;
    }
    assert(from@.take(i as int) =~= from@);
    out
}

/// Compares the open watch sessions of a channel with the chatters present
/// now: the first list holds the viewers whose session ends, the second the
/// chatters whose session starts.
pub fn watch_changes(currently_watching: &Vec<i32>, present: &Vec<i32>) -> (r: (Vec<i32>, Vec<i32>))
    ensures
        r.0@ == absent_from(currently_watching@, present@),
        r.1@ == absent_from(present@, currently_watching@),
{
    (without(currently_watching, present), without(present, currently_watching))
}

} // verus!
