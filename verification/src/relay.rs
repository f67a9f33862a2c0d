use vstd::prelude::*;

use crate::store::bytes_eq;
use crate::subscriber::Message;
use crate::user_models::Signer;
use crate::worker::{Task, TaskV};

verus! {

/// A batch of raw message envelopes posted for relay to the hub.
#[derive(Debug, PartialEq, Eq)]
pub struct Messages {
    pub updates: Vec<Vec<u8>>,
}

/// Whether one decoded envelope may be relayed: it may go to the hub only if
/// it carries the authenticated signer's key and that signer is still
/// active.  Messages for other people are denied.
pub fn may_relay(parsed: &Message, signer: &Signer) -> (r: bool)
    ensures
        r == (parsed.signer@ == signer.pk@ && signer.active),
{
    bytes_eq(&parsed.signer, &signer.pk) && signer.active
}

/// The cache warm-up a profile-serving handler enqueues for the fid it
/// just served: a debounced profile refresh, a link refresh, and the
/// reserved cast refresh.
pub fn warmup_tasks(fid: u64) -> (r: Vec<Task>)
    ensures
        r@.len() == 3,
        r@[0]@ == TaskV::IndexFid(fid, false),
        r@[1]@ == TaskV::IndexLinks(fid),
        r@[2]@ == TaskV::IndexFidCasts(fid, false),
{
    let mut v: Vec<Task> = Vec::new();
    v.push(Task::IndexFid(fid, false));
    v.push(Task::IndexLinks(fid));
    v.push(Task::IndexFidCasts(fid, false));
    v
}

} // verus!
