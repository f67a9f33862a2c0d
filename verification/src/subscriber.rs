use vstd::prelude::*;

use crate::user_models::{Signer, SignerV};
use crate::worker::{Task, TaskV};

verus! {

// ---------------------------------------------------------------------------
// The slice of the hub's event stream that the gateway reads, modelled as
// plain data.  The host decodes the wire shapes into these values; all
// decisions on them are made here.
// ---------------------------------------------------------------------------

/// What happened to a signer key on chain.
#[derive(Debug, Clone, Copy, PartialEq, Eq, Structural)]
pub enum SignerEventKind {
    Unspecified,
    Add,
    Remove,
    AdminReset,
}

/// Body of an on-chain signer event: the key and its transition.
#[derive(Debug, Clone, PartialEq, Eq)]
pub struct SignerEventBody {
    pub key: Vec<u8>,
    pub event_type: SignerEventKind,
}

/// Kind tag of an on-chain event.
#[derive(Debug, Clone, Copy, PartialEq, Eq, Structural)]
pub enum OnChainEventKind {
    Unspecified,
    SignerEvent,
    SignerMigrated,
    IdRegister,
    StorageRent,
}

/// Payload of an on-chain event; only signer events carry data the
/// gateway reads.
#[derive(Debug, Clone, PartialEq, Eq)]
pub enum OnChainEventPayload {
    SignerEventBody(SignerEventBody),
    SignerMigratedEventBody,
    IdRegisterEventBody,
    StorageRentEventBody,
}

/// One on-chain event from the hub stream.
#[derive(Debug, Clone, PartialEq, Eq)]
pub struct OnChainEvent {
    pub kind: OnChainEventKind,
    pub fid: u64,
    pub body: Option<OnChainEventPayload>,
}

/// Body kind of a hub message; the gateway only discriminates, it reads
/// no body payload here.
#[derive(Debug, Clone, Copy, PartialEq, Eq, Structural)]
pub enum MessageBody {
    CastAddBody,
    CastRemoveBody,
    ReactionBody,
    VerificationAddAddressBody,
    VerificationRemoveBody,
    UserDataBody,
    LinkBody,
    UsernameProofBody,
    FrameActionBody,
    LinkCompactStateBody,
}

/// The inner data of a hub message envelope.
#[derive(Debug, Clone, Copy, PartialEq, Eq, Structural)]
pub struct MessageData {
    pub fid: u64,
    /// Seconds since the hub's epoch.
    pub timestamp: u32,
    pub body: Option<MessageBody>,
}

/// The fields of a hub message envelope that the gateway reads: the inner
/// data and the key that signed it.
#[derive(Debug, Clone, PartialEq, Eq)]
pub struct Message {
    pub data: Option<MessageData>,
    pub signer: Vec<u8>,
}

/// Kind tag of a hub stream event.
#[derive(Debug, Clone, Copy, PartialEq, Eq, Structural)]
pub enum HubEventKind {
    Unspecified,
    MergeMessage,
    PruneMessage,
    RevokeMessage,
    MergeUsernameProof,
    MergeOnChainEvent,
}

/// Payload of a hub stream event.
#[derive(Debug, Clone, PartialEq, Eq)]
pub enum HubEventPayload {
    MergeMessageBody(Option<Message>),
    PruneMessageBody,
    RevokeMessageBody,
    MergeUsernameProofBody,
    MergeOnChainEventBody(Option<OnChainEvent>),
}

/// One event of the hub's subscription stream.
#[derive(Debug, Clone, PartialEq, Eq)]
pub struct HubEvent {
    pub kind: HubEventKind,
    pub body: Option<HubEventPayload>,
}

// ---------------------------------------------------------------------------
// Translation of stream events into index work.
// ---------------------------------------------------------------------------

/// Whether an on-chain event is a signer event with a body to read.
pub open spec fn spec_is_signer_event(e: OnChainEvent) -> bool {
    &&& e.kind == OnChainEventKind::SignerEvent
    &&& e.body matches Some(OnChainEventPayload::SignerEventBody(_))
}

/// The signer row an on-chain signer event materializes as: the key is
/// active exactly when the event adds it.
pub open spec fn spec_signer_of_event(e: OnChainEvent) -> SignerV
    recommends
        spec_is_signer_event(e),
{
    match e.body {
        Some(OnChainEventPayload::SignerEventBody(b)) => SignerV {
            pk: b.key@,
            fid: e.fid,
            active: b.event_type == SignerEventKind::Add,
        },
        _ => SignerV { pk: Seq::empty(), fid: e.fid, active: false },
    }
}

/// Build the signer row of an on-chain signer event; any other event
/// yields nothing.
pub fn signer_from_event(event: &OnChainEvent) -> (r: Option<Signer>)
    ensures
        r is Some <==> spec_is_signer_event(*event),
        (r matches Some(s) ==> s@ == spec_signer_of_event(*event)),
{
    if match event.kind {
        OnChainEventKind::SignerEvent => true,
        _ => false,
    } {
        match &event.body {
            Some(OnChainEventPayload::SignerEventBody(signer_body)) => Some(
                Signer {
                    pk: crate::user_models::clone_bytes(&signer_body.key),
                    fid: event.fid,
                    active: match signer_body.event_type {
                        SignerEventKind::Add => true,
                        _ => false,
                    },
                },
            ),
            _ => None,
        }
    } else {
        None
    }
}

/// The task a merged hub message queues: a message whose body is user
/// data forces a profile refresh for its author; everything else queues
/// nothing.
pub open spec fn spec_merge_message_task(m: Message) -> Option<TaskV> {
    match m.data {
        Some(d) => if d.body == Some(MessageBody::UserDataBody) {
            Some(TaskV::IndexFid(d.fid, true))
        } else {
            None
        },
        None => None,
    }
}

/// Decide the index work for one merged message.
pub fn handle_merge_message(message: &Message) -> (r: Option<Task>)
    ensures
        r is Some <==> spec_merge_message_task(*message) is Some,
        (r matches Some(t) ==> Some(t@) == spec_merge_message_task(*message)),
{
    match &message.data {
        Some(d) => {
            match d.body {
                Some(MessageBody::UserDataBody) => Some(Task::IndexFid(d.fid, true)),
                _ => None,
            }
        },
        None => None,
    }
}

/// The task one stream event translates to: a merged user-data message
/// forces a profile refresh, a merged on-chain signer event stores the
/// signer, and every other event is ignored.
pub open spec fn spec_event_task(e: HubEvent) -> Option<TaskV> {
    match e.kind {
        HubEventKind::MergeMessage => match e.body {
            Some(HubEventPayload::MergeMessageBody(Some(m))) => spec_merge_message_task(m),
            _ => None,
        },
        HubEventKind::MergeOnChainEvent => match e.body {
            Some(HubEventPayload::MergeOnChainEventBody(Some(ev))) => if spec_is_signer_event(ev) {
                Some(TaskV::UpdateSigner(spec_signer_of_event(ev)))
            } else {
                None
            },
            _ => None,
        },
        _ => None,
    }
}

/// Translate one stream event into index work, as the subscription loop
/// does for each event it drains.
pub fn handle_event(event: &HubEvent) -> (r: Option<Task>)
    ensures
        r is Some <==> spec_event_task(*event) is Some,
        (r matches Some(t) ==> Some(t@) == spec_event_task(*event)),
{
    match event.kind {
        HubEventKind::MergeMessage => {
            match &event.body {
                Some(HubEventPayload::MergeMessageBody(Some(m))) => handle_merge_message(m),
                _ => None,
            }
        },
        HubEventKind::MergeOnChainEvent => {
            match &event.body {
                Some(HubEventPayload::MergeOnChainEventBody(Some(ev))) => {
                    match signer_from_event(ev) {
                        Some(signer) => Some(Task::UpdateSigner(signer)),
                        None => None,
                    }
                },
                _ => None,
            }
        },
        _ => None,
    }
}

} // verus!
