//! The supervised uplink to the cloud mirror: a command-driven state
//! machine.  The library decides every transition; the surrounding
//! process performs the returned action (opening the link, aborting
//! the link task, or sleeping out the retry delay) and feeds the next
//! event back in.

use vstd::prelude::*;

verus! {

/// Seconds to wait between failed connect attempts.
pub const RETRY_DELAY_SECS: u64 = 5;

/// The uplink's state.  Exactly one live instance per hub process.
#[derive(Clone, Copy, PartialEq, Eq, Structural, Debug)]
pub enum CloudLinkState {
    Disconnected,
    Connecting,
    Connected,
}

/// An explicit command to the supervisor.
#[derive(Clone, Copy, PartialEq, Eq, Structural, Debug)]
pub enum CloudCommand {
    Connect,
    Disconnect,
}

/// What the supervisor reacts to: a command, or news from the link.
#[derive(Clone, Copy, PartialEq, Eq, Structural, Debug)]
pub enum CloudEvent {
    Command(CloudCommand),
    /// The outbound link was opened.
    LinkOpened,
    /// The link errored.
    LinkFailed,
    /// The remote side closed the link.
    RemoteClosed,
}

/// What the surrounding process must do after a transition.
#[derive(Clone, Copy, PartialEq, Eq, Structural, Debug)]
pub enum CloudAction {
    /// Nothing to do.
    Idle,
    /// Open the outbound link.
    OpenLink,
    /// Abort the link task at once, without draining it.
    AbortLink,
    /// Wait the fixed retry delay, then attempt the connect again.
    RetryAfterDelay,
}

/// The transition relation.
///
/// `Connect` is ignored unless the link is down; `Disconnect` always
/// lands in `Disconnected`, aborting any active link task; a link
/// failure or remote close while the link is wanted re-enters
/// `Connecting` after the fixed delay, indefinitely, and a stale
/// link event while `Disconnected` changes nothing.
pub open spec fn spec_cloud_step(s: CloudLinkState, e: CloudEvent) -> (
    CloudLinkState,
    CloudAction,
) {
    match e {
        CloudEvent::Command(CloudCommand::Connect) => match s {
            CloudLinkState::Disconnected => (CloudLinkState::Connecting, CloudAction::OpenLink),
            _ => (s, CloudAction::Idle),
        },
        CloudEvent::Command(CloudCommand::Disconnect) => match s {
            CloudLinkState::Disconnected => (CloudLinkState::Disconnected, CloudAction::Idle),
            _ => (CloudLinkState::Disconnected, CloudAction::AbortLink),
        },
        CloudEvent::LinkOpened => match s {
            CloudLinkState::Connecting => (CloudLinkState::Connected, CloudAction::Idle),
            _ => (s, CloudAction::Idle),
        },
        CloudEvent::LinkFailed | CloudEvent::RemoteClosed => match s {
            CloudLinkState::Disconnected => (CloudLinkState::Disconnected, CloudAction::Idle),
            _ => (CloudLinkState::Connecting, CloudAction::RetryAfterDelay),
        },
    }
}

/// Take one supervisor step.
pub fn cloud_step(s: CloudLinkState, e: CloudEvent) -> (r: (CloudLinkState, CloudAction))
    ensures
        r == spec_cloud_step(s, e),
{
    match e {
        CloudEvent::Command(CloudCommand::Connect) => match s {
            CloudLinkState::Disconnected => (CloudLinkState::Connecting, CloudAction::OpenLink),
            _ => (s, CloudAction::Idle),
        },
        CloudEvent::Command(CloudCommand::Disconnect) => match s {
            CloudLinkState::Disconnected => (CloudLinkState::Disconnected, CloudAction::Idle),
            _ => (CloudLinkState::Disconnected, CloudAction::AbortLink),
        },
        CloudEvent::LinkOpened => match s {
            CloudLinkState::Connecting => (CloudLinkState::Connected, CloudAction::Idle),
            _ => (s, CloudAction::Idle),
        },
        CloudEvent::LinkFailed | CloudEvent::RemoteClosed => match s {
            CloudLinkState::Disconnected => (CloudLinkState::Disconnected, CloudAction::Idle),
            _ => (CloudLinkState::Connecting, CloudAction::RetryAfterDelay),
        },
    }
}

/// A `Disconnect` command always lands in `Disconnected`, and no
/// event but an explicit `Connect` leaves that state again.
pub proof fn lemma_disconnect_is_final(s: CloudLinkState, e: CloudEvent)
    ensures
        spec_cloud_step(s, CloudEvent::Command(CloudCommand::Disconnect)).0
            == CloudLinkState::Disconnected,
        e != CloudEvent::Command(CloudCommand::Connect) ==> spec_cloud_step(
            CloudLinkState::Disconnected,
            e,
        ).0 == CloudLinkState::Disconnected,
{
}

/// A `Connect` command is ignored while the link is already being
/// opened or is open.
pub proof fn lemma_connect_idempotent(s: CloudLinkState)
    requires
        s != CloudLinkState::Disconnected,
    ensures
        spec_cloud_step(s, CloudEvent::Command(CloudCommand::Connect)) == (s, CloudAction::Idle),
{
}

} // verus!
