//! Shared runtime parameters and the link lifecycle of the bridge roles.

use portable_atomic::AtomicBool;
use vstd::prelude::*;

verus! {

/// Shared runtime knobs and state references used by bridge implementations.
#[derive(Clone, Copy)]
pub struct BridgeRuntime<'a> {
    /// Shared link-state flag consumed by commands and status indication.
    pub link_active: &'a AtomicBool,
    /// Delay before the client role attempts its first outbound TCP connection.
    pub startup_delay_ms: u64,
    /// Delay between failed or closed client reconnect attempts.
    pub reconnect_delay_ms: u64,
    /// Timeout applied to outbound TCP connection establishment.
    pub connect_timeout_ms: u64,
    /// Timeout applied to the bridge handshake exchange after TCP connects.
    pub handshake_timeout_ms: u64,
    /// Maximum idle time on an established TCP session before the link is dropped.
    pub session_timeout_ms: u64,
    /// Fixed magic exchanged by both peers to confirm protocol compatibility.
    pub handshake_magic: &'a [u8],
}

/// What a role does when its socket cannot be opened.
#[derive(Clone, Copy, Debug, PartialEq, Eq, Structural)]
pub enum OpenFailure {
    /// Waits for the reconnect delay before it tries again.
    Backoff,
    /// Tries again at once.
    Again,
    /// Gives up.
    Stop,
}

/// How a bridge role runs its link.
#[derive(Clone, Copy, Debug, PartialEq, Eq, Structural)]
pub struct LinkPolicy {
    /// Whether the role connects outbound rather than listening.
    pub client: bool,
    /// What happens when the socket cannot be opened.
    pub on_open_failure: OpenFailure,
}

/// Where a bridge role stands.
#[derive(Clone, Copy, Debug, PartialEq, Eq, Structural)]
pub enum LinkState {
    /// A client waits before its first connection.
    Starting,
    /// The socket is being connected or accepted.
    Opening,
    /// The peers exchange the handshake.
    Handshaking,
    /// The session runs.
    InSession,
    /// The role waits before the next attempt.
    Backoff,
    /// The role has ended with an error.
    Stopped,
}

/// What came of the work that belongs to a state.
#[derive(Clone, Copy, Debug, PartialEq, Eq, Structural)]
pub enum LinkEvent {
    /// The wait, the opening or the handshake succeeded, or the session ended.
    Done,
    /// The opening or the handshake failed.
    Failed,
    /// Upstream traffic was served before the socket was open.
    Served,
    /// The upstream transport failed before the socket was open.
    UpstreamLost,
}

/// The state that a role starts in.
pub open spec fn initial_state(policy: LinkPolicy) -> LinkState {
    if policy.client {
        LinkState::Starting
    } else {
        LinkState::Opening
    }
}

/// The state after a lost link: a client backs off, a server listens again.
pub open spec fn after_close(policy: LinkPolicy) -> LinkState {
    if policy.client {
        LinkState::Backoff
    } else {
        LinkState::Opening
    }
}

/// The state that follows.
pub open spec fn next_state(policy: LinkPolicy, state: LinkState, event: LinkEvent) -> LinkState {
    match state {
        LinkState::Starting => LinkState::Opening,
        LinkState::Opening => match event {
            LinkEvent::Done => LinkState::Handshaking,
            LinkEvent::Served => LinkState::Opening,
            LinkEvent::UpstreamLost => LinkState::Stopped,
            LinkEvent::Failed => match policy.on_open_failure {
                OpenFailure::Backoff => LinkState::Backoff,
                OpenFailure::Again => LinkState::Opening,
                OpenFailure::Stop => LinkState::Stopped,
            },
        },
        LinkState::Handshaking => if event == LinkEvent::Done {
            LinkState::InSession
        } else {
            after_close(policy)
        },
        LinkState::InSession => after_close(policy),
        LinkState::Backoff => LinkState::Opening,
        LinkState::Stopped => LinkState::Stopped,
    }
}

/// Whether the shared link-state flag is up in a state: during a session only.
pub open spec fn is_up(state: LinkState) -> bool {
    state == LinkState::InSession
}

/// Whether the socket is aborted and flushed on the way to the state that follows.
pub open spec fn is_closing(state: LinkState, event: LinkEvent) -> bool {
    state == LinkState::InSession || (state == LinkState::Handshaking && event != LinkEvent::Done)
}

/// How long a role waits in a state.
pub open spec fn wait_in(state: LinkState, startup_delay_ms: u64, reconnect_delay_ms: u64) -> u64 {
    match state {
        LinkState::Starting => startup_delay_ms,
        LinkState::Backoff => reconnect_delay_ms,
        _ => 0,
    }
}

impl LinkState {
    /// The state that a role starts in.
    pub fn initial(policy: LinkPolicy) -> (state: LinkState)
        ensures
            state == initial_state(policy),
    {
        if policy.client {
            LinkState::Starting
        } else {
            LinkState::Opening
        }
    }

    /// The state that follows.
    pub fn next(self, policy: LinkPolicy, event: LinkEvent) -> (state: LinkState)
        ensures
            state == next_state(policy, self, event),
    {
        let closed = if policy.client {
            LinkState::Backoff
        } else {
            LinkState::Opening
        };
        match self {
            LinkState::Starting => LinkState::Opening,
            LinkState::Opening => match event {
                LinkEvent::Done => LinkState::Handshaking,
                LinkEvent::Served => LinkState::Opening,
                LinkEvent::UpstreamLost => LinkState::Stopped,
                LinkEvent::Failed => match policy.on_open_failure {
                    OpenFailure::Backoff => LinkState::Backoff,
                    OpenFailure::Again => LinkState::Opening,
                    OpenFailure::Stop => LinkState::Stopped,
                },
            },
            LinkState::Handshaking => match event {
                LinkEvent::Done => LinkState::InSession,
                _ => closed,
            },
            LinkState::InSession => closed,
            LinkState::Backoff => LinkState::Opening,
            LinkState::Stopped => LinkState::Stopped,
        }
    }

    /// The value of the shared link-state flag: up during a session only.
    pub fn link_is_up(self) -> (up: bool)
        ensures
            up == is_up(self),
    {
        match self {
            LinkState::InSession => true,
            _ => false,
        }
    }

    /// Whether the socket is aborted and flushed on the way to the state that follows.
    pub fn closes_socket(self, event: LinkEvent) -> (close: bool)
        ensures
            close == is_closing(self, event),
    {
        match self {
            LinkState::InSession => true,
            LinkState::Handshaking => match event {
                LinkEvent::Done => false,
                _ => true,
            },
            _ => false,
        }
    }

    /// How long a role waits in a state.
    pub fn delay_ms(self, startup_delay_ms: u64, reconnect_delay_ms: u64) -> (ms: u64)
        ensures
            ms == wait_in(self, startup_delay_ms, reconnect_delay_ms),
    {
        match self {
            LinkState::Starting => startup_delay_ms,
            LinkState::Backoff => reconnect_delay_ms,
            _ => 0,
        }
    }
}

/// A session is reached only through a successful handshake on an open socket.
pub proof fn session_needs_a_handshake(policy: LinkPolicy, state: LinkState, event: LinkEvent)
    ensures
        next_state(policy, state, event) == LinkState::InSession <==> state
            == LinkState::Handshaking && event == LinkEvent::Done,
        next_state(policy, state, event) == LinkState::Handshaking <==> state == LinkState::Opening
            && event == LinkEvent::Done,
{
}

/// A role that does not stop on an open failure and keeps its upstream never ends.
pub proof fn a_retrying_role_never_stops(policy: LinkPolicy, state: LinkState, event: LinkEvent)
    requires
        policy.on_open_failure != OpenFailure::Stop,
        state != LinkState::Stopped,
        event != LinkEvent::UpstreamLost,
    ensures
        next_state(policy, state, event) != LinkState::Stopped,
{
}

/// A lost link is opened again: a client waits once before it does, a server does so at once. A
/// refused handshake counts as a lost link.
pub proof fn lost_links_are_opened_again(policy: LinkPolicy, event: LinkEvent, refused: LinkEvent)
    requires
        refused != LinkEvent::Done,
    ensures
        policy.client ==> next_state(policy, LinkState::InSession, event) == LinkState::Backoff
            && next_state(policy, LinkState::Handshaking, refused) == LinkState::Backoff,
        !policy.client ==> next_state(policy, LinkState::InSession, event) == LinkState::Opening
            && next_state(policy, LinkState::Handshaking, refused) == LinkState::Opening,
        next_state(policy, LinkState::Backoff, event) == LinkState::Opening,
{
}

/// A socket that cannot be opened is treated as the policy says, traffic served in the meantime
/// changes nothing, and a lost upstream ends the role.
pub proof fn failed_openings_follow_the_policy(policy: LinkPolicy)
    ensures
        policy.on_open_failure == OpenFailure::Backoff ==> next_state(
            policy,
            LinkState::Opening,
            LinkEvent::Failed,
        ) == LinkState::Backoff,
        policy.on_open_failure == OpenFailure::Again ==> next_state(
            policy,
            LinkState::Opening,
            LinkEvent::Failed,
        ) == LinkState::Opening,
        policy.on_open_failure == OpenFailure::Stop ==> next_state(
            policy,
            LinkState::Opening,
            LinkEvent::Failed,
        ) == LinkState::Stopped,
        next_state(policy, LinkState::Opening, LinkEvent::Served) == LinkState::Opening,
        next_state(policy, LinkState::Opening, LinkEvent::UpstreamLost) == LinkState::Stopped,
{
}

/// A role waits only before its first connection, and only as a client. Once it has stopped it stays
/// so, and it stops only while its socket is being opened.
pub proof fn roles_start_and_stop_once(policy: LinkPolicy, state: LinkState, event: LinkEvent)
    ensures
        initial_state(policy) == LinkState::Starting <==> policy.client,
        initial_state(policy) == LinkState::Opening <==> !policy.client,
        next_state(policy, LinkState::Starting, event) == LinkState::Opening,
        next_state(policy, state, event) != LinkState::Starting,
        next_state(policy, LinkState::Stopped, event) == LinkState::Stopped,
        next_state(policy, state, event) == LinkState::Stopped ==> state == LinkState::Stopped
            || state == LinkState::Opening,
{
}

/// The link counts as up exactly between a successful handshake and the end of the session.
pub proof fn link_is_up_during_sessions(policy: LinkPolicy, state: LinkState, event: LinkEvent)
    ensures
        is_up(next_state(policy, state, event)) <==> state == LinkState::Handshaking && event
            == LinkEvent::Done,
        is_up(state) ==> !is_up(next_state(policy, state, event)),
        !is_up(initial_state(policy)),
{
}

/// A socket that is open is closed exactly when its session ends or its handshake fails.
pub proof fn open_sockets_are_closed_once(policy: LinkPolicy, state: LinkState, event: LinkEvent)
    ensures
        is_closing(state, event) <==> (state == LinkState::Handshaking || state
            == LinkState::InSession) && next_state(policy, state, event) == after_close(policy),
        is_closing(state, event) ==> !is_up(next_state(policy, state, event)),
{
}

/// A client waits for the startup delay once and for the reconnect delay after each lost link; a
/// server that listens again at once never waits.
pub proof fn delays_belong_to_their_states(policy: LinkPolicy, startup: u64, reconnect: u64)
    ensures
        policy.client ==> wait_in(initial_state(policy), startup, reconnect) == startup,
        !policy.client ==> wait_in(initial_state(policy), startup, reconnect) == 0,
        policy.client ==> wait_in(after_close(policy), startup, reconnect) == reconnect,
        !policy.client ==> wait_in(after_close(policy), startup, reconnect) == 0,
        wait_in(LinkState::Opening, startup, reconnect) == 0,
        wait_in(LinkState::Handshaking, startup, reconnect) == 0,
        wait_in(LinkState::InSession, startup, reconnect) == 0,
{
}

} // verus!
