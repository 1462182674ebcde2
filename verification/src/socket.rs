//! The way to the container's Unix socket: the path is checked before anything
//! is written to it, and connecting is bounded in time.

use vstd::prelude::*;

verus! {

/// How long connecting to the socket may take, in seconds.
pub const CONNECT_TIMEOUT_SECS: u64 = 10;

/// Why the socket cannot be used.
#[derive(Clone, Copy, Debug, PartialEq, Eq, Structural)]
pub enum SocketError {
    /// The path exists and its file type could not be read.
    MetadataUnreadable,
    /// The path exists and is something else than a Unix socket.
    NotASocket,
    /// Connecting took too long.
    Timeout,
    /// Connecting failed.
    ConnectFailed,
}

/// What is to be done next on the way to the socket.
#[derive(Clone, Copy, Debug, PartialEq, Eq, Structural)]
pub enum ConnectState {
    /// Find out whether the path leads to something, and whether it is itself a
    /// symbolic link.
    Probing,
    /// Find out the file type of the path itself, without following links.
    Inspecting,
    /// Connect, for at most `CONNECT_TIMEOUT_SECS`.
    Connecting,
    /// The connection stands.
    Connected,
    /// The way ends here.
    Failed(SocketError),
}

/// What was found out.
#[derive(Clone, Copy, Debug, PartialEq, Eq, Structural)]
pub enum ConnectEvent {
    /// Whether the path, links followed, leads to something, and whether it is
    /// itself a symbolic link.
    Probed { found: bool, is_link: bool },
    /// Whether the path is a Unix socket.
    IsSocket(bool),
    /// The file type could not be read.
    NoMetadata,
    /// The connection was made.
    Established,
    /// The connection was refused or broke off.
    Refused,
    /// The time for connecting ran out.
    TimedOut,
}

/// Whether `event` answers what `state` asks for.
pub open spec fn answers(state: ConnectState, event: ConnectEvent) -> bool {
    match state {
        ConnectState::Probing => event is Probed,
        ConnectState::Inspecting => event is IsSocket || event is NoMetadata,
        ConnectState::Connecting => event is Established || event is Refused || event is TimedOut,
        ConnectState::Connected | ConnectState::Failed(_) => false,
    }
}

/// Where `event` leads from `state`. A path at which there is nothing is passed,
/// since the container will create it; what is there must be a socket, and a
/// link that leads nowhere is there. An event that does not answer the state
/// changes nothing.
pub open spec fn connect_next(state: ConnectState, event: ConnectEvent) -> ConnectState {
    if !answers(state, event) {
        state
    } else {
        match event {
            ConnectEvent::Probed { found, is_link } => if found || is_link {
                ConnectState::Inspecting
            } else {
                ConnectState::Connecting
            },
            ConnectEvent::IsSocket(is_socket) => if is_socket {
                ConnectState::Connecting
            } else {
                ConnectState::Failed(SocketError::NotASocket)
            },
            ConnectEvent::NoMetadata => ConnectState::Failed(SocketError::MetadataUnreadable),
            ConnectEvent::Established => ConnectState::Connected,
            ConnectEvent::Refused => ConnectState::Failed(SocketError::ConnectFailed),
            ConnectEvent::TimedOut => ConnectState::Failed(SocketError::Timeout),
        }
    }
}

impl ConnectState {
    /// The first thing to do.
    pub fn start() -> (r: ConnectState)
        ensures
            r == ConnectState::Probing,
    {
        ConnectState::Probing
    }

    /// What is to be done after `event`.
    pub fn advance(self, event: ConnectEvent) -> (r: ConnectState)
        ensures
            r == connect_next(self, event),
    {
        match (self, event) {
            (ConnectState::Probing, ConnectEvent::Probed { found, is_link }) => {
                if found || is_link {
                    ConnectState::Inspecting
                } else {
                    ConnectState::Connecting
                }
            },
            (ConnectState::Inspecting, ConnectEvent::IsSocket(true)) => ConnectState::Connecting,
            (ConnectState::Inspecting, ConnectEvent::IsSocket(false)) => {
                ConnectState::Failed(SocketError::NotASocket)
            },
            (ConnectState::Inspecting, ConnectEvent::NoMetadata) => {
                ConnectState::Failed(SocketError::MetadataUnreadable)
            },
            (ConnectState::Connecting, ConnectEvent::Established) => ConnectState::Connected,
            (ConnectState::Connecting, ConnectEvent::Refused) => {
                ConnectState::Failed(SocketError::ConnectFailed)
            },
            (ConnectState::Connecting, ConnectEvent::TimedOut) => {
                ConnectState::Failed(SocketError::Timeout)
            },
            (state, _) => state,
        }
    }
}

impl SocketError {
    /// What is told of the error, where `path` names the socket; nothing where
    /// the cause speaks for itself.
    pub open spec fn spec_message(self, path: Seq<char>) -> Option<Seq<char>> {
        match self {
            SocketError::MetadataUnreadable => None,
            SocketError::NotASocket => Some(
                "Security violation: "@ + path + " exists but is not a Unix socket"@,
            ),
            SocketError::Timeout => Some("Timeout connecting to container socket"@),
            SocketError::ConnectFailed => Some("Failed to connect to: "@ + path),
        }
    }

    /// What is told of the error, where `path` names the socket; nothing where
    /// the cause speaks for itself.
    pub fn message(self, path: &str) -> (r: Option<String>)
        ensures
            match self.spec_message(path@) {
                Some(message) => r matches Some(text) && text@ == message,
                None => r is None,
            },
            self is MetadataUnreadable <==> r is None,
            self is NotASocket ==> (r matches Some(text) && text@ == "Security violation: "@ + path@
                + " exists but is not a Unix socket"@),
            self is Timeout ==> (r matches Some(text) && text@
                == "Timeout connecting to container socket"@),
            self is ConnectFailed ==> (r matches Some(text) && text@ == "Failed to connect to: "@
                + path@),
    {
        match self {
            SocketError::MetadataUnreadable => None,
            SocketError::NotASocket => {
                let mut text = "Security violation: ".to_owned();
                text.append(path);
                text.append(" exists but is not a Unix socket");
                Some(text)
            },
            SocketError::Timeout => Some("Timeout connecting to container socket".to_owned()),
            SocketError::ConnectFailed => {
                let mut text = "Failed to connect to: ".to_owned();
                text.append(path);
                Some(text)
            },
        }
    }
}

/// What is told where the directory of the socket, which `dir` names, cannot be
/// made.
pub fn directory_failed_message(dir: &str) -> (r: String)
    ensures
        r@ == "Failed to create directory: "@ + dir@,
{
    let mut text = "Failed to create directory: ".to_owned();
    text.append(dir);
    text
}

/// Where a series of events leads from the start.
pub open spec fn connect_run(events: Seq<ConnectEvent>) -> ConnectState
    decreases events.len(),
{
    if events.len() == 0 {
        ConnectState::Probing
    } else {
        connect_next(connect_run(events.drop_last()), events.last())
    }
}

/// Whether every event of a series answers what was asked at its turn.
pub open spec fn all_answer(events: Seq<ConnectEvent>) -> bool
    decreases events.len(),
{
    events.len() > 0 ==> all_answer(events.drop_last()) && answers(
        connect_run(events.drop_last()),
        events.last(),
    )
}

/// Nothing is connected to before the path was found empty or was found to be a
/// socket, and no state is left but by an answer to what it asks.
pub proof fn every_step_to_the_socket(state: ConnectState, event: ConnectEvent)
    ensures
        connect_next(state, event) is Connecting <==> {
            ||| state is Probing && event == (ConnectEvent::Probed {
                found: false,
                is_link: false,
            })
            ||| state is Inspecting && event == ConnectEvent::IsSocket(true)
            ||| state is Connecting && !(event is Established) && !(event is Refused) && !(
            event is TimedOut)
        },
        connect_next(state, event) is Connected <==> state is Connected || (state is Connecting
            && event is Established),
        connect_next(state, event) is Inspecting <==> {
            ||| state is Probing && (event matches ConnectEvent::Probed { found, is_link } && (found
                || is_link))
            ||| state is Inspecting && !(event is IsSocket) && !(event is NoMetadata)
        },
        connect_next(state, event) is Probing <==> state is Probing && !(event is Probed),
        state is Inspecting && event == ConnectEvent::IsSocket(false) ==> connect_next(state, event)
            == ConnectState::Failed(SocketError::NotASocket),
        state is Inspecting && event is NoMetadata ==> connect_next(state, event)
            == ConnectState::Failed(SocketError::MetadataUnreadable),
        state is Connecting && event is Refused ==> connect_next(state, event)
            == ConnectState::Failed(SocketError::ConnectFailed),
        state is Connecting && event is TimedOut ==> connect_next(state, event)
            == ConnectState::Failed(SocketError::Timeout),
        state is Failed ==> connect_next(state, event) == state,
        CONNECT_TIMEOUT_SECS == 10,
{
}

/// A connection is attempted only to a path at which there is nothing yet, not
/// even a link, or which was just found to be a Unix socket.
pub proof fn connects_only_to_sockets(events: Seq<ConnectEvent>)
    requires
        all_answer(events),
        connect_run(events) == ConnectState::Connecting,
    ensures
        events == seq![ConnectEvent::Probed { found: false, is_link: false }] || {
            &&& events.len() == 2
            &&& events[0] matches ConnectEvent::Probed { found, is_link } && (found || is_link)
            &&& events[1] == ConnectEvent::IsSocket(true)
        },
{
    let earlier = events.drop_last();
    if events.last() is Probed {
        lemma_probing(earlier);
        assert(events == seq![ConnectEvent::Probed { found: false, is_link: false }]);
    } else {
        lemma_inspecting(earlier);
    }
}

/// What is at the path and is no socket, a link that leads nowhere included, is
/// refused, and no later event undoes it.
pub proof fn non_socket_is_refused(found: bool, is_link: bool, later: Seq<ConnectEvent>)
    requires
        found || is_link,
    ensures
        connect_run(
            seq![ConnectEvent::Probed { found, is_link }, ConnectEvent::IsSocket(false)] + later,
        ) == ConnectState::Failed(SocketError::NotASocket),
    decreases later.len(),
{
    let first = seq![ConnectEvent::Probed { found, is_link }, ConnectEvent::IsSocket(false)];
    let events = first + later;
    if later.len() == 0 {
        reveal_with_fuel(connect_run, 3);
        assert(events == first);
        assert(first.drop_last() == seq![ConnectEvent::Probed { found, is_link }]);
        assert(first.drop_last().drop_last() == Seq::<ConnectEvent>::empty());
    } else {
        assert(events.drop_last() == first + later.drop_last());
        non_socket_is_refused(found, is_link, later.drop_last());
    }
}

/// Every way to the socket ends: after three answers at most there is a
/// connection or an error.
pub proof fn connecting_ends(events: Seq<ConnectEvent>)
    requires
        all_answer(events),
    ensures
        events.len() <= 3,
        events.len() == 3 ==> connect_run(events) is Connected || connect_run(events) is Failed,
{
    if events.len() > 0 {
        let earlier = events.drop_last();
        match connect_run(earlier) {
            ConnectState::Probing => lemma_probing(earlier),
            ConnectState::Inspecting => lemma_inspecting(earlier),
            ConnectState::Connecting => connects_only_to_sockets(earlier),
            _ => {},
        }
    }
}

proof fn lemma_probing(events: Seq<ConnectEvent>)
    requires
        all_answer(events),
        connect_run(events) == ConnectState::Probing,
    ensures
        events == Seq::<ConnectEvent>::empty(),
{
}

proof fn lemma_inspecting(events: Seq<ConnectEvent>)
    requires
        all_answer(events),
        connect_run(events) == ConnectState::Inspecting,
    ensures
        events.len() == 1,
        events[0] matches ConnectEvent::Probed { found, is_link } && (found || is_link),
{
    lemma_probing(events.drop_last());
}

} // verus!
