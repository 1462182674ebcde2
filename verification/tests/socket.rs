use input_only_proxy::socket::{
    directory_failed_message, ConnectEvent, ConnectState, SocketError, CONNECT_TIMEOUT_SECS,
};

fn run(events: &[ConnectEvent]) -> ConnectState {
    events.iter().fold(ConnectState::start(), |state, event| state.advance(*event))
}

const NOTHING: ConnectEvent = ConnectEvent::Probed { found: false, is_link: false };
const SOMETHING: ConnectEvent = ConnectEvent::Probed { found: true, is_link: false };
const LINK: ConnectEvent = ConnectEvent::Probed { found: true, is_link: true };
const DANGLING_LINK: ConnectEvent = ConnectEvent::Probed { found: false, is_link: true };

const EVENTS: [ConnectEvent; 10] = [
    NOTHING,
    SOMETHING,
    LINK,
    DANGLING_LINK,
    ConnectEvent::IsSocket(false),
    ConnectEvent::IsSocket(true),
    ConnectEvent::NoMetadata,
    ConnectEvent::Established,
    ConnectEvent::Refused,
    ConnectEvent::TimedOut,
];

#[test]
fn missing_path_is_left_to_the_container() {
    assert_eq!(ConnectState::start(), ConnectState::Probing);
    assert_eq!(run(&[NOTHING]), ConnectState::Connecting);
}

#[test]
fn existing_socket_is_connected_to() {
    let events = [SOMETHING, ConnectEvent::IsSocket(true), ConnectEvent::Established];
    assert_eq!(run(&events[..1]), ConnectState::Inspecting);
    assert_eq!(run(&events[..2]), ConnectState::Connecting);
    assert_eq!(run(&events), ConnectState::Connected);
}

#[test]
fn anything_else_than_a_socket_is_refused() {
    for probed in [SOMETHING, LINK, DANGLING_LINK] {
        let refused = run(&[probed, ConnectEvent::IsSocket(false)]);
        assert_eq!(refused, ConnectState::Failed(SocketError::NotASocket));
        for event in EVENTS {
            assert_eq!(refused.advance(event), refused);
        }
    }
}

#[test]
fn unreadable_metadata_is_an_error() {
    assert_eq!(
        run(&[SOMETHING, ConnectEvent::NoMetadata]),
        ConnectState::Failed(SocketError::MetadataUnreadable)
    );
}

#[test]
fn connecting_may_fail() {
    let connecting = run(&[NOTHING]);
    assert_eq!(
        connecting.advance(ConnectEvent::TimedOut),
        ConnectState::Failed(SocketError::Timeout)
    );
    assert_eq!(
        connecting.advance(ConnectEvent::Refused),
        ConnectState::Failed(SocketError::ConnectFailed)
    );
}

#[test]
fn nothing_or_a_socket_leads_to_connecting() {
    let mut ways = Vec::new();
    for first in EVENTS {
        let state = run(&[first]);
        if state == ConnectState::Connecting {
            ways.push(vec![first]);
        } else if state != ConnectState::Probing {
            for second in EVENTS {
                if state.advance(second) == ConnectState::Connecting {
                    ways.push(vec![first, second]);
                }
            }
        }
    }
    assert_eq!(
        ways,
        vec![
            vec![NOTHING],
            vec![SOMETHING, ConnectEvent::IsSocket(true)],
            vec![LINK, ConnectEvent::IsSocket(true)],
            vec![DANGLING_LINK, ConnectEvent::IsSocket(true)],
        ]
    );
}

#[test]
fn events_out_of_turn_change_nothing() {
    assert_eq!(run(&[ConnectEvent::Established]), ConnectState::Probing);
    assert_eq!(run(&[ConnectEvent::IsSocket(true)]), ConnectState::Probing);
    assert_eq!(
        run(&[SOMETHING, NOTHING]),
        ConnectState::Inspecting
    );
}

#[test]
fn every_way_ends() {
    for last in [ConnectEvent::Established, ConnectEvent::Refused, ConnectEvent::TimedOut] {
        let end = run(&[SOMETHING, ConnectEvent::IsSocket(true), last]);
        assert!(matches!(end, ConnectState::Connected | ConnectState::Failed(_)));
        for event in EVENTS {
            assert_eq!(end.advance(event), end);
        }
    }
}

#[test]
fn socket_errors_are_told() {
    let path = "/run/input.sock";
    assert_eq!(
        SocketError::NotASocket.message(path).unwrap(),
        "Security violation: /run/input.sock exists but is not a Unix socket"
    );
    assert_eq!(
        SocketError::Timeout.message(path).unwrap(),
        "Timeout connecting to container socket"
    );
    assert_eq!(
        SocketError::ConnectFailed.message(path).unwrap(),
        "Failed to connect to: /run/input.sock"
    );
    assert_eq!(SocketError::MetadataUnreadable.message(path), None);
}

#[test]
fn connecting_is_bounded() {
    assert_eq!(CONNECT_TIMEOUT_SECS, 10);
}

#[test]
fn missing_socket_directory_is_told() {
    assert_eq!(
        directory_failed_message("\"/persistent/input\""),
        "Failed to create directory: \"/persistent/input\""
    );
}
