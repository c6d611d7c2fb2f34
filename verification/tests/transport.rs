use discord_ipc::client::{close_message, connect_precheck, probe_next, ProbeStep};
use discord_ipc::pipe_path::{candidate_path, CANDIDATE_COUNT};
use discord_ipc::DiscordIpcClient;
use discord_ipc::Error;

#[test]
fn new_client_is_disconnected() {
    let client = DiscordIpcClient::new("client-id-123");
    assert!(!client.is_connected());
    assert_eq!(client.connected_index(), None);
    assert_eq!(client.get_client_id(), "client-id-123");
}

#[test]
fn connect_binds_unique_endpoint_at_any_position() {
    for position in 0..CANDIDATE_COUNT {
        let mut endpoints = vec![false; CANDIDATE_COUNT];
        endpoints[position] = true;
        let mut client = DiscordIpcClient::new("id");
        assert_eq!(client.connect_ipc(&endpoints), Ok(()));
        assert!(client.is_connected());
        assert_eq!(client.connected_index(), Some(position));
    }
}

#[test]
fn connect_binds_first_of_several_endpoints() {
    let mut endpoints = vec![false; CANDIDATE_COUNT];
    endpoints[3] = true;
    endpoints[7] = true;
    let mut client = DiscordIpcClient::new("id");
    assert_eq!(client.connect_ipc(&endpoints), Ok(()));
    assert_eq!(client.connected_index(), Some(3));
}

#[test]
fn connect_fails_when_no_endpoint_exists() {
    let endpoints = vec![false; CANDIDATE_COUNT];
    let mut client = DiscordIpcClient::new("id");
    assert_eq!(client.connect_ipc(&endpoints), Err(Error::IPCConnectionFailed));
    assert!(!client.is_connected());
    assert_eq!(client.connected_index(), None);
}

#[test]
fn connect_fails_on_empty_namespace() {
    let endpoints: Vec<bool> = Vec::new();
    let mut client = DiscordIpcClient::new("id");
    assert_eq!(client.connect_ipc(&endpoints), Err(Error::IPCConnectionFailed));
    assert!(!client.is_connected());
}

#[test]
fn endpoint_past_probe_range_is_not_found() {
    let mut endpoints = vec![false; CANDIDATE_COUNT + 5];
    endpoints[CANDIDATE_COUNT + 2] = true;
    let mut client = DiscordIpcClient::new("id");
    assert_eq!(client.connect_ipc(&endpoints), Err(Error::IPCConnectionFailed));
    assert!(!client.is_connected());
}

#[test]
fn second_connect_is_rejected() {
    let mut endpoints = vec![false; CANDIDATE_COUNT];
    endpoints[1] = true;
    let mut client = DiscordIpcClient::new("id");
    assert_eq!(client.connect_ipc(&endpoints), Ok(()));
    let mut other = vec![false; CANDIDATE_COUNT];
    other[0] = true;
    assert_eq!(client.connect_ipc(&other), Err(Error::AlreadyConnected));
    assert_eq!(client.connected_index(), Some(1));
}

#[test]
fn write_before_connect_is_not_connected() {
    let mut client = DiscordIpcClient::new("id");
    assert_eq!(client.write(&[1, 2, 3]), Err(Error::NotConnected));
}

#[test]
fn read_before_connect_is_not_connected() {
    let mut client = DiscordIpcClient::new("id");
    let mut buffer = vec![0u8; 4];
    assert_eq!(client.read(&mut buffer), Err(Error::NotConnected));
    assert_eq!(buffer, vec![0u8; 4]);
}

#[test]
fn io_after_failed_connect_is_not_connected() {
    let endpoints = vec![false; CANDIDATE_COUNT];
    let mut client = DiscordIpcClient::new("id");
    assert_eq!(client.connect_ipc(&endpoints), Err(Error::IPCConnectionFailed));
    assert_eq!(client.write(&[9]), Err(Error::NotConnected));
    let mut buffer = vec![0u8; 1];
    assert_eq!(client.read(&mut buffer), Err(Error::NotConnected));
}

#[test]
fn echo_round_trip_returns_written_bytes() {
    let mut endpoints = vec![false; CANDIDATE_COUNT];
    endpoints[0] = true;
    let mut client = DiscordIpcClient::new("id");
    assert_eq!(client.connect_ipc(&endpoints), Ok(()));

    let data = vec![0x10u8, 0x20, 0x30, 0x40, 0x55];
    assert_eq!(client.write(&data), Ok(()));
    let echoed = client.peer_take_sent().expect("connected");
    assert_eq!(echoed, data);
    assert_eq!(client.peer_deliver(&echoed), Ok(()));

    let mut buffer = vec![0u8; 5];
    assert_eq!(client.read(&mut buffer), Ok(()));
    assert_eq!(buffer, data);

    let leftover = client.peer_take_sent().expect("connected");
    assert_eq!(leftover, Vec::<u8>::new());
}

#[test]
fn read_of_more_than_delivered_is_an_error_not_a_short_read() {
    let mut endpoints = vec![false; CANDIDATE_COUNT];
    endpoints[0] = true;
    let mut client = DiscordIpcClient::new("id");
    assert_eq!(client.connect_ipc(&endpoints), Ok(()));
    assert_eq!(client.peer_deliver(&[1, 2, 3]), Ok(()));

    let mut buffer = vec![0u8; 5];
    assert_eq!(client.read(&mut buffer), Err(Error::ReadError));
    assert_eq!(buffer, vec![0u8; 5]);

    let mut exact = vec![0u8; 3];
    assert_eq!(client.read(&mut exact), Ok(()));
    assert_eq!(exact, vec![1u8, 2, 3]);
}

#[test]
fn reads_consume_in_arrival_order() {
    let mut endpoints = vec![false; CANDIDATE_COUNT];
    endpoints[0] = true;
    let mut client = DiscordIpcClient::new("id");
    assert_eq!(client.connect_ipc(&endpoints), Ok(()));
    assert_eq!(client.peer_deliver(&[10, 11, 12, 13]), Ok(()));

    let mut first = vec![0u8; 2];
    assert_eq!(client.read(&mut first), Ok(()));
    assert_eq!(first, vec![10u8, 11]);

    let mut second = vec![0u8; 2];
    assert_eq!(client.read(&mut second), Ok(()));
    assert_eq!(second, vec![12u8, 13]);
}

#[test]
fn write_refused_by_peer_is_an_error_and_delivers_nothing() {
    let mut endpoints = vec![false; CANDIDATE_COUNT];
    endpoints[0] = true;
    let mut client = DiscordIpcClient::new("id");
    assert_eq!(client.connect_ipc(&endpoints), Ok(()));
    assert_eq!(client.peer_set_accept_writes(false), Ok(()));

    assert_eq!(client.write(&[1, 2, 3]), Err(Error::WriteError));
    assert_eq!(client.peer_take_sent().expect("connected"), Vec::<u8>::new());
}

#[test]
fn close_before_connect_is_not_connected() {
    let mut client = DiscordIpcClient::new("id");
    assert_eq!(client.close(), Err(Error::NotConnected));
}

#[test]
fn close_sends_the_courtesy_frame_and_flushes() {
    let mut endpoints = vec![false; CANDIDATE_COUNT];
    endpoints[0] = true;
    let mut client = DiscordIpcClient::new("id");
    assert_eq!(client.connect_ipc(&endpoints), Ok(()));

    assert_eq!(client.close(), Ok(()));
    let sent = client.peer_take_sent().expect("connected");
    assert_eq!(sent, vec![2u8, 0, 0, 0, 2, 0, 0, 0, 0x7b, 0x7d]);
}

#[test]
fn close_message_is_the_framed_empty_payload() {
    assert_eq!(
        close_message(),
        vec![2u8, 0, 0, 0, 2, 0, 0, 0, b'{', b'}']
    );
}

#[test]
fn close_succeeds_even_if_courtesy_send_is_refused() {
    let mut endpoints = vec![false; CANDIDATE_COUNT];
    endpoints[0] = true;
    let mut client = DiscordIpcClient::new("id");
    assert_eq!(client.connect_ipc(&endpoints), Ok(()));
    assert_eq!(client.peer_set_accept_writes(false), Ok(()));

    assert_eq!(client.close(), Ok(()));
    assert_eq!(client.peer_take_sent().expect("connected"), Vec::<u8>::new());
}

#[test]
fn close_reports_flush_failure() {
    let mut endpoints = vec![false; CANDIDATE_COUNT];
    endpoints[0] = true;
    let mut client = DiscordIpcClient::new("id");
    assert_eq!(client.connect_ipc(&endpoints), Ok(()));
    assert_eq!(client.peer_set_accept_flush(false), Ok(()));

    assert_eq!(client.close(), Err(Error::FlushError));
}

#[test]
fn close_leaves_the_handle_held() {
    let mut endpoints = vec![false; CANDIDATE_COUNT];
    endpoints[0] = true;
    let mut client = DiscordIpcClient::new("id");
    assert_eq!(client.connect_ipc(&endpoints), Ok(()));
    assert_eq!(client.close(), Ok(()));
    assert!(client.is_connected());
    assert_eq!(client.connected_index(), Some(0));
}

#[test]
fn probe_steps_bind_advance_and_exhaust() {
    assert_eq!(probe_next(0, true), ProbeStep::Bind(0));
    assert_eq!(probe_next(4, true), ProbeStep::Bind(4));
    assert_eq!(probe_next(0, false), ProbeStep::Try(1));
    assert_eq!(probe_next(CANDIDATE_COUNT - 2, false), ProbeStep::Try(CANDIDATE_COUNT - 1));
    assert_eq!(probe_next(CANDIDATE_COUNT - 1, false), ProbeStep::Exhausted);
    assert_eq!(probe_next(CANDIDATE_COUNT - 1, true), ProbeStep::Bind(CANDIDATE_COUNT - 1));
}

#[test]
fn connect_precheck_rejects_only_a_held_handle() {
    assert_eq!(connect_precheck(false), Ok(()));
    assert_eq!(connect_precheck(true), Err(Error::AlreadyConnected));
}

#[test]
fn candidate_paths_are_exact() {
    assert_eq!(candidate_path(0), r"\\?\pipe\discord-ipc-0");
    assert_eq!(candidate_path(5), r"\\?\pipe\discord-ipc-5");
    assert_eq!(candidate_path(9), r"\\?\pipe\discord-ipc-9");
}

#[test]
fn scenario_probe_three_candidates_binds_the_third() {
    let endpoints = vec![false, false, true];
    let mut client = DiscordIpcClient::new("id");
    assert_eq!(client.connect_ipc(&endpoints), Ok(()));
    assert_eq!(client.connected_index(), Some(2));
    assert_eq!(candidate_path(2), r"\\?\pipe\discord-ipc-2");

    assert_eq!(client.write(&[0x01, 0x02]), Ok(()));
    assert_eq!(client.peer_take_sent().expect("connected"), vec![0x01u8, 0x02]);
}
