use wayland_proxy::byte_order::{push_word, ByteOrder};
use wayland_proxy::connection::{
    Action, Outcome, Packet, ProxyConnection, Received, Sent, MAX_BUFFERED,
};
use wayland_proxy::wire::{
    build_set_app_id_message, build_set_app_id_message_in, parse_message_header_in,
    parse_string_arg_in, MAX_MESSAGE_SIZE,
};

const ORDER: ByteOrder = ByteOrder::Big;

fn message(object_id: u32, opcode: u16, args: &[u8]) -> Vec<u8> {
    let mut msg: Vec<u8> = Vec::new();
    push_word(ORDER, &mut msg, object_id);
    push_word(ORDER, &mut msg, ((8 + args.len() as u32) << 16) | opcode as u32);
    msg.extend_from_slice(args);
    msg
}

fn new_id_message(object_id: u32, opcode: u16, new_id: u32) -> Vec<u8> {
    let mut args: Vec<u8> = Vec::new();
    push_word(ORDER, &mut args, new_id);
    message(object_id, opcode, &args)
}

fn bind(registry: u32, interface: &str, new_id: u32) -> Vec<u8> {
    let mut args: Vec<u8> = Vec::new();
    push_word(ORDER, &mut args, 1);
    push_word(ORDER, &mut args, interface.len() as u32 + 1);
    args.extend_from_slice(interface.as_bytes());
    args.push(0);
    while args.len() % 4 != 0 {
        args.push(0);
    }
    push_word(ORDER, &mut args, 4);
    push_word(ORDER, &mut args, new_id);
    message(registry, 0, &args)
}

fn data(bytes: &[u8], fds: &[i32]) -> Received {
    Received::Data(Packet { bytes: bytes.to_vec(), fds: fds.to_vec() })
}

fn to_server(bytes: &[u8], fds: &[i32]) -> Action {
    Action::SendToServer(Packet { bytes: bytes.to_vec(), fds: fds.to_vec() })
}

fn to_client(bytes: &[u8], fds: &[i32]) -> Action {
    Action::SendToClient(Packet { bytes: bytes.to_vec(), fds: fds.to_vec() })
}

fn connection() -> ProxyConnection {
    ProxyConnection::new_in(ORDER, "my-socket".to_string(), 4)
}

/// Feeds `bytes` and lets each write succeed. Returns what was written to the compositor.
fn feed(conn: &mut ProxyConnection, bytes: &[u8]) -> Vec<Vec<u8>> {
    let mut written: Vec<Vec<u8>> = Vec::new();
    assert_eq!(conn.poll(), Action::ReceiveFromClient);
    let mut action = conn.process_client_to_server(data(bytes, &[]));
    while let Action::SendToServer(packet) = action {
        written.push(packet.bytes);
        action = conn.sent_to_server(Sent::Done);
    }
    assert_eq!(action, Action::ReceiveFromServer);
    let last = conn.process_server_to_client(Received::WouldBlock);
    assert_eq!(last, Action::Finished(Outcome::Keep));
    written
}

/// The requests up to the toplevel 20.
fn setup_stream() -> Vec<u8> {
    let mut stream: Vec<u8> = Vec::new();
    stream.extend_from_slice(&new_id_message(1, 1, 2));
    stream.extend_from_slice(&bind(2, "wl_shm", 9));
    stream.extend_from_slice(&bind(2, "xdg_wm_base", 10));
    stream.extend_from_slice(&new_id_message(10, 2, 15));
    stream.extend_from_slice(&new_id_message(15, 1, 20));
    stream
}

#[test]
fn a_new_toplevel_gets_an_app_id() {
    let mut conn = connection();
    assert_eq!(conn.id(), 4);
    let written = feed(&mut conn, &setup_stream());
    assert_eq!(
        written,
        vec![
            new_id_message(1, 1, 2),
            bind(2, "wl_shm", 9),
            bind(2, "xdg_wm_base", 10),
            new_id_message(10, 2, 15),
            new_id_message(15, 1, 20),
            build_set_app_id_message_in(ORDER, 20, "my-socket:unknown"),
        ]
    );
    assert_eq!(conn.stats(), "registries=1, wm_bases=1, surfaces=1, toplevels=1");
}

#[test]
fn app_id_is_prefixed_each_time() {
    let mut conn = connection();
    feed(&mut conn, &setup_stream());
    for app_id in ["firefox", "", "other"] {
        let request = build_set_app_id_message_in(ORDER, 20, app_id);
        let written = feed(&mut conn, &request);
        let expected = format!("my-socket:{}", app_id);
        assert_eq!(written, vec![build_set_app_id_message_in(ORDER, 20, &expected)]);
        assert_eq!(parse_string_arg_in(ORDER, &written[0], 8), Some(expected));
    }
}

#[test]
fn app_id_that_is_no_string() {
    let mut conn = connection();
    feed(&mut conn, &setup_stream());
    let expected = build_set_app_id_message_in(ORDER, 20, "my-socket:<invalid>");
    assert_eq!(feed(&mut conn, &message(20, 3, &[])), vec![expected]);
    let expected = build_set_app_id_message_in(ORDER, 20, "my-socket:<invalid>");
    assert_eq!(feed(&mut conn, &message(20, 3, &[0, 0, 0, 9, b'a', b'b', 0, 0])), vec![expected]);
    let expected = build_set_app_id_message_in(ORDER, 20, "my-socket:a\u{FFFD}");
    assert_eq!(feed(&mut conn, &message(20, 3, &[0, 0, 0, 3, b'a', 0xFF, 0, 0])), vec![expected]);
}

#[test]
fn other_set_app_id_is_forwarded() {
    let mut conn = connection();
    feed(&mut conn, &setup_stream());
    let request = build_set_app_id_message_in(ORDER, 21, "firefox");
    assert_eq!(feed(&mut conn, &request), vec![request]);
    let destroy = message(20, 0, &[]);
    assert_eq!(feed(&mut conn, &destroy), vec![destroy]);
    let request = build_set_app_id_message_in(ORDER, 20, "firefox");
    assert_eq!(feed(&mut conn, &request), vec![request]);
    assert_eq!(conn.stats(), "registries=1, wm_bases=1, surfaces=1, toplevels=0");
}

#[test]
fn id_zero_is_not_tracked() {
    let mut conn = connection();
    let mut stream: Vec<u8> = Vec::new();
    stream.extend_from_slice(&new_id_message(1, 1, 0));
    stream.extend_from_slice(&new_id_message(1, 1, 2));
    stream.extend_from_slice(&message(1, 1, &[]));
    stream.extend_from_slice(&bind(2, "xdg_wm_base", 0));
    assert_eq!(feed(&mut conn, &stream).len(), 4);
    assert_eq!(conn.stats(), "registries=1, wm_bases=0, surfaces=0, toplevels=0");
}

#[test]
fn messages_may_come_in_pieces() {
    let stream = setup_stream();
    let mut whole = connection();
    let expected = feed(&mut whole, &stream);
    for piece in [1usize, 3, 8, 13] {
        let mut conn = connection();
        let mut written: Vec<Vec<u8>> = Vec::new();
        for bytes in stream.chunks(piece) {
            written.extend(feed(&mut conn, bytes));
        }
        assert_eq!(written, expected);
        assert_eq!(conn.stats(), whole.stats());
    }
}

#[test]
fn fds_go_with_the_next_message() {
    let mut conn = connection();
    let first = message(5, 7, &[1, 2, 3, 4]);
    let second = message(6, 8, &[]);
    let mut stream = first.clone();
    stream.extend_from_slice(&second);

    conn.poll();
    assert_eq!(conn.process_client_to_server(data(&stream[..4], &[30])), Action::ReceiveFromServer);
    conn.poll();
    assert_eq!(
        conn.process_client_to_server(data(&stream[4..], &[31, 32])),
        to_server(&first, &[30, 31, 32])
    );
    assert_eq!(conn.sent_to_server(Sent::Done), to_server(&second, &[]));
    assert_eq!(conn.sent_to_server(Sent::Done), Action::ReceiveFromServer);
    assert!(conn.take_pending_fds().is_empty());
}

#[test]
fn fds_go_with_a_changed_app_id_but_not_with_an_injected_one() {
    let mut conn = connection();
    let stream = setup_stream();
    let toplevel = new_id_message(15, 1, 20);
    feed(&mut conn, &stream[..stream.len() - toplevel.len()]);

    conn.poll();
    assert_eq!(conn.process_client_to_server(data(&toplevel, &[40])), to_server(&toplevel, &[40]));
    assert_eq!(
        conn.sent_to_server(Sent::Done),
        to_server(&build_set_app_id_message_in(ORDER, 20, "my-socket:unknown"), &[])
    );
    assert_eq!(conn.sent_to_server(Sent::Done), Action::ReceiveFromServer);

    conn.poll();
    let request = build_set_app_id_message_in(ORDER, 20, "x");
    assert_eq!(
        conn.process_client_to_server(data(&request, &[41])),
        to_server(&build_set_app_id_message_in(ORDER, 20, "my-socket:x"), &[41])
    );
}

#[test]
fn no_injection_after_a_failed_write() {
    for (sent, expected) in [
        (Sent::WouldBlock, Action::ReceiveFromServer),
        (Sent::Failed, Action::Finished(Outcome::Failed)),
    ] {
        let mut conn = connection();
        let stream = setup_stream();
        let toplevel = new_id_message(15, 1, 20);
        feed(&mut conn, &stream[..stream.len() - toplevel.len()]);
        conn.poll();
        assert_eq!(conn.process_client_to_server(data(&toplevel, &[])), to_server(&toplevel, &[]));
        assert_eq!(conn.sent_to_server(sent), expected);
        assert_eq!(conn.sent_to_server(Sent::Done), Action::ReceiveFromServer);
    }
}

#[test]
fn the_rest_waits_after_a_blocked_write() {
    let mut conn = connection();
    let first = message(5, 7, &[]);
    let second = message(6, 8, &[]);
    let mut stream = first.clone();
    stream.extend_from_slice(&second);
    conn.poll();
    assert_eq!(conn.process_client_to_server(data(&stream, &[])), to_server(&first, &[]));
    assert_eq!(conn.sent_to_server(Sent::WouldBlock), Action::ReceiveFromServer);
    conn.poll();
    assert_eq!(conn.process_client_to_server(Received::WouldBlock), Action::ReceiveFromServer);
    conn.poll();
    let third = message(7, 9, &[]);
    assert_eq!(conn.process_client_to_server(data(&third, &[])), to_server(&second, &[]));
    assert_eq!(conn.sent_to_server(Sent::Done), to_server(&third, &[]));
}

#[test]
fn what_ends_a_poll() {
    let mut conn = connection();
    let closed = Action::Finished(Outcome::Closed);
    let failed = Action::Finished(Outcome::Failed);
    let kept = Action::Finished(Outcome::Keep);
    assert_eq!(conn.process_client_to_server(data(&[], &[50])), closed);
    assert_eq!(conn.process_client_to_server(Received::Failed), failed);
    assert_eq!(conn.process_server_to_client(data(&[], &[51])), closed);
    assert_eq!(conn.process_server_to_client(Received::Failed), failed);
    assert_eq!(conn.sent_to_server(Sent::Failed), failed);
    assert_eq!(conn.sent_to_client(Sent::Failed), failed);
    assert_eq!(conn.sent_to_client(Sent::Done), kept);
    assert_eq!(conn.sent_to_client(Sent::WouldBlock), kept);
    assert_eq!(conn.process_server_to_client(Received::WouldBlock), kept);
    assert_eq!(conn.take_pending_fds(), vec![50, 51]);
    assert!(conn.take_pending_fds().is_empty());
}

#[test]
fn a_malformed_header_stalls_until_the_buffer_is_full() {
    let mut conn = connection();
    let bad = [0u8, 0, 0, 5, 0, 7, 0, 0];
    assert_eq!(conn.process_client_to_server(data(&bad, &[])), Action::ReceiveFromServer);
    let more = vec![0u8; 4096];
    for _ in 0..3 {
        assert_eq!(conn.process_client_to_server(data(&more, &[])), Action::ReceiveFromServer);
    }
    let fill = vec![0u8; MAX_BUFFERED - 3 * 4096 - 8];
    assert_eq!(conn.process_client_to_server(data(&fill, &[])), Action::ReceiveFromServer);
    assert_eq!(conn.process_client_to_server(data(&[0], &[])), Action::Finished(Outcome::Closed));
}

#[test]
fn the_compositor_is_forwarded_as_it_stands() {
    let mut conn = connection();
    assert_eq!(
        conn.process_server_to_client(data(&[1, 2, 3], &[60, 61])),
        to_client(&[1, 2, 3], &[60, 61])
    );
    assert_eq!(conn.sent_to_client(Sent::Done), Action::Finished(Outcome::Keep));
    assert_eq!(conn.process_server_to_client(data(&[4], &[])), to_client(&[4], &[]));
}

#[test]
fn native_order_connection() {
    let mut conn = ProxyConnection::new("p".to_string(), 0);
    let mut stream: Vec<u8> = Vec::new();
    for word in [1u32, (12 << 16) | 1, 2] {
        stream.extend_from_slice(&word.to_ne_bytes());
    }
    for word in [2u32, 36 << 16, 1, 12] {
        stream.extend_from_slice(&word.to_ne_bytes());
    }
    stream.extend_from_slice(b"xdg_wm_base\0");
    for word in [4u32, 10] {
        stream.extend_from_slice(&word.to_ne_bytes());
    }
    for word in [10u32, (12 << 16) | 2, 15, 15, (12 << 16) | 1, 20] {
        stream.extend_from_slice(&word.to_ne_bytes());
    }
    let written = feed(&mut conn, &stream);
    assert_eq!(written.len(), 5);
    assert_eq!(written[4], build_set_app_id_message(20, "p:unknown"));
}

#[test]
fn no_message_is_too_large() {
    for length in [4080, 4081, 4082, 4083] {
        let mut conn = ProxyConnection::new_in(ORDER, "p".to_string(), 0);
        feed(&mut conn, &setup_stream());
        let app_id = "x".repeat(length);
        let request = build_set_app_id_message_in(ORDER, 20, &app_id);
        assert!(request.len() <= MAX_MESSAGE_SIZE);
        let written = feed(&mut conn, &request);
        assert_eq!(written.len(), 1);
        assert_eq!(written[0].len(), MAX_MESSAGE_SIZE);
        assert_eq!(parse_message_header_in(ORDER, &written[0]), Some((20, 4096, 3)));
        let kept = length.min(4081);
        let expected = format!("p:{}", "x".repeat(kept));
        assert_eq!(parse_string_arg_in(ORDER, &written[0], 8), Some(expected));
    }
}

#[test]
fn replaced_bytes_that_grow_are_cut() {
    let mut conn = connection();
    feed(&mut conn, &setup_stream());
    let mut args: Vec<u8> = Vec::new();
    push_word(ORDER, &mut args, 4001);
    args.extend_from_slice(&[0xFF; 4000]);
    args.extend_from_slice(&[0; 4]);
    let written = feed(&mut conn, &message(20, 3, &args));
    assert_eq!(written.len(), 1);
    assert_eq!(written[0].len(), 4096);
    let expected = format!("my-socket:{}", "\u{FFFD}".repeat((4083 - 10) / 3));
    assert_eq!(parse_string_arg_in(ORDER, &written[0], 8), Some(expected));
}

#[test]
fn a_long_prefix_stays_whole() {
    let prefix = "q".repeat(4082);
    let mut conn = ProxyConnection::new_in(ORDER, prefix.clone(), 0);
    let written = feed(&mut conn, &setup_stream());
    let expected = format!("{}:", prefix);
    assert_eq!(written[5].len(), 4096);
    assert_eq!(parse_string_arg_in(ORDER, &written[5], 8), Some(expected.clone()));
    let request = build_set_app_id_message_in(ORDER, 20, "firefox");
    let written = feed(&mut conn, &request);
    assert_eq!(parse_string_arg_in(ORDER, &written[0], 8), Some(expected));
}

#[test]
fn pieces_may_hold_more_than_the_buffer_in_all() {
    let mut stream = setup_stream();
    for _ in 0..8 {
        stream.extend_from_slice(&build_set_app_id_message_in(ORDER, 20, &"y".repeat(4000)));
    }
    assert!(stream.len() > MAX_BUFFERED);
    let mut results: Vec<(Vec<Vec<u8>>, String)> = Vec::new();
    for size in [1, 7, 1000, 4096] {
        let mut conn = connection();
        let mut written: Vec<Vec<u8>> = Vec::new();
        for piece in stream.chunks(size) {
            written.extend(feed(&mut conn, piece));
        }
        results.push((written, conn.stats()));
    }
    assert_eq!(results[0].0.len(), 14);
    for result in &results {
        assert_eq!(result, &results[0]);
    }
}

#[test]
fn set_app_id_requests_are_known() {
    let mut conn = connection();
    assert!(!conn.is_set_app_id(20, 3));
    feed(&mut conn, &setup_stream());
    assert!(conn.is_set_app_id(20, 3));
    assert!(!conn.is_set_app_id(20, 2));
    assert!(!conn.is_set_app_id(15, 3));
}
