use wayland_proxy::byte_order::{push_word, read_word, ByteOrder};
use wayland_proxy::opcodes;
use wayland_proxy::text::{append_decimal, encode_c_string, fit_text, same_text};
use wayland_proxy::wire::{
    build_set_app_id_message, build_set_app_id_message_in, parse_bind_request,
    parse_bind_request_in, parse_message_header, parse_message_header_in, parse_string_arg,
    parse_string_arg_in,
};

const ORDERS: [ByteOrder; 2] = [ByteOrder::Little, ByteOrder::Big];

fn bind_message(order: ByteOrder, str_len: u32, name: &[u8], new_id: u32) -> Vec<u8> {
    let mut body: Vec<u8> = Vec::new();
    push_word(order, &mut body, 7);
    push_word(order, &mut body, str_len);
    body.extend_from_slice(name);
    while body.len() % 4 != 0 {
        body.push(0);
    }
    push_word(order, &mut body, 3);
    push_word(order, &mut body, new_id);
    let mut msg: Vec<u8> = Vec::new();
    push_word(order, &mut msg, 2);
    push_word(order, &mut msg, ((8 + body.len() as u32) << 16) | 0);
    msg.extend_from_slice(&body);
    msg
}

#[test]
fn test_parse_message_header() {
    let header = [
        0x01u8, 0x00, 0x00, 0x00, // object_id = 1
        0x00, 0x00, 0x0C, 0x00, // size_opcode (le): size=12, opcode=0
    ];

    if let Some((obj, size, op)) = parse_message_header(&header) {
        assert_eq!(obj, 1);
        assert_eq!(size, 12);
        assert_eq!(op, 0);
    } else {
        panic!("Failed to parse valid header");
    }
}

#[test]
fn test_parse_message_header_too_small() {
    let data = [0x01, 0x00, 0x00]; // Only 3 bytes
    assert!(parse_message_header(&data).is_none());
}

#[test]
fn test_build_set_app_id_message() {
    let msg = build_set_app_id_message(42, "test");

    // Check object ID
    let object_id = u32::from_ne_bytes([msg[0], msg[1], msg[2], msg[3]]);
    assert_eq!(object_id, 42);

    // Check opcode
    let size_opcode = u32::from_ne_bytes([msg[4], msg[5], msg[6], msg[7]]);
    let opcode = (size_opcode & 0xFFFF) as u16;
    assert_eq!(opcode, opcodes::XDG_TOPLEVEL_SET_APP_ID);

    // Check string length (5 = "test" + null)
    let str_len = u32::from_ne_bytes([msg[8], msg[9], msg[10], msg[11]]);
    assert_eq!(str_len, 5);
}

#[test]
fn native_order_is_that_of_the_machine() {
    let mut data: Vec<u8> = Vec::new();
    data.extend_from_slice(&0x0102_0304u32.to_ne_bytes());
    data.extend_from_slice(&((20u32 << 16) | 5).to_ne_bytes());
    assert_eq!(parse_message_header(&data), Some((0x0102_0304, 20, 5)));
}

#[test]
fn words_in_both_orders() {
    let data = [9, 0x01, 0x02, 0x03, 0x04];
    assert_eq!(read_word(ByteOrder::Little, &data, 1), 0x0403_0201);
    assert_eq!(read_word(ByteOrder::Big, &data, 1), 0x0102_0304);
    for order in ORDERS {
        for value in [0u32, 1, 0x0102_0304, 0xFFFF_FFFF, 0x8000_0000] {
            let mut out: Vec<u8> = Vec::new();
            push_word(order, &mut out, value);
            assert_eq!(out.len(), 4);
            assert_eq!(read_word(order, &out, 0), value);
        }
    }
    let mut out: Vec<u8> = vec![7];
    push_word(ByteOrder::Big, &mut out, 0x0A0B_0C0D);
    assert_eq!(out, vec![7, 0x0A, 0x0B, 0x0C, 0x0D]);
}

#[test]
fn header_size_bounds() {
    for order in ORDERS {
        for (size, valid) in [(0u32, false), (7, false), (8, true), (4096, true), (4097, false), (0xFFFF, false)] {
            let mut data: Vec<u8> = Vec::new();
            push_word(order, &mut data, 3);
            push_word(order, &mut data, (size << 16) | 0xBEEF);
            let header = parse_message_header_in(order, &data);
            if valid {
                assert_eq!(header, Some((3, size as usize, 0xBEEF)));
            } else {
                assert_eq!(header, None);
            }
            data.pop();
            assert_eq!(parse_message_header_in(order, &data), None);
        }
    }
}

#[test]
fn set_app_id_bytes() {
    assert_eq!(
        build_set_app_id_message_in(ByteOrder::Little, 0x0102, "abc"),
        vec![2, 1, 0, 0, 3, 0, 16, 0, 4, 0, 0, 0, b'a', b'b', b'c', 0]
    );
    assert_eq!(
        build_set_app_id_message_in(ByteOrder::Big, 0x0102, "abcd"),
        vec![0, 0, 1, 2, 0, 20, 0, 3, 0, 0, 0, 5, b'a', b'b', b'c', b'd', 0, 0, 0, 0]
    );
    assert_eq!(
        build_set_app_id_message_in(ByteOrder::Little, 1, ""),
        vec![1, 0, 0, 0, 3, 0, 16, 0, 1, 0, 0, 0, 0, 0, 0, 0]
    );
}

#[test]
fn set_app_id_reads_back() {
    for order in ORDERS {
        for app_id in ["", "a", "firefox", "org.gnome.Nautilus", "\u{e4}\u{20ac}\u{1f600}"] {
            let msg = build_set_app_id_message_in(order, 77, app_id);
            assert_eq!(msg.len() % 4, 0);
            assert_eq!(parse_message_header_in(order, &msg), Some((77, msg.len(), 3)));
            assert_eq!(parse_string_arg_in(order, &msg, 8), Some(app_id.to_string()));
        }
    }
}

#[test]
fn nul_is_replaced() {
    assert_eq!(encode_c_string("a\0b\0"), vec![b'a', b'_', b'b', b'_', 0]);
    let msg = build_set_app_id_message(5, "x\0y");
    assert_eq!(parse_string_arg(&msg, 8), Some("x_y".to_string()));
}

#[test]
fn a_long_app_id_is_cut() {
    let fits = "x".repeat(4083);
    for length in [4083, 4084, 4085, 0x1_0000] {
        let msg = build_set_app_id_message(5, &"x".repeat(length));
        assert_eq!(msg.len(), 4096);
        assert_eq!(parse_message_header(&msg), Some((5, 4096, 3)));
        assert_eq!(parse_string_arg(&msg, 8), Some(fits.clone()));
    }
    let msg = build_set_app_id_message(5, &"x".repeat(4082));
    assert_eq!(parse_string_arg(&msg, 8), Some("x".repeat(4082)));
}

#[test]
fn the_cut_is_between_characters() {
    for (c, width) in [('x', 1), ('\u{e9}', 2), ('\u{20ac}', 3), ('\u{1F600}', 4)] {
        for lead in 0..4 {
            let mut app_id = "a".repeat(lead);
            app_id.push_str(&c.to_string().repeat(5000));
            let count = (4083 - lead) / width;
            let expected = format!("{}{}", "a".repeat(lead), c.to_string().repeat(count));
            let msg = build_set_app_id_message_in(ByteOrder::Big, 5, &app_id);
            assert!(msg.len() <= 4096);
            assert_eq!(parse_message_header_in(ByteOrder::Big, &msg), Some((5, msg.len(), 3)));
            assert_eq!(parse_string_arg_in(ByteOrder::Big, &msg, 8), Some(expected));
        }
    }
    assert_eq!(fit_text("a\u{20ac}b", 0), "");
    assert_eq!(fit_text("a\u{20ac}b", 3), "a");
    assert_eq!(fit_text("a\u{20ac}b", 4), "a\u{20ac}");
    assert_eq!(fit_text("a\u{20ac}b", 5), "a\u{20ac}b");
    assert_eq!(fit_text("", 5), "");
}

#[test]
fn string_arg_cases() {
    for order in ORDERS {
        let mut msg: Vec<u8> = vec![0; 8];
        assert_eq!(parse_string_arg_in(order, &msg, 8), None);
        push_word(order, &mut msg, 0);
        assert_eq!(parse_string_arg_in(order, &msg, 8), Some(String::new()));
        assert_eq!(parse_string_arg_in(order, &msg, 9), None);

        let mut msg: Vec<u8> = vec![0; 8];
        push_word(order, &mut msg, 4);
        msg.extend_from_slice(b"abc");
        assert_eq!(parse_string_arg_in(order, &msg, 8), None);
        msg.push(b'!');
        assert_eq!(parse_string_arg_in(order, &msg, 8), Some("abc".to_string()));

        let mut msg: Vec<u8> = vec![0; 8];
        push_word(order, &mut msg, 4097);
        msg.extend_from_slice(&[b'a'; 5000]);
        assert_eq!(parse_string_arg_in(order, &msg, 8), None);

        let mut msg: Vec<u8> = vec![0; 8];
        push_word(order, &mut msg, 4096);
        msg.extend_from_slice(&[b'a'; 5000]);
        assert_eq!(parse_string_arg_in(order, &msg, 8), Some("a".repeat(4095)));
    }
}

#[test]
fn invalid_utf8_is_replaced() {
    let mut msg: Vec<u8> = vec![0; 8];
    push_word(ByteOrder::Little, &mut msg, 5);
    msg.extend_from_slice(&[b'a', 0xFF, b'b', 0xC3, 0]);
    assert_eq!(
        parse_string_arg_in(ByteOrder::Little, &msg, 8),
        Some("a\u{FFFD}b\u{FFFD}".to_string())
    );
}

#[test]
fn bind_request_cases() {
    for order in ORDERS {
        let msg = bind_message(order, 12, b"xdg_wm_base\0", 9);
        assert_eq!(msg.len(), 36);
        assert_eq!(parse_bind_request_in(order, &msg), Some(("xdg_wm_base".to_string(), 9)));
        assert_eq!(parse_bind_request_in(order, &msg[..35]), None);

        let msg = bind_message(order, 7, b"wl_shm\0", 12);
        assert_eq!(parse_bind_request_in(order, &msg), Some(("wl_shm".to_string(), 12)));

        assert_eq!(parse_bind_request_in(order, &[0; 27]), None);
        assert_eq!(parse_bind_request_in(order, &[0; 28]), None);

        let name = [b'a'; 256];
        let msg = bind_message(order, 256, &name, 4);
        assert_eq!(parse_bind_request_in(order, &msg), Some(("a".repeat(255), 4)));
        let msg = bind_message(order, 257, &[b'a'; 257], 4);
        assert_eq!(parse_bind_request_in(order, &msg), None);
    }
}

#[test]
fn bind_request_with_invalid_name() {
    let msg = bind_message(ByteOrder::Big, 13, b"xdg_wm_base\xFF\0", 9);
    let (interface, new_id) = parse_bind_request_in(ByteOrder::Big, &msg).unwrap();
    assert_eq!(interface, "xdg_wm_base\u{FFFD}");
    assert_eq!(new_id, 9);
}

#[test]
fn bind_request_in_native_order() {
    let mut msg: Vec<u8> = vec![0; 12];
    msg.extend_from_slice(&4u32.to_ne_bytes());
    msg.extend_from_slice(b"abc\0");
    msg.extend_from_slice(&1u32.to_ne_bytes());
    msg.extend_from_slice(&300u32.to_ne_bytes());
    assert_eq!(parse_bind_request(&msg), Some(("abc".to_string(), 300)));
}

#[test]
fn decimal_numerals() {
    for n in [0usize, 7, 9, 10, 11, 99, 100, 12345, usize::MAX] {
        let mut out = String::from("n=");
        append_decimal(&mut out, n);
        assert_eq!(out, format!("n={}", n));
    }
}

#[test]
fn texts_compared() {
    assert!(same_text("xdg_wm_base", "xdg_wm_base"));
    assert!(!same_text("xdg_wm_base", "xdg_wm_basE"));
    assert!(!same_text("", "x"));
}
