//! The Wayland wire format: message headers, string arguments, and the two requests that
//! the proxy reads or writes.
//!
//! A message is made of 32-bit words in the byte order of the machine. Each function comes
//! twice: under its plain name for the byte order of the machine, and with `_in` at the end
//! of its name for a byte order that is handed to it.

use crate::byte_order;
use crate::byte_order::{push_word, read_word, ByteOrder};
use crate::opcodes;
use crate::text;
use crate::text::{decode_lossy, encode_c_string, fit_text};
use vstd::prelude::*;
use vstd::utf8::*;

verus! {

/// The largest message, in bytes.
pub const MAX_MESSAGE_SIZE: usize = 4096;

/// The smallest message, in bytes: a header alone.
pub const MIN_MESSAGE_SIZE: usize = 8;

/// The longest interface name that a `bind` request may carry, in bytes.
pub const MAX_INTERFACE_LEN: usize = 256;

/// The longest app_id that a `set_app_id` request has room for, in bytes, without its NUL.
pub const MAX_APP_ID_LEN: usize = MAX_MESSAGE_SIZE - MIN_MESSAGE_SIZE - 4 - 1;

/// `n` rounded up to a multiple of 4.
pub open spec fn padded(n: int) -> int {
    (n + 3) / 4 * 4
}

/// The header at the front of `data`: object id, message size in bytes and opcode. There is
/// none where `data` is too short for a header or where the size is out of bounds.
///
/// ```text
/// object_id (4 bytes) | size (upper 16 bits), opcode (lower 16 bits)
/// ```
pub open spec fn message_header(order: ByteOrder, data: Seq<u8>) -> Option<(u32, usize, u16)> {
    let size_opcode = byte_order::word_at(order, data, 4);
    let size = (size_opcode / 0x1_0000) as usize;
    if data.len() < MIN_MESSAGE_SIZE || size < MIN_MESSAGE_SIZE || size > MAX_MESSAGE_SIZE {
        None
    } else {
        Some((byte_order::word_at(order, data, 0), size, (size_opcode % 0x1_0000) as u16))
    }
}

/// Reads the header at the front of `data`, in the byte order `order`.
pub fn parse_message_header_in(order: ByteOrder, data: &[u8]) -> (header: Option<
    (u32, usize, u16),
>)
    ensures
        header == message_header(order, data@),
{
    if data.len() < MIN_MESSAGE_SIZE {
        return None;
    }
    let object_id: u32 = read_word(order, data, 0);
    let size_opcode: u32 = read_word(order, data, 4);
    let msg_size: usize = (size_opcode >> 16) as usize;
    let opcode: u16 = (size_opcode & 0xFFFF) as u16;
    proof {
        assert(size_opcode >> 16 == size_opcode / 0x1_0000) by (bit_vector);
        assert(size_opcode & 0xFFFF == size_opcode % 0x1_0000) by (bit_vector);
    }
    if msg_size < MIN_MESSAGE_SIZE || msg_size > MAX_MESSAGE_SIZE {
        return None;
    }
    Some((object_id, msg_size, opcode))
}

/// Reads the header at the front of `data`, in the byte order of the machine.
pub fn parse_message_header(data: &[u8]) -> (header: Option<(u32, usize, u16)>)
    ensures
        exists|order: ByteOrder|
            {
                &&& byte_order::of_machine(order)
                &&& header == #[trigger] message_header(order, data@)
            },
{
    parse_message_header_in(ByteOrder::native(), data)
}

/// The length of the string argument at `offset` of `msg`, its NUL byte counted.
pub open spec fn string_len(order: ByteOrder, msg: Seq<u8>, offset: int) -> int {
    byte_order::word_at(order, msg, offset) as int
}

/// The bytes of the string argument at `offset` of `msg`, without the last one.
pub open spec fn string_bytes(order: ByteOrder, msg: Seq<u8>, offset: int) -> Seq<u8> {
    msg.subrange(offset + 4, offset + 4 + string_len(order, msg, offset) - 1)
}

/// The string argument at `offset` of `msg`. A length of zero is the empty string. There is
/// no string where `msg` ends before it does or where it is longer than a message may be.
pub open spec fn string_arg(order: ByteOrder, msg: Seq<u8>, offset: int) -> Option<Seq<char>> {
    let len = string_len(order, msg, offset);
    if msg.len() < offset + 4 {
        None
    } else if len == 0 {
        Some(Seq::<char>::empty())
    } else if len > MAX_MESSAGE_SIZE || msg.len() < offset + 4 + len {
        None
    } else {
        Some(text::lossy_text(string_bytes(order, msg, offset)))
    }
}

/// The characters of a string argument.
pub open spec fn text_view(arg: Option<String>) -> Option<Seq<char>> {
    match arg {
        Some(s) => Some(s@),
        None => None,
    }
}

/// Reads the string argument at `offset` of a message, in the byte order `order`.
pub fn parse_string_arg_in(order: ByteOrder, msg_data: &[u8], offset: usize) -> (arg: Option<
    String,
>)
    requires
        offset + 4 <= usize::MAX,
    ensures
        text_view(arg) == string_arg(order, msg_data@, offset as int),
{
    if msg_data.len() < offset + 4 {
        return None;
    }
    let word: u32 = read_word(order, msg_data, offset);
    let str_len: usize = word as usize;
    if str_len == 0 {
        return Some(String::new());
    }
    let start: usize = offset + 4;
    if str_len > MAX_MESSAGE_SIZE || msg_data.len() - start < str_len {
        return None;
    }
    Some(decode_lossy(vstd::slice::slice_subrange(msg_data, start, start + (str_len - 1))))
}

/// Reads the string argument at `offset` of a message, in the byte order of the machine.
pub fn parse_string_arg(msg_data: &[u8], offset: usize) -> (arg: Option<String>)
    requires
        offset + 4 <= usize::MAX,
    ensures
        exists|order: ByteOrder|
            {
                &&& byte_order::of_machine(order)
                &&& text_view(arg) == #[trigger] string_arg(order, msg_data@, offset as int)
            },
{
    parse_string_arg_in(ByteOrder::native(), msg_data, offset)
}

/// The interface of the objects that lead to a toplevel.
pub open spec fn xdg_wm_base() -> Seq<char> {
    "xdg_wm_base"@
}

/// The interface name and the new object id of a `wl_registry.bind` request. There is none
/// where the message is too short or where the length of the name is out of bounds.
///
/// ```text
/// header (8) | name (4) | length (4) | interface (padded) | version (4) | new_id (4)
/// ```
pub open spec fn bind_request(order: ByteOrder, msg: Seq<u8>) -> Option<(Seq<char>, u32)> {
    let len = string_len(order, msg, 12);
    if msg.len() < 28 || len == 0 || len > MAX_INTERFACE_LEN || msg.len() < 16 + padded(len) + 8 {
        None
    } else {
        Some(
            (
                text::lossy_text(string_bytes(order, msg, 12)),
                byte_order::word_at(order, msg, 16 + padded(len) + 4),
            ),
        )
    }
}

/// The characters of the interface name, and the new object id.
pub open spec fn bind_view(bind: Option<(String, u32)>) -> Option<(Seq<char>, u32)> {
    match bind {
        Some((interface, new_id)) => Some((interface@, new_id)),
        None => None,
    }
}

/// Whether the bytes of the interface name of a `bind` request are those of `xdg_wm_base`.
pub open spec fn binds_xdg_wm_base(order: ByteOrder, msg: Seq<u8>) -> bool {
    string_bytes(order, msg, 12) == encode_utf8(xdg_wm_base())
}

/// Reads a `wl_registry.bind` request, in the byte order `order`.
///
/// The name that comes out is `xdg_wm_base` for the bytes of that name and for no others:
/// no replacement of invalid bytes leads to it.
pub fn parse_bind_request_in(order: ByteOrder, msg_data: &[u8]) -> (bind: Option<(String, u32)>)
    ensures
        bind_view(bind) == bind_request(order, msg_data@),
        bind matches Some((interface, _)) ==> (interface@ == xdg_wm_base() <==> binds_xdg_wm_base(
            order,
            msg_data@,
        )),
{
    if msg_data.len() < 28 {
        return None;
    }
    let word: u32 = read_word(order, msg_data, 12);
    let str_len: usize = word as usize;
    if str_len == 0 || str_len > MAX_INTERFACE_LEN {
        return None;
    }
    let padded_len: usize = (str_len + 3) & !3usize;
    proof {
        assert((str_len + 3) as usize & !3usize == (str_len + 3) / 4 * 4) by (bit_vector)
            requires
                str_len <= 256,
        ;
    }
    let required_len: usize = 16 + padded_len + 8;
    if msg_data.len() < required_len {
        return None;
    }
    let interface_bytes: &[u8] = vstd::slice::slice_subrange(msg_data, 16, 16 + (str_len - 1));
    let interface: String = decode_lossy(interface_bytes);
    let new_id: u32 = read_word(order, msg_data, 16 + padded_len + 4);
    proof {
        let bytes = interface_bytes@;
        assert(bytes == string_bytes(order, msg_data@, 12));
        if valid_utf8(bytes) {
            decode_utf8_encode_utf8(bytes);
        } else {
            reveal_strlit("xdg_wm_base");
            encode_utf8_valid_utf8(xdg_wm_base());
        }
        encode_utf8_decode_utf8(xdg_wm_base());
    }
    Some((interface, new_id))
}

/// Reads a `wl_registry.bind` request, in the byte order of the machine.
pub fn parse_bind_request(msg_data: &[u8]) -> (bind: Option<(String, u32)>)
    ensures
        exists|order: ByteOrder|
            {
                &&& byte_order::of_machine(order)
                &&& bind_view(bind) == #[trigger] bind_request(order, msg_data@)
                &&& bind matches Some((interface, _)) ==> (interface@ == xdg_wm_base()
                    <==> binds_xdg_wm_base(order, msg_data@))
            },
{
    parse_bind_request_in(ByteOrder::native(), msg_data)
}

/// `n` zero bytes.
pub open spec fn zeros(n: int) -> Seq<u8> {
    if n <= 0 {
        Seq::empty()
    } else {
        Seq::new(n as nat, |i: int| 0u8)
    }
}

/// What a `set_app_id` request carries of `app_id`: all of it, or as many of its first
/// characters as there is room for.
pub open spec fn sent_app_id(app_id: Seq<char>) -> Seq<char> {
    text::fitting(app_id, MAX_APP_ID_LEN as nat)
}

/// The string of a `set_app_id` request.
pub open spec fn app_id_string(app_id: Seq<char>) -> Seq<u8> {
    text::c_string(sent_app_id(app_id))
}

/// The size of a `set_app_id` request, in bytes.
pub open spec fn set_app_id_size(app_id: Seq<char>) -> int {
    12 + padded(app_id_string(app_id).len() as int)
}

/// The `xdg_toplevel.set_app_id` request that gives `app_id` to `toplevel_id`. An app_id
/// that the largest message has no room for is cut at its end.
///
/// ```text
/// object_id (4) | size, opcode (4) | length (4) | string | padding (0 to 3)
/// ```
pub open spec fn set_app_id_message(order: ByteOrder, toplevel_id: u32, app_id: Seq<char>) -> Seq<
    u8,
> {
    let string = app_id_string(app_id);
    let size = set_app_id_size(app_id);
    let size_opcode = (size * 0x1_0000 + opcodes::XDG_TOPLEVEL_SET_APP_ID) as u32;
    byte_order::word_bytes(order, toplevel_id) + byte_order::word_bytes(order, size_opcode)
        + byte_order::word_bytes(order, string.len() as u32) + string + zeros(
        size - 12 - string.len(),
    )
}

/// A `set_app_id` request is as long as its size says, and never larger than a message may
/// be.
pub proof fn lemma_set_app_id_size(order: ByteOrder, toplevel_id: u32, app_id: Seq<char>)
    ensures
        0 < app_id_string(app_id).len() <= MAX_APP_ID_LEN + 1,
        12 + app_id_string(app_id).len() <= set_app_id_size(app_id) <= MAX_MESSAGE_SIZE,
        set_app_id_message(order, toplevel_id, app_id).len() == set_app_id_size(app_id),
{
    let string = app_id_string(app_id);
    let size = set_app_id_size(app_id);
    let size_opcode = (size * 0x1_0000 + opcodes::XDG_TOPLEVEL_SET_APP_ID) as u32;
    text::lemma_fitting(app_id, MAX_APP_ID_LEN as nat);
    text::lemma_c_string_len(sent_app_id(app_id));
    byte_order::law_word_reads_back(order, toplevel_id);
    byte_order::law_word_reads_back(order, size_opcode);
    byte_order::law_word_reads_back(order, string.len() as u32);
}

/// Builds the `xdg_toplevel.set_app_id` request that gives `app_id` to `toplevel_id`, in the
/// byte order `order`.
pub fn build_set_app_id_message_in(order: ByteOrder, toplevel_id: u32, app_id: &str) -> (msg: Vec<
    u8,
>)
    ensures
        msg@ == set_app_id_message(order, toplevel_id, app_id@),
        msg@.len() <= MAX_MESSAGE_SIZE,
{
    proof {
        lemma_set_app_id_size(order, toplevel_id, app_id@);
    }
    let str_bytes: Vec<u8> = encode_c_string(fit_text(app_id, MAX_APP_ID_LEN));
    let str_len: u32 = str_bytes.len() as u32;
    let padded_len: u32 = (str_len + 3) & !3u32;
    proof {
        assert((str_len + 3) as u32 & !3u32 == (str_len + 3) / 4 * 4) by (bit_vector)
            requires
                str_len <= 4084,
        ;
    }
    let msg_size: u32 = MIN_MESSAGE_SIZE as u32 + 4 + padded_len;
    let size_opcode: u32 = (msg_size << 16) | opcodes::XDG_TOPLEVEL_SET_APP_ID as u32;
    proof {
        assert((msg_size << 16) | 3u32 == msg_size * 0x1_0000 + 3) by (bit_vector)
            requires
                msg_size <= 4096,
        ;
        assert(msg_size == set_app_id_size(app_id@));
    }
    let mut msg: Vec<u8> = Vec::new();
    push_word(order, &mut msg, toplevel_id);
    push_word(order, &mut msg, size_opcode);
    push_word(order, &mut msg, str_len);
    msg.extend_from_slice(str_bytes.as_slice());
    let ghost head = msg@;
    proof {
        byte_order::law_word_reads_back(order, toplevel_id);
        byte_order::law_word_reads_back(order, size_opcode);
        byte_order::law_word_reads_back(order, str_len);
        assert(head =~= byte_order::word_bytes(order, toplevel_id) + byte_order::word_bytes(
            order,
            size_opcode,
        ) + byte_order::word_bytes(order, str_len) + app_id_string(app_id@));
        assert(head + zeros(0) =~= head);
    }
    while msg.len() < msg_size as usize
        invariant
            head.len() <= msg@.len() <= msg_size,
            msg@ == head + zeros(msg@.len() - head.len()),
        decreases msg_size - msg@.len(),
    {
        let ghost filled = msg@.len() - head.len();
        msg.push(0);
        proof {
            assert(zeros(filled + 1) =~= zeros(filled).push(0u8));
            assert(msg@ =~= head + zeros(filled + 1));
        }
    }
    msg
}

/// Builds the `xdg_toplevel.set_app_id` request that gives `app_id` to `toplevel_id`, in the
/// byte order of the machine.
pub fn build_set_app_id_message(toplevel_id: u32, app_id: &str) -> (msg: Vec<u8>)
    ensures
        exists|order: ByteOrder|
            {
                &&& byte_order::of_machine(order)
                &&& msg@ == #[trigger] set_app_id_message(order, toplevel_id, app_id@)
            },
        msg@.len() <= MAX_MESSAGE_SIZE,
{
    build_set_app_id_message_in(ByteOrder::native(), toplevel_id, app_id)
}

} // verus!
