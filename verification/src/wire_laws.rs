//! What holds between writing a `set_app_id` request and reading it back.

use crate::byte_order;
use crate::byte_order::ByteOrder;
use crate::opcodes;
use crate::text;
use crate::wire;
use crate::wire::{MAX_APP_ID_LEN, MAX_MESSAGE_SIZE, MIN_MESSAGE_SIZE};
use vstd::prelude::*;
use vstd::utf8::*;

verus! {

/// The words at the front of a `set_app_id` request, and the string behind them.
pub proof fn lemma_set_app_id_fields(order: ByteOrder, toplevel_id: u32, app_id: Seq<char>)
    ensures
        ({
            let msg = wire::set_app_id_message(order, toplevel_id, app_id);
            let string = wire::app_id_string(app_id);
            &&& byte_order::word_at(order, msg, 0) == toplevel_id
            &&& byte_order::word_at(order, msg, 4) == wire::set_app_id_size(app_id) * 0x1_0000
                + opcodes::XDG_TOPLEVEL_SET_APP_ID
            &&& byte_order::word_at(order, msg, 8) == string.len()
            &&& msg.subrange(12, 12 + string.len() as int) == string
        }),
{
    let msg = wire::set_app_id_message(order, toplevel_id, app_id);
    let string = wire::app_id_string(app_id);
    let size = wire::set_app_id_size(app_id);
    let size_opcode = (size * 0x1_0000 + opcodes::XDG_TOPLEVEL_SET_APP_ID) as u32;
    let len = string.len() as u32;
    wire::lemma_set_app_id_size(order, toplevel_id, app_id);
    byte_order::law_word_reads_back(order, toplevel_id);
    byte_order::law_word_reads_back(order, size_opcode);
    byte_order::law_word_reads_back(order, len);
    assert(msg.subrange(0, 4) =~= byte_order::word_bytes(order, toplevel_id));
    assert(msg.subrange(4, 8) =~= byte_order::word_bytes(order, size_opcode));
    assert(msg.subrange(8, 12) =~= byte_order::word_bytes(order, len));
    assert(msg.subrange(12, 12 + string.len() as int) =~= string);
}

/// The two halves of the second word of a header.
proof fn lemma_size_opcode(size_opcode: u32, size: int, opcode: int)
    requires
        0 <= opcode < 0x1_0000,
        size_opcode == size * 0x1_0000 + opcode,
    ensures
        size_opcode / 0x1_0000 == size,
        size_opcode % 0x1_0000 == opcode,
{
}

/// A header with a size within bounds reads as what its two words say.
proof fn lemma_header_of_words(order: ByteOrder, msg: Seq<u8>, id: u32, size: int, opcode: u16)
    requires
        msg.len() >= MIN_MESSAGE_SIZE,
        MIN_MESSAGE_SIZE <= size <= MAX_MESSAGE_SIZE,
        byte_order::word_at(order, msg, 0) == id,
        byte_order::word_at(order, msg, 4) == size * 0x1_0000 + opcode,
    ensures
        wire::message_header(order, msg) == Some((id, size as usize, opcode)),
{
    lemma_size_opcode(byte_order::word_at(order, msg, 4), size, opcode as int);
}

/// A string argument reads as its length and its bytes say.
proof fn lemma_string_of_bytes(order: ByteOrder, msg: Seq<u8>, offset: int, string: Seq<u8>)
    requires
        0 <= offset,
        0 < string.len() <= MAX_MESSAGE_SIZE,
        msg.len() >= offset + 4 + string.len(),
        byte_order::word_at(order, msg, offset) == string.len(),
        msg.subrange(offset + 4, offset + 4 + string.len() as int) == string,
    ensures
        wire::string_arg(order, msg, offset) == Some(text::lossy_text(string.drop_last())),
{
    assert(wire::string_bytes(order, msg, offset) =~= string.drop_last());
}

/// The header of a `set_app_id` request reads back as the toplevel, the size of the request
/// and the opcode of `set_app_id`.
pub proof fn law_header_reads_back(order: ByteOrder, toplevel_id: u32, app_id: Seq<char>)
    ensures
        wire::message_header(order, wire::set_app_id_message(order, toplevel_id, app_id)) == Some(
            (
                toplevel_id,
                wire::set_app_id_size(app_id) as usize,
                opcodes::XDG_TOPLEVEL_SET_APP_ID,
            ),
        ),
{
    let msg = wire::set_app_id_message(order, toplevel_id, app_id);
    let size = wire::set_app_id_size(app_id);
    wire::lemma_set_app_id_size(order, toplevel_id, app_id);
    lemma_set_app_id_fields(order, toplevel_id, app_id);
    lemma_header_of_words(order, msg, toplevel_id, size, opcodes::XDG_TOPLEVEL_SET_APP_ID);
}

/// The string of a `set_app_id` request reads back as what the request carries of the text
/// that was written, with an underscore in place of each NUL.
pub proof fn law_app_id_reads_back(order: ByteOrder, toplevel_id: u32, app_id: Seq<char>)
    ensures
        wire::string_arg(
            order,
            wire::set_app_id_message(order, toplevel_id, app_id),
            MIN_MESSAGE_SIZE as int,
        ) == Some(text::without_nul(wire::sent_app_id(app_id))),
{
    let msg = wire::set_app_id_message(order, toplevel_id, app_id);
    let sent = text::without_nul(wire::sent_app_id(app_id));
    let string = wire::app_id_string(app_id);
    wire::lemma_set_app_id_size(order, toplevel_id, app_id);
    lemma_set_app_id_fields(order, toplevel_id, app_id);
    encode_utf8_valid_utf8(sent);
    encode_utf8_decode_utf8(sent);
    lemma_string_of_bytes(order, msg, 8, string);
    assert(string.drop_last() =~= encode_utf8(sent));
}

/// An app_id that there is room for is sent whole. Of any other, a request carries as many
/// of its first characters as there is room for, and not one more.
pub proof fn law_app_id_cut_only_for_room(app_id: Seq<char>, k: int)
    requires
        0 <= k <= app_id.len(),
    ensures
        encode_utf8(app_id).len() <= MAX_APP_ID_LEN ==> wire::sent_app_id(app_id) == app_id,
        encode_utf8(app_id.take(k)).len() <= MAX_APP_ID_LEN <==> k <= wire::sent_app_id(
            app_id,
        ).len(),
        wire::sent_app_id(app_id).len() <= app_id.len(),
        wire::sent_app_id(app_id) == app_id.take(wire::sent_app_id(app_id).len() as int),
{
    let n = wire::sent_app_id(app_id).len() as int;
    text::lemma_fitting(app_id, MAX_APP_ID_LEN as nat);
    if encode_utf8(app_id.take(k)).len() <= MAX_APP_ID_LEN {
        text::lemma_fitting_longest(app_id, MAX_APP_ID_LEN as nat, k);
    }
    if k <= n {
        assert(app_id.take(n) =~= app_id.take(k) + app_id.subrange(k, n));
        text::lemma_encode_concat(app_id.take(k), app_id.subrange(k, n));
    }
}

/// A message is never smaller than its header nor larger than a message may be.
pub proof fn law_message_size_bounded(order: ByteOrder, data: Seq<u8>)
    ensures
        wire::message_header(order, data) matches Some((_, size, _)) ==> MIN_MESSAGE_SIZE <= size
            <= MAX_MESSAGE_SIZE,
{
}

/// A text without NUL characters is sent as it stands.
pub proof fn law_text_without_nul_unchanged(text: Seq<char>)
    requires
        !text.contains('\0'),
    ensures
        text::without_nul(text) == text,
{
    assert forall|i: int| 0 <= i < text.len() implies #[trigger] text::sendable_char(text[i])
        == text[i] by {
        assert(text.contains(text[i]));
    }
    assert(text::without_nul(text) =~= text);
}

/// A `set_app_id` request is as long as its size says, a whole number of words, and never
/// larger than a message may be.
pub proof fn law_size_is_length(order: ByteOrder, toplevel_id: u32, app_id: Seq<char>)
    ensures
        wire::set_app_id_message(order, toplevel_id, app_id).len() == wire::set_app_id_size(app_id),
        wire::set_app_id_size(app_id) % 4 == 0,
        wire::set_app_id_size(app_id) <= MAX_MESSAGE_SIZE,
{
    wire::lemma_set_app_id_size(order, toplevel_id, app_id);
}

/// A header is read as the object, the size and the opcode that were written, if the size
/// is one from 8 to 4096 bytes, whatever follows. With any other size it is no header, and
/// neither are fewer than eight bytes.
pub proof fn law_header_as_written(
    order: ByteOrder,
    object_id: u32,
    size: u16,
    opcode: u16,
    rest: Seq<u8>,
    short: Seq<u8>,
)
    requires
        short.len() < 8,
    ensures
        wire::message_header(
            order,
            byte_order::word_bytes(order, object_id) + byte_order::word_bytes(
                order,
                (size * 65536 + opcode) as u32,
            ) + rest,
        ) == if 8 <= size <= 4096 {
            Some((object_id, size as usize, opcode))
        } else {
            None
        },
        wire::message_header(order, short) is None,
{
    let first = byte_order::word_bytes(order, object_id);
    let second = byte_order::word_bytes(order, (size * 65536 + opcode) as u32);
    let data = first + second + rest;
    byte_order::law_word_reads_back(order, object_id);
    byte_order::law_word_at_offset(order, Seq::empty(), object_id, second + rest);
    assert(Seq::<u8>::empty() + first + (second + rest) =~= data);
    byte_order::law_word_at_offset(order, first, (size * 65536 + opcode) as u32, rest);
    byte_order::law_word_reads_back(order, (size * 65536 + opcode) as u32);
    lemma_size_opcode(byte_order::word_at(order, data, 4), size as int, opcode as int);
}

/// A string argument is read as the bytes behind its length, all but the last of them: the
/// text that they encode, or what is made of them if they are no UTF-8. Neither what is in
/// front nor what follows has a part in it.
#[verifier::rlimit(30)]
pub proof fn law_string_as_written(
    order: ByteOrder,
    front: Seq<u8>,
    bytes: Seq<u8>,
    end: u8,
    rest: Seq<u8>,
)
    requires
        bytes.len() < 4096,
    ensures
        ({
            let length = byte_order::word_bytes(order, (bytes.len() + 1) as u32);
            let msg = front + length + bytes.push(end) + rest;
            let arg = wire::string_arg(order, msg, front.len() as int);
            &&& valid_utf8(bytes) ==> arg == Some(decode_utf8(bytes))
            &&& !valid_utf8(bytes) ==> arg == Some(text::replaced_text(bytes))
        }),
{
    let length = byte_order::word_bytes(order, (bytes.len() + 1) as u32);
    let string = bytes.push(end);
    let offset = front.len() as int;
    let msg = front + length + string + rest;
    byte_order::law_word_reads_back(order, (bytes.len() + 1) as u32);
    byte_order::law_word_at_offset(order, front, (bytes.len() + 1) as u32, string + rest);
    assert(front + length + (string + rest) =~= msg);
    assert(msg.subrange(offset + 4, offset + 4 + string.len() as int) =~= string);
    lemma_string_of_bytes(order, msg, offset, string);
    assert(string.drop_last() =~= bytes);
}

/// A text that is written as a string argument is read as that text.
pub proof fn law_text_as_written(
    order: ByteOrder,
    front: Seq<u8>,
    text: Seq<char>,
    end: u8,
    rest: Seq<u8>,
)
    requires
        encode_utf8(text).len() < 4096,
    ensures
        wire::string_arg(
            order,
            front + byte_order::word_bytes(order, (encode_utf8(text).len() + 1) as u32)
                + encode_utf8(text).push(end) + rest,
            front.len() as int,
        ) == Some(text),
{
    law_string_as_written(order, front, encode_utf8(text), end, rest);
    encode_utf8_valid_utf8(text);
    encode_utf8_decode_utf8(text);
}

/// A string argument of length zero is the empty text. One that is longer than 4096 bytes,
/// or longer than what follows its length, is none, and neither is one whose length is not
/// there.
pub proof fn law_string_lengths(
    order: ByteOrder,
    front: Seq<u8>,
    length: u32,
    rest: Seq<u8>,
    short: Seq<u8>,
)
    requires
        short.len() < front.len() + 4,
    ensures
        ({
            let msg = front + byte_order::word_bytes(order, length) + rest;
            let arg = wire::string_arg(order, msg, front.len() as int);
            &&& arg is None <==> length > 4096 || length > rest.len()
            &&& length == 0 ==> arg == Some(Seq::<char>::empty())
        }),
        wire::string_arg(order, short, front.len() as int) is None,
{
    byte_order::law_word_reads_back(order, length);
    byte_order::law_word_at_offset(order, front, length, rest);
}

/// The bytes of a `wl_registry.bind` request, with whatever header, name of the global and
/// padding.
pub open spec fn bind_bytes(
    order: ByteOrder,
    header: Seq<u8>,
    name: u32,
    interface: Seq<u8>,
    padding: Seq<u8>,
    version: u32,
    new_id: u32,
) -> Seq<u8> {
    header + byte_order::word_bytes(order, name) + byte_order::word_bytes(
        order,
        (interface.len() + 1) as u32,
    ) + interface + padding + byte_order::word_bytes(order, version) + byte_order::word_bytes(
        order,
        new_id,
    )
}

/// Where the fields of a `bind` request stand.
#[verifier::rlimit(30)]
proof fn lemma_bind_fields(
    order: ByteOrder,
    header: Seq<u8>,
    name: u32,
    interface: Seq<u8>,
    padding: Seq<u8>,
    version: u32,
    new_id: u32,
    rest: Seq<u8>,
)
    requires
        header.len() == 8,
        interface.len() <= 255,
    ensures
        ({
            let msg = bind_bytes(order, header, name, interface, padding, version, new_id) + rest;
            let end = 16 + interface.len() as int + padding.len();
            &&& msg.len() == end + 8 + rest.len()
            &&& byte_order::word_at(order, msg, 12) == interface.len() + 1
            &&& msg.subrange(16, 16 + interface.len() as int) == interface
            &&& byte_order::word_at(order, msg, end + 4) == new_id
        }),
{
    let n = byte_order::word_bytes(order, name);
    let l = byte_order::word_bytes(order, (interface.len() + 1) as u32);
    let v = byte_order::word_bytes(order, version);
    let i = byte_order::word_bytes(order, new_id);
    let msg = bind_bytes(order, header, name, interface, padding, version, new_id) + rest;
    byte_order::law_word_reads_back(order, name);
    byte_order::law_word_reads_back(order, (interface.len() + 1) as u32);
    byte_order::law_word_reads_back(order, version);
    byte_order::law_word_reads_back(order, new_id);
    let behind = interface + padding + v + i + rest;
    byte_order::law_word_at_offset(order, header + n, (interface.len() + 1) as u32, behind);
    assert(header + n + l + behind =~= msg);
    let before = header + n + l + interface + padding + v;
    byte_order::law_word_at_offset(order, before, new_id, rest);
    assert(before + i + rest =~= msg);
    assert(msg.subrange(16, 16 + interface.len() as int) =~= interface);
}

/// A `bind` request reads as its fields say.
proof fn lemma_bind_of_fields(
    order: ByteOrder,
    msg: Seq<u8>,
    interface: Seq<u8>,
    room: int,
    new_id: u32,
)
    requires
        interface.len() <= 255,
        interface.len() + 1 <= room < interface.len() + 5,
        room % 4 == 0,
        msg.len() >= 16 + room + 8,
        byte_order::word_at(order, msg, 12) == interface.len() + 1,
        msg.subrange(16, 16 + interface.len() as int) == interface,
        byte_order::word_at(order, msg, 16 + room + 4) == new_id,
    ensures
        wire::bind_request(order, msg) == Some((text::lossy_text(interface), new_id)),
{
    assert(wire::padded(wire::string_len(order, msg, 12)) == room);
    assert(wire::string_bytes(order, msg, 12) =~= interface);
}

/// A `bind` request is read as the interface and the new object that it names, whatever its
/// header, its global, its version, its padding and what follows.
#[verifier::rlimit(30)]
pub proof fn law_bind_as_written(
    order: ByteOrder,
    header: Seq<u8>,
    name: u32,
    interface: Seq<u8>,
    padding: Seq<u8>,
    version: u32,
    new_id: u32,
    rest: Seq<u8>,
)
    requires
        header.len() == 8,
        interface.len() <= 255,
        1 <= padding.len() <= 4,
        (interface.len() + padding.len()) % 4 == 0,
    ensures
        ({
            let msg = bind_bytes(order, header, name, interface, padding, version, new_id) + rest;
            &&& wire::bind_request(order, msg) matches Some((text, id))
            &&& id == new_id
            &&& valid_utf8(interface) ==> text == decode_utf8(interface)
            &&& !valid_utf8(interface) ==> text == text::replaced_text(interface)
        }),
{
    let msg = bind_bytes(order, header, name, interface, padding, version, new_id) + rest;
    lemma_bind_fields(order, header, name, interface, padding, version, new_id, rest);
    lemma_bind_of_fields(order, msg, interface, interface.len() + padding.len() as int, new_id);
}

/// A `bind` request with a text of up to 255 bytes for its interface is read as that text
/// and the new object.
pub proof fn law_bind_text_as_written(
    order: ByteOrder,
    header: Seq<u8>,
    name: u32,
    interface: Seq<char>,
    padding: Seq<u8>,
    version: u32,
    new_id: u32,
    rest: Seq<u8>,
)
    requires
        header.len() == 8,
        encode_utf8(interface).len() <= 255,
        1 <= padding.len() <= 4,
        (encode_utf8(interface).len() + padding.len()) % 4 == 0,
    ensures
        wire::bind_request(
            order,
            bind_bytes(
                order,
                header,
                name,
                encode_utf8(interface),
                padding,
                version,
                new_id,
            ) + rest,
        ) == Some((interface, new_id)),
{
    let bytes = encode_utf8(interface);
    law_bind_as_written(order, header, name, bytes, padding, version, new_id, rest);
    encode_utf8_valid_utf8(interface);
    encode_utf8_decode_utf8(interface);
}

/// A `bind` request is not read if its interface has no length or one of more than 256
/// bytes, or if the message ends before the interface, padded to `room` bytes, and two more
/// words. It is read otherwise. No message of fewer than 28 bytes is read.
pub proof fn law_bind_lengths(order: ByteOrder, msg: Seq<u8>, room: int, short: Seq<u8>)
    requires
        short.len() < 28,
        msg.len() >= 16,
        room % 4 == 0,
        byte_order::word_at(order, msg, 12) <= room < byte_order::word_at(order, msg, 12) + 4,
    ensures
        wire::bind_request(order, msg) is None <==> {
            ||| byte_order::word_at(order, msg, 12) == 0
            ||| byte_order::word_at(order, msg, 12) > 256
            ||| msg.len() < 16 + room + 8
        },
        wire::bind_request(order, short) is None,
{
    assert(wire::padded(wire::string_len(order, msg, 12)) == room);
}

/// Whether `read` is what a `set_app_id` request shows of `text`: as many of its first
/// characters as have room in 4083 bytes, with an underscore in place of each NUL.
pub open spec fn shows(read: Seq<char>, text: Seq<char>) -> bool {
    &&& read.len() <= text.len()
    &&& forall|i: int|
        0 <= i < read.len() ==> #[trigger] read[i] == if text[i] == '\0' {
            '_'
        } else {
            text[i]
        }
    &&& encode_utf8(text.take(read.len() as int)).len() <= 4083
    &&& read.len() < text.len() ==> encode_utf8(text.take(read.len() as int + 1)).len() > 4083
}

/// A text that has room is shown whole, and as it is if there is no NUL in it.
pub proof fn law_shows_all_that_has_room(read: Seq<char>, text: Seq<char>)
    requires
        shows(read, text),
        encode_utf8(text).len() <= 4083,
    ensures
        read.len() == text.len(),
        !text.contains('\0') ==> read == text,
{
    let k = read.len() as int;
    if k < text.len() {
        assert(text =~= text.take(k + 1) + text.skip(k + 1));
        text::lemma_encode_concat(text.take(k + 1), text.skip(k + 1));
    }
    if !text.contains('\0') {
        assert forall|i: int| 0 <= i < text.len() implies #[trigger] read[i] == text[i] by {
            assert(text.contains(text[i]));
        }
        assert(read =~= text);
    }
}

/// A `set_app_id` request, byte for byte: the toplevel; its own size and the opcode 3; the
/// length of the string with its NUL; the UTF-8 encoding of what is shown of the app_id; and
/// NUL bytes up to the next whole word, at least one.
#[verifier::rlimit(30)]
pub proof fn law_set_app_id_bytes(order: ByteOrder, toplevel_id: u32, app_id: Seq<char>)
    ensures
        ({
            let msg = wire::set_app_id_message(order, toplevel_id, app_id);
            &&& wire::string_arg(order, msg, 8) matches Some(read)
            &&& shows(read, app_id)
            &&& msg.len() % 4 == 0
            &&& encode_utf8(read).len() + 13 <= msg.len() < encode_utf8(read).len() + 17
            &&& msg.len() <= 4096
            &&& byte_order::word_at(order, msg, 0) == toplevel_id
            &&& byte_order::word_at(order, msg, 4) == msg.len() * 65536 + 3
            &&& byte_order::word_at(order, msg, 8) == encode_utf8(read).len() + 1
            &&& msg.subrange(12, 12 + encode_utf8(read).len() as int) == encode_utf8(read)
            &&& forall|i: int|
                12 + encode_utf8(read).len() <= i < msg.len() ==> #[trigger] msg[i] == 0
        }),
{
    let msg = wire::set_app_id_message(order, toplevel_id, app_id);
    let sent = wire::sent_app_id(app_id);
    let read = text::without_nul(sent);
    let string = wire::app_id_string(app_id);
    let bytes = encode_utf8(read);
    let n = sent.len() as int;
    wire::lemma_set_app_id_size(order, toplevel_id, app_id);
    lemma_set_app_id_fields(order, toplevel_id, app_id);
    law_app_id_reads_back(order, toplevel_id, app_id);
    law_size_is_length(order, toplevel_id, app_id);
    law_app_id_cut_only_for_room(app_id, 0);
    law_app_id_cut_only_for_room(app_id, n);
    if n < app_id.len() {
        law_app_id_cut_only_for_room(app_id, n + 1);
    }
    assert(string == bytes.push(0u8));
    assert(msg.subrange(12, 12 + bytes.len() as int) =~= msg.subrange(
        12,
        12 + string.len() as int,
    ).take(bytes.len() as int));
    assert(msg.subrange(12, 12 + string.len() as int).take(bytes.len() as int) =~= bytes);
    assert forall|i: int| 12 + bytes.len() <= i < msg.len() implies #[trigger] msg[i] == 0 by {
        if i < 12 + string.len() {
            assert(msg[i] == msg.subrange(12, 12 + string.len() as int)[i - 12]);
        } else {
            lemma_padding_is_zero(order, toplevel_id, app_id, i);
        }
    }
}

/// What stands behind the string of a `set_app_id` request is zero.
proof fn lemma_padding_is_zero(order: ByteOrder, toplevel_id: u32, app_id: Seq<char>, i: int)
    requires
        12 + wire::app_id_string(app_id).len() <= i < wire::set_app_id_message(
            order,
            toplevel_id,
            app_id,
        ).len(),
    ensures
        wire::set_app_id_message(order, toplevel_id, app_id)[i] == 0,
{
    let size_opcode = (wire::set_app_id_size(app_id) * 0x1_0000
        + opcodes::XDG_TOPLEVEL_SET_APP_ID) as u32;
    byte_order::law_word_reads_back(order, toplevel_id);
    byte_order::law_word_reads_back(order, size_opcode);
    byte_order::law_word_reads_back(order, wire::app_id_string(app_id).len() as u32);
}

/// An optional string has the characters of the string, and is none if there is none.
pub proof fn law_optional_text(text: String, new_id: u32)
    ensures
        wire::text_view(Some(text)) == Some(text@),
        wire::text_view(None) is None,
        wire::bind_view(Some((text, new_id))) == Some((text@, new_id)),
        wire::bind_view(None) is None,
{
}

} // verus!
