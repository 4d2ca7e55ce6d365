//! What a poll does with whatever the two sockets deliver, in terms of bytes and file
//! descriptors.

use crate::byte_order;
use crate::byte_order::ByteOrder;
use crate::connection;
use crate::connection::{
    Action, ActionView, ConnectionState, Outcome, Packet, PacketView, Received, Sent,
    MAX_BUFFERED, MAX_FDS_PER_MESSAGE, SOCKET_BUFFER_SIZE,
};
use crate::request_laws;
use crate::text;
use crate::tracker::Objects;
use crate::wire;
use crate::wire::{MAX_APP_ID_LEN, MAX_INTERFACE_LEN, MAX_MESSAGE_SIZE, MIN_MESSAGE_SIZE};
use crate::wire_laws;
use vstd::prelude::*;
use vstd::utf8::*;

verus! {

/// The limits of messages and of what may wait.
pub proof fn law_limits()
    ensures
        MIN_MESSAGE_SIZE == 8,
        MAX_MESSAGE_SIZE == 4096,
        MAX_INTERFACE_LEN == 256,
        MAX_APP_ID_LEN == 4083,
        MAX_BUFFERED == 16384,
        MAX_FDS_PER_MESSAGE == 28,
        SOCKET_BUFFER_SIZE == 4096,
{
}

/// A packet and an action are what their fields say.
pub proof fn law_packets_and_actions(packet: Packet, outcome: Outcome)
    ensures
        packet@ == (PacketView { bytes: packet.bytes@, fds: packet.fds@ }),
        Action::ReceiveFromClient@ == ActionView::ReceiveFromClient,
        Action::ReceiveFromServer@ == ActionView::ReceiveFromServer,
        Action::SendToServer(packet)@ == ActionView::SendToServer(packet@),
        Action::SendToClient(packet)@ == ActionView::SendToClient(packet@),
        Action::Finished(outcome)@ == ActionView::Finished(outcome),
{
}

/// A new connection tracks nothing, and nothing waits.
pub proof fn law_new_connection(order: ByteOrder, prefix: Seq<char>, conn_id: u64)
    ensures
        ConnectionState::initial(order, prefix, conn_id) == (ConnectionState {
            order,
            prefix,
            conn_id,
            objects: Objects {
                registries: Seq::empty(),
                wm_bases: Seq::empty(),
                surfaces: Seq::empty(),
                toplevels: Seq::empty(),
            },
            client_buf: Seq::empty(),
            client_fds: Seq::empty(),
            server_fds: Seq::empty(),
            new_toplevel: None,
        }),
{
}

/// Whether `msg` is one whole message for `object_id`: its second word has its length in the
/// upper half and `opcode` in the lower half.
pub open spec fn is_message(order: ByteOrder, msg: Seq<u8>, object_id: u32, opcode: u16) -> bool {
    &&& 8 <= msg.len() <= 4096
    &&& byte_order::word_at(order, msg, 0) == object_id
    &&& byte_order::word_at(order, msg, 4) == msg.len() * 65536 + opcode
}

/// Whether no whole message stands at the front of `bytes`: they end before a header does,
/// the header states a size that no message has, or they end before the message does.
pub open spec fn has_no_message(order: ByteOrder, bytes: Seq<u8>) -> bool {
    let size = byte_order::word_at(order, bytes, 4) / 65536;
    bytes.len() < 8 || size < 8 || size > 4096 || size > bytes.len()
}

/// Whether `bytes` are what goes to the compositor for the message `msg`: the message itself,
/// or, if it is request 3 of a tracked toplevel, a `set_app_id` for the same toplevel that
/// reads as the prefix, a colon and what the message reads as.
pub open spec fn stands_for(
    state: ConnectionState,
    bytes: Seq<u8>,
    msg: Seq<u8>,
    object_id: u32,
    opcode: u16,
) -> bool {
    if opcode == 3 && state.objects.toplevels.contains(object_id) {
        let app_id = match wire::string_arg(state.order, msg, 8) {
            Some(app_id) => app_id,
            None => "<invalid>"@,
        };
        &&& is_message(state.order, bytes, object_id, 3)
        &&& wire::string_arg(state.order, bytes, 8) matches Some(read)
        &&& wire_laws::shows(read, state.prefix + seq![':'] + app_id)
    } else {
        bytes == msg
    }
}

/// The message at the front of the buffer is taken, whole and alone.
#[verifier::rlimit(30)]
proof fn lemma_message_taken(
    state: ConnectionState,
    msg: Seq<u8>,
    rest: Seq<u8>,
    object_id: u32,
    opcode: u16,
)
    requires
        state.client_buf == msg + rest,
        is_message(state.order, msg, object_id, opcode),
    ensures
        ({
            let (after, action) = state.next_message();
            let (order, objects) = (state.order, state.objects);
            &&& action matches ActionView::SendToServer(packet)
            &&& packet.fds == state.client_fds
            &&& stands_for(state, packet.bytes, msg, object_id, opcode)
            &&& after == ConnectionState {
                objects: connection::objects_after(order, objects, object_id, opcode, msg),
                client_buf: rest,
                client_fds: Seq::empty(),
                new_toplevel: connection::toplevel_made(order, objects, object_id, opcode, msg),
                ..state
            }
        }),
{
    let size = msg.len() as int;
    let buf = state.client_buf;
    let left = ConnectionState { client_buf: buf.skip(size), ..state };
    assert(buf.subrange(0, 4) =~= msg.subrange(0, 4));
    assert(buf.subrange(4, 8) =~= msg.subrange(4, 8));
    assert(buf.take(size) =~= msg);
    assert(buf.skip(size) =~= rest);
    assert(wire::message_header(state.order, buf) == Some((object_id, size as usize, opcode)));
    if opcode == 3 && state.objects.toplevels.contains(object_id) {
        let app_id = match wire::string_arg(state.order, msg, 8) {
            Some(app_id) => app_id,
            None => "<invalid>"@,
        };
        request_laws::law_app_id_prefixed(left, object_id, msg);
        wire_laws::law_set_app_id_bytes(
            state.order,
            object_id,
            state.prefix + seq![':'] + app_id,
        );
    } else {
        request_laws::law_request_forwarded(left, object_id, opcode, msg);
    }
}

/// If what waits and what is read from the client begin with a whole message, the message is
/// taken and what stands for it is written to the compositor. With it go all file
/// descriptors that waited and then those that were just read, and none of them waits
/// afterwards. What is behind the message waits.
pub proof fn law_message_read(
    state: ConnectionState,
    packet: Packet,
    msg: Seq<u8>,
    rest: Seq<u8>,
    object_id: u32,
    opcode: u16,
)
    requires
        packet.bytes@.len() > 0,
        state.client_buf + packet.bytes@ == msg + rest,
        state.client_buf.len() + packet.bytes@.len() <= 16384,
        is_message(state.order, msg, object_id, opcode),
    ensures
        ({
            let (after, action) = state.client_to_server(Received::Data(packet));
            let (order, objects) = (state.order, state.objects);
            &&& action matches ActionView::SendToServer(sent)
            &&& sent.fds == state.client_fds + packet.fds@
            &&& stands_for(state, sent.bytes, msg, object_id, opcode)
            &&& after == ConnectionState {
                objects: connection::objects_after(order, objects, object_id, opcode, msg),
                client_buf: rest,
                client_fds: Seq::empty(),
                new_toplevel: connection::toplevel_made(order, objects, object_id, opcode, msg),
                ..state
            }
        }),
{
    let buffered = ConnectionState {
        client_buf: state.client_buf + packet.bytes@,
        client_fds: state.client_fds + packet.fds@,
        ..state
    };
    lemma_message_taken(buffered, msg, rest, object_id, opcode);
}

/// Once a message is written, the next one that waits whole is taken, and what stands for it
/// is written to the compositor with all file descriptors that wait.
pub proof fn law_next_message_follows(
    state: ConnectionState,
    msg: Seq<u8>,
    rest: Seq<u8>,
    object_id: u32,
    opcode: u16,
)
    requires
        state.new_toplevel is None,
        state.client_buf == msg + rest,
        is_message(state.order, msg, object_id, opcode),
    ensures
        ({
            let (after, action) = state.server_sent(Sent::Done);
            let (order, objects) = (state.order, state.objects);
            &&& action matches ActionView::SendToServer(sent)
            &&& sent.fds == state.client_fds
            &&& stands_for(state, sent.bytes, msg, object_id, opcode)
            &&& after == ConnectionState {
                objects: connection::objects_after(order, objects, object_id, opcode, msg),
                client_buf: rest,
                client_fds: Seq::empty(),
                new_toplevel: connection::toplevel_made(order, objects, object_id, opcode, msg),
                ..state
            }
        }),
{
    assert(ConnectionState { new_toplevel: None, ..state } == state);
    lemma_message_taken(state, msg, rest, object_id, opcode);
}

/// If no whole message stands at the front, everything waits, bytes and file descriptors,
/// and it is the compositor's turn.
pub proof fn law_part_of_a_message_waits(state: ConnectionState, packet: Packet)
    requires
        packet.bytes@.len() > 0,
        state.client_buf.len() + packet.bytes@.len() <= 16384,
        has_no_message(state.order, state.client_buf + packet.bytes@),
    ensures
        state.client_to_server(Received::Data(packet)) == (
            ConnectionState {
                client_buf: state.client_buf + packet.bytes@,
                client_fds: state.client_fds + packet.fds@,
                ..state
            },
            ActionView::ReceiveFromServer,
        ),
{
}

/// Once a message is written and no other waits whole, it is the compositor's turn.
pub proof fn law_no_message_follows(state: ConnectionState)
    requires
        state.new_toplevel is None,
        has_no_message(state.order, state.client_buf),
    ensures
        state.server_sent(Sent::Done) == (state, ActionView::ReceiveFromServer),
{
}

/// Any bytes begin with a whole message or with none, and not with both.
pub proof fn law_message_or_none(order: ByteOrder, bytes: Seq<u8>, msg: Seq<u8>, rest: Seq<u8>)
    ensures
        !has_no_message(order, bytes) ==> {
            let size = byte_order::word_at(order, bytes, 4) / 65536;
            is_message(
                order,
                bytes.take(size as int),
                byte_order::word_at(order, bytes, 0),
                (byte_order::word_at(order, bytes, 4) % 65536) as u16,
            )
        },
        bytes == msg + rest && is_message(
            order,
            msg,
            byte_order::word_at(order, msg, 0),
            (byte_order::word_at(order, msg, 4) % 65536) as u16,
        ) ==> !has_no_message(order, bytes),
{
    let size = byte_order::word_at(order, bytes, 4) / 65536;
    if !has_no_message(order, bytes) {
        let front = bytes.take(size as int);
        assert(front.subrange(0, 4) =~= bytes.subrange(0, 4));
        assert(front.subrange(4, 8) =~= bytes.subrange(4, 8));
    }
    if bytes == msg + rest && msg.len() >= 8 {
        assert(bytes.subrange(4, 8) =~= msg.subrange(4, 8));
    }
}

/// Once the request that made a toplevel is written, the next thing that is written is a
/// `set_app_id` for that toplevel which reads as the prefix and `:unknown`, as far as there
/// is room. No file descriptor goes with it, and nothing else changes.
pub proof fn law_new_toplevel_is_named(state: ConnectionState, toplevel_id: u32)
    requires
        state.new_toplevel == Some(toplevel_id),
    ensures
        ({
            let (after, action) = state.server_sent(Sent::Done);
            &&& action matches ActionView::SendToServer(sent)
            &&& is_message(state.order, sent.bytes, toplevel_id, 3)
            &&& wire::string_arg(state.order, sent.bytes, 8) matches Some(read)
            &&& wire_laws::shows(read, state.prefix + seq![':'] + "unknown"@)
            &&& sent.bytes == wire::set_app_id_message(
                state.order,
                toplevel_id,
                state.prefix + seq![':'] + "unknown"@,
            )
            &&& sent.fds == Seq::<i32>::empty()
            &&& after == ConnectionState { new_toplevel: None, ..state }
        }),
{
    wire_laws::law_set_app_id_bytes(
        state.order,
        toplevel_id,
        state.prefix + seq![':'] + "unknown"@,
    );
}

/// A request that makes a toplevel goes out as it stands, with all file descriptors, and
/// right behind it the `set_app_id` that names the toplevel, which is tracked.
pub proof fn law_get_toplevel_is_followed_by_app_id(
    state: ConnectionState,
    packet: Packet,
    msg: Seq<u8>,
    rest: Seq<u8>,
    surface: u32,
)
    requires
        packet.bytes@.len() > 0,
        state.client_buf + packet.bytes@ == msg + rest,
        state.client_buf.len() + packet.bytes@.len() <= 16384,
        is_message(state.order, msg, surface, 1),
        state.objects.surfaces.contains(surface),
        surface != 1,
        msg.len() >= 12,
        byte_order::word_at(state.order, msg, 8) != 0,
    ensures
        ({
            let toplevel_id = byte_order::word_at(state.order, msg, 8);
            let (after, action) = state.client_to_server(Received::Data(packet));
            let (last, next) = after.server_sent(Sent::Done);
            &&& action == ActionView::SendToServer(
                PacketView { bytes: msg, fds: state.client_fds + packet.fds@ },
            )
            &&& next matches ActionView::SendToServer(sent)
            &&& is_message(state.order, sent.bytes, toplevel_id, 3)
            &&& wire::string_arg(state.order, sent.bytes, 8) matches Some(read)
            &&& wire_laws::shows(read, state.prefix + seq![':'] + "unknown"@)
            &&& last.objects.toplevels == state.objects.toplevels.push(toplevel_id)
            &&& last.client_buf == rest
        }),
{
    let (after, action) = state.client_to_server(Received::Data(packet));
    let toplevel_id = byte_order::word_at(state.order, msg, 8);
    law_message_read(state, packet, msg, rest, surface, 1);
    request_laws::law_get_toplevel(state.order, state.objects, surface, msg);
    law_new_toplevel_is_named(after, toplevel_id);
}

/// A write to the compositor that is not done ends the work on the client's bytes: what
/// waits goes on to wait, and nothing more is written to the compositor.
pub proof fn law_write_not_done(state: ConnectionState)
    ensures
        state.server_sent(Sent::WouldBlock) == (
            ConnectionState { new_toplevel: None, ..state },
            ActionView::ReceiveFromServer,
        ),
        state.server_sent(Sent::Failed) == (
            ConnectionState { new_toplevel: None, ..state },
            ActionView::Finished(Outcome::Failed),
        ),
{
}

/// If nothing can be read from the client, nothing changes. If the client closed its socket,
/// or more than 16384 bytes would wait, the connection is to be closed, and the file
/// descriptors are kept for the owner.
pub proof fn law_nothing_taken(state: ConnectionState, packet: Packet)
    ensures
        state.client_to_server(Received::WouldBlock) == (state, ActionView::ReceiveFromServer),
        state.client_to_server(Received::Failed) == (
            state,
            ActionView::Finished(Outcome::Failed),
        ),
        packet.bytes@.len() == 0 || state.client_buf.len() + packet.bytes@.len() > 16384
            ==> state.client_to_server(Received::Data(packet)) == (
            ConnectionState {
                client_buf: state.client_buf + packet.bytes@,
                client_fds: state.client_fds + packet.fds@,
                ..state
            },
            ActionView::Finished(Outcome::Closed),
        ),
{
}

/// What is read from the compositor is written to the client at once, byte for byte, with
/// all file descriptors that waited and then those that were just read, and none of them
/// waits afterwards. Nothing of the client's is touched.
pub proof fn law_server_packet_forwarded(state: ConnectionState, packet: Packet)
    ensures
        packet.bytes@.len() > 0 ==> state.server_to_client(Received::Data(packet)) == (
            ConnectionState { server_fds: Seq::empty(), ..state },
            ActionView::SendToClient(
                PacketView { bytes: packet.bytes@, fds: state.server_fds + packet.fds@ },
            ),
        ),
        packet.bytes@.len() == 0 ==> state.server_to_client(Received::Data(packet)) == (
            ConnectionState { server_fds: state.server_fds + packet.fds@, ..state },
            ActionView::Finished(Outcome::Closed),
        ),
        state.server_to_client(Received::WouldBlock) == (
            state,
            ActionView::Finished(Outcome::Keep),
        ),
        state.server_to_client(Received::Failed) == (
            state,
            ActionView::Finished(Outcome::Failed),
        ),
{
}

/// A write to the client ends the poll and changes nothing. The connection is kept unless the
/// write failed.
pub proof fn law_client_write_ends_poll(state: ConnectionState)
    ensures
        state.client_sent(Sent::Done) == (state, ActionView::Finished(Outcome::Keep)),
        state.client_sent(Sent::WouldBlock) == (state, ActionView::Finished(Outcome::Keep)),
        state.client_sent(Sent::Failed) == (state, ActionView::Finished(Outcome::Failed)),
{
}

/// Two windows and more: a `set_app_id` for any tracked toplevel, at whatever place among
/// them, goes out with the prefix and a colon at the front of what it reads as, if there is
/// room for them.
pub proof fn law_every_toplevel_is_enforced(
    state: ConnectionState,
    packet: Packet,
    msg: Seq<u8>,
    rest: Seq<u8>,
    i: int,
)
    requires
        0 <= i < state.objects.toplevels.len(),
        packet.bytes@.len() > 0,
        state.client_buf + packet.bytes@ == msg + rest,
        state.client_buf.len() + packet.bytes@.len() <= 16384,
        is_message(state.order, msg, state.objects.toplevels[i], 3),
        !state.prefix.contains('\0'),
        encode_utf8(state.prefix + seq![':']).len() <= 4083,
    ensures
        ({
            let (_, action) = state.client_to_server(Received::Data(packet));
            &&& action matches ActionView::SendToServer(sent)
            &&& is_message(state.order, sent.bytes, state.objects.toplevels[i], 3)
            &&& wire::string_arg(state.order, sent.bytes, 8) matches Some(read)
            &&& (state.prefix + seq![':']).is_prefix_of(read)
        }),
{
    let object_id = state.objects.toplevels[i];
    let front = state.prefix + seq![':'];
    let app_id = match wire::string_arg(state.order, msg, 8) {
        Some(app_id) => app_id,
        None => "<invalid>"@,
    };
    let full = front + app_id;
    let k = front.len() as int;
    assert(state.objects.toplevels.contains(object_id));
    law_message_read(state, packet, msg, rest, object_id, 3);
    let sent = state.client_to_server(Received::Data(packet)).1->SendToServer_0;
    let read = wire::string_arg(state.order, sent.bytes, 8)->0;
    let n = read.len() as int;
    if n < k {
        assert(front =~= full.take(n + 1) + front.skip(n + 1));
        text::lemma_encode_concat(full.take(n + 1), front.skip(n + 1));
    }
    assert forall|j: int| 0 <= j < k implies #[trigger] read[j] == front[j] by {
        if j < state.prefix.len() {
            assert(state.prefix.contains(state.prefix[j]));
        }
        assert(full[j] == front[j]);
    }
    assert(front =~= read.subrange(0, k));
}

} // verus!
