//! What holds of a connection, whatever its two sockets deliver and in whatever order.

use crate::byte_order;
use crate::byte_order::ByteOrder;
use crate::connection;
use crate::connection::{
    ActionView, ConnectionState, Outcome, Packet, PacketView, Received, Sent, MAX_BUFFERED,
};
use crate::text;
use crate::tracker_laws;
use crate::wire;
use crate::wire::{MAX_APP_ID_LEN, MAX_MESSAGE_SIZE, MIN_MESSAGE_SIZE};
use crate::wire_laws;
use vstd::prelude::*;
use vstd::utf8::*;

verus! {

/// What can happen to a connection.
pub enum Input {
    /// A poll begins.
    Poll,
    /// The client's socket was read.
    FromClient(Received),
    /// The compositor's socket was written to.
    ToServer(Sent),
    /// The compositor's socket was read.
    FromServer(Received),
    /// The client's socket was written to.
    ToClient(Sent),
}

/// What `input` does to a connection, and the action that follows.
pub open spec fn step(state: ConnectionState, input: Input) -> (ConnectionState, ActionView) {
    match input {
        Input::Poll => (
            ConnectionState { new_toplevel: None, ..state },
            ActionView::ReceiveFromClient,
        ),
        Input::FromClient(received) => state.client_to_server(received),
        Input::ToServer(sent) => state.server_sent(sent),
        Input::FromServer(received) => state.server_to_client(received),
        Input::ToClient(sent) => state.client_sent(sent),
    }
}

/// The state after `inputs`.
pub open spec fn run(state: ConnectionState, inputs: Seq<Input>) -> ConnectionState
    decreases inputs.len(),
{
    if inputs.len() == 0 {
        state
    } else {
        step(run(state, inputs.drop_last()), inputs.last()).0
    }
}

/// The action after the last of `inputs`.
pub open spec fn last_action(state: ConnectionState, inputs: Seq<Input>) -> ActionView {
    step(run(state, inputs.drop_last()), inputs.last()).1
}

/// The object that the message `bytes` is for, by its first word.
pub open spec fn object_of(order: ByteOrder, bytes: Seq<u8>) -> u32 {
    byte_order::word_at(order, bytes, 0)
}

/// The opcode of the message `bytes`: the lower half of its second word, whatever size the
/// upper half states.
pub open spec fn opcode_of(order: ByteOrder, bytes: Seq<u8>) -> u16 {
    (byte_order::word_at(order, bytes, 4) % 0x1_0000) as u16
}

/// Whether `bytes` have a header and, if they are a `set_app_id` request for one of the
/// tracked toplevels, are the request that the proxy itself builds for an `app_id` with the
/// prefix in front.
pub open spec fn app_id_enforced(state: ConnectionState, bytes: Seq<u8>) -> bool {
    let object_id = object_of(state.order, bytes);
    &&& bytes.len() >= MIN_MESSAGE_SIZE
    &&& state.objects.sets_app_id(object_id, opcode_of(state.order, bytes)) ==> exists|
        app_id: Seq<char>,
    |
        bytes == #[trigger] wire::set_app_id_message(
            state.order,
            object_id,
            connection::prefixed(state.prefix, app_id),
        )
}

/// The header is in the first eight bytes, whatever stands behind them.
pub proof fn law_header_is_local(order: ByteOrder, data: Seq<u8>, more: Seq<u8>)
    requires
        data.len() >= MIN_MESSAGE_SIZE,
    ensures
        wire::message_header(order, data + more) == wire::message_header(order, data),
{
    assert((data + more).subrange(0, 4) =~= data.subrange(0, 4));
    assert((data + more).subrange(4, 8) =~= data.subrange(4, 8));
}

/// The first message of a buffer has the header of the buffer.
proof fn lemma_header_of_message(state: ConnectionState)
    ensures
        state.complete_message() matches Some((object_id, size, opcode)) ==> {
            &&& MIN_MESSAGE_SIZE <= size <= state.client_buf.len()
            &&& wire::message_header(state.order, state.client_buf.take(size as int)) == Some(
                (object_id, size, opcode),
            )
        },
{
    if let Some((object_id, size, opcode)) = state.complete_message() {
        let msg = state.client_buf.take(size as int);
        assert(msg + state.client_buf.skip(size as int) =~= state.client_buf);
        law_header_is_local(state.order, msg, state.client_buf.skip(size as int));
    }
}

/// A request that the proxy built for an `app_id` with the prefix in front is in order.
proof fn lemma_built_is_enforced(state: ConnectionState, object_id: u32, app_id: Seq<char>)
    ensures
        app_id_enforced(
            state,
            wire::set_app_id_message(
                state.order,
                object_id,
                connection::prefixed(state.prefix, app_id),
            ),
        ),
{
    let full = connection::prefixed(state.prefix, app_id);
    wire_laws::lemma_set_app_id_fields(state.order, object_id, full);
    wire::lemma_set_app_id_size(state.order, object_id, full);
}

/// What is written for the next message is in order.
proof fn lemma_next_message_enforced(state: ConnectionState)
    ensures
        state.next_message().1 matches ActionView::SendToServer(packet) ==> app_id_enforced(
            state.next_message().0,
            packet.bytes,
        ),
{
    lemma_header_of_message(state);
    if let Some((object_id, size, opcode)) = state.complete_message() {
        let msg = state.client_buf.take(size as int);
        let after = state.next_message().0;
        assert(after.order == state.order && after.prefix == state.prefix);
        match wire::string_arg(state.order, msg, MIN_MESSAGE_SIZE as int) {
            Some(app_id) => lemma_built_is_enforced(after, object_id, app_id),
            None => lemma_built_is_enforced(after, object_id, "<invalid>"@),
        }
    }
}

/// The `app_id` is enforced: no `set_app_id` for a toplevel that is tracked is written to
/// the compositor but one that the proxy built, with the prefix of the connection and a
/// colon at the front of its `app_id`.
pub proof fn law_app_id_enforced(state: ConnectionState, input: Input)
    ensures
        step(state, input).1 matches ActionView::SendToServer(packet) ==> app_id_enforced(
            step(state, input).0,
            packet.bytes,
        ),
{
    match input {
        Input::FromClient(Received::Data(packet)) => {
            lemma_next_message_enforced(
                ConnectionState {
                    client_buf: state.client_buf + packet@.bytes,
                    client_fds: state.client_fds + packet@.fds,
                    ..state
                },
            );
        },
        Input::ToServer(Sent::Done) => {
            match state.new_toplevel {
                Some(toplevel_id) => {
                    lemma_built_is_enforced(step(state, input).0, toplevel_id, "unknown"@);
                },
                None => {
                    lemma_next_message_enforced(ConnectionState { new_toplevel: None, ..state });
                },
            }
        },
        _ => {},
    }
}

/// Whoever reads a `set_app_id` request that the proxy built finds, at the front of the
/// `app_id`, the prefix and a colon, and behind them what there is room for of what the
/// proxy was asked for. This is stated of every prefix that there is room for.
pub proof fn law_reader_sees_prefix(
    order: ByteOrder,
    toplevel_id: u32,
    prefix: Seq<char>,
    app_id: Seq<char>,
)
    requires
        encode_utf8(prefix).len() + 1 <= MAX_APP_ID_LEN,
    ensures
        ({
            let whole = text::without_nul(prefix) + seq![':'] + text::without_nul(app_id);
            &&& wire::string_arg(
                order,
                wire::set_app_id_message(order, toplevel_id, connection::prefixed(prefix, app_id)),
                MIN_MESSAGE_SIZE as int,
            ) matches Some(read)
            &&& (text::without_nul(prefix) + seq![':']).is_prefix_of(read)
            &&& read.is_prefix_of(whole)
            &&& encode_utf8(connection::prefixed(prefix, app_id)).len() <= MAX_APP_ID_LEN
                ==> read == whole
        }),
{
    let full = connection::prefixed(prefix, app_id);
    let whole = text::without_nul(prefix) + seq![':'] + text::without_nul(app_id);
    let front = prefix + seq![':'];
    let k = front.len() as int;
    assert(seq![':'].drop_first() =~= Seq::<char>::empty());
    reveal_with_fuel(encode_utf8, 2);
    assert(encode_utf8(seq![':']).len() == 1);
    text::lemma_encode_concat(prefix, seq![':']);
    assert(full.take(k) =~= front);
    wire_laws::law_app_id_cut_only_for_room(full, k);
    wire_laws::law_app_id_reads_back(order, toplevel_id, full);
    let read = text::without_nul(wire::sent_app_id(full));
    let n = wire::sent_app_id(full).len() as int;
    assert(text::without_nul(full) =~= whole);
    assert(read =~= whole.subrange(0, n));
    assert(whole.subrange(0, n).subrange(0, k) =~= text::without_nul(prefix) + seq![':']);
    if encode_utf8(full).len() <= MAX_APP_ID_LEN {
        assert(read =~= whole);
    }
}

/// Whatever happens, each `set_app_id` for a tracked toplevel that is written to the
/// compositor reads there as an `app_id` with the prefix and a colon at its front, if there
/// is room for a prefix of that length.
pub proof fn law_compositor_sees_prefix(state: ConnectionState, input: Input)
    requires
        encode_utf8(state.prefix).len() + 1 <= MAX_APP_ID_LEN,
    ensures
        step(state, input).1 matches ActionView::SendToServer(packet)
            ==> step(state, input).0.objects.sets_app_id(
            object_of(state.order, packet.bytes),
            opcode_of(state.order, packet.bytes),
        ) ==> {
            &&& wire::string_arg(state.order, packet.bytes, MIN_MESSAGE_SIZE as int) matches Some(
                read,
            )
            &&& (text::without_nul(state.prefix) + seq![':']).is_prefix_of(read)
        },
{
    let (after, action) = step(state, input);
    law_app_id_enforced(state, input);
    assert(after.order == state.order && after.prefix == state.prefix);
    if let ActionView::SendToServer(packet) = action {
        let object_id = object_of(state.order, packet.bytes);
        if after.objects.sets_app_id(object_id, opcode_of(state.order, packet.bytes)) {
            let app_id = choose|app_id: Seq<char>|
                packet.bytes == #[trigger] wire::set_app_id_message(
                    state.order,
                    object_id,
                    connection::prefixed(state.prefix, app_id),
                );
            law_reader_sees_prefix(state.order, object_id, state.prefix, app_id);
        }
    }
}

/// What stands for a client's message is no larger than a message may be, if the client's
/// message is not.
pub proof fn law_outgoing_bounded(
    state: ConnectionState,
    object_id: u32,
    opcode: u16,
    msg: Seq<u8>,
)
    requires
        msg.len() <= MAX_MESSAGE_SIZE,
    ensures
        state.outgoing(object_id, opcode, msg).bytes.len() <= MAX_MESSAGE_SIZE,
{
    wire::lemma_set_app_id_size(
        state.order,
        object_id,
        connection::enforced_app_id(state.order, state.prefix, msg),
    );
}

/// Whatever happens, no packet is written to the compositor that is larger than a message
/// may be, whether the client sent it or the proxy built it.
pub proof fn law_packets_bounded(state: ConnectionState, input: Input)
    ensures
        step(state, input).1 matches ActionView::SendToServer(packet) ==> MIN_MESSAGE_SIZE
            <= packet.bytes.len() <= MAX_MESSAGE_SIZE,
{
    law_app_id_enforced(state, input);
    law_written_for_taken(state, input);
    if let ActionView::SendToServer(packet) = step(state, input).1 {
        let msg = bytes_taken(state, input);
        if msg.len() == 0 {
            wire::lemma_set_app_id_size(
                state.order,
                state.new_toplevel->0,
                connection::initial_app_id(state.prefix),
            );
        } else {
            let (object_id, _, opcode) = wire::message_header(state.order, msg)->0;
            law_outgoing_bounded(state, object_id, opcode, msg);
        }
    }
}

/// Any request but a `set_app_id` for a tracked toplevel is written to the compositor as the
/// client sent it.
pub proof fn law_other_requests_unchanged(
    state: ConnectionState,
    object_id: u32,
    opcode: u16,
    msg: Seq<u8>,
)
    requires
        !state.objects.sets_app_id(object_id, opcode),
    ensures
        state.outgoing(object_id, opcode, msg).bytes == msg,
        !state.after_message(object_id, opcode, msg).objects.sets_app_id(object_id, opcode),
{
    tracker_laws::law_destroy_forgets(state.objects, object_id, opcode);
}

/// A `set_app_id` for a tracked toplevel is written to the compositor with the prefix in
/// front of the `app_id`, as often as the client sends one.
pub proof fn law_set_app_id_replaced(
    state: ConnectionState,
    object_id: u32,
    opcode: u16,
    msg: Seq<u8>,
)
    requires
        state.objects.sets_app_id(object_id, opcode),
    ensures
        state.outgoing(object_id, opcode, msg).bytes == wire::set_app_id_message(
            state.order,
            object_id,
            connection::enforced_app_id(state.order, state.prefix, msg),
        ),
        state.after_message(object_id, opcode, msg).objects == state.objects,
{
}

/// The messages of a client are taken in the order of its bytes, and none of the bytes is
/// lost: what was buffered is the message that is taken and what stays buffered.
pub proof fn law_messages_in_order(state: ConnectionState)
    ensures
        match state.complete_message() {
            Some((object_id, size, opcode)) => {
                let msg = state.client_buf.take(size as int);
                &&& msg.len() == size
                &&& wire::message_header(state.order, msg) == Some((object_id, size, opcode))
                &&& state.client_buf == msg + state.next_message().0.client_buf
            },
            None => state.next_message().0 == state,
        },
{
    lemma_header_of_message(state);
    if let Some((_, size, _)) = state.complete_message() {
        assert(state.client_buf =~= state.client_buf.take(size as int) + state.client_buf.skip(
            size as int,
        ));
    }
}

/// A new toplevel gets an `app_id` at once: the request that makes it is written as it
/// stands, the toplevel is tracked, and once the write is done the next thing that is
/// written is a `set_app_id` for it, with the prefix in front and no file descriptors.
pub proof fn law_new_toplevel_gets_app_id(
    state: ConnectionState,
    object_id: u32,
    opcode: u16,
    msg: Seq<u8>,
)
    ensures
        connection::toplevel_made(state.order, state.objects, object_id, opcode, msg) matches Some(
            toplevel_id,
        ) ==> {
            let after = state.after_message(object_id, opcode, msg);
            &&& toplevel_id != 0
            &&& state.outgoing(object_id, opcode, msg).bytes == msg
            &&& after.objects.toplevels.contains(toplevel_id)
            &&& after.server_sent(Sent::Done).1 == ActionView::SendToServer(
                PacketView {
                    bytes: wire::set_app_id_message(
                        state.order,
                        toplevel_id,
                        connection::initial_app_id(state.prefix),
                    ),
                    fds: Seq::empty(),
                },
            )
        },
{
    let before = state.objects.with_destroy(object_id, opcode);
    let new_id = connection::first_new_id(state.order, msg);
    if connection::toplevel_made(state.order, state.objects, object_id, opcode, msg) is Some {
        let toplevels = before.toplevels.push(new_id);
        assert(toplevels.last() == new_id);
        assert(toplevels.contains(new_id));
    }
}

/// The buffer is bounded: after any input that does not close the connection, no more bytes
/// wait than may.
pub proof fn law_buffer_bounded(state: ConnectionState, input: Input)
    requires
        state.client_buf.len() <= MAX_BUFFERED,
    ensures
        step(state, input).1 == ActionView::Finished(Outcome::Closed) || step(
            state,
            input,
        ).0.client_buf.len() <= MAX_BUFFERED,
{
}

/// A poll ends with the connection to be closed for these reasons and for no others: a side
/// closed its socket, or too many bytes wait.
pub proof fn law_close_reasons(state: ConnectionState, input: Input)
    ensures
        step(state, input).1 == ActionView::Finished(Outcome::Closed) <==> match input {
            Input::FromClient(Received::Data(packet)) => packet@.bytes.len() == 0
                || state.client_buf.len() + packet@.bytes.len() > MAX_BUFFERED,
            Input::FromServer(Received::Data(packet)) => packet@.bytes.len() == 0,
            _ => false,
        },
{
}

/// A poll fails if and only if a socket failed.
pub proof fn law_failure_reasons(state: ConnectionState, input: Input)
    ensures
        step(state, input).1 == ActionView::Finished(Outcome::Failed) <==> match input {
            Input::Poll => false,
            Input::FromClient(received) => received is Failed,
            Input::FromServer(received) => received is Failed,
            Input::ToServer(sent) => sent is Failed,
            Input::ToClient(sent) => sent is Failed,
        },
{
}

/// A poll ends with the connection still active once there is nothing to read from the
/// compositor or what was read is with the client, or the client does not take it at present.
pub proof fn law_keep_reasons(state: ConnectionState, input: Input)
    ensures
        step(state, input).1 == ActionView::Finished(Outcome::Keep) <==> match input {
            Input::FromServer(received) => received is WouldBlock,
            Input::ToClient(sent) => !(sent is Failed),
            _ => false,
        },
{
}

/// Nothing behind a malformed header is ever written to the compositor, whatever else the
/// client sends.
pub proof fn law_malformed_header_stalls(state: ConnectionState, input: Input)
    requires
        state.client_buf.len() >= MIN_MESSAGE_SIZE,
        wire::message_header(state.order, state.client_buf) is None,
        state.new_toplevel is None,
    ensures
        !(step(state, input).1 is SendToServer),
        step(state, input).0.client_buf.len() >= MIN_MESSAGE_SIZE,
        wire::message_header(state.order, step(state, input).0.client_buf) is None,
        step(state, input).0.new_toplevel is None,
{
    if let Input::FromClient(Received::Data(packet)) = input {
        law_header_is_local(state.order, state.client_buf, packet@.bytes);
    }
}

/// Whatever happens to a connection, its byte order, its prefix and its number stay.
pub proof fn law_identity_constant(state: ConnectionState, inputs: Seq<Input>)
    ensures
        run(state, inputs).order == state.order,
        run(state, inputs).prefix == state.prefix,
        run(state, inputs).conn_id == state.conn_id,
    decreases inputs.len(),
{
    if inputs.len() > 0 {
        law_identity_constant(state, inputs.drop_last());
    }
}

/// Whatever a client sends, the ids of its tracked objects are other than 0.
pub proof fn law_objects_stay_valid(state: ConnectionState, inputs: Seq<Input>)
    requires
        state.objects.valid(),
    ensures
        run(state, inputs).objects.valid(),
    decreases inputs.len(),
{
    if inputs.len() > 0 {
        law_objects_stay_valid(state, inputs.drop_last());
        lemma_step_objects_valid(run(state, inputs.drop_last()), inputs.last());
    }
}

proof fn lemma_step_objects_valid(state: ConnectionState, input: Input)
    requires
        state.objects.valid(),
    ensures
        step(state, input).0.objects.valid(),
{
    match input {
        Input::FromClient(Received::Data(packet)) => {
            lemma_next_message_objects_valid(
                ConnectionState {
                    client_buf: state.client_buf + packet@.bytes,
                    client_fds: state.client_fds + packet@.fds,
                    ..state
                },
            );
        },
        Input::ToServer(Sent::Done) => {
            lemma_next_message_objects_valid(ConnectionState { new_toplevel: None, ..state });
        },
        _ => {},
    }
}

proof fn lemma_next_message_objects_valid(state: ConnectionState)
    requires
        state.objects.valid(),
    ensures
        state.next_message().0.objects.valid(),
{
    if let Some((object_id, size, opcode)) = state.complete_message() {
        let msg = state.client_buf.take(size as int);
        let objects = state.objects.with_destroy(object_id, opcode);
        let new_id = connection::first_new_id(state.order, msg);
        tracker_laws::law_ids_not_zero(state.objects, object_id, opcode, Seq::empty(), new_id);
        tracker_laws::law_ids_not_zero(objects, object_id, opcode, Seq::empty(), new_id);
        if let Some((interface, bound_id)) = wire::bind_request(state.order, msg) {
            tracker_laws::law_ids_not_zero(objects, object_id, opcode, interface, bound_id);
        }
    }
}

/// The file descriptors that came with `input` from the client.
pub open spec fn fds_from_client(input: Input) -> Seq<i32> {
    match input {
        Input::FromClient(Received::Data(packet)) => packet@.fds,
        _ => Seq::empty(),
    }
}

/// The file descriptors that came with `input` from the compositor.
pub open spec fn fds_from_server(input: Input) -> Seq<i32> {
    match input {
        Input::FromServer(Received::Data(packet)) => packet@.fds,
        _ => Seq::empty(),
    }
}

/// The file descriptors that `action` sends to the compositor.
pub open spec fn fds_to_server(action: ActionView) -> Seq<i32> {
    match action {
        ActionView::SendToServer(packet) => packet.fds,
        _ => Seq::empty(),
    }
}

/// The file descriptors that `action` sends to the client.
pub open spec fn fds_to_client(action: ActionView) -> Seq<i32> {
    match action {
        ActionView::SendToClient(packet) => packet.fds,
        _ => Seq::empty(),
    }
}

/// All file descriptors that came from the client.
pub open spec fn all_fds_from_client(inputs: Seq<Input>) -> Seq<i32>
    decreases inputs.len(),
{
    if inputs.len() == 0 {
        Seq::empty()
    } else {
        all_fds_from_client(inputs.drop_last()) + fds_from_client(inputs.last())
    }
}

/// All file descriptors that came from the compositor.
pub open spec fn all_fds_from_server(inputs: Seq<Input>) -> Seq<i32>
    decreases inputs.len(),
{
    if inputs.len() == 0 {
        Seq::empty()
    } else {
        all_fds_from_server(inputs.drop_last()) + fds_from_server(inputs.last())
    }
}

/// All file descriptors that were sent to the compositor.
pub open spec fn all_fds_to_server(state: ConnectionState, inputs: Seq<Input>) -> Seq<i32>
    decreases inputs.len(),
{
    if inputs.len() == 0 {
        Seq::empty()
    } else {
        all_fds_to_server(state, inputs.drop_last()) + fds_to_server(last_action(state, inputs))
    }
}

/// All file descriptors that were sent to the client.
pub open spec fn all_fds_to_client(state: ConnectionState, inputs: Seq<Input>) -> Seq<i32>
    decreases inputs.len(),
{
    if inputs.len() == 0 {
        Seq::empty()
    } else {
        all_fds_to_client(state, inputs.drop_last()) + fds_to_client(last_action(state, inputs))
    }
}

/// File descriptors are passed along, each once, in order and to the right side: those that
/// waited and those that came in are those that were sent and those that wait.
pub proof fn law_fds_passed_along(state: ConnectionState, inputs: Seq<Input>)
    ensures
        state.client_fds + all_fds_from_client(inputs) == all_fds_to_server(state, inputs) + run(
            state,
            inputs,
        ).client_fds,
        state.server_fds + all_fds_from_server(inputs) == all_fds_to_client(state, inputs) + run(
            state,
            inputs,
        ).server_fds,
    decreases inputs.len(),
{
    if inputs.len() > 0 {
        let before = run(state, inputs.drop_last());
        let input = inputs.last();
        law_fds_passed_along(state, inputs.drop_last());
        lemma_step_passes_fds(before, input);
        let (after, action) = step(before, input);
        lemma_chain(
            state.client_fds,
            all_fds_from_client(inputs.drop_last()),
            all_fds_to_server(state, inputs.drop_last()),
            before.client_fds,
            fds_from_client(input),
            fds_to_server(action),
            after.client_fds,
        );
        lemma_chain(
            state.server_fds,
            all_fds_from_server(inputs.drop_last()),
            all_fds_to_client(state, inputs.drop_last()),
            before.server_fds,
            fds_from_server(input),
            fds_to_client(action),
            after.server_fds,
        );
    } else {
        assert(state.client_fds + Seq::<i32>::empty() =~= Seq::<i32>::empty() + state.client_fds);
        assert(state.server_fds + Seq::<i32>::empty() =~= Seq::<i32>::empty() + state.server_fds);
    }
}

/// What comes in and goes out over many steps, and then over one more.
proof fn lemma_chain<T>(
    first: Seq<T>,
    came: Seq<T>,
    went: Seq<T>,
    waits: Seq<T>,
    comes: Seq<T>,
    goes: Seq<T>,
    last: Seq<T>,
)
    requires
        first + came == went + waits,
        waits + comes == goes + last,
    ensures
        first + (came + comes) == (went + goes) + last,
{
    assert(first + (came + comes) =~= (first + came) + comes);
    assert((went + waits) + comes =~= went + (waits + comes));
    assert(went + (goes + last) =~= (went + goes) + last);
}

proof fn lemma_step_passes_fds(state: ConnectionState, input: Input)
    ensures
        state.client_fds + fds_from_client(input) == fds_to_server(step(state, input).1) + step(
            state,
            input,
        ).0.client_fds,
        state.server_fds + fds_from_server(input) == fds_to_client(step(state, input).1) + step(
            state,
            input,
        ).0.server_fds,
{
    let (after, action) = step(state, input);
    assert(state.client_fds + fds_from_client(input) =~= fds_to_server(action) + after.client_fds);
    assert(state.server_fds + fds_from_server(input) =~= fds_to_client(action) + after.server_fds);
}

/// All bytes that came from the compositor.
pub open spec fn all_bytes_from_server(inputs: Seq<Input>) -> Seq<u8>
    decreases inputs.len(),
{
    if inputs.len() == 0 {
        Seq::empty()
    } else {
        all_bytes_from_server(inputs.drop_last()) + match inputs.last() {
            Input::FromServer(Received::Data(packet)) => packet@.bytes,
            _ => Seq::empty(),
        }
    }
}

/// All bytes that were sent to the client.
pub open spec fn all_bytes_to_client(state: ConnectionState, inputs: Seq<Input>) -> Seq<u8>
    decreases inputs.len(),
{
    if inputs.len() == 0 {
        Seq::empty()
    } else {
        all_bytes_to_client(state, inputs.drop_last()) + match last_action(state, inputs) {
            ActionView::SendToClient(packet) => packet.bytes,
            _ => Seq::empty(),
        }
    }
}

/// The client is sent what the compositor sent, byte for byte.
pub proof fn law_server_bytes_unchanged(state: ConnectionState, inputs: Seq<Input>)
    ensures
        all_bytes_to_client(state, inputs) == all_bytes_from_server(inputs),
    decreases inputs.len(),
{
    if inputs.len() > 0 {
        law_server_bytes_unchanged(state, inputs.drop_last());
        if let Input::FromServer(Received::Data(packet)) = inputs.last() {
            if packet@.bytes.len() == 0 {
                assert(packet@.bytes =~= Seq::<u8>::empty());
            }
        }
    }
}

/// The bytes that came with `input` from the client.
pub open spec fn bytes_from_client(input: Input) -> Seq<u8> {
    match input {
        Input::FromClient(Received::Data(packet)) => packet@.bytes,
        _ => Seq::empty(),
    }
}

/// What `input` takes from the front of the client's bytes.
pub open spec fn bytes_taken(state: ConnectionState, input: Input) -> Seq<u8> {
    let bytes = state.client_buf + bytes_from_client(input);
    bytes.take(bytes.len() - step(state, input).0.client_buf.len())
}

/// All bytes that came from the client.
pub open spec fn all_bytes_from_client(inputs: Seq<Input>) -> Seq<u8>
    decreases inputs.len(),
{
    if inputs.len() == 0 {
        Seq::empty()
    } else {
        all_bytes_from_client(inputs.drop_last()) + bytes_from_client(inputs.last())
    }
}

/// All that was taken from the client's bytes.
pub open spec fn all_bytes_taken(state: ConnectionState, inputs: Seq<Input>) -> Seq<u8>
    decreases inputs.len(),
{
    if inputs.len() == 0 {
        Seq::empty()
    } else {
        all_bytes_taken(state, inputs.drop_last()) + bytes_taken(
            run(state, inputs.drop_last()),
            inputs.last(),
        )
    }
}

/// The bytes of a client are taken once each and in order: those that waited and those that
/// came in are those that were taken and those that wait.
pub proof fn law_client_bytes_in_order(state: ConnectionState, inputs: Seq<Input>)
    ensures
        state.client_buf + all_bytes_from_client(inputs) == all_bytes_taken(state, inputs) + run(
            state,
            inputs,
        ).client_buf,
    decreases inputs.len(),
{
    if inputs.len() > 0 {
        let before = run(state, inputs.drop_last());
        law_client_bytes_in_order(state, inputs.drop_last());
        law_written_for_taken(before, inputs.last());
        lemma_chain(
            state.client_buf,
            all_bytes_from_client(inputs.drop_last()),
            all_bytes_taken(state, inputs.drop_last()),
            before.client_buf,
            bytes_from_client(inputs.last()),
            bytes_taken(before, inputs.last()),
            step(before, inputs.last()).0.client_buf,
        );
    } else {
        assert(state.client_buf + Seq::<u8>::empty() =~= Seq::<u8>::empty() + state.client_buf);
    }
}

/// What is written to the compositor is the first `app_id` of a new toplevel, for which
/// nothing is taken, or it is what one whole message stands for that was taken. Where
/// nothing is written to the compositor, nothing is taken.
#[verifier::rlimit(30)]
pub proof fn law_written_for_taken(state: ConnectionState, input: Input)
    ensures
        state.client_buf + bytes_from_client(input) == bytes_taken(state, input) + step(
            state,
            input,
        ).0.client_buf,
        match step(state, input).1 {
            ActionView::SendToServer(packet) => {
                let msg = bytes_taken(state, input);
                if msg.len() == 0 {
                    &&& state.new_toplevel matches Some(toplevel_id)
                    &&& packet.bytes == wire::set_app_id_message(
                        state.order,
                        toplevel_id,
                        connection::initial_app_id(state.prefix),
                    )
                } else {
                    &&& wire::message_header(state.order, msg) matches Some(
                        (object_id, size, opcode),
                    )
                    &&& size == msg.len()
                    &&& packet.bytes == state.outgoing(object_id, opcode, msg).bytes
                }
            },
            _ => bytes_taken(state, input).len() == 0,
        },
{
    let bytes = state.client_buf + bytes_from_client(input);
    match input {
        Input::FromClient(Received::Data(packet)) => {
            lemma_next_message_takes(
                ConnectionState {
                    client_buf: bytes,
                    client_fds: state.client_fds + packet@.fds,
                    ..state
                },
            );
        },
        Input::ToServer(Sent::Done) => {
            assert(bytes =~= state.client_buf);
            lemma_next_message_takes(ConnectionState { new_toplevel: None, ..state });
        },
        _ => {
            assert(bytes =~= state.client_buf);
        },
    }
    let rest = step(state, input).0.client_buf;
    assert(bytes =~= bytes.take(bytes.len() - rest.len()) + rest);
}

/// What is taken from the front of the buffer is one whole message, or nothing.
pub proof fn lemma_next_message_takes(state: ConnectionState)
    ensures
        ({
            let (after, action) = state.next_message();
            let taken = state.client_buf.len() - after.client_buf.len();
            &&& 0 <= taken <= state.client_buf.len()
            &&& after.client_buf == state.client_buf.skip(taken)
            &&& match action {
                ActionView::SendToServer(packet) => {
                    let msg = state.client_buf.take(taken);
                    &&& taken > 0
                    &&& wire::message_header(state.order, msg) matches Some(
                        (object_id, size, opcode),
                    )
                    &&& size == msg.len()
                    &&& packet.bytes == state.outgoing(object_id, opcode, msg).bytes
                },
                _ => taken == 0,
            }
        }),
{
    lemma_header_of_message(state);
    assert(state.client_buf.skip(0) =~= state.client_buf);
}

/// What the connection does once `action` was named, if each write to the compositor is
/// done: its state when it turns to the compositor, and what was written until then.
pub open spec fn settled(state: ConnectionState, action: ActionView) -> (
    ConnectionState,
    Seq<Seq<u8>>,
)
    decreases
            2 * state.client_buf.len() + if state.new_toplevel is Some {
                1int
            } else {
                0int
            },
            if action is SendToServer {
                1int
            } else {
                0int
            },
{
    match action {
        ActionView::SendToServer(packet) => {
            proof {
                lemma_next_message_takes(ConnectionState { new_toplevel: None, ..state });
            }
            let (after, next) = state.server_sent(Sent::Done);
            let (end, written) = settled(after, next);
            (end, seq![packet.bytes] + written)
        },
        _ => (state, Seq::empty()),
    }
}

/// `state` with `data` behind the bytes that wait.
spec fn with_more(state: ConnectionState, data: Seq<u8>) -> ConnectionState {
    ConnectionState { client_buf: state.client_buf + data, ..state }
}

/// Bytes that come later change nothing about the message at the front.
proof fn lemma_more_after_message(state: ConnectionState, data: Seq<u8>)
    requires
        state.complete_message() is Some,
    ensures
        with_more(state, data).next_message() == (
            with_more(state.next_message().0, data),
            state.next_message().1,
        ),
{
    let more = with_more(state, data);
    lemma_header_of_message(state);
    law_header_is_local(state.order, state.client_buf, data);
    let (_, size, _) = state.complete_message()->0;
    assert(more.client_buf.take(size as int) =~= state.client_buf.take(size as int));
    assert(more.client_buf.skip(size as int) =~= state.client_buf.skip(size as int) + data);
}

/// Writing first and then taking more bytes, or taking them before: the same is written.
proof fn lemma_more_later(state: ConnectionState, action: ActionView, data: Seq<u8>)
    requires
        action is SendToServer,
    ensures
        ({
            let (end, written) = settled(state, action);
            let (last, rest) = settled(
                with_more(end, data).next_message().0,
                with_more(end, data).next_message().1,
            );
            &&& settled(with_more(state, data), action) == (last, written + rest)
            &&& end.new_toplevel is None
            &&& end.client_buf.len() <= state.client_buf.len()
        }),
    decreases
            2 * state.client_buf.len() + if state.new_toplevel is Some {
                1int
            } else {
                0int
            },
{
    let more = with_more(state, data);
    let (after, next) = state.server_sent(Sent::Done);
    let (more_after, more_next) = more.server_sent(Sent::Done);
    let idle = ConnectionState { new_toplevel: None, ..state };
    lemma_next_message_takes(idle);
    let packet = action->SendToServer_0;
    let (end, written) = settled(state, action);
    let (last, rest) = settled(
        with_more(end, data).next_message().0,
        with_more(end, data).next_message().1,
    );
    if state.new_toplevel is Some {
        assert(more_after == with_more(after, data));
        assert(more_next == next);
        lemma_more_later(after, next, data);
    } else if idle.complete_message() is Some {
        assert(with_more(idle, data) == ConnectionState { new_toplevel: None, ..more });
        lemma_more_after_message(idle, data);
        lemma_more_later(after, next, data);
    } else {
        reveal_with_fuel(settled, 2);
        assert(end == idle);
        assert(settled(after, next).1 =~= Seq::<Seq<u8>>::empty());
        assert(with_more(idle, data) == ConnectionState { new_toplevel: None, ..more });
    }
    let tail = settled(after, next).1;
    assert(written == seq![packet.bytes] + tail);
    assert(written + rest =~= seq![packet.bytes] + (tail + rest));
    assert(Seq::<Seq<u8>>::empty() + rest =~= rest);
}

/// Whether two states differ in nothing but the file descriptors that wait.
spec fn alike(a: ConnectionState, b: ConnectionState) -> bool {
    a == ConnectionState { client_fds: a.client_fds, ..b }
}

/// Whether two actions write the same bytes.
spec fn alike_actions(a: ActionView, b: ActionView) -> bool {
    match a {
        ActionView::SendToServer(packet) => b is SendToServer && packet.bytes
            == b->SendToServer_0.bytes,
        _ => a == b,
    }
}

/// The file descriptors that wait have no part in what is written.
proof fn lemma_fds_have_no_part(
    a: ConnectionState,
    b: ConnectionState,
    action_a: ActionView,
    action_b: ActionView,
)
    requires
        alike(a, b),
        alike_actions(action_a, action_b),
    ensures
        alike(settled(a, action_a).0, settled(b, action_b).0),
        settled(a, action_a).1 == settled(b, action_b).1,
    decreases
            2 * a.client_buf.len() + if a.new_toplevel is Some {
                1int
            } else {
                0int
            },
            if action_a is SendToServer {
                1int
            } else {
                0int
            },
{
    if action_a is SendToServer {
        let idle = ConnectionState { new_toplevel: None, ..a };
        lemma_next_message_takes(idle);
        let (after_a, next_a) = a.server_sent(Sent::Done);
        let (after_b, next_b) = b.server_sent(Sent::Done);
        lemma_fds_have_no_part(after_a, after_b, next_a, next_b);
    }
}

/// The bytes of `pieces` in a row.
pub open spec fn joined_bytes(pieces: Seq<Packet>) -> Seq<u8>
    decreases pieces.len(),
{
    if pieces.len() == 0 {
        Seq::empty()
    } else {
        joined_bytes(pieces.drop_last()) + pieces.last()@.bytes
    }
}

/// The state after `pieces` were read from the client, one after the other, and what was
/// written to the compositor, if each write is done.
pub open spec fn fed(state: ConnectionState, pieces: Seq<Packet>) -> (
    ConnectionState,
    Seq<Seq<u8>>,
)
    decreases pieces.len(),
{
    if pieces.len() == 0 {
        (state, Seq::empty())
    } else {
        let (middle, before) = fed(state, pieces.drop_last());
        let (after, action) = middle.client_to_server(Received::Data(pieces.last()));
        let (end, written) = settled(after, action);
        (end, before + written)
    }
}

/// Whether no piece is empty and none brings more bytes than may wait, so that the
/// connection is kept.
pub open spec fn accepted(state: ConnectionState, pieces: Seq<Packet>) -> bool
    decreases pieces.len(),
{
    pieces.len() > 0 ==> {
        &&& accepted(state, pieces.drop_last())
        &&& pieces.last()@.bytes.len() > 0
        &&& fed(state, pieces.drop_last()).0.client_buf.len() + pieces.last()@.bytes.len()
            <= MAX_BUFFERED
    }
}

/// What comes of `data` behind the bytes that wait, if there were room for all of it.
spec fn fed_at_once(state: ConnectionState, data: Seq<u8>) -> (ConnectionState, Seq<Seq<u8>>) {
    let (after, action) = with_more(state, data).next_message();
    settled(after, action)
}

/// First `first` and then `second` is the same as both at once.
proof fn lemma_in_two(state: ConnectionState, first: Seq<u8>, second: Seq<u8>)
    requires
        state.new_toplevel is None,
    ensures
        ({
            let (middle, before) = fed_at_once(state, first);
            let (end, written) = fed_at_once(middle, second);
            &&& fed_at_once(state, first + second) == (end, before + written)
            &&& middle.new_toplevel is None
        }),
{
    let buffered = with_more(state, first);
    let (one, action) = buffered.next_message();
    let (middle, before) = fed_at_once(state, first);
    let (end, written) = fed_at_once(middle, second);
    lemma_next_message_takes(buffered);
    assert(with_more(buffered, second) =~= with_more(state, first + second));
    if buffered.complete_message() is Some {
        lemma_more_after_message(buffered, second);
        lemma_more_later(one, action, second);
    } else {
        assert(before + written =~= written);
    }
}

/// Pieces that come one after the other do what their bytes would do at once.
proof fn lemma_fed_at_once(state: ConnectionState, pieces: Seq<Packet>)
    requires
        state.new_toplevel is None,
        pieces.len() > 0,
        accepted(state, pieces),
    ensures
        alike(fed(state, pieces).0, fed_at_once(state, joined_bytes(pieces)).0),
        fed(state, pieces).1 == fed_at_once(state, joined_bytes(pieces)).1,
        fed(state, pieces).0.new_toplevel is None,
    decreases pieces.len(),
{
    let less = pieces.drop_last();
    let last = pieces.last();
    let (middle, before) = fed(state, less);
    let start = ConnectionState {
        client_buf: middle.client_buf + last@.bytes,
        client_fds: middle.client_fds + last@.fds,
        ..middle
    };
    let (after, action) = start.next_message();
    let (end, written) = settled(after, action);
    assert(fed(state, pieces) == (end, before + written));
    if less.len() == 0 {
        let more = with_more(state, joined_bytes(pieces));
        assert(joined_bytes(pieces) =~= last@.bytes);
        assert(before + written =~= written);
        lemma_fds_have_no_part(after, more.next_message().0, action, more.next_message().1);
        lemma_in_two(state, joined_bytes(pieces), Seq::empty());
    } else {
        let (middle_once, before_once) = fed_at_once(state, joined_bytes(less));
        lemma_fed_at_once(state, less);
        lemma_in_two(state, joined_bytes(less), last@.bytes);
        let more = with_more(middle_once, last@.bytes);
        lemma_fds_have_no_part(after, more.next_message().0, action, more.next_message().1);
        lemma_in_two(middle_once, last@.bytes, Seq::empty());
    }
}

/// Where the client's bytes are split does not matter: however the same bytes come in
/// pieces, the same messages are written to the compositor, the same objects are tracked
/// and the same bytes are left to wait, if each write is done and no piece brings more bytes
/// than may wait.
pub proof fn law_split_does_not_matter(
    state: ConnectionState,
    pieces: Seq<Packet>,
    others: Seq<Packet>,
)
    requires
        state.new_toplevel is None,
        pieces.len() > 0,
        others.len() > 0,
        accepted(state, pieces),
        accepted(state, others),
        joined_bytes(pieces) == joined_bytes(others),
    ensures
        fed(state, pieces).1 == fed(state, others).1,
        fed(state, pieces).0.objects == fed(state, others).0.objects,
        fed(state, pieces).0.client_buf == fed(state, others).0.client_buf,
{
    lemma_fed_at_once(state, pieces);
    lemma_fed_at_once(state, others);
}

} // verus!
