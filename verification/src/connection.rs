//! One proxied connection: what is sent where, for whatever the two sockets deliver.
//!
//! ```text
//! Client <-> ProxyConnection <-> Compositor
//! ```
//!
//! A [`ProxyConnection`] does no input or output of its own. [`ProxyConnection::poll`] names
//! the first thing to do, as an [`Action`]; the outcome of an action is handed to the method
//! that the action's documentation names, and that method names the next action, until
//! [`Action::Finished`].
//!
//! - Clients are not trusted: whatever they send is parsed with care.
//! - The compositor is trusted: what it sends is forwarded as it stands.
//! - The `app_id` is enforced: the compositor never sees one for a tracked toplevel that
//!   does not begin with the prefix of the connection.
//! - No message is written to the compositor that is larger than [`MAX_MESSAGE_SIZE`]. An
//!   `app_id` that has no room behind the prefix is cut at its end.

use crate::byte_order;
use crate::byte_order::{read_word, ByteOrder};
use crate::object_ids;
use crate::opcodes;
use crate::tracker::{ObjectTracker, Objects};
use crate::wire;
use crate::wire::{
    build_set_app_id_message_in, parse_bind_request_in, parse_message_header_in,
    parse_string_arg_in, MAX_MESSAGE_SIZE, MIN_MESSAGE_SIZE,
};
use vstd::prelude::*;

verus! {

/// The most file descriptors that one message may carry.
pub const MAX_FDS_PER_MESSAGE: usize = 28;

/// The most bytes that are read from a socket at once.
pub const SOCKET_BUFFER_SIZE: usize = 4096;

/// The most bytes that may wait for the rest of a message.
pub const MAX_BUFFERED: usize = 4 * MAX_MESSAGE_SIZE;

/// Bytes on a socket, and the file descriptors that go with them.
#[derive(Debug, PartialEq, Eq)]
pub struct Packet {
    /// The bytes.
    pub bytes: Vec<u8>,
    /// The file descriptors.
    pub fds: Vec<i32>,
}

/// What a [`Packet`] holds.
#[verifier::ext_equal]
pub struct PacketView {
    /// The bytes.
    pub bytes: Seq<u8>,
    /// The file descriptors.
    pub fds: Seq<i32>,
}

impl View for Packet {
    type V = PacketView;

    open spec fn view(&self) -> PacketView {
        PacketView { bytes: self.bytes@, fds: self.fds@ }
    }
}

/// The outcome of reading from a socket.
#[derive(Debug, PartialEq, Eq)]
pub enum Received {
    /// This was read. No bytes at all mean that the other side closed the socket.
    Data(Packet),
    /// There is nothing to read at present.
    WouldBlock,
    /// Reading failed.
    Failed,
}

/// The outcome of writing to a socket.
#[derive(Clone, Copy, Debug, PartialEq, Eq)]
pub enum Sent {
    /// The packet was written.
    Done,
    /// The socket takes nothing at present. The packet is lost.
    WouldBlock,
    /// Writing failed. The packet is lost.
    Failed,
}

/// How a poll ended.
#[derive(Clone, Copy, Debug, PartialEq, Eq)]
pub enum Outcome {
    /// The connection is still active.
    Keep,
    /// The connection is to be closed: one side closed its socket, or too many bytes wait.
    Closed,
    /// Reading or writing failed.
    Failed,
}

/// What is to be done next with the two sockets.
#[derive(Debug, PartialEq, Eq)]
pub enum Action {
    /// Read from the client, then call [`ProxyConnection::process_client_to_server`].
    ReceiveFromClient,
    /// Write to the compositor, then call [`ProxyConnection::sent_to_server`].
    SendToServer(Packet),
    /// Read from the compositor, then call [`ProxyConnection::process_server_to_client`].
    ReceiveFromServer,
    /// Write to the client, then call [`ProxyConnection::sent_to_client`].
    SendToClient(Packet),
    /// The poll is over, and the connection is closed unless the outcome is to keep it.
    Finished(Outcome),
}

/// What an [`Action`] asks for.
#[verifier::ext_equal]
pub enum ActionView {
    /// Read from the client.
    ReceiveFromClient,
    /// Write to the compositor.
    SendToServer(PacketView),
    /// Read from the compositor.
    ReceiveFromServer,
    /// Write to the client.
    SendToClient(PacketView),
    /// The poll is over.
    Finished(Outcome),
}

impl View for Action {
    type V = ActionView;

    open spec fn view(&self) -> ActionView {
        match *self {
            Action::ReceiveFromClient => ActionView::ReceiveFromClient,
            Action::SendToServer(packet) => ActionView::SendToServer(packet@),
            Action::ReceiveFromServer => ActionView::ReceiveFromServer,
            Action::SendToClient(packet) => ActionView::SendToClient(packet@),
            Action::Finished(outcome) => ActionView::Finished(outcome),
        }
    }
}

/// `app_id` with the prefix in front.
pub open spec fn prefixed(prefix: Seq<char>, app_id: Seq<char>) -> Seq<char> {
    prefix + seq![':'] + app_id
}

/// The `app_id` that a toplevel has until its client sets one.
pub open spec fn initial_app_id(prefix: Seq<char>) -> Seq<char> {
    prefixed(prefix, "unknown"@)
}

/// The `app_id` that is sent in place of the one in the client's `set_app_id` request.
pub open spec fn enforced_app_id(order: ByteOrder, prefix: Seq<char>, msg: Seq<u8>) -> Seq<char> {
    match wire::string_arg(order, msg, MIN_MESSAGE_SIZE as int) {
        Some(app_id) => prefixed(prefix, app_id),
        None => prefixed(prefix, "<invalid>"@),
    }
}

/// The first argument of a request that makes an object: the id of the object.
pub open spec fn first_new_id(order: ByteOrder, msg: Seq<u8>) -> u32 {
    if msg.len() < 12 {
        0
    } else {
        byte_order::word_at(order, msg, 8)
    }
}

/// Whether the request is `wl_display.get_registry`.
pub open spec fn gets_registry(object_id: u32, opcode: u16) -> bool {
    object_id == object_ids::WL_DISPLAY && opcode == opcodes::WL_DISPLAY_GET_REGISTRY
}

/// The tracked objects after the request `msg` of a client.
pub open spec fn objects_after(
    order: ByteOrder,
    before: Objects,
    object_id: u32,
    opcode: u16,
    msg: Seq<u8>,
) -> Objects {
    let objects = before.with_destroy(object_id, opcode);
    let new_id = first_new_id(order, msg);
    if gets_registry(object_id, opcode) {
        objects.with_registry(new_id)
    } else if objects.registries.contains(object_id) && opcode == opcodes::WL_REGISTRY_BIND {
        match wire::bind_request(order, msg) {
            Some((interface, bound_id)) => objects.with_bind(interface, bound_id),
            None => objects,
        }
    } else {
        objects.with_request(object_id, opcode, new_id)
    }
}

/// The toplevel that the request `msg` of a client makes, if it makes one.
pub open spec fn toplevel_made(
    order: ByteOrder,
    before: Objects,
    object_id: u32,
    opcode: u16,
    msg: Seq<u8>,
) -> Option<u32> {
    let objects = before.with_destroy(object_id, opcode);
    let new_id = first_new_id(order, msg);
    if !gets_registry(object_id, opcode) && objects.makes_toplevel(object_id, opcode, new_id) {
        Some(new_id)
    } else {
        None
    }
}

/// The object that the `wl_registry.bind` request `msg` of a client makes, if it is one for
/// a tracked registry.
pub open spec fn bind_made(
    order: ByteOrder,
    before: Objects,
    object_id: u32,
    opcode: u16,
    msg: Seq<u8>,
) -> Option<u32> {
    if opcode != opcodes::WL_REGISTRY_BIND || !before.registries.contains(object_id) {
        None
    } else {
        match wire::bind_request(order, msg) {
            Some((_, bound_id)) => if bound_id == 0 {
                None
            } else {
                Some(bound_id)
            },
            None => None,
        }
    }
}

/// Everything that a connection remembers.
#[verifier::ext_equal]
pub struct ConnectionState {
    /// The byte order of the messages.
    pub order: ByteOrder,
    /// What each `app_id` begins with.
    pub prefix: Seq<char>,
    /// The number of the connection.
    pub conn_id: u64,
    /// The tracked objects of the client.
    pub objects: Objects,
    /// What the client sent and was not yet part of a complete message.
    pub client_buf: Seq<u8>,
    /// File descriptors of the client that were not yet sent on.
    pub client_fds: Seq<i32>,
    /// File descriptors of the compositor that were not yet sent on.
    pub server_fds: Seq<i32>,
    /// The toplevel that gets its first `app_id` once the request that made it is written.
    pub new_toplevel: Option<u32>,
}

impl ConnectionState {
    /// The state of a new connection.
    pub open spec fn initial(order: ByteOrder, prefix: Seq<char>, conn_id: u64) -> ConnectionState {
        ConnectionState {
            order,
            prefix,
            conn_id,
            objects: Objects::empty(),
            client_buf: Seq::empty(),
            client_fds: Seq::empty(),
            server_fds: Seq::empty(),
            new_toplevel: None,
        }
    }

    /// What is written to the compositor for the client's request `msg`: a `set_app_id` for
    /// a tracked toplevel with its `app_id` replaced, and anything else as it stands. All
    /// file descriptors that wait go with it.
    pub open spec fn outgoing(self, object_id: u32, opcode: u16, msg: Seq<u8>) -> PacketView {
        let objects = objects_after(self.order, self.objects, object_id, opcode, msg);
        PacketView {
            bytes: if objects.sets_app_id(object_id, opcode) {
                wire::set_app_id_message(
                    self.order,
                    object_id,
                    enforced_app_id(self.order, self.prefix, msg),
                )
            } else {
                msg
            },
            fds: self.client_fds,
        }
    }

    /// After the client's request `msg`.
    pub open spec fn after_message(
        self,
        object_id: u32,
        opcode: u16,
        msg: Seq<u8>,
    ) -> ConnectionState {
        ConnectionState {
            objects: objects_after(self.order, self.objects, object_id, opcode, msg),
            client_fds: Seq::empty(),
            new_toplevel: toplevel_made(self.order, self.objects, object_id, opcode, msg),
            ..self
        }
    }

    /// The header of the first buffered message, if the message is complete.
    pub open spec fn complete_message(self) -> Option<(u32, usize, u16)> {
        match wire::message_header(self.order, self.client_buf) {
            Some((object_id, size, opcode)) => if size <= self.client_buf.len() {
                Some((object_id, size, opcode))
            } else {
                None
            },
            None => None,
        }
    }

    /// Takes the first buffered message, if it is complete, and says what is next.
    pub open spec fn next_message(self) -> (ConnectionState, ActionView) {
        match self.complete_message() {
            Some((object_id, size, opcode)) => {
                let msg = self.client_buf.take(size as int);
                let rest = ConnectionState { client_buf: self.client_buf.skip(size as int), ..self };
                (
                    rest.after_message(object_id, opcode, msg),
                    ActionView::SendToServer(rest.outgoing(object_id, opcode, msg)),
                )
            },
            None => (self, ActionView::ReceiveFromServer),
        }
    }

    /// After `received` was read from the client.
    pub open spec fn client_to_server(self, received: Received) -> (ConnectionState, ActionView) {
        match received {
            Received::WouldBlock => (self, ActionView::ReceiveFromServer),
            Received::Failed => (self, ActionView::Finished(Outcome::Failed)),
            Received::Data(packet) => {
                let state = ConnectionState {
                    client_buf: self.client_buf + packet@.bytes,
                    client_fds: self.client_fds + packet@.fds,
                    ..self
                };
                if packet@.bytes.len() == 0 || state.client_buf.len() > MAX_BUFFERED {
                    (state, ActionView::Finished(Outcome::Closed))
                } else {
                    state.next_message()
                }
            },
        }
    }

    /// After a packet was written to the compositor, with the outcome `sent`.
    pub open spec fn server_sent(self, sent: Sent) -> (ConnectionState, ActionView) {
        let state = ConnectionState { new_toplevel: None, ..self };
        match sent {
            Sent::WouldBlock => (state, ActionView::ReceiveFromServer),
            Sent::Failed => (state, ActionView::Finished(Outcome::Failed)),
            Sent::Done => match self.new_toplevel {
                Some(toplevel_id) => (
                    state,
                    ActionView::SendToServer(
                        PacketView {
                            bytes: wire::set_app_id_message(
                                self.order,
                                toplevel_id,
                                initial_app_id(self.prefix),
                            ),
                            fds: Seq::empty(),
                        },
                    ),
                ),
                None => state.next_message(),
            },
        }
    }

    /// After `received` was read from the compositor.
    pub open spec fn server_to_client(self, received: Received) -> (ConnectionState, ActionView) {
        match received {
            Received::WouldBlock => (self, ActionView::Finished(Outcome::Keep)),
            Received::Failed => (self, ActionView::Finished(Outcome::Failed)),
            Received::Data(packet) => {
                let fds = self.server_fds + packet@.fds;
                if packet@.bytes.len() == 0 {
                    (
                        ConnectionState { server_fds: fds, ..self },
                        ActionView::Finished(Outcome::Closed),
                    )
                } else {
                    (
                        ConnectionState { server_fds: Seq::empty(), ..self },
                        ActionView::SendToClient(PacketView { bytes: packet@.bytes, fds }),
                    )
                }
            },
        }
    }

    /// After a packet was written to the client, with the outcome `sent`.
    pub open spec fn client_sent(self, sent: Sent) -> (ConnectionState, ActionView) {
        match sent {
            Sent::Done => (self, ActionView::Finished(Outcome::Keep)),
            Sent::WouldBlock => (self, ActionView::Finished(Outcome::Keep)),
            Sent::Failed => (self, ActionView::Finished(Outcome::Failed)),
        }
    }
}

/// A connection between a Wayland client and the compositor.
///
/// 1. Messages are forwarded in both directions.
/// 2. xdg-shell objects are tracked, so that toplevels are known.
/// 3. Each `xdg_toplevel.set_app_id` gets the prefix, and each new toplevel gets one.
/// 4. File descriptors are passed along.
#[derive(Debug)]
pub struct ProxyConnection {
    order: ByteOrder,
    prefix: String,
    conn_id: u64,
    tracker: ObjectTracker,
    client_buf: Vec<u8>,
    client_fds: Vec<i32>,
    server_fds: Vec<i32>,
    new_toplevel: Option<u32>,
}

impl View for ProxyConnection {
    type V = ConnectionState;

    closed spec fn view(&self) -> ConnectionState {
        ConnectionState {
            order: self.order,
            prefix: self.prefix@,
            conn_id: self.conn_id,
            objects: self.tracker@,
            client_buf: self.client_buf@,
            client_fds: self.client_fds@,
            server_fds: self.server_fds@,
            new_toplevel: self.new_toplevel,
        }
    }
}

/// Takes all of `fds`.
fn take_fds(fds: &mut Vec<i32>) -> (taken: Vec<i32>)
    ensures
        taken@ == old(fds)@,
        final(fds)@ == Seq::<i32>::empty(),
{
    let mut taken: Vec<i32> = Vec::new();
    taken.append(fds);
    taken
}

impl ProxyConnection {
    /// A connection whose messages are in the byte order `order`.
    pub fn new_in(order: ByteOrder, prefix: String, conn_id: u64) -> (conn: Self)
        ensures
            conn@ == ConnectionState::initial(order, prefix@, conn_id),
            conn@.objects.valid(),
    {
        ProxyConnection {
            order,
            prefix,
            conn_id,
            tracker: ObjectTracker::new(),
            client_buf: Vec::with_capacity(SOCKET_BUFFER_SIZE),
            client_fds: Vec::new(),
            server_fds: Vec::new(),
            new_toplevel: None,
        }
    }

    /// A connection whose messages are in the byte order of the machine.
    pub fn new(prefix: String, conn_id: u64) -> (conn: Self)
        ensures
            conn@ == ConnectionState::initial(conn@.order, prefix@, conn_id),
            byte_order::of_machine(conn@.order),
            conn@.objects.valid(),
    {
        ProxyConnection::new_in(ByteOrder::native(), prefix, conn_id)
    }

    /// The number of the connection.
    pub fn id(&self) -> (conn_id: u64)
        ensures
            conn_id == self@.conn_id,
    {
        self.conn_id
    }

    /// Tracks the objects that a client request makes or destroys. Returns the id of a new
    /// toplevel.
    ///
    /// Of the objects that a `bind` request makes, those are tracked whose interface is
    /// `xdg_wm_base` byte for byte.
    pub fn track_client_request(
        &mut self,
        object_id: u32,
        opcode: u16,
        msg_data: &[u8],
    ) -> (toplevel: Option<u32>)
        ensures
            final(self)@ == (ConnectionState {
                objects: objects_after(
                    old(self)@.order,
                    old(self)@.objects,
                    object_id,
                    opcode,
                    msg_data@,
                ),
                ..old(self)@
            }),
            toplevel == toplevel_made(
                old(self)@.order,
                old(self)@.objects,
                object_id,
                opcode,
                msg_data@,
            ),
            bind_made(
                old(self)@.order,
                old(self)@.objects,
                object_id,
                opcode,
                msg_data@,
            ) matches Some(bound_id) ==> {
                let before = old(self)@.objects.with_destroy(object_id, opcode).wm_bases;
                final(self)@.objects.wm_bases == if wire::binds_xdg_wm_base(
                    old(self)@.order,
                    msg_data@,
                ) {
                    before.push(bound_id)
                } else {
                    before
                }
            },
            old(self)@.objects.valid() ==> final(self)@.objects.valid(),
    {
        self.tracker.track_destroy(object_id, opcode);
        let new_id: u32 = if msg_data.len() < 12 {
            0
        } else {
            read_word(self.order, msg_data, 8)
        };
        if object_id == object_ids::WL_DISPLAY && opcode == opcodes::WL_DISPLAY_GET_REGISTRY {
            self.tracker.track_registry(new_id);
            return None;
        }
        if self.tracker.is_wl_registry(object_id) && opcode == opcodes::WL_REGISTRY_BIND {
            if let Some((interface, bound_id)) = parse_bind_request_in(self.order, msg_data) {
                self.tracker.track_bind(interface.as_str(), bound_id);
            }
            return None;
        }
        self.tracker.track_request(object_id, opcode, new_id)
    }

    /// The prefix, a colon, and `app_id`.
    fn prefixed_app_id(&self, app_id: &str) -> (full: String)
        ensures
            full@ == prefixed(self@.prefix, app_id@),
    {
        let mut full: String = self.prefix.clone();
        proof {
            reveal_strlit(":");
            assert(":"@ =~= seq![':']);
        }
        full.append(":");
        full.append(app_id);
        full
    }

    /// The packet that gives a new toplevel its first `app_id`. It carries no file
    /// descriptors.
    fn inject_app_id(&self, toplevel_id: u32) -> (packet: Packet)
        ensures
            packet@ == (PacketView {
                bytes: wire::set_app_id_message(
                    self@.order,
                    toplevel_id,
                    initial_app_id(self@.prefix),
                ),
                fds: Seq::empty(),
            }),
            packet@.bytes.len() <= MAX_MESSAGE_SIZE,
    {
        let app_id: String = self.prefixed_app_id("unknown");
        let bytes: Vec<u8> = build_set_app_id_message_in(self.order, toplevel_id, app_id.as_str());
        Packet { bytes, fds: Vec::new() }
    }

    /// The packet that is sent in place of the client's `set_app_id` request `msg_data`. It
    /// takes all file descriptors of the client that wait.
    fn send_modified_app_id(&mut self, object_id: u32, msg_data: &[u8]) -> (packet: Packet)
        ensures
            packet@ == (PacketView {
                bytes: wire::set_app_id_message(
                    old(self)@.order,
                    object_id,
                    enforced_app_id(old(self)@.order, old(self)@.prefix, msg_data@),
                ),
                fds: old(self)@.client_fds,
            }),
            packet@.bytes.len() <= MAX_MESSAGE_SIZE,
            final(self)@ == (ConnectionState { client_fds: Seq::empty(), ..old(self)@ }),
    {
        let app_id: String = match parse_string_arg_in(self.order, msg_data, MIN_MESSAGE_SIZE) {
            Some(old_app_id) => self.prefixed_app_id(old_app_id.as_str()),
            None => self.prefixed_app_id("<invalid>"),
        };
        let bytes: Vec<u8> = build_set_app_id_message_in(self.order, object_id, app_id.as_str());
        Packet { bytes, fds: take_fds(&mut self.client_fds) }
    }

    /// Handles one complete client message. Returns what is to be written to the compositor.
    pub fn handle_client_message(
        &mut self,
        object_id: u32,
        opcode: u16,
        msg_data: Vec<u8>,
    ) -> (packet: Packet)
        ensures
            packet@ == old(self)@.outgoing(object_id, opcode, msg_data@),
            msg_data@.len() <= MAX_MESSAGE_SIZE ==> packet@.bytes.len() <= MAX_MESSAGE_SIZE,
            final(self)@ == old(self)@.after_message(object_id, opcode, msg_data@),
            old(self)@.objects.valid() ==> final(self)@.objects.valid(),
    {
        self.new_toplevel = self.track_client_request(object_id, opcode, msg_data.as_slice());
        if self.tracker.is_set_app_id(object_id, opcode) {
            return self.send_modified_app_id(object_id, msg_data.as_slice());
        }
        Packet { bytes: msg_data, fds: take_fds(&mut self.client_fds) }
    }

    /// Takes the first buffered message, if it is complete, and says what is next.
    fn next_message(&mut self) -> (action: Action)
        ensures
            (final(self)@, action@) == old(self)@.next_message(),
            old(self)@.objects.valid() ==> final(self)@.objects.valid(),
    {
        match parse_message_header_in(self.order, self.client_buf.as_slice()) {
            Some((object_id, msg_size, opcode)) => {
                if self.client_buf.len() < msg_size {
                    return Action::ReceiveFromServer;
                }
                let mut rest: Vec<u8> = self.client_buf.split_off(msg_size);
                std::mem::swap(&mut rest, &mut self.client_buf);
                proof {
                    assert(rest@ =~= old(self)@.client_buf.take(msg_size as int));
                    assert(self@.client_buf =~= old(self)@.client_buf.skip(msg_size as int));
                }
                Action::SendToServer(self.handle_client_message(object_id, opcode, rest))
            },
            None => Action::ReceiveFromServer,
        }
    }

    /// Begins to poll the connection, with a read from the client.
    pub fn poll(&mut self) -> (action: Action)
        ensures
            final(self)@ == (ConnectionState { new_toplevel: None, ..old(self)@ }),
            action@ == ActionView::ReceiveFromClient,
    {
        self.new_toplevel = None;
        Action::ReceiveFromClient
    }

    /// Takes what was read from the client.
    ///
    /// The connection is closed if the client closed it or if more than [`MAX_BUFFERED`]
    /// bytes wait. If reading failed, so did the poll.
    pub fn process_client_to_server(&mut self, received: Received) -> (action: Action)
        ensures
            (final(self)@, action@) == old(self)@.client_to_server(received),
            old(self)@.objects.valid() ==> final(self)@.objects.valid(),
    {
        match received {
            Received::WouldBlock => Action::ReceiveFromServer,
            Received::Failed => Action::Finished(Outcome::Failed),
            Received::Data(packet) => {
                let mut bytes: Vec<u8> = packet.bytes;
                let mut fds: Vec<i32> = packet.fds;
                self.client_fds.append(&mut fds);
                if bytes.len() == 0 {
                    assert(self@.client_buf =~= self@.client_buf + bytes@);
                    return Action::Finished(Outcome::Closed);
                }
                self.client_buf.append(&mut bytes);
                if self.client_buf.len() > MAX_BUFFERED {
                    return Action::Finished(Outcome::Closed);
                }
                self.next_message()
            },
        }
    }

    /// Goes on after a packet was written to the compositor.
    ///
    /// If it was the request that made a toplevel, the toplevel gets its first `app_id`.
    pub fn sent_to_server(&mut self, sent: Sent) -> (action: Action)
        ensures
            (final(self)@, action@) == old(self)@.server_sent(sent),
            old(self)@.objects.valid() ==> final(self)@.objects.valid(),
    {
        let new_toplevel: Option<u32> = self.new_toplevel;
        self.new_toplevel = None;
        match sent {
            Sent::WouldBlock => Action::ReceiveFromServer,
            Sent::Failed => Action::Finished(Outcome::Failed),
            Sent::Done => match new_toplevel {
                Some(toplevel_id) => Action::SendToServer(self.inject_app_id(toplevel_id)),
                None => self.next_message(),
            },
        }
    }

    /// Takes what was read from the compositor. It goes to the client as it stands.
    pub fn process_server_to_client(&mut self, received: Received) -> (action: Action)
        ensures
            (final(self)@, action@) == old(self)@.server_to_client(received),
    {
        match received {
            Received::WouldBlock => Action::Finished(Outcome::Keep),
            Received::Failed => Action::Finished(Outcome::Failed),
            Received::Data(packet) => {
                let bytes: Vec<u8> = packet.bytes;
                let mut fds: Vec<i32> = packet.fds;
                self.server_fds.append(&mut fds);
                if bytes.len() == 0 {
                    return Action::Finished(Outcome::Closed);
                }
                Action::SendToClient(Packet { bytes, fds: take_fds(&mut self.server_fds) })
            },
        }
    }

    /// Ends the poll after a packet was written to the client.
    pub fn sent_to_client(&self, sent: Sent) -> (action: Action)
        ensures
            (self@, action@) == self@.client_sent(sent),
    {
        match sent {
            Sent::Done => Action::Finished(Outcome::Keep),
            Sent::WouldBlock => Action::Finished(Outcome::Keep),
            Sent::Failed => Action::Finished(Outcome::Failed),
        }
    }

    /// Whether a request is `xdg_toplevel.set_app_id` for a tracked toplevel.
    pub fn is_set_app_id(&self, object_id: u32, opcode: u16) -> (sets: bool)
        ensures
            sets == self@.objects.sets_app_id(object_id, opcode),
    {
        self.tracker.is_set_app_id(object_id, opcode)
    }

    /// Takes the file descriptors that were never sent on, for the owner to close: those of
    /// the client, then those of the compositor.
    pub fn take_pending_fds(&mut self) -> (fds: Vec<i32>)
        ensures
            fds@ == old(self)@.client_fds + old(self)@.server_fds,
            final(self)@ == (ConnectionState {
                client_fds: Seq::empty(),
                server_fds: Seq::empty(),
                ..old(self)@
            }),
    {
        let mut fds: Vec<i32> = take_fds(&mut self.client_fds);
        fds.append(&mut self.server_fds);
        fds
    }

    /// How many objects of each kind are tracked, as a line of text.
    pub fn stats(&self) -> (line: String)
        ensures
            line@ == self@.objects.stats(),
    {
        self.tracker.stats()
    }
}

} // verus!
