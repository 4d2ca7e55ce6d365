//! What each request of a client does, in terms of its bytes.
//!
//! Opcodes, ids and sizes stand here as numbers, as the Wayland protocol has them.

use crate::byte_order;
use crate::byte_order::ByteOrder;
use crate::connection;
use crate::connection::{ConnectionState, PacketView};
use crate::text;
use crate::tracker::Objects;
use crate::tracker_laws;
use crate::wire;
use crate::wire_laws;
use vstd::prelude::*;
use vstd::utf8::*;

verus! {

/// `wl_display.get_registry`, request 1 of object 1: the registry that is tracked is the
/// word at offset 8, however long the message is. Nothing else changes.
pub proof fn law_get_registry(order: ByteOrder, objects: Objects, msg: Seq<u8>)
    requires
        msg.len() >= 12,
        byte_order::word_at(order, msg, 8) != 0,
    ensures
        connection::objects_after(order, objects, 1, 1, msg) == (Objects {
            registries: objects.registries.push(byte_order::word_at(order, msg, 8)),
            ..objects
        }),
        connection::toplevel_made(order, objects, 1, 1, msg) is None,
{
}

/// `xdg_wm_base.get_xdg_surface`, request 2 of each tracked base: the surface that is
/// tracked is the word at offset 8, however long the message is. Nothing else changes.
pub proof fn law_get_xdg_surface(order: ByteOrder, objects: Objects, base: u32, msg: Seq<u8>)
    requires
        objects.wm_bases.contains(base),
        msg.len() >= 12,
        byte_order::word_at(order, msg, 8) != 0,
    ensures
        connection::objects_after(order, objects, base, 2, msg) == (Objects {
            surfaces: objects.surfaces.push(byte_order::word_at(order, msg, 8)),
            ..objects
        }),
        connection::toplevel_made(order, objects, base, 2, msg) is None,
{
}

/// `xdg_surface.get_toplevel`, request 1 of each tracked surface: the toplevel that is
/// tracked, and named as new, is the word at offset 8, however long the message is. Nothing
/// else changes. Object 1 is the display, whose request 1 is another.
pub proof fn law_get_toplevel(order: ByteOrder, objects: Objects, surface: u32, msg: Seq<u8>)
    requires
        objects.surfaces.contains(surface),
        surface != 1,
        msg.len() >= 12,
        byte_order::word_at(order, msg, 8) != 0,
    ensures
        connection::objects_after(order, objects, surface, 1, msg) == (Objects {
            toplevels: objects.toplevels.push(byte_order::word_at(order, msg, 8)),
            ..objects
        }),
        connection::toplevel_made(order, objects, surface, 1, msg) == Some(
            byte_order::word_at(order, msg, 8),
        ),
{
}

/// The name of the interface that is tracked has eleven bytes.
proof fn lemma_xdg_wm_base_len()
    ensures
        encode_utf8("xdg_wm_base"@).len() == 11,
{
    reveal_strlit("xdg_wm_base");
    is_ascii_chars_encode_utf8("xdg_wm_base"@);
}

/// `wl_registry.bind`, request 0 of each tracked registry, for `xdg_wm_base`: the new object
/// is tracked, whatever its global, its version, its padding and what follows. If the id of
/// the registry is that of no other kind of object, nothing else changes.
pub proof fn law_bind_xdg_wm_base(
    order: ByteOrder,
    objects: Objects,
    registry: u32,
    header: Seq<u8>,
    name: u32,
    padding: u8,
    version: u32,
    new_id: u32,
    rest: Seq<u8>,
)
    requires
        objects.registries.contains(registry),
        header.len() == 8,
        new_id != 0,
    ensures
        ({
            let msg = wire_laws::bind_bytes(
                order,
                header,
                name,
                encode_utf8("xdg_wm_base"@),
                seq![padding],
                version,
                new_id,
            ) + rest;
            let after = connection::objects_after(order, objects, registry, 0, msg);
            let left = objects.with_destroy(registry, 0);
            &&& after.wm_bases.contains(new_id)
            &&& after == Objects { wm_bases: left.wm_bases.push(new_id), ..left }
            &&& !objects.toplevels.contains(registry) && !objects.surfaces.contains(registry)
                && !objects.wm_bases.contains(registry) ==> after == (Objects {
                wm_bases: objects.wm_bases.push(new_id),
                ..objects
            })
            &&& connection::toplevel_made(order, objects, registry, 0, msg) is None
        }),
{
    let left = objects.with_destroy(registry, 0);
    lemma_xdg_wm_base_len();
    wire_laws::law_bind_text_as_written(
        order,
        header,
        name,
        "xdg_wm_base"@,
        seq![padding],
        version,
        new_id,
        rest,
    );
    tracker_laws::law_destroy_untracked(objects, registry, 0);
    let bases = left.wm_bases.push(new_id);
    assert(bases.last() == new_id);
    assert(bases.contains(new_id));
}

/// Every request 0 of a tracked registry that reads as a `bind` to `xdg_wm_base` has its new
/// object tracked, unless the id is 0.
pub proof fn law_bind_that_is_read(
    order: ByteOrder,
    objects: Objects,
    registry: u32,
    msg: Seq<u8>,
    new_id: u32,
)
    requires
        objects.registries.contains(registry),
        wire::bind_request(order, msg) == Some(("xdg_wm_base"@, new_id)),
        new_id != 0,
    ensures
        ({
            let after = connection::objects_after(order, objects, registry, 0, msg);
            let left = objects.with_destroy(registry, 0);
            &&& after.wm_bases.contains(new_id)
            &&& after == Objects { wm_bases: left.wm_bases.push(new_id), ..left }
        }),
{
    let bases = objects.with_destroy(registry, 0).wm_bases.push(new_id);
    assert(bases.last() == new_id);
    assert(bases.contains(new_id));
}

/// A `bind` to any other interface, one with the new id 0, and one that cannot be read track
/// nothing.
pub proof fn law_other_bind(order: ByteOrder, objects: Objects, registry: u32, msg: Seq<u8>)
    requires
        objects.registries.contains(registry),
        wire::bind_request(order, msg) matches Some((interface, new_id)) ==> interface
            != "xdg_wm_base"@ || new_id == 0,
    ensures
        connection::objects_after(order, objects, registry, 0, msg) == objects.with_destroy(
            registry,
            0,
        ),
        connection::toplevel_made(order, objects, registry, 0, msg) is None,
{
}

/// The request 0 of an object that is no registry only destroys.
pub proof fn law_destroy(order: ByteOrder, objects: Objects, object_id: u32, msg: Seq<u8>)
    requires
        !objects.registries.contains(object_id),
    ensures
        connection::objects_after(order, objects, object_id, 0, msg) == objects.with_destroy(
            object_id,
            0,
        ),
        connection::toplevel_made(order, objects, object_id, 0, msg) is None,
{
}

/// No other request changes what is tracked, and none does that has no new id, whether it is
/// 0 or the message ends before it.
pub proof fn law_no_other_request_tracks(
    order: ByteOrder,
    objects: Objects,
    object_id: u32,
    opcode: u16,
    msg: Seq<u8>,
)
    requires
        opcode != 0,
        msg.len() < 12 || byte_order::word_at(order, msg, 8) == 0 || !(opcode == 1 && object_id == 1
            || opcode == 1 && objects.surfaces.contains(object_id) || opcode == 2
            && objects.wm_bases.contains(object_id)),
    ensures
        connection::objects_after(order, objects, object_id, opcode, msg) == objects,
        connection::toplevel_made(order, objects, object_id, opcode, msg) is None,
{
}

/// Of a request other than `bind`, the first twelve bytes decide what is tracked: two
/// messages that agree in them do the same, however long they are.
pub proof fn law_first_argument_decides(
    order: ByteOrder,
    objects: Objects,
    object_id: u32,
    opcode: u16,
    msg: Seq<u8>,
    other: Seq<u8>,
)
    requires
        msg.len() >= 12,
        other.len() >= 12,
        msg.take(12) == other.take(12),
        !(opcode == 0 && objects.registries.contains(object_id)),
    ensures
        connection::objects_after(order, objects, object_id, opcode, msg)
            == connection::objects_after(order, objects, object_id, opcode, other),
        connection::toplevel_made(order, objects, object_id, opcode, msg)
            == connection::toplevel_made(order, objects, object_id, opcode, other),
{
    assert(msg.subrange(8, 12) =~= msg.take(12).subrange(8, 12));
    assert(other.subrange(8, 12) =~= other.take(12).subrange(8, 12));
}

/// An object stays tracked until it is destroyed by its own request 0, and a registry for
/// good.
pub proof fn law_tracked_until_destroyed(
    order: ByteOrder,
    objects: Objects,
    object_id: u32,
    opcode: u16,
    msg: Seq<u8>,
    id: u32,
)
    ensures
        ({
            let after = connection::objects_after(order, objects, object_id, opcode, msg);
            let destroyed = opcode == 0 && object_id == id;
            &&& objects.registries.contains(id) ==> after.registries.contains(id)
            &&& objects.wm_bases.contains(id) && !destroyed ==> after.wm_bases.contains(id)
            &&& objects.surfaces.contains(id) && !destroyed ==> after.surfaces.contains(id)
            &&& objects.toplevels.contains(id) && !destroyed ==> after.toplevels.contains(id)
        }),
{
    let left = objects.with_destroy(object_id, opcode);
    let new_id = connection::first_new_id(order, msg);
    tracker_laws::law_destroy_forgets(objects, object_id, opcode);
    tracker_laws::law_registry_known(left, new_id);
    tracker_laws::law_request_makes_known(left, object_id, opcode, new_id);
    if let Some((interface, bound_id)) = wire::bind_request(order, msg) {
        tracker_laws::law_only_xdg_wm_base_bound(left, interface, bound_id);
    }
}

/// A toplevel becomes tracked only as the new id of a tracked surface's request 1, a surface
/// only as that of a tracked base's request 2, and a registry only as that of the display's
/// request 1. A base becomes tracked only by request 0 of a tracked registry that reads as a
/// `bind` to `xdg_wm_base` with that id.
pub proof fn law_tracked_only_if_made(
    order: ByteOrder,
    objects: Objects,
    object_id: u32,
    opcode: u16,
    msg: Seq<u8>,
    id: u32,
)
    ensures
        ({
            let after = connection::objects_after(order, objects, object_id, opcode, msg);
            let made = msg.len() >= 12 && byte_order::word_at(order, msg, 8) == id && id != 0;
            &&& after.toplevels.contains(id) && !objects.toplevels.contains(id) ==> made && opcode
                == 1 && objects.surfaces.contains(object_id)
            &&& after.surfaces.contains(id) && !objects.surfaces.contains(id) ==> made && opcode
                == 2 && objects.wm_bases.contains(object_id)
            &&& after.registries.contains(id) && !objects.registries.contains(id) ==> made
                && opcode == 1 && object_id == 1
            &&& after.wm_bases.contains(id) && !objects.wm_bases.contains(id) ==> id != 0
                && opcode == 0 && objects.registries.contains(object_id) && wire::bind_request(
                order,
                msg,
            ) == Some(("xdg_wm_base"@, id))
        }),
{
    let left = objects.with_destroy(object_id, opcode);
    let new_id = connection::first_new_id(order, msg);
    tracker_laws::law_destroy_forgets(objects, object_id, opcode);
    tracker_laws::law_registry_known(left, new_id);
    tracker_laws::law_request_makes_known(left, object_id, opcode, new_id);
    if let Some((interface, bound_id)) = wire::bind_request(order, msg) {
        tracker_laws::law_only_xdg_wm_base_bound(left, interface, bound_id);
    }
}

/// A request is forwarded byte for byte, with all file descriptors of the client that wait,
/// unless it is request 3 of a tracked toplevel.
pub proof fn law_request_forwarded(
    state: ConnectionState,
    object_id: u32,
    opcode: u16,
    msg: Seq<u8>,
)
    requires
        !(opcode == 3 && state.objects.toplevels.contains(object_id)),
    ensures
        state.outgoing(object_id, opcode, msg) == (PacketView {
            bytes: msg,
            fds: state.client_fds,
        }),
{
    tracker_laws::law_destroy_forgets(state.objects, object_id, opcode);
}

/// Request 3 of each tracked toplevel, whichever of them it is, goes out as the `set_app_id`
/// for that toplevel which reads as the prefix, a colon and the whole text that the client's
/// request reads as, or `<invalid>` where it has none, as far as there is room. All file
/// descriptors of the client that wait go with it.
pub proof fn law_app_id_prefixed(state: ConnectionState, object_id: u32, msg: Seq<u8>)
    requires
        state.objects.toplevels.contains(object_id),
    ensures
        ({
            let packet = state.outgoing(object_id, 3, msg);
            let app_id = match wire::string_arg(state.order, msg, 8) {
                Some(app_id) => app_id,
                None => "<invalid>"@,
            };
            &&& wire::string_arg(state.order, packet.bytes, 8) matches Some(read)
            &&& wire_laws::shows(read, state.prefix + seq![':'] + app_id)
            &&& byte_order::word_at(state.order, packet.bytes, 0) == object_id
            &&& byte_order::word_at(state.order, packet.bytes, 4) == packet.bytes.len() * 65536 + 3
            &&& packet.bytes == wire::set_app_id_message(
                state.order,
                object_id,
                state.prefix + seq![':'] + app_id,
            )
            &&& packet.fds == state.client_fds
        }),
{
    let app_id = match wire::string_arg(state.order, msg, 8) {
        Some(app_id) => app_id,
        None => "<invalid>"@,
    };
    wire_laws::law_set_app_id_bytes(state.order, object_id, state.prefix + seq![':'] + app_id);
}

/// If there is room, and neither the prefix nor the text has a NUL in it, a `set_app_id` of
/// a client that reads as `app_id` goes out as one that reads as exactly the prefix, a colon
/// and `app_id`.
pub proof fn law_app_id_kept_whole(
    state: ConnectionState,
    object_id: u32,
    msg: Seq<u8>,
    app_id: Seq<char>,
)
    requires
        state.objects.toplevels.contains(object_id),
        wire::string_arg(state.order, msg, 8) == Some(app_id),
        !state.prefix.contains('\0'),
        !app_id.contains('\0'),
        encode_utf8(state.prefix + seq![':'] + app_id).len() <= 4083,
    ensures
        wire::string_arg(state.order, state.outgoing(object_id, 3, msg).bytes, 8) == Some(
            state.prefix + seq![':'] + app_id,
        ),
{
    let full = state.prefix + seq![':'] + app_id;
    law_app_id_prefixed(state, object_id, msg);
    let read = wire::string_arg(state.order, state.outgoing(object_id, 3, msg).bytes, 8)->0;
    if full.contains('\0') {
        let i = choose|i: int| 0 <= i < full.len() && full[i] == '\0';
        if i < state.prefix.len() {
            assert(state.prefix[i] == '\0');
        } else if i > state.prefix.len() {
            assert(app_id[i - state.prefix.len() - 1] == '\0');
        }
    }
    wire_laws::law_shows_all_that_has_room(read, full);
}

/// What a client writes as the text of its `set_app_id` is what the compositor reads behind
/// the prefix and the colon, whatever stands in the header and behind the text.
pub proof fn law_app_id_from_client_to_compositor(
    state: ConnectionState,
    object_id: u32,
    header: Seq<u8>,
    app_id: Seq<char>,
    end: u8,
    rest: Seq<u8>,
)
    requires
        state.objects.toplevels.contains(object_id),
        header.len() == 8,
        !state.prefix.contains('\0'),
        !app_id.contains('\0'),
        encode_utf8(state.prefix + seq![':'] + app_id).len() <= 4083,
    ensures
        ({
            let bytes = encode_utf8(app_id);
            let msg = header + byte_order::word_bytes(state.order, (bytes.len() + 1) as u32)
                + bytes.push(end) + rest;
            wire::string_arg(state.order, state.outgoing(object_id, 3, msg).bytes, 8) == Some(
                state.prefix + seq![':'] + app_id,
            )
        }),
{
    let bytes = encode_utf8(app_id);
    let msg = header + byte_order::word_bytes(state.order, (bytes.len() + 1) as u32) + bytes.push(
        end,
    ) + rest;
    text::lemma_encode_concat(state.prefix + seq![':'], app_id);
    wire_laws::law_text_as_written(state.order, header, app_id, end, rest);
    law_app_id_kept_whole(state, object_id, msg, app_id);
}

/// After any request of the client no file descriptor of the client waits, and all but the
/// tracked objects and the new toplevel is as it was.
pub proof fn law_after_request(
    state: ConnectionState,
    object_id: u32,
    opcode: u16,
    msg: Seq<u8>,
)
    ensures
        state.after_message(object_id, opcode, msg) == (ConnectionState {
            objects: connection::objects_after(
                state.order,
                state.objects,
                object_id,
                opcode,
                msg,
            ),
            client_fds: Seq::empty(),
            new_toplevel: connection::toplevel_made(
                state.order,
                state.objects,
                object_id,
                opcode,
                msg,
            ),
            ..state
        }),
{
}

/// A request 0 of a tracked registry that reads as a `bind` makes the object that it names,
/// unless that is 0. No other request binds.
pub proof fn law_bind_made(
    order: ByteOrder,
    objects: Objects,
    object_id: u32,
    opcode: u16,
    msg: Seq<u8>,
    id: u32,
)
    ensures
        connection::bind_made(order, objects, object_id, opcode, msg) == Some(id) <==> {
            &&& id != 0
            &&& opcode == 0
            &&& objects.registries.contains(object_id)
            &&& wire::bind_request(order, msg) matches Some((_, bound_id))
            &&& bound_id == id
        },
{
}

} // verus!
