//! What holds of the tracked objects.

use crate::text;
use crate::tracker;
use crate::tracker::Objects;
use crate::wire;
use vstd::prelude::*;

verus! {

/// A destroyed object is forgotten, and its id can be used again: of the kind that it was
/// known as, no object has its id any more, and no other object is touched.
pub proof fn law_destroy_forgets(objects: Objects, object_id: u32, opcode: u16)
    ensures
        ({
            let after = objects.with_destroy(object_id, opcode);
            &&& objects.destroys(object_id, opcode) && objects.toplevels.contains(object_id)
                ==> !after.toplevels.contains(object_id)
            &&& objects.destroys(object_id, opcode) && !objects.toplevels.contains(object_id)
                && objects.surfaces.contains(object_id) ==> !after.surfaces.contains(object_id)
            &&& objects.destroys(object_id, opcode) && !objects.toplevels.contains(object_id)
                && !objects.surfaces.contains(object_id) ==> !after.wm_bases.contains(object_id)
            &&& !objects.destroys(object_id, opcode) ==> after == objects
            &&& after.registries == objects.registries
            &&& forall|id: u32| #[trigger]
                after.toplevels.contains(id) ==> objects.toplevels.contains(id)
            &&& forall|id: u32| #[trigger]
                after.surfaces.contains(id) ==> objects.surfaces.contains(id)
            &&& forall|id: u32| #[trigger]
                after.wm_bases.contains(id) ==> objects.wm_bases.contains(id)
            &&& forall|id: u32|
                id != object_id ==> #[trigger] after.toplevels.contains(id)
                    == objects.toplevels.contains(id)
            &&& forall|id: u32|
                id != object_id ==> #[trigger] after.surfaces.contains(id)
                    == objects.surfaces.contains(id)
            &&& forall|id: u32|
                id != object_id ==> #[trigger] after.wm_bases.contains(id)
                    == objects.wm_bases.contains(id)
        }),
{
    tracker::lemma_without(objects.toplevels, object_id);
    tracker::lemma_without(objects.surfaces, object_id);
    tracker::lemma_without(objects.wm_bases, object_id);
}

/// Tracking an object makes it known, and makes no other object known or forgotten.
proof fn lemma_push_contains(ids: Seq<u32>, new_id: u32)
    ensures
        forall|id: u32| #[trigger]
            ids.push(new_id).contains(id) <==> id == new_id || ids.contains(id),
{
    let pushed = ids.push(new_id);
    assert(pushed.last() == new_id);
    assert forall|id: u32| #[trigger] pushed.contains(id) <==> id == new_id || ids.contains(
        id,
    ) by {
        if pushed.contains(id) && id != new_id {
            let i = choose|i: int| 0 <= i < pushed.len() && pushed[i] == id;
            assert(ids[i] == id);
        }
        if ids.contains(id) {
            let i = choose|i: int| 0 <= i < ids.len() && ids[i] == id;
            assert(pushed[i] == id);
        }
    }
}

/// After `get_registry`, the new registry is known and everything else is as it was. The id
/// 0 changes nothing.
pub proof fn law_registry_known(objects: Objects, new_id: u32)
    ensures
        new_id != 0 ==> objects.with_registry(new_id).registries.contains(new_id),
        new_id == 0 ==> objects.with_registry(new_id) == objects,
        forall|id: u32|
            id != new_id ==> #[trigger] objects.with_registry(new_id).registries.contains(id)
                == objects.registries.contains(id),
{
    lemma_push_contains(objects.registries, new_id);
}

/// Only the interface `xdg_wm_base` is tracked. After a `bind` to it, the new object is
/// known; after any other `bind`, or one with the id 0, everything is as it was.
pub proof fn law_only_xdg_wm_base_bound(objects: Objects, interface: Seq<char>, new_id: u32)
    ensures
        new_id != 0 && interface == wire::xdg_wm_base() ==> objects.with_bind(
            interface,
            new_id,
        ).wm_bases.contains(new_id),
        new_id == 0 || interface != wire::xdg_wm_base() ==> objects.with_bind(interface, new_id)
            == objects,
        forall|id: u32|
            id != new_id ==> #[trigger] objects.with_bind(interface, new_id).wm_bases.contains(id)
                == objects.wm_bases.contains(id),
{
    lemma_push_contains(objects.wm_bases, new_id);
}

/// A surface becomes known only by `get_xdg_surface` of a known `xdg_wm_base`, and a
/// toplevel only by `get_toplevel` of a known surface. Everything else stays as it was.
pub proof fn law_request_makes_known(objects: Objects, object_id: u32, opcode: u16, new_id: u32)
    ensures
        ({
            let after = objects.with_request(object_id, opcode, new_id);
            &&& forall|id: u32| #[trigger]
                after.surfaces.contains(id) <==> objects.surfaces.contains(id) || id == new_id
                    && objects.makes_surface(object_id, opcode, new_id)
            &&& forall|id: u32| #[trigger]
                after.toplevels.contains(id) <==> objects.toplevels.contains(id) || id == new_id
                    && objects.makes_toplevel(object_id, opcode, new_id)
            &&& after.registries == objects.registries
            &&& after.wm_bases == objects.wm_bases
        }),
{
    lemma_push_contains(objects.surfaces, new_id);
    lemma_push_contains(objects.toplevels, new_id);
}

/// Each way of tracking keeps the ids other than 0.
pub proof fn law_ids_not_zero(
    objects: Objects,
    object_id: u32,
    opcode: u16,
    interface: Seq<char>,
    new_id: u32,
)
    requires
        objects.valid(),
    ensures
        objects.with_registry(new_id).valid(),
        objects.with_bind(interface, new_id).valid(),
        objects.with_request(object_id, opcode, new_id).valid(),
        objects.with_destroy(object_id, opcode).valid(),
{
    lemma_push_contains(objects.registries, new_id);
    lemma_push_contains(objects.wm_bases, new_id);
    law_request_makes_known(objects, object_id, opcode, new_id);
    law_destroy_forgets(objects, object_id, opcode);
}

/// At first nothing is tracked.
pub proof fn law_nothing_tracked_at_first(id: u32)
    ensures
        !Objects::empty().registries.contains(id),
        !Objects::empty().wm_bases.contains(id),
        !Objects::empty().surfaces.contains(id),
        !Objects::empty().toplevels.contains(id),
        Objects::empty().stats() == "registries="@ + text::decimal(0) + ", wm_bases="@
            + text::decimal(0) + ", surfaces="@ + text::decimal(0) + ", toplevels="@
            + text::decimal(0),
{
}

/// Each new registry is tracked behind those before, and nothing else changes. The id 0 is
/// not tracked.
pub proof fn law_registry_tracked(objects: Objects, new_id: u32)
    ensures
        new_id != 0 ==> objects.with_registry(new_id) == (Objects {
            registries: objects.registries.push(new_id),
            ..objects
        }),
        objects.with_registry(0) == objects,
{
}

/// Each object that is bound as `xdg_wm_base` is tracked behind those before, and nothing
/// else changes. No other interface is tracked, nor the id 0.
pub proof fn law_bind_tracked(objects: Objects, interface: Seq<char>, new_id: u32)
    ensures
        new_id != 0 ==> objects.with_bind("xdg_wm_base"@, new_id) == (Objects {
            wm_bases: objects.wm_bases.push(new_id),
            ..objects
        }),
        interface != "xdg_wm_base"@ ==> objects.with_bind(interface, new_id) == objects,
        objects.with_bind(interface, 0) == objects,
{
}

/// The request 2 of each tracked `xdg_wm_base` makes a surface, and the request 1 of each
/// tracked surface makes a toplevel: the new object is tracked behind those before, and
/// nothing else changes. No other request makes one, and neither does one with the id 0.
pub proof fn law_request_tracked(objects: Objects, object_id: u32, opcode: u16, new_id: u32)
    ensures
        new_id != 0 && objects.wm_bases.contains(object_id) ==> objects.with_request(
            object_id,
            2,
            new_id,
        ) == (Objects { surfaces: objects.surfaces.push(new_id), ..objects }),
        new_id != 0 && objects.surfaces.contains(object_id) ==> objects.with_request(
            object_id,
            1,
            new_id,
        ) == (Objects { toplevels: objects.toplevels.push(new_id), ..objects }),
        !objects.wm_bases.contains(object_id) ==> objects.with_request(object_id, 2, new_id)
            == objects,
        !objects.surfaces.contains(object_id) ==> objects.with_request(object_id, 1, new_id)
            == objects,
        opcode != 1 && opcode != 2 ==> objects.with_request(object_id, opcode, new_id) == objects,
        objects.with_request(object_id, opcode, 0) == objects,
        objects.makes_toplevel(object_id, opcode, new_id) <==> {
            &&& objects.surfaces.contains(object_id)
            &&& opcode == 1
            &&& new_id != 0
        },
        objects.makes_surface(object_id, opcode, new_id) <==> {
            &&& objects.wm_bases.contains(object_id)
            &&& opcode == 2
            &&& new_id != 0
        },
{
}

/// The request 0 of a tracked toplevel, surface or `xdg_wm_base` destroys it: the ids of
/// that kind are left without it, in their order, and nothing else changes. An id of more
/// than one kind is taken for a toplevel first, then for a surface. No other request
/// destroys anything.
pub proof fn law_destroy_untracked(objects: Objects, object_id: u32, opcode: u16)
    ensures
        opcode != 0 ==> objects.with_destroy(object_id, opcode) == objects && !objects.destroys(
            object_id,
            opcode,
        ),
        objects.destroys(object_id, 0) <==> objects.toplevels.contains(object_id)
            || objects.surfaces.contains(object_id) || objects.wm_bases.contains(object_id),
        objects.with_destroy(object_id, 0) == if objects.toplevels.contains(object_id) {
            Objects { toplevels: objects.toplevels.filter(|id: u32| id != object_id), ..objects }
        } else if objects.surfaces.contains(object_id) {
            Objects { surfaces: objects.surfaces.filter(|id: u32| id != object_id), ..objects }
        } else if objects.wm_bases.contains(object_id) {
            Objects { wm_bases: objects.wm_bases.filter(|id: u32| id != object_id), ..objects }
        } else {
            objects
        },
{
    assert(tracker::other_than(object_id) =~= (|id: u32| id != object_id));
}

/// The request 3 is `set_app_id` for each tracked toplevel, whichever of them it is, and for
/// nothing else. No other request is `set_app_id`.
pub proof fn law_set_app_id_known(objects: Objects, object_id: u32, opcode: u16, i: int)
    ensures
        objects.sets_app_id(object_id, 3) <==> objects.toplevels.contains(object_id),
        0 <= i < objects.toplevels.len() ==> objects.sets_app_id(objects.toplevels[i], 3),
        opcode != 3 ==> !objects.sets_app_id(object_id, opcode),
{
}

/// The line of text has the number of objects of each kind, in this order.
pub proof fn law_stats_count_each_kind(objects: Objects)
    ensures
        objects.stats() == "registries="@ + text::decimal(objects.registries.len())
            + ", wm_bases="@ + text::decimal(objects.wm_bases.len()) + ", surfaces="@
            + text::decimal(objects.surfaces.len()) + ", toplevels="@ + text::decimal(
            objects.toplevels.len(),
        ),
{
}

/// Objects are valid exactly if no kind has one with the id 0.
pub proof fn law_valid_has_no_zero(objects: Objects)
    ensures
        objects.valid() <==> !(objects.registries + objects.wm_bases + objects.surfaces
            + objects.toplevels).contains(0),
{
    let a = objects.registries;
    let b = objects.wm_bases;
    let c = objects.surfaces;
    let d = objects.toplevels;
    let all = a + b + c + d;
    if all.contains(0) {
        let i = choose|i: int| 0 <= i < all.len() && all[i] == 0;
        if i < a.len() {
            assert(a[i] == 0);
        } else if i < a.len() + b.len() {
            assert(b[i - a.len()] == 0);
        } else if i < a.len() + b.len() + c.len() {
            assert(c[i - a.len() - b.len()] == 0);
        } else {
            assert(d[i - a.len() - b.len() - c.len()] == 0);
        }
    }
    if a.contains(0) {
        let i = choose|i: int| 0 <= i < a.len() && a[i] == 0;
        assert(all[i] == 0);
    }
    if b.contains(0) {
        let i = choose|i: int| 0 <= i < b.len() && b[i] == 0;
        assert(all[a.len() + i] == 0);
    }
    if c.contains(0) {
        let i = choose|i: int| 0 <= i < c.len() && c[i] == 0;
        assert(all[a.len() + b.len() + i] == 0);
    }
    if d.contains(0) {
        let i = choose|i: int| 0 <= i < d.len() && d[i] == 0;
        assert(all[a.len() + b.len() + c.len() + i] == 0);
    }
}

} // verus!
