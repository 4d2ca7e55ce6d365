//! The xdg-shell objects of one client, as far as they lead to a toplevel.

use crate::opcodes;
use crate::text;
use crate::text::{append_decimal, same_text};
use crate::wire;
use vstd::prelude::*;

verus! {

/// The ids of the tracked objects, oldest first.
#[verifier::ext_equal]
pub struct Objects {
    /// `wl_registry` objects.
    pub registries: Seq<u32>,
    /// `xdg_wm_base` objects.
    pub wm_bases: Seq<u32>,
    /// `xdg_surface` objects.
    pub surfaces: Seq<u32>,
    /// `xdg_toplevel` objects.
    pub toplevels: Seq<u32>,
}

/// The predicate that holds of each id but `id`.
pub open spec fn other_than(id: u32) -> spec_fn(u32) -> bool {
    |other: u32| other != id
}

/// `ids` without each occurrence of `id`.
pub open spec fn without(ids: Seq<u32>, id: u32) -> Seq<u32> {
    ids.filter(other_than(id))
}

impl Objects {
    /// No objects.
    pub open spec fn empty() -> Objects {
        Objects {
            registries: Seq::empty(),
            wm_bases: Seq::empty(),
            surfaces: Seq::empty(),
            toplevels: Seq::empty(),
        }
    }

    /// No object has the id 0, which stands for no object.
    pub open spec fn valid(self) -> bool {
        &&& !self.registries.contains(0)
        &&& !self.wm_bases.contains(0)
        &&& !self.surfaces.contains(0)
        &&& !self.toplevels.contains(0)
    }

    /// After `wl_display.get_registry` made `new_id`. The id 0 is no object.
    pub open spec fn with_registry(self, new_id: u32) -> Objects {
        if new_id == 0 {
            self
        } else {
            Objects { registries: self.registries.push(new_id), ..self }
        }
    }

    /// After `wl_registry.bind` made `new_id`. Only `xdg_wm_base` is of interest, and the id
    /// 0 is no object.
    pub open spec fn with_bind(self, interface: Seq<char>, new_id: u32) -> Objects {
        if new_id != 0 && interface == wire::xdg_wm_base() {
            Objects { wm_bases: self.wm_bases.push(new_id), ..self }
        } else {
            self
        }
    }

    /// Whether the request makes the xdg_surface `new_id` for a tracked `xdg_wm_base`.
    pub open spec fn makes_surface(self, object_id: u32, opcode: u16, new_id: u32) -> bool {
        &&& new_id != 0
        &&& opcode == opcodes::XDG_WM_BASE_GET_XDG_SURFACE
        &&& self.wm_bases.contains(object_id)
    }

    /// Whether the request makes the xdg_toplevel `new_id` for a tracked `xdg_surface`.
    pub open spec fn makes_toplevel(self, object_id: u32, opcode: u16, new_id: u32) -> bool {
        &&& new_id != 0
        &&& opcode == opcodes::XDG_SURFACE_GET_TOPLEVEL
        &&& self.surfaces.contains(object_id)
    }

    /// After a request whose first argument is `new_id`.
    pub open spec fn with_request(self, object_id: u32, opcode: u16, new_id: u32) -> Objects {
        if self.makes_surface(object_id, opcode, new_id) {
            Objects { surfaces: self.surfaces.push(new_id), ..self }
        } else if self.makes_toplevel(object_id, opcode, new_id) {
            Objects { toplevels: self.toplevels.push(new_id), ..self }
        } else {
            self
        }
    }

    /// Whether the request destroys a tracked object.
    pub open spec fn destroys(self, object_id: u32, opcode: u16) -> bool {
        ||| opcode == opcodes::XDG_TOPLEVEL_DESTROY && self.toplevels.contains(object_id)
        ||| opcode == opcodes::XDG_SURFACE_DESTROY && self.surfaces.contains(object_id)
        ||| opcode == opcodes::XDG_WM_BASE_DESTROY && self.wm_bases.contains(object_id)
    }

    /// After a request that may destroy `object_id`. An id that is tracked as more than one
    /// kind of object is taken for the kind farthest down: toplevel, surface, base.
    pub open spec fn with_destroy(self, object_id: u32, opcode: u16) -> Objects {
        if !self.destroys(object_id, opcode) {
            self
        } else if self.toplevels.contains(object_id) {
            Objects { toplevels: without(self.toplevels, object_id), ..self }
        } else if self.surfaces.contains(object_id) {
            Objects { surfaces: without(self.surfaces, object_id), ..self }
        } else {
            Objects { wm_bases: without(self.wm_bases, object_id), ..self }
        }
    }

    /// Whether the request is `xdg_toplevel.set_app_id` for a tracked toplevel.
    pub open spec fn sets_app_id(self, object_id: u32, opcode: u16) -> bool {
        opcode == opcodes::XDG_TOPLEVEL_SET_APP_ID && self.toplevels.contains(object_id)
    }

    /// How many objects of each kind are tracked, as a line of text.
    pub open spec fn stats(self) -> Seq<char> {
        "registries="@ + text::decimal(self.registries.len()) + ", wm_bases="@ + text::decimal(
            self.wm_bases.len(),
        ) + ", surfaces="@ + text::decimal(self.surfaces.len()) + ", toplevels="@ + text::decimal(
            self.toplevels.len(),
        )
    }
}

/// `without` takes out the one id and leaves the others.
pub proof fn lemma_without(ids: Seq<u32>, id: u32)
    ensures
        forall|other: u32|
            #[trigger] without(ids, id).contains(other) <==> other != id && ids.contains(other),
{
    let keep = other_than(id);
    let rest = without(ids, id);
    assert forall|other: u32| #[trigger] rest.contains(other) implies other != id && ids.contains(
        other,
    ) by {
        let i = choose|i: int| 0 <= i < rest.len() && rest[i] == other;
        ids.lemma_filter_pred(keep, i);
        ids.lemma_filter_contains_rev(keep, other);
    }
    assert forall|other: u32| other != id && ids.contains(other) implies #[trigger] rest.contains(
        other,
    ) by {
        let i = choose|i: int| 0 <= i < ids.len() && ids[i] == other;
        ids.lemma_filter_contains(keep, i);
    }
}

/// Whether `id` is one of `ids`.
fn contains_id(ids: &Vec<u32>, id: u32) -> (found: bool)
    ensures
        found == ids@.contains(id),
{
    let mut i: usize = 0;
    while i < ids.len()
        invariant
            i <= ids@.len(),
            forall|j: int| 0 <= j < i ==> ids@[j] != id,
        decreases ids@.len() - i,
    {
        if ids[i] == id {
            return true;
        }
        i = i + 1;
    }
    false
}

/// Takes each occurrence of `id` out of `ids`.
fn remove_id(ids: &mut Vec<u32>, id: u32)
    ensures
        final(ids)@ == without(old(ids)@, id),
{
    let mut kept: Vec<u32> = Vec::new();
    let mut i: usize = 0;
    while i < ids.len()
        invariant
            i <= ids@.len(),
            kept@ == without(ids@.take(i as int), id),
        decreases ids@.len() - i,
    {
        let other: u32 = ids[i];
        proof {
            reveal(Seq::filter);
            assert(ids@.take(i + 1).drop_last() =~= ids@.take(i as int));
        }
        if other != id {
            kept.push(other);
        }
        i = i + 1;
    }
    assert(ids@.take(ids@.len() as int) =~= ids@);
    *ids = kept;
}

/// Tracks the objects on the way to an `xdg_toplevel`:
/// - `wl_registry` (from `wl_display.get_registry`)
/// - `xdg_wm_base` (from `wl_registry.bind`)
/// - `xdg_surface` (from `xdg_wm_base.get_xdg_surface`)
/// - `xdg_toplevel` (from `xdg_surface.get_toplevel`)
///
/// Only ids other than 0 are tracked. An object is forgotten when it is destroyed, so that
/// its id can be used again.
#[derive(Debug)]
pub struct ObjectTracker {
    wl_registries: Vec<u32>,
    xdg_wm_bases: Vec<u32>,
    xdg_surfaces: Vec<u32>,
    xdg_toplevels: Vec<u32>,
}

impl View for ObjectTracker {
    type V = Objects;

    closed spec fn view(&self) -> Objects {
        Objects {
            registries: self.wl_registries@,
            wm_bases: self.xdg_wm_bases@,
            surfaces: self.xdg_surfaces@,
            toplevels: self.xdg_toplevels@,
        }
    }
}

impl Default for ObjectTracker {
    /// A tracker of no objects.
    fn default() -> (tracker: Self)
        ensures
            tracker@ == Objects::empty(),
    {
        ObjectTracker {
            wl_registries: Vec::new(),
            xdg_wm_bases: Vec::new(),
            xdg_surfaces: Vec::new(),
            xdg_toplevels: Vec::new(),
        }
    }
}

impl ObjectTracker {
    /// A tracker of no objects.
    pub fn new() -> (tracker: Self)
        ensures
            tracker@ == Objects::empty(),
            tracker@.valid(),
    {
        ObjectTracker::default()
    }

    /// Tracks the `wl_registry` that a `wl_display.get_registry` request made, unless its id
    /// is 0.
    pub fn track_registry(&mut self, new_id: u32)
        ensures
            final(self)@ == old(self)@.with_registry(new_id),
            new_id == 0 ==> final(self)@ == old(self)@,
            old(self)@.valid() ==> final(self)@.valid(),
    {
        if new_id != 0 {
            proof {
                lemma_push_valid(old(self)@.registries, new_id);
            }
            self.wl_registries.push(new_id);
        }
    }

    /// Whether `id` is a tracked `wl_registry`.
    pub fn is_wl_registry(&self, id: u32) -> (known: bool)
        ensures
            known == self@.registries.contains(id),
    {
        contains_id(&self.wl_registries, id)
    }

    /// Tracks the object that a `wl_registry.bind` request made, if it is an `xdg_wm_base`
    /// and its id is not 0.
    pub fn track_bind(&mut self, interface: &str, new_id: u32)
        ensures
            final(self)@ == old(self)@.with_bind(interface@, new_id),
            new_id == 0 ==> final(self)@ == old(self)@,
            old(self)@.valid() ==> final(self)@.valid(),
    {
        if new_id != 0 && same_text(interface, "xdg_wm_base") {
            proof {
                lemma_push_valid(old(self)@.wm_bases, new_id);
            }
            self.xdg_wm_bases.push(new_id);
        }
    }

    /// Tracks the `xdg_surface` or `xdg_toplevel` that a request made, if it made one.
    /// Returns the id of a new toplevel.
    pub fn track_request(&mut self, object_id: u32, opcode: u16, new_id: u32) -> (toplevel: Option<
        u32,
    >)
        ensures
            final(self)@ == old(self)@.with_request(object_id, opcode, new_id),
            toplevel == if old(self)@.makes_toplevel(object_id, opcode, new_id) {
                Some(new_id)
            } else {
                None::<u32>
            },
            old(self)@.valid() ==> final(self)@.valid(),
    {
        if new_id == 0 {
            return None;
        }
        proof {
            lemma_push_valid(old(self)@.surfaces, new_id);
            lemma_push_valid(old(self)@.toplevels, new_id);
        }
        if opcode == opcodes::XDG_WM_BASE_GET_XDG_SURFACE && self.is_xdg_wm_base(object_id) {
            self.xdg_surfaces.push(new_id);
            return None;
        }
        if opcode == opcodes::XDG_SURFACE_GET_TOPLEVEL && self.is_xdg_surface(object_id) {
            self.xdg_toplevels.push(new_id);
            return Some(new_id);
        }
        None
    }

    /// Whether `id` is a tracked `xdg_wm_base`.
    pub fn is_xdg_wm_base(&self, id: u32) -> (known: bool)
        ensures
            known == self@.wm_bases.contains(id),
    {
        contains_id(&self.xdg_wm_bases, id)
    }

    /// Whether `id` is a tracked `xdg_surface`.
    pub fn is_xdg_surface(&self, id: u32) -> (known: bool)
        ensures
            known == self@.surfaces.contains(id),
    {
        contains_id(&self.xdg_surfaces, id)
    }

    /// Whether `id` is a tracked `xdg_toplevel`.
    pub fn is_xdg_toplevel(&self, id: u32) -> (known: bool)
        ensures
            known == self@.toplevels.contains(id),
    {
        contains_id(&self.xdg_toplevels, id)
    }

    /// Whether the request is `xdg_toplevel.set_app_id` for a tracked toplevel.
    pub fn is_set_app_id(&self, object_id: u32, opcode: u16) -> (sets: bool)
        ensures
            sets == self@.sets_app_id(object_id, opcode),
    {
        opcode == opcodes::XDG_TOPLEVEL_SET_APP_ID && self.is_xdg_toplevel(object_id)
    }

    /// Forgets `object_id` if the request destroys it. Returns whether it was tracked.
    pub fn track_destroy(&mut self, object_id: u32, opcode: u16) -> (known: bool)
        ensures
            final(self)@ == old(self)@.with_destroy(object_id, opcode),
            known == old(self)@.destroys(object_id, opcode),
            old(self)@.valid() ==> final(self)@.valid(),
    {
        proof {
            lemma_without(old(self)@.toplevels, object_id);
            lemma_without(old(self)@.surfaces, object_id);
            lemma_without(old(self)@.wm_bases, object_id);
        }
        if opcode == opcodes::XDG_TOPLEVEL_DESTROY && self.is_xdg_toplevel(object_id) {
            remove_id(&mut self.xdg_toplevels, object_id);
            return true;
        }
        if opcode == opcodes::XDG_SURFACE_DESTROY && self.is_xdg_surface(object_id) {
            remove_id(&mut self.xdg_surfaces, object_id);
            return true;
        }
        if opcode == opcodes::XDG_WM_BASE_DESTROY && self.is_xdg_wm_base(object_id) {
            remove_id(&mut self.xdg_wm_bases, object_id);
            return true;
        }
        false
    }

    /// How many objects of each kind are tracked, as a line of text.
    pub fn stats(&self) -> (line: String)
        ensures
            line@ == self@.stats(),
    {
        let mut line: String = String::new();
        line.append("registries=");
        append_decimal(&mut line, self.wl_registries.len());
        line.append(", wm_bases=");
        append_decimal(&mut line, self.xdg_wm_bases.len());
        line.append(", surfaces=");
        append_decimal(&mut line, self.xdg_surfaces.len());
        line.append(", toplevels=");
        append_decimal(&mut line, self.xdg_toplevels.len());
        assert(line@ =~= self@.stats());
        line
    }
}

proof fn lemma_push_valid(ids: Seq<u32>, new_id: u32)
    requires
        new_id != 0,
    ensures
        ids.push(new_id).contains(0) == ids.contains(0),
{
    let pushed = ids.push(new_id);
    if pushed.contains(0) {
        let i = choose|i: int| 0 <= i < pushed.len() && pushed[i] == 0;
        assert(ids[i] == 0);
    }
    if ids.contains(0) {
        let i = choose|i: int| 0 <= i < ids.len() && ids[i] == 0;
        assert(pushed[i] == 0);
    }
}

} // verus!
