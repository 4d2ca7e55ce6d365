//! Opcodes of the requests that the proxy looks at.

use vstd::prelude::*;

verus! {

/// `wl_display.get_registry`
pub const WL_DISPLAY_GET_REGISTRY: u16 = 1;

/// `wl_registry.bind`
pub const WL_REGISTRY_BIND: u16 = 0;

/// `xdg_wm_base.destroy`
pub const XDG_WM_BASE_DESTROY: u16 = 0;

/// `xdg_wm_base.get_xdg_surface`
pub const XDG_WM_BASE_GET_XDG_SURFACE: u16 = 2;

/// `xdg_surface.destroy`
pub const XDG_SURFACE_DESTROY: u16 = 0;

/// `xdg_surface.get_toplevel`
pub const XDG_SURFACE_GET_TOPLEVEL: u16 = 1;

/// `xdg_toplevel.destroy`
pub const XDG_TOPLEVEL_DESTROY: u16 = 0;

/// `xdg_toplevel.set_app_id`
pub const XDG_TOPLEVEL_SET_APP_ID: u16 = 3;

} // verus!
