//! Plain data of the compositor interface: the opaque handle kinds, rectangles,
//! screens, binding kinds and the numeric constants of the protocol.

use vstd::prelude::*;

verus! {

/// A Wayland display, known by its address.
#[derive(Debug, Clone, Copy, PartialEq, Eq, Structural)]
pub enum wl_display {
    Address(usize),
}

/// A Wayland event loop, known by its address.
#[derive(Debug, Clone, Copy, PartialEq, Eq, Structural)]
pub enum wl_event_loop {
    Address(usize),
}

/// A libinput device, known by its address.
#[derive(Debug, Clone, Copy, PartialEq, Eq, Structural)]
pub enum libinput_device {
    Address(usize),
}

/// An axis-aligned rectangle in compositor coordinates.
#[derive(Debug, Clone, Copy, PartialEq, Eq, Structural)]
pub struct swc_rectangle {
    pub x: i32,
    pub y: i32,
    pub width: u32,
    pub height: u32,
}

/// The geometry of an output, whole and without panels.
#[derive(Debug, Clone, Copy, PartialEq, Eq, Structural)]
pub struct swc_screen {
    pub geometry: swc_rectangle,
    pub usable_geometry: swc_rectangle,
}

/// What a binding reacts to.
#[derive(Debug, Clone, Copy, PartialEq, Eq, Structural)]
pub enum swc_binding_type {
    SWC_BINDING_KEY,
    SWC_BINDING_BUTTON,
}

pub const LIBINPUT_CONFIG_STATUS_SUCCESS: i32 = 0;

pub const LIBINPUT_CONFIG_TAP_DISABLED: i32 = 0;
pub const LIBINPUT_CONFIG_TAP_ENABLED: i32 = 1;

pub const LIBINPUT_CONFIG_DRAG_DISABLED: i32 = 0;
pub const LIBINPUT_CONFIG_DRAG_ENABLED: i32 = 1;

pub const LIBINPUT_CONFIG_DWT_DISABLED: i32 = 0;
pub const LIBINPUT_CONFIG_DWT_ENABLED: i32 = 1;

pub const LIBINPUT_CONFIG_CLICK_METHOD_NONE: u32 = 0;
pub const LIBINPUT_CONFIG_CLICK_METHOD_BUTTON_AREAS: u32 = 1;
pub const LIBINPUT_CONFIG_CLICK_METHOD_CLICKFINGER: u32 = 2;

pub const SWC_CURSOR_DEFAULT: u32 = 0;
pub const SWC_CURSOR_BOX: u32 = 1;
pub const SWC_CURSOR_CROSS: u32 = 2;
pub const SWC_CURSOR_SIGHT: u32 = 3;
pub const SWC_CURSOR_UP: u32 = 4;
pub const SWC_CURSOR_DOWN: u32 = 5;

pub const SWC_CURSOR_MODE_CLIENT: u32 = 0;
pub const SWC_CURSOR_MODE_COMPOSITOR: u32 = 1;

pub const SWC_WINDOW_EDGE_AUTO: u32 = 0;
pub const SWC_WINDOW_EDGE_TOP: u32 = 1;
pub const SWC_WINDOW_EDGE_BOTTOM: u32 = 2;
pub const SWC_WINDOW_EDGE_LEFT: u32 = 4;
pub const SWC_WINDOW_EDGE_RIGHT: u32 = 8;

pub const SWC_MOD_CTRL: u32 = 1;
pub const SWC_MOD_ALT: u32 = 2;
pub const SWC_MOD_LOGO: u32 = 4;
pub const SWC_MOD_SHIFT: u32 = 8;
pub const SWC_MOD_ANY: u32 = 0xffff_ffff;

pub const XKB_KEY_Return: u32 = 0xff0d;
pub const XKB_KEY_r: u32 = 0x0072;
pub const XKB_KEY_q: u32 = 0x0071;
pub const XKB_KEY_space: u32 = 0x0020;
pub const XKB_KEY_h: u32 = 0x0068;
pub const XKB_KEY_j: u32 = 0x006a;
pub const XKB_KEY_k: u32 = 0x006b;
pub const XKB_KEY_l: u32 = 0x006c;
pub const XKB_KEY_f: u32 = 0x0066;
pub const XKB_KEY_Escape: u32 = 0xff1b;
pub const XKB_KEY_Tab: u32 = 0xff09;
pub const XKB_KEY_d: u32 = 0x0064;
pub const XKB_KEY_m: u32 = 0x006d;
pub const XKB_KEY_minus: u32 = 0x002d;
pub const XKB_KEY_equal: u32 = 0x003d;
pub const XKB_KEY_0: u32 = 0x0030;

pub const XKB_KEY_XF86MonBrightnessUp: u32 = 0x1008ff02;
pub const XKB_KEY_XF86MonBrightnessDown: u32 = 0x1008ff03;
pub const XKB_KEY_XF86AudioLowerVolume: u32 = 0x1008ff11;
pub const XKB_KEY_XF86AudioMute: u32 = 0x1008ff12;
pub const XKB_KEY_XF86AudioRaiseVolume: u32 = 0x1008ff13;

/// The mouse button that starts an interactive resize.
pub const BTN_RIGHT: u32 = 0x111;

} // verus!
