//! Input configuration: how a touchpad is set up, and which keys and buttons
//! do what.

use vstd::prelude::*;
use crate::swc::{
    swc_binding_type, LIBINPUT_CONFIG_CLICK_METHOD_BUTTON_AREAS, LIBINPUT_CONFIG_CLICK_METHOD_CLICKFINGER,
    LIBINPUT_CONFIG_CLICK_METHOD_NONE, LIBINPUT_CONFIG_DRAG_ENABLED, LIBINPUT_CONFIG_DWT_DISABLED,
    LIBINPUT_CONFIG_DWT_ENABLED, LIBINPUT_CONFIG_TAP_ENABLED, SWC_MOD_ALT, SWC_MOD_CTRL, SWC_MOD_LOGO,
    SWC_MOD_SHIFT, XKB_KEY_Return, XKB_KEY_d, XKB_KEY_q, XKB_KEY_j, XKB_KEY_k, XKB_KEY_f, XKB_KEY_equal,
    XKB_KEY_minus, XKB_KEY_0, XKB_KEY_m, XKB_KEY_r, XKB_KEY_h, XKB_KEY_l, BTN_RIGHT,
};
use crate::text::{switches_on, setting_enabled};

verus! {

/// The click method preferred among those a device offers (`methods`, a bit
/// set): clicking with fingers, else button areas, else none.
pub open spec fn preferred_click_method_of(methods: u32) -> u32 {
    if methods & LIBINPUT_CONFIG_CLICK_METHOD_CLICKFINGER != 0 {
        LIBINPUT_CONFIG_CLICK_METHOD_CLICKFINGER
    } else if methods & LIBINPUT_CONFIG_CLICK_METHOD_BUTTON_AREAS != 0 {
        LIBINPUT_CONFIG_CLICK_METHOD_BUTTON_AREAS
    } else {
        LIBINPUT_CONFIG_CLICK_METHOD_NONE
    }
}

pub fn preferred_click_method(methods: u32) -> (r: u32)
    ensures
        r == preferred_click_method_of(methods),
{
    if methods & LIBINPUT_CONFIG_CLICK_METHOD_CLICKFINGER != 0 {
        LIBINPUT_CONFIG_CLICK_METHOD_CLICKFINGER
    } else if methods & LIBINPUT_CONFIG_CLICK_METHOD_BUTTON_AREAS != 0 {
        LIBINPUT_CONFIG_CLICK_METHOD_BUTTON_AREAS
    } else {
        LIBINPUT_CONFIG_CLICK_METHOD_NONE
    }
}

/// The settings given to a touchpad.
#[derive(Debug, Clone, Copy, PartialEq, Eq, Structural)]
pub struct TouchpadConfig {
    /// Tap-to-click state.
    pub tap: i32,
    /// Tap-and-drag state.
    pub drag: i32,
    /// The click method to set, if any.
    pub click_method: Option<u32>,
    /// The disable-while-typing state to set, if the device has the feature.
    pub dwt: Option<i32>,
}

/// How a device is configured, given what it reports: the number of fingers
/// it can tap with, its click methods, whether it can disable itself while
/// typing, and the user's disable-while-typing setting. A device that cannot be
/// tapped is no touchpad and is left alone (`None`).
pub open spec fn touchpad_config_of(
    tap_finger_count: i32,
    click_methods: u32,
    dwt_available: bool,
    dwt_setting: Option<Seq<char>>,
) -> Option<TouchpadConfig> {
    if tap_finger_count <= 0 {
        None
    } else {
        let method = preferred_click_method_of(click_methods);
        Some(TouchpadConfig {
            tap: LIBINPUT_CONFIG_TAP_ENABLED,
            drag: LIBINPUT_CONFIG_DRAG_ENABLED,
            click_method: if method != LIBINPUT_CONFIG_CLICK_METHOD_NONE { Some(method) } else { None },
            dwt: if dwt_available {
                Some(
                    if dwt_setting is Some && switches_on(dwt_setting->0) {
                        LIBINPUT_CONFIG_DWT_ENABLED
                    } else {
                        LIBINPUT_CONFIG_DWT_DISABLED
                    },
                )
            } else {
                None
            },
        })
    }
}

pub fn touchpad_config(
    tap_finger_count: i32,
    click_methods: u32,
    dwt_available: bool,
    dwt_setting: Option<&str>,
) -> (r: Option<TouchpadConfig>)
    ensures
        r == touchpad_config_of(
            tap_finger_count,
            click_methods,
            dwt_available,
            match dwt_setting { Some(v) => Some(v@), None => None },
        ),
{
    if tap_finger_count <= 0 {
        return None;
    }
    let method = preferred_click_method(click_methods);
    let click_method = if method != LIBINPUT_CONFIG_CLICK_METHOD_NONE { Some(method) } else { None };
    let dwt = if dwt_available {
        let enabled = match dwt_setting {
            Some(v) => setting_enabled(v),
            None => false,
        };
        Some(if enabled { LIBINPUT_CONFIG_DWT_ENABLED } else { LIBINPUT_CONFIG_DWT_DISABLED })
    } else {
        None
    };
    Some(TouchpadConfig {
        tap: LIBINPUT_CONFIG_TAP_ENABLED,
        drag: LIBINPUT_CONFIG_DRAG_ENABLED,
        click_method,
        dwt,
    })
}

/// What a binding does.
#[derive(Debug, Clone, Copy, PartialEq, Eq, Structural)]
pub enum BindingAction {
    SpawnTerminal,
    SpawnLauncher,
    Quit,
    CloseWindow,
    FocusNext,
    FocusPrev,
    ToggleFullscreen,
    PanToNextWindow,
    PanToPrevWindow,
    ZoomIn,
    ZoomOut,
    ZoomReset,
    KeyMove,
    KeyResize,
    MoveLeft,
    MoveRight,
    MoveUp,
    MoveDown,
    ResizeNarrower,
    ResizeWider,
    ResizeTaller,
    ResizeShorter,
    MouseResize,
}

/// A key or button, with the modifiers held, and what it does.
#[derive(Debug, Clone, Copy, PartialEq, Eq, Structural)]
pub struct Binding {
    pub kind: swc_binding_type,
    pub modifiers: u32,
    pub value: u32,
    pub action: BindingAction,
}

pub open spec fn key(modifiers: u32, value: u32, action: BindingAction) -> Binding {
    Binding { kind: swc_binding_type::SWC_BINDING_KEY, modifiers, value, action }
}

/// The bindings, in the order they are registered.
pub open spec fn bindings_table() -> Seq<Binding> {
    seq![
        key(SWC_MOD_LOGO, XKB_KEY_Return, BindingAction::SpawnTerminal),
        key(SWC_MOD_LOGO, XKB_KEY_d, BindingAction::SpawnLauncher),
        key(SWC_MOD_LOGO, XKB_KEY_q, BindingAction::Quit),
        key(SWC_MOD_LOGO | SWC_MOD_SHIFT, XKB_KEY_q, BindingAction::CloseWindow),
        key(SWC_MOD_LOGO, XKB_KEY_j, BindingAction::FocusNext),
        key(SWC_MOD_LOGO, XKB_KEY_k, BindingAction::FocusPrev),
        key(SWC_MOD_LOGO, XKB_KEY_f, BindingAction::ToggleFullscreen),
        key(SWC_MOD_LOGO | SWC_MOD_SHIFT, XKB_KEY_j, BindingAction::PanToNextWindow),
        key(SWC_MOD_LOGO | SWC_MOD_SHIFT, XKB_KEY_k, BindingAction::PanToPrevWindow),
        key(SWC_MOD_LOGO, XKB_KEY_equal, BindingAction::ZoomIn),
        key(SWC_MOD_LOGO, XKB_KEY_minus, BindingAction::ZoomOut),
        key(SWC_MOD_LOGO, XKB_KEY_0, BindingAction::ZoomReset),
        key(SWC_MOD_LOGO, XKB_KEY_m, BindingAction::KeyMove),
        key(SWC_MOD_LOGO, XKB_KEY_r, BindingAction::KeyResize),
        key(SWC_MOD_LOGO | SWC_MOD_CTRL, XKB_KEY_h, BindingAction::MoveLeft),
        key(SWC_MOD_LOGO | SWC_MOD_CTRL, XKB_KEY_l, BindingAction::MoveRight),
        key(SWC_MOD_LOGO | SWC_MOD_CTRL, XKB_KEY_k, BindingAction::MoveUp),
        key(SWC_MOD_LOGO | SWC_MOD_CTRL, XKB_KEY_j, BindingAction::MoveDown),
        key(SWC_MOD_LOGO | SWC_MOD_ALT, XKB_KEY_h, BindingAction::ResizeNarrower),
        key(SWC_MOD_LOGO | SWC_MOD_ALT, XKB_KEY_l, BindingAction::ResizeWider),
        key(SWC_MOD_LOGO | SWC_MOD_ALT, XKB_KEY_j, BindingAction::ResizeTaller),
        key(SWC_MOD_LOGO | SWC_MOD_ALT, XKB_KEY_k, BindingAction::ResizeShorter),
        Binding {
            kind: swc_binding_type::SWC_BINDING_BUTTON,
            modifiers: SWC_MOD_LOGO,
            value: BTN_RIGHT,
            action: BindingAction::MouseResize,
        },
    ]
}

fn key_binding(modifiers: u32, value: u32, action: BindingAction) -> (r: Binding)
    ensures
        r == key(modifiers, value, action),
{
    Binding { kind: swc_binding_type::SWC_BINDING_KEY, modifiers, value, action }
}

/// The bindings to register, in order (see `bindings_table`).
pub fn bindings() -> (r: Vec<Binding>)
    ensures
        r@ == bindings_table(),
{
    let r = vec![
        key_binding(SWC_MOD_LOGO, XKB_KEY_Return, BindingAction::SpawnTerminal),
        key_binding(SWC_MOD_LOGO, XKB_KEY_d, BindingAction::SpawnLauncher),
        key_binding(SWC_MOD_LOGO, XKB_KEY_q, BindingAction::Quit),
        key_binding(SWC_MOD_LOGO | SWC_MOD_SHIFT, XKB_KEY_q, BindingAction::CloseWindow),
        key_binding(SWC_MOD_LOGO, XKB_KEY_j, BindingAction::FocusNext),
        key_binding(SWC_MOD_LOGO, XKB_KEY_k, BindingAction::FocusPrev),
        key_binding(SWC_MOD_LOGO, XKB_KEY_f, BindingAction::ToggleFullscreen),
        key_binding(SWC_MOD_LOGO | SWC_MOD_SHIFT, XKB_KEY_j, BindingAction::PanToNextWindow),
        key_binding(SWC_MOD_LOGO | SWC_MOD_SHIFT, XKB_KEY_k, BindingAction::PanToPrevWindow),
        key_binding(SWC_MOD_LOGO, XKB_KEY_equal, BindingAction::ZoomIn),
        key_binding(SWC_MOD_LOGO, XKB_KEY_minus, BindingAction::ZoomOut),
        key_binding(SWC_MOD_LOGO, XKB_KEY_0, BindingAction::ZoomReset),
        key_binding(SWC_MOD_LOGO, XKB_KEY_m, BindingAction::KeyMove),
        key_binding(SWC_MOD_LOGO, XKB_KEY_r, BindingAction::KeyResize),
        key_binding(SWC_MOD_LOGO | SWC_MOD_CTRL, XKB_KEY_h, BindingAction::MoveLeft),
        key_binding(SWC_MOD_LOGO | SWC_MOD_CTRL, XKB_KEY_l, BindingAction::MoveRight),
        key_binding(SWC_MOD_LOGO | SWC_MOD_CTRL, XKB_KEY_k, BindingAction::MoveUp),
        key_binding(SWC_MOD_LOGO | SWC_MOD_CTRL, XKB_KEY_j, BindingAction::MoveDown),
        key_binding(SWC_MOD_LOGO | SWC_MOD_ALT, XKB_KEY_h, BindingAction::ResizeNarrower),
        key_binding(SWC_MOD_LOGO | SWC_MOD_ALT, XKB_KEY_l, BindingAction::ResizeWider),
        key_binding(SWC_MOD_LOGO | SWC_MOD_ALT, XKB_KEY_j, BindingAction::ResizeTaller),
        key_binding(SWC_MOD_LOGO | SWC_MOD_ALT, XKB_KEY_k, BindingAction::ResizeShorter),
        Binding {
            kind: swc_binding_type::SWC_BINDING_BUTTON,
            modifiers: SWC_MOD_LOGO,
            value: BTN_RIGHT,
            action: BindingAction::MouseResize,
        },
    ];
    assert(r@ =~= bindings_table());
    r
}

} // verus!
