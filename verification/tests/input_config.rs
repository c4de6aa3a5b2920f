use lib::input::{bindings, preferred_click_method, touchpad_config, BindingAction, TouchpadConfig};
use lib::swc::{
    swc_binding_type, BTN_RIGHT, LIBINPUT_CONFIG_CLICK_METHOD_BUTTON_AREAS, LIBINPUT_CONFIG_CLICK_METHOD_CLICKFINGER,
    LIBINPUT_CONFIG_CLICK_METHOD_NONE, SWC_MOD_LOGO, SWC_MOD_SHIFT, XKB_KEY_Return, XKB_KEY_q,
};

#[test]
fn click_method_preference() {
    assert_eq!(preferred_click_method(3), LIBINPUT_CONFIG_CLICK_METHOD_CLICKFINGER);
    assert_eq!(preferred_click_method(2), LIBINPUT_CONFIG_CLICK_METHOD_CLICKFINGER);
    assert_eq!(preferred_click_method(1), LIBINPUT_CONFIG_CLICK_METHOD_BUTTON_AREAS);
    assert_eq!(preferred_click_method(0), LIBINPUT_CONFIG_CLICK_METHOD_NONE);
    assert_eq!(preferred_click_method(4), LIBINPUT_CONFIG_CLICK_METHOD_NONE);
}

#[test]
fn devices_without_tapping_are_left_alone() {
    assert_eq!(touchpad_config(0, 3, true, Some("1")), None);
    assert_eq!(touchpad_config(-1, 3, true, None), None);
}

#[test]
fn touchpad_settings() {
    assert_eq!(
        touchpad_config(2, 3, true, Some(" Yes ")),
        Some(TouchpadConfig { tap: 1, drag: 1, click_method: Some(2), dwt: Some(1) })
    );
    assert_eq!(
        touchpad_config(3, 1, true, Some("off")),
        Some(TouchpadConfig { tap: 1, drag: 1, click_method: Some(1), dwt: Some(0) })
    );
    assert_eq!(
        touchpad_config(1, 0, true, None),
        Some(TouchpadConfig { tap: 1, drag: 1, click_method: None, dwt: Some(0) })
    );
    assert_eq!(
        touchpad_config(1, 0, false, Some("on")),
        Some(TouchpadConfig { tap: 1, drag: 1, click_method: None, dwt: None })
    );
}

#[test]
fn binding_table() {
    let b = bindings();
    assert_eq!(b.len(), 23);
    assert_eq!(b[0].kind, swc_binding_type::SWC_BINDING_KEY);
    assert_eq!(b[0].modifiers, SWC_MOD_LOGO);
    assert_eq!(b[0].value, XKB_KEY_Return);
    assert_eq!(b[0].action, BindingAction::SpawnTerminal);
    assert_eq!(b[3].modifiers, SWC_MOD_LOGO | SWC_MOD_SHIFT);
    assert_eq!(b[3].value, XKB_KEY_q);
    assert_eq!(b[3].action, BindingAction::CloseWindow);
    let last = b[22];
    assert_eq!(last.kind, swc_binding_type::SWC_BINDING_BUTTON);
    assert_eq!(last.value, BTN_RIGHT);
    assert_eq!(last.action, BindingAction::MouseResize);
    assert_eq!(b.iter().filter(|x| x.kind == swc_binding_type::SWC_BINDING_KEY).count(), 22);
}
