use wraith::config::Config;
use wraith::hooks::is_key_down;
use wraith::hooks::is_modifier_vk;
use wraith::hooks::keyboard_verdict;
use wraith::hooks::mod_held;
use wraith::hooks::mods_held;
use wraith::hooks::mouse_verdict;
use wraith::hooks::panic_key_tick;
use wraith::hooks::panic_reset;
use wraith::hooks::HookError;
use wraith::hooks::HookState;
use wraith::hooks::HookVerdict;
use wraith::hooks::ModifierKeys;
use wraith::hooks::WM_KEYDOWN;
use wraith::hooks::WM_KEYUP;
use wraith::hooks::WM_SYSKEYDOWN;
use wraith::hooks::WM_SYSKEYUP;

const NONE: ModifierKeys = ModifierKeys { alt: false, control: false, shift: false, left_win: false, right_win: false };
const CTRL_SHIFT_ALT: ModifierKeys = ModifierKeys { alt: true, control: true, shift: true, left_win: false, right_win: false };
const WM_MOUSEMOVE: usize = 0x0200;

#[test]
fn key_down_reads_the_top_bit() {
    assert!(is_key_down(-32768));
    assert!(is_key_down(-32767));
    assert!(!is_key_down(0));
    assert!(!is_key_down(1));
    assert!(!is_key_down(32767));
}

#[test]
fn modifier_keys_are_recognised() {
    for vk in [0x10u32, 0x11, 0x12, 0xA0, 0xA1, 0xA2, 0xA3, 0xA4, 0xA5, 0x5B, 0x5C] {
        assert!(is_modifier_vk(vk));
    }
    for vk in [0x1Bu32, 0x41, 0x4C, 0x55, 0x5D, 0x13, 0xA6] {
        assert!(!is_modifier_vk(vk));
    }
}

#[test]
fn modifier_bits_map_to_keys() {
    let win = ModifierKeys { right_win: true, ..NONE };
    assert!(mod_held(0x8, &win));
    assert!(!mod_held(0x1, &win));
    assert!(mod_held(0x1, &CTRL_SHIFT_ALT));
    assert!(mod_held(0x2, &CTRL_SHIFT_ALT));
    assert!(mod_held(0x4, &CTRL_SHIFT_ALT));
    assert!(!mod_held(0x3, &CTRL_SHIFT_ALT));
    assert!(mods_held(7, &CTRL_SHIFT_ALT));
    assert!(!mods_held(0xF, &CTRL_SHIFT_ALT));
    assert!(mods_held(0, &NONE));
    assert!(mods_held(0x10, &NONE));
    assert!(!mods_held(2, &ModifierKeys { alt: true, shift: true, ..NONE }));
}

#[test]
fn injected_input_always_passes() {
    let cfg = Config::defaults();
    for locked in [false, true] {
        assert_eq!(keyboard_verdict(0, WM_KEYDOWN, 0x41, 0x10, locked, &cfg, &NONE), HookVerdict::Forward);
        assert_eq!(keyboard_verdict(0, WM_KEYDOWN, 76, 0x10, locked, &cfg, &CTRL_SHIFT_ALT), HookVerdict::Forward);
        assert_eq!(mouse_verdict(0, 0x01, locked), HookVerdict::Forward);
    }
}

#[test]
fn physical_input_blocked_only_while_locked() {
    let cfg = Config::defaults();
    assert_eq!(keyboard_verdict(0, WM_KEYDOWN, 0x41, 0, true, &cfg, &NONE), HookVerdict::Block);
    assert_eq!(keyboard_verdict(0, WM_KEYUP, 0x41, 0, true, &cfg, &NONE), HookVerdict::Block);
    assert_eq!(keyboard_verdict(0, WM_KEYDOWN, 0x41, 0, false, &cfg, &NONE), HookVerdict::Forward);
    assert_eq!(mouse_verdict(0, 0, true), HookVerdict::Block);
    assert_eq!(mouse_verdict(0, 0, false), HookVerdict::Forward);
    // LLKHF_EXTENDED alone is no injection.
    assert_eq!(keyboard_verdict(0, WM_KEYDOWN, 0x41, 0x01, true, &cfg, &NONE), HookVerdict::Block);
    assert_eq!(mouse_verdict(0, 0x02, true), HookVerdict::Block);
    let _ = WM_MOUSEMOVE;
}

#[test]
fn negative_code_always_passes() {
    let cfg = Config::defaults();
    assert_eq!(keyboard_verdict(-1, WM_KEYDOWN, 0x41, 0, true, &cfg, &NONE), HookVerdict::Forward);
    assert_eq!(mouse_verdict(-1, 0, true), HookVerdict::Forward);
}

#[test]
fn modifier_release_passes_while_locked() {
    let cfg = Config::defaults();
    for vk in [0x10u32, 0x11, 0x12, 0xA2, 0x5B] {
        assert_eq!(keyboard_verdict(0, WM_KEYUP, vk, 0, true, &cfg, &NONE), HookVerdict::Forward);
        assert_eq!(keyboard_verdict(0, WM_SYSKEYUP, vk, 0, true, &cfg, &NONE), HookVerdict::Forward);
        assert_eq!(keyboard_verdict(0, WM_KEYDOWN, vk, 0, true, &cfg, &NONE), HookVerdict::Block);
    }
}

#[test]
fn combos_are_consumed_and_requested() {
    let cfg = Config::defaults();
    for locked in [false, true] {
        assert_eq!(keyboard_verdict(0, WM_KEYDOWN, 76, 0, locked, &cfg, &CTRL_SHIFT_ALT), HookVerdict::RequestLock);
        assert_eq!(keyboard_verdict(0, WM_SYSKEYDOWN, 85, 0, locked, &cfg, &CTRL_SHIFT_ALT), HookVerdict::RequestUnlock);
    }
    // Without the modifiers, the letters are ordinary keys.
    assert_eq!(keyboard_verdict(0, WM_KEYDOWN, 76, 0, false, &cfg, &NONE), HookVerdict::Forward);
    assert_eq!(keyboard_verdict(0, WM_KEYDOWN, 85, 0, true, &cfg, &NONE), HookVerdict::Block);
    // Key-up of the combination letter is no request.
    assert_eq!(keyboard_verdict(0, WM_KEYUP, 85, 0, true, &cfg, &CTRL_SHIFT_ALT), HookVerdict::Block);
}

#[test]
fn panic_key_needs_three_seconds() {
    let mut s = HookState::new();
    assert!(!panic_key_tick(&mut s, true, 1000));
    assert_eq!(s.panic_start, 1000);
    assert!(!panic_key_tick(&mut s, true, 2000));
    assert!(!panic_key_tick(&mut s, true, 3999));
    assert!(panic_key_tick(&mut s, true, 4000));
    assert_eq!(s.panic_start, 1000);
    // Released before: the timer starts again.
    assert!(!panic_key_tick(&mut s, false, 4100));
    assert_eq!(s.panic_start, 0);
    assert!(!panic_key_tick(&mut s, true, 5000));
    assert!(!panic_key_tick(&mut s, true, 7999));
    assert!(panic_key_tick(&mut s, true, 8000));
    panic_reset(&mut s);
    assert_eq!(s.panic_start, 0);
}

#[test]
fn panic_timer_survives_tick_wraparound() {
    let mut s = HookState::new();
    assert!(!panic_key_tick(&mut s, true, u32::MAX - 999));
    assert!(!panic_key_tick(&mut s, true, 1999));
    assert!(panic_key_tick(&mut s, true, 2000));
}

#[test]
fn hooks_install_and_uninstall() {
    let mut s = HookState::new();
    assert_eq!(s.record_keyboard_hook(0x100, 0xAAA), Ok(()));
    assert_eq!(s.record_mouse_hook(0xBBB), Ok(()));
    assert_eq!((s.app_hwnd, s.kb_hook, s.mouse_hook), (0x100, 0xAAA, 0xBBB));
    assert_eq!(s.watchdog(), Some(0x100));
    assert_eq!(s.uninstall(), vec![0xAAA, 0xBBB]);
    assert_eq!((s.kb_hook, s.mouse_hook), (0, 0));
    assert_eq!(s.uninstall(), Vec::<usize>::new());
}

#[test]
fn hook_failures_are_reported() {
    let mut s = HookState::new();
    assert_eq!(s.watchdog(), None);
    let e = s.record_keyboard_hook(0x100, 0).unwrap_err();
    assert_eq!(e, HookError::KeyboardHook);
    assert_eq!(e.message(), "Failed to install keyboard hook");
    assert_eq!(s.app_hwnd, 0x100);
    assert_eq!(s.record_keyboard_hook(0x100, 0xAAA), Ok(()));
    let e = s.record_mouse_hook(0).unwrap_err();
    assert_eq!(e, HookError::MouseHook { release_keyboard: 0xAAA });
    assert_eq!(e.message(), "Failed to install mouse hook");
    assert_eq!((s.kb_hook, s.mouse_hook), (0, 0));
}
