//! The low-level keyboard and mouse hooks: which events pass and which are
//! held back, the hook handles, and the panic-key timer.
//!
//! Windows marks every event that software produced (`SendInput`, remote
//! desktop, automation) as injected. Injected events always pass; physical
//! ones are held back while the desk is locked.

use vstd::prelude::*;
use crate::config::Config;

verus! {

/// `WM_KEYDOWN`.
pub const WM_KEYDOWN: usize = 0x0100;

/// `WM_KEYUP`.
pub const WM_KEYUP: usize = 0x0101;

/// `WM_SYSKEYDOWN`.
pub const WM_SYSKEYDOWN: usize = 0x0104;

/// `WM_SYSKEYUP`.
pub const WM_SYSKEYUP: usize = 0x0105;

/// `LLKHF_INJECTED`: the keyboard event came from software.
pub const LLKHF_INJECTED: u32 = 0x10;

/// `LLMHF_INJECTED`: the mouse event came from software.
pub const LLMHF_INJECTED: u32 = 0x01;

/// `MOD_ALT`.
pub const MOD_ALT: u32 = 0x1;

/// `MOD_CONTROL`.
pub const MOD_CONTROL: u32 = 0x2;

/// `MOD_SHIFT`.
pub const MOD_SHIFT: u32 = 0x4;

/// `MOD_WIN`.
pub const MOD_WIN: u32 = 0x8;

/// How long, in milliseconds, the panic key must be held to unlock.
pub const PANIC_HOLD_MS: u32 = 3000;

/// The state that the hook procedures share with the rest of the program.
pub struct HookState {
    /// Physical input is held back.
    pub locked: bool,
    /// The window that hook procedures post commands to (0: none yet).
    pub app_hwnd: usize,
    /// The keyboard hook's handle (0: not installed).
    pub kb_hook: usize,
    /// The mouse hook's handle (0: not installed).
    pub mouse_hook: usize,
    /// The tick count at which the panic key was first seen held (0: not held).
    pub panic_start: u32,
}

/// Which of the modifier keys are down at the moment of an event.
#[derive(Clone, Copy, Debug, PartialEq, Eq)]
pub struct ModifierKeys {
    /// `VK_MENU`.
    pub alt: bool,
    /// `VK_CONTROL`.
    pub control: bool,
    /// `VK_SHIFT`.
    pub shift: bool,
    /// `VK_LWIN`.
    pub left_win: bool,
    /// `VK_RWIN`.
    pub right_win: bool,
}

/// What a hook procedure does with an event.
#[derive(Clone, Copy, Debug, PartialEq, Eq)]
pub enum HookVerdict {
    /// Hand the event on down the hook chain.
    Forward,
    /// Swallow the event.
    Block,
    /// Swallow the event and post the lock command.
    RequestLock,
    /// Swallow the event and post the unlock command.
    RequestUnlock,
}

/// Why installing the hooks failed.
#[derive(Clone, Copy, Debug, PartialEq, Eq)]
pub enum HookError {
    /// The keyboard hook could not be set.
    KeyboardHook,
    /// The mouse hook could not be set; the keyboard hook, which was set,
    /// must be removed again.
    MouseHook { release_keyboard: usize },
}

impl HookError {
    /// The message the installer reports.
    pub fn message(&self) -> (r: &'static str)
        ensures
            r@ == match *self {
                HookError::KeyboardHook => "Failed to install keyboard hook"@,
                HookError::MouseHook { .. } => "Failed to install mouse hook"@,
            },
    {
        match self {
            HookError::KeyboardHook => "Failed to install keyboard hook",
            HookError::MouseHook { .. } => "Failed to install mouse hook",
        }
    }
}

// ---------------------------------------------------------------------------
// Key state
// ---------------------------------------------------------------------------

/// A `GetAsyncKeyState` result says the key is down: its top bit is set.
pub fn is_key_down(async_state: i16) -> (r: bool)
    ensures
        r == (async_state < 0),
{
    async_state < 0
}

/// The virtual-key codes of the modifier keys: Shift, Ctrl, Alt (generic,
/// left and right) and the two Windows keys.
pub open spec fn modifier_vk(vk: u32) -> bool {
    ||| vk == 0x10 || vk == 0x11 || vk == 0x12
    ||| vk == 0xA0 || vk == 0xA1
    ||| vk == 0xA2 || vk == 0xA3
    ||| vk == 0xA4 || vk == 0xA5
    ||| vk == 0x5B || vk == 0x5C
}

/// `vk` is a modifier key.
pub fn is_modifier_vk(vk: u32) -> (r: bool)
    ensures
        r == modifier_vk(vk),
{
    vk == 0x10 || vk == 0x11 || vk == 0x12 || vk == 0xA0 || vk == 0xA1 || vk == 0xA2 || vk
        == 0xA3 || vk == 0xA4 || vk == 0xA5 || vk == 0x5B || vk == 0x5C
}

/// The modifier that the single bit `mod_bit` names is held; a value that
/// names no single modifier is never held.
pub open spec fn mod_bit_held(mod_bit: u32, keys: ModifierKeys) -> bool {
    if mod_bit == MOD_ALT {
        keys.alt
    } else if mod_bit == MOD_CONTROL {
        keys.control
    } else if mod_bit == MOD_SHIFT {
        keys.shift
    } else if mod_bit == MOD_WIN {
        keys.left_win || keys.right_win
    } else {
        false
    }
}

/// Every modifier that `mods` asks for is held (bits above `MOD_WIN` are ignored).
pub open spec fn all_mods_held(mods: u32, keys: ModifierKeys) -> bool {
    &&& (mods & MOD_ALT != 0 ==> keys.alt)
    &&& (mods & MOD_CONTROL != 0 ==> keys.control)
    &&& (mods & MOD_SHIFT != 0 ==> keys.shift)
    &&& (mods & MOD_WIN != 0 ==> keys.left_win || keys.right_win)
}

/// The modifier that `mod_bit` names is held.
pub fn mod_held(mod_bit: u32, keys: &ModifierKeys) -> (r: bool)
    ensures
        r == mod_bit_held(mod_bit, *keys),
{
    if mod_bit == MOD_ALT {
        keys.alt
    } else if mod_bit == MOD_CONTROL {
        keys.control
    } else if mod_bit == MOD_SHIFT {
        keys.shift
    } else if mod_bit == MOD_WIN {
        keys.left_win || keys.right_win
    } else {
        false
    }
}

/// Every modifier that the bitmask `mods` asks for is held.
pub fn mods_held(mods: u32, keys: &ModifierKeys) -> (r: bool)
    ensures
        r == all_mods_held(mods, *keys),
{
    let bits: [u32; 4] = [MOD_ALT, MOD_CONTROL, MOD_SHIFT, MOD_WIN];
    let mut i: usize = 0;
    while i < 4
        invariant
            i <= 4,
            bits@ == seq![MOD_ALT, MOD_CONTROL, MOD_SHIFT, MOD_WIN],
            forall|k: int|
                0 <= k < i ==> (mods & #[trigger] bits@[k] != 0 ==> mod_bit_held(bits@[k], *keys)),
        decreases 4 - i,
    {
        let bit = bits[i];
        if mods & bit != 0 && !mod_held(bit, keys) {
            return false;
        }
        i = i + 1;
    }
    assert(bits@[0] == MOD_ALT && bits@[1] == MOD_CONTROL && bits@[2] == MOD_SHIFT && bits@[3]
        == MOD_WIN);
    true
}

// ---------------------------------------------------------------------------
// Hook decisions
// ---------------------------------------------------------------------------

/// The message is a key going down.
pub open spec fn is_key_down_message(w_param: usize) -> bool {
    w_param == WM_KEYDOWN || w_param == WM_SYSKEYDOWN
}

/// The message is a key coming up.
pub open spec fn is_key_up_message(w_param: usize) -> bool {
    w_param == WM_KEYUP || w_param == WM_SYSKEYUP
}

/// A keyboard event carries the injected flag.
pub open spec fn key_injected(flags: u32) -> bool {
    flags & LLKHF_INJECTED != 0
}

/// A mouse event carries the injected flag.
pub open spec fn mouse_injected(flags: u32) -> bool {
    flags & LLMHF_INJECTED != 0
}

/// What the keyboard hook does with an event: a negative code and an
/// injected event are handed on; a physical key-down of the lock (then the
/// unlock) combination is swallowed and requests the change; while locked,
/// every other physical event is swallowed, but for a modifier coming up,
/// which is handed on so that no modifier stays stuck down.
pub open spec fn keyboard_decision(
    n_code: i32,
    w_param: usize,
    vk_code: u32,
    flags: u32,
    locked: bool,
    config: Config,
    keys: ModifierKeys,
) -> HookVerdict {
    if n_code < 0 {
        HookVerdict::Forward
    } else if key_injected(flags) {
        HookVerdict::Forward
    } else if is_key_down_message(w_param) && vk_code == config.lock_vk && all_mods_held(
        config.lock_mods,
        keys,
    ) {
        HookVerdict::RequestLock
    } else if is_key_down_message(w_param) && vk_code == config.unlock_vk && all_mods_held(
        config.unlock_mods,
        keys,
    ) {
        HookVerdict::RequestUnlock
    } else if locked {
        if is_key_up_message(w_param) && modifier_vk(vk_code) {
            HookVerdict::Forward
        } else {
            HookVerdict::Block
        }
    } else {
        HookVerdict::Forward
    }
}

/// What the mouse hook does with an event: a negative code and an injected
/// event are handed on; every physical event is swallowed while locked.
pub open spec fn mouse_decision(n_code: i32, flags: u32, locked: bool) -> HookVerdict {
    if n_code < 0 {
        HookVerdict::Forward
    } else if mouse_injected(flags) {
        HookVerdict::Forward
    } else if locked {
        HookVerdict::Block
    } else {
        HookVerdict::Forward
    }
}

/// The keyboard hook's decision on one event (`KBDLLHOOKSTRUCT::vkCode` and
/// `flags`), with the lock state, the settings and the modifiers held.
pub fn keyboard_verdict(
    n_code: i32,
    w_param: usize,
    vk_code: u32,
    flags: u32,
    locked: bool,
    config: &Config,
    keys: &ModifierKeys,
) -> (r: HookVerdict)
    ensures
        r == keyboard_decision(n_code, w_param, vk_code, flags, locked, *config, *keys),
{
    if n_code < 0 {
        return HookVerdict::Forward;
    }
    if flags & LLKHF_INJECTED != 0 {
        return HookVerdict::Forward;
    }
    if w_param == WM_KEYDOWN || w_param == WM_SYSKEYDOWN {
        if vk_code == config.lock_vk && mods_held(config.lock_mods, keys) {
            return HookVerdict::RequestLock;
        }
        if vk_code == config.unlock_vk && mods_held(config.unlock_mods, keys) {
            return HookVerdict::RequestUnlock;
        }
    }
    if locked {
        let is_keyup = w_param == WM_KEYUP || w_param == WM_SYSKEYUP;
        if is_keyup && is_modifier_vk(vk_code) {
            return HookVerdict::Forward;
        }
        return HookVerdict::Block;
    }
    HookVerdict::Forward
}

/// The mouse hook's decision on one event (`MSLLHOOKSTRUCT::flags`).
pub fn mouse_verdict(n_code: i32, flags: u32, locked: bool) -> (r: HookVerdict)
    ensures
        r == mouse_decision(n_code, flags, locked),
{
    if n_code < 0 {
        return HookVerdict::Forward;
    }
    if flags & LLMHF_INJECTED != 0 {
        return HookVerdict::Forward;
    }
    if locked {
        return HookVerdict::Block;
    }
    HookVerdict::Forward
}

// ---------------------------------------------------------------------------
// The panic key
// ---------------------------------------------------------------------------

/// Milliseconds from tick count `start` to tick count `now` on the 32-bit
/// tick counter, which wraps around.
pub open spec fn ticks_since(start: u32, now: u32) -> int {
    if now >= start {
        now - start
    } else {
        now - start + 0x1_0000_0000
    }
}

/// One tick of the panic timer: the new start mark and whether to unlock.
/// While the key is held, the first tick marks the time and later ticks fire
/// once `PANIC_HOLD_MS` have passed (on the wrapping tick counter); releasing
/// the key clears the mark.
pub open spec fn panic_tick(start: u32, held: bool, now: u32) -> (u32, bool) {
    if held {
        if start == 0 {
            (now, false)
        } else {
            (start, ticks_since(start, now) >= PANIC_HOLD_MS)
        }
    } else {
        (0, false)
    }
}

/// Advances the panic-key timer by one tick, given whether the panic key is
/// down and the tick count; `true` when the hold is long enough to unlock.
pub fn panic_key_tick(state: &mut HookState, held: bool, now: u32) -> (r: bool)
    ensures
        (final(state).panic_start, r) == panic_tick(old(state).panic_start, held, now),
        final(state).locked == old(state).locked,
        final(state).app_hwnd == old(state).app_hwnd,
        final(state).kb_hook == old(state).kb_hook,
        final(state).mouse_hook == old(state).mouse_hook,
{
    if held {
        let start = state.panic_start;
        if start == 0 {
            state.panic_start = now;
            false
        } else {
            now.wrapping_sub(start) >= PANIC_HOLD_MS
        }
    } else {
        state.panic_start = 0;
        false
    }
}

/// Clears the panic-key timer.
pub fn panic_reset(state: &mut HookState)
    ensures
        final(state).panic_start == 0,
        final(state).locked == old(state).locked,
        final(state).app_hwnd == old(state).app_hwnd,
        final(state).kb_hook == old(state).kb_hook,
        final(state).mouse_hook == old(state).mouse_hook,
{
    state.panic_start = 0;
}

// ---------------------------------------------------------------------------
// Hook handles
// ---------------------------------------------------------------------------

/// The state at start-up: unlocked, no window, no hooks, no panic mark.
pub open spec fn initial_hook_state() -> HookState {
    HookState { locked: false, app_hwnd: 0, kb_hook: 0, mouse_hook: 0, panic_start: 0 }
}

/// The state after `SetWindowsHookExW(WH_KEYBOARD_LL, ..)` returned `handle`
/// (0 on failure) while installing for the window `hwnd`.
pub open spec fn after_keyboard_hook(s: HookState, hwnd: usize, handle: usize) -> HookState {
    if handle == 0 {
        HookState { app_hwnd: hwnd, ..s }
    } else {
        HookState { app_hwnd: hwnd, kb_hook: handle, ..s }
    }
}

/// The state after `SetWindowsHookExW(WH_MOUSE_LL, ..)` returned `handle`;
/// on failure the keyboard hook is given up.
pub open spec fn after_mouse_hook(s: HookState, handle: usize) -> HookState {
    if handle == 0 {
        HookState { kb_hook: 0, ..s }
    } else {
        HookState { mouse_hook: handle, ..s }
    }
}

/// The state after both hooks are removed.
pub open spec fn after_uninstall(s: HookState) -> HookState {
    HookState { kb_hook: 0, mouse_hook: 0, ..s }
}

/// The hook handles that removing the hooks must release, keyboard first.
pub open spec fn installed_handles(s: HookState) -> Seq<usize> {
    let kb = if s.kb_hook != 0 {
        seq![s.kb_hook]
    } else {
        Seq::empty()
    };
    let ms = if s.mouse_hook != 0 {
        seq![s.mouse_hook]
    } else {
        Seq::empty()
    };
    kb + ms
}

impl HookState {
    /// The state at start-up.
    pub fn new() -> (r: HookState)
        ensures
            r == initial_hook_state(),
    {
        HookState { locked: false, app_hwnd: 0, kb_hook: 0, mouse_hook: 0, panic_start: 0 }
    }

    /// Records the window `hwnd` and the keyboard hook handle that installing
    /// returned (0 when it failed, which fails the installation).
    pub fn record_keyboard_hook(&mut self, hwnd: usize, handle: usize) -> (r: Result<(), HookError>)
        ensures
            *final(self) == after_keyboard_hook(*old(self), hwnd, handle),
            r == (if handle == 0 {
                Err(HookError::KeyboardHook)
            } else {
                Ok::<(), HookError>(())
            }),
    {
        self.app_hwnd = hwnd;
        if handle == 0 {
            return Err(HookError::KeyboardHook);
        }
        self.kb_hook = handle;
        Ok(())
    }

    /// Records the mouse hook handle that installing returned (0 when it
    /// failed: the keyboard hook is then to be released, and installing fails).
    pub fn record_mouse_hook(&mut self, handle: usize) -> (r: Result<(), HookError>)
        ensures
            *final(self) == after_mouse_hook(*old(self), handle),
            r == (if handle == 0 {
                Err(HookError::MouseHook { release_keyboard: old(self).kb_hook })
            } else {
                Ok::<(), HookError>(())
            }),
    {
        if handle == 0 {
            let kb = self.kb_hook;
            self.kb_hook = 0;
            return Err(HookError::MouseHook { release_keyboard: kb });
        }
        self.mouse_hook = handle;
        Ok(())
    }

    /// Forgets both hook handles and returns those that must be released.
    pub fn uninstall(&mut self) -> (r: Vec<usize>)
        ensures
            *final(self) == after_uninstall(*old(self)),
            r@ == installed_handles(*old(self)),
    {
        let mut r: Vec<usize> = Vec::new();
        let kb = self.kb_hook;
        self.kb_hook = 0;
        if kb != 0 {
            r.push(kb);
        }
        let ms = self.mouse_hook;
        self.mouse_hook = 0;
        if ms != 0 {
            r.push(ms);
        }
        assert(r@ =~= installed_handles(*old(self)));
        r
    }

    /// The window to reinstall the hooks for on a watchdog tick, or `None`
    /// while there is no window yet.
    pub fn watchdog(&self) -> (r: Option<usize>)
        ensures
            r == (if self.app_hwnd == 0 {
                None
            } else {
                Some(self.app_hwnd)
            }),
    {
        if self.app_hwnd == 0 {
            None
        } else {
            Some(self.app_hwnd)
        }
    }
}

// ---------------------------------------------------------------------------
// Laws
// ---------------------------------------------------------------------------

/// Injected keyboard input (software, automation, remote desktop) is always
/// handed on, whatever the lock state, settings or held modifiers.
pub proof fn lemma_injected_keys_pass(
    n_code: i32,
    w_param: usize,
    vk_code: u32,
    flags: u32,
    locked: bool,
    config: Config,
    keys: ModifierKeys,
)
    requires
        key_injected(flags),
    ensures
        keyboard_decision(n_code, w_param, vk_code, flags, locked, config, keys)
            == HookVerdict::Forward,
{
}

/// Injected mouse input is always handed on, whatever the lock state.
pub proof fn lemma_injected_mouse_passes(n_code: i32, flags: u32, locked: bool)
    requires
        mouse_injected(flags),
    ensures
        mouse_decision(n_code, flags, locked) == HookVerdict::Forward,
{
}

/// An event with a negative hook code is always handed on, untouched.
pub proof fn lemma_negative_code_passes(
    n_code: i32,
    w_param: usize,
    vk_code: u32,
    flags: u32,
    locked: bool,
    config: Config,
    keys: ModifierKeys,
)
    requires
        n_code < 0,
    ensures
        keyboard_decision(n_code, w_param, vk_code, flags, locked, config, keys)
            == HookVerdict::Forward,
        mouse_decision(n_code, flags, locked) == HookVerdict::Forward,
{
}

/// While locked, every physical mouse event is swallowed.
pub proof fn lemma_locked_blocks_physical_mouse(n_code: i32, flags: u32)
    requires
        n_code >= 0,
        !mouse_injected(flags),
    ensures
        mouse_decision(n_code, flags, true) == HookVerdict::Block,
{
}

/// While locked, a physical key event that is neither a lock or unlock
/// combination going down nor a modifier coming up is swallowed.
pub proof fn lemma_locked_blocks_physical_keys(
    n_code: i32,
    w_param: usize,
    vk_code: u32,
    flags: u32,
    config: Config,
    keys: ModifierKeys,
)
    requires
        n_code >= 0,
        !key_injected(flags),
        !(is_key_down_message(w_param) && vk_code == config.lock_vk && all_mods_held(
            config.lock_mods,
            keys,
        )),
        !(is_key_down_message(w_param) && vk_code == config.unlock_vk && all_mods_held(
            config.unlock_mods,
            keys,
        )),
        !(is_key_up_message(w_param) && modifier_vk(vk_code)),
    ensures
        keyboard_decision(n_code, w_param, vk_code, flags, true, config, keys)
            == HookVerdict::Block,
{
}

/// While locked, a physical modifier coming up is handed on, so no modifier
/// is left stuck down.
pub proof fn lemma_locked_releases_modifiers(
    n_code: i32,
    w_param: usize,
    vk_code: u32,
    flags: u32,
    config: Config,
    keys: ModifierKeys,
)
    requires
        is_key_up_message(w_param),
        modifier_vk(vk_code),
    ensures
        keyboard_decision(n_code, w_param, vk_code, flags, true, config, keys)
            == HookVerdict::Forward,
{
}

/// Unlocked, nothing is swallowed but the lock and unlock combinations.
pub proof fn lemma_unlocked_blocks_nothing(
    n_code: i32,
    w_param: usize,
    vk_code: u32,
    flags: u32,
    config: Config,
    keys: ModifierKeys,
)
    ensures
        keyboard_decision(n_code, w_param, vk_code, flags, false, config, keys)
            != HookVerdict::Block,
        mouse_decision(n_code, flags, false) == HookVerdict::Forward,
{
}

/// A physical key-down of the lock combination requests locking, and one of
/// the unlock combination (when it is not also the lock combination) requests
/// unlocking, in either lock state; either way the keystroke is consumed.
pub proof fn lemma_combos_are_consumed(
    n_code: i32,
    w_param: usize,
    vk_code: u32,
    flags: u32,
    locked: bool,
    config: Config,
    keys: ModifierKeys,
)
    requires
        n_code >= 0,
        !key_injected(flags),
        is_key_down_message(w_param),
    ensures
        vk_code == config.lock_vk && all_mods_held(config.lock_mods, keys) ==> keyboard_decision(
            n_code,
            w_param,
            vk_code,
            flags,
            locked,
            config,
            keys,
        ) == HookVerdict::RequestLock,
        !(vk_code == config.lock_vk && all_mods_held(config.lock_mods, keys)) && vk_code
            == config.unlock_vk && all_mods_held(config.unlock_mods, keys) ==> keyboard_decision(
            n_code,
            w_param,
            vk_code,
            flags,
            locked,
            config,
            keys,
        ) == HookVerdict::RequestUnlock,
{
}

/// The first tick that sees the panic key held only starts the timer.
pub proof fn lemma_panic_first_tick_never_fires(start: u32, now: u32)
    requires
        start == 0,
    ensures
        panic_tick(start, true, now) == (now, false),
{
}

/// Releasing the panic key clears the timer and never unlocks.
pub proof fn lemma_panic_release_resets(start: u32, now: u32)
    ensures
        panic_tick(start, false, now) == (0u32, false),
{
}

/// Held from tick count `t0` on, the panic key unlocks at a later tick `t`
/// exactly when `PANIC_HOLD_MS` have passed, and the mark stays at `t0`.
pub proof fn lemma_panic_fires_after_hold(t0: u32, t: u32)
    requires
        t0 != 0,
    ensures
        ({
            let mark = panic_tick(0, true, t0).0;
            &&& mark == t0
            &&& panic_tick(mark, true, t) == (t0, ticks_since(t0, t) >= PANIC_HOLD_MS)
        }),
{
}

/// A panic hold that is released before it fires starts afresh: the next
/// press only marks the time again.
pub proof fn lemma_panic_release_restarts(t0: u32, t1: u32, t2: u32)
    ensures
        ({
            let after_press = panic_tick(0, true, t0).0;
            let after_release = panic_tick(after_press, false, t1).0;
            panic_tick(after_release, true, t2) == (t2, false)
        }),
{
}

/// Installing both hooks and then removing them releases exactly the two
/// handles and leaves no hook recorded; the lock state is untouched.
pub proof fn lemma_install_then_uninstall(s: HookState, hwnd: usize, kb: usize, ms: usize)
    requires
        s.kb_hook == 0,
        s.mouse_hook == 0,
        kb != 0,
        ms != 0,
    ensures
        ({
            let installed = after_mouse_hook(after_keyboard_hook(s, hwnd, kb), ms);
            &&& installed.kb_hook == kb && installed.mouse_hook == ms
            &&& installed.app_hwnd == hwnd
            &&& installed_handles(installed) == seq![kb, ms]
            &&& after_uninstall(installed).kb_hook == 0
            &&& after_uninstall(installed).mouse_hook == 0
            &&& after_uninstall(installed).locked == s.locked
        }),
{
    let installed = after_mouse_hook(after_keyboard_hook(s, hwnd, kb), ms);
    assert(installed_handles(installed) =~= seq![kb, ms]);
}

/// When the mouse hook cannot be set, no hook stays recorded: the keyboard
/// hook that was set is handed back for release.
pub proof fn lemma_failed_install_keeps_no_hook(s: HookState, hwnd: usize, kb: usize)
    requires
        s.kb_hook == 0,
        s.mouse_hook == 0,
    ensures
        ({
            let failed = after_mouse_hook(after_keyboard_hook(s, hwnd, kb), 0);
            installed_handles(failed) == Seq::<usize>::empty()
        }),
{
    let failed = after_mouse_hook(after_keyboard_hook(s, hwnd, kb), 0);
    assert(installed_handles(failed) =~= Seq::<usize>::empty());
}

/// The panic mark after ticks at the times `times`, the key held at each,
/// starting from no mark.
pub open spec fn mark_after_hold(times: Seq<u32>) -> u32
    decreases times.len(),
{
    if times.len() == 0 {
        0
    } else {
        panic_tick(mark_after_hold(times.drop_last()), true, times.last()).0
    }
}

/// Whether the tick at `times[i]` unlocks, the key held at every tick so far.
pub open spec fn fires_during_hold(times: Seq<u32>, i: int) -> bool {
    panic_tick(mark_after_hold(times.take(i)), true, times[i]).1
}

proof fn lemma_mark_during_hold(times: Seq<u32>, n: int)
    requires
        1 <= n <= times.len(),
        times[0] != 0,
    ensures
        mark_after_hold(times.take(n)) == times[0],
    decreases n,
{
    let t = times.take(n);
    if n == 1 {
        assert(t.drop_last() =~= Seq::<u32>::empty());
        assert(mark_after_hold(t.drop_last()) == 0);
        assert(t.last() == times[0]);
    } else {
        lemma_mark_during_hold(times, n - 1);
        assert(t.drop_last() =~= times.take(n - 1));
        assert(mark_after_hold(t.drop_last()) == times[0]);
    }
}

/// Held without a break over ticks at rising times `t0 < t1 < ...` (with
/// `t0 != 0`), the panic key never unlocks at the first tick, and unlocks at
/// tick `i` exactly when `ti - t0 >= PANIC_HOLD_MS`: never before three
/// seconds of continuous hold, and at every tick from then on.
pub proof fn lemma_panic_over_a_hold(times: Seq<u32>)
    requires
        times.len() >= 1,
        times[0] != 0,
        forall|i: int, j: int| 0 <= i < j < times.len() ==> times[i] < times[j],
    ensures
        forall|i: int|
            0 <= i < times.len() ==> #[trigger] fires_during_hold(times, i) == (i >= 1
                && times[i] - times[0] >= 3000),
{
    assert forall|i: int| 0 <= i < times.len() implies #[trigger] fires_during_hold(times, i) == (
    i >= 1 && times[i] - times[0] >= 3000) by {
        if i == 0 {
            assert(times.take(0) =~= Seq::<u32>::empty());
        } else {
            lemma_mark_during_hold(times, i);
            assert(times[0] < times[i]);
        }
    }
}

/// The keyboard hook, stated over the raw event fields. An event counts as
/// injected exactly when bit `0x10` of its flags (`LLKHF_INJECTED`) is set;
/// every other flag bit (extended key, Alt down, ...) leaves it physical.
/// A hotkey is a key-down (`0x100` or `0x104`) of the lock or unlock key with
/// every modifier that its bitmask asks for held (Alt `1`, Ctrl `2`, Shift
/// `4`, Win `8`, either Windows key). The modifier keys are `0x10`-`0x12`,
/// `0xA0`-`0xA5`, `0x5B` and `0x5C`; a key-up is `0x101` or `0x105`.
/// - Injected events are handed on.
/// - A physical lock hotkey requests locking; a physical unlock hotkey that
///   is not also the lock hotkey requests unlocking.
/// - Locked: a physical modifier key-up is handed on; every other physical
///   event but a hotkey is swallowed.
/// - Unlocked: every physical event but a hotkey is handed on.
pub proof fn lemma_keyboard_by_the_flag_bit(
    n_code: i32,
    w_param: usize,
    vk_code: u32,
    flags: u32,
    locked: bool,
    config: Config,
    keys: ModifierKeys,
)
    requires
        n_code >= 0,
    ensures
        ({
            let verdict = keyboard_decision(n_code, w_param, vk_code, flags, locked, config, keys);
            let physical = flags & 0x10 == 0;
            let key_down = w_param == 0x100 || w_param == 0x104;
            let key_up = w_param == 0x101 || w_param == 0x105;
            let lock_mods_held = (config.lock_mods & 1 != 0 ==> keys.alt) && (config.lock_mods & 2
                != 0 ==> keys.control) && (config.lock_mods & 4 != 0 ==> keys.shift) && (
            config.lock_mods & 8 != 0 ==> keys.left_win || keys.right_win);
            let unlock_mods_held = (config.unlock_mods & 1 != 0 ==> keys.alt) && (
            config.unlock_mods & 2 != 0 ==> keys.control) && (config.unlock_mods & 4 != 0
                ==> keys.shift) && (config.unlock_mods & 8 != 0 ==> keys.left_win
                || keys.right_win);
            let lock_hotkey = key_down && vk_code == config.lock_vk && lock_mods_held;
            let unlock_hotkey = key_down && vk_code == config.unlock_vk && unlock_mods_held;
            let modifier = vk_code == 0x10 || vk_code == 0x11 || vk_code == 0x12 || vk_code == 0xA0
                || vk_code == 0xA1 || vk_code == 0xA2 || vk_code == 0xA3 || vk_code == 0xA4
                || vk_code == 0xA5 || vk_code == 0x5B || vk_code == 0x5C;
            &&& !physical ==> verdict == HookVerdict::Forward
            &&& physical && lock_hotkey ==> verdict == HookVerdict::RequestLock
            &&& physical && !lock_hotkey && unlock_hotkey ==> verdict == HookVerdict::RequestUnlock
            &&& physical && locked && key_up && modifier ==> verdict == HookVerdict::Forward
            &&& physical && locked && !lock_hotkey && !unlock_hotkey && !(key_up && modifier)
                ==> verdict == HookVerdict::Block
            &&& physical && !locked && !lock_hotkey && !unlock_hotkey ==> verdict
                == HookVerdict::Forward
        }),
{
}

/// The mouse hook, stated over the raw flags: an event is injected exactly
/// when bit `0x01` (`LLMHF_INJECTED`) is set. Injected events, and every
/// event while unlocked, are handed on; physical events are swallowed while
/// locked. A negative code is always handed on.
pub proof fn lemma_mouse_by_the_flag_bit(n_code: i32, flags: u32, locked: bool)
    ensures
        n_code < 0 ==> mouse_decision(n_code, flags, locked) == HookVerdict::Forward,
        n_code >= 0 && flags & 0x01 != 0 ==> mouse_decision(n_code, flags, locked)
            == HookVerdict::Forward,
        n_code >= 0 && flags & 0x01 == 0 && locked ==> mouse_decision(n_code, flags, locked)
            == HookVerdict::Block,
        !locked ==> mouse_decision(n_code, flags, locked) == HookVerdict::Forward,
{
}

/// One tick of the panic timer, over the raw tick counts: a release clears
/// the mark; the first held tick marks the time without unlocking; a later
/// held tick keeps the mark and unlocks exactly when at least 3000 ms have
/// passed since it, counted on the 32-bit counter that wraps around.
pub proof fn lemma_panic_tick_in_milliseconds(start: u32, held: bool, now: u32)
    ensures
        !held ==> panic_tick(start, held, now) == (0u32, false),
        held && start == 0 ==> panic_tick(start, held, now) == (now, false),
        held && start != 0 && now >= start ==> panic_tick(start, held, now) == (
            start,
            now - start >= 3000,
        ),
        held && start != 0 && now < start ==> panic_tick(start, held, now) == (
            start,
            now + 0x1_0000_0000 - start >= 3000,
        ),
{
}

/// The modifier bits, stated over the raw values: bit `1` asks for Alt, `2`
/// for Ctrl, `4` for Shift and `8` for either Windows key; no other value names
/// a single modifier, and a bitmask is satisfied when each modifier it asks
/// for is held (bits above `8` ask for nothing).
pub proof fn lemma_modifier_bits(mods: u32, keys: ModifierKeys)
    ensures
        mod_bit_held(1, keys) == keys.alt,
        mod_bit_held(2, keys) == keys.control,
        mod_bit_held(4, keys) == keys.shift,
        mod_bit_held(8, keys) == (keys.left_win || keys.right_win),
        mods != 1 && mods != 2 && mods != 4 && mods != 8 ==> !mod_bit_held(mods, keys),
        all_mods_held(mods, keys) == ((mods & 1 != 0 ==> keys.alt) && (mods & 2 != 0
            ==> keys.control) && (mods & 4 != 0 ==> keys.shift) && (mods & 8 != 0 ==> keys.left_win
            || keys.right_win)),
        all_mods_held(0, keys),
{
    assert(0u32 & 1 == 0 && 0u32 & 2 == 0 && 0u32 & 4 == 0 && 0u32 & 8 == 0) by (bit_vector);
}

} // verus!
