//! Lock state changes with the actions they owe, the window's handling of
//! its messages, and the auto-start switch.

use vstd::prelude::*;
use crate::autostart;
use crate::autostart::RunKeyEdit;
use crate::hooks::panic_key_tick;
use crate::hooks::panic_tick;
use crate::hooks::HookState;
use crate::tray::command_id;
use crate::tray::menu_of;
use crate::tray::MenuCommand;

verus! {

/// Command id of the tray menu's and the lock hotkey's "Lock".
pub const ID_LOCK: usize = 1001;

/// Command id of the tray menu's and the unlock hotkey's "Unlock".
pub const ID_UNLOCK: usize = 1002;

/// Command id of the tray menu's "Start with Windows".
pub const ID_AUTOSTART: usize = 1003;

/// Command id of the tray menu's "Exit".
pub const ID_EXIT: usize = 1004;

/// `WM_CONTEXTMENU`, as a tray notification.
pub const WM_CONTEXTMENU: u32 = 0x007B;

/// `WM_LBUTTONDBLCLK`, as a tray notification.
pub const WM_LBUTTONDBLCLK: u32 = 0x0203;

/// `WM_RBUTTONUP`, as a tray notification.
pub const WM_RBUTTONUP: u32 = 0x0205;

/// Something the window must do, in the order given.
#[derive(Clone, Copy, Debug, PartialEq, Eq)]
pub enum Action {
    /// Set the `DisableTaskMgr` policy, so Task Manager cannot be reached from
    /// the Ctrl+Alt+Del screen.
    ApplyTaskManagerPolicy,
    /// Delete the `DisableTaskMgr` policy.
    RemoveTaskManagerPolicy,
    /// Start the panic-key poll timer.
    StartPanicTimer,
    /// Stop the panic-key poll timer.
    StopPanicTimer,
    /// Keep the system and the display awake.
    KeepAwake,
    /// Let the system sleep again.
    AllowSleep,
    /// Show the lock state in the tray icon.
    ShowLockState(bool),
    /// Open the tray menu.
    ShowMenu,
    /// Turn starting with Windows on or off.
    SetAutostart(bool),
    /// Close the window (the program then ends).
    DestroyWindow,
    /// Reinstall the hooks, should Windows have dropped them.
    ReinstallHooks,
    /// Show the update notice that came with the message.
    ShowUpdateNotice,
    /// Add the tray icon back (Explorer restarted).
    ReAddTrayIcon,
    /// Remove the hooks and the tray icon, and end the message loop.
    Shutdown,
}

/// A message the window receives, as far as its handling depends on it.
#[derive(Clone, Copy, Debug, PartialEq, Eq)]
pub enum WindowEvent {
    /// The tray icon's callback message, with the notification (`LOWORD(lParam)`).
    TrayNotification(u32),
    /// `WM_COMMAND`, with the command id (`LOWORD(wParam)`).
    Command(usize),
    /// The panic timer ticked, with whether the panic key is down and the tick count.
    PanicTimer { key_held: bool, now: u32 },
    /// The watchdog timer ticked.
    WatchdogTimer,
    /// The update check posted a notice.
    UpdateResult,
    /// Explorer restarted (`TaskbarCreated`).
    TaskbarCreated,
    /// `WM_DESTROY`.
    Destroy,
}

/// The state once locked.
pub open spec fn locked_state(s: HookState) -> HookState {
    HookState { locked: true, ..s }
}

/// The state once unlocked: the panic timer starts afresh.
pub open spec fn unlocked_state(s: HookState) -> HookState {
    HookState { locked: false, panic_start: 0, ..s }
}

/// What locking owes: the Task Manager policy, the panic timer, staying
/// awake, and the locked icon.
pub open spec fn lock_actions() -> Seq<Action> {
    seq![
        Action::ApplyTaskManagerPolicy,
        Action::StartPanicTimer,
        Action::KeepAwake,
        Action::ShowLockState(true),
    ]
}

/// What unlocking owes: each of the locking actions undone.
pub open spec fn unlock_actions() -> Seq<Action> {
    seq![
        Action::RemoveTaskManagerPolicy,
        Action::StopPanicTimer,
        Action::AllowSleep,
        Action::ShowLockState(false),
    ]
}

/// Locking: nothing when already locked; otherwise the locked state and
/// the locking actions.
pub open spec fn lock_outcome(s: HookState) -> (HookState, Seq<Action>) {
    if s.locked {
        (s, Seq::empty())
    } else {
        (locked_state(s), lock_actions())
    }
}

/// Unlocking: nothing when already unlocked; otherwise the unlocked state
/// and the unlocking actions.
pub open spec fn unlock_outcome(s: HookState) -> (HookState, Seq<Action>) {
    if s.locked {
        (unlocked_state(s), unlock_actions())
    } else {
        (s, Seq::empty())
    }
}

/// Toggling: unlocking when locked, locking when unlocked.
pub open spec fn toggle_outcome(s: HookState) -> (HookState, Seq<Action>) {
    if s.locked {
        unlock_outcome(s)
    } else {
        lock_outcome(s)
    }
}

/// What the window does with an event, and the state it leaves.
pub open spec fn event_outcome(s: HookState, e: WindowEvent, autostart_on: bool) -> (
    HookState,
    Seq<Action>,
) {
    match e {
        WindowEvent::TrayNotification(n) => if n == WM_RBUTTONUP || n == WM_CONTEXTMENU {
            (s, seq![Action::ShowMenu])
        } else if n == WM_LBUTTONDBLCLK {
            toggle_outcome(s)
        } else {
            (s, Seq::empty())
        },
        WindowEvent::Command(id) => if id == ID_LOCK {
            lock_outcome(s)
        } else if id == ID_UNLOCK {
            unlock_outcome(s)
        } else if id == ID_AUTOSTART {
            (s, seq![Action::SetAutostart(!autostart_on)])
        } else if id == ID_EXIT {
            (s, seq![Action::DestroyWindow])
        } else {
            (s, Seq::empty())
        },
        WindowEvent::PanicTimer { key_held, now } => if s.locked {
            let (mark, fire) = panic_tick(s.panic_start, key_held, now);
            let ticked = HookState { panic_start: mark, ..s };
            if fire {
                unlock_outcome(ticked)
            } else {
                (ticked, Seq::empty())
            }
        } else {
            (s, Seq::empty())
        },
        WindowEvent::WatchdogTimer => (s, seq![Action::ReinstallHooks]),
        WindowEvent::UpdateResult => (s, seq![Action::ShowUpdateNotice]),
        WindowEvent::TaskbarCreated => (s, seq![Action::ReAddTrayIcon]),
        WindowEvent::Destroy => (s, seq![Action::Shutdown]),
    }
}

/// Starts holding back physical input; returns what that owes (nothing
/// when already locked).
pub fn lock(state: &mut HookState) -> (r: Vec<Action>)
    ensures
        (*final(state), r@) == lock_outcome(*old(state)),
{
    let mut r: Vec<Action> = Vec::new();
    if state.locked {
        return r;
    }
    state.locked = true;
    r.push(Action::ApplyTaskManagerPolicy);
    r.push(Action::StartPanicTimer);
    r.push(Action::KeepAwake);
    r.push(Action::ShowLockState(true));
    assert(r@ =~= lock_actions());
    r
}

/// Stops holding back physical input and clears the panic timer; returns
/// what that owes (nothing when already unlocked).
pub fn unlock(state: &mut HookState) -> (r: Vec<Action>)
    ensures
        (*final(state), r@) == unlock_outcome(*old(state)),
{
    let mut r: Vec<Action> = Vec::new();
    if !state.locked {
        return r;
    }
    state.locked = false;
    crate::hooks::panic_reset(state);
    r.push(Action::RemoveTaskManagerPolicy);
    r.push(Action::StopPanicTimer);
    r.push(Action::AllowSleep);
    r.push(Action::ShowLockState(false));
    assert(r@ =~= unlock_actions());
    r
}

/// Locks when unlocked, unlocks when locked; returns what that owes.
pub fn toggle(state: &mut HookState) -> (r: Vec<Action>)
    ensures
        (*final(state), r@) == toggle_outcome(*old(state)),
{
    if state.locked {
        unlock(state)
    } else {
        lock(state)
    }
}

/// Handles one window message: updates the state and returns the actions
/// owed, in order. `autostart_on` is whether Wraith now starts with Windows.
pub fn handle_event(state: &mut HookState, event: WindowEvent, autostart_on: bool) -> (r: Vec<
    Action,
>)
    ensures
        (*final(state), r@) == event_outcome(*old(state), event, autostart_on),
{
    match event {
        WindowEvent::TrayNotification(n) => {
            if n == WM_RBUTTONUP || n == WM_CONTEXTMENU {
                let mut r: Vec<Action> = Vec::new();
                r.push(Action::ShowMenu);
                assert(r@ =~= seq![Action::ShowMenu]);
                r
            } else if n == WM_LBUTTONDBLCLK {
                toggle(state)
            } else {
                Vec::new()
            }
        },
        WindowEvent::Command(id) => {
            if id == ID_LOCK {
                lock(state)
            } else if id == ID_UNLOCK {
                unlock(state)
            } else if id == ID_AUTOSTART {
                let mut r: Vec<Action> = Vec::new();
                r.push(Action::SetAutostart(!autostart_on));
                assert(r@ =~= seq![Action::SetAutostart(!autostart_on)]);
                r
            } else if id == ID_EXIT {
                let mut r: Vec<Action> = Vec::new();
                r.push(Action::DestroyWindow);
                assert(r@ =~= seq![Action::DestroyWindow]);
                r
            } else {
                Vec::new()
            }
        },
        WindowEvent::PanicTimer { key_held, now } => {
            if state.locked {
                let fire = panic_key_tick(state, key_held, now);
                if fire {
                    unlock(state)
                } else {
                    Vec::new()
                }
            } else {
                Vec::new()
            }
        },
        WindowEvent::WatchdogTimer => {
            let mut r: Vec<Action> = Vec::new();
            r.push(Action::ReinstallHooks);
            assert(r@ =~= seq![Action::ReinstallHooks]);
            r
        },
        WindowEvent::UpdateResult => {
            let mut r: Vec<Action> = Vec::new();
            r.push(Action::ShowUpdateNotice);
            assert(r@ =~= seq![Action::ShowUpdateNotice]);
            r
        },
        WindowEvent::TaskbarCreated => {
            let mut r: Vec<Action> = Vec::new();
            r.push(Action::ReAddTrayIcon);
            assert(r@ =~= seq![Action::ReAddTrayIcon]);
            r
        },
        WindowEvent::Destroy => {
            let mut r: Vec<Action> = Vec::new();
            r.push(Action::Shutdown);
            assert(r@ =~= seq![Action::Shutdown]);
            r
        },
    }
}

/// The registry change that turns starting with Windows on (for the program
/// at `exe_path`) or off.
pub fn set_autostart(enable: bool, exe_path: &[u16]) -> (r: RunKeyEdit)
    requires
        exe_path@.len() <= autostart::MAX_PATH_UNITS,
    ensures
        enable ==> autostart::sets_run_value(r, exe_path@),
        !enable ==> r is Delete,
{
    if enable {
        autostart::enable(exe_path)
    } else {
        autostart::disable()
    }
}

/// Starting with Windows is on, given the status codes of opening the Run key
/// and of querying its value.
pub fn is_autostart(open_status: u32, query_status: u32) -> (r: bool)
    ensures
        r == (open_status == 0 && query_status == 0),
{
    autostart::is_enabled(open_status, query_status)
}

/// Locking twice owes nothing the second time; toggling twice comes back to
/// the same lock state; locking and unlocking leave the window and the hooks
/// as they were.
pub proof fn lemma_lock_idempotent(s: HookState)
    ensures
        lock_outcome(lock_outcome(s).0) == (lock_outcome(s).0, Seq::<Action>::empty()),
        unlock_outcome(unlock_outcome(s).0) == (unlock_outcome(s).0, Seq::<Action>::empty()),
        toggle_outcome(toggle_outcome(s).0).0.locked == s.locked,
        toggle_outcome(s).0.locked == !s.locked,
        lock_outcome(s).0.app_hwnd == s.app_hwnd && lock_outcome(s).0.kb_hook == s.kb_hook
            && lock_outcome(s).0.mouse_hook == s.mouse_hook,
        unlock_outcome(s).0.app_hwnd == s.app_hwnd && unlock_outcome(s).0.kb_hook == s.kb_hook
            && unlock_outcome(s).0.mouse_hook == s.mouse_hook,
{
}

/// A real change owes its actions and ends in the new state: unlocking a
/// locked desk undoes, step by step, what locking it did, and leaves the
/// panic timer cleared.
pub proof fn lemma_unlock_undoes_lock(s: HookState)
    requires
        !s.locked,
    ensures
        lock_outcome(s).1 == lock_actions(),
        lock_outcome(s).0.locked,
        unlock_outcome(lock_outcome(s).0).1 == unlock_actions(),
        !unlock_outcome(lock_outcome(s).0).0.locked,
        unlock_outcome(lock_outcome(s).0).0.panic_start == 0,
        unlock_actions()[0] == Action::RemoveTaskManagerPolicy && lock_actions()[0]
            == Action::ApplyTaskManagerPolicy,
        unlock_actions()[1] == Action::StopPanicTimer && lock_actions()[1]
            == Action::StartPanicTimer,
        unlock_actions()[2] == Action::AllowSleep && lock_actions()[2] == Action::KeepAwake,
        unlock_actions()[3] == Action::ShowLockState(false) && lock_actions()[3]
            == Action::ShowLockState(true),
{
}

/// A double click on the tray icon toggles the lock; the lock and unlock
/// commands lock and unlock.
pub proof fn lemma_window_commands(s: HookState, autostart_on: bool)
    ensures
        event_outcome(s, WindowEvent::TrayNotification(WM_LBUTTONDBLCLK), autostart_on)
            == toggle_outcome(s),
        event_outcome(s, WindowEvent::Command(ID_LOCK), autostart_on) == lock_outcome(s),
        event_outcome(s, WindowEvent::Command(ID_UNLOCK), autostart_on) == unlock_outcome(s),
        event_outcome(s, WindowEvent::Command(ID_AUTOSTART), autostart_on).1 == seq![
            Action::SetAutostart(!autostart_on),
        ],
{
}

/// The panic timer never changes anything while unlocked; while locked it
/// unlocks exactly when the hold is long enough.
pub proof fn lemma_panic_timer_unlocks(s: HookState, key_held: bool, now: u32)
    ensures
        !s.locked ==> event_outcome(s, WindowEvent::PanicTimer { key_held, now }, false) == (
            s,
            Seq::<Action>::empty(),
        ),
        s.locked ==> (event_outcome(s, WindowEvent::PanicTimer { key_held, now }, false).0.locked
            == !panic_tick(s.panic_start, key_held, now).1),
{
}

/// Every command line of the tray menu sends its command's id, and the window
/// carries out exactly that command when the id comes back: Lock locks,
/// Unlock unlocks, Start with Windows flips starting with Windows, Exit
/// closes the window.
pub proof fn lemma_menu_lines_do_their_command(
    locked: bool,
    autostart: bool,
    s: HookState,
    autostart_on: bool,
    i: int,
)
    requires
        0 <= i < menu_of(locked, autostart).len(),
    ensures
        menu_of(locked, autostart)[i].1 matches Some(c) ==> ({
            let id = menu_of(locked, autostart)[i].2;
            &&& id == command_id(c)
            &&& event_outcome(s, WindowEvent::Command(id), autostart_on) == match c {
                MenuCommand::Lock => lock_outcome(s),
                MenuCommand::Unlock => unlock_outcome(s),
                MenuCommand::Autostart => (s, seq![Action::SetAutostart(!autostart_on)]),
                MenuCommand::Exit => (s, seq![Action::DestroyWindow]),
            }
        }),
        menu_of(locked, autostart)[i].1 is None ==> menu_of(locked, autostart)[i].2 == 0,
{
}

/// Only a right click (`0x205`), the context-menu key (`0x7B`) and a
/// double click (`0x203`) on the tray icon do anything: every other tray
/// notification (a single click, a mouse move, ...) leaves the state as it
/// is and owes nothing.
pub proof fn lemma_other_tray_notifications_do_nothing(
    s: HookState,
    n: u32,
    autostart_on: bool,
)
    requires
        n != 0x0205,
        n != 0x007B,
        n != 0x0203,
    ensures
        event_outcome(s, WindowEvent::TrayNotification(n), autostart_on) == (
            s,
            Seq::<Action>::empty(),
        ),
{
}

/// Locking, unlocking and toggling, spelled out: a lock of an unlocked desk
/// locks it and owes, in order, the Task Manager policy, the panic timer,
/// staying awake and the locked icon; an unlock of a locked desk unlocks it,
/// clears the panic mark and owes their undoing; a toggle does exactly what
/// locking does when unlocked and what unlocking does when locked, actions
/// included; a lock of a locked desk or an unlock of an unlocked one changes
/// nothing and owes nothing.
pub proof fn lemma_lock_unlock_toggle_spelled_out(s: HookState)
    ensures
        !s.locked ==> lock_outcome(s) == (
            HookState { locked: true, ..s },
            seq![
                Action::ApplyTaskManagerPolicy,
                Action::StartPanicTimer,
                Action::KeepAwake,
                Action::ShowLockState(true),
            ],
        ),
        s.locked ==> unlock_outcome(s) == (
            HookState { locked: false, panic_start: 0, ..s },
            seq![
                Action::RemoveTaskManagerPolicy,
                Action::StopPanicTimer,
                Action::AllowSleep,
                Action::ShowLockState(false),
            ],
        ),
        s.locked ==> lock_outcome(s) == (s, Seq::<Action>::empty()),
        !s.locked ==> unlock_outcome(s) == (s, Seq::<Action>::empty()),
        !s.locked ==> toggle_outcome(s) == lock_outcome(s),
        s.locked ==> toggle_outcome(s) == unlock_outcome(s),
{
}

/// Whatever the event, the desk becomes locked only together with everything
/// locking owes (the panic timer among them, so that the panic key can always
/// unlock), and becomes unlocked only together with everything unlocking owes
/// and a cleared panic mark; an event that leaves the lock state as it is owes
/// none of those actions.
pub proof fn lemma_lock_changes_owe_their_actions(s: HookState, e: WindowEvent, autostart_on: bool)
    ensures
        ({
            let (t, acts) = event_outcome(s, e, autostart_on);
            &&& !s.locked && t.locked ==> acts == seq![
                Action::ApplyTaskManagerPolicy,
                Action::StartPanicTimer,
                Action::KeepAwake,
                Action::ShowLockState(true),
            ]
            &&& s.locked && !t.locked ==> acts == seq![
                Action::RemoveTaskManagerPolicy,
                Action::StopPanicTimer,
                Action::AllowSleep,
                Action::ShowLockState(false),
            ] && t.panic_start == 0
            &&& t.locked == s.locked ==> !acts.contains(Action::StartPanicTimer) && !acts.contains(
                Action::StopPanicTimer,
            ) && !acts.contains(Action::ShowLockState(true)) && !acts.contains(
                Action::ShowLockState(false),
            )
            &&& t.app_hwnd == s.app_hwnd && t.kb_hook == s.kb_hook && t.mouse_hook == s.mouse_hook
        }),
{
    let (t, acts) = event_outcome(s, e, autostart_on);
    if t.locked == s.locked {
        if acts.len() > 0 {
            assert(acts.len() == 1);
            assert forall|i: int| 0 <= i < acts.len() implies acts[i] != Action::StartPanicTimer
                && acts[i] != Action::StopPanicTimer && acts[i] != Action::ShowLockState(true)
                && acts[i] != Action::ShowLockState(false) by {
                assert(i == 0);
            }
        }
    }
}

/// Each window message does what the window table says, stated over the raw
/// message numbers and command ids: a right click (`0x205`) or the menu key
/// (`0x7B`) opens the menu, a double click (`0x203`) toggles; command `1001`
/// locks, `1002` unlocks, `1003` flips starting with Windows, `1004` closes
/// the window, and any other command does nothing; the watchdog reinstalls
/// the hooks, an update result shows its notice, Explorer's restart adds the
/// icon back, and destroying the window shuts down. None of these but the
/// lock changes touches the state.
pub proof fn lemma_window_table(s: HookState, autostart_on: bool, id: usize)
    ensures
        event_outcome(s, WindowEvent::TrayNotification(0x0205), autostart_on) == (
            s,
            seq![Action::ShowMenu],
        ),
        event_outcome(s, WindowEvent::TrayNotification(0x007B), autostart_on) == (
            s,
            seq![Action::ShowMenu],
        ),
        event_outcome(s, WindowEvent::TrayNotification(0x0203), autostart_on) == (if s.locked {
            unlock_outcome(s)
        } else {
            lock_outcome(s)
        }),
        event_outcome(s, WindowEvent::Command(1001), autostart_on) == lock_outcome(s),
        event_outcome(s, WindowEvent::Command(1002), autostart_on) == unlock_outcome(s),
        event_outcome(s, WindowEvent::Command(1003), autostart_on) == (
            s,
            seq![Action::SetAutostart(!autostart_on)],
        ),
        event_outcome(s, WindowEvent::Command(1004), autostart_on) == (
            s,
            seq![Action::DestroyWindow],
        ),
        id != 1001 && id != 1002 && id != 1003 && id != 1004 ==> event_outcome(
            s,
            WindowEvent::Command(id),
            autostart_on,
        ) == (s, Seq::<Action>::empty()),
        event_outcome(s, WindowEvent::WatchdogTimer, autostart_on) == (
            s,
            seq![Action::ReinstallHooks],
        ),
        event_outcome(s, WindowEvent::UpdateResult, autostart_on) == (
            s,
            seq![Action::ShowUpdateNotice],
        ),
        event_outcome(s, WindowEvent::TaskbarCreated, autostart_on) == (
            s,
            seq![Action::ReAddTrayIcon],
        ),
        event_outcome(s, WindowEvent::Destroy, autostart_on) == (s, seq![Action::Shutdown]),
{
}

/// The panic timer, over the raw tick counts: unlocked, it does nothing;
/// locked, it unlocks (with everything unlocking owes) exactly when the key
/// was already held at an earlier tick and is still held at least 3000 ms
/// later (on the wrapping 32-bit counter), and otherwise only records or
/// clears the hold.
pub proof fn lemma_panic_timer_in_milliseconds(s: HookState, key_held: bool, now: u32, a: bool)
    ensures
        !s.locked ==> event_outcome(s, WindowEvent::PanicTimer { key_held, now }, a) == (
            s,
            Seq::<Action>::empty(),
        ),
        s.locked && !key_held ==> event_outcome(s, WindowEvent::PanicTimer { key_held, now }, a)
            == (HookState { panic_start: 0, ..s }, Seq::<Action>::empty()),
        s.locked && key_held && s.panic_start == 0 ==> event_outcome(
            s,
            WindowEvent::PanicTimer { key_held, now },
            a,
        ) == (HookState { panic_start: now, ..s }, Seq::<Action>::empty()),
        ({
            let elapsed = if now >= s.panic_start {
                now - s.panic_start
            } else {
                now + 0x1_0000_0000 - s.panic_start
            };
            &&& s.locked && key_held && s.panic_start != 0 && elapsed >= 3000 ==> event_outcome(
                s,
                WindowEvent::PanicTimer { key_held, now },
                a,
            ) == (
                HookState { locked: false, panic_start: 0, ..s },
                seq![
                    Action::RemoveTaskManagerPolicy,
                    Action::StopPanicTimer,
                    Action::AllowSleep,
                    Action::ShowLockState(false),
                ],
            )
            &&& s.locked && key_held && s.panic_start != 0 && elapsed < 3000 ==> event_outcome(
                s,
                WindowEvent::PanicTimer { key_held, now },
                a,
            ) == (s, Seq::<Action>::empty())
        }),
{
}

} // verus!
