use wraith::app::handle_event;
use wraith::app::is_autostart;
use wraith::app::Action;
use wraith::app::WindowEvent;
use wraith::app::ID_AUTOSTART;
use wraith::app::ID_EXIT;
use wraith::app::ID_LOCK;
use wraith::app::ID_UNLOCK;
use wraith::app::WM_CONTEXTMENU;
use wraith::app::WM_LBUTTONDBLCLK;
use wraith::app::WM_RBUTTONUP;
use wraith::app::lock;
use wraith::app::set_autostart;
use wraith::app::toggle;
use wraith::app::unlock;
use wraith::autostart::quoted_command;
use wraith::autostart::run_key;
use wraith::autostart::value_name;
use wraith::autostart::RunKeyEdit;
use wraith::hooks::panic_key_tick;
use wraith::hooks::HookState;
use wraith::updater::wide;

#[test]
fn lock_unlock_and_toggle() {
    let mut s = HookState::new();
    assert_eq!(
        lock(&mut s),
        vec![Action::ApplyTaskManagerPolicy, Action::StartPanicTimer, Action::KeepAwake, Action::ShowLockState(true)]
    );
    assert!(s.locked);
    assert_eq!(lock(&mut s), vec![]);
    assert!(s.locked);
    panic_key_tick(&mut s, true, 500);
    assert_eq!(s.panic_start, 500);
    assert_eq!(
        unlock(&mut s),
        vec![Action::RemoveTaskManagerPolicy, Action::StopPanicTimer, Action::AllowSleep, Action::ShowLockState(false)]
    );
    assert!(!s.locked);
    assert_eq!(s.panic_start, 0);
    assert_eq!(unlock(&mut s), vec![]);
    assert_eq!(toggle(&mut s).len(), 4);
    assert!(s.locked);
    assert_eq!(toggle(&mut s)[3], Action::ShowLockState(false));
    assert!(!s.locked);
}

#[test]
fn window_events_are_handled_as_documented() {
    let mut s = HookState::new();
    assert_eq!(handle_event(&mut s, WindowEvent::TrayNotification(WM_RBUTTONUP), false), vec![Action::ShowMenu]);
    assert_eq!(handle_event(&mut s, WindowEvent::TrayNotification(WM_CONTEXTMENU), false), vec![Action::ShowMenu]);
    assert_eq!(handle_event(&mut s, WindowEvent::TrayNotification(0x0200), false), vec![]);
    assert_eq!(handle_event(&mut s, WindowEvent::TrayNotification(WM_LBUTTONDBLCLK), false).len(), 4);
    assert!(s.locked);
    assert_eq!(handle_event(&mut s, WindowEvent::TrayNotification(WM_LBUTTONDBLCLK), false).len(), 4);
    assert!(!s.locked);
    assert_eq!(handle_event(&mut s, WindowEvent::Command(ID_LOCK), false).len(), 4);
    assert!(s.locked);
    assert_eq!(handle_event(&mut s, WindowEvent::Command(ID_LOCK), false), vec![]);
    assert_eq!(handle_event(&mut s, WindowEvent::Command(ID_UNLOCK), false).len(), 4);
    assert!(!s.locked);
    assert_eq!(handle_event(&mut s, WindowEvent::Command(ID_AUTOSTART), false), vec![Action::SetAutostart(true)]);
    assert_eq!(handle_event(&mut s, WindowEvent::Command(ID_AUTOSTART), true), vec![Action::SetAutostart(false)]);
    assert_eq!(handle_event(&mut s, WindowEvent::Command(ID_EXIT), false), vec![Action::DestroyWindow]);
    assert_eq!(handle_event(&mut s, WindowEvent::Command(9999), false), vec![]);
    assert_eq!(handle_event(&mut s, WindowEvent::WatchdogTimer, false), vec![Action::ReinstallHooks]);
    assert_eq!(handle_event(&mut s, WindowEvent::UpdateResult, false), vec![Action::ShowUpdateNotice]);
    assert_eq!(handle_event(&mut s, WindowEvent::TaskbarCreated, false), vec![Action::ReAddTrayIcon]);
    assert_eq!(handle_event(&mut s, WindowEvent::Destroy, false), vec![Action::Shutdown]);
}

#[test]
fn panic_timer_unlocks_after_three_seconds_held() {
    let mut s = HookState::new();
    // Unlocked: the timer does nothing, not even start the hold.
    assert_eq!(handle_event(&mut s, WindowEvent::PanicTimer { key_held: true, now: 100 }, false), vec![]);
    assert_eq!(s.panic_start, 0);
    handle_event(&mut s, WindowEvent::Command(ID_LOCK), false);
    let mut t: u32 = 1000;
    while t < 4000 {
        assert_eq!(handle_event(&mut s, WindowEvent::PanicTimer { key_held: true, now: t }, false), vec![]);
        assert!(s.locked);
        t += 100;
    }
    assert_eq!(
        handle_event(&mut s, WindowEvent::PanicTimer { key_held: true, now: 4000 }, false),
        vec![Action::RemoveTaskManagerPolicy, Action::StopPanicTimer, Action::AllowSleep, Action::ShowLockState(false)]
    );
    assert!(!s.locked);
    assert_eq!(s.panic_start, 0);
}

#[test]
fn panic_hold_released_early_stays_locked() {
    let mut s = HookState::new();
    handle_event(&mut s, WindowEvent::Command(ID_LOCK), false);
    handle_event(&mut s, WindowEvent::PanicTimer { key_held: true, now: 1000 }, false);
    handle_event(&mut s, WindowEvent::PanicTimer { key_held: true, now: 3500 }, false);
    handle_event(&mut s, WindowEvent::PanicTimer { key_held: false, now: 3600 }, false);
    assert_eq!(s.panic_start, 0);
    handle_event(&mut s, WindowEvent::PanicTimer { key_held: true, now: 3700 }, false);
    assert_eq!(handle_event(&mut s, WindowEvent::PanicTimer { key_held: true, now: 4100 }, false), vec![]);
    assert!(s.locked);
}

#[test]
fn autostart_writes_the_quoted_path() {
    let exe = wide("C:\\Program Files\\Wraith\\wraith.exe");
    let exe = &exe[..exe.len() - 1];
    let expected = wide("\"C:\\Program Files\\Wraith\\wraith.exe\"");
    assert_eq!(quoted_command(exe), expected);
    match set_autostart(true, exe) {
        RunKeyEdit::Write { value, byte_len } => {
            assert_eq!(value, expected);
            assert_eq!(byte_len as usize, expected.len() * 2);
        }
        RunKeyEdit::Delete => panic!("expected a write"),
    }
    assert!(matches!(set_autostart(false, exe), RunKeyEdit::Delete));
}

#[test]
fn autostart_is_on_only_when_the_value_is_found() {
    assert!(is_autostart(0, 0));
    assert!(!is_autostart(0, 2));
    assert!(!is_autostart(5, 0));
    assert!(!is_autostart(2, 2));
}

#[test]
fn run_key_names() {
    assert_eq!(run_key(), wide("Software\\Microsoft\\Windows\\CurrentVersion\\Run"));
    assert_eq!(value_name(), wide("Wraith"));
}
