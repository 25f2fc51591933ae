use wraith::app::ID_AUTOSTART;
use wraith::app::ID_EXIT;
use wraith::app::ID_LOCK;
use wraith::app::ID_UNLOCK;
use wraith::tray::copy_wide;
use wraith::tray::pick_icon;
use wraith::tray::MenuCommand;
use wraith::tray::TrayIcon;
use wraith::tray::MF_CHECKED;
use wraith::tray::MF_GRAYED;
use wraith::tray::MF_SEPARATOR;
use wraith::tray::MF_STRING;
use wraith::updater::wide;

#[test]
fn icon_and_tip_follow_the_lock_state() {
    let mut t = TrayIcon::new(0x42, 11, 22);
    let d = t.re_add();
    assert_eq!(d.icon, 11);
    assert_eq!(d.tip, wide("Wraith - Unlocked"));
    let d = t.set_locked(true);
    assert_eq!(d.icon, 22);
    assert_eq!(d.tip, wide("Wraith - Locked"));
    let d = t.re_add();
    assert_eq!(d.icon, 22);
    assert_eq!(d.tip, wide("Wraith - Locked"));
    let d = t.set_locked(false);
    assert_eq!(d.icon, 11);
    assert!(!t.locked);
    assert_eq!(t.hwnd, 0x42);
}

#[test]
fn menu_offers_the_change() {
    let t = TrayIcon::new(1, 2, 3);
    let m = t.show_menu(false, true);
    let flags: Vec<u32> = m.iter().map(|e| e.flags).collect();
    let cmds: Vec<Option<MenuCommand>> = m.iter().map(|e| e.command).collect();
    assert_eq!(flags, vec![MF_STRING, MF_STRING | MF_GRAYED, MF_SEPARATOR, MF_STRING | MF_CHECKED, MF_SEPARATOR, MF_STRING]);
    assert_eq!(cmds, vec![Some(MenuCommand::Lock), Some(MenuCommand::Unlock), None, Some(MenuCommand::Autostart), None, Some(MenuCommand::Exit)]);
    let m = t.show_menu(true, false);
    let flags: Vec<u32> = m.iter().map(|e| e.flags).collect();
    assert_eq!(flags, vec![MF_STRING | MF_GRAYED, MF_STRING, MF_SEPARATOR, MF_STRING, MF_SEPARATOR, MF_STRING]);
    let ids: Vec<usize> = m.iter().map(|e| e.id).collect();
    assert_eq!(ids, vec![ID_LOCK, ID_UNLOCK, 0, ID_AUTOSTART, 0, ID_EXIT]);
    assert_eq!(ids, vec![1001, 1002, 0, 1003, 0, 1004]);
    assert_eq!(MenuCommand::Lock.id(), ID_LOCK);
    assert_eq!(MenuCommand::Unlock.id(), ID_UNLOCK);
    assert_eq!(MenuCommand::Autostart.id(), ID_AUTOSTART);
    assert_eq!(MenuCommand::Exit.id(), ID_EXIT);
    assert_eq!(MenuCommand::Lock.label(), "Lock");
    assert_eq!(MenuCommand::Unlock.label(), "Unlock");
    assert_eq!(MenuCommand::Autostart.label(), "Start with Windows");
    assert_eq!(MenuCommand::Exit.label(), "Exit");
}

#[test]
fn copy_wide_truncates_and_terminates() {
    let mut dst = [7u16; 5];
    copy_wide(&[1, 2], &mut dst);
    assert_eq!(dst, [1, 2, 0, 7, 7]);
    let mut dst = [7u16; 4];
    copy_wide(&[1, 2, 3, 4, 5, 6], &mut dst);
    assert_eq!(dst, [1, 2, 3, 0]);
    let mut dst = [7u16; 1];
    copy_wide(&[1, 2], &mut dst);
    assert_eq!(dst, [0]);
    let mut tip = [0xFFFFu16; 128];
    copy_wide(&wide("Wraith - Locked"), &mut tip);
    assert_eq!(&tip[..16], &wide("Wraith - Locked")[..]);
    assert_eq!(tip[16], 0);
}

#[test]
fn icons_fall_back_to_the_stock_icon() {
    assert_eq!(pick_icon(0x1234, 0x99), 0x1234);
    assert_eq!(pick_icon(0, 0x99), 0x99);
}
