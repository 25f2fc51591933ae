//! The notification-area icon: which icon and tip it shows, and its menu.

use vstd::prelude::*;
use crate::app::ID_AUTOSTART;
use crate::app::ID_EXIT;
use crate::app::ID_LOCK;
use crate::app::ID_UNLOCK;
use crate::updater::utf16_of;
use crate::updater::wide;

verus! {

/// `MF_STRING`.
pub const MF_STRING: u32 = 0x0000;

/// `MF_GRAYED`.
pub const MF_GRAYED: u32 = 0x0001;

/// `MF_CHECKED`.
pub const MF_CHECKED: u32 = 0x0008;

/// `MF_SEPARATOR`.
pub const MF_SEPARATOR: u32 = 0x0800;

/// The tray icon of the application window `hwnd`, with its two icons
/// (handles, as integers) and the lock state it shows.
pub struct TrayIcon {
    pub hwnd: usize,
    pub h_icon_unlocked: usize,
    pub h_icon_locked: usize,
    pub locked: bool,
}

/// What the icon shows: the icon handle and the tooltip (NUL-terminated).
pub struct TrayDisplay {
    pub icon: usize,
    pub tip: Vec<u16>,
}

/// A command of the tray menu.
#[derive(Clone, Copy, Debug, PartialEq, Eq)]
pub enum MenuCommand {
    Lock,
    Unlock,
    Autostart,
    Exit,
}

/// One line of the tray menu: its `MF_*` flags, its command (none for a
/// separator) and the `WM_COMMAND` id it sends (0 for a separator).
pub struct MenuEntry {
    pub flags: u32,
    pub command: Option<MenuCommand>,
    pub id: usize,
}

/// The `WM_COMMAND` id a menu command sends.
pub open spec fn command_id(c: MenuCommand) -> usize {
    match c {
        MenuCommand::Lock => ID_LOCK,
        MenuCommand::Unlock => ID_UNLOCK,
        MenuCommand::Autostart => ID_AUTOSTART,
        MenuCommand::Exit => ID_EXIT,
    }
}

/// The tooltip text for a lock state.
pub open spec fn tip_text(locked: bool) -> Seq<char> {
    if locked {
        "Wraith - Locked"@
    } else {
        "Wraith - Unlocked"@
    }
}

/// The label text of a menu command.
pub open spec fn label_text(c: MenuCommand) -> Seq<char> {
    match c {
        MenuCommand::Lock => "Lock"@,
        MenuCommand::Unlock => "Unlock"@,
        MenuCommand::Autostart => "Start with Windows"@,
        MenuCommand::Exit => "Exit"@,
    }
}

/// `d` is what the icon shows for `t`: the icon of its lock state and the
/// matching tooltip.
pub open spec fn shows(t: TrayIcon, d: TrayDisplay) -> bool {
    &&& d.icon == (if t.locked {
        t.h_icon_locked
    } else {
        t.h_icon_unlocked
    })
    &&& d.tip@ == utf16_of(tip_text(t.locked)) + seq![0u16]
}

/// The menu for a lock state and an auto-start state: Lock (grayed while
/// locked), Unlock (grayed while unlocked), a separator, Start with Windows
/// (checked while on), a separator, Exit.
/// Each command line sends its command's id.
pub open spec fn menu_of(locked: bool, autostart: bool) -> Seq<(u32, Option<MenuCommand>, usize)> {
    seq![
        (MF_STRING | (if locked { MF_GRAYED } else { 0 }), Some(MenuCommand::Lock), ID_LOCK),
        (MF_STRING | (if !locked { MF_GRAYED } else { 0 }), Some(MenuCommand::Unlock), ID_UNLOCK),
        (MF_SEPARATOR, None, 0),
        (
            MF_STRING | (if autostart { MF_CHECKED } else { 0 }),
            Some(MenuCommand::Autostart),
            ID_AUTOSTART,
        ),
        (MF_SEPARATOR, None, 0),
        (MF_STRING, Some(MenuCommand::Exit), ID_EXIT),
    ]
}

/// The flags, commands and ids of a menu.
pub open spec fn menu_view(m: Seq<MenuEntry>) -> Seq<(u32, Option<MenuCommand>, usize)> {
    m.map_values(|e: MenuEntry| (e.flags, e.command, e.id))
}

impl MenuCommand {
    /// The `WM_COMMAND` id the command sends.
    pub fn id(&self) -> (r: usize)
        ensures
            r == command_id(*self),
    {
        match self {
            MenuCommand::Lock => ID_LOCK,
            MenuCommand::Unlock => ID_UNLOCK,
            MenuCommand::Autostart => ID_AUTOSTART,
            MenuCommand::Exit => ID_EXIT,
        }
    }

    /// The command's label.
    pub fn label(&self) -> (r: &'static str)
        ensures
            r@ == label_text(*self),
    {
        match self {
            MenuCommand::Lock => "Lock",
            MenuCommand::Unlock => "Unlock",
            MenuCommand::Autostart => "Start with Windows",
            MenuCommand::Exit => "Exit",
        }
    }
}

impl TrayIcon {
    /// The tray icon of window `hwnd` with its two icons, showing "unlocked".
    pub fn new(hwnd: usize, h_icon_unlocked: usize, h_icon_locked: usize) -> (r: TrayIcon)
        ensures
            r == (TrayIcon { hwnd, h_icon_unlocked, h_icon_locked, locked: false }),
    {
        TrayIcon { hwnd, h_icon_unlocked, h_icon_locked, locked: false }
    }

    /// What the icon shows now.
    pub fn display(&self) -> (r: TrayDisplay)
        ensures
            shows(*self, r),
    {
        let icon = if self.locked {
            self.h_icon_locked
        } else {
            self.h_icon_unlocked
        };
        let tip = if self.locked {
            wide("Wraith - Locked")
        } else {
            wide("Wraith - Unlocked")
        };
        TrayDisplay { icon, tip }
    }

    /// Shows the lock state `locked`; returns what the icon now shows.
    pub fn set_locked(&mut self, locked: bool) -> (r: TrayDisplay)
        ensures
            *final(self) == (TrayIcon { locked, ..*old(self) }),
            shows(*final(self), r),
    {
        self.locked = locked;
        self.display()
    }

    /// What to add the icon back with after Explorer restarts: the icon and
    /// tip of the state it showed.
    pub fn re_add(&self) -> (r: TrayDisplay)
        ensures
            shows(*self, r),
    {
        self.display()
    }

    /// The tray menu for lock state `locked` with auto-start on or off.
    pub fn show_menu(&self, locked: bool, autostart: bool) -> (r: Vec<MenuEntry>)
        ensures
            menu_view(r@) == menu_of(locked, autostart),
    {
        let lock_flags: u32 = MF_STRING | if locked {
            MF_GRAYED
        } else {
            0
        };
        let unlock_flags: u32 = MF_STRING | if !locked {
            MF_GRAYED
        } else {
            0
        };
        let autostart_flags: u32 = MF_STRING | if autostart {
            MF_CHECKED
        } else {
            0
        };
        let mut r: Vec<MenuEntry> = Vec::new();
        r.push(MenuEntry { flags: lock_flags, command: Some(MenuCommand::Lock), id: ID_LOCK });
        r.push(
            MenuEntry { flags: unlock_flags, command: Some(MenuCommand::Unlock), id: ID_UNLOCK },
        );
        r.push(MenuEntry { flags: MF_SEPARATOR, command: None, id: 0 });
        r.push(
            MenuEntry {
                flags: autostart_flags,
                command: Some(MenuCommand::Autostart),
                id: ID_AUTOSTART,
            },
        );
        r.push(MenuEntry { flags: MF_SEPARATOR, command: None, id: 0 });
        r.push(MenuEntry { flags: MF_STRING, command: Some(MenuCommand::Exit), id: ID_EXIT });
        assert(menu_view(r@) =~= menu_of(locked, autostart));
        r
    }
}

/// The icon to show: the one loaded from the program's resources, or the
/// stock application icon where loading failed (a null handle).
pub fn pick_icon(loaded: usize, fallback: usize) -> (r: usize)
    ensures
        r == (if loaded != 0 {
            loaded
        } else {
            fallback
        }),
{
    if loaded != 0 {
        loaded
    } else {
        fallback
    }
}

/// Copies the wide string `src` into the fixed buffer `dst`, cut short to
/// leave room for the NUL that always follows it.
pub fn copy_wide(src: &[u16], dst: &mut [u16])
    requires
        old(dst)@.len() > 0,
    ensures
        ({
            let n = if src@.len() < old(dst)@.len() - 1 {
                src@.len() as int
            } else {
                old(dst)@.len() - 1
            };
            final(dst)@ == src@.take(n) + seq![0u16] + old(dst)@.skip(n + 1)
        }),
{
    let n: usize = if src.len() < dst.len() - 1 {
        src.len()
    } else {
        dst.len() - 1
    };
    let mut i: usize = 0;
    while i < n
        invariant
            n < dst@.len(),
            n <= src@.len(),
            i <= n,
            dst@.len() == old(dst)@.len(),
            forall|k: int| 0 <= k < i ==> dst@[k] == src@[k],
            forall|k: int| i <= k < dst@.len() ==> dst@[k] == old(dst)@[k],
        decreases n - i,
    {
        dst[i] = src[i];
        i = i + 1;
    }
    dst[n] = 0;
    assert(dst@ =~= src@.take(n as int) + seq![0u16] + old(dst)@.skip(n + 1));
}

/// Of Lock and Unlock, the menu offers exactly the one that changes the
/// state: the other is grayed. Start with Windows is checked exactly when on.
pub proof fn lemma_menu_offers_the_change(locked: bool, autostart: bool)
    ensures
        ({
            let m = menu_of(locked, autostart);
            &&& (m[0].0 & MF_GRAYED != 0) == locked
            &&& (m[1].0 & MF_GRAYED != 0) == !locked
            &&& (m[3].0 & MF_CHECKED != 0) == autostart
        }),
{
    assert((0u32 | 1u32) & 1u32 != 0) by (bit_vector);
    assert((0u32 | 0u32) & 1u32 == 0) by (bit_vector);
    assert((0u32 | 8u32) & 8u32 != 0) by (bit_vector);
    assert((0u32 | 0u32) & 8u32 == 0) by (bit_vector);
}

/// After the icon is set to a state, putting it back (after Explorer
/// restarts) shows that same state.
pub proof fn lemma_re_add_shows_last_state(t: TrayIcon, locked: bool, d: TrayDisplay)
    requires
        shows(TrayIcon { locked, ..t }, d),
    ensures
        d.icon == (if locked {
            t.h_icon_locked
        } else {
            t.h_icon_unlocked
        }),
        d.tip@ == utf16_of(tip_text(locked)) + seq![0u16],
{
}

} // verus!
