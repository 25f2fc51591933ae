//! Configuration: the hotkeys and start-up behaviour read from `wraith.ini`.

use vstd::prelude::*;
use crate::updater::all_digits;
use crate::updater::chars_of;
use crate::updater::decimal;
use crate::updater::is_first_non_whitespace;
use crate::updater::is_whitespace;
use crate::updater::lemma_decimal;
use crate::updater::lemma_trim_start_found;
use crate::updater::digits_value;
use crate::updater::is_digit;
use crate::updater::lemma_trim_start_none;
use crate::updater::parse_u32_in;
use crate::updater::skip_whitespace;
use crate::updater::trim_start;
use crate::updater::utf16_of;
use crate::updater::wide;

verus! {

/// Lock modifiers when the file gives none: Ctrl+Shift+Alt (`MOD_ALT | MOD_CONTROL | MOD_SHIFT`).
pub const DEFAULT_LOCK_MODS: i32 = 7;

/// Lock key when the file gives none: `L`.
pub const DEFAULT_LOCK_VK: i32 = 76;

/// Unlock modifiers when the file gives none: Ctrl+Shift+Alt.
pub const DEFAULT_UNLOCK_MODS: i32 = 7;

/// Unlock key when the file gives none: `U`.
pub const DEFAULT_UNLOCK_VK: i32 = 85;

/// Panic key when the file gives none: Escape.
pub const DEFAULT_PANIC_VK: i32 = 27;

/// Whether to lock at start when the file does not say: no.
pub const DEFAULT_LOCK_ON_START: i32 = 0;

/// The settings in force for one run of the application.
#[derive(Clone, Copy, Debug, PartialEq, Eq)]
pub struct Config {
    pub lock_mods: u32,
    pub lock_vk: u32,
    pub unlock_mods: u32,
    pub unlock_vk: u32,
    pub panic_vk: u32,
    pub lock_on_start: bool,
}

/// A key of the `[Wraith]` section of `wraith.ini`.
#[derive(Clone, Copy, Debug, PartialEq, Eq)]
pub enum ConfigKey {
    LockModifiers,
    LockKey,
    UnlockModifiers,
    UnlockKey,
    PanicKey,
    LockOnStart,
}

/// The value a key takes when the file does not give one.
pub open spec fn default_of(key: ConfigKey) -> i32 {
    match key {
        ConfigKey::LockModifiers => DEFAULT_LOCK_MODS,
        ConfigKey::LockKey => DEFAULT_LOCK_VK,
        ConfigKey::UnlockModifiers => DEFAULT_UNLOCK_MODS,
        ConfigKey::UnlockKey => DEFAULT_UNLOCK_VK,
        ConfigKey::PanicKey => DEFAULT_PANIC_VK,
        ConfigKey::LockOnStart => DEFAULT_LOCK_ON_START,
    }
}

/// `k` is the number of decimal digits that `s` opens with.
pub open spec fn is_digit_run(s: Seq<char>, k: int) -> bool {
    &&& 0 <= k <= s.len()
    &&& all_digits(s.take(k))
    &&& (k == s.len() || !is_digit(s[k]))
}

/// The number of decimal digits that `s` opens with.
pub open spec fn digit_run(s: Seq<char>) -> int {
    choose|k: int| is_digit_run(s, k)
}

/// The number that a `wraith.ini` value writes: after leading whitespace, a
/// decimal number that fits in 32 bits, followed by nothing but whitespace
/// and, optionally, a `;` comment. `None` for any other text (a missing key
/// reads as empty text).
pub open spec fn ini_number(text: Seq<char>) -> Option<u32> {
    let t = trim_start(text);
    let k = digit_run(t);
    let rest = trim_start(t.skip(k));
    if k > 0 && digits_value(t.take(k)) <= u32::MAX && (rest.len() == 0 || rest[0] == ';') {
        Some(digits_value(t.take(k)) as u32)
    } else {
        None
    }
}

/// The setting a `wraith.ini` value gives: its number, or the key's default
/// when the value is missing or no number.
pub open spec fn ini_setting(text: Seq<char>, default: u32) -> u32 {
    match ini_number(text) {
        Some(v) => v,
        None => default,
    }
}

/// `read` can return, for `key`, a text that gives the setting `v`.
pub open spec fn reads_setting<F: Fn(ConfigKey) -> String>(
    read: F,
    key: ConfigKey,
    default: u32,
    v: u32,
) -> bool {
    exists|t: String| #[trigger] call_ensures(read, (key,), t) && v == ini_setting(t@, default)
}

/// `c` is what loading with `read` can give: each field is the setting that
/// a text `read` returns for its key gives, with the key's default.
pub open spec fn loaded_by<F: Fn(ConfigKey) -> String>(read: F, c: Config) -> bool {
    &&& reads_setting(read, ConfigKey::LockModifiers, DEFAULT_LOCK_MODS as u32, c.lock_mods)
    &&& reads_setting(read, ConfigKey::LockKey, DEFAULT_LOCK_VK as u32, c.lock_vk)
    &&& reads_setting(read, ConfigKey::UnlockModifiers, DEFAULT_UNLOCK_MODS as u32, c.unlock_mods)
    &&& reads_setting(read, ConfigKey::UnlockKey, DEFAULT_UNLOCK_VK as u32, c.unlock_vk)
    &&& reads_setting(read, ConfigKey::PanicKey, DEFAULT_PANIC_VK as u32, c.panic_vk)
    &&& exists|t: String|
        #[trigger] call_ensures(read, (ConfigKey::LockOnStart,), t) && c.lock_on_start == (
        ini_setting(t@, DEFAULT_LOCK_ON_START as u32) != 0)
}

/// The settings when `wraith.ini` gives no usable value at all.
pub open spec fn default_config() -> Config {
    Config {
        lock_mods: DEFAULT_LOCK_MODS as u32,
        lock_vk: DEFAULT_LOCK_VK as u32,
        unlock_mods: DEFAULT_UNLOCK_MODS as u32,
        unlock_vk: DEFAULT_UNLOCK_VK as u32,
        panic_vk: DEFAULT_PANIC_VK as u32,
        lock_on_start: DEFAULT_LOCK_ON_START != 0,
    }
}

proof fn lemma_digit_run(s: Seq<char>, k: int)
    requires
        is_digit_run(s, k),
    ensures
        digit_run(s) == k,
{
    let j = choose|j: int| is_digit_run(s, j);
    if j < k {
        assert(s.take(k)[j] == s[j]);
    } else if k < j {
        assert(s.take(j)[k] == s[k]);
    }
}

/// The setting that the `wraith.ini` value `text` gives, `default` where it
/// gives none.
pub fn setting_value(text: &str, default: u32) -> (r: u32)
    ensures
        r == ini_setting(text@, default),
{
    let cs = chars_of(text);
    let n = cs.len();
    assert(cs@.subrange(0, n as int) == cs@);
    let t = skip_whitespace(&cs, 0, n);
    let ghost tt = cs@.subrange(t as int, n as int);
    let mut e: usize = t;
    while e < n && '0' <= cs[e] && cs[e] <= '9'
        invariant
            t <= e <= n == cs@.len(),
            tt == cs@.subrange(t as int, n as int),
            all_digits(tt.take(e - t)),
        decreases n - e,
    {
        assert(tt.take(e - t + 1) == tt.take(e - t).push(cs@[e as int]));
        e = e + 1;
    }
    proof {
        if e < n {
            assert(tt[e - t] == cs@[e as int]);
        }
        assert(is_digit_run(tt, e - t));
        lemma_digit_run(tt, e - t);
        assert(tt.skip(e - t) == cs@.subrange(e as int, n as int));
        assert(tt.take(e - t) == cs@.subrange(t as int, e as int));
    }
    if e == t {
        return default;
    }
    let r = skip_whitespace(&cs, e, n);
    if r < n && cs[r] != ';' {
        return default;
    }
    proof {
        let d = cs@.subrange(t as int, e as int);
        assert(d.len() > 0 && is_digit(d[0]));
        assert(!(d.len() > 0 && d[0] == '+'));
    }
    match parse_u32_in(&cs, t, e) {
        Some(v) => v,
        None => default,
    }
}

impl ConfigKey {
    /// The key's name in the file.
    pub fn name(&self) -> (r: &'static str)
        ensures
            r@ == match *self {
                ConfigKey::LockModifiers => "LockModifiers"@,
                ConfigKey::LockKey => "LockKey"@,
                ConfigKey::UnlockModifiers => "UnlockModifiers"@,
                ConfigKey::UnlockKey => "UnlockKey"@,
                ConfigKey::PanicKey => "PanicKey"@,
                ConfigKey::LockOnStart => "LockOnStart"@,
            },
    {
        match self {
            ConfigKey::LockModifiers => "LockModifiers",
            ConfigKey::LockKey => "LockKey",
            ConfigKey::UnlockModifiers => "UnlockModifiers",
            ConfigKey::UnlockKey => "UnlockKey",
            ConfigKey::PanicKey => "PanicKey",
            ConfigKey::LockOnStart => "LockOnStart",
        }
    }

    /// The value the key takes when the file does not give one.
    pub fn default_value(&self) -> (r: i32)
        ensures
            r == default_of(*self),
    {
        match self {
            ConfigKey::LockModifiers => DEFAULT_LOCK_MODS,
            ConfigKey::LockKey => DEFAULT_LOCK_VK,
            ConfigKey::UnlockModifiers => DEFAULT_UNLOCK_MODS,
            ConfigKey::UnlockKey => DEFAULT_UNLOCK_VK,
            ConfigKey::PanicKey => DEFAULT_PANIC_VK,
            ConfigKey::LockOnStart => DEFAULT_LOCK_ON_START,
        }
    }
}

impl Config {
    /// The settings when `wraith.ini` gives no usable value at all.
    pub fn defaults() -> (r: Config)
        ensures
            r == default_config(),
    {
        Config {
            lock_mods: DEFAULT_LOCK_MODS as u32,
            lock_vk: DEFAULT_LOCK_VK as u32,
            unlock_mods: DEFAULT_UNLOCK_MODS as u32,
            unlock_vk: DEFAULT_UNLOCK_VK as u32,
            panic_vk: DEFAULT_PANIC_VK as u32,
            lock_on_start: DEFAULT_LOCK_ON_START != 0,
        }
    }

    /// Loads the settings, asking `read` for the text of each key (empty when
    /// the key is missing), in the order of the file; a missing or invalid
    /// value gives the key's default.
    pub fn load<F: Fn(ConfigKey) -> String>(read: F) -> (r: Config)
        requires
            forall|k: ConfigKey| read.requires((k,)),
        ensures
            loaded_by(read, r),
    {
        let t = read(ConfigKey::LockModifiers);
        let lock_mods = setting_value(t.as_str(), DEFAULT_LOCK_MODS as u32);
        let t = read(ConfigKey::LockKey);
        let lock_vk = setting_value(t.as_str(), DEFAULT_LOCK_VK as u32);
        let t = read(ConfigKey::UnlockModifiers);
        let unlock_mods = setting_value(t.as_str(), DEFAULT_UNLOCK_MODS as u32);
        let t = read(ConfigKey::UnlockKey);
        let unlock_vk = setting_value(t.as_str(), DEFAULT_UNLOCK_VK as u32);
        let t = read(ConfigKey::PanicKey);
        let panic_vk = setting_value(t.as_str(), DEFAULT_PANIC_VK as u32);
        let t = read(ConfigKey::LockOnStart);
        let lock_on_start = setting_value(t.as_str(), DEFAULT_LOCK_ON_START as u32);
        Config { lock_mods, lock_vk, unlock_mods, unlock_vk, panic_vk, lock_on_start: lock_on_start != 0 }
    }

    /// The settings of this run: those already in `slot`, or, the first time,
    /// those loaded with `read`, which then stay in `slot`.
    pub fn get<F: Fn(ConfigKey) -> String>(slot: &mut Option<Config>, read: F) -> (r: Config)
        requires
            forall|k: ConfigKey| read.requires((k,)),
        ensures
            *final(slot) == Some(r),
            *old(slot) matches Some(c) ==> r == c,
            *old(slot) is None ==> loaded_by(read, r),
    {
        match *slot {
            Some(c) => c,
            None => {
                let c = Config::load(read);
                *slot = Some(c);
                c
            },
        }
    }
}

/// A missing or invalid value gives the key's default; a value that is a
/// number gives that number.
pub proof fn lemma_invalid_value_gives_default(text: Seq<char>, default: u32)
    ensures
        ini_number(text) is None ==> ini_setting(text, default) == default,
        ini_number(text) matches Some(v) ==> ini_setting(text, default) == v,
        ini_number(Seq::<char>::empty()) is None,
{
    let e = Seq::<char>::empty();
    lemma_trim_start_none(e);
    assert(is_digit_run(e, 0)) by {
        assert(e.take(0) =~= e);
    }
    lemma_digit_run(e, 0);
}

/// Settings read by a reader that knows no key (no `wraith.ini`) are the
/// defaults.
pub proof fn lemma_missing_file_gives_defaults(c: Config)
    requires
        c.lock_mods == ini_setting(Seq::empty(), DEFAULT_LOCK_MODS as u32),
        c.lock_vk == ini_setting(Seq::empty(), DEFAULT_LOCK_VK as u32),
        c.unlock_mods == ini_setting(Seq::empty(), DEFAULT_UNLOCK_MODS as u32),
        c.unlock_vk == ini_setting(Seq::empty(), DEFAULT_UNLOCK_VK as u32),
        c.panic_vk == ini_setting(Seq::empty(), DEFAULT_PANIC_VK as u32),
        c.lock_on_start == (ini_setting(Seq::empty(), DEFAULT_LOCK_ON_START as u32) != 0),
    ensures
        c == default_config(),
{
    lemma_invalid_value_gives_default(Seq::empty(), 0);
}

/// `i` is the last index of `p` that holds a path separator (`\` or `/`).
pub open spec fn is_last_separator(p: Seq<u16>, i: int) -> bool {
    &&& 0 <= i < p.len()
    &&& (p[i] == 0x5C || p[i] == 0x2F)
    &&& forall|k: int| i < k < p.len() ==> #[trigger] p[k] != 0x5C && p[k] != 0x2F
}

/// The length of the directory part of the path `p`, its last separator
/// included; zero when `p` holds no separator.
pub open spec fn dir_len(p: Seq<u16>) -> int {
    if exists|i: int| is_last_separator(p, i) {
        (choose|i: int| is_last_separator(p, i)) + 1
    } else {
        0
    }
}

/// The NUL-terminated wide path of `filename` in the directory of the
/// program `exe_path` (the path as `GetModuleFileNameW` wrote it, without NUL).
pub fn exe_relative(exe_path: &[u16], filename: &str) -> (r: Vec<u16>)
    ensures
        r@ == exe_path@.take(dir_len(exe_path@)) + utf16_of(filename@) + seq![0u16],
{
    let n = exe_path.len();
    let mut end: usize = n;
    while end > 0 && exe_path[end - 1] != 0x5C && exe_path[end - 1] != 0x2F
        invariant
            end <= n == exe_path@.len(),
            forall|k: int| end <= k < n ==> #[trigger] exe_path@[k] != 0x5C && exe_path@[k] != 0x2F,
        decreases end,
    {
        end = end - 1;
    }
    proof {
        let p = exe_path@;
        if end > 0 {
            assert(is_last_separator(p, end - 1));
            let j = choose|j: int| is_last_separator(p, j);
            if j < end - 1 {
                assert(p[end - 1] != 0x5C && p[end - 1] != 0x2F);
            } else if j > end - 1 {
                assert(p[j] != 0x5C && p[j] != 0x2F);
            }
        } else {
            assert forall|i: int| !is_last_separator(p, i) by {
                if 0 <= i < p.len() {
                    assert(p[i] != 0x5C && p[i] != 0x2F);
                }
            }
        }
    }
    let mut path: Vec<u16> = Vec::new();
    let mut i: usize = 0;
    while i < end
        invariant
            end <= exe_path@.len(),
            i <= end,
            path@ == exe_path@.take(i as int),
        decreases end - i,
    {
        path.push(exe_path[i]);
        assert(exe_path@.take(i + 1) == exe_path@.take(i as int).push(exe_path@[i as int]));
        i = i + 1;
    }
    let name = wide(filename);
    let mut j: usize = 0;
    let ghost base = path@;
    while j < name.len()
        invariant
            j <= name@.len(),
            path@ == base + name@.take(j as int),
        decreases name@.len() - j,
    {
        path.push(name[j]);
        assert(name@.take(j + 1) == name@.take(j as int).push(name@[j as int]));
        j = j + 1;
    }
    assert(name@.take(name@.len() as int) == name@);
    path
}

/// A value written as a decimal number (as the file's own examples write
/// them), with spaces around it and optionally a `;` comment after it, gives
/// that number; a value that opens with a letter or a sign gives the key's
/// default.
pub proof fn lemma_written_values_are_read(
    x: u32,
    w1: Seq<char>,
    w2: Seq<char>,
    comment: Seq<char>,
    other: Seq<char>,
    d: u32,
)
    requires
        forall|i: int| 0 <= i < w1.len() ==> #[trigger] w1[i] == ' ',
        forall|i: int| 0 <= i < w2.len() ==> #[trigger] w2[i] == ' ',
        comment.len() == 0 || comment[0] == ';',
    ensures
        ini_setting(w1 + decimal(x as nat) + w2 + comment, d) == x,
        other.len() > 0 && (('a' <= other[0] <= 'z') || ('A' <= other[0] <= 'Z') || other[0]
            == '+' || other[0] == '-') ==> ini_setting(other, d) == d,
{
    let n = decimal(x as nat);
    lemma_decimal(x as nat);
    let tail = w2 + comment;
    let text = w1 + n + tail;
    assert(text =~= w1 + decimal(x as nat) + w2 + comment);
    // Leading spaces.
    assert forall|k: int| 0 <= k < w1.len() implies is_whitespace(#[trigger] text[k]) by {
        assert(text[k] == w1[k]);
    }
    assert(text[w1.len() as int] == n[0]);
    assert(is_digit(n[0]));
    assert(is_first_non_whitespace(text, w1.len() as int));
    lemma_trim_start_found(text, w1.len() as int);
    let t = n + tail;
    assert(text.skip(w1.len() as int) =~= t);
    // The digits.
    assert(t.take(n.len() as int) =~= n);
    if tail.len() > 0 {
        assert(t[n.len() as int] == tail[0]);
        if w2.len() > 0 {
            assert(tail[0] == w2[0]);
        } else {
            assert(tail[0] == comment[0]);
        }
    }
    assert(is_digit_run(t, n.len() as int));
    lemma_digit_run(t, n.len() as int);
    assert(t.skip(n.len() as int) =~= tail);
    // What follows the digits.
    if comment.len() > 0 {
        assert forall|k: int| 0 <= k < w2.len() implies is_whitespace(#[trigger] tail[k]) by {
            assert(tail[k] == w2[k]);
        }
        assert(tail[w2.len() as int] == comment[0]);
        assert(is_first_non_whitespace(tail, w2.len() as int));
        lemma_trim_start_found(tail, w2.len() as int);
        assert(tail.skip(w2.len() as int)[0] == ';');
    } else {
        assert(tail =~= w2);
        assert forall|k: int| 0 <= k < tail.len() implies is_whitespace(#[trigger] tail[k]) by {
            assert(tail[k] == w2[k]);
        }
        lemma_trim_start_none(tail);
    }
    // A value that opens with a letter or a sign.
    if other.len() > 0 && (('a' <= other[0] <= 'z') || ('A' <= other[0] <= 'Z') || other[0]
        == '+' || other[0] == '-') {
        assert(!is_whitespace(other[0]));
        assert(is_first_non_whitespace(other, 0));
        lemma_trim_start_found(other, 0);
        assert(other.skip(0) =~= other);
        assert(is_digit_run(other, 0)) by {
            assert(other.take(0) =~= Seq::<char>::empty());
        }
        lemma_digit_run(other, 0);
    }
}

} // verus!
