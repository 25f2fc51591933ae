use wraith::config::exe_relative;
use wraith::config::setting_value;
use wraith::config::Config;
use wraith::config::ConfigKey;
use wraith::config::DEFAULT_LOCK_MODS;
use wraith::config::DEFAULT_LOCK_ON_START;
use wraith::config::DEFAULT_LOCK_VK;
use wraith::config::DEFAULT_PANIC_VK;
use wraith::config::DEFAULT_UNLOCK_MODS;
use wraith::config::DEFAULT_UNLOCK_VK;
use wraith::updater::wide;

#[test]
fn defaults_match_ini_docs() {
    assert_eq!(DEFAULT_LOCK_MODS, 7);
    assert_eq!(DEFAULT_LOCK_VK, 76);
    assert_eq!(DEFAULT_UNLOCK_MODS, 7);
    assert_eq!(DEFAULT_UNLOCK_VK, 85);
    assert_eq!(DEFAULT_PANIC_VK, 27);
    assert_eq!(DEFAULT_LOCK_ON_START, 0);
}

#[test]
fn keys_carry_their_names_and_defaults() {
    assert_eq!(ConfigKey::LockModifiers.name(), "LockModifiers");
    assert_eq!(ConfigKey::LockKey.name(), "LockKey");
    assert_eq!(ConfigKey::UnlockModifiers.name(), "UnlockModifiers");
    assert_eq!(ConfigKey::UnlockKey.name(), "UnlockKey");
    assert_eq!(ConfigKey::PanicKey.name(), "PanicKey");
    assert_eq!(ConfigKey::LockOnStart.name(), "LockOnStart");
    assert_eq!(ConfigKey::LockModifiers.default_value(), 7);
    assert_eq!(ConfigKey::LockKey.default_value(), 76);
    assert_eq!(ConfigKey::UnlockModifiers.default_value(), 7);
    assert_eq!(ConfigKey::UnlockKey.default_value(), 85);
    assert_eq!(ConfigKey::PanicKey.default_value(), 27);
    assert_eq!(ConfigKey::LockOnStart.default_value(), 0);
}

#[test]
fn missing_file_gives_the_defaults() {
    // GetPrivateProfileStringW hands back the (empty) default text when the key is missing.
    let c = Config::load(|_key: ConfigKey| String::new());
    assert_eq!(c, Config::defaults());
    assert_eq!(c.lock_mods, 7);
    assert_eq!(c.lock_vk, 76);
    assert_eq!(c.unlock_mods, 7);
    assert_eq!(c.unlock_vk, 85);
    assert_eq!(c.panic_vk, 27);
    assert!(!c.lock_on_start);
}

#[test]
fn custom_values_are_used() {
    let c = Config::load(|key: ConfigKey| match key {
        ConfigKey::LockKey => "65".to_string(),
        ConfigKey::LockOnStart => "1".to_string(),
        ConfigKey::PanicKey => "123        ; F12".to_string(),
        _ => String::new(),
    });
    assert_eq!(c.lock_vk, 65);
    assert_eq!(c.panic_vk, 123);
    assert!(c.lock_on_start);
    assert_eq!(c.unlock_vk, 85);
    assert_eq!(c.lock_mods, 7);
}

#[test]
fn invalid_values_fall_back_per_field() {
    let c = Config::load(|key: ConfigKey| match key {
        ConfigKey::LockKey => "abc".to_string(),
        ConfigKey::UnlockKey => "99999999999".to_string(),
        ConfigKey::LockModifiers => "-3".to_string(),
        ConfigKey::PanicKey => "7x".to_string(),
        ConfigKey::UnlockModifiers => "3".to_string(),
        ConfigKey::LockOnStart => "yes".to_string(),
    });
    assert_eq!(c.lock_vk, 76);
    assert_eq!(c.unlock_vk, 85);
    assert_eq!(c.lock_mods, 7);
    assert_eq!(c.panic_vk, 27);
    assert_eq!(c.unlock_mods, 3);
    assert!(!c.lock_on_start);
}

#[test]
fn setting_values_are_read_as_documented() {
    assert_eq!(setting_value("76", 1), 76);
    assert_eq!(setting_value("  76  ", 1), 76);
    assert_eq!(setting_value("76        ; Virtual key code for 'L'", 1), 76);
    assert_eq!(setting_value("0", 1), 0);
    assert_eq!(setting_value("4294967295", 1), 4294967295);
    assert_eq!(setting_value("4294967296", 1), 1);
    assert_eq!(setting_value("", 1), 1);
    assert_eq!(setting_value("   ", 1), 1);
    assert_eq!(setting_value("; only a comment", 1), 1);
    assert_eq!(setting_value("+5", 1), 1);
    assert_eq!(setting_value("5 6", 1), 1);
    assert_eq!(setting_value("\u{0661}", 1), 1);
}

#[test]
fn get_loads_once() {
    let mut slot: Option<Config> = None;
    let first = Config::get(&mut slot, |_k: ConfigKey| String::new());
    assert_eq!(slot, Some(first));
    let second = Config::get(&mut slot, |_k: ConfigKey| "99".to_string());
    assert_eq!(second, first);
    assert_eq!(second.lock_vk, 76);
}

#[test]
fn ini_path_sits_beside_the_program() {
    let exe = wide("C:\\Program Files\\Wraith\\wraith.exe");
    let exe = &exe[..exe.len() - 1];
    assert_eq!(exe_relative(exe, "wraith.ini"), wide("C:\\Program Files\\Wraith\\wraith.ini"));
    let exe = wide("D:/tools/wraith.exe");
    assert_eq!(exe_relative(&exe[..exe.len() - 1], "wraith.ini"), wide("D:/tools/wraith.ini"));
    let exe = wide("wraith.exe");
    assert_eq!(exe_relative(&exe[..exe.len() - 1], "wraith.ini"), wide("wraith.ini"));
    assert_eq!(exe_relative(&[], "wraith.ini"), wide("wraith.ini"));
}
