//! The profile of the user.

use hope_core::time::{CivilDate, SecondsFormat, Timestamp};
use hope_core::user_config::{
    build_user_context, effective_timezone, language_display_name, now_local_rfc3339,
    now_local_rfc3339_opts, user_context, user_local_today, UserConfig, SERVER_MODE_EMBEDDED,
    SERVER_MODE_REMOTE,
};

/// 2026-06-27T23:30:00.123Z.
const NOW: Timestamp = Timestamp { secs: 1_782_603_000, nanos: 123_000_000 };

fn some(s: &str) -> Option<String> {
    Some(s.to_string())
}

fn date(year: i32, month: u32, day: u32, ordinal: u32) -> CivilDate {
    CivilDate { year, month, day, ordinal }
}

#[test]
fn defaults_are_as_documented() {
    let config = UserConfig::default();
    assert!(!config.auto_send_pending);
    assert!(config.auto_expand_thinking);
    assert!(config.weather_enabled);
    assert!(config.server_mode.is_none());
    assert_eq!(SERVER_MODE_EMBEDDED, "embedded");
    assert_eq!(SERVER_MODE_REMOTE, "remote");
}

#[test]
fn profiles_are_cloned_whole() {
    let config = UserConfig {
        name: some("Ada"),
        weather_latitude: Some(7),
        weather_enabled: false,
        ..UserConfig::default()
    };
    let copy = config.clone();
    assert_eq!(copy.name.as_deref(), Some("Ada"));
    assert_eq!(copy.weather_latitude, Some(7));
    assert!(!copy.weather_enabled);
    assert!(copy.role.is_none());
}

#[test]
fn nothing_is_told_of_an_empty_profile() {
    assert!(build_user_context(&UserConfig::default(), NOW, "UTC").is_none());
    let blank = UserConfig {
        name: some(""),
        birthday: some(""),
        language: some("  "),
        custom_info: some(""),
        avatar: some("avatar.png"),
        ..UserConfig::default()
    };
    assert!(build_user_context(&blank, NOW, "UTC").is_none());
}

#[test]
fn profile_is_told_line_by_line() {
    let config = UserConfig {
        name: some("Ada"),
        gender: some("female"),
        birthday: some("1990-06-28"),
        role: some("developer"),
        timezone: some("Asia/Shanghai"),
        language: some(" zh-CN "),
        ai_experience: some("expert"),
        response_style: some("concise"),
        custom_info: some("likes tea"),
        ..UserConfig::default()
    };
    // In Shanghai it is the 28th already.
    assert_eq!(
        build_user_context(&config, NOW, "UTC").unwrap(),
        "# User\n\n\
         - Name: Ada\n\
         - Gender: female\n\
         - Birthday: 1990-06-28\n\
         - Age: 36\n\
         - 🎂 Today is the user's birthday! Feel free to wish them a happy birthday warmly.\n\
         - Role: developer\n\
         - AI experience level: expert\n\
         - Preferred language: 简体中文 (zh-CN) — reply in this language unless the user explicitly switches\n\
         - Timezone: Asia/Shanghai\n\
         - Response style: concise\n\
         - Additional info: likes tea"
    );
}

#[test]
fn birthday_that_is_no_date_is_told_as_it_is() {
    let config = UserConfig { birthday: some("in spring"), ..UserConfig::default() };
    assert_eq!(
        build_user_context(&config, NOW, "UTC").unwrap(),
        "# User\n\n- Birthday: in spring"
    );
}

#[test]
fn age_counts_the_birthdays() {
    let config = UserConfig { birthday: some("b"), ..UserConfig::default() };
    let told = |born: CivilDate, today: CivilDate| user_context(&config, Some(born), today).unwrap();
    let born = date(2001, 3, 1, 60);
    assert_eq!(told(born, date(2022, 2, 28, 59)), "# User\n\n- Birthday: b\n- Age: 20");
    assert_eq!(told(born, date(2022, 3, 2, 61)), "# User\n\n- Birthday: b\n- Age: 21");
    // The day before the birthday in a leap year.
    assert_eq!(told(born, date(2024, 2, 29, 60)), "# User\n\n- Birthday: b\n- Age: 22");
    // No age before birth.
    assert_eq!(told(born, date(2000, 1, 1, 1)), "# User\n\n- Birthday: b");
    // The birthday of one born in a leap year, in another year.
    assert_eq!(
        told(date(2000, 3, 1, 61), date(2001, 3, 1, 60)),
        "# User\n\n- Birthday: b\n- Age: 1\n- 🎂 Today is the user's birthday! Feel free to wish them a happy birthday warmly."
    );
    // One born on a leap day is a year older from the first of March on.
    let leap_day = date(2000, 2, 29, 60);
    assert_eq!(told(leap_day, date(2001, 2, 28, 59)), "# User\n\n- Birthday: b\n- Age: 0");
    assert_eq!(told(leap_day, date(2001, 3, 1, 60)), "# User\n\n- Birthday: b\n- Age: 1");
}

#[test]
fn birthday_is_told_with_the_age_that_it_brings() {
    let config = UserConfig { birthday: some("2000-03-01"), ..UserConfig::default() };
    // 2026-03-01T12:00:00Z.
    let now = Timestamp { secs: 1_772_366_400, nanos: 0 };
    assert_eq!(
        build_user_context(&config, now, "UTC").unwrap(),
        "# User\n\n- Birthday: 2000-03-01\n- Age: 26\n- 🎂 Today is the user's birthday! Feel free to wish them a happy birthday warmly."
    );
}

#[test]
fn languages_have_their_own_names() {
    for (code, name) in [
        ("zh-CN", "简体中文"),
        ("zh-TW", "繁體中文"),
        ("en", "English"),
        ("ja", "日本語"),
        ("ko", "한국어"),
        ("es", "Español"),
        ("pt", "Português"),
        ("ru", "Русский"),
        ("ar", "العربية"),
        ("tr", "Türkçe"),
        ("vi", "Tiếng Việt"),
        ("ms", "Bahasa Melayu"),
        ("eo", "eo"),
    ] {
        assert_eq!(language_display_name(code), name);
    }
}

#[test]
fn time_zone_goes_by_priority() {
    let zone = |chosen: &Option<String>, host: &Option<String>, server: &Option<String>| {
        effective_timezone(chosen, host, server)
    };
    assert_eq!(zone(&some("Asia/Tokyo"), &some("Europe/Paris"), &some("x")), "Asia/Tokyo");
    assert_eq!(zone(&some("  "), &some("Europe/Paris"), &some("x")), "Europe/Paris");
    assert_eq!(zone(&None, &some("UTC"), &some("Asia/Shanghai")), "Asia/Shanghai");
    assert_eq!(zone(&None, &some(" "), &some("Asia/Shanghai")), "Asia/Shanghai");
    assert_eq!(zone(&None, &None, &some("Asia/Shanghai")), "Asia/Shanghai");
    assert_eq!(zone(&None, &some("UTC"), &some(" ")), "UTC");
    assert_eq!(zone(&None, &None, &None), "UTC");
}

#[test]
fn now_is_told_in_the_zone() {
    assert_eq!(now_local_rfc3339(NOW, "Asia/Shanghai"), "2026-06-28T07:30:00.123+08:00");
    assert_eq!(now_local_rfc3339(NOW, "UTC"), "2026-06-27T23:30:00.123+00:00");
    assert_eq!(now_local_rfc3339(NOW, "No/Where"), "2026-06-27T23:30:00.123Z");
}

#[test]
fn precision_is_as_asked_for() {
    for (precision, zoned, utc) in [
        (SecondsFormat::Secs, "2026-06-28T07:30:00+08:00", "2026-06-27T23:30:00Z"),
        (SecondsFormat::Millis, "2026-06-28T07:30:00.123+08:00", "2026-06-27T23:30:00.123Z"),
        (
            SecondsFormat::Micros,
            "2026-06-28T07:30:00.123000+08:00",
            "2026-06-27T23:30:00.123000Z",
        ),
        (
            SecondsFormat::Nanos,
            "2026-06-28T07:30:00.123000000+08:00",
            "2026-06-27T23:30:00.123000000Z",
        ),
        (SecondsFormat::AutoSi, "2026-06-28T07:30:00.123+08:00", "2026-06-27T23:30:00.123Z"),
    ] {
        assert_eq!(now_local_rfc3339_opts(NOW, "Asia/Shanghai", precision), zoned);
        assert_eq!(now_local_rfc3339_opts(NOW, "", precision), utc);
    }
}

#[test]
fn today_is_told_in_the_zone() {
    let shanghai = date(2026, 6, 28, 179);
    let utc = date(2026, 6, 27, 178);
    assert_eq!(user_local_today(NOW, &some("Asia/Shanghai"), "UTC"), shanghai);
    assert_eq!(user_local_today(NOW, &some("  "), "Asia/Shanghai"), shanghai);
    assert_eq!(user_local_today(NOW, &None, "Asia/Shanghai"), shanghai);
    assert_eq!(user_local_today(NOW, &None, "UTC"), utc);
    assert_eq!(user_local_today(NOW, &some("No/Where"), "Asia/Shanghai"), utc);
}

#[test]
fn dates_reach_far() {
    let epoch = Timestamp { secs: 0, nanos: 0 };
    assert_eq!(user_local_today(epoch, &some("?"), "?"), date(1970, 1, 1, 1));
    let before = Timestamp { secs: -1, nanos: 0 };
    assert_eq!(user_local_today(before, &some("?"), "?"), date(1969, 12, 31, 365));
    let first = Timestamp { secs: -8_334_601_142_400, nanos: 0 };
    assert_eq!(user_local_today(first, &some("?"), "?"), date(-262_143, 1, 2, 2));
    let last = Timestamp { secs: 8_210_266_790_399, nanos: 1_999_999_999 };
    assert_eq!(user_local_today(last, &some("?"), "?"), date(262_142, 12, 30, 364));
    assert_eq!(
        now_local_rfc3339_opts(last, "Pacific/Kiritimati", SecondsFormat::Secs),
        "+262142-12-31T13:59:60+14:00"
    );
    assert_eq!(
        now_local_rfc3339_opts(first, "Pacific/Pago_Pago", SecondsFormat::Secs),
        "-262143-01-02T12:37:12+12:37"
    );
}
