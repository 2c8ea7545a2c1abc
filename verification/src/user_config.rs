//! The profile of the user: what the assistant is told of them, and which time zone is theirs.

use vstd::prelude::*;

use crate::text::{
    all_white, blank_texts_trim_to_nothing, chars_of, decimal, decimal_text, is_white, join, joined,
    joining_separates_the_parts, same_text, texts, trim, trimmed, trimming_takes_off_white_space,
};
use crate::time::{
    can_be_told, date_in_utc, date_in_zone, date_of_a_day_has_its_number, date_of_day, date_told, day_number_tells_the_date,
    has_four_digit_year, is_exact, is_zone, parse_date, rfc3339_instant, text_in_utc,
    text_in_zone, utc_text, zone_exists, zone_offset, zoned_text, CivilDate, SecondsFormat,
    Timestamp,
};

verus! {

// ── Server mode ──────────────────────────────────────────────────

/// The server mode of an install that runs its own server, or none at all. It is the default.
pub const SERVER_MODE_EMBEDDED: &'static str = "embedded";

/// The server mode of an install that goes through a server elsewhere.
pub const SERVER_MODE_REMOTE: &'static str = "remote";

// ── Profile ──────────────────────────────────────────────────────

/// The format of a birthday.
pub const BIRTHDAY_FORMAT: &'static str = "%Y-%m-%d";

/// The configuration of the user, shared by all agents.
#[derive(Debug)]
pub struct UserConfig {
    /// Name to be called by.
    pub name: Option<String>,
    /// Avatar: the path of a file, or a URL.
    pub avatar: Option<String>,
    /// Gender: `male`, `female` or a text of the user's own.
    pub gender: Option<String>,
    /// Birthday, in the form `YYYY-MM-DD`.
    pub birthday: Option<String>,
    /// Description of the user's role.
    pub role: Option<String>,
    /// IANA time zone, such as `Asia/Shanghai`.
    pub timezone: Option<String>,
    /// Preferred language, such as `zh-CN` or `en`.
    pub language: Option<String>,
    /// Experience with AI: `expert`, `intermediate` or `beginner`.
    pub ai_experience: Option<String>,
    /// Response style: `concise`, `detailed` or a text of the user's own.
    pub response_style: Option<String>,
    /// Whatever else the user wants known.
    pub custom_info: Option<String>,
    /// Whether pending messages are sent once a reply is finished. Not by default.
    pub auto_send_pending: bool,
    /// Whether thinking blocks are expanded. They are by default.
    pub auto_expand_thinking: bool,
    /// How the chat is drawn: `bubble` or `timeline`.
    pub chat_display_mode: Option<String>,
    /// Server mode. `None` stands for [`SERVER_MODE_EMBEDDED`].
    pub server_mode: Option<String>,
    /// URL of the remote server.
    pub remote_server_url: Option<String>,
    /// API key for the remote server.
    pub remote_api_key: Option<String>,
    /// Whether the assistant is told of the weather. It is by default.
    pub weather_enabled: bool,
    /// City for the weather.
    pub weather_city: Option<String>,
    /// Latitude for the weather, as the bits of a double.
    pub weather_latitude: Option<u64>,
    /// Longitude for the weather, as the bits of a double.
    pub weather_longitude: Option<u64>,
}

fn copy_setting(setting: &Option<String>) -> (r: Option<String>)
    ensures
        r == *setting,
{
    match setting {
        Some(s) => Some(s.clone()),
        None => None,
    }
}

impl Clone for UserConfig {
    fn clone(&self) -> (r: Self)
        ensures
            r == *self,
    {
        UserConfig {
            name: copy_setting(&self.name),
            avatar: copy_setting(&self.avatar),
            gender: copy_setting(&self.gender),
            birthday: copy_setting(&self.birthday),
            role: copy_setting(&self.role),
            timezone: copy_setting(&self.timezone),
            language: copy_setting(&self.language),
            ai_experience: copy_setting(&self.ai_experience),
            response_style: copy_setting(&self.response_style),
            custom_info: copy_setting(&self.custom_info),
            auto_send_pending: self.auto_send_pending,
            auto_expand_thinking: self.auto_expand_thinking,
            chat_display_mode: copy_setting(&self.chat_display_mode),
            server_mode: copy_setting(&self.server_mode),
            remote_server_url: copy_setting(&self.remote_server_url),
            remote_api_key: copy_setting(&self.remote_api_key),
            weather_enabled: self.weather_enabled,
            weather_city: copy_setting(&self.weather_city),
            weather_latitude: self.weather_latitude,
            weather_longitude: self.weather_longitude,
        }
    }
}

impl Default for UserConfig {
    fn default() -> (r: Self)
        ensures
            r == (UserConfig {
                name: None,
                avatar: None,
                gender: None,
                birthday: None,
                role: None,
                timezone: None,
                language: None,
                ai_experience: None,
                response_style: None,
                custom_info: None,
                auto_send_pending: false,
                auto_expand_thinking: true,
                chat_display_mode: None,
                server_mode: None,
                remote_server_url: None,
                remote_api_key: None,
                weather_enabled: true,
                weather_city: None,
                weather_latitude: None,
                weather_longitude: None,
            }),
    {
        UserConfig {
            name: None,
            avatar: None,
            gender: None,
            birthday: None,
            role: None,
            timezone: None,
            language: None,
            ai_experience: None,
            response_style: None,
            custom_info: None,
            auto_send_pending: false,
            auto_expand_thinking: true,
            chat_display_mode: None,
            server_mode: None,
            remote_server_url: None,
            remote_api_key: None,
            weather_enabled: true,
            weather_city: None,
            weather_latitude: None,
            weather_longitude: None,
        }
    }
}

// ── Time zone ────────────────────────────────────────────────────

/// Whether a setting is there and is more than white space.
pub open spec fn is_set(setting: Option<String>) -> bool {
    setting matches Some(s) && trimmed(s@).len() > 0
}

/// The time zone of the user: what they chose, else that of the host unless it is UTC, else the
/// default of the server, else UTC.
pub open spec fn effective_zone(
    chosen: Option<String>,
    host: Option<String>,
    server_default: Option<String>,
) -> Seq<char> {
    if is_set(chosen) {
        chosen->Some_0@
    } else if is_set(host) && host->Some_0@ != "UTC"@ {
        host->Some_0@
    } else if is_set(server_default) {
        server_default->Some_0@
    } else {
        "UTC"@
    }
}

fn setting_is_set(setting: &Option<String>) -> (r: bool)
    ensures
        r == is_set(*setting),
{
    match setting {
        Some(s) => chars_of(trim(s.as_str()).as_str()).len() > 0,
        None => false,
    }
}

/// The IANA name of the user's time zone: what they chose in their profile, else the zone of the
/// host unless it is UTC, as in a container, else the default of the server's operator, else UTC.
pub fn effective_timezone(
    chosen: &Option<String>,
    host: &Option<String>,
    server_default: &Option<String>,
) -> (r: String)
    ensures
        r@ == effective_zone(*chosen, *host, *server_default),
{
    if let Some(tz) = chosen {
        if setting_is_set(chosen) {
            return tz.clone();
        }
    }
    if let Some(tz) = host {
        if setting_is_set(host) && !same_text(tz.as_str(), "UTC") {
            return tz.clone();
        }
    }
    if let Some(tz) = server_default {
        if setting_is_set(server_default) {
            return tz.clone();
        }
    }
    "UTC".to_owned()
}

/// The RFC 3339 text of an instant in a time zone, or in UTC where there is no such zone.
pub open spec fn local_text(t: Timestamp, zone: Seq<char>, precision: SecondsFormat) -> Seq<char> {
    if zone_exists(zone) {
        zoned_text(t, zone, precision, false)
    } else {
        utc_text(t, precision, true)
    }
}

/// Whether RFC 3339 can tell an instant in a time zone, or in UTC where there is no such zone.
pub open spec fn can_be_told_locally(t: Timestamp, zone: Seq<char>) -> bool {
    if zone_exists(zone) {
        can_be_told(t, zone)
    } else {
        has_four_digit_year(t.secs as int)
    }
}

/// The instant `now` in the user's time zone, in RFC 3339. The text gives the instant back where
/// RFC 3339 can tell it there.
pub fn now_local_rfc3339(now: Timestamp, tz_name: &str) -> (r: String)
    requires
        now.valid(),
    ensures
        r@ == local_text(now, tz_name@, SecondsFormat::AutoSi),
        can_be_told_locally(now, tz_name@) ==> rfc3339_instant(r@) == Some(now),
{
    now_local_rfc3339_opts(now, tz_name, SecondsFormat::AutoSi)
}

/// The instant `now` in the user's time zone, in RFC 3339, with the part of the second written as
/// asked for. The text gives the instant back where RFC 3339 can tell it there and the precision
/// is exact.
pub fn now_local_rfc3339_opts(now: Timestamp, tz_name: &str, precision: SecondsFormat) -> (r:
    String)
    requires
        now.valid(),
    ensures
        r@ == local_text(now, tz_name@, precision),
        can_be_told_locally(now, tz_name@) && is_exact(precision) ==> rfc3339_instant(r@) == Some(
            now,
        ),
{
    if is_zone(tz_name) {
        text_in_zone(now, tz_name, precision, false)
    } else {
        text_in_utc(now, precision, true)
    }
}

/// The date at an instant in a time zone, or in UTC where there is no such zone.
pub open spec fn local_date(t: Timestamp, zone: Seq<char>) -> CivilDate {
    if zone_exists(zone) {
        date_of_day((t.secs + zone_offset(t.secs, zone)) / 86_400)
    } else {
        date_of_day(t.secs as int / 86_400)
    }
}

/// The time zone in which the user's date is told: `tz_override` where it is set, else `effective`.
pub open spec fn date_zone(tz_override: Option<String>, effective: Seq<char>) -> Seq<char> {
    if is_set(tz_override) {
        tz_override->Some_0@
    } else {
        effective
    }
}

/// The date at the instant `now` in the time zone `tz_override`, where it is set, else in the zone
/// `effective`. It is told in UTC where there is no such zone.
pub fn user_local_today(now: Timestamp, tz_override: &Option<String>, effective: &str) -> (r:
    CivilDate)
    requires
        now.valid(),
    ensures
        r.valid(),
        r == local_date(now, date_zone(*tz_override, effective@)),
{
    let zone = match tz_override {
        Some(tz) => if setting_is_set(tz_override) {
            tz.as_str()
        } else {
            effective
        },
        None => effective,
    };
    let today = if is_zone(zone) {
        date_in_zone(now, zone)
    } else {
        date_in_utc(now)
    };
    proof {
        day_number_tells_the_date(today, date_of_day(today.day_number()));
    }
    today
}

// ── What the assistant is told ───────────────────────────────────

/// The text of a setting that may be missing.
pub open spec fn setting_text(setting: Option<String>) -> Option<Seq<char>> {
    match setting {
        Some(s) => Some(s@),
        None => None,
    }
}

/// The line for a setting, where it is there and not empty.
pub open spec fn labelled(label: Seq<char>, setting: Option<Seq<char>>) -> Seq<Seq<char>> {
    match setting {
        Some(s) => if s.len() > 0 {
            seq!["- "@ + label + ": "@ + s]
        } else {
            Seq::empty()
        },
        None => Seq::empty(),
    }
}

/// Whether a day of the year, as its month and day, comes before another.
pub open spec fn earlier_in_the_year(a: CivilDate, b: CivilDate) -> bool {
    a.month < b.month || (a.month == b.month && a.day < b.day)
}

/// The age that is told: the years between the two dates, less one where the birthday is still to
/// come in the year of the second.
pub open spec fn age_told(born: CivilDate, today: CivilDate) -> int {
    today.year - born.year - (if earlier_in_the_year(today, born) {
        1int
    } else {
        0
    })
}

/// The lines on a birthday that was read as `born`: the birthday itself, the age where it is not
/// negative, and that it is today.
pub open spec fn birthday_told(
    birthday: Seq<char>,
    born: Option<CivilDate>,
    today: CivilDate,
) -> Seq<Seq<char>> {
    let line = seq!["- Birthday: "@ + birthday];
    match born {
        Some(d) => {
            let age = age_told(d, today);
            let age_line = if age >= 0 {
                seq!["- Age: "@ + decimal_text(age as nat)]
            } else {
                Seq::empty()
            };
            let greeting = if today.month == d.month && today.day == d.day {
                seq![
                    "- 🎂 Today is the user's birthday! Feel free to wish them a happy birthday warmly."@,
                ]
            } else {
                Seq::empty()
            };
            line + age_line + greeting
        },
        None => line,
    }
}

/// The name of a language in that language, by its code. Other codes stand for themselves.
pub open spec fn native_name(code: Seq<char>) -> Seq<char> {
    if code == "zh-CN"@ {
        "简体中文"@
    } else if code == "zh-TW"@ {
        "繁體中文"@
    } else if code == "en"@ {
        "English"@
    } else if code == "ja"@ {
        "日本語"@
    } else if code == "ko"@ {
        "한국어"@
    } else if code == "es"@ {
        "Español"@
    } else if code == "pt"@ {
        "Português"@
    } else if code == "ru"@ {
        "Русский"@
    } else if code == "ar"@ {
        "العربية"@
    } else if code == "tr"@ {
        "Türkçe"@
    } else if code == "vi"@ {
        "Tiếng Việt"@
    } else if code == "ms"@ {
        "Bahasa Melayu"@
    } else {
        code
    }
}

/// The line on the language, where one is set.
pub open spec fn language_told(language: Option<Seq<char>>) -> Seq<Seq<char>> {
    match language {
        Some(s) => {
            let code = trimmed(s);
            if code.len() > 0 {
                seq![
                    "- Preferred language: "@ + native_name(code) + " ("@ + code
                        + ") — reply in this language unless the user explicitly switches"@,
                ]
            } else {
                Seq::empty()
            }
        },
        None => Seq::empty(),
    }
}

/// All lines on the user, where the birthday was read as `born`.
pub open spec fn lines_told(
    config: UserConfig,
    born: Option<CivilDate>,
    today: CivilDate,
) -> Seq<Seq<char>> {
    let birthday = match config.birthday {
        Some(b) => if b@.len() > 0 {
            birthday_told(b@, born, today)
        } else {
            Seq::empty()
        },
        None => Seq::empty(),
    };
    labelled("Name"@, setting_text(config.name)) + labelled("Gender"@, setting_text(config.gender))
        + birthday + labelled("Role"@, setting_text(config.role)) + labelled(
        "AI experience level"@,
        setting_text(config.ai_experience),
    ) + language_told(setting_text(config.language)) + labelled(
        "Timezone"@,
        setting_text(config.timezone),
    ) + labelled("Response style"@, setting_text(config.response_style)) + labelled(
        "Additional info"@,
        setting_text(config.custom_info),
    )
}

/// The section on the user: its lines under a heading, where there are any.
pub open spec fn section_told(lines: Seq<Seq<char>>) -> Option<Seq<char>> {
    if lines.len() == 0 {
        None
    } else {
        Some("# User\n\n"@ + joined(lines, "\n"@))
    }
}

/// The date that the birthday of a profile tells, where there is one.
pub open spec fn birth_date(config: UserConfig) -> Option<CivilDate> {
    match config.birthday {
        Some(b) => date_told(b@, BIRTHDAY_FORMAT@),
        None => None,
    }
}

fn push_line(lines: &mut Vec<String>, line: String)
    ensures
        texts(final(lines)@) == texts(old(lines)@).push(line@),
{
    let ghost before = texts(lines@);
    lines.push(line);
    assert(texts(lines@) =~= before.push(line@));
}

/// Adds the line for a setting, where it is there and not empty.
fn push_if(lines: &mut Vec<String>, label: &str, val: &Option<String>)
    ensures
        texts(final(lines)@) == texts(old(lines)@) + labelled(label@, setting_text(*val)),
{
    let ghost before = texts(lines@);
    if let Some(v) = val {
        if chars_of(v.as_str()).len() > 0 {
            let mut line = "- ".to_owned();
            line.append(label);
            line.append(": ");
            line.append(v.as_str());
            push_line(lines, line);
        }
    }
    assert(texts(lines@) =~= before + labelled(label@, setting_text(*val)));
}

/// The name of a language in that language, by its code.
pub fn language_display_name<'a>(code: &'a str) -> (r: &'a str)
    ensures
        r@ == native_name(code@),
{
    if same_text(code, "zh-CN") {
        "简体中文"
    } else if same_text(code, "zh-TW") {
        "繁體中文"
    } else if same_text(code, "en") {
        "English"
    } else if same_text(code, "ja") {
        "日本語"
    } else if same_text(code, "ko") {
        "한국어"
    } else if same_text(code, "es") {
        "Español"
    } else if same_text(code, "pt") {
        "Português"
    } else if same_text(code, "ru") {
        "Русский"
    } else if same_text(code, "ar") {
        "العربية"
    } else if same_text(code, "tr") {
        "Türkçe"
    } else if same_text(code, "vi") {
        "Tiếng Việt"
    } else if same_text(code, "ms") {
        "Bahasa Melayu"
    } else {
        code
    }
}

fn push_birthday(
    lines: &mut Vec<String>,
    birthday: &str,
    born: Option<CivilDate>,
    today: CivilDate,
)
    requires
        today.valid(),
        born matches Some(d) ==> d.valid(),
    ensures
        texts(final(lines)@) == texts(old(lines)@) + birthday_told(birthday@, born, today),
{
    let ghost before = texts(lines@);
    let mut line = "- Birthday: ".to_owned();
    line.append(birthday);
    push_line(lines, line);
    if let Some(d) = born {
        let mut age: i32 = today.year - d.year;
        if today.month < d.month || (today.month == d.month && today.day < d.day) {
            age -= 1;
        }
        if age >= 0 {
            let mut age_line = "- Age: ".to_owned();
            age_line.append(decimal(age as u64).as_str());
            push_line(lines, age_line);
        }
        if today.month == d.month && today.day == d.day {
            push_line(
                lines,
                "- 🎂 Today is the user's birthday! Feel free to wish them a happy birthday warmly.".to_owned(),
            );
        }
    }
    assert(texts(lines@) =~= before + birthday_told(birthday@, born, today));
}

fn push_language(lines: &mut Vec<String>, language: &Option<String>)
    ensures
        texts(final(lines)@) == texts(old(lines)@) + language_told(setting_text(*language)),
{
    let ghost before = texts(lines@);
    if let Some(s) = language {
        let code = trim(s.as_str());
        if chars_of(code.as_str()).len() > 0 {
            let mut line = "- Preferred language: ".to_owned();
            line.append(language_display_name(code.as_str()));
            line.append(" (");
            line.append(code.as_str());
            line.append(") — reply in this language unless the user explicitly switches");
            push_line(lines, line);
        }
    }
    assert(texts(lines@) =~= before + language_told(setting_text(*language)));
}

/// The section on the user for the system prompt, where the birthday was read as `born` and `today`
/// is their date. `None` where nothing worth telling is configured.
pub fn user_context(config: &UserConfig, born: Option<CivilDate>, today: CivilDate) -> (r: Option<
    String,
>)
    requires
        today.valid(),
        born matches Some(d) ==> d.valid(),
    ensures
        match r {
            Some(section) => section_told(lines_told(*config, born, today)) == Some(section@),
            None => section_told(lines_told(*config, born, today)) is None,
        },
{
    let mut lines: Vec<String> = Vec::new();
    push_if(&mut lines, "Name", &config.name);
    push_if(&mut lines, "Gender", &config.gender);
    if let Some(birthday) = &config.birthday {
        if chars_of(birthday.as_str()).len() > 0 {
            push_birthday(&mut lines, birthday.as_str(), born, today);
        }
    }
    push_if(&mut lines, "Role", &config.role);
    push_if(&mut lines, "AI experience level", &config.ai_experience);
    push_language(&mut lines, &config.language);
    push_if(&mut lines, "Timezone", &config.timezone);
    push_if(&mut lines, "Response style", &config.response_style);
    push_if(&mut lines, "Additional info", &config.custom_info);
    assert(texts(lines@) =~= lines_told(*config, born, today));
    if lines.len() == 0 {
        None
    } else {
        let mut section = "# User\n\n".to_owned();
        section.append(join(&lines, "\n").as_str());
        Some(section)
    }
}

/// The section on the user for the system prompt at the instant `now`, where `effective` is their
/// time zone unless the profile sets one. `None` where nothing worth telling is configured.
pub fn build_user_context(config: &UserConfig, now: Timestamp, effective: &str) -> (r: Option<
    String,
>)
    requires
        now.valid(),
    ensures
        setting_text(r) == section_told(
            lines_told(
                *config,
                birth_date(*config),
                local_date(now, date_zone(config.timezone, effective@)),
            ),
        ),
{
    let today = user_local_today(now, &config.timezone, effective);
    let born = match &config.birthday {
        Some(b) => parse_date(b.as_str(), BIRTHDAY_FORMAT),
        None => None,
    };
    user_context(config, born, today)
}

// ── Laws ─────────────────────────────────────────────────────────

/// The time zone that the user chose is theirs, whatever the host and the server say.
pub proof fn chosen_zone_wins(
    chosen: Option<String>,
    host: Option<String>,
    server_default: Option<String>,
)
    requires
        is_set(chosen),
    ensures
        effective_zone(chosen, host, server_default) == chosen->Some_0@,
{
}

/// There always is a time zone: it is never blank.
pub proof fn effective_zone_is_never_blank(
    chosen: Option<String>,
    host: Option<String>,
    server_default: Option<String>,
)
    ensures
        trimmed(effective_zone(chosen, host, server_default)).len() > 0,
{
    reveal_strlit("UTC");
    reveal_with_fuel(crate::text::trim_front, 2);
    reveal_with_fuel(crate::text::trim_back, 2);
}

/// On a host in UTC, as a container is, the default of the server applies where the user chose
/// nothing.
pub proof fn server_default_applies_on_a_host_in_utc(
    chosen: Option<String>,
    host: Option<String>,
    server_default: Option<String>,
)
    requires
        !is_set(chosen),
        host matches Some(h) ==> h@ == "UTC"@,
        is_set(server_default),
    ensures
        effective_zone(chosen, host, server_default) == server_default->Some_0@,
{
}

/// Whether a profile has anything that is told.
pub open spec fn has_something_to_tell(config: UserConfig) -> bool {
    ||| config.name matches Some(s) && s@.len() > 0
    ||| config.gender matches Some(s) && s@.len() > 0
    ||| config.birthday matches Some(s) && s@.len() > 0
    ||| config.role matches Some(s) && s@.len() > 0
    ||| config.ai_experience matches Some(s) && s@.len() > 0
    ||| is_set(config.language)
    ||| config.timezone matches Some(s) && s@.len() > 0
    ||| config.response_style matches Some(s) && s@.len() > 0
    ||| config.custom_info matches Some(s) && s@.len() > 0
}

/// There is a section on the user exactly where the profile has something to tell.
pub proof fn section_exists_where_there_is_something_to_tell(
    config: UserConfig,
    born: Option<CivilDate>,
    today: CivilDate,
)
    ensures
        section_told(lines_told(config, born, today)) is Some <==> has_something_to_tell(config),
{
}

/// Whether the birthday in the year `years` after that of birth has come by a date.
pub open spec fn birthday_has_come(born: CivilDate, years: int, today: CivilDate) -> bool {
    born.year + years < today.year || (born.year + years == today.year && !earlier_in_the_year(
        today,
        born,
    ))
}

/// The age counts the birthdays: the birthday after so many years has come, and the one after it
/// has not. On a birthday the age is the difference of the years.
pub proof fn age_counts_the_birthdays(born: CivilDate, today: CivilDate, years: int)
    ensures
        birthday_has_come(born, years, today) <==> years <= age_told(born, today),
        today.month == born.month && today.day == born.day ==> age_told(born, today) == today.year
            - born.year,
{
}

/// The birthday is told as today's in every year, whatever the age.
pub proof fn birthday_is_greeted_every_year(
    birthday: Seq<char>,
    born: CivilDate,
    today: CivilDate,
)
    requires
        today.month == born.month,
        today.day == born.day,
    ensures
        birthday_told(birthday, Some(born), today).last()
            == "- 🎂 Today is the user's birthday! Feel free to wish them a happy birthday warmly."@,
{
}

/// A setting that is there counts as set exactly where it has a character that is no white space.
pub proof fn settings_are_set_by_more_than_white_space(s: String)
    ensures
        is_set(Some(s)) <==> exists|i: int| 0 <= i < s@.len() && !is_white(#[trigger] s@[i]),
        !is_set(None),
{
    blank_texts_trim_to_nothing(s@);
}

/// Where the user chose no zone and that of the host is neither blank nor UTC, it is theirs,
/// whatever the server says.
pub proof fn host_zone_applies(
    chosen: Option<String>,
    host: String,
    server_default: Option<String>,
)
    requires
        chosen matches Some(c) ==> all_white(c@),
        !all_white(host@),
        host@ != "UTC"@,
    ensures
        effective_zone(chosen, Some(host), server_default) == host@,
{
    if let Some(c) = chosen {
        blank_texts_trim_to_nothing(c@);
    }
    blank_texts_trim_to_nothing(host@);
}

/// The zone that the user chose is theirs as they wrote it, unless it is blank.
pub proof fn chosen_zone_applies(
    chosen: String,
    host: Option<String>,
    server_default: Option<String>,
)
    requires
        !all_white(chosen@),
    ensures
        effective_zone(Some(chosen), host, server_default) == chosen@,
{
    blank_texts_trim_to_nothing(chosen@);
}

/// Where the user chose no zone and the host has none, a blank one or UTC, the default of the
/// server applies where it is not blank, else UTC.
pub proof fn server_default_applies_last(
    chosen: Option<String>,
    host: Option<String>,
    server_default: Option<String>,
)
    requires
        chosen matches Some(c) ==> all_white(c@),
        host matches Some(h) ==> all_white(h@) || h@ == "UTC"@,
    ensures
        server_default matches Some(d) && !all_white(d@) ==> effective_zone(
            chosen,
            host,
            server_default,
        ) == server_default->Some_0@,
        server_default is None || all_white(server_default->Some_0@) ==> effective_zone(
            chosen,
            host,
            server_default,
        ) == "UTC"@,
{
    if let Some(c) = chosen {
        blank_texts_trim_to_nothing(c@);
    }
    if let Some(h) = host {
        blank_texts_trim_to_nothing(h@);
    }
    if let Some(d) = server_default {
        blank_texts_trim_to_nothing(d@);
    }
}

/// An instant is told in a zone that exists with the offset in figures, otherwise in UTC with `Z`.
pub proof fn instants_are_told_in_the_zone(t: Timestamp, zone: Seq<char>, precision: SecondsFormat)
    ensures
        zone_exists(zone) ==> local_text(t, zone, precision) == zoned_text(
            t,
            zone,
            precision,
            false,
        ),
        !zone_exists(zone) ==> local_text(t, zone, precision) == utc_text(t, precision, true),
        zone_exists(zone) ==> (can_be_told_locally(t, zone) <==> can_be_told(t, zone)),
        !zone_exists(zone) ==> (can_be_told_locally(t, zone) <==> -62_167_219_200 <= t.secs
            <= 253_402_300_799),
{
}

/// The date of a user is the one whose day, counted from the epoch, has begun in the zone that is
/// set to override theirs, else in theirs; in UTC where there is no such zone.
pub proof fn dates_are_told_in_the_zone(
    t: Timestamp,
    tz_override: Option<String>,
    effective: Seq<char>,
    today: CivilDate,
)
    requires
        today.valid(),
        ({
            let zone = if tz_override is Some && !all_white(tz_override->Some_0@) {
                tz_override->Some_0@
            } else {
                effective
            };
            today.day_number() == (if zone_exists(zone) {
                (t.secs + zone_offset(t.secs, zone)) / 86_400
            } else {
                t.secs as int / 86_400
            })
        }),
    ensures
        local_date(t, date_zone(tz_override, effective)) == today,
{
    if let Some(tz) = tz_override {
        blank_texts_trim_to_nothing(tz@);
    }
    date_of_a_day_has_its_number(today);
}

/// The birthday of a profile is read as a year, a month and a day with dashes between them.
pub proof fn birthdays_are_read_with_dashes(config: UserConfig, birthday: String)
    requires
        config.birthday == Some(birthday),
    ensures
        birth_date(config) == date_told(birthday@, "%Y-%m-%d"@),
{
}

/// What is told of a birthday, line for line: the birthday itself, then the age in years unless it
/// is negative, then the greeting on the very day and on no other. The age is the difference of the
/// years, one less while the month and day of birth are still to come.
pub proof fn birthday_is_told_line_for_line(
    birthday: Seq<char>,
    born: CivilDate,
    today: CivilDate,
)
    ensures
        birthday_told(birthday, None, today) == seq!["- Birthday: "@ + birthday],
        ({
            let years = if today.month < born.month || (today.month == born.month && today.day
                < born.day) {
                today.year - born.year - 1
            } else {
                today.year - born.year
            };
            let on_the_day = today.month == born.month && today.day == born.day;
            let told = birthday_told(birthday, Some(born), today);
            let line = "- Birthday: "@ + birthday;
            let age = "- Age: "@ + decimal_text(years as nat);
            let greeting = "- 🎂 Today is the user's birthday! Feel free to wish them a happy birthday warmly."@;
            &&& years == age_told(born, today)
            &&& years < 0 && !on_the_day ==> told == seq![line]
            &&& years < 0 && on_the_day ==> told == seq![line, greeting]
            &&& years >= 0 && !on_the_day ==> told == seq![line, age]
            &&& years >= 0 && on_the_day ==> told == seq![line, age, greeting]
        }),
{
}

proof fn lemma_labels_do_not_greet(label: Seq<char>, setting: Option<Seq<char>>, line: Seq<char>)
    requires
        label.len() > 0,
        label[0] != '🎂',
        labelled(label, setting).contains(line),
    ensures
        line.len() > 2,
        line[2] != '🎂',
{
    reveal_strlit("- ");
    reveal_strlit(": ");
    assert(line == "- "@ + label + ": "@ + setting->Some_0);
    assert(line[2] == label[0]);
}

/// The greeting is told on the birthday alone: where the month or the day differs from that of
/// birth, or no birthday was read, none of the lines on the user is the greeting.
pub proof fn greeting_is_told_on_the_birthday_alone(
    config: UserConfig,
    born: Option<CivilDate>,
    today: CivilDate,
    line: Seq<char>,
)
    requires
        born matches Some(d) ==> today.month != d.month || today.day != d.day,
        lines_told(config, born, today).contains(line),
    ensures
        line
            != "- 🎂 Today is the user's birthday! Feel free to wish them a happy birthday warmly."@,
{
    reveal_strlit("- 🎂 Today is the user's birthday! Feel free to wish them a happy birthday warmly.");
    reveal_strlit("Name");
    reveal_strlit("Gender");
    reveal_strlit("Role");
    reveal_strlit("AI experience level");
    reveal_strlit("Timezone");
    reveal_strlit("Response style");
    reveal_strlit("Additional info");
    reveal_strlit("- Birthday: ");
    reveal_strlit("- Age: ");
    reveal_strlit("- Preferred language: ");
    assert("- 🎂 Today is the user's birthday! Feel free to wish them a happy birthday warmly."@[2] == '🎂');
    let name = labelled("Name"@, setting_text(config.name));
    let gender = labelled("Gender"@, setting_text(config.gender));
    let birthday = match config.birthday {
        Some(b) => if b@.len() > 0 {
            birthday_told(b@, born, today)
        } else {
            Seq::empty()
        },
        None => Seq::empty(),
    };
    let role = labelled("Role"@, setting_text(config.role));
    let experience = labelled("AI experience level"@, setting_text(config.ai_experience));
    let language = language_told(setting_text(config.language));
    let zone = labelled("Timezone"@, setting_text(config.timezone));
    let style = labelled("Response style"@, setting_text(config.response_style));
    let info = labelled("Additional info"@, setting_text(config.custom_info));
    let all = lines_told(config, born, today);
    assert(all == name + gender + birthday + role + experience + language + zone + style + info);
    lemma_parts_of_nine(name, gender, birthday, role, experience, language, zone, style, info, line);
    if name.contains(line) {
        lemma_labels_do_not_greet("Name"@, setting_text(config.name), line);
    } else if gender.contains(line) {
        lemma_labels_do_not_greet("Gender"@, setting_text(config.gender), line);
    } else if birthday.contains(line) {
        let i = choose|i: int| 0 <= i < birthday.len() && birthday[i] == line;
        if i == 0 {
            assert(line == "- Birthday: "@ + config.birthday->Some_0@);
            assert(line[2] == 'B');
        } else {
            assert(line == "- Age: "@ + decimal_text(age_told(born->Some_0, today) as nat));
            assert(line[2] == 'A');
        }
    } else if role.contains(line) {
        lemma_labels_do_not_greet("Role"@, setting_text(config.role), line);
    } else if experience.contains(line) {
        lemma_labels_do_not_greet("AI experience level"@, setting_text(config.ai_experience), line);
    } else if language.contains(line) {
        assert(line[2] == 'P');
    } else if zone.contains(line) {
        lemma_labels_do_not_greet("Timezone"@, setting_text(config.timezone), line);
    } else if style.contains(line) {
        lemma_labels_do_not_greet("Response style"@, setting_text(config.response_style), line);
    } else {
        lemma_labels_do_not_greet("Additional info"@, setting_text(config.custom_info), line);
    }
}

proof fn lemma_parts_of_two(a: Seq<Seq<char>>, b: Seq<Seq<char>>, line: Seq<char>)
    requires
        (a + b).contains(line),
    ensures
        a.contains(line) || b.contains(line),
{
    let i = choose|i: int| 0 <= i < (a + b).len() && (a + b)[i] == line;
    if i < a.len() {
        assert(a[i] == line);
    } else {
        assert(b[i - a.len()] == line);
    }
}

proof fn lemma_parts_of_nine(
    a: Seq<Seq<char>>,
    b: Seq<Seq<char>>,
    c: Seq<Seq<char>>,
    d: Seq<Seq<char>>,
    e: Seq<Seq<char>>,
    f: Seq<Seq<char>>,
    g: Seq<Seq<char>>,
    h: Seq<Seq<char>>,
    i: Seq<Seq<char>>,
    line: Seq<char>,
)
    requires
        (a + b + c + d + e + f + g + h + i).contains(line),
    ensures
        a.contains(line) || b.contains(line) || c.contains(line) || d.contains(line) || e.contains(
            line,
        ) || f.contains(line) || g.contains(line) || h.contains(line) || i.contains(line),
{
    lemma_parts_of_two(a + b + c + d + e + f + g + h, i, line);
    if (a + b + c + d + e + f + g + h).contains(line) {
        lemma_parts_of_two(a + b + c + d + e + f + g, h, line);
    }
    if (a + b + c + d + e + f + g).contains(line) {
        lemma_parts_of_two(a + b + c + d + e + f, g, line);
    }
    if (a + b + c + d + e + f).contains(line) {
        lemma_parts_of_two(a + b + c + d + e, f, line);
    }
    if (a + b + c + d + e).contains(line) {
        lemma_parts_of_two(a + b + c + d, e, line);
    }
    if (a + b + c + d).contains(line) {
        lemma_parts_of_two(a + b + c, d, line);
    }
    if (a + b + c).contains(line) {
        lemma_parts_of_two(a + b, c, line);
    }
    if (a + b).contains(line) {
        lemma_parts_of_two(a, b, line);
    }
}

proof fn lemma_first_of_nine(
    a: Seq<Seq<char>>,
    b: Seq<Seq<char>>,
    c: Seq<Seq<char>>,
    d: Seq<Seq<char>>,
    e: Seq<Seq<char>>,
    f: Seq<Seq<char>>,
    g: Seq<Seq<char>>,
    h: Seq<Seq<char>>,
    i: Seq<Seq<char>>,
)
    ensures
        a + b + c + d + e + f + g + h + i == a + (Seq::empty() + b + c + d + e + f + g + h + i),
{
    let none = Seq::<Seq<char>>::empty();
    assert(a + b =~= a + (none + b));
    assert(a + b + c =~= a + (none + b + c));
    assert(a + b + c + d =~= a + (none + b + c + d));
    assert(a + b + c + d + e =~= a + (none + b + c + d + e));
    assert(a + b + c + d + e + f =~= a + (none + b + c + d + e + f));
    assert(a + b + c + d + e + f + g =~= a + (none + b + c + d + e + f + g));
    assert(a + b + c + d + e + f + g + h =~= a + (none + b + c + d + e + f + g + h));
    assert(a + b + c + d + e + f + g + h + i =~= a + (none + b + c + d + e + f + g + h + i));
}

/// The name is told in the first line. What comes after it is the same as without it.
pub proof fn name_is_told_first(
    config: UserConfig,
    born: Option<CivilDate>,
    today: CivilDate,
    s: String,
)
    requires
        config.name == Some(s),
        s@.len() > 0,
    ensures
        lines_told(config, born, today) == seq!["- Name: "@ + s@] + lines_told(
            UserConfig { name: None, ..config },
            born,
            today,
        ),
{
    reveal_strlit("- ");
    reveal_strlit("Name");
    reveal_strlit(": ");
    reveal_strlit("- Name: ");
    assert("- "@ + "Name"@ + ": "@ + s@ =~= "- Name: "@ + s@);
    let birthday = match config.birthday {
        Some(b) => if b@.len() > 0 {
            birthday_told(b@, born, today)
        } else {
            Seq::empty()
        },
        None => Seq::empty(),
    };
    lemma_first_of_nine(
        labelled("Name"@, setting_text(config.name)),
        labelled("Gender"@, setting_text(config.gender)),
        birthday,
        labelled("Role"@, setting_text(config.role)),
        labelled("AI experience level"@, setting_text(config.ai_experience)),
        language_told(setting_text(config.language)),
        labelled("Timezone"@, setting_text(config.timezone)),
        labelled("Response style"@, setting_text(config.response_style)),
        labelled("Additional info"@, setting_text(config.custom_info)),
    );
}

/// The gender is told next. What comes after it is the same as without it.
pub proof fn gender_is_told_after_the_name(
    config: UserConfig,
    born: Option<CivilDate>,
    today: CivilDate,
    s: String,
)
    requires
        config.name is None,
        config.gender == Some(s),
        s@.len() > 0,
    ensures
        lines_told(config, born, today) == seq!["- Gender: "@ + s@] + lines_told(
            UserConfig { gender: None, ..config },
            born,
            today,
        ),
{
    reveal_strlit("- ");
    reveal_strlit("Gender");
    reveal_strlit(": ");
    reveal_strlit("- Gender: ");
    assert("- "@ + "Gender"@ + ": "@ + s@ =~= "- Gender: "@ + s@);
    let birthday = match config.birthday {
        Some(b) => if b@.len() > 0 {
            birthday_told(b@, born, today)
        } else {
            Seq::empty()
        },
        None => Seq::empty(),
    };
    let none = Seq::<Seq<char>>::empty();
    let told = labelled("Gender"@, setting_text(config.gender));
    assert(none + told =~= told + none);
    lemma_first_of_nine(
        told,
        none,
        birthday,
        labelled("Role"@, setting_text(config.role)),
        labelled("AI experience level"@, setting_text(config.ai_experience)),
        language_told(setting_text(config.language)),
        labelled("Timezone"@, setting_text(config.timezone)),
        labelled("Response style"@, setting_text(config.response_style)),
        labelled("Additional info"@, setting_text(config.custom_info)),
    );
}

/// The lines on the birthday come after the gender. What comes after it is the same as without it.
pub proof fn birthday_is_told_after_the_gender(
    config: UserConfig,
    born: Option<CivilDate>,
    today: CivilDate,
    s: String,
)
    requires
        config.name is None,
        config.gender is None,
        config.birthday == Some(s),
        s@.len() > 0,
    ensures
        lines_told(config, born, today) == birthday_told(s@, born, today) + lines_told(
            UserConfig { birthday: None, ..config },
            born,
            today,
        ),
{
    let none = Seq::<Seq<char>>::empty();
    let told = birthday_told(s@, born, today);
    assert(none + none + told =~= told + none + none);
    lemma_first_of_nine(
        told,
        none,
        none,
        labelled("Role"@, setting_text(config.role)),
        labelled("AI experience level"@, setting_text(config.ai_experience)),
        language_told(setting_text(config.language)),
        labelled("Timezone"@, setting_text(config.timezone)),
        labelled("Response style"@, setting_text(config.response_style)),
        labelled("Additional info"@, setting_text(config.custom_info)),
    );
}

/// The role is told after the birthday. What comes after it is the same as without it.
pub proof fn role_is_told_after_the_birthday(
    config: UserConfig,
    born: Option<CivilDate>,
    today: CivilDate,
    s: String,
)
    requires
        config.name is None,
        config.gender is None,
        config.birthday is None,
        config.role == Some(s),
        s@.len() > 0,
    ensures
        lines_told(config, born, today) == seq!["- Role: "@ + s@] + lines_told(
            UserConfig { role: None, ..config },
            born,
            today,
        ),
{
    reveal_strlit("- ");
    reveal_strlit("Role");
    reveal_strlit(": ");
    reveal_strlit("- Role: ");
    assert("- "@ + "Role"@ + ": "@ + s@ =~= "- Role: "@ + s@);
    let none = Seq::<Seq<char>>::empty();
    let told = labelled("Role"@, setting_text(config.role));
    assert(none + none + none + told =~= told + none + none + none);
    lemma_first_of_nine(
        told,
        none,
        none,
        none,
        labelled("AI experience level"@, setting_text(config.ai_experience)),
        language_told(setting_text(config.language)),
        labelled("Timezone"@, setting_text(config.timezone)),
        labelled("Response style"@, setting_text(config.response_style)),
        labelled("Additional info"@, setting_text(config.custom_info)),
    );
}

/// The experience with AI is told after the role. What comes after it is the same as without it.
pub proof fn experience_is_told_after_the_role(
    config: UserConfig,
    born: Option<CivilDate>,
    today: CivilDate,
    s: String,
)
    requires
        config.name is None,
        config.gender is None,
        config.birthday is None,
        config.role is None,
        config.ai_experience == Some(s),
        s@.len() > 0,
    ensures
        lines_told(config, born, today) == seq!["- AI experience level: "@ + s@] + lines_told(
            UserConfig { ai_experience: None, ..config },
            born,
            today,
        ),
{
    reveal_strlit("- ");
    reveal_strlit("AI experience level");
    reveal_strlit(": ");
    reveal_strlit("- AI experience level: ");
    assert("- "@ + "AI experience level"@ + ": "@ + s@ =~= "- AI experience level: "@ + s@);
    let none = Seq::<Seq<char>>::empty();
    let told = labelled("AI experience level"@, setting_text(config.ai_experience));
    assert(none + none + none + none + told =~= told + none + none + none + none);
    lemma_first_of_nine(
        told,
        none,
        none,
        none,
        none,
        language_told(setting_text(config.language)),
        labelled("Timezone"@, setting_text(config.timezone)),
        labelled("Response style"@, setting_text(config.response_style)),
        labelled("Additional info"@, setting_text(config.custom_info)),
    );
}

/// The language is told after the experience with AI, by its name and its code, without the white
/// space around the code. What comes after it is the same as without it.
pub proof fn language_is_told_after_the_experience(
    config: UserConfig,
    born: Option<CivilDate>,
    today: CivilDate,
    s: String,
    before: Seq<char>,
    code: Seq<char>,
    after: Seq<char>,
)
    requires
        config.name is None,
        config.gender is None,
        config.birthday is None,
        config.role is None,
        config.ai_experience is None,
        config.language == Some(s),
        s@ == before + code + after,
        all_white(before),
        all_white(after),
        code.len() > 0,
        !is_white(code[0]),
        !is_white(code.last()),
    ensures
        lines_told(config, born, today) == seq![
            "- Preferred language: "@ + native_name(code) + " ("@ + code
                + ") — reply in this language unless the user explicitly switches"@,
        ] + lines_told(
            UserConfig { language: None, ..config },
            born,
            today,
        ),
{
    trimming_takes_off_white_space(before, code, after);
    let none = Seq::<Seq<char>>::empty();
    let told = language_told(setting_text(config.language));
    assert(none + none + none + none + none + told =~= told + none + none + none + none + none);
    lemma_first_of_nine(
        told,
        none,
        none,
        none,
        none,
        none,
        labelled("Timezone"@, setting_text(config.timezone)),
        labelled("Response style"@, setting_text(config.response_style)),
        labelled("Additional info"@, setting_text(config.custom_info)),
    );
}

/// The time zone is told after the language. What comes after it is the same as without it.
pub proof fn time_zone_is_told_after_the_language(
    config: UserConfig,
    born: Option<CivilDate>,
    today: CivilDate,
    s: String,
)
    requires
        config.name is None,
        config.gender is None,
        config.birthday is None,
        config.role is None,
        config.ai_experience is None,
        config.language is None,
        config.timezone == Some(s),
        s@.len() > 0,
    ensures
        lines_told(config, born, today) == seq!["- Timezone: "@ + s@] + lines_told(
            UserConfig { timezone: None, ..config },
            born,
            today,
        ),
{
    reveal_strlit("- ");
    reveal_strlit("Timezone");
    reveal_strlit(": ");
    reveal_strlit("- Timezone: ");
    assert("- "@ + "Timezone"@ + ": "@ + s@ =~= "- Timezone: "@ + s@);
    let none = Seq::<Seq<char>>::empty();
    let told = labelled("Timezone"@, setting_text(config.timezone));
    assert(none + none + none + none + none + none + told =~= told + none + none + none + none + none + none);
    lemma_first_of_nine(
        told,
        none,
        none,
        none,
        none,
        none,
        none,
        labelled("Response style"@, setting_text(config.response_style)),
        labelled("Additional info"@, setting_text(config.custom_info)),
    );
}

/// The response style is told after the time zone. What comes after it is the same as without it.
pub proof fn response_style_is_told_after_the_time_zone(
    config: UserConfig,
    born: Option<CivilDate>,
    today: CivilDate,
    s: String,
)
    requires
        config.name is None,
        config.gender is None,
        config.birthday is None,
        config.role is None,
        config.ai_experience is None,
        config.language is None,
        config.timezone is None,
        config.response_style == Some(s),
        s@.len() > 0,
    ensures
        lines_told(config, born, today) == seq!["- Response style: "@ + s@] + lines_told(
            UserConfig { response_style: None, ..config },
            born,
            today,
        ),
{
    reveal_strlit("- ");
    reveal_strlit("Response style");
    reveal_strlit(": ");
    reveal_strlit("- Response style: ");
    assert("- "@ + "Response style"@ + ": "@ + s@ =~= "- Response style: "@ + s@);
    let none = Seq::<Seq<char>>::empty();
    let told = labelled("Response style"@, setting_text(config.response_style));
    assert(none + none + none + none + none + none + none + told =~= told + none + none + none + none + none + none + none);
    lemma_first_of_nine(
        told,
        none,
        none,
        none,
        none,
        none,
        none,
        none,
        labelled("Additional info"@, setting_text(config.custom_info)),
    );
}

/// Additional information is told in the last line. What comes after it is the same as without it.
pub proof fn additional_info_is_told_last(
    config: UserConfig,
    born: Option<CivilDate>,
    today: CivilDate,
    s: String,
)
    requires
        config.name is None,
        config.gender is None,
        config.birthday is None,
        config.role is None,
        config.ai_experience is None,
        config.language is None,
        config.timezone is None,
        config.response_style is None,
        config.custom_info == Some(s),
        s@.len() > 0,
    ensures
        lines_told(config, born, today) == seq!["- Additional info: "@ + s@] + lines_told(
            UserConfig { custom_info: None, ..config },
            born,
            today,
        ),
{
    reveal_strlit("- ");
    reveal_strlit("Additional info");
    reveal_strlit(": ");
    reveal_strlit("- Additional info: ");
    assert("- "@ + "Additional info"@ + ": "@ + s@ =~= "- Additional info: "@ + s@);
    let none = Seq::<Seq<char>>::empty();
    let told = labelled("Additional info"@, setting_text(config.custom_info));
    assert(none + none + none + none + none + none + none + none + told =~= told + none + none + none + none + none + none + none + none);
    lemma_first_of_nine(
        told,
        none,
        none,
        none,
        none,
        none,
        none,
        none,
        none,
    );
}

/// A setting that is empty is told as little as one that is missing, and so is a language that is
/// blank. Where all of these are missing there is no line.
pub proof fn empty_settings_are_not_told(
    config: UserConfig,
    born: Option<CivilDate>,
    today: CivilDate,
    s: String,
)
    requires
        s@.len() == 0,
    ensures
        config.name == Some(s) ==> lines_told(config, born, today) == lines_told(
            UserConfig { name: None, ..config },
            born,
            today,
        ),
        config.gender == Some(s) ==> lines_told(config, born, today) == lines_told(
            UserConfig { gender: None, ..config },
            born,
            today,
        ),
        config.birthday == Some(s) ==> lines_told(config, born, today) == lines_told(
            UserConfig { birthday: None, ..config },
            born,
            today,
        ),
        config.role == Some(s) ==> lines_told(config, born, today) == lines_told(
            UserConfig { role: None, ..config },
            born,
            today,
        ),
        config.ai_experience == Some(s) ==> lines_told(config, born, today) == lines_told(
            UserConfig { ai_experience: None, ..config },
            born,
            today,
        ),
        config.timezone == Some(s) ==> lines_told(config, born, today) == lines_told(
            UserConfig { timezone: None, ..config },
            born,
            today,
        ),
        config.response_style == Some(s) ==> lines_told(config, born, today) == lines_told(
            UserConfig { response_style: None, ..config },
            born,
            today,
        ),
        config.custom_info == Some(s) ==> lines_told(config, born, today) == lines_told(
            UserConfig { custom_info: None, ..config },
            born,
            today,
        ),
        config.language == Some(s) ==> lines_told(config, born, today) == lines_told(
            UserConfig { language: None, ..config },
            born,
            today,
        ),
        config.name is None && config.gender is None && config.birthday is None && config.role is None && config.ai_experience is None && config.language is None && config.timezone is None && config.response_style is None && config.custom_info is None ==> lines_told(config, born, today).len() == 0,
{
    blank_texts_trim_to_nothing(s@);
}

/// A language that is blank is told as little as one that is missing.
pub proof fn blank_languages_are_not_told(
    config: UserConfig,
    born: Option<CivilDate>,
    today: CivilDate,
    s: String,
)
    requires
        all_white(s@),
        config.language == Some(s),
    ensures
        lines_told(config, born, today) == lines_told(
            UserConfig { language: None, ..config },
            born,
            today,
        ),
{
    blank_texts_trim_to_nothing(s@);
}

/// Each of the twelve languages has its name, and any other code stands for itself.
pub proof fn languages_have_their_names(code: Seq<char>)
    ensures
        code == "zh-CN"@ ==> native_name(code) == "简体中文"@,
        code == "zh-TW"@ ==> native_name(code) == "繁體中文"@,
        code == "en"@ ==> native_name(code) == "English"@,
        code == "ja"@ ==> native_name(code) == "日本語"@,
        code == "ko"@ ==> native_name(code) == "한국어"@,
        code == "es"@ ==> native_name(code) == "Español"@,
        code == "pt"@ ==> native_name(code) == "Português"@,
        code == "ru"@ ==> native_name(code) == "Русский"@,
        code == "ar"@ ==> native_name(code) == "العربية"@,
        code == "tr"@ ==> native_name(code) == "Türkçe"@,
        code == "vi"@ ==> native_name(code) == "Tiếng Việt"@,
        code == "ms"@ ==> native_name(code) == "Bahasa Melayu"@,
        code != "zh-CN"@ && code != "zh-TW"@ && code != "en"@ && code != "ja"@ && code != "ko"@ && code != "es"@ && code != "pt"@ && code != "ru"@ && code != "ar"@ && code != "tr"@ && code != "vi"@ && code != "ms"@ ==> native_name(code) == code,
{
    reveal_strlit("zh-CN");
    reveal_strlit("zh-TW");
    reveal_strlit("en");
    reveal_strlit("ja");
    reveal_strlit("ko");
    reveal_strlit("es");
    reveal_strlit("pt");
    reveal_strlit("ru");
    reveal_strlit("ar");
    reveal_strlit("tr");
    reveal_strlit("vi");
    reveal_strlit("ms");
    assert("zh-CN"@[3] == 'C' && "zh-TW"@[3] == 'T' && "zh-CN"@.len() == 5 && "zh-TW"@.len() == 5);
    assert("en"@.len() == 2 && "en"@[0] == 'e' && "en"@[1] == 'n');
    assert("ja"@.len() == 2 && "ja"@[0] == 'j' && "ja"@[1] == 'a');
    assert("ko"@.len() == 2 && "ko"@[0] == 'k' && "ko"@[1] == 'o');
    assert("es"@.len() == 2 && "es"@[0] == 'e' && "es"@[1] == 's');
    assert("pt"@.len() == 2 && "pt"@[0] == 'p' && "pt"@[1] == 't');
    assert("ru"@.len() == 2 && "ru"@[0] == 'r' && "ru"@[1] == 'u');
    assert("ar"@.len() == 2 && "ar"@[0] == 'a' && "ar"@[1] == 'r');
    assert("tr"@.len() == 2 && "tr"@[0] == 't' && "tr"@[1] == 'r');
    assert("vi"@.len() == 2 && "vi"@[0] == 'v' && "vi"@[1] == 'i');
    assert("ms"@.len() == 2 && "ms"@[0] == 'm' && "ms"@[1] == 's');
}

/// The section on the user is a heading with the lines under it, each on a line of its own; without
/// a line there is none.
pub proof fn section_has_a_heading_and_the_lines(lines: Seq<Seq<char>>, line: Seq<char>)
    ensures
        section_told(Seq::empty()) is None,
        section_told(seq![line]) == Some("# User\n\n"@ + line),
        lines.len() > 0 ==> (section_told(lines) matches Some(section) && section_told(
            lines.push(line),
        ) == Some(section + "\n"@ + line)),
{
    joining_separates_the_parts(lines, line, "\n"@);
    assert("# User\n\n"@ + (joined(lines, "\n"@) + "\n"@ + line) =~= "# User\n\n"@ + joined(
        lines,
        "\n"@,
    ) + "\n"@ + line);
}

/// The birthday after so many years has come where its year is over, or where its year has come and
/// its month and day have.
pub proof fn birthdays_come_by_month_and_day(born: CivilDate, years: int, today: CivilDate)
    ensures
        birthday_has_come(born, years, today) <==> born.year + years < today.year || (born.year
            + years == today.year && (born.month < today.month || (born.month == today.month
            && born.day <= today.day))),
{
}

} // verus!
