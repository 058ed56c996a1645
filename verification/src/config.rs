//! The service's settings, taken from the values of its environment
//! variables.

use vstd::prelude::*;
use crate::text::chars_of;

verus! {

/// The service's settings.
#[derive(Clone, Debug)]
pub struct AppConfig {
    pub weather_latitude: String,
    pub weather_longitude: String,
    pub calendar_id: String,
    pub google_client_id: String,
    pub google_client_secret: String,
    pub google_redirect_uri: String,
    pub slideshow_directory: String,
    pub slideshow_interval_seconds: u64,
}

pub open spec fn is_ascii_digit(c: char) -> bool {
    '0' <= c && c <= '9'
}

/// The number that a string of decimal digits writes.
pub open spec fn digits_value(digits: Seq<char>) -> nat
    decreases digits.len(),
{
    if digits.len() == 0 {
        0
    } else {
        digits_value(digits.drop_last()) * 10 + (digits.last() as nat - '0' as nat) as nat
    }
}

/// What `str::parse::<u64>` accepts: an optional `+` and then one or more
/// decimal digits whose value fits in 64 bits.
pub open spec fn parsed_u64(s: Seq<char>) -> Option<u64> {
    decimal_number(unsigned_digits(s))
}

/// The text after an optional leading `+`.
pub open spec fn unsigned_digits(s: Seq<char>) -> Seq<char> {
    if s.len() > 0 && s[0] == '+' {
        s.drop_first()
    } else {
        s
    }
}

pub open spec fn all_digits(digits: Seq<char>) -> bool {
    forall|i: int| 0 <= i < digits.len() ==> is_ascii_digit(#[trigger] digits[i])
}

/// The value of one or more decimal digits when it fits in 64 bits.
pub open spec fn decimal_number(digits: Seq<char>) -> Option<u64> {
    if digits.len() > 0 && all_digits(digits) && digits_value(digits) <= u64::MAX {
        Some(digits_value(digits) as u64)
    } else {
        None
    }
}

proof fn lemma_digits_value_grows(digits: Seq<char>, k: int)
    requires
        0 <= k <= digits.len(),
        forall|i: int| 0 <= i < digits.len() ==> is_ascii_digit(#[trigger] digits[i]),
    ensures
        digits_value(digits.take(k)) <= digits_value(digits),
    decreases digits.len() - k,
{
    if k < digits.len() {
        lemma_digits_value_grows(digits, k + 1);
        assert(digits.take(k + 1).drop_last() =~= digits.take(k));
    } else {
        assert(digits.take(k) =~= digits);
    }
}

/// Parses a decimal `u64` as `str::parse::<u64>` does.
pub fn parse_u64(s: &str) -> (value: Option<u64>)
    ensures
        value == parsed_u64(s@),
{
    let chars = chars_of(s);
    let start: usize = if chars.len() > 0 && chars[0] == '+' {
        1
    } else {
        0
    };
    let ghost digits = chars@.skip(start as int);
    proof {
        if start == 1 {
            assert(digits =~= s@.drop_first());
        } else {
            assert(digits =~= s@);
        }
    }
    if chars.len() == start {
        return None;
    }
    let mut value: u64 = 0;
    let mut i: usize = start;
    while i < chars.len()
        invariant
            chars@ == s@,
            start <= i <= chars@.len(),
            digits == chars@.skip(start as int),
            digits == unsigned_digits(s@),
            digits.len() > 0,
            value == digits_value(digits.take(i - start)),
            forall|j: int| 0 <= j < i - start ==> is_ascii_digit(#[trigger] digits[j]),
        decreases chars@.len() - i,
    {
        let c = chars[i];
        assert(digits[i - start] == c);
        if !('0' <= c && c <= '9') {
            assert(!is_ascii_digit(digits[i - start]));
            return None;
        }
        let d = (c as u32 - '0' as u32) as u64;
        assert(digits.take(i - start + 1).drop_last() =~= digits.take(i - start));
        assert(digits.take(i - start + 1).last() == c);
        let next = match value.checked_mul(10) {
            Some(v) => v.checked_add(d),
            None => None,
        };
        match next {
            Some(v) => {
                value = v;
            },
            None => {
                proof {
                    assert(digits_value(digits.take(i - start + 1)) == value * 10 + d);
                    assert(digits_value(digits.take(i - start + 1)) > u64::MAX);
                    if all_digits(digits) {
                        lemma_digits_value_grows(digits, i - start + 1);
                    }
                }
                return None;
            },
        }
        i += 1;
    }
    assert(digits.take(digits.len() as int) =~= digits);
    Some(value)
}

/// A setting's value, or its default when the variable is not set.
fn setting_or(value: Option<String>, default: &str) -> (setting: String)
    ensures
        setting@ == match value {
            Some(v) => v@,
            None => default@,
        },
{
    match value {
        Some(v) => v,
        None => String::from_str(default),
    }
}

/// The slideshow interval: the setting when it is a positive `u64`,
/// otherwise 30 seconds.
pub open spec fn interval_setting(value: Option<Seq<char>>) -> u64 {
    match value {
        Some(v) => match parsed_u64(v) {
            Some(n) => if n > 0 {
                n
            } else {
                30
            },
            None => 30,
        },
        None => 30,
    }
}

/// The slideshow interval is the configured number of seconds whenever that
/// is a positive number, and the default of 30 seconds only when the setting
/// is missing, is not a number, or is 0.
pub proof fn positive_intervals_are_kept(value: Option<Seq<char>>)
    ensures
        forall|v: Seq<char>|
            value == Some(v) ==> match #[trigger] parsed_u64(v) {
                Some(n) => n > 0 ==> interval_setting(value) == n,
                None => true,
            },
        interval_setting(value) > 0,
        interval_setting(value) != 30 ==> (value is Some && parsed_u64(value.unwrap()) == Some(
            interval_setting(value),
        )),
        interval_setting(value) == 30 ==> value is None || parsed_u64(value.unwrap()) is None
            || parsed_u64(value.unwrap()) == Some(0u64) || parsed_u64(value.unwrap()) == Some(30u64),
{
}

impl AppConfig {
    /// The settings from the values of the variables `WEATHER_LATITUDE`,
    /// `WEATHER_LONGITUDE`, `CALENDAR_ID`, `GOOGLE_CLIENT_ID`,
    /// `GOOGLE_CLIENT_SECRET`, `GOOGLE_REDIRECT_URI`, `SLIDESHOW_DIRECTORY`
    /// and `SLIDESHOW_INTERVAL_SECONDS` (none where a variable is not set),
    /// with the defaults for those that are not set.
    pub fn from_settings(
        weather_latitude: Option<String>,
        weather_longitude: Option<String>,
        calendar_id: Option<String>,
        google_client_id: Option<String>,
        google_client_secret: Option<String>,
        google_redirect_uri: Option<String>,
        slideshow_directory: Option<String>,
        slideshow_interval_seconds: Option<String>,
    ) -> (config: AppConfig)
        ensures
            config.weather_latitude@ == match weather_latitude {
                Some(v) => v@,
                None => "58.14574000943632"@,
            },
            config.weather_longitude@ == match weather_longitude {
                Some(v) => v@,
                None => "8.06137337891726"@,
            },
            config.calendar_id@ == match calendar_id {
                Some(v) => v@,
                None => "f2469c230e7c5d747c481a395b71f16b70f6b4c8d20d2bcb4348bc4e34eb814f@group.calendar.google.com"@,
            },
            config.google_client_id@ == match google_client_id {
                Some(v) => v@,
                None => Seq::<char>::empty(),
            },
            config.google_client_secret@ == match google_client_secret {
                Some(v) => v@,
                None => Seq::<char>::empty(),
            },
            config.google_redirect_uri@ == match google_redirect_uri {
                Some(v) => v@,
                None => "http://localhost:8080/oauth/callback"@,
            },
            config.slideshow_directory@ == match slideshow_directory {
                Some(v) => v@,
                None => "static/slideshow"@,
            },
            config.slideshow_interval_seconds == interval_setting(
                slideshow_interval_seconds.deep_view(),
            ),
            slideshow_interval_seconds is None ==> config.slideshow_interval_seconds == 30,
            forall|v: Seq<char>|
                slideshow_interval_seconds.deep_view() == Some(v) ==> match #[trigger] parsed_u64(v) {
                    Some(n) => config.slideshow_interval_seconds == if n > 0 {
                        n
                    } else {
                        30
                    },
                    None => true,
                },
            forall|v: Seq<char>|
                slideshow_interval_seconds.deep_view() == Some(v) && #[trigger] parsed_u64(v) is None
                    ==> config.slideshow_interval_seconds == 30,
    {
        proof {
            positive_intervals_are_kept(slideshow_interval_seconds.deep_view());
        }
        let interval = match &slideshow_interval_seconds {
            Some(v) => match parse_u64(v.as_str()) {
                Some(n) => if n > 0 {
                    n
                } else {
                    30
                },
                None => 30,
            },
            None => 30,
        };
        AppConfig {
            weather_latitude: setting_or(weather_latitude, "58.14574000943632"),
            weather_longitude: setting_or(weather_longitude, "8.06137337891726"),
            calendar_id: setting_or(
                calendar_id,
                "f2469c230e7c5d747c481a395b71f16b70f6b4c8d20d2bcb4348bc4e34eb814f@group.calendar.google.com",
            ),
            google_client_id: match google_client_id {
                Some(v) => v,
                None => String::new(),
            },
            google_client_secret: match google_client_secret {
                Some(v) => v,
                None => String::new(),
            },
            google_redirect_uri: setting_or(google_redirect_uri, "http://localhost:8080/oauth/callback"),
            slideshow_directory: setting_or(slideshow_directory, "static/slideshow"),
            slideshow_interval_seconds: interval,
        }
    }
}

} // verus!
