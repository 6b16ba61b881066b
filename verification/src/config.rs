use vstd::prelude::*;
use vstd::string::*;
use vstd::utf8::is_ascii_chars;

verus! {

/// The settings of one run: where the server is, how to authenticate, how many
/// backups to keep on each side, and where the local copies and the log live.
#[derive(Debug, Clone, PartialEq, Eq)]
pub struct Config {
    pub api_url: String,
    pub api_key: String,
    pub max_server_backups: usize,
    pub max_local_backups: usize,
    pub local_backups_location: String,
    pub log_location: String,
}

/// The settings that have no default.
#[derive(Clone, Copy, Debug, PartialEq, Eq, Structural)]
pub enum Setting {
    ApiUrl,
    ApiKey,
    MaxServerBackups,
    MaxLocalBackups,
    LocalBackupsLocation,
}

/// Why a set of raw settings is not a configuration.
#[derive(Clone, Copy, Debug, PartialEq, Eq, Structural)]
pub enum ConfigError {
    /// The setting was not given.
    Missing(Setting),
    /// The setting was given but is no limit: it is not a count that fits the
    /// machine word, or it is zero.
    Invalid(Setting),
}

/// Whether `c` is one of the ten decimal digits.
pub open spec fn is_digit(c: char) -> bool {
    '0' <= c <= '9'
}

/// The number a sequence of decimal digits writes, most significant first.
pub open spec fn digits_value(digits: Seq<char>) -> nat
    decreases digits.len(),
{
    if digits.len() == 0 {
        0
    } else {
        (digits_value(digits.drop_last()) * 10 + (digits.last() as u32 - '0' as u32)) as nat
    }
}

/// The digits of a count: the text itself, without one leading plus sign.
pub open spec fn count_digits(text: Seq<char>) -> Seq<char> {
    if text.len() > 0 && text[0] == '+' {
        text.subrange(1, text.len() as int)
    } else {
        text
    }
}

/// What a text means as a count: an optional plus sign, then one or more
/// decimal digits and nothing else, writing a number no larger than
/// `usize::MAX`. Any other text is no count.
pub open spec fn count_of(text: Seq<char>) -> Option<usize> {
    let digits = count_digits(text);
    if digits.len() > 0 && (forall|i: int| 0 <= i < digits.len() ==> is_digit(#[trigger] digits[i]))
        && digits_value(digits) <= usize::MAX {
        Some(digits_value(digits) as usize)
    } else {
        None
    }
}

/// A longer run of digits never writes a smaller number than its prefix.
proof fn lemma_digits_value_grows(digits: Seq<char>, k: int)
    requires
        0 <= k <= digits.len(),
        forall|i: int| 0 <= i < digits.len() ==> is_digit(#[trigger] digits[i]),
    ensures
        digits_value(digits.subrange(0, k)) <= digits_value(digits),
    decreases digits.len() - k,
{
    if k == digits.len() {
        assert(digits.subrange(0, k) =~= digits);
    } else {
        let longer = digits.subrange(0, k + 1);
        assert(longer.drop_last() =~= digits.subrange(0, k));
        assert(is_digit(digits[k]));
        assert(longer.last() == digits[k]);
        lemma_digits_value_grows(digits, k + 1);
    }
}

/// Reads a count from text.
pub fn parse_count(text: &str) -> (count: Option<usize>)
    ensures
        count == count_of(text@),
{
    broadcast use is_ascii_spec_bytes;

    if !text.is_ascii() {
        proof {
            let digits = count_digits(text@);
            let bad = choose|i: int| 0 <= i < text@.len() && !('\0' <= #[trigger] text@[i] <= '\u{7f}');
            if digits.len() == text@.len() {
                assert(!is_digit(digits[bad]));
            } else {
                assert(bad >= 1);
                assert(digits[bad - 1] == text@[bad]);
                assert(!is_digit(digits[bad - 1]));
            }
        }
        return None;
    }
    let bytes = text.as_bytes();
    let n: usize = bytes.len();
    assert(n == text@.len());
    assert(forall|i: int| 0 <= i < n ==> bytes@[i] == text@[i] as u8);
    let start: usize = if n > 0 && bytes[0] == 43u8 {
        1
    } else {
        0
    };
    let ghost digits = count_digits(text@);
    assert(digits =~= text@.subrange(start as int, n as int));
    if start == n {
        return None;
    }
    let mut value: usize = 0;
    let mut i: usize = start;
    while i < n
        invariant
            start <= i <= n,
            n == text@.len(),
            n == bytes@.len(),
            digits == count_digits(text@),
            digits == text@.subrange(start as int, n as int),
            is_ascii_chars(text@),
            forall|j: int| 0 <= j < n ==> bytes@[j] == text@[j] as u8,
            forall|j: int| 0 <= j < i - start ==> is_digit(#[trigger] digits[j]),
            value == digits_value(digits.subrange(0, i - start)),
        decreases n - i,
    {
        let b: u8 = bytes[i];
        let ghost c = text@[i as int];
        assert('\0' <= c <= '\u{7f}');
        assert(digits[i - start] == c);
        if b < 48u8 || b > 57u8 {
            assert(!is_digit(digits[i - start]));
            return None;
        }
        assert(is_digit(c));
        let ghost before = digits.subrange(0, i - start);
        let ghost after = digits.subrange(0, i - start + 1);
        assert(after.drop_last() =~= before);
        assert(after.last() == c);
        assert(digits_value(after) == value * 10 + (b - 48));
        let next = match value.checked_mul(10) {
            Some(scaled) => scaled.checked_add((b - 48u8) as usize),
            None => None,
        };
        match next {
            Some(v) => {
                value = v;
            },
            None => {
                proof {
                    if forall|j: int| 0 <= j < digits.len() ==> is_digit(#[trigger] digits[j]) {
                        lemma_digits_value_grows(digits, i - start + 1);
                    }
                }
                return None;
            },
        }
        i = i + 1;
    }
    assert(digits.subrange(0, i - start) =~= digits);
    Some(value)
}

/// What a text means as a retention limit: the count it writes, which must
/// be at least one.
pub open spec fn limit_of(text: Seq<char>) -> Option<usize> {
    match count_of(text) {
        Some(count) => if count >= 1 {
            Some(count)
        } else {
            None
        },
        None => None,
    }
}

/// The first reason, in the order in which the settings are read, why raw
/// settings are not a configuration; `None` where they are one.
pub open spec fn first_problem(
    api_url: Option<String>,
    api_key: Option<String>,
    max_server_backups: Option<String>,
    max_local_backups: Option<String>,
    local_backups_location: Option<String>,
) -> Option<ConfigError> {
    if api_url is None {
        Some(ConfigError::Missing(Setting::ApiUrl))
    } else if api_key is None {
        Some(ConfigError::Missing(Setting::ApiKey))
    } else if max_server_backups is None {
        Some(ConfigError::Missing(Setting::MaxServerBackups))
    } else if limit_of(max_server_backups->0@) is None {
        Some(ConfigError::Invalid(Setting::MaxServerBackups))
    } else if max_local_backups is None {
        Some(ConfigError::Missing(Setting::MaxLocalBackups))
    } else if limit_of(max_local_backups->0@) is None {
        Some(ConfigError::Invalid(Setting::MaxLocalBackups))
    } else if local_backups_location is None {
        Some(ConfigError::Missing(Setting::LocalBackupsLocation))
    } else {
        None
    }
}

/// A location as given, or the default that stands in for a missing one.
pub open spec fn location_or(given: Option<String>, fallback: Seq<char>) -> Seq<char> {
    match given {
        Some(location) => location@,
        None => fallback,
    }
}

/// Reads a retention limit from text: a count of at least one.
pub fn parse_limit(text: &str) -> (limit: Option<usize>)
    ensures
        limit == limit_of(text@),
{
    match parse_count(text) {
        Some(count) => if count >= 1 {
            Some(count)
        } else {
            None
        },
        None => None,
    }
}

impl Config {
    /// Builds the configuration from the raw settings, each `None` where it
    /// was not given. The server's address, the credential, the two limits
    /// and the local backup directory are required, and each limit must be a
    /// count of at least one. Only the log location has a default,
    /// `backups/logs`.
    pub fn new(
        api_url: Option<String>,
        api_key: Option<String>,
        max_server_backups: Option<String>,
        max_local_backups: Option<String>,
        local_backups_location: Option<String>,
        log_location: Option<String>,
    ) -> (outcome: Result<Config, ConfigError>)
        ensures
            match outcome {
                Ok(config) => {
                    &&& first_problem(
                        api_url,
                        api_key,
                        max_server_backups,
                        max_local_backups,
                        local_backups_location,
                    ) is None
                    &&& Some(config.api_url) == api_url
                    &&& Some(config.api_key) == api_key
                    &&& Some(config.max_server_backups) == limit_of(max_server_backups->0@)
                    &&& Some(config.max_local_backups) == limit_of(max_local_backups->0@)
                    &&& config.max_server_backups >= 1
                    &&& config.max_local_backups >= 1
                    &&& Some(config.local_backups_location) == local_backups_location
                    &&& config.log_location@ == location_or(log_location, "backups/logs"@)
                },
                Err(problem) => Some(problem) == first_problem(
                    api_url,
                    api_key,
                    max_server_backups,
                    max_local_backups,
                    local_backups_location,
                ),
            },
    {
        let api_url = match api_url {
            Some(url) => url,
            None => {
                return Err(ConfigError::Missing(Setting::ApiUrl));
            },
        };
        let api_key = match api_key {
            Some(key) => key,
            None => {
                return Err(ConfigError::Missing(Setting::ApiKey));
            },
        };
        let max_server_backups = match max_server_backups {
            Some(text) => match parse_limit(text.as_str()) {
                Some(limit) => limit,
                None => {
                    return Err(ConfigError::Invalid(Setting::MaxServerBackups));
                },
            },
            None => {
                return Err(ConfigError::Missing(Setting::MaxServerBackups));
            },
        };
        let max_local_backups = match max_local_backups {
            Some(text) => match parse_limit(text.as_str()) {
                Some(limit) => limit,
                None => {
                    return Err(ConfigError::Invalid(Setting::MaxLocalBackups));
                },
            },
            None => {
                return Err(ConfigError::Missing(Setting::MaxLocalBackups));
            },
        };
        let local_backups_location = match local_backups_location {
            Some(location) => location,
            None => {
                return Err(ConfigError::Missing(Setting::LocalBackupsLocation));
            },
        };
        let log_location = match log_location {
            Some(location) => location,
            None => String::from_str("backups/logs"),
        };
        Ok(
            Config {
                api_url,
                api_key,
                max_server_backups,
                max_local_backups,
                local_backups_location,
                log_location,
            },
        )
    }
}

} // verus!
