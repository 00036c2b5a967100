//! Configuration assembly: turns the raw environment values handed in by the
//! startup code into a checked configuration, with defaults for the optional
//! settings.

use vstd::prelude::*;

verus! {

use crate::date::{is_digit, digit_val};

/// The value of a digit string, most significant digit first.
pub open spec fn digits_val(s: Seq<char>) -> int
    decreases s.len(),
{
    if s.len() == 0 {
        0
    } else {
        digits_val(s.drop_last()) * 10 + digit_val(s.last())
    }
}

pub open spec fn all_digits(s: Seq<char>) -> bool {
    forall|i: int| 0 <= i < s.len() ==> is_digit(#[trigger] s[i])
}

/// The unsigned numerals this library accepts: one to nineteen digits, a
/// length at which every value fits in 64 bits.
pub open spec fn u64_numeral(s: Seq<char>) -> bool {
    1 <= s.len() <= 19 && all_digits(s)
}

pub open spec fn pow10(n: nat) -> int
    decreases n,
{
    if n == 0 {
        1
    } else {
        10 * pow10((n - 1) as nat)
    }
}

proof fn lemma_digits_val_bound(s: Seq<char>)
    requires
        all_digits(s),
    ensures
        0 <= digits_val(s) < pow10(s.len()),
    decreases s.len(),
{
    if s.len() > 0 {
        assert(all_digits(s.drop_last())) by {
            assert(forall|i: int| 0 <= i < s.len() - 1 ==> s.drop_last()[i] == s[i]);
        }
        lemma_digits_val_bound(s.drop_last());
    }
}

/// Parses an unsigned decimal numeral; returns its value exactly when the
/// string is one the library accepts.
pub fn parse_u64(s: &str) -> (r: Option<u64>)
    ensures
        r is Some <==> u64_numeral(s@),
        r is Some ==> r->0 as int == digits_val(s@),
{
    let n = s.unicode_len();
    if n < 1 || n > 19 {
        return None;
    }
    let mut acc: u64 = 0;
    let mut i: usize = 0;
    while i < n
        invariant
            1 <= n == s@.len() <= 19,
            i <= n,
            all_digits(s@.take(i as int)),
            acc as int == digits_val(s@.take(i as int)),
        decreases n - i,
    {
        let c = s.get_char(i);
        let v = c as u32;
        if v < 48 || 57 < v {
            proof {
                assert(!is_digit(s@[i as int]));
            }
            return None;
        }
        let d = (v - 48) as u64;
        proof {
            lemma_digits_val_bound(s@.take(i as int));
            lemma_pow10_increases(i as nat, 18);
            reveal_with_fuel(pow10, 20);
            assert(s@.take(i + 1).drop_last() =~= s@.take(i as int));
            assert(all_digits(s@.take(i + 1)));
        }
        acc = acc * 10 + d;
        i = i + 1;
    }
    proof {
        assert(s@.take(n as int) =~= s@);
    }
    Some(acc)
}

proof fn lemma_pow10_increases(a: nat, b: nat)
    requires
        a <= b,
    ensures
        pow10(a) <= pow10(b),
        1 <= pow10(a),
    decreases b,
{
    if a < b {
        lemma_pow10_increases(a, (b - 1) as nat);
    } else if a > 0 {
        lemma_pow10_increases((a - 1) as nat, (a - 1) as nat);
    }
}

/// The signed numerals this library accepts: an optional sign before an
/// unsigned numeral, with the value in 64-bit signed range.
pub open spec fn i64_numeral(s: Seq<char>) -> bool {
    if s.len() >= 1 && (s[0] == '-' || s[0] == '+') {
        u64_numeral(s.skip(1)) && (if s[0] == '-' {
            digits_val(s.skip(1)) <= 0x8000000000000000
        } else {
            digits_val(s.skip(1)) <= i64::MAX as int
        })
    } else {
        u64_numeral(s) && digits_val(s) <= i64::MAX as int
    }
}

pub open spec fn i64_value(s: Seq<char>) -> int {
    if s.len() >= 1 && s[0] == '-' {
        -digits_val(s.skip(1))
    } else if s.len() >= 1 && s[0] == '+' {
        digits_val(s.skip(1))
    } else {
        digits_val(s)
    }
}

/// Parses a signed decimal numeral; returns its value exactly when the
/// string is one the library accepts.
pub fn parse_i64(s: &str) -> (r: Option<i64>)
    ensures
        r is Some <==> i64_numeral(s@),
        r is Some ==> r->0 as int == i64_value(s@),
{
    let n = s.unicode_len();
    if n == 0 {
        return None;
    }
    let c0 = s.get_char(0);
    if c0 == '-' || c0 == '+' {
        let rest = s.substring_char(1, n);
        proof {
            assert(rest@ =~= s@.skip(1));
        }
        match parse_u64(rest) {
            None => None,
            Some(v) => {
                if c0 == '-' {
                    if v <= 9223372036854775807 {
                        Some(-(v as i64))
                    } else if v == 9223372036854775808 {
                        Some(i64::MIN)
                    } else {
                        None
                    }
                } else {
                    if v <= 9223372036854775807 {
                        Some(v as i64)
                    } else {
                        None
                    }
                }
            },
        }
    } else {
        match parse_u64(s) {
            None => None,
            Some(v) => {
                if v <= 9223372036854775807 {
                    Some(v as i64)
                } else {
                    None
                }
            },
        }
    }
}

/// Why the configuration could not be assembled.
#[derive(Clone, Copy, Debug, PartialEq, Eq, Structural)]
pub enum ConfigError {
    MissingBotToken,
    MissingChatId,
    BadThreshold,
    BadInterval,
}

/// The notifier's settings: messaging credentials, the lookahead window in
/// days, and the sweep period in seconds.
#[derive(Debug, PartialEq, Eq)]
pub struct Config {
    pub bot_token: String,
    pub chat_id: String,
    pub threshold_days: i64,
    pub interval_seconds: u64,
}

pub open spec fn config_ok(
    bot: Option<String>,
    chat: Option<String>,
    threshold: Option<String>,
    interval: Option<String>,
) -> bool {
    &&& bot is Some
    &&& chat is Some
    &&& (threshold is Some ==> i64_numeral(threshold->0@))
    &&& (interval is Some ==> u64_numeral(interval->0@))
}

/// Assembles the configuration from the raw environment values: both
/// credentials are required, the threshold defaults to 1 day and the check
/// interval to 3600 seconds, and a present but malformed number is rejected.
pub fn config_from_values(
    bot: Option<String>,
    chat: Option<String>,
    threshold: Option<String>,
    interval: Option<String>,
) -> (r: Result<Config, ConfigError>)
    ensures
        r is Ok <==> config_ok(bot, chat, threshold, interval),
        bot is None ==> r == Err::<Config, ConfigError>(ConfigError::MissingBotToken),
        bot is Some && chat is None ==> r == Err::<Config, ConfigError>(ConfigError::MissingChatId),
        bot is Some && chat is Some && threshold is Some && !i64_numeral(threshold->0@) ==> r
            == Err::<Config, ConfigError>(ConfigError::BadThreshold),
        bot is Some && chat is Some && (threshold is None || i64_numeral(threshold->0@))
            && interval is Some && !u64_numeral(interval->0@) ==> r == Err::<
            Config,
            ConfigError,
        >(ConfigError::BadInterval),
        r is Ok ==> ({
            let c = r->Ok_0;
            &&& c.bot_token@ == bot->0@
            &&& c.chat_id@ == chat->0@
            &&& c.threshold_days as int == (if threshold is Some {
                i64_value(threshold->0@)
            } else {
                1
            })
            &&& c.interval_seconds as int == (if interval is Some {
                digits_val(interval->0@)
            } else {
                3600
            })
        }),
{
    let bot_token = match bot {
        None => {
            return Err(ConfigError::MissingBotToken);
        },
        Some(t) => t,
    };
    let chat_id = match chat {
        None => {
            return Err(ConfigError::MissingChatId);
        },
        Some(c) => c,
    };
    let threshold_days: i64 = match &threshold {
        None => 1,
        Some(t) => match parse_i64(t.as_str()) {
            None => {
                return Err(ConfigError::BadThreshold);
            },
            Some(v) => v,
        },
    };
    let interval_seconds: u64 = match &interval {
        None => 3600,
        Some(t) => match parse_u64(t.as_str()) {
            None => {
                return Err(ConfigError::BadInterval);
            },
            Some(v) => v,
        },
    };
    Ok(Config { bot_token, chat_id, threshold_days, interval_seconds })
}

} // verus!
