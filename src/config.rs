use vstd::prelude::*;

verus! {

pub open spec fn is_digit(c: char) -> bool {
    '0' <= c && c <= '9'
}

pub open spec fn all_digits(ds: Seq<char>) -> bool {
    forall|i: int| 0 <= i < ds.len() ==> is_digit(#[trigger] ds[i])
}

/// The number that a string of decimal digits writes.
pub open spec fn digits_value(ds: Seq<char>) -> nat
    decreases ds.len(),
{
    if ds.len() == 0 {
        0
    } else {
        digits_value(ds.drop_last()) * 10 + (ds.last() as nat - '0' as nat) as nat
    }
}

/// The digits of an unsigned decimal: the text, less one leading `+`.
pub open spec fn unsigned_digits(s: Seq<char>) -> Seq<char> {
    if s.len() > 0 && s[0] == '+' {
        s.drop_first()
    } else {
        s
    }
}

/// A whole number of seconds as the configuration writes it: an optional
/// `+` and at least one decimal digit, nothing else, no more than `u64::MAX`.
pub open spec fn parse_seconds(s: Seq<char>) -> Option<u64> {
    let ds = unsigned_digits(s);
    if ds.len() > 0 && all_digits(ds) && digits_value(ds) <= u64::MAX {
        Some(digits_value(ds) as u64)
    } else {
        None
    }
}

proof fn lemma_digits_value_grows(ds: Seq<char>, k: int)
    requires
        0 <= k <= ds.len(),
        all_digits(ds),
    ensures
        digits_value(ds.subrange(0, k)) <= digits_value(ds),
    decreases ds.len() - k,
{
    if k < ds.len() {
        lemma_digits_value_grows(ds, k + 1);
        let p = ds.subrange(0, k + 1);
        assert(p.drop_last() =~= ds.subrange(0, k));
        assert(is_digit(ds[k]));
    } else {
        assert(ds.subrange(0, k) =~= ds);
    }
}

/// Reads a broadcast interval, in seconds; `None` where the text is not an
/// unsigned decimal that fits in a `u64`.
pub fn parse_interval(s: &str) -> (r: Option<u64>)
    ensures
        r == parse_seconds(s@),
{
    let n: usize = s.unicode_len();
    let mut start: usize = 0;
    if n > 0 && s.get_char(0) == '+' {
        start = 1;
    }
    let ghost ds = unsigned_digits(s@);
    assert(ds =~= s@.subrange(start as int, n as int));
    if start >= n {
        return None;
    }
    let mut acc: u64 = 0;
    let mut i: usize = start;
    while i < n
        invariant
            start <= i <= n,
            n == s@.len(),
            start < n,
            ds == s@.subrange(start as int, n as int),
            ds == unsigned_digits(s@),
            all_digits(ds.subrange(0, i - start)),
            acc as nat == digits_value(ds.subrange(0, i - start)),
        decreases n - i,
    {
        let c = s.get_char(i);
        let ghost p = ds.subrange(0, i - start + 1);
        assert(p.drop_last() =~= ds.subrange(0, i - start));
        assert(p.last() == c);
        if c < '0' || c > '9' {
            assert(!is_digit(ds[i - start]));
            assert(!all_digits(ds));
            assert(parse_seconds(s@) is None);
            return None;
        }
        let d: u64 = (c as u32 - '0' as u32) as u64;
        assert(digits_value(p) == acc * 10 + d);
        if acc > (u64::MAX - d) / 10 {
            assert(all_digits(p));
            assert(acc * 10 + d > u64::MAX) by (nonlinear_arith)
                requires
                    acc > (u64::MAX - d) / 10,
                    d <= 9,
            ;
            proof {
                if all_digits(ds) {
                    lemma_digits_value_grows(ds, i - start + 1);
                    assert(digits_value(ds) > u64::MAX);
                }
            }
            assert(parse_seconds(s@) is None);
            return None;
        }
        assert(acc * 10 + d <= u64::MAX) by (nonlinear_arith)
            requires
                acc <= (u64::MAX - d) / 10,
                d <= 9,
        ;
        acc = acc * 10 + d;
        i = i + 1;
        assert(all_digits(ds.subrange(0, i - start))) by {
            assert forall|j: int| 0 <= j < i - start implies is_digit(#[trigger] ds.subrange(0, i - start)[j]) by {
                if j < i - start - 1 {
                    assert(ds.subrange(0, i - start)[j] == ds.subrange(0, i - start - 1)[j]);
                }
            }
        }
    }
    assert(ds.subrange(0, n - start) =~= ds);
    Some(acc)
}

/// Settings of the periodic broadcast.
#[derive(Clone, Debug)]
pub struct BroadcastSettings {
    /// Seconds between two ticks; never zero.
    pub interval_secs: u64,
    /// Name of the text channel that receives the message in each server.
    pub channel_name: String,
}

/// The process configuration, fixed once loaded.
#[derive(Clone, Debug)]
pub struct Config {
    pub command_prefix: String,
    pub token: String,
    /// `None` where no interval is set: then nothing is broadcast.
    pub broadcast: Option<BroadcastSettings>,
}

/// Why a configuration cannot be used.
#[derive(Clone, Copy, Debug, PartialEq, Eq, Structural)]
pub enum ConfigError {
    MissingPrefix,
    MissingToken,
    /// The interval is set to zero seconds.
    ZeroInterval,
    /// An interval is set but no channel name.
    MissingChannel,
}

/// The interval that a raw setting gives, if any.
pub open spec fn interval_setting(v: Option<String>) -> Option<u64> {
    match v {
        Some(t) => parse_seconds(t@),
        None => None,
    }
}

impl Config {
    /// Builds the configuration from the raw settings, each `None` where it
    /// is not set. An interval that does not read as a number counts as not
    /// set; the channel name is needed only where an interval is set.
    pub fn from_values(
        prefix: Option<String>,
        token: Option<String>,
        interval: Option<String>,
        channel: Option<String>,
    ) -> (r: Result<Config, ConfigError>)
        ensures
            (r matches Err(ConfigError::MissingPrefix)) <==> prefix is None,
            (r matches Err(ConfigError::MissingToken)) <==> (prefix is Some && token is None),
            (r matches Err(ConfigError::ZeroInterval)) <==> (prefix is Some && token is Some
                && interval_setting(interval) == Some(0u64)),
            (r matches Err(ConfigError::MissingChannel)) <==> (prefix is Some && token is Some
                && interval_setting(interval) is Some && interval_setting(interval)->0 > 0 && channel is None),
            r matches Ok(c) ==> {
                &&& c.command_prefix@ == prefix->0@
                &&& c.token@ == token->0@
                &&& match interval_setting(interval) {
                    None => c.broadcast is None,
                    Some(n) => c.broadcast matches Some(b) && b.interval_secs == n
                        && b.channel_name@ == channel->0@,
                }
            },
    {
        let command_prefix = match prefix {
            Some(p) => p,
            None => return Err(ConfigError::MissingPrefix),
        };
        let token = match token {
            Some(t) => t,
            None => return Err(ConfigError::MissingToken),
        };
        let secs = match &interval {
            Some(t) => parse_interval(t.as_str()),
            None => None,
        };
        let broadcast = match secs {
            None => None,
            Some(n) => {
                if n == 0 {
                    return Err(ConfigError::ZeroInterval);
                }
                match channel {
                    Some(name) => Some(BroadcastSettings { interval_secs: n, channel_name: name }),
                    None => return Err(ConfigError::MissingChannel),
                }
            },
        };
        Ok(Config { command_prefix, token, broadcast })
    }
}

} // verus!
