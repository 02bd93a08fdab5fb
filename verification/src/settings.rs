//! The settings the forwarder is configured with.
//!
//! Every setting arrives as text. A number is an optional `+` followed by
//! decimal digits and nothing else. An endpoint is written as
//! `{protocol}://{host}:{port}`, in ASCII, with one of the protocols
//! `tcp-connect`, `udp-connect`, `tcp-listen` and `udp-listen`.

use vstd::prelude::*;
use vstd::string::StrSliceExecFns;
use vstd::utf8::is_ascii_chars;
use crate::endpoint::Protocol;

verus! {

/// Seconds between two forwards of one category for one vessel, where the
/// configuration names none.
pub const DEFAULT_INTERVAL: u64 = 60;

/// Seconds between two location reports of a moving vessel, where the
/// configuration names none.
pub const DEFAULT_LOCATION_INTERVAL: u64 = 600;

/// Seconds between two location reports of a vessel that lies still, where
/// the configuration names none.
pub const DEFAULT_LOCATION_ANCHOR_INTERVAL: u64 = 86400;

/// Whether `c` is a decimal digit.
pub open spec fn is_digit(c: char) -> bool {
    '0' <= c <= '9'
}

/// Whether `text` holds decimal digits only.
pub open spec fn all_digits(text: Seq<char>) -> bool {
    forall|i: int| 0 <= i < text.len() ==> is_digit(#[trigger] text[i])
}

/// The number that the decimal digits `digits` write.
pub open spec fn decimal(digits: Seq<char>) -> nat
    decreases digits.len(),
{
    if digits.len() == 0 {
        0
    } else {
        decimal(digits.drop_last()) * 10 + (digits.last() as u32 - '0' as u32) as nat
    }
}

/// `text` without the `+` it may begin with.
pub open spec fn unsigned_part(text: Seq<char>) -> Seq<char> {
    if text.len() > 0 && text[0] == '+' {
        text.skip(1)
    } else {
        text
    }
}

/// The number that `text` writes, where it writes one that is at most
/// `max`: an optional `+`, then at least one digit, then nothing.
pub open spec fn number(text: Seq<char>, max: nat) -> Option<nat> {
    let digits = unsigned_part(text);
    if digits.len() > 0 && all_digits(digits) && decimal(digits) <= max {
        Some(decimal(digits))
    } else {
        None
    }
}

/// Digits that are appended never make a number smaller.
proof fn lemma_decimal_grows(digits: Seq<char>, n: int)
    requires
        0 <= n <= digits.len(),
    ensures
        decimal(digits.take(n)) <= decimal(digits),
    decreases digits.len() - n,
{
    if n < digits.len() {
        lemma_decimal_grows(digits, n + 1);
        assert(digits.take(n + 1).drop_last() == digits.take(n));
    } else {
        assert(digits.take(n) == digits);
    }
}

/// Reads the number that `text` writes, where it is at most `max`.
pub fn parse_number(text: &str, max: u64) -> (value: Option<u64>)
    ensures
        value is Some <==> number(text@, max as nat) is Some,
        value matches Some(v) ==> number(text@, max as nat) == Some(v as nat),
{
    if !text.is_ascii() {
        proof {
            let digits = unsigned_part(text@);
            if all_digits(digits) {
                assert forall|i: int| 0 <= i < text@.len() implies '\0' <= #[trigger] text@[i]
                    <= '\u{7f}' by {
                    if text@[0] == '+' && i > 0 {
                        assert(text@[i] == digits[i - 1]);
                    } else if text@[0] != '+' {
                        assert(text@[i] == digits[i]);
                    }
                }
            }
        }
        return None;
    }
    let len: usize = text.unicode_len();
    let start: usize = if len > 0 && text.get_ascii(0) == 43u8 {
        1
    } else {
        0
    };
    if start == len {
        return None;
    }
    let ghost digits = unsigned_part(text@);
    assert(digits == text@.skip(start as int));
    let mut value: u64 = 0;
    let mut i: usize = start;
    while i < len
        invariant
            text.is_ascii(),
            len == text@.len(),
            start <= i <= len,
            start < len,
            digits == text@.skip(start as int),
            digits == unsigned_part(text@),
            all_digits(digits.take(i - start)),
            value == decimal(digits.take(i - start)),
            value <= max,
        decreases len - i,
    {
        let byte: u8 = text.get_ascii(i);
        proof {
            let c = text@[i as int];
            assert(digits[i - start] == c);
            assert('\0' <= c <= '\u{7f}');
            assert(c as u32 == byte as u32);
            assert(digits.take(i - start + 1).drop_last() == digits.take(i - start));
            assert(digits.take(i - start + 1).last() == c);
        }
        if byte < 48u8 || byte > 57u8 {
            assert(!is_digit(digits[i - start]));
            return None;
        }
        let digit: u64 = (byte - 48u8) as u64;
        let next: u128 = (value as u128) * 10 + digit as u128;
        if next > max as u128 {
            proof {
                lemma_decimal_grows(digits, i - start + 1);
            }
            return None;
        }
        value = next as u64;
        i += 1;
    }
    assert(digits.take(len - start) == digits);
    Some(value)
}

/// What is wrong with a configuration.
#[derive(Clone, Copy, Debug, PartialEq, Eq)]
pub enum ConfigError {
    /// The vessel identity is not given.
    MissingMmsi,
    /// The vessel identity is no number that fits 32 bits.
    InvalidMmsi,
    /// The rate-limit interval is no number that fits 64 bits.
    InvalidInterval,
    /// The regular location interval is no positive number that fits 64 bits.
    InvalidLocationInterval,
    /// The anchor location interval is no positive number that fits 64 bits.
    InvalidLocationAnchorInterval,
}

/// The settings of the `general` section.
#[derive(Clone, Copy, Debug, PartialEq, Eq)]
pub struct General {
    /// The identity of the own vessel.
    pub mmsi: u32,
    /// Seconds between two forwards of one category for one vessel.
    pub interval: u64,
    /// Seconds between two location reports of a moving vessel.
    pub location_interval: u64,
    /// Seconds between two location reports of a vessel that lies still.
    pub location_anchor_interval: u64,
}

/// The value of an interval setting: the default where the configuration
/// names none, else the number written, which must be at least `min`.
/// `None` where the text is not such a number.
pub open spec fn interval_setting(text: Option<&str>, default: u64, min: u64) -> Option<u64> {
    match text {
        None => Some(default),
        Some(text) => match number(text@, u64::MAX as nat) {
            Some(value) => if value >= min {
                Some(value as u64)
            } else {
                None
            },
            None => None,
        },
    }
}

/// The settings that the four texts of the `general` section give, or the
/// first thing that is wrong with them, in the order of the parameters.
pub open spec fn general_settings(
    mmsi: Option<&str>,
    interval: Option<&str>,
    location_interval: Option<&str>,
    location_anchor_interval: Option<&str>,
) -> Result<General, ConfigError> {
    if mmsi is None {
        Err(ConfigError::MissingMmsi)
    } else if number(mmsi.unwrap()@, u32::MAX as nat) is None {
        Err(ConfigError::InvalidMmsi)
    } else if interval_setting(interval, DEFAULT_INTERVAL, 0) is None {
        Err(ConfigError::InvalidInterval)
    } else if interval_setting(location_interval, DEFAULT_LOCATION_INTERVAL, 1) is None {
        Err(ConfigError::InvalidLocationInterval)
    } else if interval_setting(location_anchor_interval, DEFAULT_LOCATION_ANCHOR_INTERVAL, 1)
        is None {
        Err(ConfigError::InvalidLocationAnchorInterval)
    } else {
        Ok(
            General {
                mmsi: number(mmsi.unwrap()@, u32::MAX as nat).unwrap() as u32,
                interval: interval_setting(interval, DEFAULT_INTERVAL, 0).unwrap(),
                location_interval: interval_setting(
                    location_interval,
                    DEFAULT_LOCATION_INTERVAL,
                    1,
                ).unwrap(),
                location_anchor_interval: interval_setting(
                    location_anchor_interval,
                    DEFAULT_LOCATION_ANCHOR_INTERVAL,
                    1,
                ).unwrap(),
            },
        )
    }
}

/// Reads one interval setting.
fn parse_interval(text: Option<&str>, default: u64, min: u64) -> (value: Option<u64>)
    ensures
        value == interval_setting(text, default, min),
{
    match text {
        None => Some(default),
        Some(text) => match parse_number(text, u64::MAX) {
            Some(value) => if value >= min {
                Some(value)
            } else {
                None
            },
            None => None,
        },
    }
}

impl General {
    /// Reads the `general` section from the texts of its four settings,
    /// each `None` where the configuration does not name it. The vessel
    /// identity is required. The intervals fall back to
    /// [`DEFAULT_INTERVAL`], [`DEFAULT_LOCATION_INTERVAL`] and
    /// [`DEFAULT_LOCATION_ANCHOR_INTERVAL`]; the two location intervals must
    /// be positive.
    pub fn parse(
        mmsi: Option<&str>,
        interval: Option<&str>,
        location_interval: Option<&str>,
        location_anchor_interval: Option<&str>,
    ) -> (settings: Result<General, ConfigError>)
        ensures
            settings == general_settings(
                mmsi,
                interval,
                location_interval,
                location_anchor_interval,
            ),
            settings matches Ok(general) ==> general.location_interval > 0
                && general.location_anchor_interval > 0,
    {
        let mmsi: u32 = match mmsi {
            None => { return Err(ConfigError::MissingMmsi); },
            Some(text) => match parse_number(text, 0xffff_ffff) {
                Some(value) => value as u32,
                None => { return Err(ConfigError::InvalidMmsi); },
            },
        };
        let interval: u64 = match parse_interval(interval, DEFAULT_INTERVAL, 0) {
            Some(value) => value,
            None => { return Err(ConfigError::InvalidInterval); },
        };
        let location_interval: u64 = match parse_interval(
            location_interval,
            DEFAULT_LOCATION_INTERVAL,
            1,
        ) {
            Some(value) => value,
            None => { return Err(ConfigError::InvalidLocationInterval); },
        };
        let location_anchor_interval: u64 = match parse_interval(
            location_anchor_interval,
            DEFAULT_LOCATION_ANCHOR_INTERVAL,
            1,
        ) {
            Some(value) => value,
            None => { return Err(ConfigError::InvalidLocationAnchorInterval); },
        };
        Ok(General { mmsi, interval, location_interval, location_anchor_interval })
    }
}

/// Where an endpoint is and how it is reached.
#[derive(Debug, PartialEq, Eq)]
pub struct Address {
    pub protocol: Protocol,
    /// The host's name or number, as written.
    pub host: String,
    pub port: u16,
}

/// Whether `text` begins with `prefix`.
pub open spec fn begins_with(text: Seq<char>, prefix: Seq<char>) -> bool {
    prefix.len() <= text.len() && text.take(prefix.len() as int) == prefix
}

/// The protocol that `text` begins with, and how many characters the
/// protocol and the `://` after it take.
pub open spec fn scheme(text: Seq<char>) -> Option<(Protocol, int)> {
    if begins_with(text, "tcp-connect://"@) {
        Some((Protocol::TCP, 14))
    } else if begins_with(text, "udp-connect://"@) {
        Some((Protocol::UDP, 14))
    } else if begins_with(text, "tcp-listen://"@) {
        Some((Protocol::TCPListen, 13))
    } else if begins_with(text, "udp-listen://"@) {
        Some((Protocol::UDPListen, 13))
    } else {
        None
    }
}

/// The place of the last colon in `text`, or -1 where it holds none.
pub open spec fn last_colon(text: Seq<char>) -> int
    decreases text.len(),
{
    if text.len() == 0 {
        -1
    } else if text.last() == ':' {
        text.len() - 1
    } else {
        last_colon(text.drop_last())
    }
}

/// The protocol, host and port that `text` names, where it is an endpoint:
/// ASCII text that begins with a protocol and `://` and goes on with a host
/// that is not empty, the last colon, and a port number up to 65535.
pub open spec fn address(text: Seq<char>) -> Option<(Protocol, Seq<char>, u16)> {
    if !is_ascii_chars(text) {
        None
    } else {
        match scheme(text) {
            Some((protocol, taken)) => {
                let rest = text.skip(taken);
                let colon = last_colon(rest);
                if colon >= 1 {
                    match number(rest.skip(colon + 1), u16::MAX as nat) {
                        Some(port) => Some((protocol, rest.take(colon), port as u16)),
                        None => None,
                    }
                } else {
                    None
                }
            },
            None => None,
        }
    }
}

/// Decides [`begins_with`] for ASCII texts.
fn has_prefix(text: &str, prefix: &str) -> (found: bool)
    requires
        text.is_ascii(),
        prefix.is_ascii(),
    ensures
        found == begins_with(text@, prefix@),
{
    let len: usize = prefix.unicode_len();
    if len > text.unicode_len() {
        return false;
    }
    let mut i: usize = 0;
    while i < len
        invariant
            text.is_ascii(),
            prefix.is_ascii(),
            len == prefix@.len(),
            len <= text@.len(),
            i <= len,
            text@.take(i as int) == prefix@.take(i as int),
        decreases len - i,
    {
        let here: u8 = text.get_ascii(i);
        let wanted: u8 = prefix.get_ascii(i);
        proof {
            let c = text@[i as int];
            let w = prefix@[i as int];
            assert('\0' <= c <= '\u{7f}');
            assert('\0' <= w <= '\u{7f}');
            assert(c as u32 == here as u32);
            assert(w as u32 == wanted as u32);
        }
        if here != wanted {
            assert(text@.take(len as int)[i as int] != prefix@[i as int]);
            return false;
        }
        proof {
            assert(text@.take(i + 1) == text@.take(i as int).push(text@[i as int]));
            assert(prefix@.take(i + 1) == prefix@.take(i as int).push(prefix@[i as int]));
        }
        i += 1;
    }
    assert(prefix@.take(len as int) == prefix@);
    true
}

/// Finds the protocol that `text` begins with.
fn parse_scheme(text: &str) -> (found: Option<(Protocol, usize)>)
    requires
        text.is_ascii(),
    ensures
        match found {
            Some((protocol, taken)) => scheme(text@) == Some((protocol, taken as int)) && taken
                <= text@.len(),
            None => scheme(text@) is None,
        },
{
    proof {
        reveal_strlit("tcp-connect://");
        reveal_strlit("udp-connect://");
        reveal_strlit("tcp-listen://");
        reveal_strlit("udp-listen://");
    }
    if has_prefix(text, "tcp-connect://") {
        Some((Protocol::TCP, 14))
    } else if has_prefix(text, "udp-connect://") {
        Some((Protocol::UDP, 14))
    } else if has_prefix(text, "tcp-listen://") {
        Some((Protocol::TCPListen, 13))
    } else if has_prefix(text, "udp-listen://") {
        Some((Protocol::UDPListen, 13))
    } else {
        None
    }
}

/// Finds the last colon of `text` at or after `from`.
fn find_last_colon(text: &str, from: usize) -> (found: Option<usize>)
    requires
        text.is_ascii(),
        from <= text@.len(),
    ensures
        match found {
            Some(place) => from <= place < text@.len() && last_colon(text@.skip(from as int))
                == place - from,
            None => last_colon(text@.skip(from as int)) == -1,
        },
{
    let ghost rest = text@.skip(from as int);
    let mut end: usize = text.unicode_len();
    assert(rest.take(end - from) == rest);
    while end > from
        invariant
            text.is_ascii(),
            from <= end <= text@.len(),
            rest == text@.skip(from as int),
            last_colon(rest) == last_colon(rest.take(end - from)),
        decreases end,
    {
        let here: u8 = text.get_ascii(end - 1);
        proof {
            let c = text@[end - 1];
            assert('\0' <= c <= '\u{7f}');
            assert(c as u32 == here as u32);
            assert(rest.take(end - from).last() == c);
            assert(rest.take(end - from).drop_last() == rest.take(end - from - 1));
        }
        if here == 58u8 {
            return Some(end - 1);
        }
        end -= 1;
    }
    assert(rest.take(0).len() == 0);
    None
}

impl Address {
    /// Reads an endpoint from its text `{protocol}://{host}:{port}`.
    pub fn parse(text: &str) -> (parsed: Option<Address>)
        ensures
            match parsed {
                Some(found) => address(text@) == Some((found.protocol, found.host@, found.port)),
                None => address(text@) is None,
            },
    {
        if !text.is_ascii() {
            return None;
        }
        let (protocol, taken) = match parse_scheme(text) {
            Some(found) => found,
            None => { return None; },
        };
        let colon: usize = match find_last_colon(text, taken) {
            Some(place) => place,
            None => { return None; },
        };
        if colon == taken {
            return None;
        }
        let len: usize = text.unicode_len();
        let host = text.substring_ascii(taken, colon);
        let port_text = text.substring_ascii(colon + 1, len);
        proof {
            let rest = text@.skip(taken as int);
            assert(rest.take(colon - taken) == host@);
            assert(rest.skip(colon - taken + 1) == port_text@);
        }
        match parse_number(port_text, 0xffff) {
            Some(port) => Some(Address { protocol, host: host.to_owned(), port: port as u16 }),
            None => None,
        }
    }
}

} // verus!
