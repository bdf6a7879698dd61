//! Encoding and decoding of the file name that stores one event.
//!
//! A recording is persisted under a fixed-width name of the form
//! `bark_YYYYMMDD_HH_MM_SS_am.wav` (or `_pm`): the calendar date, the hour on
//! a 12-hour clock, minute, second and a lower-case meridiem marker, joined
//! by `_`, between the fixed prefix `bark_` and suffix `.wav`.  Decoding is
//! exact: for every valid timestamp, decoding its encoding yields the
//! timestamp back ([`lemma_round_trip`]).

use vstd::prelude::*;

verus! {

/// A wall-clock point in time at second precision, as calendar fields.
/// The hour is on the 24-hour clock; encoding converts to the 12-hour
/// clock with a meridiem marker and decoding converts back.
#[derive(Clone, Copy, Debug, PartialEq, Eq, Structural)]
pub struct Timestamp {
    pub year: u16,
    pub month: u8,
    pub day: u8,
    pub hour: u8,
    pub minute: u8,
    pub second: u8,
}

/// Why a file name failed to decode.
#[derive(Clone, Copy, Debug, PartialEq, Eq, Structural)]
pub enum CodecError {
    /// The name does not match the fixed prefix/suffix/field grammar.
    InvalidFormat,
    /// The fields parse but do not form a valid calendar date and time
    /// (non-existent date, hour outside 1-12, unknown meridiem marker).
    InvalidTimestamp,
}

pub open spec fn is_leap_year(y: int) -> bool {
    y % 4 == 0 && (y % 100 != 0 || y % 400 == 0)
}

pub open spec fn days_in_month(y: int, m: int) -> int {
    if m == 2 {
        if is_leap_year(y) {
            29
        } else {
            28
        }
    } else if m == 4 || m == 6 || m == 9 || m == 11 {
        30
    } else {
        31
    }
}

impl Timestamp {
    /// A timestamp the codec can represent: an existing calendar date with
    /// a four-digit year and an in-range time of day.
    pub open spec fn valid(self) -> bool {
        &&& self.year <= 9999
        &&& 1 <= self.month <= 12
        &&& 1 <= self.day <= days_in_month(self.year as int, self.month as int)
        &&& self.hour <= 23
        &&& self.minute <= 59
        &&& self.second <= 59
    }

    /// The chronological sort key: later timestamps have larger keys.
    pub open spec fn key_spec(self) -> int {
        ((((self.year * 100 + self.month) * 100 + self.day) * 100 + self.hour) * 100
            + self.minute) * 100 + self.second
    }

    /// Builds a timestamp from plain fields, rejecting anything that is not
    /// an existing calendar date and in-range time of day.
    pub fn new(
        year: u16,
        month: u8,
        day: u8,
        hour: u8,
        minute: u8,
        second: u8,
    ) -> (r: Option<Timestamp>)
        ensures
            match r {
                Some(t) => t == (Timestamp { year, month, day, hour, minute, second })
                    && t.valid(),
                None => !(Timestamp { year, month, day, hour, minute, second }).valid(),
            },
    {
        let t = Timestamp { year, month, day, hour, minute, second };
        if year <= 9999 && 1 <= month && month <= 12 && 1 <= day
            && day <= days_in_month_exec(year, month) && hour <= 23 && minute <= 59
            && second <= 59 {
            Some(t)
        } else {
            None
        }
    }

    /// The chronological sort key as a machine integer.
    pub fn key(&self) -> (r: u64)
        ensures
            r == self.key_spec(),
    {
        ((((self.year as u64 * 100 + self.month as u64) * 100 + self.day as u64) * 100
            + self.hour as u64) * 100 + self.minute as u64) * 100 + self.second as u64
    }
}

/// The byte of the ASCII digit for `n`, for `0 <= n <= 9`.
pub open spec fn dig(n: int) -> u8 {
    (48 + n) as u8
}

pub open spec fn is_ascii_digit(b: u8) -> bool {
    48 <= b <= 57
}

/// The hour on the 12-hour clock (1 to 12) for an hour of the day (0 to 23).
pub open spec fn hour_on_12h_clock(h: int) -> int {
    if h % 12 == 0 {
        12
    } else {
        h % 12
    }
}

/// The encoded file name, as bytes: `bark_YYYYMMDD_HH_MM_SS_am.wav`.
pub open spec fn encode_spec(t: Timestamp) -> Seq<u8> {
    let y = t.year as int;
    let mo = t.month as int;
    let dy = t.day as int;
    let h = hour_on_12h_clock(t.hour as int);
    let mi = t.minute as int;
    let se = t.second as int;
    seq![
        98u8, 97u8, 114u8, 107u8, 95u8,
        dig(y / 1000), dig(y / 100 % 10), dig(y / 10 % 10), dig(y % 10),
        dig(mo / 10), dig(mo % 10),
        dig(dy / 10), dig(dy % 10),
        95u8, dig(h / 10), dig(h % 10),
        95u8, dig(mi / 10), dig(mi % 10),
        95u8, dig(se / 10), dig(se % 10),
        95u8, if t.hour < 12 { 97u8 } else { 112u8 }, 109u8,
        46u8, 119u8, 97u8, 118u8,
    ]
}

/// The value of the two-digit field at position `i`.
pub open spec fn field2(s: Seq<u8>, i: int) -> int {
    (s[i] - 48) * 10 + (s[i + 1] - 48)
}

/// The value of the four-digit field at position `i`.
pub open spec fn field4(s: Seq<u8>, i: int) -> int {
    field2(s, i) * 100 + field2(s, i + 2)
}

/// The fixed prefix/suffix/field grammar of an encoded name: exact length,
/// `bark_` prefix, `.wav` suffix, `_` delimiters, digits in the numeric
/// fields.  The two meridiem bytes are free at this level; their value is
/// checked by [`fields_ok`].
pub open spec fn format_ok(s: Seq<u8>) -> bool {
    &&& s.len() == 29
    &&& s[0] == 98 && s[1] == 97 && s[2] == 114 && s[3] == 107 && s[4] == 95
    &&& is_ascii_digit(s[5]) && is_ascii_digit(s[6]) && is_ascii_digit(s[7])
        && is_ascii_digit(s[8])
    &&& is_ascii_digit(s[9]) && is_ascii_digit(s[10])
    &&& is_ascii_digit(s[11]) && is_ascii_digit(s[12])
    &&& s[13] == 95 && is_ascii_digit(s[14]) && is_ascii_digit(s[15])
    &&& s[16] == 95 && is_ascii_digit(s[17]) && is_ascii_digit(s[18])
    &&& s[19] == 95 && is_ascii_digit(s[20]) && is_ascii_digit(s[21])
    &&& s[22] == 95
    &&& s[25] == 46 && s[26] == 119 && s[27] == 97 && s[28] == 118
}

pub open spec fn marker_is_am(s: Seq<u8>) -> bool {
    s[23] == 97 && s[24] == 109
}

pub open spec fn marker_is_pm(s: Seq<u8>) -> bool {
    s[23] == 112 && s[24] == 109
}

/// Whether the embedded fields of a well-formed name denote a valid
/// calendar date and time: existing date, hour 1 to 12, known marker.
pub open spec fn fields_ok(s: Seq<u8>) -> bool {
    &&& 1 <= field2(s, 9) <= 12
    &&& 1 <= field2(s, 11) <= days_in_month(field4(s, 5), field2(s, 9))
    &&& 1 <= field2(s, 14) <= 12
    &&& field2(s, 17) <= 59
    &&& field2(s, 20) <= 59
    &&& (marker_is_am(s) || marker_is_pm(s))
}

/// The hour of the day (0 to 23) for an hour on the 12-hour clock and a
/// meridiem.
pub open spec fn hour_on_24h_clock(h12: int, pm: bool) -> int {
    if pm {
        if h12 == 12 {
            12
        } else {
            h12 + 12
        }
    } else {
        if h12 == 12 {
            0
        } else {
            h12
        }
    }
}

/// What decoding a name yields: the grammar is checked first, then the
/// field values.
pub open spec fn decode_spec(s: Seq<u8>) -> Result<Timestamp, CodecError> {
    if !format_ok(s) {
        Err(CodecError::InvalidFormat)
    } else if !fields_ok(s) {
        Err(CodecError::InvalidTimestamp)
    } else {
        Ok(
            Timestamp {
                year: field4(s, 5) as u16,
                month: field2(s, 9) as u8,
                day: field2(s, 11) as u8,
                hour: hour_on_24h_clock(field2(s, 14), marker_is_pm(s)) as u8,
                minute: field2(s, 17) as u8,
                second: field2(s, 20) as u8,
            },
        )
    }
}

/// Encodes a timestamp as the file name that stores its event.
#[verifier::rlimit(50)]
pub fn encode(t: &Timestamp) -> (r: Vec<u8>)
    requires
        t.valid(),
    ensures
        r@ == encode_spec(*t),
{
    let y = t.year;
    let mo = t.month;
    let dy = t.day;
    let h12: u8 = if t.hour % 12 == 0 {
        12
    } else {
        t.hour % 12
    };
    let mut r: Vec<u8> = Vec::new();
    r.push(98);
    r.push(97);
    r.push(114);
    r.push(107);
    r.push(95);
    r.push(48 + (y / 1000) as u8);
    r.push(48 + (y / 100 % 10) as u8);
    r.push(48 + (y / 10 % 10) as u8);
    r.push(48 + (y % 10) as u8);
    r.push(48 + mo / 10);
    r.push(48 + mo % 10);
    r.push(48 + dy / 10);
    r.push(48 + dy % 10);
    r.push(95);
    r.push(48 + h12 / 10);
    r.push(48 + h12 % 10);
    r.push(95);
    r.push(48 + t.minute / 10);
    r.push(48 + t.minute % 10);
    r.push(95);
    r.push(48 + t.second / 10);
    r.push(48 + t.second % 10);
    r.push(95);
    r.push(if t.hour < 12 {
        97
    } else {
        112
    });
    r.push(109);
    r.push(46);
    r.push(119);
    r.push(97);
    r.push(118);
    assert(r@ =~= encode_spec(*t));
    r
}

/// Decodes a file name back into the timestamp it encodes, rejecting names
/// outside the grammar as `InvalidFormat` and well-formed names whose fields
/// do not denote a valid date and time as `InvalidTimestamp`.
pub fn decode(name: &Vec<u8>) -> (r: Result<Timestamp, CodecError>)
    ensures
        r == decode_spec(name@),
{
    if name.len() != 29 {
        return Err(CodecError::InvalidFormat);
    }
    if !(name[0] == 98 && name[1] == 97 && name[2] == 114 && name[3] == 107 && name[4] == 95) {
        return Err(CodecError::InvalidFormat);
    }
    if !(name[13] == 95 && name[16] == 95 && name[19] == 95 && name[22] == 95) {
        return Err(CodecError::InvalidFormat);
    }
    if !(name[25] == 46 && name[26] == 119 && name[27] == 97 && name[28] == 118) {
        return Err(CodecError::InvalidFormat);
    }
    let mut i: usize = 5;
    while i < 13
        invariant
            5 <= i <= 13,
            name@.len() == 29,
            forall|j: int| 5 <= j < i ==> is_ascii_digit(name@[j]),
        decreases 13 - i,
    {
        if name[i] < 48 || name[i] > 57 {
            return Err(CodecError::InvalidFormat);
        }
        i = i + 1;
    }
    let digit_positions: [usize; 6] = [14, 15, 17, 18, 20, 21];
    let mut k: usize = 0;
    while k < 6
        invariant
            k <= 6,
            name@.len() == 29,
            digit_positions@ == seq![14usize, 15usize, 17usize, 18usize, 20usize, 21usize],
            forall|j: int| 0 <= j < k ==> is_ascii_digit(name@[digit_positions@[j] as int]),
        decreases 6 - k,
    {
        let p = digit_positions[k];
        if name[p] < 48 || name[p] > 57 {
            return Err(CodecError::InvalidFormat);
        }
        k = k + 1;
    }
    assert(format_ok(name@));
    let year: u16 = ((name[5] - 48) as u16 * 10 + (name[6] - 48) as u16) * 100
        + ((name[7] - 48) as u16 * 10 + (name[8] - 48) as u16);
    let month: u8 = (name[9] - 48) * 10 + (name[10] - 48);
    let day: u8 = (name[11] - 48) * 10 + (name[12] - 48);
    let h12: u8 = (name[14] - 48) * 10 + (name[15] - 48);
    let minute: u8 = (name[17] - 48) * 10 + (name[18] - 48);
    let second: u8 = (name[20] - 48) * 10 + (name[21] - 48);
    let is_am = name[23] == 97 && name[24] == 109;
    let is_pm = name[23] == 112 && name[24] == 109;
    if !(1 <= month && month <= 12) {
        return Err(CodecError::InvalidTimestamp);
    }
    if !(1 <= day && day <= days_in_month_exec(year, month)) {
        return Err(CodecError::InvalidTimestamp);
    }
    if !(1 <= h12 && h12 <= 12) {
        return Err(CodecError::InvalidTimestamp);
    }
    if !(minute <= 59 && second <= 59) {
        return Err(CodecError::InvalidTimestamp);
    }
    if !(is_am || is_pm) {
        return Err(CodecError::InvalidTimestamp);
    }
    let hour: u8 = if is_pm {
        if h12 == 12 {
            12
        } else {
            h12 + 12
        }
    } else {
        if h12 == 12 {
            0
        } else {
            h12
        }
    };
    Ok(Timestamp { year, month, day, hour, minute, second })
}

/// The codec round-trip law: decoding the encoding of any valid timestamp
/// yields exactly that timestamp.
pub proof fn lemma_round_trip(t: Timestamp)
    requires
        t.valid(),
    ensures
        decode_spec(encode_spec(t)) == Ok::<Timestamp, CodecError>(t),
{
    let s = encode_spec(t);
    let y = t.year as int;
    let h = t.hour as int;
    assert(format_ok(s));
    assert(field2(s, 9) == t.month as int);
    assert(field2(s, 11) == t.day as int);
    assert(field2(s, 17) == t.minute as int);
    assert(field2(s, 20) == t.second as int);
    assert(field2(s, 5) == y / 100) by {
        assert(y / 1000 == y / 100 / 10) by (nonlinear_arith);
    }
    assert(field2(s, 7) == y % 100) by {
        assert(y / 10 % 10 == y % 100 / 10) by (nonlinear_arith);
        assert(y % 10 == y % 100 % 10) by (nonlinear_arith);
    }
    assert(field4(s, 5) == y);
    assert(field2(s, 14) == hour_on_12h_clock(h));
    assert(1 <= hour_on_12h_clock(h) <= 12);
    assert(marker_is_pm(s) == (h >= 12));
    assert(hour_on_24h_clock(hour_on_12h_clock(h), h >= 12) == h);
    assert(fields_ok(s));
}

/// How many days the given month of the given year has.
pub fn days_in_month_exec(year: u16, month: u8) -> (r: u8)
    ensures
        r == days_in_month(year as int, month as int),
{
    if month == 2 {
        if (year % 4 == 0 && year % 100 != 0) || year % 400 == 0 {
            29
        } else {
            28
        }
    } else if month == 4 || month == 6 || month == 9 || month == 11 {
        30
    } else {
        31
    }
}

} // verus!
