//! Parser for the packet listing of the probe tool.
//!
//! The listing has one line per packet with the comma-separated fields
//! presentation time, decode time, size and flags. Times are decimal
//! seconds; they are read exactly, into whole microseconds. A line that
//! does not yield a time and a size is skipped.

use crate::aggregate::{frame_views, FrameRecord, FrameView};
use crate::text::{
    all_digits, char_digit_value, char_is_digit, digit_value, digits_value, find_char,
    first_index_of, is_digit, lemma_first_index_of, lemma_first_index_shift, parse_digits,
    parse_unsigned, split_on, split_range, to_chars, unsigned_value,
};
use vstd::prelude::*;

verus! {

/// Number of fractional digits that a time in microseconds keeps.
pub const MICRO_DIGITS: usize = 6;

/// Value of the first `places` fractional digits of `fraction`, read as a
/// whole number; digits that are missing count as zero.
pub open spec fn fraction_value(fraction: Seq<char>, places: int) -> nat
    decreases places,
{
    if places <= 0 {
        0
    } else {
        fraction_value(fraction, places - 1) * 10 + if places - 1 < fraction.len() {
            digit_value(fraction[places - 1])
        } else {
            0
        }
    }
}

/// The digits and the optional decimal point of a numeral, without its sign.
pub open spec fn unsigned_part(text: Seq<char>) -> Seq<char> {
    if text.len() > 0 && (text[0] == '-' || text[0] == '+') {
        text.drop_first()
    } else {
        text
    }
}

/// The digits before the decimal point.
pub open spec fn whole_part(body: Seq<char>) -> Seq<char> {
    body.take(first_index_of(body, '.', 0, body.len() as int))
}

/// The digits behind the decimal point; empty if there is no point.
pub open spec fn fraction_part(body: Seq<char>) -> Seq<char> {
    let dot = first_index_of(body, '.', 0, body.len() as int);
    if dot < body.len() {
        body.skip(dot + 1)
    } else {
        Seq::empty()
    }
}

/// Whether `text` is a decimal numeral: an optional sign, digits, and
/// optionally a point followed by digits, with at least one digit in all.
pub open spec fn is_decimal(text: Seq<char>) -> bool {
    let body = unsigned_part(text);
    &&& all_digits(whole_part(body))
    &&& all_digits(fraction_part(body))
    &&& whole_part(body).len() + fraction_part(body).len() > 0
}

/// Microseconds that a decimal numeral of seconds stands for, without its
/// sign. Digits behind the sixth fractional digit are dropped.
pub open spec fn decimal_micros(text: Seq<char>) -> nat {
    let body = unsigned_part(text);
    digits_value(whole_part(body)) * 1_000_000 + fraction_value(
        fraction_part(body),
        MICRO_DIGITS as int,
    )
}

/// Time in microseconds that `text` stands for; `None` if `text` is not a
/// decimal numeral or the time does not fit in 64 bits.
pub open spec fn micros_value(text: Seq<char>) -> Option<int> {
    if is_decimal(text) && decimal_micros(text) <= i64::MAX {
        if text[0] == '-' {
            Some(-(decimal_micros(text) as int))
        } else {
            Some(decimal_micros(text) as int)
        }
    } else {
        None
    }
}

/// Reads `chars` as a time in decimal seconds.
pub fn parse_micros(chars: &Vec<char>) -> (value: Option<i64>)
    ensures
        value is Some == micros_value(chars@) is Some,
        value is Some ==> value->0 == micros_value(chars@)->0,
{
    let n = chars.len();
    let negative = n > 0 && chars[0] == '-';
    let start: usize = if n > 0 && (chars[0] == '-' || chars[0] == '+') {
        1
    } else {
        0
    };
    let ghost body = unsigned_part(chars@);
    assert(body =~= chars@.subrange(start as int, n as int));
    let dot = find_char(chars, '.', start, n);
    proof {
        lemma_first_index_shift(chars@, '.', start as int, n as int);
        lemma_first_index_of(chars@, '.', start as int, n as int);
    }
    let ghost whole = whole_part(body);
    let ghost fraction = fraction_part(body);
    assert(whole =~= chars@.subrange(start as int, dot as int));
    let fraction_start: usize = if dot < n {
        dot + 1
    } else {
        n
    };
    assert(fraction =~= chars@.subrange(fraction_start as int, n as int));
    if dot - start + (n - fraction_start) == 0 {
        return None;
    }
    let mut i: usize = fraction_start;
    while i < n
        invariant
            fraction_start <= i <= n,
            n == chars.len(),
            fraction == chars@.subrange(fraction_start as int, n as int),
            fraction == fraction_part(unsigned_part(chars@)),
            forall|k: int| 0 <= k < i - fraction_start ==> is_digit(#[trigger] fraction[k]),
        decreases n - i,
    {
        let c = chars[i];
        assert(fraction[i - fraction_start] == c);
        if !char_is_digit(c) {
            assert(!all_digits(fraction));
            return None;
        }
        i += 1;
    }
    let whole_value = match parse_digits(chars, start, dot) {
        Some(v) => v,
        None => {
            proof {
                if all_digits(whole) {
                    assert(digits_value(whole) > u64::MAX);
                    assert(decimal_micros(chars@) > i64::MAX) by (nonlinear_arith)
                        requires
                            decimal_micros(chars@) >= digits_value(whole) * 1_000_000,
                            digits_value(whole) > u64::MAX,
                    ;
                }
            }
            return None;
        },
    };
    let mut micros: u64 = 0;
    let mut place: usize = 0;
    while place < MICRO_DIGITS
        invariant
            place <= MICRO_DIGITS,
            n == chars.len(),
            fraction_start <= n,
            fraction == chars@.subrange(fraction_start as int, n as int),
            all_digits(fraction),
            micros == fraction_value(fraction, place as int),
            micros < pow10(place as nat),
        decreases MICRO_DIGITS - place,
    {
        let digit: u64 = if place < n - fraction_start {
            assert(fraction[place as int] == chars@[fraction_start + place]);
            char_digit_value(chars[fraction_start + place])
        } else {
            0
        };
        proof {
            lemma_pow10_bound(place as nat);
        }
        micros = micros * 10 + digit;
        place += 1;
    }
    proof {
        lemma_pow10_six();
    }
    if whole_value > (i64::MAX as u64 - micros) / 1_000_000 {
        assert(decimal_micros(chars@) > i64::MAX) by (nonlinear_arith)
            requires
                decimal_micros(chars@) == whole_value * 1_000_000 + micros,
                whole_value > (i64::MAX as u64 - micros) / 1_000_000,
                micros < 1_000_000,
        ;
        return None;
    }
    assert(whole_value * 1_000_000 + micros <= i64::MAX) by (nonlinear_arith)
        requires
            whole_value <= (i64::MAX as u64 - micros) / 1_000_000,
            micros < 1_000_000,
    ;
    let magnitude: u64 = whole_value * 1_000_000 + micros;
    if negative {
        Some(-(magnitude as i64))
    } else {
        Some(magnitude as i64)
    }
}

/// Ten to the power `exponent`.
pub open spec fn pow10(exponent: nat) -> nat
    decreases exponent,
{
    if exponent == 0 {
        1
    } else {
        10 * pow10((exponent - 1) as nat)
    }
}

/// Ten to the sixth power is one million.
proof fn lemma_pow10_six()
    ensures
        pow10(6) == 1_000_000,
{
    assert(pow10(0) == 1);
    assert(pow10(1) == 10);
    assert(pow10(2) == 100);
    assert(pow10(3) == 1_000);
    assert(pow10(4) == 10_000);
    assert(pow10(5) == 100_000);
}

/// Powers of ten up to the sixth stay far below the 64-bit limit.
proof fn lemma_pow10_bound(exponent: nat)
    requires
        exponent <= 6,
    ensures
        pow10(exponent) <= 1_000_000,
        pow10(exponent + 1) == 10 * pow10(exponent),
    decreases exponent,
{
    if exponent > 0 {
        lemma_pow10_bound((exponent - 1) as nat);
    }
    lemma_pow10_six();
    if exponent < 6 {
        lemma_pow10_monotone(exponent, 6);
    }
}

/// Powers of ten grow with the exponent.
proof fn lemma_pow10_monotone(low: nat, high: nat)
    requires
        low <= high,
    ensures
        pow10(low) <= pow10(high),
    decreases high - low,
{
    if low < high {
        lemma_pow10_monotone(low, (high - 1) as nat);
    }
}

/// Picture type reported for packets that carry the key-frame flag.
pub open spec fn key_frame_type() -> Seq<char> {
    seq!['I']
}

/// Whether `text` holds the character `target`.
pub open spec fn has_char(text: Seq<char>, target: char) -> bool {
    first_index_of(text, target, 0, text.len() as int) < text.len()
}

/// The packet that one line of the listing describes. `None` if the line
/// has fewer than three fields, if neither of its two time fields is a time,
/// or if its size field is not a number that fits in 64 bits.
pub open spec fn packet_of_line(line: Seq<char>) -> Option<FrameView> {
    let fields = split_on(line, ',');
    if fields.len() < 3 {
        None
    } else {
        let time = if micros_value(fields[0]) is Some {
            micros_value(fields[0])
        } else {
            micros_value(fields[1])
        };
        let size = unsigned_value(fields[2]);
        if time is Some && size is Some && size->0 <= u64::MAX {
            Some(
                FrameView {
                    timestamp_us: time->0,
                    size: size->0,
                    frame_type: if fields.len() > 3 && has_char(fields[3], 'K') {
                        Some(key_frame_type())
                    } else {
                        None
                    },
                },
            )
        } else {
            None
        }
    }
}

/// Reads the characters `from..to` of `chars` as one line of the listing.
pub fn parse_packet_line(chars: &Vec<char>, from: usize, to: usize) -> (packet: Option<FrameRecord>)
    requires
        from <= to <= chars.len(),
    ensures
        packet is Some == packet_of_line(chars@.subrange(from as int, to as int)) is Some,
        packet is Some ==> packet->0@ == packet_of_line(chars@.subrange(from as int, to as int))->0,
{
    let fields = split_range(chars, from, to, ',');
    let ghost texts = split_on(chars@.subrange(from as int, to as int), ',');
    assert(texts.len() == fields@.len());
    if fields.len() < 3 {
        return None;
    }
    assert(texts[0] == fields@[0]@);
    assert(texts[1] == fields@[1]@);
    assert(texts[2] == fields@[2]@);
    let time = match parse_micros(&fields[0]) {
        Some(t) => Some(t),
        None => parse_micros(&fields[1]),
    };
    let size = parse_unsigned(&fields[2]);
    match (time, size) {
        (Some(timestamp_us), Some(size)) => {
            let flagged = if fields.len() > 3 {
                assert(texts[3] == fields@[3]@);
                find_char(&fields[3], 'K', 0, fields[3].len()) < fields[3].len()
            } else {
                false
            };
            let frame_type = if flagged {
                let mut label = String::new();
                label.push('I');
                assert(label@ =~= key_frame_type());
                Some(label)
            } else {
                None
            };
            Some(FrameRecord { timestamp_us, size, frame_type })
        },
        _ => None,
    }
}

/// A line without the carriage return that may end it.
pub open spec fn without_carriage_return(line: Seq<char>) -> Seq<char> {
    if line.len() > 0 && line.last() == '\r' {
        line.drop_last()
    } else {
        line
    }
}

/// The packets that a listing describes, in order. `text` is what is left
/// of the listing; lines end at a line feed, and the last line may do
/// without one.
pub open spec fn packets_of(text: Seq<char>) -> Seq<FrameView>
    decreases text.len(),
{
    if text.len() == 0 {
        Seq::empty()
    } else {
        let end = first_index_of(text, '\n', 0, text.len() as int);
        let line = without_carriage_return(text.take(end));
        let rest = if 0 <= end < text.len() {
            packets_of(text.skip(end + 1))
        } else {
            Seq::empty()
        };
        match packet_of_line(line) {
            Some(packet) => seq![packet] + rest,
            None => rest,
        }
    }
}

/// Reads the packet listing `output`.
pub fn parse_packet_output(output: &str) -> (packets: Vec<FrameRecord>)
    ensures
        frame_views(packets@) == packets_of(output@),
{
    let chars = to_chars(output);
    let n = chars.len();
    let mut packets: Vec<FrameRecord> = Vec::new();
    let mut at: usize = 0;
    assert(chars@.subrange(0, n as int) =~= chars@);
    assert(frame_views(packets@) =~= Seq::<FrameView>::empty());
    while at < n
        invariant
            at <= n,
            n == chars.len(),
            chars@ == output@,
            packets_of(output@) == frame_views(packets@) + packets_of(
                chars@.subrange(at as int, n as int),
            ),
        decreases n - at,
    {
        let ghost rest = chars@.subrange(at as int, n as int);
        let ghost before = frame_views(packets@);
        let end = find_char(&chars, '\n', at, n);
        proof {
            lemma_first_index_shift(chars@, '\n', at as int, n as int);
        }
        let line_end: usize = if end > at && chars[end - 1] == '\r' {
            end - 1
        } else {
            end
        };
        assert(chars@.subrange(at as int, line_end as int) =~= without_carriage_return(
            rest.take(end - at),
        )) by {
            assert(rest.take(end - at) =~= chars@.subrange(at as int, end as int));
        }
        let parsed = parse_packet_line(&chars, at, line_end);
        match parsed {
            Some(packet) => {
                let ghost view = packet@;
                packets.push(packet);
                assert(frame_views(packets@) =~= before.push(view));
            },
            None => {},
        }
        let ghost tail = if end < n {
            packets_of(rest.skip(end - at + 1))
        } else {
            Seq::<FrameView>::empty()
        };
        assert(packets_of(rest) == match packet_of_line(
            without_carriage_return(rest.take(end - at)),
        ) {
            Some(p) => seq![p] + tail,
            None => tail,
        });
        assert(before + packets_of(rest) =~= frame_views(packets@) + tail);
        if end < n {
            assert(rest.skip(end - at + 1) =~= chars@.subrange(end + 1, n as int));
            at = end + 1;
        } else {
            assert(chars@.subrange(n as int, n as int) =~= Seq::<char>::empty());
            at = n;
        }
    }
    assert(chars@.subrange(n as int, n as int) =~= Seq::<char>::empty());
    assert(frame_views(packets@) + Seq::<FrameView>::empty() =~= frame_views(packets@));
    packets
}

} // verus!
