//! The access log: one line for every request that was answered.
//!
//! A record is made after the response is decided and is only ever written
//! out. The line holds the time, the peer, the status, the time taken and
//! the decoded request.

use crate::decode::{decode_for_display, decoded_or_notice};
use crate::text::{
    chars_of, first_index_of, join, join_text, lemma_first_index_of, split, split_text, string_of,
    views,
};
use crate::timefmt::{read_time, seconds_or_epoch, show_time, shown_time};
use vstd::prelude::*;
use vstd::string::StringExecFns;

verus! {

/// What is recorded of a request once it is answered.
#[derive(Clone, Debug, PartialEq, Eq)]
pub struct AccessLogRecord {
    /// When the request came in, in seconds since the epoch.
    pub timestamp: i64,
    /// The address of the peer.
    pub peer_addr: String,
    /// The status of the response.
    pub status_code: u16,
    /// The time from the start of the request to the response's headers, in
    /// milliseconds.
    pub latency_ms: u64,
    /// The request as it came, still percent-encoded.
    pub request_path: String,
}

/// The character of the decimal digit `d`.
pub open spec fn digit(d: nat) -> char {
    if d == 0 {
        '0'
    } else if d == 1 {
        '1'
    } else if d == 2 {
        '2'
    } else if d == 3 {
        '3'
    } else if d == 4 {
        '4'
    } else if d == 5 {
        '5'
    } else if d == 6 {
        '6'
    } else if d == 7 {
        '7'
    } else if d == 8 {
        '8'
    } else {
        '9'
    }
}

/// `n` in decimal, without leading zeros.
pub open spec fn decimal(n: nat) -> Seq<char>
    decreases n,
{
    if n < 10 {
        seq![digit(n)]
    } else {
        decimal(n / 10).push(digit(n % 10))
    }
}

/// The time taken as the line shows it: in milliseconds with the unit, and
/// filled up with blanks in front to five characters.
pub open spec fn latency_column(ms: nat) -> Seq<char> {
    let text = decimal(ms) + "ms"@;
    if text.len() == 3 {
        "  "@ + text
    } else if text.len() == 4 {
        " "@ + text
    } else {
        text
    }
}

/// The line for a record.
pub open spec fn access_line(
    timestamp: int,
    peer_addr: Seq<char>,
    status_code: nat,
    latency_ms: nat,
    request_path: Seq<char>,
) -> Seq<char> {
    "["@ + shown_time(timestamp) + "] "@ + peer_addr + " | "@ + decimal(status_code) + " | "@
        + latency_column(latency_ms) + " | "@ + decoded_or_notice(request_path)
}

/// Whether a status is shown as an error: from 400 on.
pub open spec fn is_error_status(status_code: u16) -> bool {
    status_code >= 400
}

/// A number in decimal has at least one digit, and only digits.
pub proof fn lemma_decimal_digits(n: nat)
    ensures
        decimal(n).len() >= 1,
        forall|i: int| 0 <= i < decimal(n).len() ==> '0' <= #[trigger] decimal(n)[i] <= '9',
    decreases n,
{
    if n >= 10 {
        lemma_decimal_digits(n / 10);
        let init = decimal(n / 10);
        assert forall|i: int| 0 <= i < decimal(n).len() implies '0' <= #[trigger] decimal(n)[i]
            <= '9' by {
            if i < init.len() {
                assert(decimal(n)[i] == init[i]);
            }
        }
    }
}

/// The time taken fills at least five characters.
pub proof fn lemma_latency_column_width(ms: nat)
    ensures
        latency_column(ms).len() >= 5,
{
    lemma_decimal_digits(ms);
    reveal_strlit("ms");
    reveal_strlit("  ");
    reveal_strlit(" ");
}

fn digit_char(d: u64) -> (c: char)
    requires
        d < 10,
    ensures
        c == digit(d as nat),
{
    if d == 0 {
        '0'
    } else if d == 1 {
        '1'
    } else if d == 2 {
        '2'
    } else if d == 3 {
        '3'
    } else if d == 4 {
        '4'
    } else if d == 5 {
        '5'
    } else if d == 6 {
        '6'
    } else if d == 7 {
        '7'
    } else if d == 8 {
        '8'
    } else {
        '9'
    }
}

/// `n` in decimal.
pub fn decimal_text(n: u64) -> (text: String)
    ensures
        text@ == decimal(n as nat),
    decreases n,
{
    if n < 10 {
        let mut text = String::new();
        text.push(digit_char(n));
        proof {
            assert(text@ =~= seq![digit(n as nat)]);
        }
        text
    } else {
        let mut text = decimal_text(n / 10);
        text.push(digit_char(n % 10));
        text
    }
}

/// The time taken as the line shows it.
pub fn latency_text(ms: u64) -> (text: String)
    ensures
        text@ == latency_column(ms as nat),
{
    let mut number = decimal_text(ms);
    number.append("ms");
    proof {
        lemma_decimal_digits(ms as nat);
        reveal_strlit("ms");
    }
    let width = number.as_str().unicode_len();
    if width == 3 {
        let mut text = String::from_str("  ");
        text.append(number.as_str());
        text
    } else if width == 4 {
        let mut text = String::from_str(" ");
        text.append(number.as_str());
        text
    } else {
        number
    }
}

/// Whether a status is shown as an error.
pub fn status_is_error(status_code: u16) -> (b: bool)
    ensures
        b == is_error_status(status_code),
{
    status_code >= 400
}

impl AccessLogRecord {
    /// The line for this record.
    pub fn line(&self) -> (text: String)
        ensures
            text@ == access_line(
                self.timestamp as int,
                self.peer_addr@,
                self.status_code as nat,
                self.latency_ms as nat,
                self.request_path@,
            ),
    {
        let mut text = String::from_str("[");
        text.append(show_time(self.timestamp).as_str());
        text.append("] ");
        text.append(self.peer_addr.as_str());
        text.append(" | ");
        text.append(decimal_text(self.status_code as u64).as_str());
        text.append(" | ");
        text.append(latency_text(self.latency_ms).as_str());
        text.append(" | ");
        text.append(decode_for_display(self.request_path.as_str()).as_str());
        text
    }
}

/// The value of the decimal digit `c`, if it is one.
pub open spec fn digit_value(c: char) -> Option<nat> {
    if c == '0' {
        Some(0)
    } else if c == '1' {
        Some(1)
    } else if c == '2' {
        Some(2)
    } else if c == '3' {
        Some(3)
    } else if c == '4' {
        Some(4)
    } else if c == '5' {
        Some(5)
    } else if c == '6' {
        Some(6)
    } else if c == '7' {
        Some(7)
    } else if c == '8' {
        Some(8)
    } else if c == '9' {
        Some(9)
    } else {
        None
    }
}

/// The number that the text `s` is in decimal: `None` where `s` is empty or
/// holds anything but digits.
pub open spec fn parsed_decimal(s: Seq<char>) -> Option<nat>
    decreases s.len(),
{
    if s.len() == 0 {
        None
    } else {
        match digit_value(s.last()) {
            None => None,
            Some(d) => if s.len() == 1 {
                Some(d)
            } else {
                match parsed_decimal(s.drop_last()) {
                    None => None,
                    Some(n) => Some(n * 10 + d),
                }
            },
        }
    }
}

/// Reading a number gives back what writing it gave.
pub proof fn lemma_decimal_round_trip(n: nat)
    ensures
        parsed_decimal(decimal(n)) == Some(n),
    decreases n,
{
    if n >= 10 {
        lemma_decimal_round_trip(n / 10);
        lemma_decimal_digits(n / 10);
        let text = decimal(n);
        assert(text.drop_last() =~= decimal(n / 10));
        assert(text.last() == digit(n % 10));
    }
}

/// A text that is a number has only numbers as its beginnings, and none of
/// them is greater than the whole.
pub proof fn lemma_parsed_prefix(s: Seq<char>, i: int)
    requires
        1 <= i <= s.len(),
        parsed_decimal(s) is Some,
    ensures
        parsed_decimal(s.take(i)) is Some,
        parsed_decimal(s.take(i))->0 <= parsed_decimal(s)->0,
    decreases s.len(),
{
    if i == s.len() {
        assert(s.take(i) =~= s);
    } else {
        let init = s.drop_last();
        assert(init.take(i) =~= s.take(i));
        lemma_parsed_prefix(init, i);
    }
}

/// The status that the field `field` of an access line names: the number
/// in it, and 500 where it holds none that can be a status.
pub open spec fn status_of(field: Seq<char>) -> u16 {
    match parsed_decimal(field) {
        Some(n) => if n <= u16::MAX {
            n as u16
        } else {
            500
        },
        None => 500,
    }
}

/// The whole milliseconds that the field `field` of an access line names:
/// the number in front of its first point, and 0 where none stands there
/// or it does not fit.
pub open spec fn latency_of(field: Seq<char>) -> u64 {
    match parsed_decimal(field.take(first_index_of(field, '.'))) {
        Some(n) => if n <= u64::MAX {
            n as u64
        } else {
            0
        },
        None => 0,
    }
}

/// The five fields of an access line: time, peer, status, time taken and
/// request, with `^` between them. The request is all that follows the
/// fourth `^`. A line with fewer fields has none.
pub open spec fn access_fields(line: Seq<char>) -> Option<Seq<Seq<char>>> {
    let pieces = split(line, '^');
    if pieces.len() < 5 {
        None
    } else {
        Some(pieces.take(4).push(join(pieces.skip(4), '^')))
    }
}

fn digit_of(c: char) -> (d: Option<u64>)
    ensures
        d is Some <==> digit_value(c) is Some,
        d matches Some(v) ==> digit_value(c) == Some(v as nat) && v < 10,
{
    if c == '0' {
        Some(0)
    } else if c == '1' {
        Some(1)
    } else if c == '2' {
        Some(2)
    } else if c == '3' {
        Some(3)
    } else if c == '4' {
        Some(4)
    } else if c == '5' {
        Some(5)
    } else if c == '6' {
        Some(6)
    } else if c == '7' {
        Some(7)
    } else if c == '8' {
        Some(8)
    } else if c == '9' {
        Some(9)
    } else {
        None
    }
}

/// Reads the decimal number in `chars[..end]`, if one stands there that fits.
fn read_decimal(chars: &Vec<char>, end: usize) -> (n: Option<u64>)
    requires
        end <= chars.len(),
    ensures
        n matches Some(v) ==> parsed_decimal(chars@.take(end as int)) == Some(v as nat),
        n is None ==> (parsed_decimal(chars@.take(end as int)) matches Some(v) ==> v > u64::MAX),
{
    let ghost s = chars@.take(end as int);
    if end == 0 {
        return None;
    }
    let mut value: u64 = 0;
    let mut i: usize = 0;
    while i < end
        invariant
            i <= end <= chars.len(),
            s == chars@.take(end as int),
            i > 0 ==> parsed_decimal(s.take(i as int)) == Some(value as nat),
            i == 0 ==> value == 0,
        decreases end - i,
    {
        proof {
            let now = s.take(i + 1);
            assert(now.last() == chars@[i as int]);
            assert(now.drop_last() =~= s.take(i as int));
            if parsed_decimal(s) is Some {
                lemma_parsed_prefix(s, i + 1);
            }
        }
        match digit_of(chars[i]) {
            None => {
                return None;
            },
            Some(d) => {
                if value > (u64::MAX - d) / 10 {
                    return None;
                }
                value = value * 10 + d;
            },
        }
        i += 1;
    }
    proof {
        assert(s.take(i as int) =~= s);
    }
    Some(value)
}

/// The decimal number that `s` is, if it is one that fits.
pub fn parse_decimal(s: &str) -> (n: Option<u64>)
    ensures
        n matches Some(v) ==> parsed_decimal(s@) == Some(v as nat),
        n is None ==> (parsed_decimal(s@) matches Some(v) ==> v > u64::MAX),
{
    let chars = chars_of(s);
    proof {
        assert(chars@.take(chars.len() as int) =~= s@);
    }
    read_decimal(&chars, chars.len())
}

/// The status that a field of an access line names.
pub fn read_status(field: &str) -> (status: u16)
    ensures
        status == status_of(field@),
{
    match parse_decimal(field) {
        Some(n) => if n <= 65535 {
            n as u16
        } else {
            500
        },
        None => 500,
    }
}

/// The whole milliseconds that a field of an access line names.
pub fn read_latency(field: &str) -> (ms: u64)
    ensures
        ms == latency_of(field@),
{
    let chars = chars_of(field);
    let mut point: usize = 0;
    while point < chars.len() && chars[point] != '.'
        invariant
            point <= chars.len(),
            forall|k: int| 0 <= k < point ==> chars@[k] != '.',
        decreases chars.len() - point,
    {
        point += 1;
    }
    proof {
        lemma_first_index_of(chars@, '.', point as int);
    }
    match read_decimal(&chars, point) {
        Some(n) => n,
        None => 0,
    }
}

/// The five fields of an access line.
pub fn split_fields(line: &str) -> (fields: Option<Vec<String>>)
    ensures
        fields is Some <==> access_fields(line@) is Some,
        fields matches Some(f) ==> f.len() == 5 && Some(views(f@)) == access_fields(line@),
{
    let pieces = split_text(line, '^');
    if pieces.len() < 5 {
        return None;
    }
    let request = join_text(&pieces, 4, '^');
    let mut fields: Vec<String> = Vec::new();
    fields.push(pieces[0].clone());
    fields.push(pieces[1].clone());
    fields.push(pieces[2].clone());
    fields.push(pieces[3].clone());
    fields.push(request);
    proof {
        assert(views(fields@) =~= views(pieces@).take(4).push(request@));
    }
    Some(fields)
}

impl AccessLogRecord {
    /// The record that an access line stands for: what a line of the form
    /// `time^peer^status^time taken^request` says, the time read as RFC 3339.
    pub open spec fn read_from(self, line: Seq<char>) -> bool {
        access_fields(line) matches Some(f) && {
            &&& self.timestamp as int == seconds_or_epoch(f[0])
            &&& self.peer_addr@ == f[1]
            &&& self.status_code == status_of(f[2])
            &&& self.latency_ms == latency_of(f[3])
            &&& self.request_path@ == f[4]
        }
    }

    /// Reads an access line. A line with fewer than five fields is none.
    pub fn parse(line: &str) -> (record: Option<AccessLogRecord>)
        ensures
            record is Some <==> access_fields(line@) is Some,
            record matches Some(r) ==> r.read_from(line@),
    {
        match split_fields(line) {
            None => None,
            Some(fields) => {
                proof {
                    let f = views(fields@);
                    assert(f[0] == fields@[0]@ && f[1] == fields@[1]@ && f[2] == fields@[2]@);
                    assert(f[3] == fields@[3]@ && f[4] == fields@[4]@);
                }
                let timestamp = read_time(fields[0].as_str());
                let status_code = read_status(fields[2].as_str());
                let latency_ms = read_latency(fields[3].as_str());
                Some(
                    AccessLogRecord {
                        timestamp,
                        peer_addr: fields[1].clone(),
                        status_code,
                        latency_ms,
                        request_path: fields[4].clone(),
                    },
                )
            },
        }
    }
}

} // verus!
