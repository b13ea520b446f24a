//! Proxy records: parsing one comma-separated input line into a structured
//! record, and the decimal port-number syntax.

use vstd::prelude::*;
use vstd::string::StrSliceExecFns;
use vstd::string::StringExecFns;

verus! {

/// One candidate proxy: address, port, and the metadata carried on its input
/// line.
pub struct ProxyRecord {
    pub address: String,
    pub port: u16,
    pub country: String,
    pub organization: String,
}

/// The mathematical value of a `ProxyRecord`.
pub ghost struct RecordView {
    pub address: Seq<char>,
    pub port: u16,
    pub country: Seq<char>,
    pub organization: Seq<char>,
}

impl View for ProxyRecord {
    type V = RecordView;

    open spec fn view(&self) -> RecordView {
        RecordView {
            address: self.address@,
            port: self.port,
            country: self.country@,
            organization: self.organization@,
        }
    }
}

/// Why a line was rejected: too few comma-separated fields, or a port field
/// that is not an unsigned 16-bit decimal number.
#[derive(Clone, Copy, PartialEq, Eq, Structural, Debug)]
pub enum ParseError {
    MalformedLine,
    InvalidPort,
}

/// The index of the first comma at or after `start`, or the length of the
/// sequence if there is none: where the field that begins at `start` ends.
pub open spec fn field_end(s: Seq<char>, start: int) -> int
    decreases s.len() - start,
{
    if start >= s.len() {
        s.len() as int
    } else if s[start] == ',' {
        start
    } else {
        field_end(s, start + 1)
    }
}

pub proof fn lemma_field_end(s: Seq<char>, start: int)
    requires
        0 <= start <= s.len(),
    ensures
        start <= field_end(s, start) <= s.len(),
        field_end(s, start) < s.len() ==> s[field_end(s, start)] == ',',
        forall|j: int| start <= j < field_end(s, start) ==> s[j] != ',',
    decreases s.len() - start,
{
    if start < s.len() && s[start] != ',' {
        lemma_field_end(s, start + 1);
    }
}

/// A decimal digit.
pub open spec fn is_digit_char(c: char) -> bool {
    48 <= c as u32 && c as u32 <= 57
}

/// The numeric value of a decimal digit.
pub open spec fn digit_val(c: char) -> nat {
    (c as u32 - 48) as nat
}

pub open spec fn all_digits(s: Seq<char>) -> bool {
    forall|i: int| 0 <= i < s.len() ==> is_digit_char(#[trigger] s[i])
}

/// The value of a string of decimal digits, most significant first.
pub open spec fn dec_val(s: Seq<char>) -> nat
    decreases s.len(),
{
    if s.len() == 0 {
        0
    } else {
        dec_val(s.drop_last()) * 10 + digit_val(s.last())
    }
}

/// The digits of a port field: a single leading `+` sign is allowed and
/// ignored, as it is by the standard unsigned-integer syntax.
pub open spec fn port_digits(s: Seq<char>) -> Seq<char> {
    if s.len() > 0 && s[0] == '+' {
        s.drop_first()
    } else {
        s
    }
}

/// What a port field parses to: its decimal value if the field is one or more
/// digits (after an optional `+`) and the value fits in 16 bits; `None`
/// otherwise.
pub open spec fn parse_u16_spec(s: Seq<char>) -> Option<u16> {
    let digits = port_digits(s);
    if digits.len() > 0 && all_digits(digits) && dec_val(digits) <= 65535 {
        Some(dec_val(digits) as u16)
    } else {
        None
    }
}

/// What one input line parses to. The line is split at its commas; fewer than
/// four fields reject the line, and the fifth and later fields, if any, are
/// ignored. The four fields are taken verbatim, the port field through the
/// decimal syntax above.
pub open spec fn parse_line_spec(s: Seq<char>) -> Result<RecordView, ParseError> {
    let e1 = field_end(s, 0);
    if e1 >= s.len() {
        Err(ParseError::MalformedLine)
    } else {
        let e2 = field_end(s, e1 + 1);
        if e2 >= s.len() {
            Err(ParseError::MalformedLine)
        } else {
            let e3 = field_end(s, e2 + 1);
            if e3 >= s.len() {
                Err(ParseError::MalformedLine)
            } else {
                let e4 = field_end(s, e3 + 1);
                match parse_u16_spec(s.subrange(e1 + 1, e2)) {
                    Some(p) => Ok(
                        (RecordView {
                            address: s.subrange(0, e1),
                            port: p,
                            country: s.subrange(e2 + 1, e3),
                            organization: s.subrange(e3 + 1, e4),
                        }),
                    ),
                    None => Err(ParseError::InvalidPort),
                }
            }
        }
    }
}

/// Finds where the field beginning at `start` ends: the index of the next
/// comma, or the length of the string.
fn find_comma(s: &str, start: usize) -> (r: usize)
    requires
        start <= s@.len(),
    ensures
        r == field_end(s@, start as int),
        start <= r <= s@.len(),
{
    let n = s.unicode_len();
    let mut i: usize = start;
    while i < n
        invariant
            start <= i <= n,
            n == s@.len(),
            field_end(s@, start as int) == field_end(s@, i as int),
        decreases n - i,
    {
        if s.get_char(i) == ',' {
            return i;
        }
        i = i + 1;
    }
    proof {
        lemma_field_end(s@, start as int);
    }
    i
}

proof fn lemma_dec_val_prefix_le(s: Seq<char>, k: int)
    requires
        0 <= k <= s.len(),
    ensures
        dec_val(s.take(k)) <= dec_val(s),
    decreases s.len() - k,
{
    if k == s.len() {
        assert(s.take(k) =~= s);
    } else {
        assert(s.take(k + 1).drop_last() =~= s.take(k));
        assert(dec_val(s.take(k + 1)) == dec_val(s.take(k)) * 10 + digit_val(s.take(k + 1).last()));
        lemma_dec_val_prefix_le(s, k + 1);
    }
}

/// Parses a port field as the standard unsigned 16-bit decimal syntax does:
/// an optional leading `+`, then one or more decimal digits, whose value must
/// fit in 16 bits.
pub fn parse_u16(s: &str) -> (r: Option<u16>)
    ensures
        r == parse_u16_spec(s@),
{
    let n = s.unicode_len();
    let mut start: usize = 0;
    if n > 0 && s.get_char(0) == '+' {
        start = 1;
    }
    let ghost digits = port_digits(s@);
    proof {
        assert(digits =~= s@.skip(start as int));
    }
    if start >= n {
        return None;
    }
    let mut acc: u32 = 0;
    let mut i: usize = start;
    while i < n
        invariant
            start <= i <= n,
            n == s@.len(),
            start < n,
            digits == port_digits(s@),
            digits =~= s@.skip(start as int),
            acc == dec_val(digits.take(i - start)),
            acc <= 65535,
            forall|j: int| 0 <= j < i - start ==> is_digit_char(#[trigger] digits[j]),
        decreases n - i,
    {
        let c = s.get_char(i);
        let u = c as u32;
        proof {
            assert(digits[i - start] == s@[i as int]);
        }
        if u < 48 || u > 57 {
            proof {
                assert(!is_digit_char(digits[i - start]));
            }
            return None;
        }
        proof {
            assert(digits.take(i - start + 1).drop_last() =~= digits.take(i - start as int));
            assert(digits.take(i - start + 1).last() == digits[i - start]);
        }
        acc = acc * 10 + (u - 48);
        if acc > 65535 {
            proof {
                if all_digits(digits) {
                    lemma_dec_val_prefix_le(digits, i - start + 1);
                }
            }
            return None;
        }
        i = i + 1;
    }
    proof {
        assert(digits.take(n - start) =~= digits);
    }
    Some(acc as u16)
}

/// Parses one input line into a proxy record: exactly the value that
/// `parse_line_spec` gives for the line, or the rejection it gives.
pub fn parse_proxy_line(line: &str) -> (r: Result<ProxyRecord, ParseError>)
    ensures
        match r {
            Ok(rec) => parse_line_spec(line@) == Ok::<RecordView, ParseError>(rec@),
            Err(e) => parse_line_spec(line@) == Err::<RecordView, ParseError>(e),
        },
{
    let n = line.unicode_len();
    let e1 = find_comma(line, 0);
    if e1 >= n {
        return Err(ParseError::MalformedLine);
    }
    let e2 = find_comma(line, e1 + 1);
    if e2 >= n {
        return Err(ParseError::MalformedLine);
    }
    let e3 = find_comma(line, e2 + 1);
    if e3 >= n {
        return Err(ParseError::MalformedLine);
    }
    let e4 = find_comma(line, e3 + 1);
    let port_field = line.substring_char(e1 + 1, e2);
    let port = match parse_u16(port_field) {
        Some(p) => p,
        None => {
            return Err(ParseError::InvalidPort);
        },
    };
    let address = String::from_str(line.substring_char(0, e1));
    let country = String::from_str(line.substring_char(e2 + 1, e3));
    let organization = String::from_str(line.substring_char(e3 + 1, e4));
    Ok(ProxyRecord { address, port, country, organization })
}

/// The records of the parseable lines, in input order; rejected lines
/// contribute nothing.
pub open spec fn records_of(lines: Seq<Seq<char>>) -> Seq<RecordView>
    decreases lines.len(),
{
    if lines.len() == 0 {
        Seq::empty()
    } else {
        let rest = records_of(lines.drop_last());
        match parse_line_spec(lines.last()) {
            Ok(rv) => rest.push(rv),
            Err(_) => rest,
        }
    }
}

/// Parses every line of the input list, keeping the records of the parseable
/// lines in order and dropping the rest.
pub fn parse_records(lines: &Vec<String>) -> (r: Vec<ProxyRecord>)
    ensures
        r@.map_values(|rec: ProxyRecord| rec@) == records_of(lines.deep_view()),
        r@.len() <= lines@.len(),
{
    let mut out: Vec<ProxyRecord> = Vec::new();
    let mut i: usize = 0;
    while i < lines.len()
        invariant
            i <= lines@.len(),
            out@.len() <= i,
            out@.map_values(|rec: ProxyRecord| rec@) == records_of(lines.deep_view().take(i as int)),
        decreases lines@.len() - i,
    {
        proof {
            assert(lines.deep_view().take(i + 1).drop_last() =~= lines.deep_view().take(i as int));
            assert(lines.deep_view().take(i + 1).last() == lines@[i as int]@);
        }
        match parse_proxy_line(lines[i].as_str()) {
            Ok(rec) => {
                out.push(rec);
                proof {
                    assert(out@.map_values(|rec: ProxyRecord| rec@) =~= records_of(
                        lines.deep_view().take(i + 1),
                    ));
                }
            },
            Err(_) => {},
        }
        i = i + 1;
    }
    proof {
        assert(lines.deep_view().take(lines@.len() as int) =~= lines.deep_view());
    }
    out
}

} // verus!
