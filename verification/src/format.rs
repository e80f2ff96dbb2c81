//! Human-readable rendering of one audit record as a single
//! space-delimited line, for operational tooling.  Pure and
//! side-effect free; never part of the decision path.

use vstd::prelude::*;

use crate::identity::Endpoint;
use crate::model::{result_code, LogItemModel, RequestLogItem};

verus! {

/// The character for one digit value below sixteen.
pub open spec fn digit_char(d: int) -> char {
    if d == 0 {
        '0'
    } else if d == 1 {
        '1'
    } else if d == 2 {
        '2'
    } else if d == 3 {
        '3'
    } else if d == 4 {
        '4'
    } else if d == 5 {
        '5'
    } else if d == 6 {
        '6'
    } else if d == 7 {
        '7'
    } else if d == 8 {
        '8'
    } else if d == 9 {
        '9'
    } else if d == 10 {
        'a'
    } else if d == 11 {
        'b'
    } else if d == 12 {
        'c'
    } else if d == 13 {
        'd'
    } else if d == 14 {
        'e'
    } else {
        'f'
    }
}

/// Fixed-width lower-case hexadecimal rendering of the low `width`
/// digits of a value, most significant first.
pub open spec fn hex_fixed(n: int, width: nat) -> Seq<char>
    decreases width,
{
    if width == 0 {
        Seq::<char>::empty()
    } else {
        hex_fixed(n / 16, (width - 1) as nat) + seq![digit_char(n % 16)]
    }
}

/// Decimal rendering of a nonnegative value, no leading zeros.
pub open spec fn dec_digits(n: int) -> Seq<char>
    recommends
        n >= 0,
    decreases n,
{
    if n < 10 {
        seq![digit_char(n)]
    } else {
        dec_digits(n / 10) + seq![digit_char(n % 10)]
    }
}

/// Decimal rendering of a signed value.
pub open spec fn dec_i64(v: i64) -> Seq<char> {
    if v >= 0 {
        dec_digits(v as int)
    } else {
        seq!['-'] + dec_digits(-(v as int))
    }
}

/// Rendering of a transport endpoint: dotted quad, a slash, the
/// port.
pub open spec fn endpoint_chars(e: Endpoint) -> Seq<char> {
    dec_digits(e.ip0 as int) + seq!['.'] + dec_digits(e.ip1 as int) + seq!['.'] + dec_digits(
        e.ip2 as int,
    ) + seq!['.'] + dec_digits(e.ip3 as int) + seq!['/'] + dec_digits(e.port as int)
}

/// The whole log line: controller address, network id, requesting
/// node address, timestamp, source endpoint and hop count, short
/// result code.
pub open spec fn line_of(e: LogItemModel) -> Seq<char> {
    hex_fixed(e.controller_node_id.value as int, 10) + seq![' '] + hex_fixed(
        e.network_id.value as int,
        16,
    ) + seq![' '] + hex_fixed(e.node_id.value as int, 10) + seq![' ', 't', 's', '='] + dec_i64(
        e.timestamp,
    ) + seq![' ', 's', '='] + endpoint_chars(e.source_remote_endpoint) + seq![','] + dec_digits(
        e.source_hops as int,
    ) + seq![' '] + result_code(e.result)
}

/// One digit below sixteen, as a string slice.
fn digit_str(d: u64) -> (r: &'static str)
    requires
        d < 16,
    ensures
        r@ == seq![digit_char(d as int)],
{
    proof {
        reveal_strlit("0");
        reveal_strlit("1");
        reveal_strlit("2");
        reveal_strlit("3");
        reveal_strlit("4");
        reveal_strlit("5");
        reveal_strlit("6");
        reveal_strlit("7");
        reveal_strlit("8");
        reveal_strlit("9");
        reveal_strlit("a");
        reveal_strlit("b");
        reveal_strlit("c");
        reveal_strlit("d");
        reveal_strlit("e");
        reveal_strlit("f");
    }
    if d == 0 {
        "0"
    } else if d == 1 {
        "1"
    } else if d == 2 {
        "2"
    } else if d == 3 {
        "3"
    } else if d == 4 {
        "4"
    } else if d == 5 {
        "5"
    } else if d == 6 {
        "6"
    } else if d == 7 {
        "7"
    } else if d == 8 {
        "8"
    } else if d == 9 {
        "9"
    } else if d == 10 {
        "a"
    } else if d == 11 {
        "b"
    } else if d == 12 {
        "c"
    } else if d == 13 {
        "d"
    } else if d == 14 {
        "e"
    } else {
        "f"
    }
}

/// Fixed-width hexadecimal rendering, executable form.
fn hex_fixed_str(n: u64, width: u64) -> (r: String)
    ensures
        r@ == hex_fixed(n as int, width as nat),
    decreases width,
{
    if width == 0 {
        String::new()
    } else {
        let mut s = hex_fixed_str(n / 16, width - 1);
        s.append(digit_str(n % 16));
        s
    }
}

/// Decimal rendering, executable form.
fn dec_str(n: u64) -> (r: String)
    ensures
        r@ == dec_digits(n as int),
    decreases n,
{
    if n < 10 {
        let mut s = String::new();
        s.append(digit_str(n));
        s
    } else {
        let mut s = dec_str(n / 10);
        s.append(digit_str(n % 10));
        s
    }
}

/// Signed decimal rendering, executable form.
fn dec_i64_str(v: i64) -> (r: String)
    ensures
        r@ == dec_i64(v),
{
    if v >= 0 {
        dec_str(v as u64)
    } else {
        let m: u64 = (-(v as i128)) as u64;
        proof {
            reveal_strlit("-");
        }
        let mut s = String::new();
        s.append("-");
        let digits = dec_str(m);
        s.append(digits.as_str());
        s
    }
}

impl RequestLogItem {
    /// Render this record as one space-delimited line.
    pub fn to_line(&self) -> (r: String)
        ensures
            r@ == line_of(self@),
    {
        proof {
            reveal_strlit(" ");
            reveal_strlit(" ts=");
            reveal_strlit(" s=");
            reveal_strlit(".");
            reveal_strlit("/");
            reveal_strlit(",");
        }
        let mut s = hex_fixed_str(self.controller_node_id.value, 10);
        s.append(" ");
        let part = hex_fixed_str(self.network_id.value, 16);
        s.append(part.as_str());
        s.append(" ");
        let part = hex_fixed_str(self.node_id.value, 10);
        s.append(part.as_str());
        s.append(" ts=");
        let part = dec_i64_str(self.timestamp);
        s.append(part.as_str());
        s.append(" s=");
        let e = self.source_remote_endpoint;
        let part = dec_str(e.ip0 as u64);
        s.append(part.as_str());
        s.append(".");
        let part = dec_str(e.ip1 as u64);
        s.append(part.as_str());
        s.append(".");
        let part = dec_str(e.ip2 as u64);
        s.append(part.as_str());
        s.append(".");
        let part = dec_str(e.ip3 as u64);
        s.append(part.as_str());
        s.append("/");
        let part = dec_str(e.port as u64);
        s.append(part.as_str());
        s.append(",");
        let part = dec_str(self.source_hops as u64);
        s.append(part.as_str());
        s.append(" ");
        s.append(self.result.as_str());
        proof {
            assert(s@ =~= line_of(self@));
        }
        s
    }
}

} // verus!
