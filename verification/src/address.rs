//! IPv4 addresses and their dotted-decimal text.
//!
//! The text of an address is its four octets as shortest decimal numerals,
//! joined by dots. Parsing is the inverse of that and nothing more: a string
//! is accepted exactly when it is the text of some address, so `1.2.3.4` is
//! read and `01.2.3.4`, `1.2.3`, `1.2.3.256` and ` 1.2.3.4` are not.

use crate::text::{
    chars_of, decimal_text, decimal_value, digit_run_end, is_canonical_numeral, is_digit,
    lemma_canonical_numeral, lemma_decimal_text, lemma_digit_run, lemma_digit_run_end,
    push_decimal, scan_number,
};
use vstd::prelude::*;

verus! {

/// An IPv4 address: its four octets, first to last.
#[derive(Clone, Copy, Debug, PartialEq, Eq, Structural)]
pub struct Ipv4Address(pub u8, pub u8, pub u8, pub u8);

/// The dotted-decimal text of an address.
pub open spec fn address_text(ip: Ipv4Address) -> Seq<char> {
    decimal_text(ip.0 as nat) + seq!['.'] + decimal_text(ip.1 as nat) + seq!['.'] + decimal_text(
        ip.2 as nat,
    ) + seq!['.'] + decimal_text(ip.3 as nat)
}

/// The address that `s` is the text of, if it is the text of one.
pub open spec fn address_of(s: Seq<char>) -> Option<Ipv4Address> {
    if exists|ip: Ipv4Address| s == #[trigger] address_text(ip) {
        Some(choose|ip: Ipv4Address| s == #[trigger] address_text(ip))
    } else {
        None
    }
}

/// The octet whose numeral is the run of digits at `start`, with the index
/// at which that run ends.
pub open spec fn octet_at(s: Seq<char>, start: int) -> Option<(u8, int)> {
    let end = digit_run_end(s, start);
    let numeral = s.subrange(start, end);
    if 0 <= start <= s.len() && is_canonical_numeral(numeral) && decimal_value(numeral) <= 255 {
        Some((decimal_value(numeral) as u8, end))
    } else {
        None
    }
}

/// The octet at `start` where a dot follows it, with the index after the
/// dot.
pub open spec fn dotted_octet_at(s: Seq<char>, start: int) -> Option<(u8, int)> {
    match octet_at(s, start) {
        Some((octet, end)) => if end < s.len() && s[end] == '.' {
            Some((octet, end + 1))
        } else {
            None
        },
        None => None,
    }
}

/// What reading `s` from left to right yields: three octets with a dot after
/// each, then a fourth that ends the string.
pub open spec fn scanned_address(s: Seq<char>) -> Option<Ipv4Address> {
    match dotted_octet_at(s, 0) {
        Some((a, after_a)) => match dotted_octet_at(s, after_a) {
            Some((b, after_b)) => match dotted_octet_at(s, after_b) {
                Some((c, after_c)) => match octet_at(s, after_c) {
                    Some((d, end)) => if end == s.len() {
                        Some(Ipv4Address(a, b, c, d))
                    } else {
                        None
                    },
                    None => None,
                },
                None => None,
            },
            None => None,
        },
        None => None,
    }
}

/// An octet that was read at `start` has its numeral there.
proof fn lemma_octet_at(s: Seq<char>, start: int)
    requires
        octet_at(s, start) is Some,
    ensures
        ({
            let (octet, end) = octet_at(s, start)->0;
            &&& start < end <= s.len()
            &&& s.subrange(start, end) == decimal_text(octet as nat)
        }),
{
    lemma_digit_run_end(s, start);
    lemma_canonical_numeral(s.subrange(start, digit_run_end(s, start)));
}

/// Where the numeral of `octet` stands at `start` and no digit follows it,
/// that octet is read there.
proof fn lemma_octet_read(s: Seq<char>, start: int, octet: u8)
    requires
        0 <= start,
        start + decimal_text(octet as nat).len() <= s.len(),
        s.subrange(start, start + decimal_text(octet as nat).len()) == decimal_text(octet as nat),
        start + decimal_text(octet as nat).len() == s.len() || !is_digit(
            s[start + decimal_text(octet as nat).len()],
        ),
    ensures
        octet_at(s, start) == Some((octet, start + decimal_text(octet as nat).len())),
{
    let numeral = decimal_text(octet as nat);
    let end = start + numeral.len();
    lemma_decimal_text(octet as nat);
    assert forall|i: int| start <= i < end implies is_digit(#[trigger] s[i]) by {
        assert(s[i] == s.subrange(start, end)[i - start]);
        assert(is_digit(numeral[i - start]));
    }
    lemma_digit_run(s, start, end);
}

/// Reading the text of an address yields that address.
pub proof fn lemma_scan_of_text(ip: Ipv4Address)
    ensures
        scanned_address(address_text(ip)) == Some(ip),
{
    let s = address_text(ip);
    let a = decimal_text(ip.0 as nat);
    let b = decimal_text(ip.1 as nat);
    let c = decimal_text(ip.2 as nat);
    let d = decimal_text(ip.3 as nat);
    let dot = seq!['.'];
    lemma_decimal_text(ip.0 as nat);
    lemma_decimal_text(ip.1 as nat);
    lemma_decimal_text(ip.2 as nat);
    lemma_decimal_text(ip.3 as nat);
    let after_a = a.len() as int + 1;
    let after_b = after_a + b.len() + 1;
    let after_c = after_b + c.len() + 1;
    assert(s.len() == after_c + d.len());
    assert(s.subrange(0, after_a - 1) =~= a);
    assert(s[after_a - 1] == '.');
    assert(s.subrange(after_a, after_b - 1) =~= b);
    assert(s[after_b - 1] == '.');
    assert(s.subrange(after_b, after_c - 1) =~= c);
    assert(s[after_c - 1] == '.');
    assert(s.subrange(after_c, s.len() as int) =~= d);
    lemma_octet_read(s, 0, ip.0);
    lemma_octet_read(s, after_a, ip.1);
    lemma_octet_read(s, after_b, ip.2);
    lemma_octet_read(s, after_c, ip.3);
}

/// What is read from a string is an address that the string is the text of.
pub proof fn lemma_text_of_scan(s: Seq<char>)
    requires
        scanned_address(s) is Some,
    ensures
        s == address_text(scanned_address(s)->0),
{
    let (a, after_a) = dotted_octet_at(s, 0)->0;
    let (b, after_b) = dotted_octet_at(s, after_a)->0;
    let (c, after_c) = dotted_octet_at(s, after_b)->0;
    let (d, end) = octet_at(s, after_c)->0;
    lemma_octet_at(s, 0);
    lemma_octet_at(s, after_a);
    lemma_octet_at(s, after_b);
    lemma_octet_at(s, after_c);
    let dot = seq!['.'];
    assert(s =~= s.subrange(0, after_a - 1) + dot + s.subrange(after_a, after_b - 1) + dot + s.subrange(
        after_b,
        after_c - 1,
    ) + dot + s.subrange(after_c, end));
}

/// Two addresses with the same text are the same address.
pub proof fn lemma_address_text_injective(x: Ipv4Address, y: Ipv4Address)
    requires
        address_text(x) == address_text(y),
    ensures
        x == y,
{
    lemma_scan_of_text(x);
    lemma_scan_of_text(y);
}

/// Reading from left to right accepts exactly the texts of addresses, each
/// as the address it is the text of.
pub proof fn lemma_scan_is_inverse(s: Seq<char>)
    ensures
        scanned_address(s) == address_of(s),
{
    if scanned_address(s) is Some {
        lemma_text_of_scan(s);
        let ip = choose|ip: Ipv4Address| s == #[trigger] address_text(ip);
        lemma_address_text_injective(ip, scanned_address(s)->0);
    } else if exists|ip: Ipv4Address| s == #[trigger] address_text(ip) {
        let ip = choose|ip: Ipv4Address| s == #[trigger] address_text(ip);
        lemma_scan_of_text(ip);
    }
}

/// Every address is read back from its own text, and from no other string.
pub proof fn lemma_address_round_trip(ip: Ipv4Address, s: Seq<char>)
    ensures
        address_of(address_text(ip)) == Some(ip),
        address_of(s) == Some(ip) <==> s == address_text(ip),
{
    lemma_scan_is_inverse(address_text(ip));
    lemma_scan_of_text(ip);
    lemma_scan_is_inverse(s);
    if scanned_address(s) is Some {
        lemma_text_of_scan(s);
    }
    if s == address_text(ip) {
        lemma_scan_of_text(ip);
    }
}

/// Reads the octet whose numeral is the run of digits at `start`.
fn read_octet(chars: &[char], start: usize) -> (r: Option<(u8, usize)>)
    requires
        start <= chars@.len(),
    ensures
        match r {
            Some((octet, end)) => octet_at(chars@, start as int) == Some((octet, end as int)),
            None => octet_at(chars@, start as int) is None,
        },
{
    let (end, value) = scan_number(chars, start, 255);
    if end == start {
        return None;
    }
    if end - start > 1 && chars[start] == '0' {
        proof {
            assert(chars@.subrange(start as int, end as int)[0] == chars@[start as int]);
        }
        return None;
    }
    proof {
        lemma_digit_run_end(chars@, start as int);
        let numeral = chars@.subrange(start as int, end as int);
        assert forall|i: int| 0 <= i < numeral.len() implies is_digit(#[trigger] numeral[i]) by {
            assert(numeral[i] == chars@[start + i]);
        }
        assert(numeral[0] == chars@[start as int]);
    }
    match value {
        Some(v) => Some((v as u8, end)),
        None => None,
    }
}

/// Reads the octet at `start` and the dot after it.
fn read_dotted_octet(chars: &[char], start: usize) -> (r: Option<(u8, usize)>)
    requires
        start <= chars@.len(),
    ensures
        match r {
            Some((octet, next)) => dotted_octet_at(chars@, start as int) == Some(
                (octet, next as int),
            ) && next <= chars@.len(),
            None => dotted_octet_at(chars@, start as int) is None,
        },
{
    match read_octet(chars, start) {
        Some((octet, end)) => {
            proof {
                lemma_digit_run_end(chars@, start as int);
            }
            if end < chars.len() && chars[end] == '.' {
                Some((octet, end + 1))
            } else {
                None
            }
        },
        None => None,
    }
}

impl Ipv4Address {
    /// The address whose dotted-decimal text is `s`; `None` where `s` is the
    /// text of no address.
    pub fn parse(s: &str) -> (r: Option<Ipv4Address>)
        ensures
            r == address_of(s@),
            r matches Some(ip) ==> s@ == address_text(ip),
            r is None ==> forall|ip: Ipv4Address| s@ != #[trigger] address_text(ip),
    {
        let chars = chars_of(s);
        proof {
            lemma_scan_is_inverse(chars@);
            if scanned_address(chars@) is Some {
                lemma_text_of_scan(chars@);
            }
        }
        let (a, after_a) = match read_dotted_octet(chars.as_slice(), 0) {
            Some(read) => read,
            None => { return None; },
        };
        let (b, after_b) = match read_dotted_octet(chars.as_slice(), after_a) {
            Some(read) => read,
            None => { return None; },
        };
        let (c, after_c) = match read_dotted_octet(chars.as_slice(), after_b) {
            Some(read) => read,
            None => { return None; },
        };
        let (d, end) = match read_octet(chars.as_slice(), after_c) {
            Some(read) => read,
            None => { return None; },
        };
        if end == chars.len() {
            Some(Ipv4Address(a, b, c, d))
        } else {
            None
        }
    }

    /// The dotted-decimal text of the address.
    pub fn to_text(&self) -> (r: String)
        ensures
            r@ == address_text(*self),
    {
        let mut out = String::new();
        push_decimal(&mut out, self.0 as u16);
        out.push('.');
        push_decimal(&mut out, self.1 as u16);
        out.push('.');
        push_decimal(&mut out, self.2 as u16);
        out.push('.');
        push_decimal(&mut out, self.3 as u16);
        proof {
            assert(out@ =~= address_text(*self));
        }
        out
    }

    /// The octets of the address, first to last.
    pub fn octets(&self) -> (r: [u8; 4])
        ensures
            r@ == seq![self.0, self.1, self.2, self.3],
    {
        [self.0, self.1, self.2, self.3]
    }
}

} // verus!
