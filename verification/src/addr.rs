//! Address validation: parsing a host string as an IPv4 literal.
//!
//! A probe can only be launched at a connectable address, and the one
//! host form the scanner itself understands is the dotted-quad IPv4
//! literal: four decimal octets, each `0` to `255` with no leading
//! zero, separated by single dots. [`parse_ipv4`] checks a host string
//! against that form and yields the four octet values; a host that does
//! not parse makes every probe of it an invalid-address outcome.

use vstd::prelude::*;

verus! {

/// The value of a decimal digit character.
pub open spec fn digit_val(c: char) -> int {
    (c as u32) - ('0' as u32)
}

/// Whether `c` is a decimal digit.
pub open spec fn is_digit(c: char) -> bool {
    ('0' as u32) <= (c as u32) <= ('9' as u32)
}

/// Whether every character of `s` is a decimal digit.
pub open spec fn all_digits(s: Seq<char>) -> bool {
    forall|i: int| 0 <= i < s.len() ==> is_digit(#[trigger] s[i])
}

/// The decimal value of a digit string of up to three characters.
pub open spec fn octet_val(s: Seq<char>) -> int {
    if s.len() == 1 {
        digit_val(s[0])
    } else if s.len() == 2 {
        10 * digit_val(s[0]) + digit_val(s[1])
    } else if s.len() == 3 {
        100 * digit_val(s[0]) + 10 * digit_val(s[1]) + digit_val(s[2])
    } else {
        0
    }
}

/// Whether `s` writes one octet of a dotted quad: one to three decimal
/// digits, no leading zero, value at most 255.
pub open spec fn octet_str_valid(s: Seq<char>) -> bool {
    &&& 1 <= s.len() <= 3
    &&& all_digits(s)
    &&& (s.len() > 1 ==> s[0] != '0')
    &&& octet_val(s) <= 255
}

/// `s` split at every dot: the sub-strings between dots, in order,
/// empty ones included. A string without dots is one part; every dot
/// starts a new part, so there is always one part more than there are
/// dots.
pub open spec fn split_dots(s: Seq<char>) -> Seq<Seq<char>>
    decreases s.len(),
{
    if s.len() == 0 {
        seq![Seq::empty()]
    } else {
        let rest = split_dots(s.drop_last());
        if s.last() == '.' {
            rest.push(Seq::empty())
        } else {
            rest.update(rest.len() - 1, rest.last().push(s.last()))
        }
    }
}

/// Whether `s` is an IPv4 literal: exactly four parts between dots,
/// each a valid octet string.
pub open spec fn is_ipv4_literal(s: Seq<char>) -> bool {
    &&& split_dots(s).len() == 4
    &&& forall|k: int| 0 <= k < 4 ==> octet_str_valid(#[trigger] split_dots(s)[k])
}

/// The four octet values of a parsed IPv4 literal.
#[derive(Clone, Copy, PartialEq, Eq, Structural, Debug)]
pub struct Ipv4Octets {
    /// The first octet.
    pub a: u8,
    /// The second octet.
    pub b: u8,
    /// The third octet.
    pub c: u8,
    /// The fourth octet.
    pub d: u8,
}

/// The value of `c` as a decimal digit, or nothing when it is none.
fn digit(c: char) -> (r: Option<u8>)
    ensures
        r is Some <==> is_digit(c),
        r matches Some(v) ==> v as int == digit_val(c),
{
    let u = c as u32;
    if '0' as u32 <= u && u <= '9' as u32 {
        Some((u - '0' as u32) as u8)
    } else {
        None
    }
}

/// The value of one part of a dotted quad, or nothing when the part is
/// not a valid octet string.
fn octet_parse(part: &Vec<char>) -> (r: Option<u8>)
    ensures
        r is Some <==> octet_str_valid(part@),
        r matches Some(v) ==> v as int == octet_val(part@),
{
    if part.len() == 1 {
        digit(part[0])
    } else if part.len() == 2 {
        match (digit(part[0]), digit(part[1])) {
            (Some(d0), Some(d1)) => {
                if part[0] != '0' {
                    Some(10 * d0 + d1)
                } else {
                    None
                }
            },
            _ => None,
        }
    } else if part.len() == 3 {
        match (digit(part[0]), digit(part[1]), digit(part[2])) {
            (Some(d0), Some(d1), Some(d2)) => {
                let v: u32 = 100 * (d0 as u32) + 10 * (d1 as u32) + (d2 as u32);
                if part[0] != '0' && v <= 255 {
                    Some(v as u8)
                } else {
                    None
                }
            },
            _ => None,
        }
    } else {
        None
    }
}

/// The views of a vector of character-vector parts.
pub open spec fn part_views(parts: Seq<Vec<char>>) -> Seq<Seq<char>> {
    Seq::new(parts.len(), |k: int| parts[k]@)
}

/// Splits a host string at every dot.
fn split_host(host: &str) -> (parts: Vec<Vec<char>>)
    ensures
        part_views(parts@) == split_dots(host@),
        parts@.len() > 0,
{
    let n = host.unicode_len();
    let mut parts: Vec<Vec<char>> = Vec::new();
    parts.push(Vec::new());
    proof {
        assert(part_views(parts@) =~~= split_dots(host@.take(0)));
    }
    let mut i: usize = 0;
    while i < n
        invariant
            i <= n,
            n == host@.len(),
            parts@.len() > 0,
            part_views(parts@) == split_dots(host@.take(i as int)),
        decreases n - i,
    {
        proof {
            assert(host@.take(i as int + 1).drop_last() =~= host@.take(i as int));
            assert(host@.take(i as int + 1).last() == host@[i as int]);
        }
        let c = host.get_char(i);
        if c == '.' {
            parts.push(Vec::new());
        } else {
            let mut curr = parts.pop().unwrap();
            curr.push(c);
            parts.push(curr);
        }
        proof {
            assert(part_views(parts@) =~~= split_dots(host@.take(i as int + 1)));
        }
        i = i + 1;
    }
    proof {
        assert(host@.take(n as int) =~= host@);
    }
    parts
}

/// Parses a host string as an IPv4 literal, yielding its four octet
/// values exactly when the string has that form.
pub fn parse_ipv4(host: &str) -> (r: Option<Ipv4Octets>)
    ensures
        r is Some <==> is_ipv4_literal(host@),
        r matches Some(o) ==> {
            &&& o.a as int == octet_val(split_dots(host@)[0])
            &&& o.b as int == octet_val(split_dots(host@)[1])
            &&& o.c as int == octet_val(split_dots(host@)[2])
            &&& o.d as int == octet_val(split_dots(host@)[3])
        },
{
    let parts = split_host(host);
    if parts.len() != 4 {
        proof {
            assert(split_dots(host@).len() != 4);
        }
        return None;
    }
    proof {
        assert(parts@[0]@ == split_dots(host@)[0]);
        assert(parts@[1]@ == split_dots(host@)[1]);
        assert(parts@[2]@ == split_dots(host@)[2]);
        assert(parts@[3]@ == split_dots(host@)[3]);
    }
    let r = match (
        octet_parse(&parts[0]),
        octet_parse(&parts[1]),
        octet_parse(&parts[2]),
        octet_parse(&parts[3]),
    ) {
        (Some(a), Some(b), Some(c), Some(d)) => Some(Ipv4Octets { a, b, c, d }),
        _ => None,
    };
    proof {
        if r is Some {
            assert forall|k: int| 0 <= k < 4 implies octet_str_valid(
                #[trigger] split_dots(host@)[k],
            ) by {
                if k == 0 {
                    assert(octet_str_valid(split_dots(host@)[0]));
                } else if k == 1 {
                    assert(octet_str_valid(split_dots(host@)[1]));
                } else if k == 2 {
                    assert(octet_str_valid(split_dots(host@)[2]));
                } else {
                    assert(octet_str_valid(split_dots(host@)[3]));
                }
            }
        }
    }
    r
}

/// Whether a host string and a port number form a connectable probe
/// address: the host an IPv4 literal, the port within the TCP range.
pub fn address_ok(host: &str, port: u32) -> (r: bool)
    ensures
        r == (is_ipv4_literal(host@) && port <= 65535),
{
    let parsed = parse_ipv4(host);
    parsed.is_some() && port <= 65535
}

} // verus!
