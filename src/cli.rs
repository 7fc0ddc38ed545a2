use vstd::prelude::*;
use vstd::string::StrSliceExecFns;

use crate::DEFAULT_PORT;

verus! {

/// Whether `c` is an ASCII decimal digit.
pub open spec fn is_digit(c: char) -> bool {
    '0' <= c && c <= '9'
}

/// The number that the decimal digits `s` spell.
pub open spec fn decimal_value(s: Seq<char>) -> nat
    decreases s.len(),
{
    if s.len() == 0 {
        0
    } else {
        decimal_value(s.drop_last()) * 10 + (s.last() as u32 - 48) as nat
    }
}

/// `s` without one leading `+`, where it has one.
pub open spec fn unsigned_digits(s: Seq<char>) -> Seq<char> {
    if s.len() > 0 && s[0] == '+' {
        s.subrange(1, s.len() as int)
    } else {
        s
    }
}

/// The port that text `s` names: an optional `+` and one or more decimal
/// digits whose value fits in 16 bits. Anything else names none.
pub open spec fn port_of_text(s: Seq<char>) -> Option<u16> {
    let d = unsigned_digits(s);
    if d.len() > 0 && (forall|i: int| 0 <= i < d.len() ==> is_digit(#[trigger] d[i]))
        && decimal_value(d) <= 65535 {
        Some(decimal_value(d) as u16)
    } else {
        None
    }
}

/// The port chosen by command-line arguments `args` (the program name
/// first): `-p <port>` as the first two arguments selects that port where it
/// reads as one; otherwise the default port.
pub open spec fn port_of_args(args: Seq<Seq<char>>) -> u16 {
    if args.len() > 2 && args[1] == seq!['-', 'p'] {
        match port_of_text(args[2]) {
            Some(p) => p,
            None => DEFAULT_PORT,
        }
    } else {
        DEFAULT_PORT
    }
}

proof fn lemma_prefix_value(d: Seq<char>, i: int)
    requires
        0 <= i < d.len(),
    ensures
        decimal_value(d.subrange(0, i + 1)) == decimal_value(d.subrange(0, i)) * 10 + (d[i] as u32
            - 48) as nat,
{
    assert(d.subrange(0, i + 1).drop_last() =~= d.subrange(0, i));
}

proof fn lemma_value_grows(d: Seq<char>, i: int, j: int)
    requires
        0 <= i <= j <= d.len(),
        forall|k: int| 0 <= k < d.len() ==> is_digit(#[trigger] d[k]),
    ensures
        decimal_value(d.subrange(0, i)) <= decimal_value(d.subrange(0, j)),
    decreases j - i,
{
    if i < j {
        lemma_value_grows(d, i, j - 1);
        lemma_prefix_value(d, j - 1);
    }
}

/// Reads a port number written in decimal, with an optional leading `+`.
pub fn parse_port(s: &str) -> (r: Option<u16>)
    ensures
        r == port_of_text(s@),
{
    let n = s.unicode_len();
    let start: usize = if n > 0 && s.get_char(0) == '+' {
        1
    } else {
        0
    };
    let ghost d = unsigned_digits(s@);
    assert(d =~= s@.subrange(start as int, n as int));
    if start == n {
        return None;
    }
    let mut value: u32 = 0;
    let mut i: usize = start;
    while i < n
        invariant
            start <= i <= n,
            n == s@.len(),
            d == s@.subrange(start as int, n as int),
            d == unsigned_digits(s@),
            value <= 65535,
            value == decimal_value(d.subrange(0, i - start)),
            forall|k: int| 0 <= k < i - start ==> is_digit(#[trigger] d[k]),
        decreases n - i,
    {
        let c = s.get_char(i);
        assert(d[i - start] == c);
        if !('0' <= c && c <= '9') {
            assert(!is_digit(d[i - start]));
            return None;
        }
        proof {
            lemma_prefix_value(d, i - start);
        }
        value = value * 10 + (c as u32 - 48);
        if value > 65535 {
            proof {
                assert(d.subrange(0, i - start + 1) == d.subrange(0, (i + 1) - start));
                if forall|k: int| 0 <= k < d.len() ==> is_digit(#[trigger] d[k]) {
                    lemma_value_grows(d, i + 1 - start, d.len() as int);
                    assert(d.subrange(0, d.len() as int) =~= d);
                }
            }
            return None;
        }
        i = i + 1;
    }
    assert(d.subrange(0, n - start) =~= d);
    Some(value as u16)
}

/// Whether `s` is the option `-p`.
fn is_port_flag(s: &str) -> (r: bool)
    ensures
        r == (s@ == seq!['-', 'p']),
{
    let n = s.unicode_len();
    if n != 2 {
        return false;
    }
    let r = s.get_char(0) == '-' && s.get_char(1) == 'p';
    proof {
        if r {
            assert(s@ =~= seq!['-', 'p']);
        }
    }
    r
}

/// The port to listen on, chosen by command-line arguments `args` (the
/// program name first).
pub fn port_from_args(args: &Vec<String>) -> (r: u16)
    ensures
        r == port_of_args(args@.map_values(|a: String| a@)),
{
    let ghost texts = args@.map_values(|a: String| a@);
    if args.len() > 2 && is_port_flag(args[1].as_str()) {
        assert(texts[1] == args@[1]@);
        assert(texts[2] == args@[2]@);
        match parse_port(args[2].as_str()) {
            Some(p) => p,
            None => DEFAULT_PORT,
        }
    } else {
        proof {
            if args.len() > 2 {
                assert(texts[1] == args@[1]@);
            }
        }
        DEFAULT_PORT
    }
}

} // verus!
