//! Small utilities of the framework around the synchronizer.
use vstd::prelude::*;
use vstd::string::*;

verus! {

pub open spec fn is_digit(c: char) -> bool {
    48 <= (c as u32) && (c as u32) <= 57
}

/// The number that the decimal digits `d` spell.
pub open spec fn digits_value(d: Seq<char>) -> int
    decreases d.len(),
{
    if d.len() == 0 {
        0
    } else {
        digits_value(d.drop_last()) * 10 + (d.last() as u32 - 48)
    }
}

/// The digits of a port, after an optional leading `+`.
pub open spec fn port_digits(s: Seq<char>) -> Seq<char> {
    if s.len() > 0 && s[0] == '+' {
        s.drop_first()
    } else {
        s
    }
}

/// The port that `s` spells: an optional `+`, then one or more decimal
/// digits whose value fits in 16 bits.
pub open spec fn port_value(s: Seq<char>) -> Option<int> {
    let d = port_digits(s);
    if d.len() > 0 && (forall|i: int| 0 <= i < d.len() ==> #[trigger] is_digit(d[i])) && digits_value(d) <= 65535 {
        Some(digits_value(d))
    } else {
        None
    }
}

/// The position of the first `:` in `s` at or after `from`, or its length.
pub open spec fn next_colon(s: Seq<char>, from: int) -> int
    decreases s.len() - from,
{
    if from < 0 || from >= s.len() {
        s.len() as int
    } else if s[from] == ':' {
        from
    } else {
        next_colon(s, from + 1)
    }
}

proof fn lemma_next_colon(s: Seq<char>, from: int)
    requires
        0 <= from <= s.len(),
    ensures
        from <= next_colon(s, from) <= s.len(),
        next_colon(s, from) < s.len() ==> s[next_colon(s, from)] == ':',
    decreases s.len() - from,
{
    if from < s.len() && s[from] != ':' {
        lemma_next_colon(s, from + 1);
    }
}

proof fn lemma_digits_nonneg(d: Seq<char>)
    requires
        forall|i: int| 0 <= i < d.len() ==> #[trigger] is_digit(d[i]),
    ensures
        digits_value(d) >= 0,
    decreases d.len(),
{
    if d.len() > 0 {
        assert forall|i: int| 0 <= i < d.drop_last().len() implies #[trigger] is_digit(d.drop_last()[i]) by {
            assert(d.drop_last()[i] == d[i]);
        }
        lemma_digits_nonneg(d.drop_last());
        assert(is_digit(d[d.len() - 1]));
    }
}

/// Reads a port number: an optional `+`, then decimal digits, at most 65535.
pub fn parse_port(s: &str) -> (r: Option<u16>)
    ensures
        r matches Some(p) ==> port_value(s@) == Some(p as int),
        r is None ==> port_value(s@) is None,
{
    let n = s.unicode_len();
    let mut i: usize = 0;
    if n > 0 && s.get_char(0) == '+' {
        i = 1;
    }
    let start = i;
    let ghost d = port_digits(s@);
    assert(d =~= s@.subrange(start as int, n as int));
    if start == n {
        return None;
    }
    let mut value: u32 = 0;
    let mut over = false;
    while i < n
        invariant
            n == s@.len(),
            start <= i <= n,
            d == s@.subrange(start as int, n as int),
            d == port_digits(s@),
            forall|q: int| 0 <= q < i - start ==> #[trigger] is_digit(d[q]),
            !over ==> value == digits_value(d.subrange(0, i - start)),
            over ==> digits_value(d.subrange(0, i - start)) > 65535,
            value <= 65535,
        decreases n - i,
    {
        let c = s.get_char(i);
        let cu = c as u32;
        if !(48 <= cu && cu <= 57) {
            assert(d[i - start] == s@[i as int]);
            assert(!is_digit(d[i - start]));
            assert(!(forall|q: int| 0 <= q < d.len() ==> #[trigger] is_digit(d[q])));
            return None;
        }
        let ghost pre = d.subrange(0, i - start);
        assert(d.subrange(0, i + 1 - start).drop_last() =~= pre);
        assert(d.subrange(0, i + 1 - start).last() == c);
        proof {
            lemma_digits_nonneg(pre);
        }
        if !over {
            let next = value * 10 + (cu - 48);
            if next > 65535 {
                over = true;
            } else {
                value = next;
            }
        } else {
            assert(digits_value(pre) * 10 >= digits_value(pre)) by (nonlinear_arith)
                requires
                    digits_value(pre) >= 0,
            ;
        }
        i = i + 1;
    }
    assert(d.subrange(0, n - start) =~= d);
    if over {
        None
    } else {
        Some(value as u16)
    }
}

/// The host of `addr`: everything before its first `:`, or all of it.
pub open spec fn host_of(addr: Seq<char>) -> Seq<char> {
    addr.subrange(0, next_colon(addr, 0))
}

/// The port of `addr`: what lies between its first and second `:` read as a
/// port, 0 where that is no port or `addr` holds no `:`.
pub open spec fn port_of(addr: Seq<char>) -> int {
    let c = next_colon(addr, 0);
    if c >= addr.len() {
        0
    } else {
        match port_value(addr.subrange(c + 1, next_colon(addr, c + 1))) {
            Some(p) => p,
            None => 0,
        }
    }
}

/// Splits `host:port` into its host and its port.
pub fn split_host_and_port(addr: &str) -> (r: (&str, u16))
    ensures
        r.0@ == host_of(addr@),
        r.1 as int == port_of(addr@),
{
    let n = addr.unicode_len();
    let ghost s = addr@;
    let mut c: usize = 0;
    while c < n && addr.get_char(c) != ':'
        invariant
            n == s.len(),
            s == addr@,
            c <= n,
            next_colon(s, 0) == next_colon(s, c as int),
        decreases n - c,
    {
        c = c + 1;
    }
    if c >= n {
        assert(s.subrange(0, n as int) =~= s);
        return (addr, 0);
    }
    let mut e: usize = c + 1;
    while e < n && addr.get_char(e) != ':'
        invariant
            n == s.len(),
            s == addr@,
            c < e <= n,
            next_colon(s, c + 1) == next_colon(s, e as int),
        decreases n - e,
    {
        e = e + 1;
    }
    let port = match parse_port(addr.substring_char(c + 1, e)) {
        Some(p) => p,
        None => 0,
    };
    (addr.substring_char(0, c), port)
}

} // verus!
