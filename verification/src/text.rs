//! Text: the operations on strings that the proxy's rules are written in.

use vstd::prelude::*;
use vstd::string::*;
use vstd::utf8::*;

verus! {

/// `c` with the letters `A` to `Z` replaced by `a` to `z`.
pub open spec fn ascii_lower(c: char) -> char {
    if 'A' <= c <= 'Z' {
        (c as u32 + 32) as char
    } else {
        c
    }
}

/// `s` with every ASCII letter in lower case.
pub open spec fn lowercase(s: Seq<char>) -> Seq<char> {
    s.map_values(|c: char| ascii_lower(c))
}

/// Whether `s` ends in `suffix`.
pub open spec fn ends_in(s: Seq<char>, suffix: Seq<char>) -> bool {
    &&& suffix.len() <= s.len()
    &&& s.skip(s.len() - suffix.len()) == suffix
}

/// `s` without the occurrences of `c` at its end.
pub open spec fn trim_end(s: Seq<char>, c: char) -> Seq<char>
    decreases s.len(),
{
    if s.len() > 0 && s.last() == c {
        trim_end(s.drop_last(), c)
    } else {
        s
    }
}

/// The pieces of `s` between the occurrences of `separator`, in order.
pub open spec fn split(s: Seq<char>, separator: char) -> Seq<Seq<char>>
    decreases s.len(),
{
    match s.index_of_first(separator) {
        Some(i) => {
            proof {
                s.index_of_first_ensures(separator);
            }
            seq![s.take(i)] + split(s.skip(i + 1), separator)
        },
        None => seq![s],
    }
}

/// The decimal digit for `n`.
pub open spec fn digit(n: nat) -> char {
    (48 + n) as char
}

/// `n` in decimal, without leading zeros.
pub open spec fn decimal(n: nat) -> Seq<char>
    decreases n,
{
    if n < 10 {
        seq![digit(n)]
    } else {
        decimal(n / 10).push(digit(n % 10))
    }
}

/// `host` and `port` as they stand in an address: `host:port`.
pub open spec fn host_and_port(host: Seq<char>, port: u16) -> Seq<char> {
    host + seq![':'] + decimal(port as nat)
}

/// The characters of `s`, in order.
pub fn chars_of(s: &str) -> (r: Vec<char>)
    ensures
        r@ == s@,
{
    let mut r: Vec<char> = Vec::new();
    for c in it: s.chars()
        invariant
            it.seq() == s@,
            r@ == s@.take(it.index() as int),
    {
        r.push(c);
    }
    r
}

/// Whether `a` and `b` are the same text.
pub fn same(a: &str, b: &str) -> (r: bool)
    ensures
        r == (a@ == b@),
{
    broadcast use encode_utf8_decode_utf8;

    let x = a.as_bytes();
    let y = b.as_bytes();
    assert(decode_utf8(x@) == a@);
    assert(decode_utf8(y@) == b@);
    if x.len() != y.len() {
        return false;
    }
    let mut i: usize = 0;
    while i < x.len()
        invariant
            x@ == encode_utf8(a@),
            y@ == encode_utf8(b@),
            x@.len() == y@.len(),
            i <= x@.len(),
            x@.take(i as int) == y@.take(i as int),
        decreases x@.len() - i,
    {
        if x[i] != y[i] {
            assert(x@ != y@);
            return false;
        }
        assert(x@.take(i + 1) == x@.take(i as int).push(x@[i as int]));
        assert(y@.take(i + 1) == y@.take(i as int).push(y@[i as int]));
        i += 1;
    }
    assert(x@.take(i as int) == x@);
    assert(y@.take(i as int) == y@);
    true
}

/// Whether `s` ends in `suffix`.
pub fn has_suffix(s: &str, suffix: &str) -> (r: bool)
    ensures
        r == ends_in(s@, suffix@),
{
    let x = chars_of(s);
    let y = chars_of(suffix);
    if y.len() > x.len() {
        return false;
    }
    let from: usize = x.len() - y.len();
    assert(s@.skip(from as int) == s@.subrange(from as int, s@.len() as int));
    same_range(&x, from, x.len(), &y)
}

/// `s` without the occurrences of `c` at its end.
pub fn trimmed_end(s: &str, c: char) -> (r: &str)
    ensures
        r@ == trim_end(s@, c),
{
    let x = chars_of(s);
    let mut n: usize = x.len();
    assert(s@.take(n as int) == s@);
    while n > 0 && x[n - 1] == c
        invariant
            n <= x@.len(),
            x@ == s@,
            trim_end(s@, c) == trim_end(s@.take(n as int), c),
        decreases n,
    {
        assert(s@.take(n as int).drop_last() == s@.take(n - 1));
        n -= 1;
    }
    s.substring_char(0, n)
}

/// A text without the separator is its own only piece.
pub proof fn lemma_split_none(s: Seq<char>, separator: char)
    requires
        !s.contains(separator),
    ensures
        split(s, separator) == seq![s],
{
    s.index_of_first_ensures(separator);
}

/// Up to its first separator, a text is its own first piece.
pub proof fn lemma_split_first(s: Seq<char>, separator: char, i: int)
    requires
        0 <= i < s.len(),
        s[i] == separator,
        !s.take(i).contains(separator),
    ensures
        split(s, separator) == seq![s.take(i)] + split(s.skip(i + 1), separator),
{
    assert(s.contains(separator));
    s.index_of_first_ensures(separator);
    let j = s.index_of_first(separator)->0;
    if j < i {
        assert(s.take(i)[j] == separator);
    }
}

/// Whether one of the pieces of `s` between the occurrences of `separator` is `piece`.
pub fn has_piece(s: &str, separator: char, piece: &str) -> (r: bool)
    ensures
        r == split(s@, separator).contains(piece@),
{
    let x = chars_of(s);
    let y = chars_of(piece);
    let mut start: usize = 0;
    assert(s@.skip(0) == s@);
    loop
        invariant
            x@ == s@,
            y@ == piece@,
            start <= x@.len(),
            split(s@, separator).contains(piece@) == split(
                s@.skip(start as int),
                separator,
            ).contains(piece@),
        decreases x@.len() - start,
    {
        let end = next_separator(&x, start, separator);
        let found = same_range(&x, start, end, &y);
        let ghost rest = s@.skip(start as int);
        assert(rest.take(end - start) == s@.subrange(start as int, end as int));
        if end == x.len() {
            proof {
                assert(rest.take(end - start) == rest);
                lemma_split_none(rest, separator);
                assert(seq![rest][0] == rest);
                assert(seq![rest].contains(piece@) == (rest == piece@));
            }
            return found;
        }
        proof {
            lemma_split_first(rest, separator, end - start);
            assert(rest.skip(end - start + 1) == s@.skip(end + 1));
            lemma_contains_first(
                rest.take(end - start),
                split(s@.skip(end + 1), separator),
                piece@,
            );
        }
        if found {
            return true;
        }
        start = end + 1;
    }
}

/// The first place from `start` on where `x` holds `separator`, or its length.
fn next_separator(x: &Vec<char>, start: usize, separator: char) -> (end: usize)
    requires
        start <= x@.len(),
    ensures
        start <= end <= x@.len(),
        !x@.subrange(start as int, end as int).contains(separator),
        end < x@.len() ==> x@[end as int] == separator,
{
    let mut end: usize = start;
    while end < x.len() && x[end] != separator
        invariant
            start <= end <= x@.len(),
            forall|k: int| start <= k < end ==> x@[k] != separator,
        decreases x@.len() - end,
    {
        end += 1;
    }
    end
}

/// Whether `x` holds exactly `y` from `start` to `end`.
fn same_range(x: &Vec<char>, start: usize, end: usize, y: &Vec<char>) -> (r: bool)
    requires
        start <= end <= x@.len(),
    ensures
        r == (x@.subrange(start as int, end as int) == y@),
{
    if end - start != y.len() {
        return false;
    }
    let mut i: usize = 0;
    while i < y.len()
        invariant
            start + y@.len() == end,
            end <= x@.len(),
            i <= y@.len(),
            forall|k: int| 0 <= k < i ==> x@[start + k] == y@[k],
        decreases y@.len() - i,
    {
        assert(start + i < x.len());
        if x[start + i] != y[i] {
            assert(x@.subrange(start as int, end as int)[i as int] != y@[i as int]);
            return false;
        }
        i += 1;
    }
    assert(x@.subrange(start as int, end as int) =~= y@);
    true
}

proof fn lemma_contains_first<A>(a: A, b: Seq<A>, p: A)
    ensures
        (seq![a] + b).contains(p) == (a == p || b.contains(p)),
{
    let c = seq![a] + b;
    if a == p {
        assert(c[0] == p);
    }
    if b.contains(p) {
        let k = choose|k: int| 0 <= k < b.len() && b[k] == p;
        assert(c[k + 1] == p);
    }
    if c.contains(p) {
        let k = choose|k: int| 0 <= k < c.len() && c[k] == p;
        if k > 0 {
            assert(b[k - 1] == p);
        }
    }
}

fn digit_str(n: u16) -> (r: &'static str)
    requires
        n < 10,
    ensures
        r@ == seq![digit(n as nat)],
{
    let r = match n {
        0 => "0",
        1 => "1",
        2 => "2",
        3 => "3",
        4 => "4",
        5 => "5",
        6 => "6",
        7 => "7",
        8 => "8",
        _ => "9",
    };
    proof {
        reveal_strlit("0");
        reveal_strlit("1");
        reveal_strlit("2");
        reveal_strlit("3");
        reveal_strlit("4");
        reveal_strlit("5");
        reveal_strlit("6");
        reveal_strlit("7");
        reveal_strlit("8");
        reveal_strlit("9");
    }
    assert(r@ =~= seq![digit(n as nat)]);
    r
}

/// `n` in decimal.
pub fn decimal_of(n: u16) -> (r: String)
    ensures
        r@ == decimal(n as nat),
    decreases n,
{
    let mut r = String::new();
    if n >= 10 {
        r = decimal_of(n / 10);
    }
    r.append(digit_str(n % 10));
    assert(r@ =~= decimal(n as nat));
    r
}

/// `host:port`.
pub fn join_host_and_port(host: &str, port: u16) -> (r: String)
    ensures
        r@ == host_and_port(host@, port),
{
    let mut r = host.to_owned();
    proof {
        reveal_strlit(":");
    }
    r.append(":");
    r.append(decimal_of(port).as_str());
    assert(r@ =~= host_and_port(host@, port));
    r
}

} // verus!
