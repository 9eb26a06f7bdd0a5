//! Character-level building blocks: conversions between strings and character
//! vectors, decimal numerals, ASCII case mapping and lexicographic order.

use vstd::prelude::*;

verus! {

/// Appends one character to a string, by `String::push` of the standard
/// library. The contract is believed, not proved: it claims that the string
/// afterwards is the string before with the given character at its end, and
/// nothing else changed.
#[verifier::external_body]
fn push_char(s: &mut String, c: char)
    ensures
        final(s)@ == old(s)@.push(c),
{
    s.push(c)
}

/// The characters of a string, in order.
pub fn to_chars(s: &str) -> (v: Vec<char>)
    ensures
        v@ == s@,
{
    let mut v: Vec<char> = Vec::new();
    for c in it: s.chars()
        invariant
            v@ == s@.take(it.index@),
            it.seq() == s@,
    {
        v.push(c);
    }
    v
}

/// The string made of the given characters, in order.
pub fn to_text(v: &Vec<char>) -> (s: String)
    ensures
        s@ == v@,
{
    let mut s = String::new();
    let mut i: usize = 0;
    while i < v.len()
        invariant
            i <= v.len(),
            s@ == v@.take(i as int),
        decreases v.len() - i,
    {
        push_char(&mut s, v[i]);
        i += 1;
    }
    s
}

/// Appends every character of `extra` to `out`.
pub fn push_all(out: &mut Vec<char>, extra: &Vec<char>)
    ensures
        final(out)@ == old(out)@ + extra@,
{
    let mut i: usize = 0;
    while i < extra.len()
        invariant
            i <= extra.len(),
            out@ == old(out)@ + extra@.take(i as int),
        decreases extra.len() - i,
    {
        out.push(extra[i]);
        i += 1;
    }
}

/// Appends every character of the string `extra` to `out`.
pub fn push_str(out: &mut Vec<char>, extra: &str)
    ensures
        final(out)@ == old(out)@ + extra@,
{
    let chars = to_chars(extra);
    push_all(out, &chars);
}

/// Whether two character vectors hold the same characters.
pub fn same_chars(x: &Vec<char>, y: &Vec<char>) -> (r: bool)
    ensures
        r == (x@ == y@),
{
    if x.len() != y.len() {
        return false;
    }
    let mut i: usize = 0;
    while i < x.len()
        invariant
            i <= x.len(),
            x.len() == y.len(),
            x@.take(i as int) == y@.take(i as int),
        decreases x.len() - i,
    {
        if x[i] != y[i] {
            return false;
        }
        proof {
            assert(x@.take(i + 1) == x@.take(i as int).push(x@[i as int]));
            assert(y@.take(i + 1) == y@.take(i as int).push(y@[i as int]));
        }
        i += 1;
    }
    proof {
        assert(x@.take(x.len() as int) == x@);
        assert(y@.take(y.len() as int) == y@);
    }
    true
}

/// The character that writes a single decimal digit.
pub open spec fn digit_char(d: int) -> char {
    if d == 0 {
        '0'
    } else if d == 1 {
        '1'
    } else if d == 2 {
        '2'
    } else if d == 3 {
        '3'
    } else if d == 4 {
        '4'
    } else if d == 5 {
        '5'
    } else if d == 6 {
        '6'
    } else if d == 7 {
        '7'
    } else if d == 8 {
        '8'
    } else {
        '9'
    }
}

/// The decimal numeral of a natural number, without leading zeros.
pub open spec fn digits(n: nat) -> Seq<char>
    decreases n,
{
    if n < 10 {
        seq![digit_char(n as int)]
    } else {
        digits(n / 10).push(digit_char((n % 10) as int))
    }
}

/// The value of a decimal digit; zero for any other character.
pub open spec fn digit_value(c: char) -> nat {
    if c == '1' {
        1
    } else if c == '2' {
        2
    } else if c == '3' {
        3
    } else if c == '4' {
        4
    } else if c == '5' {
        5
    } else if c == '6' {
        6
    } else if c == '7' {
        7
    } else if c == '8' {
        8
    } else if c == '9' {
        9
    } else {
        0
    }
}

/// The number that a decimal numeral writes.
pub open spec fn numeral_value(s: Seq<char>) -> nat
    decreases s.len(),
{
    if s.len() == 0 {
        0
    } else {
        10 * numeral_value(s.drop_last()) + digit_value(s.last())
    }
}

/// A numeral writes its number: it has a digit at least, it begins with a
/// zero only where the number is below ten, and read as a decimal numeral it
/// gives the number back.
pub proof fn digits_write_the_number(n: nat)
    ensures
        digits(n).len() >= 1,
        n >= 10 ==> digits(n)[0] != '0',
        numeral_value(digits(n)) == n,
    decreases n,
{
    if n < 10 {
        assert(digits(n).drop_last() =~= Seq::<char>::empty());
        assert(numeral_value(digits(n).drop_last()) == 0);
    } else {
        digits_write_the_number(n / 10);
        let head = digits(n / 10);
        assert(digits(n).drop_last() =~= head);
        assert(digits(n)[0] == head[0]);
        if n / 10 < 10 {
            assert(head[0] == digit_char((n / 10) as int));
        }
    }
}

/// The decimal numeral of an integer, with a leading minus sign when negative.
pub open spec fn int_text(i: int) -> Seq<char> {
    if i < 0 {
        seq!['-'] + digits((-i) as nat)
    } else {
        digits(i as nat)
    }
}

/// The decimal numeral of `n`, padded on the left with zeros to `width` digits.
pub open spec fn padded_digits(n: nat, width: nat) -> Seq<char>
    decreases width,
{
    if width == 0 {
        Seq::<char>::empty()
    } else {
        padded_digits(n / 10, (width - 1) as nat).push(digit_char((n % 10) as int))
    }
}

/// The character of one decimal digit.
pub(crate) fn digit_of(d: u8) -> (c: char)
    requires
        d < 10,
    ensures
        c == digit_char(d as int),
{
    if d == 0 {
        '0'
    } else if d == 1 {
        '1'
    } else if d == 2 {
        '2'
    } else if d == 3 {
        '3'
    } else if d == 4 {
        '4'
    } else if d == 5 {
        '5'
    } else if d == 6 {
        '6'
    } else if d == 7 {
        '7'
    } else if d == 8 {
        '8'
    } else {
        '9'
    }
}

/// Appends the decimal numeral of `n`.
pub fn push_u128(out: &mut Vec<char>, n: u128)
    ensures
        final(out)@ == old(out)@ + digits(n as nat),
{
    let mut buf: Vec<char> = Vec::new();
    let mut cur: u128 = n / 10;
    buf.push(digit_of((n % 10) as u8));
    let ghost mut tail: Seq<char> = seq![digit_char((n % 10) as int)];
    while cur > 0
        invariant
            tail.len() == buf.len(),
            forall|k: int| 0 <= k < tail.len() ==> tail[k] == buf@[buf.len() - 1 - k],
            digits(n as nat) == (if cur > 0 {
                digits(cur as nat)
            } else {
                Seq::<char>::empty()
            }) + tail,
        decreases cur,
    {
        let d = digit_of((cur % 10) as u8);
        buf.push(d);
        proof {
            let next = seq![d] + tail;
            if cur >= 10 {
                assert(digits(cur as nat) == digits((cur / 10) as nat).push(d));
                assert(digits((cur / 10) as nat).push(d) + tail == digits((cur / 10) as nat)
                    + next);
            } else {
                assert(digits(cur as nat) == seq![d]);
                assert(Seq::<char>::empty() + next == next);
            }
            tail = next;
        }
        cur = cur / 10;
    }
    let mut j: usize = 0;
    let len: usize = buf.len();
    while j < len
        invariant
            j <= len,
            len == buf.len(),
            tail.len() == len,
            forall|k: int| 0 <= k < tail.len() ==> tail[k] == buf@[buf.len() - 1 - k],
            out@ == old(out)@ + tail.take(j as int),
        decreases len - j,
    {
        out.push(buf[len - 1 - j]);
        proof {
            assert(tail.take(j + 1) == tail.take(j as int).push(tail[j as int]));
        }
        j += 1;
    }
    proof {
        assert(tail.take(len as int) == tail);
        assert(Seq::<char>::empty() + tail == tail);
    }
}

/// Appends the decimal numeral of `n`.
pub fn push_u64(out: &mut Vec<char>, n: u64)
    ensures
        final(out)@ == old(out)@ + digits(n as nat),
{
    push_u128(out, n as u128);
}

/// Appends the decimal numeral of `v`, with a minus sign when it is negative.
pub fn push_i64(out: &mut Vec<char>, v: i64)
    ensures
        final(out)@ == old(out)@ + int_text(v as int),
{
    if v < 0 {
        out.push('-');
        let magnitude: u64 = if v == i64::MIN {
            9223372036854775808u64
        } else {
            (-v) as u64
        };
        push_u64(out, magnitude);
        proof {
            assert(old(out)@.push('-') + digits((-v) as nat) == old(out)@ + (seq!['-'] + digits(
                (-v) as nat,
            )));
        }
    } else {
        push_u64(out, v as u64);
    }
}

/// Appends the numeral of `n` in exactly `width` digits, zero-padded on the
/// left (and cut to its last `width` digits if it is longer).
pub fn push_padded(out: &mut Vec<char>, n: u64, width: usize)
    ensures
        final(out)@ == old(out)@ + padded_digits(n as nat, width as nat),
    decreases width,
{
    if width > 0 {
        push_padded(out, n / 10, width - 1);
        out.push(digit_of((n % 10) as u8));
        proof {
            let head = padded_digits((n / 10) as nat, (width - 1) as nat);
            let d = digit_char((n % 10) as int);
            assert((old(out)@ + head).push(d) == old(out)@ + head.push(d));
        }
    } else {
        proof {
            assert(old(out)@ + Seq::<char>::empty() == old(out)@);
        }
    }
}

/// The upper-case form of an ASCII letter; any other character is unchanged.
pub open spec fn upper_char(c: char) -> char {
    if 'a' <= c && c <= 'z' {
        ((c as u8) - 32) as char
    } else {
        c
    }
}

/// The lower-case form of an ASCII letter; any other character is unchanged.
pub open spec fn lower_char(c: char) -> char {
    if 'A' <= c && c <= 'Z' {
        ((c as u8) + 32) as char
    } else {
        c
    }
}

/// A text with each ASCII letter in upper case.
pub open spec fn upper(s: Seq<char>) -> Seq<char> {
    Seq::new(s.len(), |i: int| upper_char(s[i]))
}

/// A text with each ASCII letter in lower case.
pub open spec fn lower(s: Seq<char>) -> Seq<char> {
    Seq::new(s.len(), |i: int| lower_char(s[i]))
}

/// The upper-case form of one character.
pub fn to_upper_char(c: char) -> (r: char)
    ensures
        r == upper_char(c),
{
    if 'a' <= c && c <= 'z' {
        ((c as u8) - 32) as char
    } else {
        c
    }
}

/// The lower-case form of one character.
pub fn to_lower_char(c: char) -> (r: char)
    ensures
        r == lower_char(c),
{
    if 'A' <= c && c <= 'Z' {
        ((c as u8) + 32) as char
    } else {
        c
    }
}

/// The characters of `s` with each ASCII letter in upper case.
pub fn to_upper(s: &Vec<char>) -> (r: Vec<char>)
    ensures
        r@ == upper(s@),
{
    let mut r: Vec<char> = Vec::new();
    let mut i: usize = 0;
    while i < s.len()
        invariant
            i <= s.len(),
            r@ == upper(s@).take(i as int),
        decreases s.len() - i,
    {
        r.push(to_upper_char(s[i]));
        proof {
            assert(upper(s@).take(i + 1) == upper(s@).take(i as int).push(upper(s@)[i as int]));
        }
        i += 1;
    }
    proof {
        assert(upper(s@).take(s.len() as int) == upper(s@));
    }
    r
}

/// The characters of `s` with each ASCII letter in lower case.
pub fn to_lower(s: &Vec<char>) -> (r: Vec<char>)
    ensures
        r@ == lower(s@),
{
    let mut r: Vec<char> = Vec::new();
    let mut i: usize = 0;
    while i < s.len()
        invariant
            i <= s.len(),
            r@ == lower(s@).take(i as int),
        decreases s.len() - i,
    {
        r.push(to_lower_char(s[i]));
        proof {
            assert(lower(s@).take(i + 1) == lower(s@).take(i as int).push(lower(s@)[i as int]));
        }
        i += 1;
    }
    proof {
        assert(lower(s@).take(s.len() as int) == lower(s@));
    }
    r
}

/// Whether `a` comes strictly before `b` in lexicographic order by code
/// point, looking only at positions from `i` on.
pub open spec fn precedes_from(a: Seq<char>, b: Seq<char>, i: int) -> bool
    decreases a.len() - i,
{
    if i < 0 || i >= a.len() {
        0 <= i < b.len()
    } else if i >= b.len() {
        false
    } else if a[i] != b[i] {
        a[i] < b[i]
    } else {
        precedes_from(a, b, i + 1)
    }
}

/// Whether `a` comes strictly before `b` in lexicographic order by code point.
pub open spec fn precedes(a: Seq<char>, b: Seq<char>) -> bool {
    precedes_from(a, b, 0)
}

/// How one text stands to another in lexicographic order.
#[derive(Clone, Copy, PartialEq, Eq, Structural, Debug)]
pub enum Rank {
    Before,
    Same,
    After,
}

/// Lexicographic order is transitive.
pub proof fn precedes_transitive(a: Seq<char>, b: Seq<char>, c: Seq<char>)
    requires
        precedes(a, b),
        precedes(b, c),
    ensures
        precedes(a, c),
{
    precedes_from_transitive(a, b, c, 0);
}

proof fn precedes_from_transitive(a: Seq<char>, b: Seq<char>, c: Seq<char>, i: int)
    requires
        0 <= i,
        precedes_from(a, b, i),
        precedes_from(b, c, i),
    ensures
        precedes_from(a, c, i),
    decreases a.len() - i,
{
    if i < a.len() && i < b.len() && i < c.len() && a[i] == b[i] && b[i] == c[i] {
        precedes_from_transitive(a, b, c, i + 1);
    }
}

/// No text comes before itself.
pub proof fn precedes_irreflexive(a: Seq<char>)
    ensures
        !precedes(a, a),
{
    precedes_from_irreflexive(a, 0);
}

proof fn precedes_from_irreflexive(a: Seq<char>, i: int)
    requires
        0 <= i,
    ensures
        !precedes_from(a, a, i),
    decreases a.len() - i,
{
    if i < a.len() {
        precedes_from_irreflexive(a, i + 1);
    }
}

/// Of two different texts, one comes before the other.
pub proof fn precedes_total(a: Seq<char>, b: Seq<char>)
    ensures
        precedes(a, b) || precedes(b, a) || a == b,
{
    precedes_from_total(a, b, 0);
    assert(a.skip(0) == a);
    assert(b.skip(0) == b);
}

proof fn precedes_from_total(a: Seq<char>, b: Seq<char>, i: int)
    requires
        0 <= i,
    ensures
        precedes_from(a, b, i) || precedes_from(b, a, i) || (i <= a.len() && i <= b.len() && a.skip(
            i,
        ) == b.skip(i)) || i > a.len() || i > b.len(),
    decreases a.len() - i,
{
    if i < a.len() && i < b.len() {
        if a[i] == b[i] {
            precedes_from_total(a, b, i + 1);
            if a.skip(i + 1) == b.skip(i + 1) {
                assert(a.skip(i) =~= seq![a[i]] + a.skip(i + 1));
                assert(b.skip(i) =~= seq![b[i]] + b.skip(i + 1));
            }
        }
    } else if i == a.len() && i == b.len() {
        assert(a.skip(i) =~= b.skip(i));
    }
}

/// Compares two texts in lexicographic order by code point.
pub fn rank(a: &Vec<char>, b: &Vec<char>) -> (r: Rank)
    ensures
        r == Rank::Before <==> precedes(a@, b@),
        r == Rank::Same <==> a@ == b@,
        r == Rank::After <==> precedes(b@, a@),
{
    let mut i: usize = 0;
    proof {
        precedes_irreflexive(a@);
    }
    while i < a.len() && i < b.len()
        invariant
            i <= a.len(),
            i <= b.len(),
            a@.take(i as int) == b@.take(i as int),
            precedes(a@, b@) == precedes_from(a@, b@, i as int),
            precedes(b@, a@) == precedes_from(b@, a@, i as int),
        decreases a.len() - i,
    {
        if a[i] != b[i] {
            proof {
                assert(a@ != b@);
            }
            if a[i] < b[i] {
                return Rank::Before;
            } else {
                return Rank::After;
            }
        }
        proof {
            assert(a@.take(i + 1) == a@.take(i as int).push(a@[i as int]));
            assert(b@.take(i + 1) == b@.take(i as int).push(b@[i as int]));
        }
        i += 1;
    }
    if i < b.len() {
        proof {
            assert(a@.len() != b@.len());
        }
        Rank::Before
    } else if i < a.len() {
        proof {
            assert(a@.len() != b@.len());
        }
        Rank::After
    } else {
        proof {
            assert(a@.take(i as int) == a@);
            assert(b@.take(i as int) == b@);
        }
        Rank::Same
    }
}

} // verus!
