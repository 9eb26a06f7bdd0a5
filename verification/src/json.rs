//! The JSON form of a record: an indented document in which the metrics
//! stand in the order of their keys.

use vstd::prelude::*;
use crate::decimal::{abs, fixed_text, magnitude, Decimal};
use crate::metric::{list_content, pairs_of, MetricData, MetricValue, Pairs, Timestamp, Value};
use crate::output::{flag_text, push_timestamp, timestamp_text};
use crate::text::{digits, int_text, padded_digits, push_i64, push_padded, push_str, push_u64, to_text};

verus! {

/// The character of one hexadecimal digit, in lower case.
pub open spec fn hex_char(d: int) -> char {
    if d < 10 {
        crate::text::digit_char(d)
    } else if d == 10 {
        'a'
    } else if d == 11 {
        'b'
    } else if d == 12 {
        'c'
    } else if d == 13 {
        'd'
    } else if d == 14 {
        'e'
    } else {
        'f'
    }
}

/// One character as it stands inside a JSON string: the quotation mark and
/// the backslash behind a backslash, the control characters below the space
/// by their short escape or as `\u00` and two hexadecimal digits, every other
/// character as it is.
pub open spec fn escaped_char(c: char) -> Seq<char> {
    if c == '"' {
        seq!['\\', '"']
    } else if c == '\\' {
        seq!['\\', '\\']
    } else if c == '\u{08}' {
        seq!['\\', 'b']
    } else if c == '\u{0c}' {
        seq!['\\', 'f']
    } else if c == '\n' {
        seq!['\\', 'n']
    } else if c == '\r' {
        seq!['\\', 'r']
    } else if c == '\t' {
        seq!['\\', 't']
    } else if (c as u32) < 0x20 {
        seq!['\\', 'u', '0', '0', hex_char((c as u32) as int / 16), hex_char((c as u32) as int % 16)]
    } else {
        seq![c]
    }
}

/// A text as it stands inside a JSON string.
pub open spec fn escaped(s: Seq<char>) -> Seq<char>
    decreases s.len(),
{
    if s.len() == 0 {
        Seq::<char>::empty()
    } else {
        escaped(s.drop_last()) + escaped_char(s.last())
    }
}

/// A text as a JSON string.
pub open spec fn quoted(s: Seq<char>) -> Seq<char> {
    seq!['"'] + escaped(s) + seq!['"']
}

/// The last `width` digits of `v` without trailing zeros, one digit at least.
pub open spec fn trimmed_fraction(v: nat, width: nat) -> Seq<char>
    decreases width,
{
    if width > 1 && v % 10 == 0 {
        trimmed_fraction(v / 10, (width - 1) as nat)
    } else {
        padded_digits(v, width)
    }
}

/// A count of millionths as a JSON number: the whole part, a point, and the
/// decimals that are needed, one at least.
pub open spec fn number_text(m: int) -> Seq<char> {
    let size = abs(m);
    let body = digits(size / 1_000_000) + seq!['.'] + trimmed_fraction(size % 1_000_000, 6);
    if m < 0 {
        seq!['-'] + body
    } else {
        body
    }
}

/// A real number in JSON: a finite one as a number, any other as the string
/// of its name, so that the document stays valid.
pub open spec fn real_text(d: Decimal) -> Seq<char> {
    match d {
        Decimal::Finite(m) => number_text(m as int),
        _ => quoted(fixed_text(d, 2)),
    }
}

/// A value in JSON, where `indent` is the indentation of the line on which
/// it starts. A list is an array with one item on each line.
pub open spec fn json_text(v: Value, indent: Seq<char>) -> Seq<char>
    decreases v,
{
    match v {
        Value::Integer(i) => int_text(i),
        Value::Float(d) => real_text(d),
        Value::Text(s) => quoted(s),
        Value::Boolean(b) => flag_text(b),
        Value::List(items) => if items.len() == 0 {
            seq!['[', ']']
        } else {
            seq!['[', '\n'] + json_items(items, 0, indent + seq![' ', ' ']) + indent + seq![']']
        },
    }
}

/// The lines of the items of an array from place `i` on: each item behind
/// its indentation, with a comma behind all but the last.
pub open spec fn json_items(items: Seq<Value>, i: int, indent: Seq<char>) -> Seq<char>
    decreases items, items.len() - i,
{
    if i < 0 || i >= items.len() {
        Seq::<char>::empty()
    } else {
        indent + json_text(items[i], indent) + separator(i, items.len()) + json_items(
            items,
            i + 1,
            indent,
        )
    }
}

/// What ends the line of member `i` of `n`: a comma behind all but the last,
/// and the line break.
pub open spec fn separator(i: int, n: nat) -> Seq<char> {
    if i < n - 1 {
        seq![',', '\n']
    } else {
        seq!['\n']
    }
}

/// The lines of the first `n` members of an object.
pub open spec fn json_members(pairs: Pairs, n: nat, indent: Seq<char>) -> Seq<char>
    decreases n,
{
    if n == 0 {
        Seq::<char>::empty()
    } else {
        json_members(pairs, (n - 1) as nat, indent) + indent + quoted(pairs[n - 1].0) + seq![
            ':',
            ' ',
        ] + json_text(pairs[n - 1].1, indent) + separator(n - 1, pairs.len())
    }
}

/// The metrics as a JSON object, its members in the order of the keys.
pub open spec fn object_text(pairs: Pairs, indent: Seq<char>) -> Seq<char> {
    if pairs.len() == 0 {
        seq!['{', '}']
    } else {
        seq!['{', '\n'] + json_members(pairs, pairs.len(), indent + seq![' ', ' ']) + indent
            + seq!['}']
    }
}

/// A record as a JSON document: an object with the metrics under `metrics`
/// and the moment, as a string, under `timestamp`.
pub open spec fn document_text(moment: Timestamp, pairs: Pairs) -> Seq<char> {
    "{\n  \"metrics\": "@ + object_text(pairs, seq![' ', ' ']) + ",\n  \"timestamp\": "@
        + quoted(timestamp_text(moment)) + "\n}"@
}

/// A real number that is not finite is written as a string, never as a
/// number: the document stays valid JSON. A finite one is written as a
/// number.
pub proof fn real_numbers_stay_valid(d: Decimal, indent: Seq<char>)
    ensures
        d == Decimal::NaN ==> json_text(Value::Float(d), indent) == seq!['"', 'N', 'a', 'N', '"'],
        d == Decimal::PosInfinity ==> json_text(Value::Float(d), indent) == seq![
            '"',
            'i',
            'n',
            'f',
            '"',
        ],
        d == Decimal::NegInfinity ==> json_text(Value::Float(d), indent) == seq![
            '"',
            '-',
            'i',
            'n',
            'f',
            '"',
        ],
        d matches Decimal::Finite(m) ==> json_text(Value::Float(d), indent) == number_text(
            m as int,
        ),
{
    reveal_with_fuel(escaped, 6);
    let nan = seq!['N', 'a', 'N'];
    assert(nan.drop_last() =~= seq!['N', 'a']);
    assert(seq!['N', 'a'].drop_last() =~= seq!['N']);
    assert(seq!['N'].drop_last() =~= Seq::<char>::empty());
    assert(quoted(nan) =~= seq!['"', 'N', 'a', 'N', '"']);
    let inf = seq!['i', 'n', 'f'];
    assert(inf.drop_last() =~= seq!['i', 'n']);
    assert(seq!['i', 'n'].drop_last() =~= seq!['i']);
    assert(seq!['i'].drop_last() =~= Seq::<char>::empty());
    assert(quoted(inf) =~= seq!['"', 'i', 'n', 'f', '"']);
    let neg = seq!['-', 'i', 'n', 'f'];
    assert(neg.drop_last() =~= seq!['-', 'i', 'n']);
    assert(seq!['-', 'i', 'n'].drop_last() =~= seq!['-', 'i']);
    assert(seq!['-', 'i'].drop_last() =~= seq!['-']);
    assert(seq!['-'].drop_last() =~= Seq::<char>::empty());
    assert(quoted(neg) =~= seq!['"', '-', 'i', 'n', 'f', '"']);
}

/// The character of one hexadecimal digit.
pub(crate) fn hex_of(d: u8) -> (c: char)
    requires
        d < 16,
    ensures
        c == hex_char(d as int),
{
    if d < 10 {
        crate::text::digit_of(d)
    } else if d == 10 {
        'a'
    } else if d == 11 {
        'b'
    } else if d == 12 {
        'c'
    } else if d == 13 {
        'd'
    } else if d == 14 {
        'e'
    } else {
        'f'
    }
}

/// Appends a character as it stands inside a JSON string.
pub fn push_escaped_char(out: &mut Vec<char>, c: char)
    ensures
        final(out)@ == old(out)@ + escaped_char(c),
{
    if c == '"' {
        out.push('\\');
        out.push('"');
    } else if c == '\\' {
        out.push('\\');
        out.push('\\');
    } else if c == '\u{08}' {
        out.push('\\');
        out.push('b');
    } else if c == '\u{0c}' {
        out.push('\\');
        out.push('f');
    } else if c == '\n' {
        out.push('\\');
        out.push('n');
    } else if c == '\r' {
        out.push('\\');
        out.push('r');
    } else if c == '\t' {
        out.push('\\');
        out.push('t');
    } else if (c as u32) < 0x20 {
        let code: u32 = c as u32;
        out.push('\\');
        out.push('u');
        out.push('0');
        out.push('0');
        out.push(hex_of((code / 16) as u8));
        out.push(hex_of((code % 16) as u8));
    } else {
        out.push(c);
    }
    proof {
        assert(out@ =~= old(out)@ + escaped_char(c));
    }
}

/// Appends a text as a JSON string.
pub fn push_quoted(out: &mut Vec<char>, s: &Vec<char>)
    ensures
        final(out)@ == old(out)@ + quoted(s@),
{
    out.push('"');
    let mut i: usize = 0;
    while i < s.len()
        invariant
            i <= s.len(),
            out@ == old(out)@ + seq!['"'] + escaped(s@.take(i as int)),
        decreases s.len() - i,
    {
        let ghost before = out@;
        push_escaped_char(out, s[i]);
        proof {
            assert(s@.take(i + 1).drop_last() =~= s@.take(i as int));
            assert(out@ =~= old(out)@ + seq!['"'] + escaped(s@.take(i + 1)));
        }
        i += 1;
    }
    out.push('"');
    proof {
        assert(s@.take(s.len() as int) =~= s@);
        assert(out@ =~= old(out)@ + quoted(s@));
    }
}

/// Appends a count of millionths as a JSON number.
pub fn push_number(out: &mut Vec<char>, m: i64)
    ensures
        final(out)@ == old(out)@ + number_text(m as int),
{
    if m < 0 {
        out.push('-');
    }
    let size: u64 = magnitude(m);
    push_u64(out, size / 1_000_000);
    out.push('.');
    let mut rest: u64 = size % 1_000_000;
    let mut width: usize = 6;
    while width > 1 && rest % 10 == 0
        invariant
            1 <= width <= 6,
            trimmed_fraction((size % 1_000_000) as nat, 6) == trimmed_fraction(
                rest as nat,
                width as nat,
            ),
        decreases width,
    {
        rest = rest / 10;
        width -= 1;
    }
    push_padded(out, rest, width);
    proof {
        assert(out@ =~= old(out)@ + number_text(m as int));
    }
}

/// Appends a real number in JSON.
pub fn push_real(out: &mut Vec<char>, d: &Decimal)
    ensures
        final(out)@ == old(out)@ + real_text(*d),
{
    match d {
        Decimal::Finite(m) => {
            push_number(out, *m);
        },
        _ => {
            let mut name: Vec<char> = Vec::new();
            d.push_fixed(&mut name, 2);
            proof {
                assert(name@ =~= fixed_text(*d, 2));
            }
            push_quoted(out, &name);
        },
    }
}

/// Appends a value in JSON.
pub fn push_json(out: &mut Vec<char>, value: &MetricValue, indent: &Vec<char>)
    ensures
        final(out)@ == old(out)@ + json_text(value@, indent@),
    decreases value,
{
    match value {
        MetricValue::Integer(i) => {
            push_i64(out, *i);
        },
        MetricValue::Float(d) => {
            push_real(out, d);
        },
        MetricValue::String(s) => {
            let chars = crate::text::to_chars(s.as_str());
            push_quoted(out, &chars);
        },
        MetricValue::Boolean(b) => {
            if *b {
                push_str(out, "true");
            } else {
                push_str(out, "false");
            }
        },
        MetricValue::List(items) => {
            let ghost vals = value@->List_0;
            proof {
                list_content(*items);
            }
            if items.len() == 0 {
                out.push('[');
                out.push(']');
                proof {
                    assert(out@ =~= old(out)@ + seq!['[', ']']);
                }
            } else {
                let mut deeper: Vec<char> = Vec::new();
                crate::text::push_all(&mut deeper, indent);
                deeper.push(' ');
                deeper.push(' ');
                proof {
                    assert(deeper@ =~= indent@ + seq![' ', ' ']);
                }
                out.push('[');
                out.push('\n');
                let ghost start = out@;
                let mut i: usize = 0;
                while i < items.len()
                    invariant
                        i <= items.len(),
                        *value == MetricValue::List(*items),
                        vals == value@->List_0,
                        vals.len() == items@.len(),
                        forall|k: int| 0 <= k < items@.len() ==> #[trigger] vals[k] == items@[k]@,
                        start + json_items(vals, 0, deeper@) == out@ + json_items(
                            vals,
                            i as int,
                            deeper@,
                        ),
                    decreases items.len() - i,
                {
                    proof {
                        vstd::std_specs::vec::axiom_vec_index_decreases(*items, i as int);
                        assert(value->List_0 == *items);
                        assert(decreases_to!(*value => value->List_0));
                        assert(decreases_to!(*value => items[i as int]));
                    }
                    let ghost before = out@;
                    crate::text::push_all(out, &deeper);
                    push_json(out, &items[i], &deeper);
                    if i + 1 < items.len() {
                        out.push(',');
                    }
                    out.push('\n');
                    proof {
                        let line = deeper@ + json_text(vals[i as int], deeper@) + separator(
                            i as int,
                            vals.len(),
                        );
                        assert(out@ =~= before + line);
                        assert(before + (line + json_items(vals, i + 1, deeper@)) =~= before + line
                            + json_items(vals, i + 1, deeper@));
                    }
                    i += 1;
                }
                crate::text::push_all(out, indent);
                out.push(']');
                proof {
                    assert(out@ =~= old(out)@ + json_text(value@, indent@));
                }
            }
        },
    }
}

/// A record as a JSON document.
pub fn format_json(data: &MetricData) -> (s: String)
    ensures
        s@ == document_text(data.moment(), data.pairs()),
{
    let entries = data.entries();
    let ghost pairs = data.pairs();
    let mut out: Vec<char> = Vec::new();
    push_str(&mut out, "{\n  \"metrics\": ");
    let ghost head = out@;
    let mut indent: Vec<char> = Vec::new();
    indent.push(' ');
    indent.push(' ');
    let mut deeper: Vec<char> = Vec::new();
    deeper.push(' ');
    deeper.push(' ');
    deeper.push(' ');
    deeper.push(' ');
    proof {
        assert(indent@ =~= seq![' ', ' ']);
        assert(deeper@ =~= indent@ + seq![' ', ' ']);
    }
    if entries.len() == 0 {
        out.push('{');
        out.push('}');
        proof {
            assert(out@ =~= head + object_text(pairs, indent@));
        }
    } else {
        out.push('{');
        out.push('\n');
        let ghost start = out@;
        let mut j: usize = 0;
        while j < entries.len()
            invariant
                j <= entries.len(),
                pairs == pairs_of(entries@),
                out@ == start + json_members(pairs, j as nat, deeper@),
            decreases entries.len() - j,
        {
            let ghost before = out@;
            crate::text::push_all(&mut out, &deeper);
            let key = crate::text::to_chars(entries[j].0.as_str());
            push_quoted(&mut out, &key);
            out.push(':');
            out.push(' ');
            push_json(&mut out, &entries[j].1, &deeper);
            if j + 1 < entries.len() {
                out.push(',');
            }
            out.push('\n');
            proof {
                let line = deeper@ + quoted(pairs[j as int].0) + seq![':', ' '] + json_text(
                    pairs[j as int].1,
                    deeper@,
                ) + separator(j as int, pairs.len());
                assert(out@ =~= before + line);
                assert(start + json_members(pairs, j as nat, deeper@) + line =~= start + (
                json_members(pairs, j as nat, deeper@) + deeper@ + quoted(pairs[j as int].0) + seq![
                    ':',
                    ' ',
                ] + json_text(pairs[j as int].1, deeper@) + separator(j as int, pairs.len())));
            }
            j += 1;
        }
        crate::text::push_all(&mut out, &indent);
        out.push('}');
        proof {
            assert(out@ =~= head + object_text(pairs, indent@));
        }
    }
    push_str(&mut out, ",\n  \"timestamp\": ");
    let mut moment: Vec<char> = Vec::new();
    push_timestamp(&mut moment, data.timestamp());
    proof {
        assert(moment@ =~= timestamp_text(data.moment()));
    }
    push_quoted(&mut out, &moment);
    push_str(&mut out, "\n}");
    proof {
        assert(out@ =~= document_text(data.moment(), data.pairs()));
    }
    to_text(&out)
}

} // verus!
