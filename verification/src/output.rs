//! Rendering: a record of metrics, or a whole snapshot, as a table, as
//! `key=value` lines or as a JSON document.

use vstd::prelude::*;
use crate::decimal::{abs, fixed_text, magnitude, push_ratio, ratio_text, Decimal};
use crate::engine::{MetricsSnapshot, Section};
use crate::error::GimError;
use crate::metric::{list_content, MetricData, MetricValue, Pairs, Timestamp, Value};
use crate::text::{
    digits, int_text, padded_digits, push_i64, push_padded, push_str, push_u64, same_chars,
    to_chars, to_text, upper,
};

verus! {

/// The forms in which metrics are rendered.
#[derive(Clone, Copy, PartialEq, Eq, Structural, Debug)]
pub enum OutputFormat {
    Table,
    Json,
    Raw,
}

/// The narrowest that the key column of a table is.
pub const MIN_KEY_WIDTH: usize = 20;

/// An integer as a byte count in the largest binary unit that its magnitude
/// fills, with two decimals; as it is where it is below 1024 in magnitude.
pub open spec fn scaled_text(v: int) -> Seq<char> {
    let size = abs(v);
    if size >= 1_073_741_824 {
        ratio_text(size, 1_073_741_824, 2) + " GB"@
    } else if size >= 1_048_576 {
        ratio_text(size, 1_048_576, 2) + " MB"@
    } else if size >= 1024 {
        ratio_text(size, 1024, 2) + " KB"@
    } else {
        int_text(v)
    }
}

/// A flag as a word.
pub open spec fn flag_text(b: bool) -> Seq<char> {
    if b {
        "true"@
    } else {
        "false"@
    }
}

/// A value as text: a real number with two decimals, a list as its items'
/// texts joined by a comma and a space. An integer is scaled to a binary unit
/// where `scaled` is set, and written in full where it is not.
pub open spec fn value_text(v: Value, scaled: bool) -> Seq<char>
    decreases v,
{
    match v {
        Value::Integer(i) => if scaled {
            scaled_text(i)
        } else {
            int_text(i)
        },
        Value::Float(d) => fixed_text(d, 2),
        Value::Text(s) => s,
        Value::Boolean(b) => flag_text(b),
        Value::List(items) => joined_from(items, 0, scaled),
    }
}

/// The texts of the items from place `i` on, joined by a comma and a space.
pub open spec fn joined_from(items: Seq<Value>, i: int, scaled: bool) -> Seq<char>
    decreases items, items.len() - i,
{
    if i < 0 || i >= items.len() {
        Seq::<char>::empty()
    } else if i == items.len() - 1 {
        value_text(items[i], scaled)
    } else {
        value_text(items[i], scaled) + ", "@ + joined_from(items, i + 1, scaled)
    }
}

/// A moment as seconds since the epoch, a point, and nine digits of
/// nanoseconds.
pub open spec fn timestamp_text(t: Timestamp) -> Seq<char> {
    digits(t.secs as nat) + seq!['.'] + padded_digits(t.nanos as nat, 9)
}

/// The length of the longest key among the first `n`, and `floor` at least.
pub open spec fn key_width(pairs: Pairs, n: nat, floor: nat) -> nat
    decreases n,
{
    if n == 0 {
        floor
    } else {
        let before = key_width(pairs, (n - 1) as nat, floor);
        if pairs[n - 1].0.len() > before {
            pairs[n - 1].0.len()
        } else {
            before
        }
    }
}

/// `n` spaces.
pub open spec fn spaces(n: nat) -> Seq<char> {
    Seq::new(n, |i: int| ' ')
}

/// One row of a table: the key, padded with spaces to the width of the key
/// column, a bar, and the value.
pub open spec fn table_row(key: Seq<char>, value: Value, width: nat) -> Seq<char> {
    key + spaces((width - key.len()) as nat) + " | "@ + value_text(value, true) + seq!['\n']
}

/// The rows of the first `n` entries, in order.
pub open spec fn table_rows(pairs: Pairs, n: nat, width: nat) -> Seq<char>
    decreases n,
{
    if n == 0 {
        Seq::<char>::empty()
    } else {
        table_rows(pairs, (n - 1) as nat, width) + table_row(
            pairs[n - 1].0,
            pairs[n - 1].1,
            width,
        )
    }
}

/// A record as a table: the moment, a heading, and a row for each metric in
/// the order of the keys. The key column is as wide as the longest key, and
/// twenty characters at least.
pub open spec fn table_text(moment: Timestamp, pairs: Pairs) -> Seq<char> {
    "Timestamp: "@ + timestamp_text(moment) + seq!['\n'] + "Metrics:\n"@ + "----------\n"@
        + table_rows(pairs, pairs.len(), key_width(pairs, pairs.len(), MIN_KEY_WIDTH as nat))
}

/// One line of the raw form: the key, an equals sign, and the value.
pub open spec fn raw_line(key: Seq<char>, value: Value) -> Seq<char> {
    key + seq!['='] + value_text(value, false) + seq!['\n']
}

/// The raw lines of the first `n` entries, in order.
pub open spec fn raw_lines(pairs: Pairs, n: nat) -> Seq<char>
    decreases n,
{
    if n == 0 {
        Seq::<char>::empty()
    } else {
        raw_lines(pairs, (n - 1) as nat) + raw_line(pairs[n - 1].0, pairs[n - 1].1)
    }
}

/// A record in the raw form: a line for each metric in the order of the keys.
pub open spec fn raw_text(pairs: Pairs) -> Seq<char> {
    raw_lines(pairs, pairs.len())
}

/// The raw lines of the first `n` entries stand at the beginning of those of
/// the first `m`.
pub proof fn raw_lines_grow(pairs: Pairs, n: nat, m: nat)
    requires
        n <= m,
    ensures
        raw_lines(pairs, n).len() <= raw_lines(pairs, m).len(),
        raw_lines(pairs, m).take(raw_lines(pairs, n).len() as int) == raw_lines(pairs, n),
    decreases m,
{
    if n < m {
        raw_lines_grow(pairs, n, (m - 1) as nat);
        let shorter = raw_lines(pairs, (m - 1) as nat);
        let longer = raw_lines(pairs, m);
        assert(longer.take(raw_lines(pairs, n).len() as int) =~= shorter.take(
            raw_lines(pairs, n).len() as int,
        ));
    } else {
        assert(raw_lines(pairs, m).take(raw_lines(pairs, n).len() as int) =~= raw_lines(pairs, n));
    }
}

/// The rows of the first `n` entries stand at the beginning of those of the
/// first `m`.
pub proof fn table_rows_grow(pairs: Pairs, n: nat, m: nat, width: nat)
    requires
        n <= m,
    ensures
        table_rows(pairs, n, width).len() <= table_rows(pairs, m, width).len(),
        table_rows(pairs, m, width).take(table_rows(pairs, n, width).len() as int) == table_rows(
            pairs,
            n,
            width,
        ),
    decreases m,
{
    if n < m {
        table_rows_grow(pairs, n, (m - 1) as nat, width);
        let shorter = table_rows(pairs, (m - 1) as nat, width);
        let longer = table_rows(pairs, m, width);
        assert(longer.take(table_rows(pairs, n, width).len() as int) =~= shorter.take(
            table_rows(pairs, n, width).len() as int,
        ));
    } else {
        assert(table_rows(pairs, m, width).take(table_rows(pairs, n, width).len() as int)
            =~= table_rows(pairs, n, width));
    }
}

/// In the raw form the metrics stand in strictly ascending order of their
/// keys: each entry has its own line, which begins where the lines of the
/// entries with lesser keys end, and of two entries the one with the lesser
/// key comes first.
pub proof fn raw_in_key_order(pairs: Pairs, i: int, j: int)
    requires
        crate::metric::ascending(pairs),
        0 <= i < j < pairs.len(),
    ensures
        crate::text::precedes(pairs[i].0, pairs[j].0),
        raw_lines(pairs, (i + 1) as nat) == raw_lines(pairs, i as nat) + raw_line(
            pairs[i].0,
            pairs[i].1,
        ),
        raw_lines(pairs, (i + 1) as nat).len() <= raw_lines(pairs, j as nat).len(),
        raw_text(pairs).take(raw_lines(pairs, (i + 1) as nat).len() as int) == raw_lines(
            pairs,
            (i + 1) as nat,
        ),
        raw_text(pairs).take(raw_lines(pairs, (j + 1) as nat).len() as int) == raw_lines(
            pairs,
            j as nat,
        ) + raw_line(pairs[j].0, pairs[j].1),
{
    raw_lines_grow(pairs, (i + 1) as nat, j as nat);
    raw_lines_grow(pairs, (i + 1) as nat, pairs.len());
    raw_lines_grow(pairs, (j + 1) as nat, pairs.len());
}

/// In a table the metrics stand in strictly ascending order of their keys:
/// each entry has its own row, which begins where the rows of the entries
/// with lesser keys end, and of two entries the one with the lesser key comes
/// first.
pub proof fn table_in_key_order(pairs: Pairs, i: int, j: int, width: nat)
    requires
        crate::metric::ascending(pairs),
        0 <= i < j < pairs.len(),
    ensures
        crate::text::precedes(pairs[i].0, pairs[j].0),
        table_rows(pairs, (i + 1) as nat, width) == table_rows(pairs, i as nat, width) + table_row(
            pairs[i].0,
            pairs[i].1,
            width,
        ),
        table_rows(pairs, (i + 1) as nat, width).len() <= table_rows(pairs, j as nat, width).len(),
        table_rows(pairs, pairs.len(), width).take(
            table_rows(pairs, (i + 1) as nat, width).len() as int,
        ) == table_rows(pairs, (i + 1) as nat, width),
        table_rows(pairs, pairs.len(), width).take(
            table_rows(pairs, (j + 1) as nat, width).len() as int,
        ) == table_rows(pairs, j as nat, width) + table_row(pairs[j].0, pairs[j].1, width),
{
    table_rows_grow(pairs, (i + 1) as nat, j as nat, width);
    table_rows_grow(pairs, (i + 1) as nat, pairs.len(), width);
    table_rows_grow(pairs, (j + 1) as nat, pairs.len(), width);
}

/// Rendering depends on nothing but the record's moment and metrics: two
/// records that agree in both are rendered alike, in every form.
pub proof fn rendering_is_determined(a: MetricData, b: MetricData, format: OutputFormat)
    requires
        a.moment() == b.moment(),
        a.pairs() == b.pairs(),
    ensures
        record_text(a.moment(), a.pairs(), format) == record_text(b.moment(), b.pairs(), format),
{
}

/// Appends an integer as a byte count in the largest binary unit that its
/// magnitude fills.
pub fn push_scaled(out: &mut Vec<char>, v: i64)
    ensures
        final(out)@ == old(out)@ + scaled_text(v as int),
{
    let size: u64 = magnitude(v);
    if size >= 1_073_741_824 {
        push_ratio(out, size, 1_073_741_824, 2);
        push_str(out, " GB");
    } else if size >= 1_048_576 {
        push_ratio(out, size, 1_048_576, 2);
        push_str(out, " MB");
    } else if size >= 1024 {
        push_ratio(out, size, 1024, 2);
        push_str(out, " KB");
    } else {
        push_i64(out, v);
    }
    proof {
        assert(out@ =~= old(out)@ + scaled_text(v as int));
    }
}

/// An integer as a byte count in the largest binary unit that its magnitude
/// fills.
pub fn format_bytes_smart(value: i64) -> (s: String)
    ensures
        s@ == scaled_text(value as int),
{
    let mut out: Vec<char> = Vec::new();
    push_scaled(&mut out, value);
    proof {
        assert(out@ =~= scaled_text(value as int));
    }
    to_text(&out)
}

/// Appends a value as text.
pub fn push_value(out: &mut Vec<char>, value: &MetricValue, scaled: bool)
    ensures
        final(out)@ == old(out)@ + value_text(value@, scaled),
    decreases value,
{
    match value {
        MetricValue::Integer(i) => {
            if scaled {
                push_scaled(out, *i);
            } else {
                push_i64(out, *i);
            }
        },
        MetricValue::Float(d) => {
            d.push_fixed(out, 2);
        },
        MetricValue::String(s) => {
            push_str(out, s.as_str());
        },
        MetricValue::Boolean(b) => {
            if *b {
                push_str(out, "true");
            } else {
                push_str(out, "false");
            }
        },
        MetricValue::List(items) => {
            let ghost vals = value@->List_0;
            proof {
                list_content(*items);
            }
            let mut i: usize = 0;
            while i < items.len()
                invariant
                    i <= items.len(),
                    *value == MetricValue::List(*items),
                    vals == value@->List_0,
                    vals.len() == items@.len(),
                    forall|k: int| 0 <= k < items@.len() ==> #[trigger] vals[k] == items@[k]@,
                    old(out)@ + joined_from(vals, 0, scaled) == out@ + joined_from(
                        vals,
                        i as int,
                        scaled,
                    ),
                decreases items.len() - i,
            {
                proof {
                    vstd::std_specs::vec::axiom_vec_index_decreases(*items, i as int);
                    assert(value->List_0 == *items);
                    assert(decreases_to!(*value => value->List_0));
                    assert(decreases_to!(*value => items[i as int]));
                }
                let ghost before = out@;
                push_value(out, &items[i], scaled);
                if i + 1 < items.len() {
                    push_str(out, ", ");
                }
                proof {
                    let item = value_text(vals[i as int], scaled);
                    let rest = joined_from(vals, i + 1, scaled);
                    if i + 1 < items.len() {
                        assert(before + (item + ", "@ + rest) =~= before + item + ", "@ + rest);
                    } else {
                        assert(rest =~= Seq::<char>::empty());
                        assert(before + item =~= before + item + rest);
                    }
                }
                i += 1;
            }
            proof {
                assert(out@ + Seq::<char>::empty() =~= out@);
            }
        },
    }
}

/// A value as text, with every integer written in full.
pub fn metric_value_to_string(value: &MetricValue) -> (s: String)
    ensures
        s@ == value_text(value@, false),
{
    let mut out: Vec<char> = Vec::new();
    push_value(&mut out, value, false);
    proof {
        assert(out@ =~= value_text(value@, false));
    }
    to_text(&out)
}

/// Appends a moment as seconds, a point and nine digits of nanoseconds.
pub fn push_timestamp(out: &mut Vec<char>, t: Timestamp)
    ensures
        final(out)@ == old(out)@ + timestamp_text(t),
{
    push_u64(out, t.secs);
    out.push('.');
    push_padded(out, t.nanos as u64, 9);
    proof {
        assert(out@ =~= old(out)@ + timestamp_text(t));
    }
}

/// A record as a table.
pub fn format_table(data: &MetricData) -> (s: String)
    ensures
        s@ == table_text(data.moment(), data.pairs()),
{
    let entries = data.entries();
    let ghost pairs = data.pairs();
    let mut width: usize = MIN_KEY_WIDTH;
    let mut keys: Vec<Vec<char>> = Vec::new();
    let mut i: usize = 0;
    while i < entries.len()
        invariant
            i <= entries.len(),
            pairs == crate::metric::pairs_of(entries@),
            keys.len() == i,
            forall|k: int| 0 <= k < i ==> (#[trigger] keys@[k])@ == pairs[k].0,
            forall|k: int| 0 <= k < i ==> (#[trigger] keys@[k]).len() <= width,
            width == key_width(pairs, i as nat, MIN_KEY_WIDTH as nat),
        decreases entries.len() - i,
    {
        let key = to_chars(entries[i].0.as_str());
        if key.len() > width {
            width = key.len();
        }
        keys.push(key);
        i += 1;
    }
    let mut out: Vec<char> = Vec::new();
    push_str(&mut out, "Timestamp: ");
    push_timestamp(&mut out, data.timestamp());
    out.push('\n');
    push_str(&mut out, "Metrics:\n");
    push_str(&mut out, "----------\n");
    let ghost head = out@;
    proof {
        assert(head =~= "Timestamp: "@ + timestamp_text(data.moment()) + seq!['\n'] + "Metrics:\n"@
            + "----------\n"@);
    }
    let mut j: usize = 0;
    while j < entries.len()
        invariant
            j <= entries.len(),
            pairs == crate::metric::pairs_of(entries@),
            keys.len() == entries.len(),
            forall|k: int| 0 <= k < keys.len() ==> (#[trigger] keys@[k])@ == pairs[k].0,
            width == key_width(pairs, entries.len() as nat, MIN_KEY_WIDTH as nat),
            forall|k: int| 0 <= k < keys.len() ==> (#[trigger] keys@[k]).len() <= width,
            out@ == head + table_rows(pairs, j as nat, width as nat),
        decreases entries.len() - j,
    {
        let ghost before = out@;
        crate::text::push_all(&mut out, &keys[j]);
        let mut pad: usize = keys[j].len();
        while pad < width
            invariant
                j < keys.len(),
                keys[j as int].len() <= pad <= width,
                out@ == before + keys[j as int]@ + spaces((pad - keys[j as int].len()) as nat),
            decreases width - pad,
        {
            out.push(' ');
            proof {
                let had = spaces((pad - keys[j as int].len()) as nat);
                let has = spaces((pad + 1 - keys[j as int].len()) as nat);
                assert(has =~= had.push(' '));
                assert((before + keys[j as int]@ + had).push(' ') =~= before + keys[j as int]@
                    + has);
            }
            pad += 1;
        }
        push_str(&mut out, " | ");
        push_value(&mut out, &entries[j].1, true);
        out.push('\n');
        proof {
            let row = table_row(pairs[j as int].0, pairs[j as int].1, width as nat);
            assert(out@ =~= before + row);
            assert(head + table_rows(pairs, j as nat, width as nat) + row =~= head + (table_rows(
                pairs,
                j as nat,
                width as nat,
            ) + row));
        }
        j += 1;
    }
    to_text(&out)
}

/// A record as `key=value` lines.
pub fn format_raw(data: &MetricData) -> (s: String)
    ensures
        s@ == raw_text(data.pairs()),
{
    let entries = data.entries();
    let ghost pairs = data.pairs();
    let mut out: Vec<char> = Vec::new();
    let mut j: usize = 0;
    while j < entries.len()
        invariant
            j <= entries.len(),
            pairs == crate::metric::pairs_of(entries@),
            out@ == raw_lines(pairs, j as nat),
        decreases entries.len() - j,
    {
        let ghost before = out@;
        push_str(&mut out, entries[j].0.as_str());
        out.push('=');
        push_value(&mut out, &entries[j].1, false);
        out.push('\n');
        proof {
            assert(out@ =~= before + raw_line(pairs[j as int].0, pairs[j as int].1));
        }
        j += 1;
    }
    to_text(&out)
}

/// A record in the given form.
pub open spec fn record_text(moment: Timestamp, pairs: Pairs, format: OutputFormat) -> Seq<char> {
    match format {
        OutputFormat::Table => table_text(moment, pairs),
        OutputFormat::Json => crate::json::document_text(moment, pairs),
        OutputFormat::Raw => raw_text(pairs),
    }
}

/// Renders a record in the given form.
pub fn format_output(data: &MetricData, format: OutputFormat) -> (s: String)
    ensures
        s@ == record_text(data.moment(), data.pairs(), format),
{
    match format {
        OutputFormat::Json => crate::json::format_json(data),
        OutputFormat::Table => format_table(data),
        OutputFormat::Raw => format_raw(data),
    }
}

/// One module of a snapshot: a heading with its name in upper case, its
/// record in the given form, and a line break.
pub open spec fn section_text(section: Section, format: OutputFormat) -> Seq<char> {
    "=== "@ + upper(section.name) + " ===\n"@ + record_text(
        section.moment,
        section.pairs,
        format,
    ) + seq!['\n']
}

/// The first `n` modules of a snapshot, in order.
pub open spec fn sections_text(sections: Seq<Section>, n: nat, format: OutputFormat) -> Seq<char>
    decreases n,
{
    if n == 0 {
        Seq::<char>::empty()
    } else {
        sections_text(sections, (n - 1) as nat, format) + section_text(sections[n - 1], format)
    }
}

/// A snapshot in the given form: its modules one after the other.
pub open spec fn snapshot_text(sections: Seq<Section>, format: OutputFormat) -> Seq<char> {
    sections_text(sections, sections.len(), format)
}

/// Renders a snapshot in the given form, each module under a heading.
pub fn format_snapshot(snapshot: &MetricsSnapshot, format: OutputFormat) -> (s: String)
    ensures
        s@ == snapshot_text(snapshot@, format),
{
    let mut out: Vec<char> = Vec::new();
    let mut i: usize = 0;
    while i < snapshot.modules.len()
        invariant
            i <= snapshot.modules.len(),
            out@ == sections_text(snapshot@, i as nat, format),
        decreases snapshot.modules.len() - i,
    {
        let ghost before = out@;
        let name = crate::text::to_upper(&to_chars(snapshot.modules[i].0.as_str()));
        push_str(&mut out, "=== ");
        crate::text::push_all(&mut out, &name);
        push_str(&mut out, " ===\n");
        let body = format_output(&snapshot.modules[i].1, format);
        push_str(&mut out, body.as_str());
        out.push('\n');
        proof {
            assert(out@ =~= before + section_text(snapshot@[i as int], format));
        }
        i += 1;
    }
    to_text(&out)
}

/// The form that a name stands for.
pub open spec fn format_named(name: Seq<char>) -> Option<OutputFormat> {
    if name == "json"@ {
        Some(OutputFormat::Json)
    } else if name == "table"@ {
        Some(OutputFormat::Table)
    } else if name == "raw"@ {
        Some(OutputFormat::Raw)
    } else {
        None
    }
}

impl OutputFormat {
    /// The form of the given name; a failure for a name that stands for none.
    pub fn parse(name: &str) -> (r: Result<OutputFormat, GimError>)
        ensures
            match r {
                Ok(format) => format_named(name@) == Some(format),
                Err(e) => format_named(name@) is None && (e matches GimError::UnknownFormat(
                    given,
                ) && given@ == name@),
            },
    {
        let chars = to_chars(name);
        if same_chars(&chars, &to_chars("json")) {
            Ok(OutputFormat::Json)
        } else if same_chars(&chars, &to_chars("table")) {
            Ok(OutputFormat::Table)
        } else if same_chars(&chars, &to_chars("raw")) {
            Ok(OutputFormat::Raw)
        } else {
            Err(GimError::UnknownFormat(name.to_owned()))
        }
    }
}

} // verus!
