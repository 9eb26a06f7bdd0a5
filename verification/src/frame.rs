//! What the dashboard shows: the tabs of the header, one panel for each
//! module with its gauge and its metrics, and the legend of the footer. The
//! frame is described here as plain values; painting it is left to the
//! caller.

use vstd::prelude::*;
use crate::config::{color_of, parse_color, BorderStyle, Color, Config, ModuleTheme};
use crate::decimal::{fixed_text, Decimal};
use crate::engine::{MetricsSnapshot, Section};
use crate::metric::{lookup, pairs_of, MetricData, MetricValue, Pairs, Value};
use crate::output::{push_value, value_text};
use crate::text::{push_all, push_str, same_chars, to_chars, to_text, to_upper, upper};
use crate::tui::App;

verus! {

/// The rows of the header and of the footer.
pub const BAR_HEIGHT: u16 = 3;

/// The rows that the panels get at least.
pub const BODY_MIN_HEIGHT: u16 = 10;

/// The rows of a gauge.
pub const GAUGE_HEIGHT: u16 = 3;

/// A percentage to be shown as a gauge, and the label that goes with it.
#[derive(Debug)]
pub struct GaugeData {
    pub label: String,
    pub percent: Decimal,
}

/// One tab of the header.
#[derive(Debug)]
pub struct TabView {
    pub text: String,
    pub color: Color,
    /// The selected tab is drawn bold and underlined.
    pub selected: bool,
}

/// A gauge as it is drawn: its label, and how far it is filled, in
/// millionths.
#[derive(Debug)]
pub struct GaugeView {
    pub label: String,
    pub ratio_millionths: u32,
}

/// One metric of a panel: the key with its colon, drawn bold, and the value.
#[derive(Debug)]
pub struct DetailLine {
    pub key: String,
    pub value: String,
}

/// The panel of one module.
#[derive(Debug)]
pub struct PanelView {
    pub title: String,
    pub fg: Color,
    pub accent: Color,
    pub border: Color,
    pub gauge: Option<GaugeView>,
    pub lines: Vec<DetailLine>,
}

/// One piece of the legend.
#[derive(Debug)]
pub struct LegendItem {
    pub text: String,
    pub bold: bool,
}

/// The whole frame.
#[derive(Debug)]
pub struct FrameView {
    pub borders: BorderStyle,
    pub border: Color,
    pub title: Color,
    pub tabs: Vec<TabView>,
    /// The panels stand side by side, each as wide as the others.
    pub panels: Vec<PanelView>,
    /// The legend, unless the configuration hides it.
    pub footer: Option<Vec<LegendItem>>,
}

/// The theme of the module of the given name; that of the processor module
/// for a name that is no module's.
pub open spec fn theme_named(config: Config, name: Seq<char>) -> ModuleTheme {
    if name == "cpu"@ {
        config.theme.cpu
    } else if name == "memory"@ {
        config.theme.memory
    } else if name == "disk"@ {
        config.theme.disk
    } else if name == "network"@ {
        config.theme.network
    } else if name == "process"@ {
        config.theme.process
    } else if name == "system"@ {
        config.theme.system
    } else {
        config.theme.cpu
    }
}

/// The label of a module: that of its theme, or its name in upper case where
/// the theme has none.
pub open spec fn label_of(config: Config, name: Seq<char>) -> Seq<char> {
    let label = theme_named(config, name).label@;
    if label.len() == 0 {
        upper(name)
    } else {
        label
    }
}

/// The key under which a module holds the percentage of its gauge, for the
/// modules that have one.
pub open spec fn gauge_key(name: Seq<char>) -> Option<Seq<char>> {
    if name == "cpu"@ {
        Some("cpu_usage_percent"@)
    } else if name == "memory"@ {
        Some("memory_usage_percent"@)
    } else if name == "disk"@ {
        Some("usage_percent"@)
    } else {
        None
    }
}

/// The percentage of a module's gauge: the real number under its gauge key,
/// if the module has such a key and a real number stands there.
pub open spec fn gauge_percent(name: Seq<char>, pairs: Pairs) -> Option<Decimal> {
    match gauge_key(name) {
        Some(key) => match lookup(pairs, key) {
            Some(Value::Float(d)) => Some(d),
            _ => None,
        },
        None => None,
    }
}

/// How far a gauge is filled, in millionths: the hundredth of the
/// percentage, held between nothing and all. What is not a number fills
/// nothing.
pub open spec fn gauge_ratio(percent: Decimal) -> int {
    match percent {
        Decimal::Finite(m) => if m < 0 {
            0
        } else if m / 100 > 1_000_000 {
            1_000_000
        } else {
            m / 100
        },
        Decimal::PosInfinity => 1_000_000,
        _ => 0,
    }
}

/// The label of a gauge: the module's label and the percentage with one
/// decimal.
pub open spec fn gauge_label(label: Seq<char>, percent: Decimal) -> Seq<char> {
    label + ": "@ + fixed_text(percent, 1) + "%"@
}

/// The text of a tab: the name in upper case, in brackets where the tab is
/// selected.
pub open spec fn tab_text(name: Seq<char>, selected: bool) -> Seq<char> {
    if selected {
        " ["@ + upper(name) + "] "@
    } else {
        "  "@ + upper(name) + "  "@
    }
}

impl TabView {
    /// Whether this is the tab of the `i`-th module.
    pub open spec fn shows(&self, config: Config, section: Section, selected: bool) -> bool {
        &&& self.text@ == tab_text(section.name, selected)
        &&& self.color == color_of(theme_named(config, section.name).fg@)
        &&& self.selected == selected
    }
}

impl GaugeView {
    /// Whether this is the gauge of the module for the given percentage.
    pub open spec fn shows(&self, name: Seq<char>, percent: Decimal) -> bool {
        &&& self.label@ == gauge_label(upper(name), percent)
        &&& self.ratio_millionths == gauge_ratio(percent)
    }
}

impl PanelView {
    /// Whether this is the panel of the given module: its title and colors
    /// from the theme, the border in the module's color where its tab is
    /// selected, the gauge where the module has one, and a line for each
    /// metric in the order of the keys.
    pub open spec fn shows(&self, config: Config, section: Section, selected: bool) -> bool {
        let theme = theme_named(config, section.name);
        &&& self.title@ == " "@ + label_of(config, section.name) + " "@
        &&& self.fg == color_of(theme.fg@)
        &&& self.accent == color_of(theme.accent@)
        &&& self.border == if selected {
            color_of(theme.fg@)
        } else {
            color_of(config.theme.chrome.border@)
        }
        &&& match gauge_percent(section.name, section.pairs) {
            Some(percent) => self.gauge matches Some(gauge) && gauge.shows(section.name, percent),
            None => self.gauge is None,
        }
        &&& self.lines@.len() == section.pairs.len()
        &&& forall|k: int|
            0 <= k < self.lines@.len() ==> (#[trigger] self.lines@[k]).key@ == section.pairs[k].0
                + ": "@ && self.lines@[k].value@ == value_text(section.pairs[k].1, true)
    }
}

/// The processor module finds the percentage of its gauge in what its own
/// collector makes of a reading: the mean usage of the cores.
pub proof fn cpu_feeds_its_gauge(cpu: crate::modules::cpu::CpuReading)
    ensures
        gauge_percent("cpu"@, crate::modules::cpu::cpu_pairs(cpu)) == Some(
            crate::decimal::mean_of(cpu.core_usage@),
        ),
{
    reveal_strlit("cpu_usage_percent");
    reveal_strlit("cpu_count");
    reveal_strlit("total_memory_bytes");
    reveal_strlit("used_memory_bytes");
    reveal_strlit("free_memory_bytes");
    reveal_strlit("total_swap_bytes");
    reveal_strlit("used_swap_bytes");
    reveal_strlit("free_swap_bytes");
    let empty: Pairs = Seq::empty();
    let usage = "cpu_usage_percent"@;
    assert(usage.len() == 17);
    let mean = Value::Float(crate::decimal::mean_of(cpu.core_usage@));
    let c1 = crate::metric::put(empty, usage, mean);
    crate::metric::lookup_put_same(empty, usage, mean);
    crate::metric::put_ascending(empty, usage, mean);
    assert("cpu_count"@.len() == 9);
    let c2 = kept(
        c1,
        "cpu_count"@,
        Value::Integer(crate::metric::wrap_signed(cpu.core_usage@.len() as int)),
        usage,
    );
    assert("total_memory_bytes"@.len() == 18);
    let c3 = kept(
        c2,
        "total_memory_bytes"@,
        Value::Integer(crate::metric::wrap_signed(cpu.total_memory as int)),
        usage,
    );
    assert("used_memory_bytes"@[0] == 'u');
    let c4 = kept(
        c3,
        "used_memory_bytes"@,
        Value::Integer(crate::metric::wrap_signed(cpu.used_memory as int)),
        usage,
    );
    assert("free_memory_bytes"@[0] == 'f');
    let c5 = kept(
        c4,
        "free_memory_bytes"@,
        Value::Integer(crate::metric::wrap_signed(cpu.free_memory as int)),
        usage,
    );
    assert("total_swap_bytes"@.len() == 16);
    let c6 = kept(
        c5,
        "total_swap_bytes"@,
        Value::Integer(crate::metric::wrap_signed(cpu.total_swap as int)),
        usage,
    );
    assert("used_swap_bytes"@.len() == 15);
    let c7 = kept(
        c6,
        "used_swap_bytes"@,
        Value::Integer(crate::metric::wrap_signed(cpu.used_swap as int)),
        usage,
    );
    assert("free_swap_bytes"@.len() == 15);
    let c8 = kept(
        c7,
        "free_swap_bytes"@,
        Value::Integer(crate::metric::wrap_signed(cpu.free_swap as int)),
        usage,
    );
    assert(usage[0] == 'c');
    assert(c8 == crate::modules::cpu::cpu_pairs(cpu));
    assert(lookup(c8, usage) == Some(mean));
}

/// The memory module finds the percentage of its gauge in what its own
/// collector makes of a reading: the share of memory in use.
pub proof fn memory_feeds_its_gauge(memory: crate::modules::memory::MemoryReading)
    ensures
        gauge_percent("memory"@, crate::modules::memory::memory_pairs(memory)) == Some(
            crate::decimal::percent_of(memory.used_memory as nat, memory.total_memory as nat),
        ),
{
    reveal_strlit("cpu");
    reveal_strlit("memory");
    assert("cpu"@.len() == 3);
    assert("memory"@.len() == 6);
    let empty: Pairs = Seq::empty();
    let key = "memory_usage_percent"@;
    let m1 = kept(
        empty,
        "total_memory_bytes"@,
        Value::Integer(crate::metric::wrap_signed(memory.total_memory as int)),
        key,
    );
    let m2 = kept(
        m1,
        "used_memory_bytes"@,
        Value::Integer(crate::metric::wrap_signed(memory.used_memory as int)),
        key,
    );
    let m3 = kept(
        m2,
        "free_memory_bytes"@,
        Value::Integer(crate::metric::wrap_signed(memory.free_memory as int)),
        key,
    );
    let m4 = kept(
        m3,
        "available_memory_bytes"@,
        Value::Integer(crate::metric::wrap_signed(memory.available_memory as int)),
        key,
    );
    let m5 = kept(
        m4,
        "total_swap_bytes"@,
        Value::Integer(crate::metric::wrap_signed(memory.total_swap as int)),
        key,
    );
    let m6 = kept(
        m5,
        "used_swap_bytes"@,
        Value::Integer(crate::metric::wrap_signed(memory.used_swap as int)),
        key,
    );
    let m7 = kept(
        m6,
        "free_swap_bytes"@,
        Value::Integer(crate::metric::wrap_signed(memory.free_swap as int)),
        key,
    );
    let share = Value::Float(
        crate::decimal::percent_of(memory.used_memory as nat, memory.total_memory as nat),
    );
    crate::metric::lookup_put_same(m7, key, share);
    assert(crate::metric::put(m7, key, share) == crate::modules::memory::memory_pairs(memory));
}

/// The disk module finds the percentage of its gauge in what its own
/// collector makes of a reading: the share of disk space in use.
pub proof fn disk_feeds_its_gauge(disk: crate::modules::disk::DiskReading)
    ensures
        gauge_percent("disk"@, crate::modules::disk::disk_pairs(disk)) == Some(
            crate::decimal::percent_of(
                crate::modules::disk::used_space(
                    crate::modules::disk::capped(crate::modules::disk::total_space(disk.disks@)),
                    crate::modules::disk::capped(
                        crate::modules::disk::available_space(disk.disks@),
                    ),
                ),
                crate::modules::disk::capped(crate::modules::disk::total_space(disk.disks@)),
            ),
        ),
{
    reveal_strlit("cpu");
    reveal_strlit("memory");
    reveal_strlit("disk");
    reveal_strlit("usage_percent");
    reveal_strlit("disk_count");
    assert("cpu"@.len() == 3);
    assert("memory"@.len() == 6);
    assert("disk"@.len() == 4);
    assert("usage_percent"@.len() == 13);
    assert("disk_count"@.len() == 10);
    let empty: Pairs = Seq::empty();
    let total = crate::modules::disk::capped(crate::modules::disk::total_space(disk.disks@));
    let free = crate::modules::disk::capped(crate::modules::disk::available_space(disk.disks@));
    let used = crate::modules::disk::used_space(total, free);
    let key = "usage_percent"@;
    let share = Value::Float(crate::decimal::percent_of(used, total));
    let d1 = kept(empty, "total_bytes"@, Value::Integer(crate::metric::wrap_signed(total as int)), key);
    let d2 = kept(d1, "used_bytes"@, Value::Integer(crate::metric::wrap_signed(used as int)), key);
    let d3 = kept(d2, "free_bytes"@, Value::Integer(crate::metric::wrap_signed(free as int)), key);
    let d4 = crate::metric::put(d3, key, share);
    crate::metric::lookup_put_same(d3, key, share);
    crate::metric::put_ascending(d3, key, share);
    let d5 = kept(
        d4,
        "disk_count"@,
        Value::Integer(crate::metric::wrap_signed(disk.disks@.len() as int)),
        key,
    );
    assert(d5 == crate::modules::disk::disk_pairs(disk));
    assert(lookup(d5, key) == Some(share));
}

/// `pairs` with `value` under `key`, where another key keeps what it had.
proof fn kept(pairs: Pairs, key: Seq<char>, value: Value, other: Seq<char>) -> (now: Pairs)
    requires
        crate::metric::ascending(pairs),
    ensures
        now == crate::metric::put(pairs, key, value),
        crate::metric::ascending(now),
        other != key ==> lookup(now, other) == lookup(pairs, other),
{
    crate::metric::put_ascending(pairs, key, value);
    if other != key {
        crate::metric::lookup_put_other(pairs, key, value, other);
    }
    crate::metric::put(pairs, key, value)
}

/// The theme of the module of the given name.
pub fn module_theme<'a>(config: &'a Config, name: &str) -> (theme: &'a ModuleTheme)
    ensures
        *theme == theme_named(*config, name@),
{
    let chars = to_chars(name);
    if same_chars(&chars, &to_chars("cpu")) {
        &config.theme.cpu
    } else if same_chars(&chars, &to_chars("memory")) {
        &config.theme.memory
    } else if same_chars(&chars, &to_chars("disk")) {
        &config.theme.disk
    } else if same_chars(&chars, &to_chars("network")) {
        &config.theme.network
    } else if same_chars(&chars, &to_chars("process")) {
        &config.theme.process
    } else if same_chars(&chars, &to_chars("system")) {
        &config.theme.system
    } else {
        &config.theme.cpu
    }
}

/// The color of a module.
pub fn module_fg_color(config: &Config, name: &str) -> (color: Color)
    ensures
        color == color_of(theme_named(*config, name@).fg@),
{
    parse_color(module_theme(config, name).fg.as_str())
}

/// The color of a module's gauge.
pub fn module_accent_color(config: &Config, name: &str) -> (color: Color)
    ensures
        color == color_of(theme_named(*config, name@).accent@),
{
    parse_color(module_theme(config, name).accent.as_str())
}

/// The label of a module.
pub fn module_label(config: &Config, name: &str) -> (label: String)
    ensures
        label@ == label_of(*config, name@),
{
    let theme = module_theme(config, name);
    if theme.label.as_str().unicode_len() == 0 {
        to_text(&to_upper(&to_chars(name)))
    } else {
        theme.label.clone()
    }
}

/// A value as the dashboard shows it: an integer scaled to a binary unit, a
/// real number with two decimals, a list with its items joined.
pub fn metric_display(value: &MetricValue) -> (s: String)
    ensures
        s@ == value_text(value@, true),
{
    let mut out: Vec<char> = Vec::new();
    push_value(&mut out, value, true);
    proof {
        assert(out@ =~= value_text(value@, true));
    }
    to_text(&out)
}

/// The percentage of a module's gauge with the module's name in upper case
/// as its label; none for a module without a gauge, or where no real number
/// stands under its key.
pub fn extract_gauge(module_name: &str, data: &MetricData) -> (r: Option<GaugeData>)
    ensures
        match r {
            Some(gauge) => gauge_percent(module_name@, data.pairs()) == Some(gauge.percent)
                && gauge.label@ == upper(module_name@),
            None => gauge_percent(module_name@, data.pairs()) is None,
        },
{
    let chars = to_chars(module_name);
    let found = if same_chars(&chars, &to_chars("cpu")) {
        data.get("cpu_usage_percent")
    } else if same_chars(&chars, &to_chars("memory")) {
        data.get("memory_usage_percent")
    } else if same_chars(&chars, &to_chars("disk")) {
        data.get("usage_percent")
    } else {
        return None;
    };
    match found {
        Some(MetricValue::Float(d)) => Some(
            GaugeData { label: to_text(&to_upper(&chars)), percent: *d },
        ),
        _ => None,
    }
}

/// How far a gauge is filled, in millionths.
pub fn gauge_fill(percent: &Decimal) -> (ratio: u32)
    ensures
        ratio == gauge_ratio(*percent),
        ratio <= 1_000_000,
{
    match percent {
        Decimal::Finite(m) => if *m < 0 {
            0
        } else if *m / 100 > 1_000_000 {
            1_000_000
        } else {
            (*m / 100) as u32
        },
        Decimal::PosInfinity => 1_000_000,
        _ => 0,
    }
}

/// The gauge of a module as it is drawn.
pub fn gauge_view(gauge: &GaugeData) -> (view: GaugeView)
    ensures
        view.label@ == gauge_label(gauge.label@, gauge.percent),
        view.ratio_millionths == gauge_ratio(gauge.percent),
{
    let mut label: Vec<char> = Vec::new();
    push_str(&mut label, gauge.label.as_str());
    push_str(&mut label, ": ");
    gauge.percent.push_fixed(&mut label, 1);
    push_str(&mut label, "%");
    proof {
        assert(label@ =~= gauge_label(gauge.label@, gauge.percent));
    }
    GaugeView { label: to_text(&label), ratio_millionths: gauge_fill(&gauge.percent) }
}

/// The tab of one module.
pub fn tab_view(config: &Config, name: &str, selected: bool) -> (tab: TabView)
    ensures
        tab.text@ == tab_text(name@, selected),
        tab.color == color_of(theme_named(*config, name@).fg@),
        tab.selected == selected,
{
    let shown = to_upper(&to_chars(name));
    let mut text: Vec<char> = Vec::new();
    if selected {
        push_str(&mut text, " [");
        push_all(&mut text, &shown);
        push_str(&mut text, "] ");
    } else {
        push_str(&mut text, "  ");
        push_all(&mut text, &shown);
        push_str(&mut text, "  ");
    }
    proof {
        assert(text@ =~= tab_text(name@, selected));
    }
    TabView { text: to_text(&text), color: module_fg_color(config, name), selected }
}

/// The panel of one module.
pub fn panel_view(config: &Config, name: &str, data: &MetricData, selected: bool) -> (panel:
    PanelView)
    ensures
        panel.shows(
            *config,
            Section { name: name@, moment: data.moment(), pairs: data.pairs() },
            selected,
        ),
{
    let fg = module_fg_color(config, name);
    let accent = module_accent_color(config, name);
    let border = if selected {
        fg
    } else {
        parse_color(config.theme.chrome.border.as_str())
    };
    let mut title: Vec<char> = Vec::new();
    push_str(&mut title, " ");
    push_str(&mut title, module_label(config, name).as_str());
    push_str(&mut title, " ");
    proof {
        assert(title@ =~= " "@ + label_of(*config, name@) + " "@);
    }
    let gauge = match extract_gauge(name, data) {
        Some(found) => Some(gauge_view(&found)),
        None => None,
    };
    let entries = data.entries();
    let mut lines: Vec<DetailLine> = Vec::new();
    let mut k: usize = 0;
    while k < entries.len()
        invariant
            k <= entries.len(),
            pairs_of(entries@) == data.pairs(),
            lines.len() == k,
            forall|j: int|
                0 <= j < k ==> (#[trigger] lines@[j]).key@ == data.pairs()[j].0 + ": "@
                    && lines@[j].value@ == value_text(data.pairs()[j].1, true),
        decreases entries.len() - k,
    {
        let mut key: Vec<char> = Vec::new();
        push_str(&mut key, entries[k].0.as_str());
        push_str(&mut key, ": ");
        proof {
            assert(key@ =~= data.pairs()[k as int].0 + ": "@);
        }
        lines.push(DetailLine { key: to_text(&key), value: metric_display(&entries[k].1) });
        k += 1;
    }
    PanelView { title: to_text(&title), fg, accent, border, gauge, lines }
}

/// The tabs of the header: one for each module of the snapshot, in order;
/// none before the first round.
pub fn draw_header(app: &App) -> (tabs: Vec<TabView>)
    ensures
        tabs@.len() == app@.tab_count(),
        forall|i: int|
            0 <= i < tabs@.len() ==> (#[trigger] tabs@[i]).shows(
                app.settings(),
                app@.sections->0[i],
                i == app@.selected_tab,
            ),
{
    let mut tabs: Vec<TabView> = Vec::new();
    match app.snapshot() {
        Some(snapshot) => {
            let mut i: usize = 0;
            while i < snapshot.modules.len()
                invariant
                    i <= snapshot.modules.len(),
                    app@.sections == Some(snapshot@),
                    tabs.len() == i,
                    forall|j: int|
                        0 <= j < i ==> (#[trigger] tabs@[j]).shows(
                            app.settings(),
                            snapshot@[j],
                            j == app@.selected_tab,
                        ),
                decreases snapshot.modules.len() - i,
            {
                let tab = tab_view(
                    app.config(),
                    snapshot.modules[i].0.as_str(),
                    i == app.selected_tab(),
                );
                tabs.push(tab);
                i += 1;
            }
        },
        None => {},
    }
    tabs
}

/// The panels of the body: one for each module of the snapshot, in order;
/// none before the first round.
pub fn draw_modules(app: &App) -> (panels: Vec<PanelView>)
    ensures
        panels@.len() == app@.tab_count(),
        forall|i: int|
            0 <= i < panels@.len() ==> (#[trigger] panels@[i]).shows(
                app.settings(),
                app@.sections->0[i],
                i == app@.selected_tab,
            ),
{
    let mut panels: Vec<PanelView> = Vec::new();
    match app.snapshot() {
        Some(snapshot) => {
            let mut i: usize = 0;
            while i < snapshot.modules.len()
                invariant
                    i <= snapshot.modules.len(),
                    app@.sections == Some(snapshot@),
                    panels.len() == i,
                    forall|j: int|
                        0 <= j < i ==> (#[trigger] panels@[j]).shows(
                            app.settings(),
                            snapshot@[j],
                            j == app@.selected_tab,
                        ),
                decreases snapshot.modules.len() - i,
            {
                let panel = panel_view(
                    app.config(),
                    snapshot.modules[i].0.as_str(),
                    &snapshot.modules[i].1,
                    i == app.selected_tab(),
                );
                proof {
                    assert(snapshot@[i as int] == (Section {
                        name: snapshot.modules@[i as int].0@,
                        moment: snapshot.modules@[i as int].1.moment(),
                        pairs: snapshot.modules@[i as int].1.pairs(),
                    }));
                }
                panels.push(panel);
                i += 1;
            }
        },
        None => {},
    }
    panels
}

/// The legend of the keys, piece by piece, with the keys themselves in bold.
pub open spec fn legend() -> Seq<(Seq<char>, bool)> {
    seq![
        ("q"@, true),
        (" quit  "@, false),
        ("\u{2190}/\u{2192}"@, true),
        (" switch tab  "@, false),
        ("Tab"@, true),
        (" next  "@, false),
    ]
}

/// The content of a legend.
pub open spec fn legend_of(items: Seq<LegendItem>) -> Seq<(Seq<char>, bool)> {
    Seq::new(items.len(), |i: int| (items[i].text@, items[i].bold))
}

/// The legend of the footer; none where the configuration hides it.
pub fn draw_footer(app: &App) -> (footer: Option<Vec<LegendItem>>)
    ensures
        match footer {
            Some(items) => app.settings().tui.show_help && legend_of(items@) == legend(),
            None => !app.settings().tui.show_help,
        },
{
    if !app.config().tui.show_help {
        return None;
    }
    let mut items: Vec<LegendItem> = Vec::new();
    items.push(LegendItem { text: "q".to_owned(), bold: true });
    items.push(LegendItem { text: " quit  ".to_owned(), bold: false });
    items.push(LegendItem { text: "\u{2190}/\u{2192}".to_owned(), bold: true });
    items.push(LegendItem { text: " switch tab  ".to_owned(), bold: false });
    items.push(LegendItem { text: "Tab".to_owned(), bold: true });
    items.push(LegendItem { text: " next  ".to_owned(), bold: false });
    proof {
        assert(legend_of(items@) =~= legend());
    }
    Some(items)
}

/// The whole frame: the header's tabs, the panels and the footer, with the
/// border style and the colors of the theme.
pub fn draw_ui(app: &App) -> (frame: FrameView)
    ensures
        frame.borders == app.settings().tui.borders,
        frame.border == color_of(app.settings().theme.chrome.border@),
        frame.title == color_of(app.settings().theme.chrome.title@),
        frame.tabs@.len() == app@.tab_count(),
        frame.panels@.len() == app@.tab_count(),
        forall|i: int|
            0 <= i < frame.tabs@.len() ==> (#[trigger] frame.tabs@[i]).shows(
                app.settings(),
                app@.sections->0[i],
                i == app@.selected_tab,
            ),
        forall|i: int|
            0 <= i < frame.panels@.len() ==> (#[trigger] frame.panels@[i]).shows(
                app.settings(),
                app@.sections->0[i],
                i == app@.selected_tab,
            ),
        match frame.footer {
            Some(items) => app.settings().tui.show_help && legend_of(items@) == legend(),
            None => !app.settings().tui.show_help,
        },
{
    let config = app.config();
    FrameView {
        borders: config.tui.borders,
        border: parse_color(config.theme.chrome.border.as_str()),
        title: parse_color(config.theme.chrome.title.as_str()),
        tabs: draw_header(app),
        panels: draw_modules(app),
        footer: draw_footer(app),
    }
}

} // verus!
