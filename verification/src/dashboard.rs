//! The dashboard's layout decisions: its tabs and what each shows, and the
//! memory bars of the overview.

use vstd::prelude::*;
use crate::metrics::MemStats;
use crate::procs::SortKey;
use crate::text::str_eq;
use crate::ieee::{bits_is_nan, bits_lt, value_ge, value_lt};

verus! {

/// The dashboard's tabs, in the order of the tab bar.
#[derive(Clone, Copy, Debug, PartialEq, Eq, Structural)]
pub enum Tab {
    Overview,
    Cpu,
    Gpu,
    Memory,
}

/// The name by which a tab is kept: `overview`, `cpu`, `gpu`, `memory`.
pub open spec fn tab_name(t: Tab) -> Seq<char> {
    match t {
        Tab::Overview => seq!['o', 'v', 'e', 'r', 'v', 'i', 'e', 'w'],
        Tab::Cpu => seq!['c', 'p', 'u'],
        Tab::Gpu => seq!['g', 'p', 'u'],
        Tab::Memory => seq!['m', 'e', 'm', 'o', 'r', 'y'],
    }
}

/// The ASCII upper case of a character.
pub open spec fn ascii_upper(c: char) -> char {
    if 'a' <= c <= 'z' {
        ((c as u32) - 32) as char
    } else {
        c
    }
}

/// What each tab shows.
#[derive(Clone, Copy, Debug, PartialEq, Eq, Structural)]
pub enum TabView {
    /// CPU cores, GPU engines and memory.
    Overview,
    /// The process table ordered by the given column.
    Processes(SortKey),
    /// GPU engines and the GPU-first process table.
    Gpu,
}

impl Tab {
    /// The tabs in the order of the tab bar.
    pub fn all() -> (r: Vec<Tab>)
        ensures
            r@ == seq![Tab::Overview, Tab::Cpu, Tab::Gpu, Tab::Memory],
    {
        vec![Tab::Overview, Tab::Cpu, Tab::Gpu, Tab::Memory]
    }

    /// The tab shown when the dashboard opens.
    pub fn initial() -> (r: Tab)
        ensures
            r == Tab::Overview,
    {
        Tab::Overview
    }

    /// The tab's name.
    pub fn name(self) -> (r: &'static str)
        ensures
            r@ == tab_name(self),
    {
        proof {
            reveal_strlit("overview");
            reveal_strlit("cpu");
            reveal_strlit("gpu");
            reveal_strlit("memory");
        }
        let r = match self {
            Tab::Overview => "overview",
            Tab::Cpu => "cpu",
            Tab::Gpu => "gpu",
            Tab::Memory => "memory",
        };
        assert(r@ =~= tab_name(self));
        r
    }

    /// The tab's caption in the tab bar: its name in upper case.
    pub fn label(self) -> (r: &'static str)
        ensures
            r@ == tab_name(self).map_values(|c: char| ascii_upper(c)),
    {
        proof {
            reveal_strlit("OVERVIEW");
            reveal_strlit("CPU");
            reveal_strlit("GPU");
            reveal_strlit("MEMORY");
        }
        let r = match self {
            Tab::Overview => "OVERVIEW",
            Tab::Cpu => "CPU",
            Tab::Gpu => "GPU",
            Tab::Memory => "MEMORY",
        };
        assert(r@ =~= tab_name(self).map_values(|c: char| ascii_upper(c)));
        r
    }

    /// What the tab shows: the CPU and memory tabs are the process table
    /// ordered by that column.
    pub fn view(self) -> (r: TabView)
        ensures
            r == (match self {
                Tab::Overview => TabView::Overview,
                Tab::Cpu => TabView::Processes(SortKey::Cpu),
                Tab::Gpu => TabView::Gpu,
                Tab::Memory => TabView::Processes(SortKey::Memory),
            }),
    {
        match self {
            Tab::Overview => TabView::Overview,
            Tab::Cpu => TabView::Processes(SortKey::Cpu),
            Tab::Gpu => TabView::Gpu,
            Tab::Memory => TabView::Processes(SortKey::Memory),
        }
    }

    /// The tab kept under `name`, if any (an unknown name shows nothing).
    pub fn from_name(name: &str) -> (r: Option<Tab>)
        ensures
            match r {
                Some(t) => tab_name(t) == name@,
                None => forall|t: Tab| tab_name(t) != name@,
            },
    {
        proof {
            reveal_strlit("overview");
            reveal_strlit("cpu");
            reveal_strlit("gpu");
            reveal_strlit("memory");
            assert("overview"@ =~= tab_name(Tab::Overview));
            assert("cpu"@ =~= tab_name(Tab::Cpu));
            assert("gpu"@ =~= tab_name(Tab::Gpu));
            assert("memory"@ =~= tab_name(Tab::Memory));
        }
        if str_eq(name, "overview") {
            Some(Tab::Overview)
        } else if str_eq(name, "cpu") {
            Some(Tab::Cpu)
        } else if str_eq(name, "gpu") {
            Some(Tab::Gpu)
        } else if str_eq(name, "memory") {
            Some(Tab::Memory)
        } else {
            proof {
                assert forall|t: Tab| tab_name(t) != name@ by {
                    match t {
                        Tab::Overview => {},
                        Tab::Cpu => {},
                        Tab::Gpu => {},
                        Tab::Memory => {},
                    }
                }
            }
            None
        }
    }
}

/// One bar of the overview's memory section: `bytes` out of `total`.
#[derive(Clone, Copy, Debug)]
pub struct MemBar {
    pub label: &'static str,
    pub bytes: u64,
    pub total: u64,
}

/// The overview's memory bars: used, wired, cached and available memory
/// against the total, then used swap against the swap total (taken as at
/// least one byte, so that an absent swap shows an empty bar).
pub open spec fn memory_bars_spec(m: MemStats, bars: Seq<MemBar>) -> bool {
    &&& bars.len() == 5
    &&& bars[0].label@ == seq!['U', 's', 'e', 'd'] && bars[0].bytes == m.used && bars[0].total == m.total
    &&& bars[1].label@ == seq!['W', 'i', 'r', 'e', 'd'] && bars[1].bytes == m.wired && bars[1].total
        == m.total
    &&& bars[2].label@ == seq!['C', 'a', 'c', 'h', 'e', 'd'] && bars[2].bytes == m.cached
        && bars[2].total == m.total
    &&& bars[3].label@ == seq!['A', 'v', 'a', 'i', 'l', 'a', 'b', 'l', 'e'] && bars[3].bytes
        == m.available && bars[3].total == m.total
    &&& bars[4].label@ == seq!['S', 'w', 'a', 'p', ' ', 'u', 's', 'e', 'd'] && bars[4].bytes
        == m.swap_used && bars[4].total == (if m.swap_total >= 1 { m.swap_total } else { 1 })
}

/// The overview's memory bars for the memory figures `m`.
pub fn memory_bars(m: &MemStats) -> (r: Vec<MemBar>)
    ensures
        memory_bars_spec(*m, r@),
        r@.len() == 5,
        r@[4].total == (if m.swap_total == 0 { 1 } else { m.swap_total }),
        forall|i: int| 0 <= i < 4 ==> #[trigger] r@[i].total == m.total,
{
    proof {
        reveal_strlit("Used");
        reveal_strlit("Wired");
        reveal_strlit("Cached");
        reveal_strlit("Available");
        reveal_strlit("Swap used");
    }
    let swap_total: u64 = if m.swap_total >= 1 {
        m.swap_total
    } else {
        1
    };
    let r = vec![
        MemBar { label: "Used", bytes: m.used, total: m.total },
        MemBar { label: "Wired", bytes: m.wired, total: m.total },
        MemBar { label: "Cached", bytes: m.cached, total: m.total },
        MemBar { label: "Available", bytes: m.available, total: m.total },
        MemBar { label: "Swap used", bytes: m.swap_used, total: swap_total },
    ];
    assert(r@[0].label@ =~= seq!['U', 's', 'e', 'd']);
    assert(r@[1].label@ =~= seq!['W', 'i', 'r', 'e', 'd']);
    assert(r@[2].label@ =~= seq!['C', 'a', 'c', 'h', 'e', 'd']);
    assert(r@[3].label@ =~= seq!['A', 'v', 'a', 'i', 'l', 'a', 'b', 'l', 'e']);
    assert(r@[4].label@ =~= seq!['S', 'w', 'a', 'p', ' ', 'u', 's', 'e', 'd']);
    r
}

/// Bit pattern of the single-precision value `100.0`.
pub const HUNDRED_BITS: u32 = 0x42c8_0000u32;

/// Bit pattern of the single-precision value `80.0`.
pub const EIGHTY_BITS: u32 = 0x42a0_0000u32;

/// Bit pattern of the single-precision value `50.0`.
pub const FIFTY_BITS: u32 = 0x4248_0000u32;

/// How loaded a usage bar is, which sets its colour.
#[derive(Clone, Copy, Debug, PartialEq, Eq, Structural)]
pub enum UsageLevel {
    /// 80 percent or more.
    High,
    /// From 50 up to 80 percent.
    Medium,
    /// Below 50 percent, or not a number.
    Low,
}

/// The level of a usage given in percent (as a bit pattern).
pub fn usage_level(pct_bits: u32) -> (r: UsageLevel)
    ensures
        r == (if value_ge(pct_bits, EIGHTY_BITS) {
            UsageLevel::High
        } else if value_ge(pct_bits, FIFTY_BITS) {
            UsageLevel::Medium
        } else {
            UsageLevel::Low
        }),
{
    let nan = bits_is_nan(pct_bits);
    if !nan && !bits_lt(pct_bits, EIGHTY_BITS) {
        UsageLevel::High
    } else if !nan && !bits_lt(pct_bits, FIFTY_BITS) {
        UsageLevel::Medium
    } else {
        UsageLevel::Low
    }
}

/// A usage in percent brought into `0..=100` (as a bit pattern): below
/// zero gives `+0.0`, above a hundred gives `100.0`, anything else (NaN
/// included) is kept.
pub fn clamp_percent(bits: u32) -> (r: u32)
    ensures
        r == (if value_lt(bits, 0) {
            0
        } else if value_lt(HUNDRED_BITS, bits) {
            HUNDRED_BITS
        } else {
            bits
        }),
{
    if bits_lt(bits, 0) {
        0
    } else if bits_lt(HUNDRED_BITS, bits) {
        HUNDRED_BITS
    } else {
        bits
    }
}

/// The overview's bars measure memory against the RAM total and swap
/// against the swap total: the four memory bars have the RAM total as their
/// total; the swap bar shows used swap out of the swap total, one byte when
/// there is no swap, so its total is never zero and never depends on RAM.
pub proof fn lemma_bar_totals(m: MemStats, bars: Seq<MemBar>)
    requires
        memory_bars_spec(m, bars),
    ensures
        bars.len() == 5,
        forall|i: int| 0 <= i < 4 ==> #[trigger] bars[i].total == m.total,
        bars[4].bytes == m.swap_used,
        m.swap_total > 0 ==> bars[4].total == m.swap_total,
        m.swap_total == 0 ==> bars[4].total == 1,
        bars[4].total >= 1,
{
}

/// Two memory figures with the same swap give the same swap bar, however
/// their RAM figures differ.
pub proof fn lemma_swap_bar_ignores_ram(m1: MemStats, b1: Seq<MemBar>, m2: MemStats, b2: Seq<MemBar>)
    requires
        memory_bars_spec(m1, b1),
        memory_bars_spec(m2, b2),
        m1.swap_total == m2.swap_total,
        m1.swap_used == m2.swap_used,
    ensures
        b1[4].bytes == b2[4].bytes,
        b1[4].total == b2[4].total,
{
}

} // verus!
