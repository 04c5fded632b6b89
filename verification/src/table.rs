//! The process table's interaction: which row is selected, what the arrow
//! keys and the kill key do, and how rows and columns are labelled.

use vstd::prelude::*;
use crate::metrics::ProcessInfo;
use crate::procs::SortKey;
use crate::text::str_eq;

verus! {

/// The keys the table reacts to.
#[derive(Clone, Copy, Debug, PartialEq, Eq, Structural)]
pub enum Key {
    /// `ArrowDown`: select the next row.
    Down,
    /// `ArrowUp`: select the previous row.
    Up,
    /// `k` or `K`: kill the selected process.
    Kill,
    /// Any other key: ignored.
    Other,
}

/// The key that a key name (as the browser reports it) stands for.
pub open spec fn key_named(name: Seq<char>) -> Key {
    if name == seq!['A', 'r', 'r', 'o', 'w', 'D', 'o', 'w', 'n'] {
        Key::Down
    } else if name == seq!['A', 'r', 'r', 'o', 'w', 'U', 'p'] {
        Key::Up
    } else if name == seq!['k'] || name == seq!['K'] {
        Key::Kill
    } else {
        Key::Other
    }
}

/// The key that the key name `name` stands for.
pub fn key_from_name(name: &str) -> (k: Key)
    ensures
        k == key_named(name@),
{
    proof {
        reveal_strlit("ArrowDown");
        reveal_strlit("ArrowUp");
        reveal_strlit("k");
        reveal_strlit("K");
        assert("ArrowDown"@ =~= seq!['A', 'r', 'r', 'o', 'w', 'D', 'o', 'w', 'n']);
        assert("ArrowUp"@ =~= seq!['A', 'r', 'r', 'o', 'w', 'U', 'p']);
        assert("k"@ =~= seq!['k']);
        assert("K"@ =~= seq!['K']);
    }
    if str_eq(name, "ArrowDown") {
        Key::Down
    } else if str_eq(name, "ArrowUp") {
        Key::Up
    } else if str_eq(name, "k") || str_eq(name, "K") {
        Key::Kill
    } else {
        Key::Other
    }
}

/// What the table does in answer to a key.
#[derive(Clone, Copy, Debug, PartialEq, Eq, Structural)]
pub enum TableAction {
    /// Select the process with this id.
    Select(u32),
    /// Ask to kill the process with this id.
    Kill(u32),
    /// Nothing.
    Nothing,
}

/// The answer to a key: whether the browser's default handling of the key
/// is suppressed, and the table's action.
#[derive(Clone, Copy, Debug, PartialEq, Eq, Structural)]
pub struct KeyOutcome {
    pub prevent_default: bool,
    pub action: TableAction,
}

/// Index of the first row of process `pid`.
pub open spec fn row_of_pid(rows: Seq<ProcessInfo>, pid: u32) -> Option<nat>
    decreases rows.len(),
{
    if rows.len() == 0 {
        None
    } else if rows[0].pid == pid {
        Some(0)
    } else {
        match row_of_pid(rows.drop_first(), pid) {
            Some(i) => Some(i + 1),
            None => None,
        }
    }
}

/// The row the selection stands on: the first row of the selected process,
/// or the top row when nothing is selected or the process is gone.
pub open spec fn current_row(rows: Seq<ProcessInfo>, selected: Option<u32>) -> nat {
    match selected {
        Some(pid) => match row_of_pid(rows, pid) {
            Some(i) => i,
            None => 0,
        },
        None => 0,
    }
}

/// Selecting the row at index `i`, if there is one.
pub open spec fn select_row(rows: Seq<ProcessInfo>, i: int) -> TableAction {
    if 0 <= i < rows.len() {
        TableAction::Select(rows[i].pid)
    } else {
        TableAction::Nothing
    }
}

/// The table's answer to `key`: the arrows move the selection one row down
/// or up, staying within the table, and suppress the default scrolling;
/// the kill key asks to kill the selected process, if any.
pub open spec fn key_outcome(rows: Seq<ProcessInfo>, selected: Option<u32>, key: Key) -> KeyOutcome {
    let cur = current_row(rows, selected) as int;
    let last = if rows.len() == 0 {
        0
    } else {
        rows.len() - 1
    };
    match key {
        Key::Down => KeyOutcome {
            prevent_default: true,
            action: select_row(rows, if cur + 1 < last { cur + 1 } else { last }),
        },
        Key::Up => KeyOutcome {
            prevent_default: true,
            action: select_row(rows, if cur == 0 { 0 } else { cur - 1 }),
        },
        Key::Kill => KeyOutcome {
            prevent_default: false,
            action: match selected {
                Some(pid) => TableAction::Kill(pid),
                None => TableAction::Nothing,
            },
        },
        Key::Other => KeyOutcome { prevent_default: false, action: TableAction::Nothing },
    }
}

proof fn lemma_row_of_pid(rows: Seq<ProcessInfo>, pid: u32, k: int)
    requires
        0 <= k <= rows.len(),
        forall|i: int| 0 <= i < k ==> rows[i].pid != pid,
    ensures
        k < rows.len() && rows[k].pid == pid ==> row_of_pid(rows, pid) == Some(k as nat),
        k == rows.len() ==> row_of_pid(rows, pid) is None,
    decreases k,
{
    if k > 0 {
        lemma_row_of_pid(rows.drop_first(), pid, k - 1);
    }
}

/// The current row of the selection.
fn find_current_row(rows: &Vec<ProcessInfo>, selected: Option<u32>) -> (r: usize)
    ensures
        r == current_row(rows@, selected),
{
    match selected {
        None => 0,
        Some(pid) => {
            let mut i: usize = 0;
            while i < rows.len() && rows[i].pid != pid
                invariant
                    0 <= i <= rows@.len(),
                    forall|k: int| 0 <= k < i ==> rows@[k].pid != pid,
                decreases rows@.len() - i,
            {
                i = i + 1;
            }
            proof {
                lemma_row_of_pid(rows@, pid, i as int);
            }
            if i < rows.len() {
                i
            } else {
                0
            }
        },
    }
}

/// The table's answer to `key`, with the rows as shown and the selected
/// process.
pub fn handle_key(rows: &Vec<ProcessInfo>, selected: Option<u32>, key: Key) -> (r: KeyOutcome)
    ensures
        r == key_outcome(rows@, selected, key),
{
    let cur = find_current_row(rows, selected);
    let n = rows.len();
    let last: usize = if n == 0 {
        0
    } else {
        n - 1
    };
    match key {
        Key::Down => {
            let next: usize = if cur < last {
                cur + 1
            } else {
                last
            };
            let action = if next < n {
                TableAction::Select(rows[next].pid)
            } else {
                TableAction::Nothing
            };
            KeyOutcome { prevent_default: true, action }
        },
        Key::Up => {
            let prev: usize = if cur == 0 {
                0
            } else {
                cur - 1
            };
            let action = if prev < n {
                TableAction::Select(rows[prev].pid)
            } else {
                TableAction::Nothing
            };
            KeyOutcome { prevent_default: true, action }
        },
        Key::Kill => KeyOutcome {
            prevent_default: false,
            action: match selected {
                Some(pid) => TableAction::Kill(pid),
                None => TableAction::Nothing,
            },
        },
        Key::Other => KeyOutcome { prevent_default: false, action: TableAction::Nothing },
    }
}

/// No two rows show the same process.
pub open spec fn distinct_pids(rows: Seq<ProcessInfo>) -> bool {
    forall|i: int, j: int| 0 <= i < j < rows.len() ==> #[trigger] rows[i].pid != #[trigger] rows[j].pid
}

/// In a table whose rows show distinct processes, moving the selection
/// down from any row but the last, then up again, comes back to that row.
pub proof fn lemma_down_then_up(rows: Seq<ProcessInfo>, i: int)
    requires
        distinct_pids(rows),
        0 <= i,
        i + 1 < rows.len(),
    ensures
        key_outcome(rows, Some(rows[i].pid), Key::Down).action == TableAction::Select(rows[i + 1].pid),
        key_outcome(rows, Some(rows[i + 1].pid), Key::Up).action == TableAction::Select(rows[i].pid),
{
    lemma_row_of_pid(rows, rows[i].pid, i);
    lemma_row_of_pid(rows, rows[i + 1].pid, i + 1);
}

/// In a table whose rows show distinct processes, moving the selection up
/// from any row but the first, then down again, comes back to that row.
pub proof fn lemma_up_then_down(rows: Seq<ProcessInfo>, i: int)
    requires
        distinct_pids(rows),
        0 < i < rows.len(),
    ensures
        key_outcome(rows, Some(rows[i].pid), Key::Up).action == TableAction::Select(rows[i - 1].pid),
        key_outcome(rows, Some(rows[i - 1].pid), Key::Down).action == TableAction::Select(rows[i].pid),
{
    lemma_row_of_pid(rows, rows[i].pid, i);
    lemma_row_of_pid(rows, rows[i - 1].pid, i - 1);
}

/// The headers of a table's two figure columns: the sorted column first.
pub fn column_labels(sort: SortKey) -> (r: (&'static str, &'static str))
    ensures
        sort == SortKey::Cpu ==> r.0@ == seq!['C', 'P', 'U', '%'] && r.1@ == seq!['M', 'e', 'm'],
        sort == SortKey::Memory ==> r.0@ == seq!['M', 'e', 'm'] && r.1@ == seq!['C', 'P', 'U', '%'],
{
    proof {
        reveal_strlit("CPU%");
        reveal_strlit("Mem");
        assert("CPU%"@ =~= seq!['C', 'P', 'U', '%']);
        assert("Mem"@ =~= seq!['M', 'e', 'm']);
    }
    match sort {
        SortKey::Cpu => ("CPU%", "Mem"),
        SortKey::Memory => ("Mem", "CPU%"),
    }
}

/// How a row is highlighted.
#[derive(Clone, Copy, Debug, PartialEq, Eq, Structural)]
pub enum RowStyle {
    /// The selected row.
    Selected,
    /// A process with an active GPU context, in the GPU-first table.
    GpuActive,
    /// Any other row.
    Plain,
}

/// The highlight of a row: the selection wins; in the GPU-first table,
/// processes with an active GPU context stand out.
pub fn row_style(gpu_first: bool, selected: bool, gpu_active: bool) -> (r: RowStyle)
    ensures
        r == (if selected {
            RowStyle::Selected
        } else if gpu_first && gpu_active {
            RowStyle::GpuActive
        } else {
            RowStyle::Plain
        }),
{
    if selected {
        RowStyle::Selected
    } else if gpu_first && gpu_active {
        RowStyle::GpuActive
    } else {
        RowStyle::Plain
    }
}

/// The keys on a table whose rows show distinct processes, with the
/// process of row `i` selected: the down arrow selects row `i + 1`, or stays
/// on the last row; the up arrow selects row `i - 1`, or stays on the first
/// row; both suppress the default scrolling. The kill key asks to kill the
/// selected process and lets the key through; any other key does nothing.
pub proof fn lemma_keys_on_selected_row(rows: Seq<ProcessInfo>, i: int)
    requires
        distinct_pids(rows),
        0 <= i < rows.len(),
    ensures
        key_outcome(rows, Some(rows[i].pid), Key::Down) == (KeyOutcome {
            prevent_default: true,
            action: TableAction::Select(rows[if i + 1 < rows.len() { i + 1 } else { i }].pid),
        }),
        key_outcome(rows, Some(rows[i].pid), Key::Up) == (KeyOutcome {
            prevent_default: true,
            action: TableAction::Select(rows[if i > 0 { i - 1 } else { 0 }].pid),
        }),
        key_outcome(rows, Some(rows[i].pid), Key::Kill) == (KeyOutcome {
            prevent_default: false,
            action: TableAction::Kill(rows[i].pid),
        }),
        key_outcome(rows, Some(rows[i].pid), Key::Other) == (KeyOutcome {
            prevent_default: false,
            action: TableAction::Nothing,
        }),
{
    lemma_row_of_pid(rows, rows[i].pid, i);
}

/// Without a selection on the table (nothing selected, or a process no row
/// shows), the arrows act as from the top row: down selects the second row
/// (the only row, in a one-row table), up selects the top row, and an
/// empty table selects nothing.
pub proof fn lemma_keys_without_selection(rows: Seq<ProcessInfo>, selected: Option<u32>)
    requires
        match selected {
            Some(pid) => forall|k: int| 0 <= k < rows.len() ==> #[trigger] rows[k].pid != pid,
            None => true,
        },
    ensures
        key_outcome(rows, selected, Key::Down).action == (if rows.len() == 0 {
            TableAction::Nothing
        } else {
            TableAction::Select(rows[if rows.len() > 1 { 1int } else { 0int }].pid)
        }),
        key_outcome(rows, selected, Key::Up).action == (if rows.len() == 0 {
            TableAction::Nothing
        } else {
            TableAction::Select(rows[0].pid)
        }),
{
    if let Some(pid) = selected {
        lemma_row_of_pid(rows, pid, rows.len() as int);
    }
}

/// The down arrow never moves the selection up, and moves it at most one
/// row; the up arrow never moves it down, and at most one row.
pub proof fn lemma_arrows_move_one_row(rows: Seq<ProcessInfo>, i: int, j: int)
    requires
        distinct_pids(rows),
        0 <= i < rows.len(),
        0 <= j < rows.len(),
    ensures
        key_outcome(rows, Some(rows[i].pid), Key::Down).action == TableAction::Select(rows[j].pid)
            ==> i <= j <= i + 1,
        key_outcome(rows, Some(rows[i].pid), Key::Up).action == TableAction::Select(rows[j].pid)
            ==> i - 1 <= j <= i,
{
    lemma_keys_on_selected_row(rows, i);
}

} // verus!
