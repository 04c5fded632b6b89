//! Orders of the process table: by CPU load, by memory, or GPU-active
//! processes first. Every order is a stable sort, descending on its key.

use vstd::prelude::*;
use crate::ieee::{bits_lt, is_nan, order_key, value_lt};
use crate::metrics::ProcessInfo;

verus! {

/// Column a process table is ordered by.
#[derive(Clone, Copy, Debug, PartialEq, Eq, Structural)]
pub enum SortKey {
    Cpu,
    Memory,
}

/// The orders the process tables use.
#[derive(Clone, Copy, Debug, PartialEq, Eq, Structural)]
pub enum ProcOrder {
    /// Highest CPU usage first.
    CpuDesc,
    /// Largest memory first.
    MemoryDesc,
    /// Processes with an active GPU context first, each group by memory,
    /// largest first.
    GpuFirst,
}

/// `a` must stand before `b` in order `o`: `a` compares strictly smaller
/// under the order's comparator. For `CpuDesc` this is `b.cpu < a.cpu` on the
/// floating-point values, which a NaN never satisfies.
pub open spec fn precedes(o: ProcOrder, a: ProcessInfo, b: ProcessInfo) -> bool {
    match o {
        ProcOrder::CpuDesc => value_lt(b.cpu_usage_bits, a.cpu_usage_bits),
        ProcOrder::MemoryDesc => a.memory_bytes > b.memory_bytes,
        ProcOrder::GpuFirst => (a.gpu_active && !b.gpu_active) || (a.gpu_active == b.gpu_active
            && a.memory_bytes > b.memory_bytes),
    }
}

/// The order a table uses: GPU-first when asked, else by its column.
pub open spec fn table_order(sort: SortKey, gpu_first: bool) -> ProcOrder {
    if gpu_first {
        ProcOrder::GpuFirst
    } else {
        match sort {
            SortKey::Cpu => ProcOrder::CpuDesc,
            SortKey::Memory => ProcOrder::MemoryDesc,
        }
    }
}

/// The key of `a` in order `o` is an ordinary number (its CPU usage is not
/// NaN, where the order looks at it).
pub open spec fn keyed(o: ProcOrder, a: ProcessInfo) -> bool {
    o == ProcOrder::CpuDesc ==> !is_nan(a.cpu_usage_bits)
}

/// Every process of `s` has an ordinary key in order `o`, so that `o` is a
/// strict weak order on `s`.
pub open spec fn orderable(o: ProcOrder, s: Seq<ProcessInfo>) -> bool {
    forall|k: int| 0 <= k < s.len() ==> keyed(o, #[trigger] s[k])
}

/// `p` is a permutation of the indices `0..n`.
pub open spec fn is_permutation(p: Seq<int>, n: int) -> bool {
    &&& p.len() == n
    &&& forall|k: int| 0 <= k < n ==> 0 <= #[trigger] p[k] < n
    &&& forall|k: int, l: int| 0 <= k < l < n ==> #[trigger] p[k] != #[trigger] p[l]
}

/// `out` holds the elements of `inp` rearranged by `p`: `out[k] == inp[p[k]]`.
pub open spec fn arranges(out: Seq<ProcessInfo>, inp: Seq<ProcessInfo>, p: Seq<int>) -> bool {
    &&& out.len() == inp.len()
    &&& is_permutation(p, inp.len() as int)
    &&& forall|k: int| 0 <= k < out.len() ==> out[k] == inp[#[trigger] p[k]]
}

/// No element of `s` must stand before an element to its left.
pub open spec fn sorted_by(o: ProcOrder, s: Seq<ProcessInfo>) -> bool {
    forall|k: int, l: int| 0 <= k < l < s.len() ==> !precedes(o, #[trigger] s[l], #[trigger] s[k])
}

/// Elements that tie in order `o` keep their relative order from the input.
pub open spec fn stable(o: ProcOrder, out: Seq<ProcessInfo>, p: Seq<int>) -> bool {
    forall|k: int, l: int|
        0 <= k < l < out.len() && !precedes(o, #[trigger] out[k], #[trigger] out[l]) ==> p[k] < p[l]
}

/// `out` is what a stable sort of `inp` by order `o` gives: a rearrangement
/// of `inp`, and, where `o` is a strict weak order on `inp`, ordered by `o`
/// with ties in their input order.
pub open spec fn stable_sort_of(o: ProcOrder, out: Seq<ProcessInfo>, inp: Seq<ProcessInfo>) -> bool {
    exists|p: Seq<int>|
        #![trigger arranges(out, inp, p)]
        arranges(out, inp, p) && (orderable(o, inp) ==> sorted_by(o, out) && stable(o, out, p))
}

/// The key of a process in order `o`, as one integer: where both keys are
/// ordinary, `a` must precede `b` exactly when its rank is larger.
pub open spec fn rank(o: ProcOrder, a: ProcessInfo) -> int {
    match o {
        ProcOrder::CpuDesc => order_key(a.cpu_usage_bits),
        ProcOrder::MemoryDesc => a.memory_bytes as int,
        ProcOrder::GpuFirst => (if a.gpu_active { 0x1_0000_0000_0000_0000int } else { 0int })
            + a.memory_bytes,
    }
}

proof fn lemma_precedes_rank(o: ProcOrder, a: ProcessInfo, b: ProcessInfo)
    requires
        keyed(o, a),
        keyed(o, b),
    ensures
        precedes(o, a, b) == (rank(o, a) > rank(o, b)),
{
}

fn precedes_exec(o: ProcOrder, a: &ProcessInfo, b: &ProcessInfo) -> (r: bool)
    ensures
        r == precedes(o, *a, *b),
{
    match o {
        ProcOrder::CpuDesc => bits_lt(b.cpu_usage_bits, a.cpu_usage_bits),
        ProcOrder::MemoryDesc => a.memory_bytes > b.memory_bytes,
        ProcOrder::GpuFirst => (a.gpu_active && !b.gpu_active) || (a.gpu_active == b.gpu_active
            && a.memory_bytes > b.memory_bytes),
    }
}

/// Stable insertion sort of `v` by order `o`.
pub fn stable_sort(v: &mut Vec<ProcessInfo>, o: ProcOrder)
    ensures
        stable_sort_of(o, final(v)@, old(v)@),
{
    let ghost inp = v@;
    let ghost mut p: Seq<int> = Seq::empty();
    let n: usize = v.len();
    let mut i: usize = 0;
    while i < n
        invariant
            0 <= i <= n,
            n == v@.len(),
            inp.len() == n,
            p.len() == i,
            forall|k: int| 0 <= k < i ==> 0 <= #[trigger] p[k] < i,
            forall|k: int, l: int| 0 <= k < l < i ==> #[trigger] p[k] != #[trigger] p[l],
            forall|k: int| 0 <= k < i ==> v@[k] == inp[#[trigger] p[k]],
            forall|k: int| i <= k < n ==> #[trigger] v@[k] == inp[k],
            orderable(o, inp) ==> orderable(o, v@),
            orderable(o, inp) ==> forall|k: int, l: int|
                0 <= k < l < i ==> rank(o, #[trigger] v@[k]) >= rank(o, #[trigger] v@[l]),
            orderable(o, inp) ==> forall|k: int, l: int|
                0 <= k < l < i && rank(o, #[trigger] v@[k]) == rank(o, #[trigger] v@[l]) ==> p[k]
                    < p[l],
        decreases n - i,
    {
        let mut j: usize = 0;
        while j < i && !precedes_exec(o, &v[i], &v[j])
            invariant
                0 <= j <= i < n,
                n == v@.len(),
                forall|k: int| 0 <= k < j ==> !precedes(o, v@[i as int], #[trigger] v@[k]),
            decreases i - j,
        {
            j = j + 1;
        }
        let ghost before = v@;
        let ghost x = v@[i as int];
        proof {
            if orderable(o, inp) {
                assert(keyed(o, before[i as int]));
                assert forall|k: int| 0 <= k < j implies rank(o, x) <= rank(o, #[trigger] before[k]) by {
                    assert(keyed(o, before[k]));
                    lemma_precedes_rank(o, x, before[k]);
                }
                if j < i {
                    assert(keyed(o, before[j as int]));
                    lemma_precedes_rank(o, x, before[j as int]);
                    assert(rank(o, x) > rank(o, before[j as int]));
                }
            }
        }
        let item = v.remove(i);
        v.insert(j, item);
        proof {
            let old_p = p;
            p = p.insert(j as int, i as int);
            assert(v@ == before.remove(i as int).insert(j as int, x));
            assert forall|k: int| 0 <= k < i + 1 implies v@[k] == inp[#[trigger] p[k]] by {
                if k < j {
                    assert(v@[k] == before[k]);
                    assert(p[k] == old_p[k]);
                } else if k == j {
                } else {
                    assert(v@[k] == before[k - 1]);
                    assert(p[k] == old_p[k - 1]);
                }
            }
            assert forall|k: int| 0 <= k < i + 1 implies 0 <= #[trigger] p[k] < i + 1 by {
                if k < j {
                    assert(p[k] == old_p[k]);
                } else if k > j {
                    assert(p[k] == old_p[k - 1]);
                }
            }
            assert forall|k: int, l: int| 0 <= k < l < i + 1 implies #[trigger] p[k]
                != #[trigger] p[l] by {
                if k < j {
                    assert(p[k] == old_p[k]);
                } else if k > j {
                    assert(p[k] == old_p[k - 1]);
                }
                if l < j {
                    assert(p[l] == old_p[l]);
                } else if l > j {
                    assert(p[l] == old_p[l - 1]);
                }
            }
            assert forall|k: int| i + 1 <= k < n implies #[trigger] v@[k] == inp[k] by {
                assert(v@[k] == before[k]);
            }
            if orderable(o, inp) {
                assert forall|k: int| 0 <= k < n implies keyed(o, #[trigger] v@[k]) by {
                    if k < j {
                        assert(v@[k] == before[k]);
                    } else if k == j {
                        assert(keyed(o, before[i as int]));
                    } else if k <= i {
                        assert(v@[k] == before[k - 1]);
                    } else {
                        assert(v@[k] == before[k]);
                    }
                }
                assert forall|k: int, l: int| 0 <= k < l < i + 1 implies rank(o, #[trigger] v@[k])
                    >= rank(o, #[trigger] v@[l]) by {
                    let a = if k < j { k } else if k == j { -1 } else { k - 1 };
                    let b = if l < j { l } else if l == j { -1 } else { l - 1 };
                    if k < j {
                        assert(v@[k] == before[k]);
                    } else if k > j {
                        assert(v@[k] == before[k - 1]);
                    }
                    if l < j {
                        assert(v@[l] == before[l]);
                    } else if l > j {
                        assert(v@[l] == before[l - 1]);
                    }
                    if k == j {
                        assert(rank(o, before[j as int]) >= rank(o, before[l - 1]));
                    }
                    if l == j {
                        assert(rank(o, x) <= rank(o, before[k]));
                    }
                    if a >= 0 && b >= 0 {
                        assert(rank(o, before[a]) >= rank(o, before[b]));
                    }
                }
                assert forall|k: int, l: int|
                    0 <= k < l < i + 1 && rank(o, #[trigger] v@[k]) == rank(o, #[trigger] v@[l])
                    implies p[k] < p[l] by {
                    if k < j {
                        assert(v@[k] == before[k]);
                        assert(p[k] == old_p[k]);
                    } else if k > j {
                        assert(v@[k] == before[k - 1]);
                        assert(p[k] == old_p[k - 1]);
                    }
                    if l < j {
                        assert(v@[l] == before[l]);
                        assert(p[l] == old_p[l]);
                    } else if l > j {
                        assert(v@[l] == before[l - 1]);
                        assert(p[l] == old_p[l - 1]);
                    }
                    if k == j {
                        assert(rank(o, before[j as int]) >= rank(o, before[l - 1]));
                    }
                    if k < j && l > j {
                        assert(rank(o, before[k]) >= rank(o, before[l - 1]));
                        assert(old_p[k] != old_p[l - 1]);
                    }
                    if k > j {
                        assert(rank(o, before[k - 1]) >= rank(o, before[l - 1]));
                    }
                }
            }
        }
        i = i + 1;
    }
    proof {
        if orderable(o, inp) {
            assert forall|k: int, l: int| 0 <= k < l < v@.len() implies !precedes(
                o,
                #[trigger] v@[l],
                #[trigger] v@[k],
            ) by {
                assert(keyed(o, v@[k]));
                assert(keyed(o, v@[l]));
                lemma_precedes_rank(o, v@[l], v@[k]);
            }
            assert forall|k: int, l: int|
                0 <= k < l < v@.len() && !precedes(o, #[trigger] v@[k], #[trigger] v@[l]) implies p[k]
                < p[l] by {
                assert(keyed(o, v@[k]));
                assert(keyed(o, v@[l]));
                lemma_precedes_rank(o, v@[k], v@[l]);
            }
        }
        assert(arranges(v@, inp, p));
    }
}

/// Orders the processes of a table by the given column, largest first,
/// keeping tied processes in their order.
pub fn sort_procs(procs: &mut Vec<ProcessInfo>, key: SortKey)
    ensures
        stable_sort_of(table_order(key, false), final(procs)@, old(procs)@),
{
    let o = match key {
        SortKey::Cpu => ProcOrder::CpuDesc,
        SortKey::Memory => ProcOrder::MemoryDesc,
    };
    stable_sort(procs, o);
}

/// Puts the processes that hold an active GPU context first, each group
/// by memory, largest first, keeping tied processes in their order.
pub fn sort_gpu_first(procs: &mut Vec<ProcessInfo>)
    ensures
        stable_sort_of(ProcOrder::GpuFirst, final(procs)@, old(procs)@),
{
    stable_sort(procs, ProcOrder::GpuFirst);
}

/// The rows of a process table: GPU-first when `gpu_first`, else by `sort`.
pub fn sorted_procs(procs: Vec<ProcessInfo>, sort: SortKey, gpu_first: bool) -> (r: Vec<
    ProcessInfo,
>)
    ensures
        stable_sort_of(table_order(sort, gpu_first), r@, procs@),
        r@.len() == procs@.len(),
        gpu_first ==> forall|k: int, l: int|
            0 <= k < l < r@.len() && #[trigger] r@[l].gpu_active ==> #[trigger] r@[k].gpu_active,
{
    let ghost inp = procs@;
    let mut procs = procs;
    if gpu_first {
        sort_gpu_first(&mut procs);
    } else {
        sort_procs(&mut procs, sort);
    }
    proof {
        lemma_table_orders(sort, gpu_first, procs@, inp);
    }
    procs
}

/// How many processes of `s` hold an active GPU context.
pub open spec fn gpu_active_total(s: Seq<ProcessInfo>) -> nat
    decreases s.len(),
{
    if s.len() == 0 {
        0
    } else {
        gpu_active_total(s.drop_last()) + if s.last().gpu_active {
            1nat
        } else {
            0nat
        }
    }
}

/// Number of processes with an active GPU context.
pub fn gpu_active_count(procs: &Vec<ProcessInfo>) -> (r: usize)
    ensures
        r == gpu_active_total(procs@),
        r == gpu_active_procs(procs@).len(),
{
    let mut count: usize = 0;
    let mut i: usize = 0;
    while i < procs.len()
        invariant
            0 <= i <= procs@.len(),
            count == gpu_active_total(procs@.take(i as int)),
            count <= i,
        decreases procs@.len() - i,
    {
        assert(procs@.take(i + 1).drop_last() == procs@.take(i as int));
        if procs[i].gpu_active {
            count = count + 1;
        }
        i = i + 1;
    }
    assert(procs@.take(procs@.len() as int) == procs@);
    proof {
        lemma_gpu_count_is_filter_len(procs@);
    }
    count
}

/// Sorting a table that is already in order leaves it exactly as it was:
/// a stable sort of an ordered list is that list (so sorting twice gives
/// what sorting once gives).
pub proof fn lemma_sorted_input_is_kept(o: ProcOrder, out: Seq<ProcessInfo>, inp: Seq<ProcessInfo>)
    requires
        stable_sort_of(o, out, inp),
        orderable(o, inp),
        sorted_by(o, inp),
    ensures
        out == inp,
{
    let p = choose|p: Seq<int>| #[trigger] arranges(out, inp, p) && (orderable(o, inp) ==> sorted_by(o, out) && stable(o, out, p));
    let n: int = inp.len() as int;
    assert forall|k: int, l: int| 0 <= k < l < n implies #[trigger] p[k] < #[trigger] p[l] by {
        assert(keyed(o, inp[p[k]]));
        assert(keyed(o, inp[p[l]]));
        assert(out[k] == inp[p[k]]);
        assert(out[l] == inp[p[l]]);
        lemma_precedes_rank(o, out[k], out[l]);
        lemma_precedes_rank(o, out[l], out[k]);
        if p[l] < p[k] {
            lemma_precedes_rank(o, inp[p[k]], inp[p[l]]);
            assert(!precedes(o, inp[p[k]], inp[p[l]]));
        }
    }
    lemma_increasing_permutation_is_identity(p, n);
    assert forall|k: int| 0 <= k < n implies out[k] == inp[k] by {
        assert(p[k] == k);
    }
    assert(out =~= inp);
}

/// An increasing permutation of `0..n` is the identity.
proof fn lemma_increasing_permutation_is_identity(p: Seq<int>, n: int)
    requires
        is_permutation(p, n),
        forall|k: int, l: int| 0 <= k < l < n ==> #[trigger] p[k] < #[trigger] p[l],
    ensures
        forall|k: int| 0 <= k < n ==> #[trigger] p[k] == k,
{
    assert forall|k: int| 0 <= k < n implies #[trigger] p[k] >= k by {
        lemma_increasing_lower_bound(p, n, k);
    }
    assert forall|k: int| 0 <= k < n implies #[trigger] p[k] <= k by {
        lemma_increasing_upper_bound(p, n, k);
    }
}

proof fn lemma_increasing_lower_bound(p: Seq<int>, n: int, k: int)
    requires
        is_permutation(p, n),
        forall|a: int, b: int| 0 <= a < b < n ==> #[trigger] p[a] < #[trigger] p[b],
        0 <= k < n,
    ensures
        p[k] >= k,
    decreases k,
{
    if k > 0 {
        lemma_increasing_lower_bound(p, n, k - 1);
        assert(p[k - 1] < p[k]);
    }
}

proof fn lemma_increasing_upper_bound(p: Seq<int>, n: int, k: int)
    requires
        is_permutation(p, n),
        forall|a: int, b: int| 0 <= a < b < n ==> #[trigger] p[a] < #[trigger] p[b],
        0 <= k < n,
    ensures
        p[k] <= k,
    decreases n - k,
{
    if k < n - 1 {
        lemma_increasing_upper_bound(p, n, k + 1);
        assert(p[k] < p[k + 1]);
    } else {
        assert(p[k] < n);
    }
}

/// In the GPU-first order every process with an active GPU context stands
/// before every process without one.
pub proof fn lemma_gpu_first_groups(out: Seq<ProcessInfo>, inp: Seq<ProcessInfo>)
    requires
        stable_sort_of(ProcOrder::GpuFirst, out, inp),
    ensures
        forall|k: int, l: int|
            0 <= k < l < out.len() && #[trigger] out[l].gpu_active ==> #[trigger] out[k].gpu_active,
{
    let p = choose|p: Seq<int>| #[trigger] arranges(out, inp, p) && (orderable(ProcOrder::GpuFirst, inp) ==> sorted_by(ProcOrder::GpuFirst, out) && stable(ProcOrder::GpuFirst, out, p));
    assert(orderable(ProcOrder::GpuFirst, inp));
    assert forall|k: int, l: int|
        0 <= k < l < out.len() && #[trigger] out[l].gpu_active implies #[trigger] out[k].gpu_active by {
        assert(!precedes(ProcOrder::GpuFirst, out[l], out[k]));
    }
}

/// The processes of `s` that hold an active GPU context, in order.
pub open spec fn gpu_active_procs(s: Seq<ProcessInfo>) -> Seq<ProcessInfo> {
    s.filter(|p: ProcessInfo| p.gpu_active)
}

/// The GPU-context count is the number of processes that hold an active GPU
/// context, whatever their other fields: the length of `s` filtered by
/// `gpu_active`.
pub proof fn lemma_gpu_count_is_filter_len(s: Seq<ProcessInfo>)
    ensures
        gpu_active_total(s) == gpu_active_procs(s).len(),
        gpu_active_total(s) <= s.len(),
    decreases s.len(),
{
    reveal_with_fuel(Seq::<_>::filter, 1);
    if s.len() > 0 {
        lemma_gpu_count_is_filter_len(s.drop_last());
    }
}

/// Counting only looks at the GPU flags: two tables with the same processes
/// by GPU flag, one for one, have the same count, and one more process with
/// (without) a GPU context adds one (nothing).
pub proof fn lemma_gpu_count_pushes(s: Seq<ProcessInfo>, p: ProcessInfo)
    ensures
        gpu_active_total(s.push(p)) == gpu_active_total(s) + if p.gpu_active { 1int } else { 0int },
{
    assert(s.push(p).drop_last() =~= s);
}

/// The table orders, stated on the rows themselves. Every table holds the
/// same number of rows as its input. The GPU-first table, whatever its
/// column, puts every process with an active GPU context before every
/// process without one, each group by memory, largest first. Otherwise the
/// memory table has memory descending, and the CPU table (when no CPU usage
/// is NaN) has CPU usage descending.
pub proof fn lemma_table_orders(
    sort: SortKey,
    gpu_first: bool,
    out: Seq<ProcessInfo>,
    inp: Seq<ProcessInfo>,
)
    requires
        stable_sort_of(table_order(sort, gpu_first), out, inp),
    ensures
        out.len() == inp.len(),
        gpu_first ==> forall|k: int, l: int|
            0 <= k < l < out.len() && #[trigger] out[l].gpu_active ==> #[trigger] out[k].gpu_active,
        gpu_first ==> forall|k: int, l: int|
            0 <= k < l < out.len() && #[trigger] out[k].gpu_active == #[trigger] out[l].gpu_active
                ==> out[k].memory_bytes >= out[l].memory_bytes,
        !gpu_first && sort == SortKey::Memory ==> forall|k: int, l: int|
            0 <= k < l < out.len() ==> #[trigger] out[k].memory_bytes >= #[trigger] out[l].memory_bytes,
        !gpu_first && sort == SortKey::Cpu && (forall|i: int|
            0 <= i < inp.len() ==> !is_nan(#[trigger] inp[i].cpu_usage_bits)) ==> forall|k: int, l: int|
            0 <= k < l < out.len() ==> !value_lt(
                #[trigger] out[k].cpu_usage_bits,
                #[trigger] out[l].cpu_usage_bits,
            ),
{
    let o = table_order(sort, gpu_first);
    let p = choose|p: Seq<int>| #[trigger] arranges(out, inp, p) && (orderable(o, inp) ==> sorted_by(o, out) && stable(o, out, p));
    if gpu_first {
        assert(o == ProcOrder::GpuFirst);
        assert(orderable(o, inp));
        assert forall|k: int, l: int|
            0 <= k < l < out.len() && #[trigger] out[l].gpu_active implies #[trigger] out[k].gpu_active by {
            assert(!precedes(o, out[l], out[k]));
        }
        assert forall|k: int, l: int|
            0 <= k < l < out.len() && #[trigger] out[k].gpu_active == #[trigger] out[l].gpu_active
            implies out[k].memory_bytes >= out[l].memory_bytes by {
            assert(!precedes(o, out[l], out[k]));
        }
    } else if sort == SortKey::Memory {
        assert(o == ProcOrder::MemoryDesc);
        assert(orderable(o, inp));
        assert forall|k: int, l: int| 0 <= k < l < out.len() implies #[trigger] out[k].memory_bytes
            >= #[trigger] out[l].memory_bytes by {
            assert(!precedes(o, out[l], out[k]));
        }
    } else {
        assert(o == ProcOrder::CpuDesc);
        if forall|i: int| 0 <= i < inp.len() ==> !is_nan(#[trigger] inp[i].cpu_usage_bits) {
            assert forall|k: int| 0 <= k < inp.len() implies keyed(o, #[trigger] inp[k]) by {
                assert(!is_nan(inp[k].cpu_usage_bits));
            }
            assert(orderable(o, inp));
            assert forall|k: int, l: int| 0 <= k < l < out.len() implies !value_lt(
                #[trigger] out[k].cpu_usage_bits,
                #[trigger] out[l].cpu_usage_bits,
            ) by {
                assert(out[k] == inp[p[k]]);
                assert(out[l] == inp[p[l]]);
                assert(!is_nan(inp[p[k]].cpu_usage_bits));
                assert(!is_nan(inp[p[l]].cpu_usage_bits));
                assert(!precedes(o, out[l], out[k]));
            }
        }
    }
}

} // verus!
