//! Decoding of the accelerator registry's client records: every GPU client
//! carries a creator string `"pid NNN, processname"`, from which the
//! process id is read.

use vstd::prelude::*;
use vstd::utf8::{decode_utf8, valid_utf8};
use std::collections::HashSet;
use crate::text::{chars_of, decimal, digit_char};

verus! {

broadcast use vstd::std_specs::hash::group_hash_axioms;

/// Characters with the Unicode `White_Space` property, the ones that
/// trimming removes.
pub open spec fn is_white_space(c: char) -> bool {
    ||| '\u{9}' <= c <= '\u{d}'
    ||| c == ' '
    ||| c == '\u{85}'
    ||| c == '\u{a0}'
    ||| c == '\u{1680}'
    ||| '\u{2000}' <= c <= '\u{200a}'
    ||| c == '\u{2028}'
    ||| c == '\u{2029}'
    ||| c == '\u{202f}'
    ||| c == '\u{205f}'
    ||| c == '\u{3000}'
}

fn white_space(c: char) -> (r: bool)
    ensures
        r == is_white_space(c),
{
    ('\u{9}' <= c && c <= '\u{d}') || c == ' ' || c == '\u{85}' || c == '\u{a0}' || c
        == '\u{1680}' || ('\u{2000}' <= c && c <= '\u{200a}') || c == '\u{2028}' || c
        == '\u{2029}' || c == '\u{202f}' || c == '\u{205f}' || c == '\u{3000}'
}

/// The characters of `s` before the first `c` (all of `s` when there is none).
pub open spec fn take_until(s: Seq<char>, c: char) -> Seq<char>
    decreases s.len(),
{
    if s.len() == 0 || s[0] == c {
        Seq::empty()
    } else {
        seq![s[0]] + take_until(s.drop_first(), c)
    }
}

/// `s` without its leading white space.
pub open spec fn trim_start(s: Seq<char>) -> Seq<char>
    decreases s.len(),
{
    if s.len() > 0 && is_white_space(s[0]) {
        trim_start(s.drop_first())
    } else {
        s
    }
}

/// `s` without its trailing white space.
pub open spec fn trim_end(s: Seq<char>) -> Seq<char>
    decreases s.len(),
{
    if s.len() > 0 && is_white_space(s.last()) {
        trim_end(s.drop_last())
    } else {
        s
    }
}

/// `s` without leading and trailing white space.
pub open spec fn trim(s: Seq<char>) -> Seq<char> {
    trim_end(trim_start(s))
}

/// Every character of `s` is an ASCII decimal digit.
pub open spec fn all_digits(s: Seq<char>) -> bool {
    forall|i: int| 0 <= i < s.len() ==> '0' <= #[trigger] s[i] <= '9'
}

/// The number that the decimal digits `s` write.
pub open spec fn digits_value(s: Seq<char>) -> nat
    decreases s.len(),
{
    if s.len() == 0 {
        0
    } else {
        digits_value(s.drop_last()) * 10 + (s.last() as nat - '0' as nat) as nat
    }
}

/// Reading a `u32` written in decimal: an optional `+`, then one or more
/// digits whose value fits in 32 bits.
pub open spec fn parse_u32(s: Seq<char>) -> Option<u32> {
    let d = if s.len() > 0 && s[0] == '+' {
        s.drop_first()
    } else {
        s
    };
    if d.len() > 0 && all_digits(d) && digits_value(d) <= u32::MAX {
        Some(digits_value(d) as u32)
    } else {
        None
    }
}

/// The process id of a creator string: the text before the first NUL must
/// start with `"pid "`; what follows, up to the first comma and trimmed of
/// white space, is read as a `u32`.
pub open spec fn creator_pid(s: Seq<char>) -> Option<u32> {
    let line = take_until(s, '\0');
    if line.len() >= 4 && line.take(4) == seq!['p', 'i', 'd', ' '] {
        parse_u32(trim(take_until(line.skip(4), ',')))
    } else {
        None
    }
}

/// The process id of a creator record as the registry stores it: UTF-8
/// bytes. Bytes that are not UTF-8 give no id.
pub open spec fn creator_bytes_pid(b: Seq<u8>) -> Option<u32> {
    if valid_utf8(b) {
        creator_pid(decode_utf8(b))
    } else {
        None
    }
}

proof fn lemma_take_until(s: Seq<char>, c: char, k: int)
    requires
        0 <= k <= s.len(),
        forall|i: int| 0 <= i < k ==> s[i] != c,
        k == s.len() || s[k] == c,
    ensures
        take_until(s, c) == s.take(k),
    decreases s.len(),
{
    if s.len() == 0 || s[0] == c {
        assert(k == 0);
    } else {
        lemma_take_until(s.drop_first(), c, k - 1);
        assert(seq![s[0]] + s.drop_first().take(k - 1) =~= s.take(k));
    }
}

proof fn lemma_trim_start(s: Seq<char>, k: int)
    requires
        0 <= k <= s.len(),
        forall|i: int| 0 <= i < k ==> is_white_space(#[trigger] s[i]),
        k == s.len() || !is_white_space(s[k]),
    ensures
        trim_start(s) == s.skip(k),
    decreases s.len(),
{
    if s.len() > 0 && is_white_space(s[0]) {
        assert(k > 0);
        assert forall|i: int| 0 <= i < k - 1 implies is_white_space(#[trigger] s.drop_first()[i]) by {
            assert(s.drop_first()[i] == s[i + 1]);
        }
        lemma_trim_start(s.drop_first(), k - 1);
        assert(s.drop_first().skip(k - 1) =~= s.skip(k));
    } else {
        assert(k == 0);
        assert(s.skip(0) =~= s);
    }
}

proof fn lemma_trim_end(s: Seq<char>, k: int)
    requires
        0 <= k <= s.len(),
        forall|i: int| k <= i < s.len() ==> is_white_space(#[trigger] s[i]),
        k == 0 || !is_white_space(s[k - 1]),
    ensures
        trim_end(s) == s.take(k),
    decreases s.len(),
{
    if s.len() > 0 && is_white_space(s.last()) {
        assert(k < s.len());
        lemma_trim_end(s.drop_last(), k);
        assert(s.drop_last().take(k) =~= s.take(k));
    } else {
        assert(k == s.len());
        assert(s.take(k) =~= s);
    }
}

proof fn lemma_digits_value_prefix(s: Seq<char>, i: int)
    requires
        0 <= i <= s.len(),
        all_digits(s),
    ensures
        digits_value(s.take(i)) <= digits_value(s),
    decreases s.len() - i,
{
    if i < s.len() {
        lemma_digits_value_prefix(s, i + 1);
        assert(s.take(i + 1).drop_last() =~= s.take(i));
        assert('0' <= s[i] <= '9');
    } else {
        assert(s.take(i) =~= s);
    }
}

/// Reads the decimal `u32` written by `cs[lo..hi]`.
fn parse_u32_at(cs: &Vec<char>, lo: usize, hi: usize) -> (r: Option<u32>)
    requires
        lo <= hi <= cs@.len(),
    ensures
        r == parse_u32(cs@.subrange(lo as int, hi as int)),
{
    let ghost s = cs@.subrange(lo as int, hi as int);
    let mut start: usize = lo;
    if lo < hi && cs[lo] == '+' {
        start = lo + 1;
    }
    let ghost d = cs@.subrange(start as int, hi as int);
    assert(d == (if s.len() > 0 && s[0] == '+' { s.drop_first() } else { s }));
    if start == hi {
        return None;
    }
    let mut value: u64 = 0;
    let mut i: usize = start;
    while i < hi
        invariant
            lo <= start <= i <= hi <= cs@.len(),
            s == cs@.subrange(lo as int, hi as int),
            d == cs@.subrange(start as int, hi as int),
            d == (if s.len() > 0 && s[0] == '+' { s.drop_first() } else { s }),
            d.len() > 0,
            all_digits(d.take(i - start)),
            value == digits_value(d.take(i - start)),
            value <= u32::MAX,
        decreases hi - i,
    {
        let c = cs[i];
        if c < '0' || c > '9' {
            assert(d[i - start] == c);
            assert(!all_digits(d));
            return None;
        }
        let digit: u64 = ((c as u32) - ('0' as u32)) as u64;
        let ghost t = d.take(i - start + 1);
        assert(t.drop_last() =~= d.take(i - start));
        assert(t.last() == c);
        value = value * 10 + digit;
        assert(value == digits_value(t));
        if value > 0xffff_ffff {
            proof {
                if all_digits(d) {
                    lemma_digits_value_prefix(d, i - start + 1);
                }
            }
            return None;
        }
        i = i + 1;
    }
    assert(d.take(i - start) =~= d);
    Some(value as u32)
}

/// Index of the first `c` in `cs[lo..hi]`, or `hi` when there is none.
fn find_char(cs: &Vec<char>, lo: usize, hi: usize, c: char) -> (k: usize)
    requires
        lo <= hi <= cs@.len(),
    ensures
        lo <= k <= hi,
        forall|i: int| lo <= i < k ==> cs@[i] != c,
        k == hi || cs@[k as int] == c,
{
    let mut k: usize = lo;
    while k < hi && cs[k] != c
        invariant
            lo <= k <= hi <= cs@.len(),
            forall|i: int| lo <= i < k ==> cs@[i] != c,
        decreases hi - k,
    {
        k = k + 1;
    }
    k
}

/// The process id of a creator string, or `None` when it has none.
pub fn pid_from_creator(s: &str) -> (r: Option<u32>)
    ensures
        r == creator_pid(s@),
{
    let cs = chars_of(s);
    let n: usize = cs.len();
    let end: usize = find_char(&cs, 0, n, '\0');
    proof {
        lemma_take_until(cs@, '\0', end as int);
    }
    let ghost line = cs@.take(end as int);
    if end < 4 || cs[0] != 'p' || cs[1] != 'i' || cs[2] != 'd' || cs[3] != ' ' {
        proof {
            if line.len() >= 4 {
                assert(line.take(4)[0] == cs@[0]);
                assert(line.take(4)[1] == cs@[1]);
                assert(line.take(4)[2] == cs@[2]);
                assert(line.take(4)[3] == cs@[3]);
            }
        }
        return None;
    }
    assert(line.take(4) =~= seq!['p', 'i', 'd', ' ']);
    let comma: usize = find_char(&cs, 4, end, ',');
    let ghost rest = line.skip(4);
    assert(rest =~= cs@.subrange(4, end as int));
    proof {
        lemma_take_until(rest, ',', comma - 4);
    }
    assert(rest.take(comma - 4) =~= cs@.subrange(4, comma as int));
    let mut a: usize = 4;
    while a < comma && white_space(cs[a])
        invariant
            4 <= a <= comma <= end <= n == cs@.len(),
            forall|i: int| 4 <= i < a ==> is_white_space(#[trigger] cs@[i]),
        decreases comma - a,
    {
        a = a + 1;
    }
    let ghost field = cs@.subrange(4, comma as int);
    proof {
        assert forall|i: int| 0 <= i < a - 4 implies is_white_space(#[trigger] field[i]) by {
            assert(field[i] == cs@[i + 4]);
        }
        lemma_trim_start(field, a - 4);
    }
    assert(field.skip(a - 4) =~= cs@.subrange(a as int, comma as int));
    let mut b: usize = comma;
    while b > a && white_space(cs[b - 1])
        invariant
            4 <= a <= b <= comma <= end <= n == cs@.len(),
            forall|i: int| b <= i < comma ==> is_white_space(#[trigger] cs@[i]),
        decreases b - a,
    {
        b = b - 1;
    }
    let ghost started = cs@.subrange(a as int, comma as int);
    proof {
        assert forall|i: int| b - a <= i < started.len() implies is_white_space(
            #[trigger] started[i],
        ) by {
            assert(started[i] == cs@[i + a]);
        }
        lemma_trim_end(started, b - a);
    }
    assert(started.take(b - a) =~= cs@.subrange(a as int, b as int));
    parse_u32_at(&cs, a, b)
}

/// `std::str::from_utf8`: the bytes as a string when they are valid UTF-8.
/// Trusted to give `Some` exactly for valid UTF-8, with the decoded
/// characters.
#[verifier::external_body]
fn str_from_utf8(bytes: &[u8]) -> (r: Option<&str>)
    ensures
        r is Some <==> valid_utf8(bytes@),
        r matches Some(s) ==> s@ == decode_utf8(bytes@),
{
    std::str::from_utf8(bytes).ok()
}

/// The process id of a creator record read from the registry as bytes (the
/// text, then NUL padding), or `None` when the record carries none.
pub fn client_pid(buf: &[u8]) -> (r: Option<u32>)
    ensures
        r == creator_bytes_pid(buf@),
{
    match str_from_utf8(buf) {
        Some(s) => pid_from_creator(s),
        None => None,
    }
}

/// The process ids that a list of creator records name; records without a
/// process id add nothing.
pub open spec fn pids_of(records: Seq<Vec<u8>>) -> Set<u32> {
    Set::new(|pid: u32| exists|i: int| 0 <= i < records.len() && creator_bytes_pid(#[trigger] records[i]@) == Some(pid))
}

/// The set of process ids that hold a GPU context, from the creator records
/// of the accelerator's clients.
pub fn client_pids(records: &Vec<Vec<u8>>) -> (r: HashSet<u32>)
    ensures
        r@ == pids_of(records@),
{
    let mut pids: HashSet<u32> = HashSet::new();
    let mut i: usize = 0;
    while i < records.len()
        invariant
            0 <= i <= records@.len(),
            pids@ == pids_of(records@.take(i as int)),
        decreases records@.len() - i,
    {
        let found = client_pid(records[i].as_slice());
        let ghost before = records@.take(i as int);
        let ghost after = records@.take(i + 1);
        match found {
            Some(pid) => {
                pids.insert(pid);
            },
            None => {},
        }
        assert forall|q: u32| #[trigger] pids@.contains(q) == pids_of(after).contains(q) by {
            if pids_of(before).contains(q) {
                let k = choose|k: int| 0 <= k < before.len() && creator_bytes_pid(#[trigger] before[k]@) == Some(q);
                assert(after[k] == before[k]);
            }
            if pids_of(after).contains(q) {
                let k = choose|k: int| 0 <= k < after.len() && creator_bytes_pid(#[trigger] after[k]@) == Some(q);
                if k < i {
                    assert(after[k] == before[k]);
                } else {
                    assert(after[k] == records@[i as int]);
                }
            }
            if found == Some(q) {
                assert(after[i as int] == records@[i as int]);
            }
        }
        assert(pids@ =~= pids_of(after));
        i = i + 1;
    }
    assert(records@.take(records@.len() as int) =~= records@);
    pids
}

proof fn lemma_digit_value(d: nat)
    requires
        d < 10,
    ensures
        '0' <= digit_char(d) <= '9',
        (digit_char(d) as nat - '0' as nat) as nat == d,
{
}

proof fn lemma_decimal_digits(n: nat)
    ensures
        decimal(n).len() >= 1,
        all_digits(decimal(n)),
        digits_value(decimal(n)) == n,
    decreases n,
{
    lemma_digit_value(n % 10);
    if n >= 10 {
        lemma_decimal_digits(n / 10);
        let d = decimal(n);
        assert(d.drop_last() =~= decimal(n / 10));
        assert(d.last() == digit_char(n % 10));
        assert forall|i: int| 0 <= i < d.len() implies '0' <= #[trigger] d[i] <= '9' by {
            if i < d.len() - 1 {
                assert(d[i] == decimal(n / 10)[i]);
            }
        }
        assert(digits_value(d) == digits_value(decimal(n / 10)) * 10 + (digit_char(n % 10) as nat
            - '0' as nat) as nat);
    } else {
        assert(decimal(n).drop_last() =~= Seq::<char>::empty());
        assert(digits_value(decimal(n)) == digits_value(Seq::<char>::empty()) * 10 + (digit_char(n % 10) as nat
            - '0' as nat) as nat);
    }
}

/// The creator strings that the registry writes, `"pid NNN, processname"`,
/// give back the process id `NNN`, whatever the process name (short of a
/// NUL, which would end the string).
pub proof fn lemma_creator_round_trip(pid: u32, name: Seq<char>)
    requires
        forall|i: int| 0 <= i < name.len() ==> name[i] != '\0',
    ensures
        creator_pid(seq!['p', 'i', 'd', ' '] + decimal(pid as nat) + seq![',', ' '] + name) == Some(
            pid,
        ),
{
    let digits = decimal(pid as nat);
    lemma_decimal_digits(pid as nat);
    let s = seq!['p', 'i', 'd', ' '] + digits + seq![',', ' '] + name;
    assert forall|i: int| 0 <= i < s.len() implies s[i] != '\0' by {
        if 4 <= i < 4 + digits.len() {
            assert(s[i] == digits[i - 4]);
        } else if i >= 6 + digits.len() {
            assert(s[i] == name[i - 6 - digits.len()]);
        }
    }
    lemma_take_until(s, '\0', s.len() as int);
    assert(s.take(s.len() as int) =~= s);
    assert(s.take(4) =~= seq!['p', 'i', 'd', ' ']);
    let rest = s.skip(4);
    assert(rest =~= digits + seq![',', ' '] + name);
    assert forall|i: int| 0 <= i < digits.len() implies rest[i] != ',' by {
        assert(rest[i] == digits[i]);
    }
    lemma_take_until(rest, ',', digits.len() as int);
    assert(rest.take(digits.len() as int) =~= digits);
    lemma_trim_start(digits, 0);
    assert(digits.skip(0) =~= digits);
    lemma_trim_end(digits, digits.len() as int);
    assert(digits.take(digits.len() as int) =~= digits);
    assert(digits[0] != '+');
}

} // verus!
