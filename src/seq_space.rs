//! Arithmetic on 32-bit sequence numbers, which wrap modulo 2^32.
use vstd::prelude::*;

verus! {

/// Distance travelled forward in sequence space from `from` to `to`, in `[0, 2^32)`.
pub open spec fn seq_diff(to: u32, from: u32) -> int {
    if to >= from {
        to - from
    } else {
        to - from + 0x1_0000_0000
    }
}

/// `x + n` in sequence space.
pub open spec fn seq_add(x: u32, n: int) -> u32 {
    ((x + n) % 0x1_0000_0000) as u32
}

/// Travelling forward from `start`, `value` is reached strictly before `end`,
/// and it is not `start` itself.
pub open spec fn in_open_interval(value: u32, start: u32, end: u32) -> bool {
    0 < seq_diff(value, start) < seq_diff(end, start)
}

/// `x` lies in the window `[base, base + wnd)` of sequence space.
pub open spec fn in_window(x: u32, base: u32, wnd: u16) -> bool {
    seq_diff(x, base) < wnd
}

/// `start < value < end` in wrapping sequence space.
pub fn is_between_values_wrapped(value: u32, start: u32, end: u32) -> (r: bool)
    ensures
        r == in_open_interval(value, start, end),
{
    let k: u32 = value.wrapping_sub(start);
    let n: u32 = end.wrapping_sub(start);
    0 < k && k < n
}

/// `x + n` with wrap-around, for a run-time `n`.
pub fn seq_add_exec(x: u32, n: u32) -> (r: u32)
    ensures
        r == seq_add(x, n as int),
{
    x.wrapping_add(n)
}

/// Stepping back by one and forward by `n` around a point lands where `seq_add` says.
pub proof fn lemma_seq_add_diff(x: u32, n: int)
    requires
        0 <= n < 0x1_0000_0000,
    ensures
        seq_diff(seq_add(x, n), x) == n,
{
}

/// An interval whose two ends coincide holds nothing; and measured from its start,
/// a point `k` steps on lies inside the interval that ends `n` steps on exactly when
/// `0 < k < n`.
pub proof fn lemma_open_interval(v: u32, a: u32, k: int, n: int)
    requires
        0 <= k < 0x1_0000_0000,
        0 <= n < 0x1_0000_0000,
    ensures
        !in_open_interval(v, a, a),
        in_open_interval(seq_add(a, k), a, seq_add(a, n)) <==> (0 < k && k < n),
{
    lemma_seq_add_diff(a, k);
    lemma_seq_add_diff(a, n);
}

/// Read as the window test of the receive side: `x` lies strictly between
/// `base - 1` and `base + wnd` exactly when it is in `[base, base + wnd)`.
pub proof fn lemma_window_as_interval(x: u32, base: u32, wnd: u16)
    ensures
        in_open_interval(x, seq_add(base, -1), seq_add(base, wnd as int)) == in_window(x, base, wnd),
{
}

} // verus!
