//! Elementary cellular automata (Wolfram rules), used as a complexity
//! reference: Rule 30 is chaotic.
use vstd::prelude::*;

verus! {

/// Index of the left neighbour of cell `i` in a ring of `n` cells.
pub open spec fn left_of(i: int, n: int) -> int {
    if i == 0 {
        n - 1
    } else {
        i - 1
    }
}

/// Index of the right neighbour of cell `i` in a ring of `n` cells.
pub open spec fn right_of(i: int, n: int) -> int {
    if i + 1 == n {
        0
    } else {
        i + 1
    }
}

/// The 3-bit neighbourhood code `left·4 + centre·2 + right`.
pub open spec fn neighbourhood(l: bool, c: bool, r: bool) -> u8 {
    ((if l { 4u8 } else { 0u8 }) + (if c { 2u8 } else { 0u8 }) + (if r { 1u8 } else { 0u8 })) as u8
}

/// Whether Wolfram rule `rule` turns a cell on for neighbourhood `idx`: bit
/// `idx` of the rule number.
pub open spec fn rule_bit(rule: u8, idx: u8) -> bool {
    (rule >> idx) & 1u8 == 1u8
}

/// The next state of cell `i` of `row`, with wrap-around at both ends.
pub open spec fn next_cell(row: Seq<bool>, rule: u8, i: int) -> bool {
    let n = row.len() as int;
    rule_bit(rule, neighbourhood(row[left_of(i, n)], row[i], row[right_of(i, n)]))
}

/// One step of an elementary CA with the given Wolfram `rule` (wrap-around).
pub fn rule_step(row: &[bool], rule: u8) -> (next: Vec<bool>)
    ensures
        next@.len() == row@.len(),
        forall|i: int| 0 <= i < row@.len() ==> #[trigger] next@[i] == next_cell(row@, rule, i),
{
    let n = row.len();
    let mut out: Vec<bool> = Vec::new();
    if n == 0 {
        return out;
    }
    let mut i: usize = 0;
    while i < n
        invariant
            n == row@.len(),
            n > 0,
            i <= n,
            out@.len() == i,
            forall|j: int| 0 <= j < i ==> #[trigger] out@[j] == next_cell(row@, rule, j),
        decreases n - i,
    {
        let li = if i == 0 {
            n - 1
        } else {
            i - 1
        };
        let ri = if i + 1 == n {
            0
        } else {
            i + 1
        };
        let l: u8 = if row[li] {
            4
        } else {
            0
        };
        let c: u8 = if row[i] {
            2
        } else {
            0
        };
        let r: u8 = if row[ri] {
            1
        } else {
            0
        };
        let idx: u8 = l + c + r;
        let on = (rule >> idx) & 1 == 1;
        out.push(on);
        i = i + 1;
    }
    out
}

/// Rule 30 — chaotic, used as a pseudo-randomness / complexity reference.
pub fn rule30_step(row: &[bool]) -> (next: Vec<bool>)
    ensures
        next@.len() == row@.len(),
        forall|i: int| 0 <= i < row@.len() ==> #[trigger] next@[i] == next_cell(row@, 30, i),
{
    rule_step(row, 30)
}

/// Law: Rule 30 turns a cell on exactly for the neighbourhoods `001`, `010`,
/// `011` and `100` (left XOR (centre OR right)).
pub proof fn lemma_rule30_is_xor(l: bool, c: bool, r: bool)
    ensures
        rule_bit(30, neighbourhood(l, c, r)) == (l != (c || r)),
{
    let idx = neighbourhood(l, c, r);
    assert(idx < 8);
    assert((30u8 >> 0u8) & 1u8 == 0u8) by (bit_vector);
    assert((30u8 >> 1u8) & 1u8 == 1u8) by (bit_vector);
    assert((30u8 >> 2u8) & 1u8 == 1u8) by (bit_vector);
    assert((30u8 >> 3u8) & 1u8 == 1u8) by (bit_vector);
    assert((30u8 >> 4u8) & 1u8 == 1u8) by (bit_vector);
    assert((30u8 >> 5u8) & 1u8 == 0u8) by (bit_vector);
    assert((30u8 >> 6u8) & 1u8 == 0u8) by (bit_vector);
    assert((30u8 >> 7u8) & 1u8 == 0u8) by (bit_vector);
}

} // verus!
