use vstd::prelude::*;

verus! {

/// The sum of a table of counters.
pub open spec fn total(s: Seq<u32>) -> int
    decreases s.len(),
{
    if s.len() == 0 {
        0
    } else {
        total(s.drop_last()) + s.last()
    }
}

/// How many of the writes `0 .. writes` land on slot `slot` of a table of
/// `len` slots, when write `i` goes to slot `i % len`.
pub open spec fn hits(writes: int, len: int, slot: int) -> int {
    writes / len + if slot < writes % len { 1int } else { 0int }
}

/// Changing one entry changes the total by the same amount.
proof fn lemma_total_update(s: Seq<u32>, i: int, v: u32)
    requires
        0 <= i < s.len(),
    ensures
        total(s.update(i, v)) == total(s) - s[i] + v,
    decreases s.len(),
{
    if i == s.len() - 1 {
        assert(s.update(i, v).drop_last() =~= s.drop_last());
    } else {
        lemma_total_update(s.drop_last(), i, v);
        assert(s.update(i, v).drop_last() =~= s.drop_last().update(i, v));
    }
}

/// The slot counts of `writes + 1` writes are those of `writes` writes, with
/// one more at slot `writes % len`.
proof fn lemma_hits_step(writes: int, len: int, slot: int)
    requires
        0 <= writes,
        0 < len,
        0 <= slot < len,
    ensures
        hits(writes + 1, len, slot) == hits(writes, len, slot) + if slot == writes % len { 1int } else { 0int },
{
    vstd::arithmetic::div_mod::lemma_fundamental_div_mod(writes, len);
    vstd::arithmetic::div_mod::lemma_fundamental_div_mod(writes + 1, len);
    vstd::arithmetic::div_mod::lemma_mod_bound(writes, len);
    vstd::arithmetic::div_mod::lemma_mod_bound(writes + 1, len);
    let q: int = writes / len;
    let r: int = writes % len;
    assert(writes == q * len + r) by (nonlinear_arith)
        requires
            writes == len * q + r,
    ;
    if r + 1 < len {
        vstd::arithmetic::div_mod::lemma_fundamental_div_mod_converse(writes + 1, len, q, r + 1);
    } else {
        assert(writes + 1 == (q + 1) * len + 0) by (nonlinear_arith)
            requires
                writes == q * len + r,
                r + 1 == len,
        ;
        vstd::arithmetic::div_mod::lemma_fundamental_div_mod_converse(writes + 1, len, q + 1, 0);
    }
}

/// One write: adds one to slot `i % table.len()`.
pub fn write_slot(table: &mut Vec<u32>, i: usize)
    requires
        old(table)@.len() > 0,
        old(table)@[i as int % old(table)@.len() as int] < u32::MAX,
    ensures
        final(table)@ == old(table)@.update(
            i as int % old(table)@.len() as int,
            (old(table)@[i as int % old(table)@.len() as int] + 1) as u32,
        ),
        total(final(table)@) == total(old(table)@) + 1,
{
    let slot: usize = i % table.len();
    proof {
        lemma_total_update(table@, slot as int, (table@[slot as int] + 1) as u32);
    }
    table.set(slot, table[slot] + 1);
}

/// One writer's turn: adds one to slot `i % table.len()` for each `i` in
/// `0 .. writes`.
pub fn write_round(table: &mut Vec<u32>, writes: usize)
    requires
        old(table)@.len() > 0,
        forall|j: int|
            0 <= j < old(table)@.len() ==> old(table)@[j] + hits(
                writes as int,
                old(table)@.len() as int,
                j,
            ) <= u32::MAX,
    ensures
        final(table)@.len() == old(table)@.len(),
        forall|j: int|
            0 <= j < old(table)@.len() ==> #[trigger] final(table)@[j] == old(table)@[j] + hits(
                writes as int,
                old(table)@.len() as int,
                j,
            ),
        total(final(table)@) == total(old(table)@) + writes,
{
    let len: usize = table.len();
    let mut i: usize = 0;
    while i < writes
        invariant
            i <= writes,
            len == old(table)@.len(),
            len > 0,
            table@.len() == len,
            forall|j: int|
                0 <= j < len ==> old(table)@[j] + hits(writes as int, len as int, j) <= u32::MAX,
            forall|j: int|
                0 <= j < len ==> #[trigger] table@[j] == old(table)@[j] + hits(i as int, len as int, j),
            total(table@) == total(old(table)@) + i,
        decreases writes - i,
    {
        let slot: usize = i % len;
        proof {
            lemma_hits_step(i as int, len as int, slot as int);
            assert(hits(i as int + 1, len as int, slot as int) <= hits(writes as int, len as int, slot as int)) by {
                vstd::arithmetic::div_mod::lemma_div_is_ordered(i as int + 1, writes as int, len as int);
                if (i as int + 1) / len as int == writes as int / len as int {
                    vstd::arithmetic::div_mod::lemma_fundamental_div_mod(i as int + 1, len as int);
                    vstd::arithmetic::div_mod::lemma_fundamental_div_mod(writes as int, len as int);
                } else {
                    vstd::arithmetic::div_mod::lemma_mod_bound(i as int + 1, len as int);
                }
            }
        }
        write_slot(table, i);
        proof {
            assert forall|j: int| 0 <= j < len implies #[trigger] table@[j] == old(table)@[j] + hits(
                i as int + 1,
                len as int,
                j,
            ) by {
                lemma_hits_step(i as int, len as int, j);
            }
        }
        i = i + 1;
    }
}

/// The sum of the table, as a reader computes it.
pub fn sum_table(table: &[u32]) -> (sum: u32)
    requires
        total(table@) <= u32::MAX,
    ensures
        sum == total(table@),
{
    let mut sum: u32 = 0;
    let mut i: usize = 0;
    while i < table.len()
        invariant
            i <= table@.len(),
            total(table@) <= u32::MAX,
            sum == total(table@.take(i as int)),
        decreases table@.len() - i,
    {
        proof {
            assert(table@.take(i as int + 1).drop_last() =~= table@.take(i as int));
            lemma_prefix_total_bounded(table@, i as int + 1);
        }
        sum = sum + table[i];
        i = i + 1;
    }
    assert(table@.take(i as int) =~= table@);
    sum
}

/// A prefix of a table of counters sums to no more than the whole table.
proof fn lemma_prefix_total_bounded(s: Seq<u32>, k: int)
    requires
        0 <= k <= s.len(),
    ensures
        total(s.take(k)) <= total(s),
    decreases s.len(),
{
    if k < s.len() {
        lemma_prefix_total_bounded(s.drop_last(), k);
        assert(s.drop_last().take(k) =~= s.take(k));
    } else {
        assert(s.take(k) =~= s);
    }
}

} // verus!
