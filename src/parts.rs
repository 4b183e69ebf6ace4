use vstd::prelude::*;

verus! {

/// The largest part number that the `i32` part numbers of the storage
/// interface can carry.
pub const MAX_PART_NUMBER: u64 = 2147483647;

/// Number of full-size parts of a payload of `total` bytes.
pub open spec fn full_parts(total: nat, part_size: nat) -> nat
    recommends
        part_size > 0,
{
    total / part_size
}

/// Number of parts of a multipart upload: the full parts, then one more for
/// a non-empty remainder.
pub open spec fn part_count(total: nat, part_size: nat) -> nat
    recommends
        part_size > 0,
{
    if total % part_size > 0 {
        total / part_size + 1
    } else {
        total / part_size
    }
}

/// Size of the part at zero-based index `i`.
pub open spec fn part_size_at(total: nat, part_size: nat, i: nat) -> nat
    recommends
        part_size > 0,
{
    if i < total / part_size {
        part_size
    } else {
        total % part_size
    }
}

/// Bytes stored once the first `n` parts are stored.
pub open spec fn uploaded_after(total: nat, part_size: nat, n: nat) -> nat
    recommends
        part_size > 0,
{
    if n <= total / part_size {
        n * part_size
    } else {
        total
    }
}

/// Whether a payload of `total` bytes goes up in a single put.
pub open spec fn is_single_shot(total: nat, part_size: nat) -> bool {
    total < part_size
}

/// Storing one more part adds that part's size to the running total.
pub proof fn lemma_uploaded_step(total: nat, part_size: nat, n: nat)
    requires
        part_size > 0,
        n < part_count(total, part_size),
    ensures
        uploaded_after(total, part_size, n + 1) == uploaded_after(total, part_size, n)
            + part_size_at(total, part_size, n),
        uploaded_after(total, part_size, n) <= uploaded_after(total, part_size, n + 1),
        uploaded_after(total, part_size, n + 1) <= total,
{
    let q = total / part_size;
    let r = total % part_size;
    assert(total == q * part_size + r) by (nonlinear_arith)
        requires
            part_size > 0,
            q == total / part_size,
            r == total % part_size,
    ;
    if n + 1 <= q {
        assert((n + 1) * part_size == n * part_size + part_size) by (nonlinear_arith);
        assert((n + 1) * part_size <= q * part_size) by (nonlinear_arith)
            requires
                n + 1 <= q,
        ;
    }
}

/// The running total never exceeds the payload.
pub proof fn lemma_uploaded_bounded(total: nat, part_size: nat, n: nat)
    requires
        part_size > 0,
        n <= part_count(total, part_size),
    ensures
        uploaded_after(total, part_size, n) <= total,
        n == part_count(total, part_size) ==> uploaded_after(total, part_size, n) == total,
{
    let q = total / part_size;
    let r = total % part_size;
    assert(total == q * part_size + r) by (nonlinear_arith)
        requires
            part_size > 0,
            q == total / part_size,
            r == total % part_size,
    ;
    if n <= q {
        assert(n * part_size <= q * part_size) by (nonlinear_arith)
            requires
                n <= q,
        ;
    }
}

/// Before the last part is stored, the running total is below the payload.
pub proof fn lemma_uploaded_below(total: nat, part_size: nat, n: nat)
    requires
        part_size > 0,
        n < part_count(total, part_size),
    ensures
        uploaded_after(total, part_size, n) < total,
{
    let q = total / part_size;
    let r = total % part_size;
    assert(total == q * part_size + r) by (nonlinear_arith)
        requires
            part_size > 0,
            q == total / part_size,
            r == total % part_size,
    ;
    if n < q {
        assert(n * part_size < q * part_size) by (nonlinear_arith)
            requires
                n < q,
                part_size > 0,
        ;
    }
}

/// How a payload is split: a payload below the part size is one put; any other
/// is `ceil(total / part_size)` parts, each of the part size but the last,
/// which holds the remainder `total % part_size`, or a full part where the
/// remainder is zero; the parts' sizes add up to the payload.
pub proof fn lemma_part_plan(total: nat, part_size: nat)
    requires
        part_size > 0,
    ensures
        is_single_shot(total, part_size) <==> total < part_size,
        !is_single_shot(total, part_size) ==> part_count(total, part_size) >= 1,
        part_count(total, part_size) == (total + part_size - 1) / part_size as int,
        forall|i: nat|
            i + 1 < part_count(total, part_size) ==> #[trigger] part_size_at(total, part_size, i)
                == part_size,
        part_count(total, part_size) >= 1 ==> part_size_at(
            total,
            part_size,
            (part_count(total, part_size) - 1) as nat,
        ) == if total % part_size == 0 {
            part_size
        } else {
            total % part_size
        },
        forall|i: nat|
            i < part_count(total, part_size) ==> 0 < #[trigger] part_size_at(total, part_size, i)
                <= part_size,
        uploaded_after(total, part_size, part_count(total, part_size)) == total,
{
    let q = total / part_size;
    let r = total % part_size;
    assert(total == q * part_size + r) by (nonlinear_arith)
        requires
            part_size > 0,
            q == total / part_size,
            r == total % part_size,
    ;
    assert(r < part_size);
    if !is_single_shot(total, part_size) {
        assert(q >= 1) by (nonlinear_arith)
            requires
                total >= part_size,
                part_size > 0,
                q == total / part_size,
        ;
    }
    if r > 0 {
        assert(total + part_size - 1 == (q + 1) * part_size + (r - 1)) by (nonlinear_arith)
            requires
                total == q * part_size + r,
                r > 0,
        ;
        assert((total + part_size - 1) / part_size as int == q + 1) by (nonlinear_arith)
            requires
                total + part_size - 1 == (q + 1) * part_size + (r - 1),
                0 <= r - 1 < part_size,
        ;
    } else {
        assert(total + part_size - 1 == q * part_size + (part_size - 1)) by (nonlinear_arith)
            requires
                total == q * part_size + r,
                r == 0,
        ;
        assert((total + part_size - 1) / part_size as int == q) by (nonlinear_arith)
            requires
                total + part_size - 1 == q * part_size + (part_size - 1),
                part_size > 0,
        ;
    }
    lemma_uploaded_bounded(total, part_size, part_count(total, part_size));
}

} // verus!
