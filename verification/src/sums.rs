//! Selection sums: the sum of the bases picked out by the bits of a window,
//! and the sum of the window sums.

use vstd::prelude::*;

use crate::group::{values_of, Group};

verus! {

/// The smaller of two lengths: how many items two sequences pair up.
pub open spec fn paired(a: nat, b: nat) -> nat {
    if a <= b {
        a
    } else {
        b
    }
}

/// The identity plus every `bases[j]` with `j < n` whose bit `bits[j]` is set,
/// added in order of `j`.
pub open spec fn selected_sum<G: Group>(bits: Seq<bool>, bases: Seq<G::Value>, n: nat) -> G::Value
    decreases n,
{
    if n == 0 {
        G::zero_value()
    } else {
        let rest = selected_sum::<G>(bits, bases, (n - 1) as nat);
        if bits[n - 1] {
            G::add_values(rest, bases[n - 1])
        } else {
            rest
        }
    }
}

/// The sum of one window: every base whose bit is set contributes once. Bits
/// without a base, and bases without a bit, contribute nothing.
pub open spec fn window_value<G: Group>(bits: Seq<bool>, bases: Seq<G::Value>) -> G::Value {
    selected_sum::<G>(bits, bases, paired(bits.len(), bases.len()))
}

/// The number of chunks of `width` items that `len` items fall into, the last
/// one possibly short.
pub open spec fn chunk_count(len: nat, width: nat) -> nat {
    if len % width == 0 {
        len / width
    } else {
        len / width + 1
    }
}

/// Chunk `i` of `bits` cut into consecutive chunks of `width` bits.
pub open spec fn chunk_of(bits: Seq<bool>, width: nat, i: int) -> Seq<bool> {
    bits.subrange(
        i * width,
        if (i + 1) * width <= bits.len() {
            (i + 1) * width
        } else {
            bits.len() as int
        },
    )
}

/// The values of the bases, window by window.
pub open spec fn base_values<G: Group>(bases: Seq<Vec<G>>) -> Seq<Seq<G::Value>> {
    Seq::new(bases.len(), |i: int| values_of(bases[i]@))
}

/// The window sums of `bits` cut into chunks of `width` bits, chunk `i` paired
/// with window `i` of `bases`; chunks and windows without a partner are left
/// out.
pub open spec fn window_values<G: Group>(
    bits: Seq<bool>,
    width: nat,
    bases: Seq<Seq<G::Value>>,
) -> Seq<G::Value> {
    Seq::new(
        paired(chunk_count(bits.len(), width), bases.len()),
        |i: int| window_value::<G>(chunk_of(bits, width, i), bases[i]),
    )
}

/// The identity plus the first `n` of `values`, added in order.
pub open spec fn sum_values<G: Group>(values: Seq<G::Value>, n: nat) -> G::Value
    decreases n,
{
    if n == 0 {
        G::zero_value()
    } else {
        G::add_values(sum_values::<G>(values, (n - 1) as nat), values[n - 1])
    }
}

/// The sum of all window sums.
pub open spec fn total_value<G: Group>(
    bits: Seq<bool>,
    width: nat,
    bases: Seq<Seq<G::Value>>,
) -> G::Value {
    let sums = window_values::<G>(bits, width, bases);
    sum_values::<G>(sums, sums.len())
}

/// Chunk `i` exists exactly when it starts inside the sequence.
pub proof fn lemma_chunk_count(len: nat, width: nat, i: nat)
    requires
        width > 0,
    ensures
        i < chunk_count(len, width) <==> i * width < len,
{
    let q = len / width;
    let r = len % width;
    assert(len == width * q + r && 0 <= r < width) by {
        vstd::arithmetic::div_mod::lemma_fundamental_div_mod(len as int, width as int);
    }
    if i < q {
        assert(i * width + width <= q * width) by (nonlinear_arith)
            requires
                i + 1 <= q,
                width > 0,
        ;
        assert(q * width == width * q) by (nonlinear_arith);
    } else if i == q {
        assert(q * width == width * q) by (nonlinear_arith);
    } else {
        assert(i * width >= q * width + width) by (nonlinear_arith)
            requires
                i >= q + 1,
                width > 0,
        ;
        assert(q * width == width * q) by (nonlinear_arith);
    }
}

/// Sums the bases whose bit is set, pairing bit `j` with base `j`.
pub fn window_sum<G: Group>(bits: &[bool], bases: &Vec<G>) -> (sum: G)
    ensures
        sum.value() == window_value::<G>(bits@, values_of(bases@)),
{
    let n: usize = if bits.len() <= bases.len() {
        bits.len()
    } else {
        bases.len()
    };
    let mut encoded = G::zero();
    let mut j: usize = 0;
    while j < n
        invariant
            j <= n,
            n == paired(bits@.len(), bases@.len()),
            encoded.value() == selected_sum::<G>(bits@, values_of(bases@), j as nat),
        decreases n - j,
    {
        if bits[j] {
            encoded = encoded.add(&bases[j]);
        }
        j = j + 1;
    }
    encoded
}

/// Computes the window sums one after the other.
pub fn window_sums<G: Group>(bits: &[bool], width: usize, bases: &Vec<Vec<G>>) -> (sums: Vec<G>)
    requires
        width > 0,
    ensures
        values_of(sums@) == window_values::<G>(bits@, width as nat, base_values(bases@)),
{
    let len: usize = bits.len();
    let mut sums: Vec<G> = Vec::new();
    let mut i: usize = 0;
    let mut start: usize = 0;
    while start < len && i < bases.len()
        invariant
            width > 0,
            len == bits@.len(),
            i <= bases@.len(),
            i <= chunk_count(len as nat, width as nat),
            start <= len,
            start == if i * width <= len {
                i * width
            } else {
                len as int
            },
            sums@.len() == i,
            forall|k: int|
                0 <= k < i ==> (#[trigger] sums@[k]).value() == window_value::<G>(
                    chunk_of(bits@, width as nat, k),
                    values_of(bases@[k]@),
                ),
        decreases bases@.len() - i,
    {
        let end: usize = if len - start < width {
            len
        } else {
            start + width
        };
        proof {
            assert((i + 1) * width == i * width + width) by (nonlinear_arith);
            lemma_chunk_count(len as nat, width as nat, i as nat);
        }
        let chunk = vstd::slice::slice_subrange(bits, start, end);
        assert(chunk@ == chunk_of(bits@, width as nat, i as int));
        let sum = window_sum(chunk, &bases[i]);
        sums.push(sum);
        start = end;
        i = i + 1;
    }
    proof {
        lemma_chunk_count(len as nat, width as nat, i as nat);
        assert(i == paired(chunk_count(len as nat, width as nat), bases@.len()));
        assert(values_of(sums@) =~= window_values::<G>(
            bits@,
            width as nat,
            base_values(bases@),
        ));
    }
    sums
}

/// Adds up the elements in order, starting from the identity.
pub fn sum_all<G: Group>(elements: &Vec<G>) -> (total: G)
    ensures
        total.value() == sum_values::<G>(values_of(elements@), elements@.len()),
{
    let mut total = G::zero();
    let mut i: usize = 0;
    while i < elements.len()
        invariant
            i <= elements@.len(),
            total.value() == sum_values::<G>(values_of(elements@), i as nat),
        decreases elements@.len() - i,
    {
        total = total.add(&elements[i]);
        i = i + 1;
    }
    total
}

} // verus!
