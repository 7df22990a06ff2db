//! What holds of the hash for every group, every geometry and every input.

use vstd::prelude::*;

use crate::bits::{bits_of, flip_bit, lemma_flip_bit};
use crate::error::CRHError;
use crate::group::Group;
use crate::pedersen::{outcome, padded, PedersenCRH};
use crate::sums::{
    base_values, chunk_count, chunk_of, lemma_chunk_count, paired, selected_sum, sum_values,
    total_value, window_values,
};

verus! {

/// Two summands added to a sum may change places.
proof fn lemma_add_swap<G: Group>(a: G::Value, b: G::Value, c: G::Value)
    ensures
        G::add_values(G::add_values(a, b), c) == G::add_values(G::add_values(a, c), b),
{
    G::lemma_add_associative(a, b, c);
    G::lemma_add_commutative(b, c);
    G::lemma_add_associative(a, c, b);
}

/// A selection sum reads only the bits it pairs with a base.
proof fn lemma_selected_sum_agrees<G: Group>(
    first: Seq<bool>,
    second: Seq<bool>,
    bases: Seq<G::Value>,
    n: nat,
)
    requires
        forall|k: int| 0 <= k < n ==> first[k] == second[k],
    ensures
        selected_sum::<G>(first, bases, n) == selected_sum::<G>(second, bases, n),
    decreases n,
{
    if n > 0 {
        lemma_selected_sum_agrees::<G>(first, second, bases, (n - 1) as nat);
    }
}

/// Setting one more bit adds the base it selects.
proof fn lemma_selected_sum_raise<G: Group>(
    low: Seq<bool>,
    high: Seq<bool>,
    bases: Seq<G::Value>,
    j: int,
    n: nat,
)
    requires
        0 <= j < n,
        !low[j],
        high[j],
        forall|k: int| 0 <= k < n && k != j ==> low[k] == high[k],
    ensures
        selected_sum::<G>(high, bases, n) == G::add_values(
            selected_sum::<G>(low, bases, n),
            bases[j],
        ),
    decreases n,
{
    if n - 1 == j {
        lemma_selected_sum_agrees::<G>(low, high, bases, (n - 1) as nat);
    } else {
        lemma_selected_sum_raise::<G>(low, high, bases, j, (n - 1) as nat);
        if high[n - 1] {
            lemma_add_swap::<G>(
                selected_sum::<G>(low, bases, (n - 1) as nat),
                bases[j],
                bases[n - 1],
            );
        }
    }
}

/// A sum reads only the values it adds.
proof fn lemma_sum_values_agrees<G: Group>(first: Seq<G::Value>, second: Seq<G::Value>, n: nat)
    requires
        forall|k: int| 0 <= k < n ==> first[k] == second[k],
    ensures
        sum_values::<G>(first, n) == sum_values::<G>(second, n),
    decreases n,
{
    if n > 0 {
        lemma_sum_values_agrees::<G>(first, second, (n - 1) as nat);
    }
}

/// Adding `extra` to one of the summands adds it to the sum.
proof fn lemma_sum_values_raise<G: Group>(
    low: Seq<G::Value>,
    high: Seq<G::Value>,
    extra: G::Value,
    i: int,
    n: nat,
)
    requires
        0 <= i < n,
        high[i] == G::add_values(low[i], extra),
        forall|k: int| 0 <= k < n && k != i ==> low[k] == high[k],
    ensures
        sum_values::<G>(high, n) == G::add_values(sum_values::<G>(low, n), extra),
    decreases n,
{
    let front = sum_values::<G>(low, (n - 1) as nat);
    if n - 1 == i {
        lemma_sum_values_agrees::<G>(low, high, (n - 1) as nat);
        G::lemma_add_associative(front, low[i], extra);
    } else {
        lemma_sum_values_raise::<G>(low, high, extra, i, (n - 1) as nat);
        lemma_add_swap::<G>(front, extra, low[n - 1]);
    }
}

/// A sum of identities is the identity.
proof fn lemma_sum_of_zeros<G: Group>(values: Seq<G::Value>, n: nat)
    requires
        forall|k: int| 0 <= k < n ==> values[k] == G::zero_value(),
    ensures
        sum_values::<G>(values, n) == G::zero_value(),
    decreases n,
{
    if n > 0 {
        lemma_sum_of_zeros::<G>(values, (n - 1) as nat);
        G::lemma_add_zero(G::zero_value());
    }
}

/// Where no bit is set, no base is selected.
proof fn lemma_selected_sum_of_clear_bits<G: Group>(bits: Seq<bool>, bases: Seq<G::Value>, n: nat)
    requires
        forall|k: int| 0 <= k < n ==> !bits[k],
    ensures
        selected_sum::<G>(bits, bases, n) == G::zero_value(),
    decreases n,
{
    if n > 0 {
        lemma_selected_sum_of_clear_bits::<G>(bits, bases, (n - 1) as nat);
    }
}

/// A sequence of `width * count` bits falls into exactly `count` chunks.
proof fn lemma_full_chunks(width: nat, count: nat)
    requires
        width > 0,
    ensures
        chunk_count(width * count, width) == count,
{
    let len = width * count;
    lemma_chunk_count(len, width, count);
    assert(count * width == width * count) by (nonlinear_arith);
    if count > 0 {
        lemma_chunk_count(len, width, (count - 1) as nat);
        assert((count - 1) * width < width * count) by (nonlinear_arith)
            requires
                width > 0,
                count > 0,
        ;
    } else {
        lemma_chunk_count(len, width, 0);
    }
    if chunk_count(len, width) > count {
        assert(false);
    }
}

/// Summing a run of values in two parts and adding the parts gives the sum
/// of the run: the grouping in which window sums are combined does not
/// matter.
pub proof fn lemma_sum_values_split<G: Group>(values: Seq<G::Value>, k: nat)
    requires
        k <= values.len(),
    ensures
        sum_values::<G>(values, values.len()) == G::add_values(
            sum_values::<G>(values.take(k as int), k),
            sum_values::<G>(values.skip(k as int), (values.len() - k) as nat),
        ),
    decreases values.len() - k,
{
    let n = values.len();
    let front = values.take(k as int);
    let back = values.skip(k as int);
    lemma_sum_values_agrees::<G>(front, values, k);
    if k == n {
        G::lemma_add_zero(sum_values::<G>(values, n));
    } else {
        let shorter = values.drop_last();
        lemma_sum_values_split::<G>(shorter, k);
        lemma_sum_values_agrees::<G>(shorter, values, (n - 1) as nat);
        lemma_sum_values_agrees::<G>(shorter.take(k as int), front, k);
        lemma_sum_values_agrees::<G>(shorter.skip(k as int), back, (n - 1 - k) as nat);
        G::lemma_add_associative(
            sum_values::<G>(front, k),
            sum_values::<G>(back, (n - 1 - k) as nat),
            values[n - 1],
        );
        assert(back[n - 1 - k] == values[n - 1]);
    }
}

/// The sum without one of its values, plus that value, is the sum.
proof fn lemma_sum_values_remove<G: Group>(values: Seq<G::Value>, k: int)
    requires
        0 <= k < values.len(),
    ensures
        sum_values::<G>(values, values.len()) == G::add_values(
            sum_values::<G>(values.remove(k), (values.len() - 1) as nat),
            values[k],
        ),
    decreases values.len(),
{
    let n = values.len();
    let rest = values.remove(k);
    if k == n - 1 {
        lemma_sum_values_agrees::<G>(rest, values, (n - 1) as nat);
    } else {
        let shorter = values.drop_last();
        lemma_sum_values_remove::<G>(shorter, k);
        lemma_sum_values_agrees::<G>(shorter, values, (n - 1) as nat);
        lemma_sum_values_agrees::<G>(shorter.remove(k), rest, (n - 2) as nat);
        assert(rest[n - 2] == values[n - 1]);
        lemma_add_swap::<G>(
            sum_values::<G>(rest, (n - 2) as nat),
            values[k],
            values[n - 1],
        );
    }
}

/// The same values in another order have the same sum: the order in which
/// window sums are combined does not matter.
pub proof fn lemma_sum_values_permuted<G: Group>(first: Seq<G::Value>, second: Seq<G::Value>)
    requires
        first.to_multiset() == second.to_multiset(),
    ensures
        sum_values::<G>(first, first.len()) == sum_values::<G>(second, second.len()),
    decreases second.len(),
{
    vstd::seq_lib::to_multiset_len(first);
    vstd::seq_lib::to_multiset_len(second);
    if second.len() > 0 {
        let n = second.len();
        let last = second.last();
        assert(second.contains(last));
        vstd::seq_lib::to_multiset_contains(second, last);
        vstd::seq_lib::to_multiset_contains(first, last);
        let k = choose|k: int| 0 <= k < first.len() && first[k] == last;
        let first_rest = first.remove(k);
        let second_rest = second.drop_last();
        assert(second_rest =~= second.remove(n - 1));
        vstd::seq_lib::to_multiset_remove(first, k);
        vstd::seq_lib::to_multiset_remove(second, n - 1);
        lemma_sum_values_permuted::<G>(first_rest, second_rest);
        lemma_sum_values_remove::<G>(first, k);
        lemma_sum_values_agrees::<G>(second_rest, second, (n - 1) as nat);
    }
}

/// Two evaluations of one hash function on one input agree, whichever way
/// the window sums were computed.
pub proof fn lemma_hash_deterministic<G: Group>(
    crh: PedersenCRH<G>,
    input: Seq<u8>,
    first: Result<G, CRHError>,
    second: Result<G, CRHError>,
)
    requires
        outcome(first) == crh.hash_spec(input),
        outcome(second) == crh.hash_spec(input),
    ensures
        outcome(first) == outcome(second),
        first is Ok <==> second is Ok,
        first is Ok ==> first->Ok_0.value() == second->Ok_0.value(),
{
}

/// Zero bytes appended to an input, as far as the capacity allows, do not
/// change its hash.
pub proof fn lemma_zero_padding_is_neutral<G: Group>(
    crh: PedersenCRH<G>,
    input: Seq<u8>,
    zeros: nat,
)
    requires
        (input.len() + zeros) * 8 <= crh.parameters.size.spec_input_size_bits(),
    ensures
        crh.hash_spec(input + Seq::new(zeros, |i: int| 0u8)) == crh.hash_spec(input),
{
    let capacity = crh.parameters.size.spec_input_size_bytes();
    let longer = input + Seq::new(zeros, |i: int| 0u8);
    assert(padded(longer, capacity) =~= padded(input, capacity));
}

/// An input of zero bytes only, the empty input among them, hashes to the
/// identity of the group.
pub proof fn lemma_zero_input_hashes_to_identity<G: Group>(crh: PedersenCRH<G>, input: Seq<u8>)
    requires
        crh.parameters.size.wf(),
        crh.parameters.bases@.len() == crh.parameters.size.spec_num_windows(),
        input.len() * 8 <= crh.parameters.size.spec_input_size_bits(),
        forall|k: int| 0 <= k < input.len() ==> input[k] == 0u8,
    ensures
        crh.hash_spec(input) == Ok::<G::Value, CRHError>(G::zero_value()),
{
    let width = crh.parameters.size.spec_window_size() as nat;
    let bits = crh.selection_bits(input);
    let bases = base_values(crh.parameters.bases@);
    let sums = window_values::<G>(bits, width, bases);
    assert forall|q: int| 0 <= q < bits.len() implies !bits[q] by {
        let bytes = padded(input, crh.parameters.size.spec_input_size_bytes());
        assert(bytes[q / 8] == 0u8);
        assert(!crate::bits::bit_of(0u8, (q % 8) as u8)) by {
            let j = (q % 8) as u8;
            assert((0u8 >> j) & 1u8 != 1u8) by (bit_vector);
        }
    }
    assert forall|i: int| 0 <= i < sums.len() implies sums[i] == G::zero_value() by {
        let chunk = chunk_of(bits, width, i);
        lemma_chunk_count(bits.len(), width, i as nat);
        assert((i + 1) * width == i * width + width) by (nonlinear_arith);
        lemma_selected_sum_of_clear_bits::<G>(chunk, bases[i], paired(chunk.len(), bases[i].len()));
    }
    lemma_sum_of_zeros::<G>(sums, sums.len());
}

/// The value of the base that bit `p` of the input selects: base `p % w` of
/// window `p / w`, for windows of `w` bits.
pub open spec fn selected_base<G: Group>(crh: PedersenCRH<G>, p: int) -> G::Value {
    let width = crh.parameters.size.spec_window_size() as int;
    crh.parameters.bases@[p / width]@[p % width].value()
}

/// Chunk `k` of `width * count` bits holds the bits from `k * width` on.
proof fn lemma_chunk_bits(bits: Seq<bool>, width: nat, count: nat, k: int)
    requires
        width > 0,
        bits.len() == width * count,
        0 <= k < count,
    ensures
        chunk_of(bits, width, k).len() == width,
        forall|t: int| 0 <= t < width ==> chunk_of(bits, width, k)[t] == bits[k * width + t],
        0 <= k * width,
        k * width + width <= bits.len(),
{
    assert((k + 1) * width == k * width + width) by (nonlinear_arith);
    assert(0 <= k * width && k * width + width <= width * count) by (nonlinear_arith)
        requires
            0 <= k < count,
            width > 0,
    ;
}

/// Bit `p` of `width * count` bits lies in one of the `count` windows, at a
/// position inside it.
proof fn lemma_window_index(p: int, width: nat, count: nat)
    requires
        width > 0,
        0 <= p < width * count,
    ensures
        0 <= p / (width as int) < count,
        0 <= p % (width as int) < width,
        p == (p / (width as int)) * width + p % (width as int),
{
    let w = width as int;
    let i = p / w;
    vstd::arithmetic::div_mod::lemma_fundamental_div_mod(p, w);
    assert(i * w == w * i) by (nonlinear_arith);
    if i >= count {
        assert(w * i >= w * count) by (nonlinear_arith)
            requires
                i >= count,
                w > 0,
        ;
    }
    if i < 0 {
        assert(w * i <= -w) by (nonlinear_arith)
            requires
                i <= -1,
                w > 0,
        ;
    }
}

/// Setting one clear bit of the selection bits adds the base it selects to
/// the total.
proof fn lemma_total_value_raise<G: Group>(
    low: Seq<bool>,
    high: Seq<bool>,
    width: nat,
    bases: Seq<Seq<G::Value>>,
    p: int,
)
    requires
        width > 0,
        low.len() == width * bases.len(),
        0 <= p < low.len(),
        !low[p],
        high == low.update(p, true),
        p % (width as int) < bases[p / (width as int)].len(),
    ensures
        total_value::<G>(high, width, bases) == G::add_values(
            total_value::<G>(low, width, bases),
            bases[p / (width as int)][p % (width as int)],
        ),
{
    let count = bases.len();
    let w = width as int;
    let i = p / w;
    let j = p % w;
    lemma_window_index(p, width, count);
    assert(i * w == w * i) by (nonlinear_arith);
    lemma_full_chunks(width, count);
    let low_sums = window_values::<G>(low, width, bases);
    let high_sums = window_values::<G>(high, width, bases);
    assert(low_sums.len() == count && high_sums.len() == count);
    assert forall|k: int| 0 <= k < count && k != i implies low_sums[k] == high_sums[k] by {
        lemma_chunk_bits(low, width, count, k);
        lemma_chunk_bits(high, width, count, k);
        assert forall|t: int| 0 <= t < width implies chunk_of(low, width, k)[t] == chunk_of(
            high,
            width,
            k,
        )[t] by {
            if k * w + t == p {
                vstd::arithmetic::div_mod::lemma_fundamental_div_mod_converse(p, w, k, t);
            }
        }
        assert(chunk_of(low, width, k) =~= chunk_of(high, width, k));
    }
    let low_chunk = chunk_of(low, width, i);
    let high_chunk = chunk_of(high, width, i);
    lemma_chunk_bits(low, width, count, i);
    lemma_chunk_bits(high, width, count, i);
    lemma_selected_sum_raise::<G>(
        low_chunk,
        high_chunk,
        bases[i],
        j,
        paired(width, bases[i].len()),
    );
    lemma_sum_values_raise::<G>(low_sums, high_sums, bases[i][j], i, count);
}

/// Inverting one bit of an input moves its hash by the base that the bit
/// selects: the hash with the bit set is the hash with the bit clear plus
/// that base. So the hash changes exactly when the base is not the identity
/// and adding it changes the sum.
pub proof fn lemma_flipped_bit_moves_hash_by_base<G: Group>(
    crh: PedersenCRH<G>,
    input: Seq<u8>,
    p: int,
)
    requires
        crh.parameters.size.wf(),
        crh.parameters.bases@.len() == crh.parameters.size.spec_num_windows(),
        input.len() * 8 <= crh.parameters.size.spec_input_size_bits(),
        0 <= p < input.len() * 8,
        p % (crh.parameters.size.spec_window_size() as int) < crh.parameters.bases@[p / (
        crh.parameters.size.spec_window_size() as int)]@.len(),
    ensures
        ({
            let flipped = flip_bit(input, p);
            let low = if bits_of(input)[p] {
                flipped
            } else {
                input
            };
            let high = if bits_of(input)[p] {
                input
            } else {
                flipped
            };
            let base = selected_base(crh, p);
            &&& crh.hash_spec(low) is Ok
            &&& crh.hash_spec(high) == Ok::<G::Value, CRHError>(
                G::add_values(crh.hash_spec(low)->Ok_0, base),
            )
            &&& crh.hash_spec(flipped) != crh.hash_spec(input) <==> base != G::zero_value()
                && G::add_values(crh.hash_spec(low)->Ok_0, base) != crh.hash_spec(low)->Ok_0
        }),
{
    let size = crh.parameters.size;
    let width = size.spec_window_size() as nat;
    let count = size.spec_num_windows() as nat;
    let capacity = size.spec_input_size_bytes();
    let flipped = flip_bit(input, p);
    let low = if bits_of(input)[p] {
        flipped
    } else {
        input
    };
    let high = if bits_of(input)[p] {
        input
    } else {
        flipped
    };
    lemma_flip_bit(input, p);
    assert(bits_of(high) =~= bits_of(low).update(p, true));
    assert(!bits_of(low)[p]);
    let low_bits = crh.selection_bits(low);
    let high_bits = crh.selection_bits(high);
    assert(low_bits.len() == width * count);
    assert forall|q: int| 0 <= q < low_bits.len() implies high_bits[q] == low_bits.update(
        p,
        true,
    )[q] by {
        if q < input.len() * 8 {
            assert(padded(low, capacity)[q / 8] == low[q / 8]);
            assert(padded(high, capacity)[q / 8] == high[q / 8]);
            assert(bits_of(low)[q] == low_bits[q]);
            assert(bits_of(high)[q] == high_bits[q]);
        } else {
            assert(padded(low, capacity)[q / 8] == 0u8);
            assert(padded(high, capacity)[q / 8] == 0u8);
        }
    }
    assert(high_bits =~= low_bits.update(p, true));
    assert(low_bits[p] == bits_of(low)[p]);
    let bases = base_values(crh.parameters.bases@);
    lemma_window_index(p, width, count);
    lemma_total_value_raise::<G>(low_bits, high_bits, width, bases, p);
    let base = selected_base(crh, p);
    let sum = crh.hash_spec(low)->Ok_0;
    if base == G::zero_value() {
        G::lemma_add_zero(sum);
    }
}

} // verus!
