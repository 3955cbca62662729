//! Sets of ids as bits of words: id `id` is bit `id % 64` of word `id / 64`.

use vstd::arithmetic::power2::*;
use vstd::prelude::*;

verus! {

/// Bit `k` of a word is one.
pub open spec fn word_bit(word: u64, k: int) -> bool {
    (word >> (k as u64)) & 1 == 1
}

/// The bit of `id` is set.
pub open spec fn bit_is_set(words: Seq<u64>, id: int) -> bool {
    0 <= id < 64 * words.len() && word_bit(words[id / 64], id % 64)
}

/// `id` is one of `ids`.
pub open spec fn is_listed(ids: Seq<i32>, id: int) -> bool {
    exists|i: int| 0 <= i < ids.len() && #[trigger] ids[i] == id
}

/// The largest id; zero where there is none.
pub open spec fn max_id(ids: Seq<i32>) -> int
    decreases ids.len(),
{
    if ids.len() == 0 {
        0
    } else if ids.len() == 1 {
        ids[0] as int
    } else if ids.last() > max_id(ids.drop_last()) {
        ids.last() as int
    } else {
        max_id(ids.drop_last())
    }
}

/// The largest id is one of the ids and not below any of them.
pub proof fn lemma_max_id(ids: Seq<i32>)
    requires
        ids.len() > 0,
    ensures
        is_listed(ids, max_id(ids)),
        forall|i: int| 0 <= i < ids.len() ==> #[trigger] ids[i] <= max_id(ids),
    decreases ids.len(),
{
    if ids.len() == 1 {
        assert(ids[0] == max_id(ids));
    } else {
        let rest = ids.drop_last();
        lemma_max_id(rest);
        assert forall|i: int| 0 <= i < ids.len() implies #[trigger] ids[i] <= max_id(ids) by {
            if i < rest.len() {
                assert(rest[i] <= max_id(rest));
            }
        }
        if ids.last() > max_id(rest) {
            assert(ids[ids.len() - 1] == max_id(ids));
        } else {
            let i = choose|i: int| 0 <= i < rest.len() && #[trigger] rest[i] == max_id(rest);
            assert(ids[i] == max_id(ids));
        }
    }
}

/// The largest id.
pub fn largest(ids: &[i32]) -> (max: i32)
    requires
        ids@.len() > 0,
    ensures
        max == max_id(ids@),
        is_listed(ids@, max as int),
        forall|i: int| 0 <= i < ids@.len() ==> #[trigger] ids@[i] <= max,
{
    let mut max: i32 = ids[0];
    let mut i: usize = 1;
    assert(max == max_id(ids@.take(1)));
    while i < ids.len()
        invariant
            1 <= i <= ids@.len(),
            max == max_id(ids@.take(i as int)),
        decreases ids@.len() - i,
    {
        if ids[i] > max {
            max = ids[i];
        }
        i += 1;
        assert(ids@.take(i as int).drop_last() =~= ids@.take(i - 1));
    }
    assert(ids@.take(i as int) =~= ids@);
    proof {
        lemma_max_id(ids@);
    }
    max
}

proof fn lemma_set_bit(word: u64, k: u64, j: u64)
    requires
        k < 64,
        j < 64,
    ensures
        word_bit(word | (1u64 << k), j as int) == (word_bit(word, j as int) || j == k),
{
    assert(((word | (1u64 << k)) >> j) & 1 == 1 <==> ((word >> j) & 1 == 1 || j == k)) by (bit_vector)
        requires
            k < 64,
            j < 64,
    ;
}

/// No bit of zero is one.
pub proof fn lemma_zero_word(k: u64)
    requires
        k < 64,
    ensures
        !word_bit(0, k as int),
{
    assert((0u64 >> k) & 1 == 0) by (bit_vector);
}

fn set_bit(words: &mut Vec<u64>, id: usize)
    requires
        id < 64 * old(words)@.len(),
    ensures
        final(words)@.len() == old(words)@.len(),
        forall|other: int|
            0 <= other < 64 * old(words)@.len() ==> #[trigger] bit_is_set(final(words)@, other) == (
            bit_is_set(old(words)@, other) || other == id),
{
    let w = id / 64;
    let k = (id % 64) as u64;
    let word = words[w] | (1u64 << k);
    words.set(w, word);
    assert forall|other: int| 0 <= other < 64 * old(words)@.len() implies #[trigger] bit_is_set(
        words@,
        other,
    ) == (bit_is_set(old(words)@, other) || other == id) by {
        if other / 64 == w {
            lemma_set_bit(old(words)@[w as int], k, (other % 64) as u64);
        }
    }
}

/// A bitmap of `blocks` words in which the bit of every id that it reaches is set.
/// Ids below zero and beyond the bitmap are left out.
pub fn bitmap_of(ids: &[i32], blocks: usize) -> (words: Vec<u64>)
    ensures
        words@.len() == blocks,
        forall|id: int|
            0 <= id < 64 * blocks ==> #[trigger] bit_is_set(words@, id) == is_listed(ids@, id),
{
    let mut words: Vec<u64> = Vec::new();
    words.resize(blocks, 0u64);
    assert forall|id: int| 0 <= id < 64 * blocks implies !#[trigger] bit_is_set(words@, id) by {
        lemma_zero_word((id % 64) as u64);
    }
    let mut i: usize = 0;
    while i < ids.len()
        invariant
            i <= ids@.len(),
            words@.len() == blocks,
            forall|id: int|
                0 <= id < 64 * blocks ==> #[trigger] bit_is_set(words@, id) == is_listed(
                    ids@.take(i as int),
                    id,
                ),
        decreases ids@.len() - i,
    {
        let id = ids[i];
        let ghost before = words@;
        if id >= 0 && (id as usize) / 64 < blocks {
            set_bit(&mut words, id as usize);
        }
        assert forall|other: int| 0 <= other < 64 * blocks implies #[trigger] bit_is_set(
            words@,
            other,
        ) == is_listed(ids@.take(i + 1), other) by {
            assert(bit_is_set(before, other) == is_listed(ids@.take(i as int), other));
            if is_listed(ids@.take(i as int), other) {
                let j = choose|j: int|
                    0 <= j < i && #[trigger] ids@.take(i as int)[j] == other;
                assert(ids@.take(i + 1)[j] == other);
            }
            if id == other {
                assert(ids@.take(i + 1)[i as int] == other);
            }
            if is_listed(ids@.take(i + 1), other) && id != other {
                let j = choose|j: int| 0 <= j < i + 1 && #[trigger] ids@.take(i + 1)[j] == other;
                assert(ids@.take(i as int)[j] == other);
            }
        }
        i += 1;
    }
    assert(ids@.take(i as int) =~= ids@);
    words
}

/// A bit of a word is a digit of the word to base two.
pub proof fn lemma_word_bit(word: u64, k: nat)
    requires
        k < 64,
    ensures
        word_bit(word, k as int) == (word as nat / pow2(k) % 2 == 1),
{
    lemma2_to64();
    lemma2_to64_rest();
    vstd::bits::lemma_u64_shr_is_div(word, k as u64);
    let shifted: u64 = word >> (k as u64);
    assert(shifted & 1 == shifted % 2) by (bit_vector);
}

/// A bitmap holds an id that it reaches where the id is one of the list: digit `id % 64` of
/// word `id / 64` to base two is then one, and otherwise zero.
pub proof fn lemma_bitmap_of(ids: &[i32], blocks: usize, words: Vec<u64>, id: int)
    requires
        call_ensures(bitmap_of, (ids, blocks), words),
        0 <= id < 64 * blocks,
    ensures
        words@.len() == blocks,
        words@[id / 64] as nat / pow2((id % 64) as nat) % 2 == (if exists|i: int|
            0 <= i < ids@.len() && #[trigger] ids@[i] == id {
            1nat
        } else {
            0
        }),
{
    lemma_word_bit(words@[id / 64], (id % 64) as nat);
    assert(bit_is_set(words@, id) == is_listed(ids@, id));
}

/// The largest id is one of the ids, and none is larger.
pub proof fn lemma_largest(ids: &[i32], max: i32)
    requires
        ids@.len() > 0,
        call_ensures(largest, (ids,), max),
    ensures
        exists|i: int| 0 <= i < ids@.len() && #[trigger] ids@[i] == max,
        forall|i: int| 0 <= i < ids@.len() ==> #[trigger] ids@[i] <= max,
{
    lemma_max_id(ids@);
}

} // verus!
