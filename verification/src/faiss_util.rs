//! The bitmap by which Faiss groups vectors under their parents.

use crate::id_bitmap;
use crate::id_bitmap::{bitmap_of, largest};
use vstd::arithmetic::power2::*;
use vstd::prelude::*;

verus! {

/// The address of a `faiss::IDGrouperBitmap`; zero where there is none.
#[derive(Debug, Clone, Copy, PartialEq, Eq, Structural)]
pub struct FaissIDGrouperBitmap {
    pub address: i64,
}

/// A grouper of Faiss together with the bitmap that it works on.
pub struct IDGrouperBitmap {
    ptr: FaissIDGrouperBitmap,
    bitmap: Vec<u64>,
}

impl IDGrouperBitmap {
    /// The grouper of Faiss.
    pub closed spec fn grouper(&self) -> FaissIDGrouperBitmap {
        self.ptr
    }

    /// The words of the bitmap.
    pub closed spec fn words(&self) -> Seq<u64> {
        self.bitmap@
    }

    /// The grouper of Faiss.
    pub fn as_ptr(&self) -> (ptr: FaissIDGrouperBitmap)
        ensures
            ptr == self.grouper(),
    {
        self.ptr
    }

    /// The words of the bitmap.
    pub fn bitmap(&self) -> (words: &[u64])
        ensures
            words@ == self.words(),
    {
        self.bitmap.as_slice()
    }

    /// Takes the grouper that Faiss made for the bitmap.
    pub fn attach(&mut self, ptr: FaissIDGrouperBitmap)
        ensures
            final(self).grouper() == ptr,
            final(self).words() == old(self).words(),
    {
        self.ptr = ptr;
    }
}

/// How many words the bitmap of ids up to `max_value` has.
pub open spec fn num_blocks(max_value: int) -> int {
    (max_value + 1) / 64 + 1
}

/// The bitmap of the parent ids, for which Faiss has not made a grouper yet: bit
/// `id` is set where `id` is a parent id.
pub fn build_id_grouper_bitmap(parent_ids: &[i32]) -> (grouper: IDGrouperBitmap)
    requires
        parent_ids@.len() > 0,
        forall|i: int| 0 <= i < parent_ids@.len() ==> 0 <= #[trigger] parent_ids@[i] < i32::MAX,
    ensures
        grouper.grouper().address == 0,
        grouper.words().len() == num_blocks(id_bitmap::max_id(parent_ids@)),
        forall|id: int|
            0 <= id < 64 * grouper.words().len() ==> #[trigger] id_bitmap::bit_is_set(
                grouper.words(),
                id,
            ) == id_bitmap::is_listed(parent_ids@, id),
        forall|i: int|
            0 <= i < parent_ids@.len() ==> #[trigger] parent_ids@[i] < 64 * grouper.words().len(),
{
    let max_value = largest(parent_ids);
    assert(0 <= max_value < i32::MAX) by {
        let i = choose|i: int| 0 <= i < parent_ids@.len() && parent_ids@[i] == max_value;
        assert(parent_ids@[i] < i32::MAX);
    }
    let blocks = (max_value + 1) / 64 + 1;
    let bitmap = bitmap_of(parent_ids, blocks as usize);
    IDGrouperBitmap { ptr: FaissIDGrouperBitmap { address: 0 }, bitmap }
}

/// The bitmap of a grouper reaches every parent id and at least one id behind the largest of
/// them, by as few words as that takes, and holds an id where it is a parent id: digit
/// `id % 64` of word `id / 64` to base two is then one, and otherwise zero.
pub proof fn lemma_grouper_bitmap(parent_ids: &[i32], grouper: IDGrouperBitmap, id: int)
    requires
        parent_ids@.len() > 0,
        forall|i: int| 0 <= i < parent_ids@.len() ==> 0 <= #[trigger] parent_ids@[i] < i32::MAX,
        call_ensures(build_id_grouper_bitmap, (parent_ids,), grouper),
    ensures
        grouper.grouper().address == 0,
        forall|i: int|
            0 <= i < parent_ids@.len() ==> (#[trigger] parent_ids@[i]) + 1 < 64
                * grouper.words().len(),
        exists|i: int|
            0 <= i < parent_ids@.len() && 64 * (grouper.words().len() - 1) <= (
            #[trigger] parent_ids@[i]) + 1,
        0 <= id < 64 * grouper.words().len() ==> grouper.words()[id / 64] as nat / pow2(
            (id % 64) as nat,
        ) % 2 == (if exists|i: int| 0 <= i < parent_ids@.len() && #[trigger] parent_ids@[i] == id {
            1nat
        } else {
            0
        }),
{
    id_bitmap::lemma_max_id(parent_ids@);
    if 0 <= id < 64 * grouper.words().len() {
        id_bitmap::lemma_word_bit(grouper.words()[id / 64], (id % 64) as nat);
        assert(id_bitmap::bit_is_set(grouper.words(), id) == id_bitmap::is_listed(parent_ids@, id));
    }
}

/// A grouper keeps its words when it takes what Faiss made for them, and gives both out as they are.
pub proof fn lemma_grouper_attached(
    grouper: &mut IDGrouperBitmap,
    ptr: FaissIDGrouperBitmap,
    words: &[u64],
    before: &[u64],
    given: FaissIDGrouperBitmap,
)
    requires
        call_ensures(IDGrouperBitmap::bitmap, (&*old(grouper),), before),
        call_ensures(IDGrouperBitmap::attach, (grouper, ptr), ()),
        call_ensures(IDGrouperBitmap::bitmap, (&*final(grouper),), words),
        call_ensures(IDGrouperBitmap::as_ptr, (&*final(grouper),), given),
    ensures
        words@ == before@,
        given == ptr,
{
}

} // verus!
