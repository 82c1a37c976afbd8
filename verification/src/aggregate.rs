//! A read cursor over chunks that arrived one by one.
//!
//! The buffer keeps the chunks in arrival order and never joins them. Its
//! logical content is their concatenation; reading consumes from the front.

use crate::chunk::bytes_mut_seq;
use crate::chunk::bytes_seq;
use crate::chunk::chunk_advance;
use crate::chunk::chunk_remaining;
use crate::chunk::chunk_slice;
use crate::chunk::chunk_split;
use crate::chunk::chunk_vectored;
use crate::chunk::io_slice_seq;
use crate::chunk::region_freeze;
use crate::chunk::region_put;
use crate::chunk::region_with_capacity;
use crate::model::advanced;
use crate::model::extracted;
use crate::model::lemma_advanced_content;
use crate::model::lemma_advanced_non_empty;
use crate::model::lemma_flatten_front;
use crate::model::lemma_flatten_take;
use crate::model::non_empty;
use bytes::Bytes;
use std::collections::VecDeque;
use std::io::IoSlice;
use vstd::prelude::*;
use vstd::slice::slice_subrange;

verus! {

/// Chunks in arrival order, read as one stream of bytes.
pub struct Aggregate {
    bufs: VecDeque<Bytes>,
}

impl View for Aggregate {
    type V = Seq<Seq<u8>>;

    /// The unread bytes of each retained chunk, front first.
    closed spec fn view(&self) -> Seq<Seq<u8>> {
        self.bufs@.map_values(|b: Bytes| bytes_seq(b))
    }
}

impl Aggregate {
    /// The unread bytes of the whole buffer: the chunks joined in order.
    pub open spec fn content(&self) -> Seq<u8> {
        self@.flatten()
    }

    /// No retained chunk is empty.
    pub open spec fn wf(&self) -> bool {
        non_empty(self@)
    }

    /// An empty buffer.
    pub fn new() -> (a: Aggregate)
        ensures
            a@ == Seq::<Seq<u8>>::empty(),
            a.wf(),
    {
        Aggregate { bufs: VecDeque::new() }
    }

    /// Appends a chunk at the back. An empty chunk is never retained, so the
    /// caller has to hand in at least one byte.
    pub fn push(&mut self, buf: Bytes)
        requires
            bytes_seq(buf).len() > 0,
        ensures
            final(self)@ == old(self)@.push(bytes_seq(buf)),
            old(self).wf() ==> final(self).wf(),
    {
        self.bufs.push_back(buf);
        assert(self@ =~= old(self)@.push(bytes_seq(buf)));
    }

    /// The number of chunks retained.
    pub fn bufs_cnt(&self) -> (n: usize)
        ensures
            n == self@.len(),
    {
        self.bufs.len()
    }

    /// The first contiguous run of unread bytes: the front chunk, or nothing
    /// when no chunk is left. Nothing is copied.
    pub fn chunk(&self) -> (s: &[u8])
        ensures
            s@ == if self@.len() > 0 { self@[0] } else { Seq::<u8>::empty() },
    {
        if self.bufs.len() > 0 {
            chunk_slice(&self.bufs[0])
        } else {
            &[]
        }
    }

    /// The number of unread bytes, summed over the chunks. The sum has to fit
    /// the machine word.
    pub fn remaining(&self) -> (n: usize)
        requires
            self.content().len() <= usize::MAX,
        ensures
            n == self.content().len(),
    {
        self.checked_remaining().unwrap()
    }

    /// The number of unread bytes, or nothing when it does not fit the
    /// machine word.
    pub fn checked_remaining(&self) -> (n: Option<usize>)
        ensures
            match n {
                Some(total) => total == self.content().len(),
                None => self.content().len() > usize::MAX,
            },
    {
        let count: usize = self.bufs.len();
        let mut total: usize = 0;
        let mut i: usize = 0;
        while i < count
            invariant
                count == self@.len(),
                count == self.bufs@.len(),
                i <= count,
                total == self@.take(i as int).flatten().len(),
            decreases count - i,
        {
            let rem: usize = chunk_remaining(&self.bufs[i]);
            proof {
                let before = self@.take(i as int);
                assert(self@.take(i + 1) =~= before.push(self@[i as int]));
                before.lemma_flatten_push(self@[i as int]);
                lemma_flatten_take(self@, i + 1);
            }
            match total.checked_add(rem) {
                Some(sum) => {
                    total = sum;
                },
                None => {
                    return None;
                },
            }
            i = i + 1;
        }
        proof {
            assert(self@.take(count as int) =~= self@);
        }
        Some(total)
    }

    /// Discards the first `cnt` unread bytes. Chunks that are used up leave
    /// the buffer, and the chunk in which the count ends is shortened at its
    /// front. There have to be `cnt` bytes to discard.
    pub fn advance(&mut self, cnt: usize)
        requires
            cnt <= old(self).content().len(),
        ensures
            final(self)@ == advanced(old(self)@, cnt as nat),
            final(self).content() == old(self).content().skip(cnt as int),
            cnt == 0 ==> final(self)@ == old(self)@,
            old(self).wf() ==> final(self).wf(),
    {
        let mut left: usize = cnt;
        proof {
            lemma_advanced_content(self@, cnt as nat);
            if self.wf() {
                lemma_advanced_non_empty(self@, cnt as nat);
            }
        }
        while left > 0
            invariant
                left <= self.content().len(),
                advanced(self@, left as nat) == advanced(old(self)@, cnt as nat),
                advanced(old(self)@, cnt as nat).flatten() == old(self).content().skip(cnt as int),
                old(self).wf() ==> non_empty(advanced(old(self)@, cnt as nat)),
            decreases self@.len(),
        {
            proof {
                if self@.len() == 0 {
                    assert(self@.flatten() =~= Seq::<u8>::empty());
                } else {
                    lemma_flatten_front(self@);
                }
            }
            let ghost before = self@;
            let mut front = self.bufs.pop_front().unwrap();
            assert(self@ =~= before.skip(1));
            let rem: usize = chunk_remaining(&front);
            if rem > left {
                chunk_advance(&mut front, left);
                self.bufs.push_front(front);
                assert(self@ =~= before.update(0, before[0].skip(left as int)));
                return ;
            }
            left = left - rem;
        }
    }

    /// Whether each chunk that would get one of `slots` slots is short enough
    /// for a slot to describe it.
    pub fn fits_slots(&self, slots: usize) -> (fits: bool)
        ensures
            fits == forall|i: int|
                0 <= i < self@.len() && i < slots ==> (#[trigger] self@[i]).len() <= u32::MAX,
    {
        let count: usize = self.bufs.len();
        let mut i: usize = 0;
        while i < count && i < slots
            invariant
                count == self@.len(),
                count == self.bufs@.len(),
                i <= count,
                forall|j: int| 0 <= j < i ==> (#[trigger] self@[j]).len() <= u32::MAX,
            decreases count - i,
        {
            if chunk_remaining(&self.bufs[i]) > 0xffff_ffff {
                assert(self@[i as int].len() > u32::MAX);
                return false;
            }
            i = i + 1;
        }
        true
    }

    /// Describes the unread chunks, front first, in the slots of `dst`, one
    /// chunk to a slot, until the slots or the chunks run out. Returns the
    /// number of slots written; the others keep what they held. With no slot
    /// to fill no chunk is looked at.
    ///
    /// A slot cannot describe more than `u32::MAX` bytes on every platform,
    /// so no chunk that gets a slot may be longer than that.
    pub fn chunks_vectored<'t>(&'t self, dst: &mut [IoSlice<'t>]) -> (n: usize)
        requires
            self.wf(),
            forall|i: int|
                0 <= i < self@.len() && i < old(dst)@.len() ==> (#[trigger] self@[i]).len()
                    <= u32::MAX,
        ensures
            final(dst)@.len() == old(dst)@.len(),
            n == if self@.len() <= old(dst)@.len() {
                self@.len()
            } else {
                old(dst)@.len()
            },
            forall|i: int| 0 <= i < n ==> io_slice_seq(#[trigger] final(dst)@[i]) == self@[i],
            forall|i: int| n <= i < old(dst)@.len() ==> #[trigger] final(dst)@[i] == old(dst)@[i],
    {
        let slots: usize = dst.len();
        if slots == 0 {
            return 0;
        }
        let count: usize = self.bufs.len();
        let mut vecs: usize = 0;
        while vecs < count
            invariant_except_break
                vecs < slots,
            invariant
                self.wf(),
                forall|i: int|
                    0 <= i < self@.len() && i < slots ==> (#[trigger] self@[i]).len() <= u32::MAX,
                count == self@.len(),
                count == self.bufs@.len(),
                slots == dst@.len(),
                dst@.len() == old(dst)@.len(),
                vecs <= count,
                vecs <= slots,
                forall|i: int| 0 <= i < vecs ==> io_slice_seq(#[trigger] dst@[i]) == self@[i],
                forall|i: int| vecs <= i < slots ==> #[trigger] dst@[i] == old(dst)@[i],
            ensures
                dst@.len() == old(dst)@.len(),
                vecs == if count <= slots {
                    count
                } else {
                    slots
                },
                forall|i: int| 0 <= i < vecs ==> io_slice_seq(#[trigger] dst@[i]) == self@[i],
                forall|i: int| vecs <= i < slots ==> #[trigger] dst@[i] == old(dst)@[i],
            decreases count - vecs,
        {
            assert(self@[vecs as int].len() > 0);
            let wrote: usize = chunk_vectored(&self.bufs[vecs], dst, vecs);
            vecs = vecs + wrote;
            if vecs == slots {
                break ;
            }
        }
        vecs
    }

    /// Takes the first `len` unread bytes out as one owned region.
    ///
    /// A front chunk of exactly `len` bytes is handed over as it is and
    /// leaves the buffer. A longer front chunk is split, and its tail stays.
    /// Only a request that reaches past the front chunk is copied, byte for
    /// byte, into a fresh region of `len` bytes. There have to be `len` bytes
    /// to take, and a region that is copied into cannot be larger than
    /// `isize::MAX` bytes.
    pub fn copy_to_bytes(&mut self, len: usize) -> (out: Bytes)
        requires
            len <= old(self).content().len(),
            old(self)@.len() == 0 || old(self)@[0].len() < len ==> len <= isize::MAX,
        ensures
            bytes_seq(out) == old(self).content().take(len as int),
            final(self)@ == extracted(old(self)@, len as nat),
            final(self).content() == old(self).content().skip(len as int),
            final(self).content().len() == old(self).content().len() - len,
            old(self).wf() ==> final(self).wf(),
    {
        proof {
            lemma_advanced_content(self@, len as nat);
            if self.wf() {
                lemma_advanced_non_empty(self@, len as nat);
            }
            if self@.len() > 0 {
                lemma_flatten_front(self@);
            }
        }
        let ghost before = self@;
        if self.bufs.len() > 0 {
            let rem: usize = chunk_remaining(&self.bufs[0]);
            if rem == len {
                let mut front = self.bufs.pop_front().unwrap();
                let out = chunk_split(&mut front, len);
                proof {
                    assert(self@ =~= before.skip(1));
                    assert(bytes_seq(out) =~= before.flatten().take(len as int));
                    assert(before.skip(1).flatten() =~= before.flatten().skip(len as int));
                    assert(non_empty(before) ==> non_empty(self@)) by {
                        assert forall|i: int| 0 <= i < self@.len() && non_empty(
                            before,
                        ) implies (#[trigger] self@[i]).len() > 0 by {
                            assert(self@[i] == before[i + 1]);
                        }
                    }
                }
                return out;
            }
            if rem > len {
                let mut front = self.bufs.pop_front().unwrap();
                let out = chunk_split(&mut front, len);
                self.bufs.push_front(front);
                proof {
                    assert(self@ =~= before.update(0, before[0].skip(len as int)));
                    assert(before[0].skip(0) =~= before[0]);
                    assert(before.update(0, before[0].skip(0)) =~= before);
                    assert(bytes_seq(out) =~= before.flatten().take(len as int));
                }
                return out;
            }
        }
        let mut region = region_with_capacity(len);
        let mut left: usize = len;
        while left > 0
            invariant
                left <= self.content().len(),
                advanced(self@, left as nat) == advanced(before, len as nat),
                bytes_mut_seq(region) + self.content().take(left as int) == before.flatten().take(
                    len as int,
                ),
                bytes_mut_seq(region).len() + left == len,
                len <= isize::MAX,
            decreases left, self@.len(),
        {
            proof {
                if self@.len() == 0 {
                    assert(self@.flatten() =~= Seq::<u8>::empty());
                } else {
                    lemma_flatten_front(self@);
                }
            }
            let ghost chunks = self@;
            let ghost filled = bytes_mut_seq(region);
            let mut front = self.bufs.pop_front().unwrap();
            assert(self@ =~= chunks.skip(1));
            let rem: usize = chunk_remaining(&front);
            if rem > left {
                region_put(&mut region, slice_subrange(chunk_slice(&front), 0, left));
                chunk_advance(&mut front, left);
                self.bufs.push_front(front);
                proof {
                    assert(self@ =~= chunks.update(0, chunks[0].skip(left as int)));
                    lemma_advanced_content(chunks, left as nat);
                    assert(bytes_mut_seq(region) + self.content().take(0) =~= filled
                        + chunks.flatten().take(left as int));
                }
                left = 0;
            } else {
                region_put(&mut region, chunk_slice(&front));
                proof {
                    assert(bytes_mut_seq(region) + self.content().take(left - rem) =~= filled
                        + chunks.flatten().take(left as int));
                }
                left = left - rem;
            }
        }
        proof {
            assert(bytes_mut_seq(region) + self.content().take(0) =~= bytes_mut_seq(region));
        }
        region_freeze(region)
    }
}

} // verus!
