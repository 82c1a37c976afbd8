//! The mathematical model of the buffer: a sequence of chunks, each a
//! sequence of bytes, and what consuming bytes from the front does to it.

use vstd::prelude::*;
use vstd::seq_lib::lemma_flatten_concat;

verus! {

/// No chunk of `chunks` is empty.
pub open spec fn non_empty(chunks: Seq<Seq<u8>>) -> bool {
    forall|i: int| 0 <= i < chunks.len() ==> (#[trigger] chunks[i]).len() > 0
}

/// The chunks left after the first `n` bytes are consumed. A chunk that is
/// used up leaves the sequence; a chunk used in part stays, shortened at its
/// front. Consuming nothing changes nothing.
pub open spec fn advanced(chunks: Seq<Seq<u8>>, n: nat) -> Seq<Seq<u8>>
    decreases chunks.len(),
{
    if n == 0 || chunks.len() == 0 {
        chunks
    } else if chunks[0].len() > n {
        chunks.update(0, chunks[0].skip(n as int))
    } else {
        advanced(chunks.skip(1), (n - chunks[0].len()) as nat)
    }
}

/// The chunks left after `n` bytes are taken out as one owned region. It
/// differs from `advanced` in one place: a front chunk of exactly `n` bytes
/// leaves the sequence even when `n` is zero.
pub open spec fn extracted(chunks: Seq<Seq<u8>>, n: nat) -> Seq<Seq<u8>> {
    if chunks.len() > 0 && chunks[0].len() == n {
        chunks.skip(1)
    } else {
        advanced(chunks, n)
    }
}

/// The bytes that a reader sees who looks at the front chunk, consumes as
/// many bytes as it saw, and goes on until it is shown nothing.
pub open spec fn drained(chunks: Seq<Seq<u8>>) -> Seq<u8>
    decreases chunks.len(),
{
    if chunks.len() == 0 || chunks[0].len() == 0 {
        Seq::empty()
    } else {
        proof {
            lemma_advanced_front(chunks);
        }
        chunks[0] + drained(advanced(chunks, chunks[0].len()))
    }
}

/// Consuming exactly the front chunk leaves the chunks behind it.
pub proof fn lemma_advanced_front(chunks: Seq<Seq<u8>>)
    requires
        chunks.len() > 0,
        chunks[0].len() > 0,
    ensures
        advanced(chunks, chunks[0].len()) == chunks.skip(1),
{
    reveal_with_fuel(advanced, 2);
}

/// A non-empty sequence of chunks joins to its front chunk followed by the
/// join of the rest.
pub proof fn lemma_flatten_front(chunks: Seq<Seq<u8>>)
    requires
        chunks.len() > 0,
    ensures
        chunks.flatten() == chunks[0] + chunks.skip(1).flatten(),
{
    assert(chunks.drop_first() =~= chunks.skip(1));
}

/// The first `i` chunks join to a prefix of the whole join.
pub proof fn lemma_flatten_take(chunks: Seq<Seq<u8>>, i: int)
    requires
        0 <= i <= chunks.len(),
    ensures
        chunks.flatten() == chunks.take(i).flatten() + chunks.skip(i).flatten(),
        chunks.take(i).flatten().len() <= chunks.flatten().len(),
{
    assert(chunks =~= chunks.take(i) + chunks.skip(i));
    lemma_flatten_concat(chunks.take(i), chunks.skip(i));
}

/// Consuming `n` bytes from the chunks drops the first `n` bytes of their
/// join.
pub proof fn lemma_advanced_content(chunks: Seq<Seq<u8>>, n: nat)
    requires
        n <= chunks.flatten().len(),
    ensures
        advanced(chunks, n).flatten() == chunks.flatten().skip(n as int),
    decreases chunks.len(),
{
    if n == 0 || chunks.len() == 0 {
        assert(chunks.flatten().skip(0) =~= chunks.flatten());
    } else {
        lemma_flatten_front(chunks);
        let rest = chunks.skip(1);
        if chunks[0].len() > n {
            let cut = chunks.update(0, chunks[0].skip(n as int));
            lemma_flatten_front(cut);
            assert(cut.skip(1) =~= rest);
            assert(cut.flatten() =~= chunks.flatten().skip(n as int));
        } else {
            let m = (n - chunks[0].len()) as nat;
            lemma_advanced_content(rest, m);
            assert(rest.flatten().skip(m as int) =~= chunks.flatten().skip(n as int));
        }
    }
}

/// Consuming bytes never leaves an empty chunk behind where there was none.
pub proof fn lemma_advanced_non_empty(chunks: Seq<Seq<u8>>, n: nat)
    requires
        non_empty(chunks),
    ensures
        non_empty(advanced(chunks, n)),
    decreases chunks.len(),
{
    if n == 0 || chunks.len() == 0 {
    } else if chunks[0].len() > n {
        let cut = chunks.update(0, chunks[0].skip(n as int));
        assert forall|i: int| 0 <= i < cut.len() implies (#[trigger] cut[i]).len() > 0 by {
            if i > 0 {
                assert(cut[i] == chunks[i]);
            }
        }
    } else {
        let rest = chunks.skip(1);
        assert forall|i: int| 0 <= i < rest.len() implies (#[trigger] rest[i]).len() > 0 by {
            assert(rest[i] == chunks[i + 1]);
        }
        lemma_advanced_non_empty(rest, (n - chunks[0].len()) as nat);
    }
}

/// Consuming in steps. Where no chunk is empty, consuming `a` bytes and
/// then `b` more leaves the same chunks as consuming `a + b` at once.
pub proof fn law_advance_in_steps(chunks: Seq<Seq<u8>>, a: nat, b: nat)
    requires
        non_empty(chunks),
    ensures
        advanced(advanced(chunks, a), b) == advanced(chunks, a + b),
    decreases chunks.len(),
{
    if a == 0 || chunks.len() == 0 {
    } else if chunks[0].len() > a {
        let cut = chunks.update(0, chunks[0].skip(a as int));
        if b == 0 {
        } else if cut[0].len() > b {
            assert(chunks[0].skip(a as int).skip(b as int) =~= chunks[0].skip((a + b) as int));
            assert(cut.update(0, cut[0].skip(b as int)) =~= chunks.update(
                0,
                chunks[0].skip((a + b) as int),
            ));
        } else {
            assert(cut.skip(1) =~= chunks.skip(1));
        }
    } else {
        let rest = chunks.skip(1);
        assert forall|i: int| 0 <= i < rest.len() implies (#[trigger] rest[i]).len() > 0 by {
            assert(rest[i] == chunks[i + 1]);
        }
        law_advance_in_steps(rest, (a - chunks[0].len()) as nat, b);
    }
}

/// The chunks held after each chunk of `chunks` was appended in turn to a
/// buffer that held `start`.
pub open spec fn pushed_all(start: Seq<Seq<u8>>, chunks: Seq<Seq<u8>>) -> Seq<Seq<u8>>
    decreases chunks.len(),
{
    if chunks.len() == 0 {
        start
    } else {
        pushed_all(start.push(chunks[0]), chunks.skip(1))
    }
}

/// The lengths of the chunks, added up.
pub open spec fn total_len(chunks: Seq<Seq<u8>>) -> nat
    decreases chunks.len(),
{
    if chunks.len() == 0 {
        0
    } else {
        chunks[0].len() + total_len(chunks.skip(1))
    }
}

/// Appending chunks one by one keeps them, in order, behind what was there.
pub proof fn lemma_pushed_all(start: Seq<Seq<u8>>, chunks: Seq<Seq<u8>>)
    ensures
        pushed_all(start, chunks) == start + chunks,
    decreases chunks.len(),
{
    if chunks.len() == 0 {
        assert(start + chunks =~= start);
    } else {
        lemma_pushed_all(start.push(chunks[0]), chunks.skip(1));
        assert(start.push(chunks[0]) + chunks.skip(1) =~= start + chunks);
    }
}

/// The join of the chunks is as long as their lengths added up.
pub proof fn lemma_total_len(chunks: Seq<Seq<u8>>)
    ensures
        chunks.flatten().len() == total_len(chunks),
    decreases chunks.len(),
{
    if chunks.len() > 0 {
        lemma_flatten_front(chunks);
        lemma_total_len(chunks.skip(1));
    }
}

/// A reader that follows the front chunk to the end sees the join of the
/// chunks, as long as none of them is empty.
pub proof fn lemma_drained(chunks: Seq<Seq<u8>>)
    requires
        non_empty(chunks),
    ensures
        drained(chunks) == chunks.flatten(),
    decreases chunks.len(),
{
    if chunks.len() > 0 {
        let rest = chunks.skip(1);
        assert forall|i: int| 0 <= i < rest.len() implies (#[trigger] rest[i]).len() > 0 by {
            assert(rest[i] == chunks[i + 1]);
        }
        lemma_advanced_front(chunks);
        lemma_flatten_front(chunks);
        lemma_drained(rest);
    }
}

/// Where no chunk is empty and one is left, the front chunk shows at least
/// one byte, and what it shows is how the unread bytes begin. So a reader
/// that consumes no more than it was shown reads the unread bytes in order,
/// whatever the size of its steps.
pub proof fn law_front_is_prefix(chunks: Seq<Seq<u8>>)
    requires
        non_empty(chunks),
        chunks.len() > 0,
    ensures
        chunks[0].len() > 0,
        chunks[0].is_prefix_of(chunks.flatten()),
{
    lemma_flatten_front(chunks);
}

/// Concatenation. After non-empty chunks were appended in order to an empty
/// buffer, the number of unread bytes is the sum of their lengths, and
/// reading the buffer to its end, front chunk by front chunk, gives their
/// bytes in the order in which they arrived.
pub proof fn law_concatenation(chunks: Seq<Seq<u8>>)
    requires
        non_empty(chunks),
    ensures
        pushed_all(Seq::empty(), chunks) == chunks,
        pushed_all(Seq::empty(), chunks).flatten().len() == total_len(chunks),
        drained(pushed_all(Seq::empty(), chunks)) == chunks.flatten(),
{
    lemma_pushed_all(Seq::empty(), chunks);
    assert(Seq::<Seq<u8>>::empty() + chunks =~= chunks);
    lemma_total_len(chunks);
    lemma_drained(chunks);
}

/// Copy at a chunk boundary. Taking out as many bytes as the front chunk
/// holds gives that chunk's bytes, removes that chunk and touches no other:
/// the count of chunks goes down by one and no chunk is added.
pub proof fn law_extract_front_chunk(chunks: Seq<Seq<u8>>)
    requires
        chunks.len() > 0,
    ensures
        chunks.flatten().take(chunks[0].len() as int) == chunks[0],
        extracted(chunks, chunks[0].len()) == chunks.skip(1),
        extracted(chunks, chunks[0].len()).len() == chunks.len() - 1,
{
    lemma_flatten_front(chunks);
    assert(chunks.flatten().take(chunks[0].len() as int) =~= chunks[0]);
}

/// Copy across chunk boundaries. Whatever the number of bytes taken out,
/// what is left joins to the old join without its first `n` bytes, so the
/// number of unread bytes goes down by exactly `n`.
pub proof fn law_extract_content(chunks: Seq<Seq<u8>>, n: nat)
    requires
        n <= chunks.flatten().len(),
    ensures
        extracted(chunks, n).flatten() == chunks.flatten().skip(n as int),
        extracted(chunks, n).flatten().len() == chunks.flatten().len() - n,
        chunks.flatten() == chunks.flatten().take(n as int) + extracted(chunks, n).flatten(),
{
    lemma_advanced_content(chunks, n);
    if chunks.len() > 0 && chunks[0].len() == n {
        lemma_flatten_front(chunks);
        assert(chunks.skip(1).flatten() =~= chunks.flatten().skip(n as int));
    }
    assert(chunks.flatten() =~= chunks.flatten().take(n as int) + chunks.flatten().skip(
        n as int,
    ));
}

/// Consuming no byte changes neither the chunks nor, with them, the number
/// of unread bytes or the count of chunks.
pub proof fn law_advance_zero(chunks: Seq<Seq<u8>>)
    ensures
        advanced(chunks, 0) == chunks,
        advanced(chunks, 0).flatten().len() == chunks.flatten().len(),
        advanced(chunks, 0).len() == chunks.len(),
{
}

} // verus!
