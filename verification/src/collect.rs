//! Collecting a streamed body: the decisions, without the waiting.
//!
//! A body hands out its chunks one at a time and may have none ready. The
//! caller asks the body, tells the collector what it answered, and does what
//! the collector says: ask again at once, wait, or stop with the result.
//! The collector owns the buffer until it hands it over.
//!
//! Only a body that is too long is an error. One that ends short of the
//! declared length is accepted as it is: the declared length is treated as an
//! upper bound, not as a promise.

use crate::aggregate::Aggregate;
use crate::chunk::bytes_seq;
use crate::chunk::chunk_remaining;
use bytes::Bytes;
use vstd::prelude::*;

verus! {

/// Why a collection failed.
pub enum AggregateError<E> {
    /// The body itself reported an error, handed on as it came.
    Body(E),
    /// More bytes arrived than the declared length allows.
    ContentLength,
}

/// What the body answered when it was asked for its next chunk.
pub enum Polled<E> {
    /// A chunk arrived.
    Data(Bytes),
    /// The body failed.
    Failed(E),
    /// The body has ended.
    End,
    /// No chunk is ready yet.
    Pending,
}

/// What the caller does after an answer was taken in.
pub enum Step<E> {
    /// Ask the body again at once.
    Again,
    /// Wait until the body has something, then ask again.
    Suspend,
    /// The collection is over, with the buffer or the reason it failed.
    Done(Result<Aggregate, AggregateError<E>>),
}

/// The state of one collection: the buffer so far, the declared length, and
/// the number of bytes taken in.
pub struct Collector {
    bufs: Option<Aggregate>,
    content_len: usize,
    used: usize,
}

impl Collector {
    /// The collection is still running. Once it is over no further answer
    /// may be handed in.
    pub closed spec fn is_collecting(&self) -> bool {
        self.bufs is Some
    }

    /// The chunks taken in so far, in arrival order.
    pub closed spec fn chunks(&self) -> Seq<Seq<u8>> {
        match self.bufs {
            Some(a) => a@,
            None => Seq::empty(),
        }
    }

    /// The declared length of the body.
    pub closed spec fn expected(&self) -> nat {
        self.content_len as nat
    }

    /// The number of bytes taken in so far.
    pub closed spec fn used(&self) -> nat {
        self.used as nat
    }

    /// While collecting, the buffer holds no empty chunk, the count is the
    /// number of bytes in it, and the count is within the declared length.
    pub closed spec fn wf(&self) -> bool {
        match self.bufs {
            Some(a) => a.wf() && self.used == a.content().len() && self.used <= self.content_len,
            None => true,
        }
    }

    /// A collection that has taken in nothing yet.
    pub fn new(content_len: usize) -> (c: Collector)
        ensures
            c.wf(),
            c.is_collecting(),
            c.chunks() == Seq::<Seq<u8>>::empty(),
            c.expected() == content_len,
            c.used() == 0,
    {
        let c = Collector { bufs: Some(Aggregate::new()), content_len, used: 0 };
        assert(c.bufs.unwrap()@.flatten() =~= Seq::<u8>::empty());
        c
    }

    /// Whether the collection is over, so that no further answer may be
    /// handed in.
    pub fn is_done(&self) -> (done: bool)
        ensures
            done == !self.is_collecting(),
    {
        self.bufs.is_none()
    }

    /// Takes in one answer of the body and says what to do next.
    ///
    /// A chunk is counted first. If the count then exceeds the declared
    /// length the chunk and the buffer are dropped and the collection fails;
    /// otherwise the chunk joins the buffer and the body is to be asked again
    /// at once. An error of the body ends the collection with that error.
    /// The end of the body hands the buffer over. With no chunk ready nothing
    /// changes and the caller waits.
    ///
    /// A body must not hand out an empty chunk.
    pub fn on_poll<E>(&mut self, polled: Polled<E>) -> (step: Step<E>)
        requires
            old(self).wf(),
            old(self).is_collecting(),
            polled matches Polled::Data(d) ==> bytes_seq(d).len() > 0,
        ensures
            final(self).wf(),
            final(self).expected() == old(self).expected(),
            match polled {
                Polled::Data(d) => if old(self).used() + bytes_seq(d).len() > old(
                    self,
                ).expected() {
                    &&& step == Step::<E>::Done(Err(AggregateError::ContentLength))
                    &&& !final(self).is_collecting()
                } else {
                    &&& step == Step::<E>::Again
                    &&& final(self).is_collecting()
                    &&& final(self).chunks() == old(self).chunks().push(bytes_seq(d))
                    &&& final(self).used() == old(self).used() + bytes_seq(d).len()
                },
                Polled::Failed(e) => {
                    &&& step == Step::Done(Err(AggregateError::Body(e)))
                    &&& !final(self).is_collecting()
                },
                Polled::End => {
                    &&& step matches Step::Done(Ok(a))
                    &&& a@ == old(self).chunks()
                    &&& a.wf()
                    &&& a.content().len() == old(self).used()
                    &&& a.content().len() <= old(self).expected()
                    &&& !final(self).is_collecting()
                },
                Polled::Pending => {
                    &&& step == Step::<E>::Suspend
                    &&& final(self).is_collecting()
                    &&& final(self).chunks() == old(self).chunks()
                    &&& final(self).used() == old(self).used()
                },
            },
    {
        match polled {
            Polled::Data(data) => {
                let len: usize = chunk_remaining(&data);
                if len > self.content_len - self.used {
                    self.bufs = None;
                    Step::Done(Err(AggregateError::ContentLength))
                } else {
                    let mut bufs = self.bufs.take().unwrap();
                    proof {
                        bufs@.lemma_flatten_push(bytes_seq(data));
                    }
                    bufs.push(data);
                    self.used = self.used + len;
                    self.bufs = Some(bufs);
                    Step::Again
                }
            },
            Polled::Failed(error) => {
                self.bufs = None;
                Step::Done(Err(AggregateError::Body(error)))
            },
            Polled::End => {
                let bufs = self.bufs.take().unwrap();
                Step::Done(Ok(bufs))
            },
            Polled::Pending => Step::Suspend,
        }
    }
}

} // verus!
