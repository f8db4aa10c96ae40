//! A byte sink that either counts what would be written or writes it into a
//! buffer of fixed size.
use crate::decode::DecodeError;
use vstd::prelude::*;

verus! {

/// Counts what is written (`Null`) or writes it into `data` (`Data`).
#[derive(Debug)]
pub enum Writer<T> {
    Null { position: usize },
    Data { data: Vec<T>, position: usize },
}

impl<T: Copy> Writer<T> {
    /// A writer that only counts.
    pub fn null() -> (w: Self)
        ensures
            w == (Writer::<T>::Null { position: 0 }),
    {
        Writer::Null { position: 0 }
    }

    /// How many items have been written.
    pub fn position(&self) -> (p: usize)
        ensures
            p == match self {
                Writer::Null { position } => *position,
                Writer::Data { position, .. } => *position,
            },
    {
        match self {
            Writer::Null { position } => *position,
            Writer::Data { position, .. } => *position,
        }
    }

    /// Writes `buf` after what was written before. A buffer fails to take
    /// more items than it has room for, and then is left as it was.
    pub fn write(&mut self, buf: &[T]) -> (r: Result<(), DecodeError>)
        requires
            old(self).position_fits(buf@.len()),
        ensures
            Self::wrote(*old(self), buf@, *final(self), r is Ok),
            r is Err ==> r == Err::<(), DecodeError>(DecodeError::FullBytes),
    {
        match self {
            Writer::Null { position } => {
                *position = *position + buf.len();
                Ok(())
            },
            Writer::Data { data, position } => {
                let start = *position;
                if buf.len() > data.len() || start > data.len() - buf.len() {
                    return Err(DecodeError::FullBytes);
                }
                let ghost d0 = data@;
                let mut j: usize = 0;
                while j < buf.len()
                    invariant
                        j <= buf@.len(),
                        start + buf@.len() <= d0.len() <= usize::MAX,
                        data@.len() == d0.len(),
                        forall|k: int|
                            0 <= k < d0.len() && !(start <= k < start + j) ==> #[trigger] data@[k]
                                == d0[k],
                        forall|k: int| start <= k < start + j ==> #[trigger] data@[k] == buf@[k - start],
                    decreases buf@.len() - j,
                {
                    data.set(start + j, buf[j]);
                    j = j + 1;
                }
                proof {
                    assert(data@ =~= d0.subrange(0, start as int) + buf@ + d0.subrange(
                        start + buf@.len(),
                        d0.len() as int,
                    ));
                }
                *position = start + buf.len();
                Ok(())
            },
        }
    }

    /// Whether writing `buf` to `before` leaves `after`, and succeeds (`ok`):
    /// a count grows by the number of items; a buffer takes them at its
    /// position if they fit, and is left as it was if not.
    pub open spec fn wrote(before: Self, buf: Seq<T>, after: Self, ok: bool) -> bool {
        match before {
            Writer::Null { position } => ok && after == (Writer::<T>::Null {
                position: (position + buf.len()) as usize,
            }),
            Writer::Data { data, position } => if position + buf.len() > data@.len() {
                !ok && after == before
            } else {
                &&& ok
                &&& after is Data
                &&& after->Data_position == position + buf.len()
                &&& after->data@ == data@.subrange(0, position as int) + buf + data@.subrange(
                    position + buf.len(),
                    data@.len() as int,
                )
            },
        }
    }

    /// How many items have been written.
    pub open spec fn spec_position(self) -> nat {
        match self {
            Writer::Null { position } => position as nat,
            Writer::Data { position, .. } => position as nat,
        }
    }

    /// A counting writer that starts at 0 and is given two writes takes both
    /// and is then at the sum of their lengths.
    pub proof fn lemma_null_counts(w1: Self, w2: Self, b1: Seq<T>, b2: Seq<T>, ok1: bool, ok2: bool)
        requires
            Self::wrote(Writer::Null { position: 0 }, b1, w1, ok1),
            Self::wrote(w1, b2, w2, ok2),
            b1.len() + b2.len() <= usize::MAX,
        ensures
            ok1,
            ok2,
            w2.spec_position() == b1.len() + b2.len(),
    {
    }

    /// A count can grow by `n` without passing `usize::MAX` (a buffer bounds
    /// it by itself).
    pub open spec fn position_fits(&self, n: nat) -> bool {
        match self {
            Writer::Null { position } => position + n <= usize::MAX,
            Writer::Data { .. } => true,
        }
    }
}

} // verus!
