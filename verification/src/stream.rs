//! Streams of samples. A sample point is any copyable value with a default
//! (the players use `f32`, whose default is silence).
use vstd::prelude::*;

verus! {

pub type BufferSize = usize;

/// Why a sample could not be read from a stream.
#[derive(Debug, Clone, Copy, PartialEq, Eq, Structural)]
pub enum StreamErr {
    /// The position lies past the last sample.
    OutOfBounds,
}

/// Samples and the number of channels they interleave.
#[derive(Debug, Clone)]
pub struct Stream<T> {
    pub samples: Vec<T>,
    pub channels: usize,
}

/// Whether `v` is a value that `T::default()` gives.
pub open spec fn is_default<T: Default>(v: T) -> bool {
    call_ensures(T::default, (), v)
}

/// A vector of `size` default values.
pub(crate) fn defaults<T: Default>(size: usize) -> (v: Vec<T>)
    ensures
        v@.len() == size,
        forall|i: int| 0 <= i < size ==> is_default(#[trigger] v@[i]),
{
    let mut v: Vec<T> = Vec::new();
    while v.len() < size
        invariant
            v@.len() <= size,
            forall|i: int| 0 <= i < v@.len() ==> is_default(#[trigger] v@[i]),
        decreases size - v@.len(),
    {
        v.push(T::default());
    }
    v
}

impl<T> Stream<T> {
    /// A stream of `size` default samples.
    pub fn empty(size: BufferSize, channels: usize) -> (s: Self)
        where T: Default,
        ensures
            s.samples@.len() == size,
            forall|i: int| 0 <= i < size ==> is_default(#[trigger] s.samples@[i]),
            s.channels == channels,
    {
        Stream { samples: defaults(size), channels }
    }

    pub fn from_samples(samples: Vec<T>, channels: usize) -> (s: Self)
        ensures
            s.samples == samples,
            s.channels == channels,
    {
        Stream { samples, channels }
    }

    /// The number of samples.
    pub fn len(&self) -> (n: usize)
        ensures
            n == self.samples@.len(),
    {
        self.samples.len()
    }

    /// The sample at `index`, or `StreamErr::OutOfBounds` past the end.
    pub fn get_sample(&self, index: usize) -> (r: Result<T, StreamErr>)
        where T: Copy,
        ensures
            index < self.samples@.len() ==> r == Ok::<T, StreamErr>(self.samples@[index as int]),
            index >= self.samples@.len() ==> r == Err::<T, StreamErr>(StreamErr::OutOfBounds),
    {
        if index < self.samples.len() {
            Ok(self.samples[index])
        } else {
            Err(StreamErr::OutOfBounds)
        }
    }
}

} // verus!
