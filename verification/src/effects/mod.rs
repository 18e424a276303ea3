//! Effects applied to streams.
use crate::stream::{is_default, Stream};
use vstd::prelude::*;

verus! {

/// Why an effect failed: no effect fails yet, so the type has no values.
pub type EffectErr = std::convert::Infallible;

/// Something that turns a stream into another.
pub trait Effect<T> {
    fn process(&mut self, stream: &Stream<T>) -> Result<Stream<T>, EffectErr>;
}

/// The effect that silences a stream.
pub struct Mute;

impl Mute {
    pub fn new() -> (m: Self)
        ensures
            m == Mute,
    {
        Mute
    }
}

impl<T: Copy + Default> Effect<T> for Mute {
    /// As many default points as the stream has, with its channels.
    fn process(&mut self, stream: &Stream<T>) -> (r: Result<Stream<T>, EffectErr>)
        ensures
            match r {
                Ok(s) => {
                    &&& s.samples@.len() == stream.samples@.len()
                    &&& forall|i: int| 0 <= i < s.samples@.len() ==> is_default(#[trigger] s.samples@[i])
                    &&& s.channels == stream.channels
                },
                Err(_) => false,
            },
    {
        Ok(Stream::empty(stream.samples.len(), stream.channels))
    }
}

} // verus!
