//! A track: a sample, if one is loaded, played into the track's buffer at
//! a place of the screen.
use crate::sample::{play_defined, plays, resize, Sample};
use crate::stream::{is_default, Stream, StreamErr};
use vstd::prelude::*;

verus! {

/// The error of reading a file, carried through opaque.
#[verifier::external_type_specification]
#[verifier::external_body]
pub struct ExIoError(std::io::Error);

/// Why a track could not be loaded: the file could not be read, or its bytes
/// are no wave file.
#[derive(Debug)]
pub enum Error {
    BadFile(std::io::Error),
    CantParseFile(&'static str),
}

/// A sample player placed on the screen.
#[derive(Debug)]
pub struct Track<T> {
    pub sample: Option<Sample<T>>,
    pub buffer: Stream<T>,
    pub position: (i32, i32),
}

impl<T: Copy + Default> Track<T> {
    /// A track with no sample, an empty buffer of `channels` channels, at
    /// the origin.
    pub fn new(channels: usize) -> (t: Self)
        ensures
            t.sample is None,
            t.buffer.samples@.len() == 0,
            t.buffer.channels == channels,
            t.position == (0i32, 0i32),
    {
        Track { sample: None, buffer: Stream::empty(0, channels), position: (0, 0) }
    }

    /// Loads `sample`, replacing the one there was.
    pub fn add_sample(&mut self, sample: Sample<T>) -> (r: &mut Self)
        ensures
            r.sample == Some(sample),
            r.buffer == old(self).buffer,
            r.position == old(self).position,
            *final(self) == *final(r),
    {
        self.sample = Some(sample);
        self
    }

    pub fn set_position(&mut self, position: (i32, i32)) -> (r: &mut Self)
        ensures
            r.position == position,
            r.sample == old(self).sample,
            r.buffer == old(self).buffer,
            *final(self) == *final(r),
    {
        self.position = position;
        self
    }

    /// Plays the sample, if there is one, and copies what it played into the
    /// track's buffer, default values where the sample's buffer is shorter
    /// or there is no sample. An error of the sample is passed on, and then
    /// the track's buffer is unchanged.
    pub fn play(&mut self) -> (r: Result<&Stream<T>, StreamErr>)
        requires
            match old(self).sample {
                Some(s) => play_defined(s),
                None => true,
            },
        ensures
            final(self).position == old(self).position,
            final(self).buffer.channels == old(self).buffer.channels,
            final(self).buffer.samples@.len() == old(self).buffer.samples@.len(),
            match r {
                Ok(b) => b == &final(self).buffer,
                Err(_) => final(self).buffer == old(self).buffer && final(self).sample is Some,
            },
            match (old(self).sample, final(self).sample) {
                (Some(a), Some(s)) => {
                    &&& plays(a, s, r is Ok)
                    &&& r is Ok ==> forall|i: int| 0 <= i < final(self).buffer.samples@.len() ==> if i < s.buffer.samples@.len() {
                        #[trigger] final(self).buffer.samples@[i] == s.buffer.samples@[i]
                    } else {
                        is_default(final(self).buffer.samples@[i])
                    }
                },
                (None, None) => r is Ok && forall|i: int| 0 <= i < final(self).buffer.samples@.len() ==> is_default(#[trigger] final(self).buffer.samples@[i]),
                _ => false,
            },
    {
        let n = self.buffer.samples.len();
        match self.sample.take() {
            Some(mut sample) => {
                match sample.play() {
                    Ok(_) => {},
                    Err(e) => {
                        self.sample = Some(sample);
                        return Err(e);
                    },
                }
                let mut i: usize = 0;
                while i < n
                    invariant
                        n == self.buffer.samples@.len(),
                        self.buffer.channels == old(self).buffer.channels,
                        self.position == old(self).position,
                        0 <= i <= n,
                        forall|k: int| 0 <= k < i ==> if k < sample.buffer.samples@.len() {
                            #[trigger] self.buffer.samples@[k] == sample.buffer.samples@[k]
                        } else {
                            is_default(self.buffer.samples@[k])
                        },
                    decreases n - i,
                {
                    let value = if i < sample.buffer.samples.len() {
                        sample.buffer.samples[i]
                    } else {
                        T::default()
                    };
                    self.buffer.samples.set(i, value);
                    i = i + 1;
                }
                self.sample = Some(sample);
            },
            None => {
                let mut i: usize = 0;
                while i < n
                    invariant
                        n == self.buffer.samples@.len(),
                        self.buffer.channels == old(self).buffer.channels,
                        self.position == old(self).position,
                        self.sample is None,
                        0 <= i <= n,
                        forall|k: int| 0 <= k < i ==> is_default(#[trigger] self.buffer.samples@[k]),
                    decreases n - i,
                {
                    self.buffer.samples.set(i, T::default());
                    i = i + 1;
                }
            },
        }
        Ok(&self.buffer)
    }

    /// Makes the track's buffer, and the sample's if there is one,
    /// `buffer_size` points long.
    pub fn set_buffer_size(&mut self, buffer_size: usize) -> (r: &mut Self)
        ensures
            r.buffer.samples@.len() == buffer_size,
            forall|i: int| 0 <= i < buffer_size && i < old(self).buffer.samples@.len() ==> #[trigger] r.buffer.samples@[i] == old(self).buffer.samples@[i],
            forall|i: int| old(self).buffer.samples@.len() <= i < buffer_size ==> is_default(#[trigger] r.buffer.samples@[i]),
            r.buffer.channels == old(self).buffer.channels,
            r.position == old(self).position,
            match (old(self).sample, r.sample) {
                (Some(a), Some(b)) => {
                    &&& b.buffer.samples@.len() == buffer_size
                    &&& forall|i: int|
                        0 <= i < buffer_size && i < a.buffer.samples@.len() ==> #[trigger] b.buffer.samples@[i]
                            == a.buffer.samples@[i]
                    &&& forall|i: int|
                        a.buffer.samples@.len() <= i < buffer_size ==> is_default(#[trigger] b.buffer.samples@[i])
                    &&& b.buffer.channels == a.buffer.channels
                    &&& b.name == a.name
                    &&& b.stream == a.stream
                    &&& b.position == a.position
                    &&& b.play_style == a.play_style
                },
                (None, None) => true,
                _ => false,
            },
            *final(self) == *final(r),
    {
        resize(&mut self.buffer.samples, buffer_size);
        match self.sample.take() {
            Some(mut sample) => {
                sample.set_buffer_size(buffer_size);
                self.sample = Some(sample);
            },
            None => {},
        }
        self
    }
}

} // verus!
