//! A sample: a stream played into a buffer, looping or once.
use crate::stream::{defaults, is_default, Stream, StreamErr};
use vstd::prelude::*;

verus! {

/// How a sample goes on after its last point.
#[derive(Debug, Clone, Copy, PartialEq, Eq, Structural)]
pub enum PlayStyle {
    /// Once, then silence.
    OneShot,
    /// From the start again.
    Loop,
}

/// A named stream, the buffer it plays into, and where it is.
#[derive(Debug)]
pub struct Sample<T> {
    pub name: String,
    pub buffer: Stream<T>,
    pub stream: Stream<T>,
    pub position: usize,
    pub play_style: PlayStyle,
}

/// What a looping play of `n` points from `p` over `len` points gives:
/// the point at `(p + k) mod len` at the `k`th place.
pub open spec fn looped<T>(stream: Seq<T>, p: int, n: int) -> Seq<T> {
    Seq::new(n as nat, |k: int| stream[(p + k) % (stream.len() as int)])
}

/// Whether `out` is what a single play of `n` points from `p` gives: the
/// point at `p + k` while there is one, a default value after.
pub open spec fn played_once<T: Default>(stream: Seq<T>, p: int, out: Seq<T>) -> bool {
    forall|k: int|
        0 <= k < out.len() ==> if p + k < stream.len() {
            #[trigger] out[k] == stream[p + k]
        } else {
            is_default(out[k])
        }
}

/// Where a single play of `n` points from `p` over `len` points stops.
pub open spec fn position_after_once(p: int, n: int, len: int) -> int {
    if n == 0 {
        p
    } else if p + n < len {
        p + n
    } else {
        len
    }
}

/// Whether playing can go on without stepping before the first point: a
/// single play of at least one point needs a point to stop after.
pub open spec fn play_defined<T>(s: Sample<T>) -> bool {
    s.play_style == PlayStyle::OneShot && s.buffer.samples@.len() > 0 ==> s.stream.samples@.len() > 0
}

/// Whether playing `a` gives `b`, and succeeds as `ok` says. Looping, the
/// buffer gets the points from the position on, going round to the first
/// point after the last; a position past the end is an error, and then
/// nothing changes. Once, the buffer gets the points from the position on
/// and default values after the last, and the position stops after the
/// last point. The name, the stream, the style and the buffer's size and
/// channels stay.
pub open spec fn plays<T: Default>(a: Sample<T>, b: Sample<T>, ok: bool) -> bool {
    let n = a.buffer.samples@.len() as int;
    let len = a.stream.samples@.len() as int;
    let p = a.position as int;
    &&& b.name == a.name
    &&& b.stream == a.stream
    &&& b.play_style == a.play_style
    &&& b.buffer.channels == a.buffer.channels
    &&& b.buffer.samples@.len() == n
    &&& match a.play_style {
        PlayStyle::Loop => if n > 0 && p >= len {
            &&& !ok
            &&& b.buffer == a.buffer
            &&& b.position == a.position
        } else {
            &&& ok
            &&& b.buffer.samples@ == if n == 0 {
                a.buffer.samples@
            } else {
                looped(a.stream.samples@, p, n)
            }
            &&& b.position == if n == 0 { p } else { (p + n) % len }
        },
        PlayStyle::OneShot => {
            &&& ok
            &&& played_once(a.stream.samples@, p, b.buffer.samples@)
            &&& b.position == position_after_once(p, n, len)
        },
    }
}

impl<T: Copy + Default> Sample<T> {
    /// A sample that loops `stream` from its start into an empty buffer with
    /// the stream's channels.
    pub fn new(name: String, stream: Stream<T>) -> (s: Self)
        ensures
            s.name == name,
            s.stream == stream,
            s.buffer.samples@.len() == 0,
            s.buffer.channels == stream.channels,
            s.position == 0,
            s.play_style == PlayStyle::Loop,
    {
        let channels = stream.channels;
        Sample { name, stream, buffer: Stream::empty(0, channels), position: 0, play_style: PlayStyle::Loop }
    }

    /// Fills the buffer from the stream (see `plays`).
    pub fn play(&mut self) -> (r: Result<&Stream<T>, StreamErr>)
        requires
            play_defined(*old(self)),
        ensures
            plays(*old(self), *final(self), r is Ok),
            r is Ok ==> r == Ok::<&Stream<T>, StreamErr>(&final(self).buffer),
            r is Err ==> r == Err::<&Stream<T>, StreamErr>(StreamErr::OutOfBounds),
    {
        let sample_length = self.stream.len();
        let n = self.buffer.samples.len();
        let ghost p0 = self.position as int;
        let ghost s = self.stream.samples@;
        let ghost old_buffer = self.buffer;
        let mut i: usize = 0;
        proof {
            if p0 < sample_length {
                vstd::arithmetic::div_mod::lemma_small_mod(p0 as nat, sample_length as nat);
            }
        }
        while i < n
            invariant
                n == self.buffer.samples@.len(),
                n == old(self).buffer.samples@.len(),
                sample_length == s.len(),
                s == self.stream.samples@,
                self.name == old(self).name,
                self.stream == old(self).stream,
                self.play_style == old(self).play_style,
                self.buffer.channels == old(self).buffer.channels,
                p0 == old(self).position,
                old_buffer == old(self).buffer,
                0 <= i <= n,
                play_defined(*old(self)),
                i == 0 ==> self.buffer == old_buffer && self.position == p0,
                self.play_style == PlayStyle::Loop && (i > 0 || p0 < sample_length) ==> {
                    &&& p0 < sample_length
                    &&& self.position < sample_length
                    &&& self.position == (p0 + i) % (sample_length as int)
                    &&& forall|k: int| 0 <= k < i ==> #[trigger] self.buffer.samples@[k] == s[(p0 + k) % (sample_length as int)]
                },
                self.play_style == PlayStyle::OneShot ==> {
                    &&& self.position == position_after_once(p0, i as int, sample_length as int)
                    &&& forall|k: int| 0 <= k < i ==> if p0 + k < s.len() {
                        #[trigger] self.buffer.samples@[k] == s[p0 + k]
                    } else {
                        is_default(self.buffer.samples@[k])
                    }
                },
            decreases n - i,
        {
            let value = match self.play_style {
                PlayStyle::Loop => {
                    match self.stream.get_sample(self.position) {
                        Ok(v) => v,
                        Err(e) => {
                            return Err(e);
                        },
                    }
                },
                PlayStyle::OneShot => {
                    if self.position >= sample_length {
                        T::default()
                    } else {
                        match self.stream.get_sample(self.position) {
                            Ok(v) => v,
                            Err(e) => {
                                return Err(e);
                            },
                        }
                    }
                },
            };
            self.buffer.samples.set(i, value);
            self.position = match self.play_style {
                PlayStyle::Loop => {
                    if self.position >= sample_length - 1 {
                        0
                    } else {
                        self.position + 1
                    }
                },
                PlayStyle::OneShot => {
                    if self.position >= sample_length - 1 {
                        sample_length
                    } else {
                        self.position + 1
                    }
                },
            };
            proof {
                if self.play_style == PlayStyle::Loop {
                    lemma_next_mod(p0, i as int, sample_length as int);
                }
            }
            i = i + 1;
        }
        proof {
            if self.play_style == PlayStyle::Loop && n > 0 {
                assert(self.buffer.samples@ =~= looped(s, p0, n as int));
            }
        }
        Ok(&self.buffer)
    }

    /// Makes the buffer `buffer_size` points long: cut short, or filled up
    /// with default values.
    pub fn set_buffer_size(&mut self, buffer_size: usize) -> (r: &mut Self)
        ensures
            r.buffer.samples@.len() == buffer_size,
            forall|i: int| 0 <= i < buffer_size && i < old(self).buffer.samples@.len() ==> #[trigger] r.buffer.samples@[i] == old(self).buffer.samples@[i],
            forall|i: int| old(self).buffer.samples@.len() <= i < buffer_size ==> is_default(#[trigger] r.buffer.samples@[i]),
            r.buffer.channels == old(self).buffer.channels,
            r.name == old(self).name,
            r.stream == old(self).stream,
            r.position == old(self).position,
            r.play_style == old(self).play_style,
            *final(self) == *final(r),
    {
        resize(&mut self.buffer.samples, buffer_size);
        self
    }
}

/// Playing a loop twice gives what one play of both buffers together
/// gives: the second play goes on where the first stopped.
pub proof fn law_loop_continues<T>(stream: Seq<T>, p: int, n: int, m: int)
    requires
        0 <= p < stream.len(),
        0 <= n,
        0 <= m,
    ensures
        looped(stream, p, n) + looped(stream, (p + n) % (stream.len() as int), m) =~= looped(stream, p, n + m),
{
    let len = stream.len() as int;
    assert forall|k: int| 0 <= k < m implies #[trigger] looped(stream, (p + n) % len, m)[k] == looped(stream, p, n + m)[n + k] by {
        vstd::arithmetic::div_mod::lemma_add_mod_noop(p + n, k, len);
        vstd::arithmetic::div_mod::lemma_mod_twice(p + n, len);
        vstd::arithmetic::div_mod::lemma_add_mod_noop((p + n) % len, k, len);
        vstd::arithmetic::div_mod::lemma_mod_bound(k, len);
    }
}

/// A single play that has reached the end stays there and gives only
/// default values.
pub proof fn law_one_shot_stays_silent<T: Default>(stream: Seq<T>, n: int, out: Seq<T>)
    requires
        0 <= n,
        played_once(stream, stream.len() as int, out),
    ensures
        position_after_once(stream.len() as int, n, stream.len() as int) == stream.len(),
        forall|k: int| 0 <= k < out.len() ==> is_default(#[trigger] out[k]),
{
    assert forall|k: int| 0 <= k < out.len() implies is_default(#[trigger] out[k]) by {
        assert(!(stream.len() + k < stream.len()));
    }
}

/// `(p + i + 1) mod len` is `(p + i) mod len` plus one, or zero past the
/// last point.
proof fn lemma_next_mod(p: int, i: int, len: int)
    requires
        0 <= p < len,
        0 <= i,
    ensures
        0 <= (p + i) % len < len,
        (p + i + 1) % len == if (p + i) % len >= len - 1 { 0 } else { (p + i) % len + 1 },
{
    vstd::arithmetic::div_mod::lemma_mod_bound(p + i, len);
    vstd::arithmetic::div_mod::lemma_add_mod_noop(p + i, 1, len);
    if len == 1 {
        vstd::arithmetic::div_mod::lemma_mod_self_0(1);
        vstd::arithmetic::div_mod::lemma_mod_bound(p + i + 1, len);
    } else {
        vstd::arithmetic::div_mod::lemma_small_mod(1, len as nat);
        if (p + i) % len + 1 < len {
            vstd::arithmetic::div_mod::lemma_small_mod(((p + i) % len + 1) as nat, len as nat);
        } else {
            vstd::arithmetic::div_mod::lemma_mod_self_0(len);
        }
    }
}

/// Cuts `v` to `size` points, or fills it up to `size` with default values.
pub(crate) fn resize<T: Default>(v: &mut Vec<T>, size: usize)
    ensures
        final(v)@.len() == size,
        forall|i: int| 0 <= i < size && i < old(v)@.len() ==> #[trigger] final(v)@[i] == old(v)@[i],
        forall|i: int| old(v)@.len() <= i < size ==> is_default(#[trigger] final(v)@[i]),
{
    if v.len() >= size {
        v.truncate(size);
    } else {
        let extra = size - v.len();
        let mut tail = defaults(extra);
        v.append(&mut tail);
    }
}

} // verus!
