//! Reading of RIFF/WAVE files: chunk ids, the `fmt ` chunk and the `data` chunk.
use vstd::prelude::*;

verus! {

/// The four character codes of the chunks that a wave file may hold.
#[derive(Debug, Clone, Copy, PartialEq, Eq, Structural)]
pub enum ChunkID {
    RIFF,
    FMT,
    LIST,
    DATA,
}

pub open spec fn spec_chunk_id(id: Seq<u8>) -> Result<ChunkID, &'static str> {
    if id == seq![82u8, 73u8, 70u8, 70u8] {
        Ok(ChunkID::RIFF)
    } else if id == seq![102u8, 109u8, 116u8, 32u8] {
        Ok(ChunkID::FMT)
    } else if id == seq![76u8, 73u8, 83u8, 84u8] {
        Ok(ChunkID::LIST)
    } else if id == seq![100u8, 97u8, 116u8, 97u8] {
        Ok(ChunkID::DATA)
    } else {
        Err("unknown chunk id")
    }
}

/// Reads a four byte chunk id: `RIFF`, `fmt `, `LIST` or `data`.
pub fn parse_chunk_id(id: [u8; 4]) -> (r: Result<ChunkID, &'static str>)
    ensures
        r == spec_chunk_id(id@),
{
    if id[0] == 82 && id[1] == 73 && id[2] == 70 && id[3] == 70 {
        assert(id@ =~= seq![82u8, 73u8, 70u8, 70u8]);
        Ok(ChunkID::RIFF)
    } else if id[0] == 102 && id[1] == 109 && id[2] == 116 && id[3] == 32 {
        assert(id@ =~= seq![102u8, 109u8, 116u8, 32u8]);
        Ok(ChunkID::FMT)
    } else if id[0] == 76 && id[1] == 73 && id[2] == 83 && id[3] == 84 {
        assert(id@ =~= seq![76u8, 73u8, 83u8, 84u8]);
        Ok(ChunkID::LIST)
    } else if id[0] == 100 && id[1] == 97 && id[2] == 116 && id[3] == 97 {
        assert(id@ =~= seq![100u8, 97u8, 116u8, 97u8]);
        Ok(ChunkID::DATA)
    } else {
        Err("unknown chunk id")
    }
}

} // verus!

verus! {

/// Little-endian value of the two bytes at `i`.
pub open spec fn le16(b: Seq<u8>, i: int) -> int {
    b[i] + 256 * b[i + 1]
}

/// Little-endian value of the four bytes at `i`.
pub open spec fn le32(b: Seq<u8>, i: int) -> int {
    b[i] + 256 * b[i + 1] + 65536 * b[i + 2] + 16777216 * b[i + 3]
}

/// Little-endian value of the `n` bytes (1, 2 or 4) at `i`.
pub open spec fn le_value(b: Seq<u8>, i: int, n: int) -> int {
    if n == 1 {
        b[i] as int
    } else if n == 2 {
        le16(b, i)
    } else {
        le32(b, i)
    }
}

/// The sample format that the `fmt ` chunk of a wave file describes.
#[derive(Debug, Clone, Copy, PartialEq, Eq, Structural)]
pub struct WaveFormat {
    pub sample_rate: u32,
    pub bit_depth: u16,
    pub num_channels: u16,
}

/// A decoded wave file: its format and its samples, channels interleaved.
#[derive(Debug)]
pub struct Wave {
    pub format: WaveFormat,
    pub data: Vec<usize>,
}

/// The format held by a `fmt ` chunk body: the channel count at offset 2, the
/// sample rate at offset 4 and the bits per sample at offset 14.
pub open spec fn spec_fmt(b: Seq<u8>) -> WaveFormat {
    WaveFormat {
        num_channels: le16(b, 2) as u16,
        sample_rate: le32(b, 4) as u32,
        bit_depth: le16(b, 14) as u16,
    }
}

/// Bytes per sample of a format.
pub open spec fn bytes_per_sample(f: WaveFormat) -> int {
    f.bit_depth as int / 8
}

/// Bytes per frame (one sample of every channel) of a format.
pub open spec fn bytes_per_frame(f: WaveFormat) -> int {
    bytes_per_sample(f) * f.num_channels
}

/// Whether a sample of this format can be read: 8 and 16 bit samples, and the
/// samples of 4 bytes.
pub open spec fn readable_depth(f: WaveFormat) -> bool {
    f.bit_depth == 8 || f.bit_depth == 16 || bytes_per_sample(f) == 4
}

/// The samples of a `data` chunk body: every whole frame, each sample read as
/// an unsigned little-endian number; an error when a frame exists and the
/// sample size cannot be read.
pub open spec fn spec_data(f: WaveFormat, b: Seq<u8>) -> Result<Seq<usize>, &'static str> {
    if bytes_per_frame(f) > b.len() {
        Ok(Seq::empty())
    } else if !readable_depth(f) {
        Err("couldn't parse sample")
    } else {
        let n = (b.len() as int / bytes_per_frame(f)) * f.num_channels;
        Ok(Seq::new(n as nat, |k: int| le_value(b, k * bytes_per_sample(f), bytes_per_sample(f)) as usize))
    }
}

/// The outcome once no further chunk header fits: the format, then the data,
/// each or its error.
pub open spec fn walk_finish(fmt: Option<WaveFormat>, data: Result<Seq<usize>, &'static str>) -> Result<(WaveFormat, Seq<usize>), &'static str> {
    match fmt {
        None => Err("no fmt chunk found"),
        Some(f) => match data {
            Ok(d) => Ok((f, d)),
            Err(e) => Err(e),
        },
    }
}

/// What reading the chunks from `pos` on gives, given the format and data read
/// so far: `None` where the walk would read past the end of the bytes (a
/// `fmt ` or `data` chunk that does not fit, a `fmt ` chunk of fewer than 16
/// bytes) or would not end (a `data` chunk for a format of no channels).
pub open spec fn spec_walk(
    b: Seq<u8>,
    pos: nat,
    fmt: Option<WaveFormat>,
    data: Result<Seq<usize>, &'static str>,
) -> Option<Result<(WaveFormat, Seq<usize>), &'static str>>
    decreases (if pos <= b.len() { b.len() - pos } else { 0 }),
{
    if pos + 8 > b.len() {
        Some(walk_finish(fmt, data))
    } else {
        match spec_chunk_id(b.subrange(pos as int, pos as int + 4)) {
            Err(e) => Some(Err(e)),
            Ok(id) => {
                let start = pos + 8;
                let end = (start + le32(b, pos as int + 4)) as nat;
                match id {
                    ChunkID::FMT => if end > b.len() || end < start + 16 {
                        None
                    } else {
                        spec_walk(b, end, Some(spec_fmt(b.subrange(start as int, end as int))), data)
                    },
                    ChunkID::DATA => match fmt {
                        None => Some(Err("no fmt chunk found")),
                        Some(f) => if end > b.len() || f.num_channels == 0 {
                            None
                        } else {
                            spec_walk(b, end, fmt, spec_data(f, b.subrange(start as int, end as int)))
                        },
                    },
                    _ => spec_walk(b, end, fmt, data),
                }
            },
        }
    }
}

/// Reading the chunks from `pos`, where a chunk header fits, goes on just
/// past that chunk's body: a `LIST` chunk or a nested `RIFF` chunk is
/// skipped with the format and data read so far unchanged; a `fmt ` chunk
/// that fits, of at least 16 bytes, replaces the format with the one it
/// holds; a `data` chunk that fits, after a format of channels, replaces the
/// data with its samples; an unknown chunk id is an error. Where no header
/// fits, the walk ends with the format and the data read.
pub proof fn law_walk_reads_chunk_by_chunk(
    b: Seq<u8>,
    pos: nat,
    fmt: Option<WaveFormat>,
    data: Result<Seq<usize>, &'static str>,
)
    ensures
        pos + 8 > b.len() ==> spec_walk(b, pos, fmt, data) == Some(walk_finish(fmt, data)),
        pos + 8 <= b.len() ==> {
            let id = spec_chunk_id(b.subrange(pos as int, pos as int + 4));
            let size = le32(b, pos as int + 4);
            let next = (pos + 8 + size) as nat;
            let body = b.subrange(pos as int + 8, pos as int + 8 + size);
            &&& id is Err ==> spec_walk(b, pos, fmt, data) == Some(Err::<(WaveFormat, Seq<usize>), &'static str>(id->Err_0))
            &&& (id == Ok::<ChunkID, &'static str>(ChunkID::LIST) || id == Ok::<ChunkID, &'static str>(
                ChunkID::RIFF,
            )) ==> spec_walk(b, pos, fmt, data) == spec_walk(b, next, fmt, data)
            &&& (id == Ok::<ChunkID, &'static str>(ChunkID::FMT) && next <= b.len() && size >= 16) ==> spec_walk(
                b,
                pos,
                fmt,
                data,
            ) == spec_walk(b, next, Some(spec_fmt(body)), data)
            &&& (id == Ok::<ChunkID, &'static str>(ChunkID::DATA) && fmt is None) ==> spec_walk(b, pos, fmt, data)
                == Some(Err::<(WaveFormat, Seq<usize>), &'static str>("no fmt chunk found"))
            &&& (id == Ok::<ChunkID, &'static str>(ChunkID::DATA) && next <= b.len() && fmt is Some
                && fmt->Some_0.num_channels != 0) ==> spec_walk(b, pos, fmt, data) == spec_walk(
                b,
                next,
                fmt,
                spec_data(fmt->Some_0, body),
            )
        },
{
}

/// What reading a whole wave file gives: `None` where the file is too short for
/// its header, or its size field points outside the bytes.
pub open spec fn spec_wave_file(b: Seq<u8>) -> Option<Result<(WaveFormat, Seq<usize>), &'static str>> {
    if b.len() < 4 {
        None
    } else {
        match spec_chunk_id(b.subrange(0, 4)) {
            Err(e) => Some(Err(e)),
            Ok(id) => if b.len() < 8 {
                None
            } else if id != ChunkID::RIFF {
                Some(Err("no RIFF chunk id found at the start of file"))
            } else if le32(b, 4) + 8 < 12 || le32(b, 4) + 8 > b.len() {
                None
            } else {
                spec_walk(b.subrange(12, le32(b, 4) + 8), 0, None, Err("no data chunk found"))
            },
        }
    }
}

pub open spec fn wave_result_view(r: Result<Wave, &'static str>) -> Result<(WaveFormat, Seq<usize>), &'static str> {
    match r {
        Ok(w) => Ok((w.format, w.data@)),
        Err(e) => Err(e),
    }
}

fn read_u16(b: &[u8], i: usize) -> (r: u16)
    requires
        i + 2 <= b@.len(),
    ensures
        r == le16(b@, i as int),
{
    b[i] as u16 + (b[i + 1] as u16) * 256
}

fn read_u32(b: &[u8], i: usize) -> (r: u32)
    requires
        i + 4 <= b@.len(),
    ensures
        r == le32(b@, i as int),
{
    b[i] as u32 + (b[i + 1] as u32) * 256 + (b[i + 2] as u32) * 65536 + (b[i + 3] as u32) * 16777216
}

/// Reads the body of a `fmt ` chunk.
pub fn parse_fmt_chunk(bytes: &[u8]) -> (r: Result<WaveFormat, &'static str>)
    requires
        bytes@.len() >= 16,
    ensures
        r == Ok::<WaveFormat, &'static str>(spec_fmt(bytes@)),
{
    let num_channels = read_u16(bytes, 2);
    let sample_rate = read_u32(bytes, 4);
    let bit_depth = read_u16(bytes, 14);
    Ok(WaveFormat { num_channels, sample_rate, bit_depth })
}

} // verus!

verus! {

/// A `data` chunk holds whole frames: as many samples of every channel.
pub proof fn law_data_whole_frames(f: WaveFormat, b: Seq<u8>)
    requires
        f.num_channels > 0,
    ensures
        spec_data(f, b) matches Ok(d) ==> (d.len() as int) % (f.num_channels as int) == 0,
{
    if bytes_per_frame(f) <= b.len() && readable_depth(f) {
        let fb = bytes_per_frame(f);
        assert(fb >= 1) by (nonlinear_arith)
            requires
                fb == bytes_per_sample(f) * f.num_channels,
                bytes_per_sample(f) >= 1,
                f.num_channels >= 1,
        ;
        let q = b.len() as int / fb;
        assert(q >= 0);
        assert(q * f.num_channels >= 0) by (nonlinear_arith)
            requires
                q >= 0,
                f.num_channels >= 1,
        ;
        vstd::arithmetic::div_mod::lemma_mod_multiples_basic(q, f.num_channels as int);
        let d = Seq::new((q * f.num_channels) as nat, |k: int| le_value(b, k * bytes_per_sample(f), bytes_per_sample(f)) as usize);
        assert(spec_data(f, b) == Ok::<Seq<usize>, &'static str>(d));
        assert(d.len() as int == q * f.num_channels);
    } else if bytes_per_frame(f) > b.len() {
        assert(spec_data(f, b) == Ok::<Seq<usize>, &'static str>(Seq::empty()));
        assert(0int % (f.num_channels as int) == 0);
    }
}

pub open spec fn data_result_view(r: Result<Vec<usize>, &'static str>) -> Result<Seq<usize>, &'static str> {
    match r {
        Ok(v) => Ok(v@),
        Err(e) => Err(e),
    }
}

/// Reads the samples of a `data` chunk body, frame by frame.
pub fn parse_data_chunk(format: &WaveFormat, bytes: &[u8]) -> (r: Result<Vec<usize>, &'static str>)
    requires
        format.num_channels > 0,
    ensures
        data_result_view(r) == spec_data(*format, bytes@),
{
    let sample_bytes = (format.bit_depth / 8) as usize;
    let nc = format.num_channels as usize;
    assert(sample_bytes * nc <= 8191 * 65535) by (nonlinear_arith)
        requires
            sample_bytes <= 8191,
            nc <= 65535,
    ;
    let slice_bytes = sample_bytes * nc;
    let ghost sb = sample_bytes as int;
    let ghost fb = slice_bytes as int;
    let ghost b = bytes@;
    assert(readable_depth(*format) ==> fb >= 1) by (nonlinear_arith)
        requires
            readable_depth(*format) ==> sb >= 1,
            nc >= 1,
            fb == sb * nc,
    ;

    let mut pos: usize = 0;
    let mut samples: Vec<usize> = Vec::new();
    let ghost mut f: int = 0;

    loop
        invariant
            nc == format.num_channels,
            nc >= 1,
            sb == sample_bytes,
            sb == bytes_per_sample(*format),
            fb == slice_bytes,
            fb == bytes_per_frame(*format),
            b == bytes@,
            readable_depth(*format) ==> fb >= 1,
            0 <= f,
            pos as int == f * fb,
            pos <= bytes@.len(),
            samples@.len() == f * nc,
            forall|k: int|
                0 <= k < samples@.len() ==> #[trigger] samples@[k] == le_value(b, k * sb, sb) as usize,
            readable_depth(*format) || f == 0,
        ensures
            slice_bytes > bytes@.len() - pos,
            pos as int == f * fb,
            samples@.len() == f * nc,
            forall|k: int|
                0 <= k < samples@.len() ==> #[trigger] samples@[k] == le_value(b, k * sb, sb) as usize,
            readable_depth(*format) || f == 0,
            0 <= f,
        decreases bytes@.len() - pos,
    {
        if slice_bytes > bytes.len() - pos {
            break;
        }
        let mut channel: usize = 0;
        let mut start: usize = pos;
        while channel < nc
            invariant
                nc == format.num_channels,
                nc >= 1,
                sb == sample_bytes,
                sb == bytes_per_sample(*format),
                fb == slice_bytes,
                b == bytes@,
                readable_depth(*format) ==> fb >= 1,
                0 <= f,
                pos as int == f * fb,
                pos + fb <= bytes@.len(),
                channel <= nc,
                start as int == pos + channel * sb,
                fb == sb * nc,
                samples@.len() == f * nc + channel,
                forall|k: int|
                    0 <= k < samples@.len() ==> #[trigger] samples@[k] == le_value(b, k * sb, sb) as usize,
                readable_depth(*format) || f == 0,
                channel > 0 ==> readable_depth(*format),
            decreases nc - channel,
        {
            assert(start + sb <= pos + fb) by (nonlinear_arith)
                requires
                    start == pos + channel * sb,
                    channel + 1 <= nc,
                    fb == sb * nc,
                    sb >= 0,
            ;
            assert((f * nc + channel) * sb == pos + channel * sb) by (nonlinear_arith)
                requires
                    pos == f * fb,
                    fb == sb * nc,
            ;
            let sample: usize = if format.bit_depth == 8 {
                bytes[start] as usize
            } else if format.bit_depth == 16 {
                read_u16(bytes, start) as usize
            } else if sample_bytes == 4 {
                read_u32(bytes, start) as usize
            } else {
                return Err("couldn't parse sample");
            };
            samples.push(sample);
            assert(start + sample_bytes <= bytes@.len());
            let blen = bytes.len();
            assert(pos + (channel + 1) * sb == start + sb) by (nonlinear_arith)
                requires
                    start == pos + channel * sb,
            ;
            start = start + sample_bytes;
            channel = channel + 1;
        }
        assert(pos + fb == (f + 1) * fb && samples@.len() == (f + 1) * nc) by (nonlinear_arith)
            requires
                pos == f * fb,
                samples@.len() == f * nc + nc,
        ;
        pos = pos + slice_bytes;
        proof {
            f = f + 1;
        }
    }
    proof {
        let n = bytes@.len() as int;
        if fb <= n {
            assert(f >= 1);
            assert(fb >= 1);
            assert(n / fb == f) by (nonlinear_arith)
                requires
                    fb >= 1,
                    f * fb <= n,
                    n < f * fb + fb,
            ;
            assert(samples@ =~= Seq::new(((n / fb) * nc) as nat, |k: int| le_value(b, k * sb, sb) as usize));
        } else {
            assert(f == 0) by (nonlinear_arith)
                requires
                    f * fb <= n,
                    n < fb,
                    f >= 0,
                    n >= 0,
            ;
            assert(samples@ =~= Seq::<usize>::empty());
        }
    }
    Ok(samples)
}

} // verus!

verus! {

/// Walks the chunks of a RIFF body, keeping the last `fmt ` chunk and the
/// samples of the last `data` chunk.
pub fn parse_chunks(bytes: &[u8]) -> (r: Result<Wave, &'static str>)
    requires
        spec_walk(bytes@, 0, None, Err("no data chunk found")) is Some,
    ensures
        spec_walk(bytes@, 0, None, Err("no data chunk found")) == Some(wave_result_view(r)),
{
    let ghost b = bytes@;
    let ghost goal = spec_walk(b, 0, None, Err("no data chunk found"));
    let mut pos: usize = 0;
    let mut format: Option<WaveFormat> = None;
    let mut data: Result<Vec<usize>, &'static str> = Err("no data chunk found");
    loop
        invariant
            b == bytes@,
            pos <= bytes@.len(),
            goal == spec_walk(b, 0, None, Err("no data chunk found")),
            goal == spec_walk(b, pos as nat, format, data_result_view(data)),
            goal is Some,
        ensures
            goal == Some(walk_finish(format, data_result_view(data))),
        decreases bytes@.len() - pos,
    {
        if bytes.len() < 8 || pos > bytes.len() - 8 {
            break;
        }
        let id = [bytes[pos], bytes[pos + 1], bytes[pos + 2], bytes[pos + 3]];
        assert(id@ =~= b.subrange(pos as int, pos as int + 4));
        let chunk_id = match parse_chunk_id(id) {
            Ok(c) => c,
            Err(e) => return Err(e),
        };
        let chunk_size = read_u32(bytes, pos + 4);
        let start = pos + 8;
        match chunk_id {
            ChunkID::FMT => {
                let end = start + chunk_size as usize;
                let f = match parse_fmt_chunk(&bytes[start..end]) {
                    Ok(f) => f,
                    Err(e) => return Err(e),
                };
                format = Some(f);
                pos = end;
            },
            ChunkID::DATA => {
                let f = match format {
                    Some(f) => f,
                    None => return Err("no fmt chunk found"),
                };
                let end = start + chunk_size as usize;
                data = parse_data_chunk(&f, &bytes[start..end]);
                pos = end;
            },
            _ => {
                if chunk_size as usize > bytes.len() - start {
                    let ghost end = (start + chunk_size) as nat;
                    assert(spec_walk(b, end, format, data_result_view(data)) == Some(
                        walk_finish(format, data_result_view(data)),
                    ));
                    break;
                }
                pos = start + chunk_size as usize;
            },
        }
    }
    match format {
        None => Err("no fmt chunk found"),
        Some(f) => match data {
            Ok(d) => Ok(Wave { format: f, data: d }),
            Err(e) => Err(e),
        },
    }
}

/// Reads a whole wave file: the `RIFF` header, then the chunks that its size
/// field covers.
pub fn parse_wave_file(bytes: &[u8]) -> (r: Result<Wave, &'static str>)
    requires
        spec_wave_file(bytes@) is Some,
    ensures
        spec_wave_file(bytes@) == Some(wave_result_view(r)),
{
    let id = [bytes[0], bytes[1], bytes[2], bytes[3]];
    assert(id@ =~= bytes@.subrange(0, 4));
    let riff = match parse_chunk_id(id) {
        Ok(c) => c,
        Err(e) => return Err(e),
    };
    let file_size = read_u32(bytes, 4);
    match riff {
        ChunkID::RIFF => {},
        _ => return Err("no RIFF chunk id found at the start of file"),
    }
    parse_chunks(&bytes[12..file_size as usize + 8])
}

/// Whether the walk can read to its end does not depend on the samples read
/// so far.
proof fn lemma_walk_defined_any_data(
    b: Seq<u8>,
    pos: nat,
    fmt: Option<WaveFormat>,
    d1: Result<Seq<usize>, &'static str>,
    d2: Result<Seq<usize>, &'static str>,
)
    ensures
        (spec_walk(b, pos, fmt, d1) is Some) == (spec_walk(b, pos, fmt, d2) is Some),
    decreases (if pos <= b.len() { b.len() - pos } else { 0 }),
{
    if pos + 8 <= b.len() {
        match spec_chunk_id(b.subrange(pos as int, pos as int + 4)) {
            Err(_) => {},
            Ok(id) => {
                let start = pos + 8;
                let end = (start + le32(b, pos as int + 4)) as nat;
                match id {
                    ChunkID::FMT => if !(end > b.len() || end < start + 16) {
                        lemma_walk_defined_any_data(b, end, Some(spec_fmt(b.subrange(start as int, end as int))), d1, d2);
                    },
                    ChunkID::DATA => {},
                    _ => lemma_walk_defined_any_data(b, end, fmt, d1, d2),
                }
            },
        }
    }
}

/// Whether the chunks of a RIFF body can be read without reading past its
/// end (the inputs `parse_chunks` accepts).
pub fn chunks_readable(bytes: &[u8]) -> (r: bool)
    ensures
        r == (spec_walk(bytes@, 0, None, Err("no data chunk found")) is Some),
{
    let ghost b = bytes@;
    let ghost d0: Result<Seq<usize>, &'static str> = Err("no data chunk found");
    let mut pos: usize = 0;
    let mut format: Option<WaveFormat> = None;
    loop
        invariant
            b == bytes@,
            d0 == Err::<Seq<usize>, &'static str>("no data chunk found"),
            pos <= bytes@.len(),
            (spec_walk(b, 0, None, d0) is Some) == (spec_walk(b, pos as nat, format, d0) is Some),
        decreases bytes@.len() - pos,
    {
        if bytes.len() < 8 || pos > bytes.len() - 8 {
            assert(spec_walk(b, pos as nat, format, d0) == Some(walk_finish(format, d0)));
            return true;
        }
        let id = [bytes[pos], bytes[pos + 1], bytes[pos + 2], bytes[pos + 3]];
        assert(id@ =~= b.subrange(pos as int, pos as int + 4));
        let chunk_id = match parse_chunk_id(id) {
            Ok(c) => c,
            Err(_) => return true,
        };
        let chunk_size = read_u32(bytes, pos + 4);
        let start = pos + 8;
        if chunk_size as usize > bytes.len() - start {
            match chunk_id {
                ChunkID::FMT => {
                    assert(spec_walk(b, pos as nat, format, d0) is None);
                    return false;
                },
                ChunkID::DATA => {
                    assert(format is None ==> spec_walk(b, pos as nat, format, d0) is Some);
                    assert(format is Some ==> spec_walk(b, pos as nat, format, d0) is None);
                    return format.is_none();
                },
                _ => {
                    let ghost end = (start + chunk_size) as nat;
                    assert(spec_walk(b, end, format, d0) is Some);
                    return true;
                },
            }
        }
        let end = start + chunk_size as usize;
        match chunk_id {
            ChunkID::FMT => {
                if (chunk_size as usize) < 16 {
                    return false;
                }
                let chunk = &bytes[start..end];
                assert(chunk@ =~= bytes@.subrange(start as int, end as int));
                let f = match parse_fmt_chunk(chunk) {
                    Ok(f) => f,
                    Err(_) => return false,
                };
                format = Some(f);
            },
            ChunkID::DATA => {
                match format {
                    None => return true,
                    Some(f) => {
                        if f.num_channels == 0 {
                            return false;
                        }
                        proof {
                            lemma_walk_defined_any_data(
                                b,
                                end as nat,
                                format,
                                spec_data(f, b.subrange(start as int, end as int)),
                                d0,
                            );
                        }
                    },
                }
            },
            _ => {},
        }
        pos = end;
    }
}

/// Whether a whole wave file can be read without reading past its end (the
/// inputs `parse_wave_file` accepts).
pub fn wave_file_readable(bytes: &[u8]) -> (r: bool)
    ensures
        r == (spec_wave_file(bytes@) is Some),
{
    if bytes.len() < 4 {
        return false;
    }
    let id = [bytes[0], bytes[1], bytes[2], bytes[3]];
    assert(id@ =~= bytes@.subrange(0, 4));
    let riff = match parse_chunk_id(id) {
        Ok(c) => c,
        Err(_) => return true,
    };
    if bytes.len() < 8 {
        return false;
    }
    match riff {
        ChunkID::RIFF => {},
        _ => return true,
    }
    let file_size = read_u32(bytes, 4);
    if (file_size as usize) < 4 || file_size as usize > bytes.len() - 8 {
        return false;
    }
    let body = &bytes[12..file_size as usize + 8];
    assert(body@ =~= bytes@.subrange(12, le32(bytes@, 4) + 8));
    chunks_readable(body)
}

} // verus!
