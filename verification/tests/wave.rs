use grid_sequencer::wave::{parse_chunk_id, parse_data_chunk, parse_fmt_chunk, parse_wave_file, ChunkID, WaveFormat};

#[test]
fn test_parse_wave_file_16_bit_stereo() {
    let bytes: [u8; 60] = [
        0x52, 0x49, 0x46, 0x46, // RIFF
        0x34, 0x00, 0x00, 0x00, // chunk size
        0x57, 0x41, 0x56, 0x45, // WAVE
        0x66, 0x6d, 0x74, 0x20, // fmt_
        0x10, 0x00, 0x00, 0x00, // chunk size
        0x01, 0x00, // audio format
        0x02, 0x00, // num channels
        0x22, 0x56, 0x00, 0x00, // sample rate
        0x88, 0x58, 0x01, 0x00, // byte rate
        0x04, 0x00, // block align
        0x10, 0x00, // bits per sample
        0x64, 0x61, 0x74, 0x61, // data
        0x10, 0x00, 0x00, 0x00, // chunk size
        0x00, 0x00, 0x00, 0x00, // sample 1 L+R
        0x24, 0x17, 0x1e, 0xf3, // sample 2 L+R
        0x3c, 0x13, 0x3c, 0x14, // sample 3 L+R
        0x16, 0xf9, 0x18, 0xf9, // sample 4 L+R
    ];

    let wave = parse_wave_file(&bytes).unwrap();

    assert_eq!(wave.format.sample_rate, 22050);
    assert_eq!(wave.format.bit_depth, 16);
    assert_eq!(wave.format.num_channels, 2);

    assert_eq!(
        wave.data,
        [
            0x0000, 0x0000, // sample 1 L+R
            0x1724, 0xf31e, // sample 2 L+R
            0x133c, 0x143c, // sample 3 L+R
            0xf916, 0xf918, // sample 4 L+R
        ]
    );
}

#[test]
fn test_parse_wave_file_24_bit_mono() {
    let bytes: [u8; 60] = [
        0x52, 0x49, 0x46, 0x46, // RIFF
        0x34, 0x00, 0x00, 0x00, // chunk size
        0x57, 0x41, 0x56, 0x45, // WAVE
        0x66, 0x6d, 0x74, 0x20, // fmt_
        0x10, 0x00, 0x00, 0x00, // chunk size
        0x01, 0x00, // audio format
        0x01, 0x00, // num channels
        0x44, 0xac, 0x00, 0x00, // sample rate
        0x88, 0x58, 0x01, 0x00, // byte rate
        0x04, 0x00, // block align
        0x20, 0x00, // bits per sample
        0x64, 0x61, 0x74, 0x61, // data
        0x10, 0x00, 0x00, 0x00, // chunk size
        0x00, 0x00, 0x00, 0x00, // sample 1
        0x24, 0x17, 0x1e, 0xf3, // sample 2
        0x3c, 0x13, 0x3c, 0x14, // sample 3
        0x16, 0xf9, 0x18, 0xf9, // sample 4
    ];

    let wave = parse_wave_file(&bytes).unwrap();

    assert_eq!(wave.format.sample_rate, 44100);
    assert_eq!(wave.format.bit_depth, 32);
    assert_eq!(wave.format.num_channels, 1);

    assert_eq!(
        wave.data,
        [
            0x00000000, // sample 1
            0xf31e1724, // sample 2
            0x143c133c, // sample 3
            0xf918f916, // sample 4
        ]
    );
}

#[test]
fn chunk_ids_are_read() {
    assert_eq!(parse_chunk_id(*b"RIFF"), Ok(ChunkID::RIFF));
    assert_eq!(parse_chunk_id(*b"fmt "), Ok(ChunkID::FMT));
    assert_eq!(parse_chunk_id(*b"LIST"), Ok(ChunkID::LIST));
    assert_eq!(parse_chunk_id(*b"data"), Ok(ChunkID::DATA));
    assert_eq!(parse_chunk_id(*b"WAVE"), Err("unknown chunk id"));
}

#[test]
fn fmt_chunk_fields() {
    let body = [1u8, 0, 2, 0, 0x44, 0xac, 0, 0, 0x10, 0xb1, 2, 0, 4, 0, 16, 0];
    let f = parse_fmt_chunk(&body).unwrap();
    assert_eq!(f, WaveFormat { sample_rate: 44100, bit_depth: 16, num_channels: 2 });
}

#[test]
fn data_chunk_8_bit_drops_partial_frame() {
    let f = WaveFormat { sample_rate: 8000, bit_depth: 8, num_channels: 2 };
    assert_eq!(parse_data_chunk(&f, &[1, 2, 3, 4, 5]), Ok(vec![1, 2, 3, 4]));
}

#[test]
fn data_chunk_24_bit_cannot_be_read() {
    let f = WaveFormat { sample_rate: 8000, bit_depth: 24, num_channels: 1 };
    assert_eq!(parse_data_chunk(&f, &[1, 2, 3]), Err("couldn't parse sample"));
    assert_eq!(parse_data_chunk(&f, &[1, 2]), Ok(vec![]));
}

#[test]
fn wave_file_errors() {
    let mut bytes = [0u8; 12];
    bytes[0..4].copy_from_slice(b"LIST");
    bytes[4] = 4;
    assert_eq!(parse_wave_file(&bytes).unwrap_err(), "no RIFF chunk id found at the start of file");
    bytes[0..4].copy_from_slice(b"XXXX");
    assert_eq!(parse_wave_file(&bytes).unwrap_err(), "unknown chunk id");
    bytes[0..4].copy_from_slice(b"RIFF");
    assert_eq!(parse_wave_file(&bytes).unwrap_err(), "no fmt chunk found");
}

#[test]
fn data_before_fmt_is_an_error() {
    let mut bytes = vec![];
    bytes.extend_from_slice(b"RIFF");
    bytes.extend_from_slice(&[12, 0, 0, 0]);
    bytes.extend_from_slice(b"WAVE");
    bytes.extend_from_slice(b"data");
    bytes.extend_from_slice(&[0, 0, 0, 0]);
    assert_eq!(parse_wave_file(&bytes).unwrap_err(), "no fmt chunk found");
}

#[test]
fn missing_data_chunk_is_an_error() {
    let mut bytes = vec![];
    bytes.extend_from_slice(b"RIFF");
    bytes.extend_from_slice(&[28, 0, 0, 0]);
    bytes.extend_from_slice(b"WAVE");
    bytes.extend_from_slice(b"fmt ");
    bytes.extend_from_slice(&[16, 0, 0, 0]);
    bytes.extend_from_slice(&[1, 0, 1, 0, 0x40, 0x1f, 0, 0, 0x40, 0x1f, 0, 0, 1, 0, 8, 0]);
    assert_eq!(parse_wave_file(&bytes).unwrap_err(), "no data chunk found");
}

#[test]
fn readable_files_are_told_apart() {
    assert!(!grid_sequencer::wave::wave_file_readable(&[0x52, 0x49]));
    assert!(grid_sequencer::wave::wave_file_readable(b"JUNKJUNK"));
    let mut bytes = b"RIFF".to_vec();
    bytes.extend_from_slice(&[100, 0, 0, 0]);
    bytes.extend_from_slice(b"WAVE");
    assert!(!grid_sequencer::wave::wave_file_readable(&bytes));
    let mut short_fmt = b"RIFF".to_vec();
    short_fmt.extend_from_slice(&[12, 0, 0, 0]);
    short_fmt.extend_from_slice(b"WAVEfmt ");
    short_fmt.extend_from_slice(&[8, 0, 0, 0]);
    assert!(!grid_sequencer::wave::wave_file_readable(&short_fmt));
    let mut no_chunks = b"RIFF".to_vec();
    no_chunks.extend_from_slice(&[4, 0, 0, 0]);
    no_chunks.extend_from_slice(b"WAVE");
    assert!(grid_sequencer::wave::wave_file_readable(&no_chunks));
    assert_eq!(grid_sequencer::wave::parse_wave_file(&no_chunks).err(), Some("no fmt chunk found"));
}
