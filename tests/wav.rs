use wav_codec::samples::SampleBits;
use wav_codec::wav::{FileHeader, Metadata, Payload, Wav, WavError};

fn le16(v: u16) -> [u8; 2] {
    v.to_le_bytes()
}

fn le32(v: u32) -> [u8; 4] {
    v.to_le_bytes()
}

/// A complete file: fixed region, the given metadata, a data chunk of `data`.
fn file_bytes(channels: u16, rate: u32, bits: u16, metadata: &[u8], data: &[u8]) -> Vec<u8> {
    let align = channels * bits / 8;
    let mut b = Vec::new();
    b.extend_from_slice(b"RIFF");
    b.extend_from_slice(&le32((36 + metadata.len() + data.len()) as u32));
    b.extend_from_slice(b"WAVE");
    b.extend_from_slice(b"fmt ");
    b.extend_from_slice(&le32(16));
    b.extend_from_slice(&le16(1));
    b.extend_from_slice(&le16(channels));
    b.extend_from_slice(&le32(rate));
    b.extend_from_slice(&le32(rate * align as u32));
    b.extend_from_slice(&le16(align));
    b.extend_from_slice(&le16(bits));
    b.extend_from_slice(metadata);
    b.extend_from_slice(b"data");
    b.extend_from_slice(&le32(data.len() as u32));
    b.extend_from_slice(data);
    b
}

fn i16_bytes(v: &[i16]) -> Vec<u8> {
    v.iter().flat_map(|x| x.to_le_bytes()).collect()
}

fn i32_bytes(v: &[i32]) -> Vec<u8> {
    v.iter().flat_map(|x| x.to_le_bytes()).collect()
}

fn values16(w: &Wav) -> Vec<i16> {
    match w.samples() {
        SampleBits::I16bits(v) => v.clone(),
        SampleBits::I32bits(_) => panic!("expected 16-bit samples"),
    }
}

fn values32(w: &Wav) -> Vec<i32> {
    match w.samples() {
        SampleBits::I32bits(v) => v.clone(),
        SampleBits::I16bits(_) => panic!("expected 32-bit samples"),
    }
}

fn synthesized(samples: Vec<i16>) -> Wav {
    Wav::new(
        FileHeader::new(1, 1, 8000, 16),
        Metadata::default(),
        Payload::new(SampleBits::I16bits(samples)),
    )
}

#[test]
fn test_duplicate_file() {
    let data = i16_bytes(&[0, 1, -1, 300, -300, 32767, -32768, 12]);
    let bytes = file_bytes(2, 44100, 16, b"LIST\x04\x00\x00\x00abcd", &data);
    let mut audio = Wav::from_bytes(&bytes).unwrap();
    let copy = audio.to_bytes();

    assert_eq!(audio.bit_depth(), 16);
    assert_eq!(audio.channels(), 2);
    assert_eq!(audio.sample_rate(), 44100);

    let audio2 = Wav::from_bytes(&copy).unwrap();
    assert_eq!(audio2.bit_depth(), 16);
    assert_eq!(audio2.channels(), 2);
    assert_eq!(audio2.sample_rate(), 44100);
}

#[test]
fn test_up_volume() {
    let data = i16_bytes(&[1000, -1000, 20, 32767]);
    let bytes = file_bytes(2, 44100, 16, b"", &data);
    let mut audio = Wav::from_bytes(&bytes).unwrap();

    audio.set_volume(5, 100).unwrap();
    assert_eq!(values16(&audio), vec![50, -50, 1, 1638]);

    let out = audio.to_bytes();
    assert_eq!(out.len(), bytes.len());
}

#[test]
fn round_trip_keeps_format_metadata_and_samples() {
    let meta = b"LIST\x06\x00\x00\x00dadatx".to_vec();
    let data = i32_bytes(&[i32::MIN, -1, 0, 1, i32::MAX, 123456789]);
    let mut bytes = file_bytes(3, 22050, 32, &meta, &data);
    // a stale size field: it is recomputed on output
    bytes[4] = 0;
    let mut first = Wav::from_bytes(&bytes).unwrap();
    let out = first.to_bytes();
    let second = Wav::from_bytes(&out).unwrap();
    assert_eq!(second.header(), first.header());
    assert_eq!(second.metadata().data, meta);
    assert_eq!(values32(&second), vec![i32::MIN, -1, 0, 1, i32::MAX, 123456789]);
    assert_eq!(second.file_size() as usize, out.len() - 8);
    assert_eq!(first.file_size() as usize, out.len() - 8);
}

#[test]
fn round_trip_restores_the_fmt_tag() {
    let bytes = file_bytes(1, 8000, 16, b"", &i16_bytes(&[7, -7]));
    let mut w = Wav::from_bytes(&bytes).unwrap();
    assert_eq!(w.to_bytes(), bytes);
}

#[test]
fn unit_gain_changes_nothing() {
    let samples = vec![0, 1, -1, 32767, -32768, 1234];
    let mut w = synthesized(samples.clone());
    w.set_volume(1, 1).unwrap();
    assert_eq!(values16(&w), samples);
    w.set_volume(7, 7).unwrap();
    assert_eq!(values16(&w), samples);
}

#[test]
fn gain_saturates_sixteen_bits() {
    let mut w = synthesized(vec![32767, -32768, 20000, -20000, 3]);
    w.set_volume(3, 1).unwrap();
    assert_eq!(values16(&w), vec![32767, -32768, 32767, -32768, 9]);
}

#[test]
fn gain_saturates_thirty_two_bits() {
    let bytes = file_bytes(1, 8000, 32, b"", &i32_bytes(&[i32::MAX, i32::MIN, 1 << 30, -3]));
    let mut w = Wav::from_bytes(&bytes).unwrap();
    w.set_volume(5, 2).unwrap();
    assert_eq!(values32(&w), vec![i32::MAX, i32::MIN, i32::MAX, -7]);
}

#[test]
fn gain_truncates_toward_zero() {
    let mut w = synthesized(vec![7, -7, 1, -1]);
    w.set_volume(1, 2).unwrap();
    assert_eq!(values16(&w), vec![3, -3, 0, 0]);
}

#[test]
fn gain_is_monotonic() {
    let original = vec![0, 5, 100, 999];
    let mut low = synthesized(original.clone());
    let mut high = synthesized(original.clone());
    low.set_volume(3, 2).unwrap();
    high.set_volume(8, 5).unwrap();
    let (a, b) = (values16(&low), values16(&high));
    for i in 0..original.len() {
        assert!(a[i] <= b[i]);
    }
    assert_eq!(a, vec![0, 7, 150, 1498]);
    assert_eq!(b, vec![0, 8, 160, 1598]);
}

#[test]
fn negative_gain_is_rejected() {
    let mut w = synthesized(vec![100, -100]);
    assert_eq!(w.set_volume(-1, 10), Err(WavError::InvalidGain));
    assert_eq!(values16(&w), vec![100, -100]);
    assert_eq!(w.set_volume(1, 0), Err(WavError::InvalidGain));
    assert_eq!(values16(&w), vec![100, -100]);
}

#[test]
fn short_buffer_is_a_malformed_header() {
    let bytes = file_bytes(1, 8000, 16, b"", &[]);
    for n in [0, 4, 12, 35] {
        assert_eq!(Wav::from_bytes(&bytes[..n]).unwrap_err(), WavError::MalformedHeader);
    }
}

#[test]
fn wrong_tags_are_a_malformed_header() {
    let good = file_bytes(1, 8000, 16, b"", &i16_bytes(&[1]));
    for at in [0, 9, 15] {
        let mut bad = good.clone();
        bad[at] = b'x';
        assert_eq!(Wav::from_bytes(&bad).unwrap_err(), WavError::MalformedHeader);
    }
}

#[test]
fn missing_data_tag_is_a_malformed_payload() {
    let mut bytes = file_bytes(1, 8000, 16, b"", &i16_bytes(&[1, 2]));
    bytes.truncate(36);
    bytes.extend_from_slice(b"LIST\x02\x00\x00\x00dat");
    assert_eq!(Wav::from_bytes(&bytes).unwrap_err(), WavError::MalformedPayload);
}

#[test]
fn partial_sample_is_a_malformed_payload() {
    let bytes = file_bytes(1, 8000, 16, b"", &[1, 2, 3]);
    assert_eq!(Wav::from_bytes(&bytes).unwrap_err(), WavError::MalformedPayload);
    let bytes = file_bytes(1, 8000, 32, b"", &[1, 2, 3, 4, 5, 6]);
    assert_eq!(Wav::from_bytes(&bytes).unwrap_err(), WavError::MalformedPayload);
}

#[test]
fn missing_length_field_is_a_malformed_payload() {
    let mut bytes = file_bytes(1, 8000, 16, b"", &[]);
    bytes.truncate(bytes.len() - 2);
    assert_eq!(Wav::from_bytes(&bytes).unwrap_err(), WavError::MalformedPayload);
}

#[test]
fn synthesized_file_scenario() {
    let mut w = synthesized(vec![100, -100, 32767, -32768]);
    assert_eq!(w.file_size(), 36 + 8);
    w.set_volume(2, 1).unwrap();
    assert_eq!(values16(&w), vec![200, -200, 32767, -32768]);
    let out = w.to_bytes();
    assert_eq!(out.len(), 44 + 8);
    assert_eq!(w.file_size(), 44);
}

#[test]
fn eight_bit_depth_is_unsupported() {
    let bytes = file_bytes(1, 8000, 8, b"", &[1, 2, 3, 4]);
    assert_eq!(Wav::from_bytes(&bytes).unwrap_err(), WavError::UnsupportedBitDepth);
    // refused before the payload is looked at, even where it is missing
    assert_eq!(Wav::from_bytes(&bytes[..36]).unwrap_err(), WavError::UnsupportedBitDepth);
    assert_eq!(Payload::from_bytes(8, &[0, 0, 0, 0]).unwrap_err(), WavError::UnsupportedBitDepth);
}

#[test]
fn header_reads_fields_after_the_tag() {
    let bytes = file_bytes(2, 48000, 32, b"", &[]);
    let h = FileHeader::from_bytes(&bytes[16..36]).unwrap();
    assert_eq!(h.bloc_size, 16);
    assert_eq!(h.audio_format, 1);
    assert_eq!(h.nbr_channels, 2);
    assert_eq!(h.frequency, 48000);
    assert_eq!(h.byte_per_sec, 384000);
    assert_eq!(h.byte_per_bloc, 8);
    assert_eq!(h.bits_per_sample, 32);
    assert_eq!(h.to_bytes(), bytes[12..36].to_vec());
    assert_eq!(FileHeader::from_bytes(&bytes[16..35]).unwrap_err(), WavError::MalformedHeader);
}

#[test]
fn header_new_derives_alignment_and_rate() {
    let h = FileHeader::new(1, 6, 96000, 32);
    assert_eq!(h.byte_per_bloc, 24);
    assert_eq!(h.byte_per_sec, 2304000);
    assert_eq!(h.bloc_size, 16);
    let d = FileHeader::default();
    assert_eq!((d.nbr_channels, d.frequency, d.bits_per_sample), (2, 44100, 16));
    assert_eq!((d.byte_per_bloc, d.byte_per_sec), (4, 176400));
}

#[test]
fn metadata_splits_at_first_data_tag() {
    let (m, end) = Metadata::from_bytes(b"abdatdatadata\x01");
    assert_eq!(m.data, b"abdat".to_vec());
    assert_eq!(end, 9);
    assert_eq!(m.to_bytes(), b"abdat".to_vec());
    let (m, end) = Metadata::from_bytes(b"no tag here");
    assert_eq!(m.data, b"no tag here".to_vec());
    assert_eq!(end, 0);
    let (m, end) = Metadata::from_bytes(b"data");
    assert!(m.data.is_empty());
    assert_eq!(end, 4);
}

#[test]
fn payload_encodes_length_from_samples() {
    let p = Payload::new(SampleBits::I16bits(vec![1, -2, 256]));
    assert_eq!(p.total_bytes, 6);
    assert_eq!(
        p.to_bytes(),
        vec![b'd', b'a', b't', b'a', 6, 0, 0, 0, 1, 0, 0xfe, 0xff, 0, 1]
    );
    let p = Payload::new(SampleBits::I32bits(vec![-2, 0x01020304]));
    assert_eq!(
        p.to_bytes(),
        vec![b'd', b'a', b't', b'a', 8, 0, 0, 0, 0xfe, 0xff, 0xff, 0xff, 4, 3, 2, 1]
    );
}

#[test]
fn payload_reads_declared_length_and_samples() {
    let p = Payload::from_bytes(16, &[9, 0, 0, 0, 0x34, 0x12, 0xff, 0xff]).unwrap();
    assert_eq!(p.total_bytes, 9);
    match p.samples {
        SampleBits::I16bits(v) => assert_eq!(v, vec![0x1234, -1]),
        SampleBits::I32bits(_) => panic!("expected 16-bit samples"),
    }
    let p = Payload::from_bytes(32, &[4, 0, 0, 0, 0x78, 0x56, 0x34, 0x92]).unwrap();
    match p.samples {
        SampleBits::I32bits(v) => assert_eq!(v, vec![0x92345678u32 as i32]),
        SampleBits::I16bits(_) => panic!("expected 32-bit samples"),
    }
}

#[test]
fn write_raw_appends_samples() {
    let mut s = SampleBits::I16bits(vec![5]);
    s.write_raw(&[1, 0, 0, 0x80]);
    assert_eq!(s.len(), 3);
    match &s {
        SampleBits::I16bits(v) => assert_eq!(v, &vec![5, 1, -32768]),
        SampleBits::I32bits(_) => panic!("expected 16-bit samples"),
    }
    let mut s = SampleBits::I32bits(vec![]);
    s.write_raw(&[0xff, 0xff, 0xff, 0x7f]);
    assert_eq!(s.len(), 1);
    assert_eq!(s.bit_depth(), 32);
}

#[test]
fn default_file_is_empty_stereo() {
    let mut w = Wav::default();
    assert_eq!(w.file_size(), 36);
    assert_eq!(w.channels(), 2);
    assert_eq!(w.sample_rate(), 44100);
    assert_eq!(w.bit_depth(), 16);
    assert_eq!(w.encoded_riff_size(), Some(36));
    assert_eq!(w.to_bytes().len(), 44);
}

#[test]
fn write_raw_samples_extends_the_file() {
    let mut w = synthesized(vec![1]);
    w.write_raw_samples(&[2, 0, 3, 0]).unwrap();
    assert_eq!(values16(&w), vec![1, 2, 3]);
    assert_eq!(w.write_raw_samples(&[1]), Err(WavError::MalformedPayload));
    assert_eq!(values16(&w), vec![1, 2, 3]);
}
