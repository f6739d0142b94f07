use audionoise::raw::{sample_count_for, OpenError, RawAudioFile};

fn anon_mmap(bytes: &[u8]) -> memmap2::Mmap {
    let mut m = memmap2::MmapMut::map_anon(bytes.len()).unwrap();
    m.copy_from_slice(bytes);
    m.make_read_only().unwrap()
}

#[test]
fn sample_count_round_trip() {
    // A file of exactly 4 * k bytes holds k samples.
    assert_eq!(sample_count_for(4), Ok(1));
    assert_eq!(sample_count_for(4 * 123), Ok(123));
    assert_eq!(sample_count_for(4 * 1_000_000), Ok(1_000_000));
}

#[test]
fn sample_count_rejects_misaligned_length() {
    assert_eq!(sample_count_for(4 * 10 + 1), Err(OpenError::Misaligned));
    assert_eq!(sample_count_for(2), Err(OpenError::Misaligned));
    assert_eq!(sample_count_for(7), Err(OpenError::Misaligned));
}

#[test]
fn sample_count_rejects_empty_file() {
    assert_eq!(sample_count_for(0), Err(OpenError::Empty));
}

#[test]
fn open_decodes_little_endian_samples() {
    // 1, -1, and -2^31 stored little-endian.
    let bytes = [
        0x01, 0x00, 0x00, 0x00, //
        0xff, 0xff, 0xff, 0xff, //
        0x00, 0x00, 0x00, 0x80,
    ];
    let track =
        RawAudioFile::new("a.raw".to_string(), "/tmp/a.raw".to_string(), anon_mmap(&bytes))
            .unwrap();
    assert_eq!(track.len_samples(), 3);
    assert_eq!(track.samples(), &[1, -1, i32::MIN]);
    assert_eq!(track.name(), "a.raw");
    assert_eq!(track.path(), "/tmp/a.raw");
}

#[test]
fn open_rejects_misaligned_mapping() {
    let r = RawAudioFile::new("b".to_string(), "b".to_string(), anon_mmap(&[0u8; 5]));
    assert!(matches!(r, Err(OpenError::Misaligned)));
}

#[test]
fn open_rejects_empty_mapping() {
    let r = RawAudioFile::new("c".to_string(), "c".to_string(), anon_mmap(&[]));
    assert!(matches!(r, Err(OpenError::Empty)));
}
