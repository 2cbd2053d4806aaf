use frequalizer::audio_input::read_audio_buffer;
use frequalizer::audio_input::sample_from_le_bytes;
use frequalizer::audio_input::BYTES_PER_SAMPLE;

#[test]
fn samples_are_little_endian() {
    assert_eq!(sample_from_le_bytes(1, 0, 0, 0), 1);
    assert_eq!(sample_from_le_bytes(0, 1, 0, 0), 256);
    assert_eq!(sample_from_le_bytes(0x78, 0x56, 0x34, 0x12), 0x1234_5678);
    assert_eq!(sample_from_le_bytes(255, 255, 255, 255), -1);
    assert_eq!(sample_from_le_bytes(0, 0, 0, 128), i32::MIN);
    assert_eq!(sample_from_le_bytes(255, 255, 255, 127), i32::MAX);
    for value in [0i32, 1, -1, 123_456_789, -987_654_321, i32::MIN, i32::MAX] {
        let bytes = value.to_le_bytes();
        assert_eq!(sample_from_le_bytes(bytes[0], bytes[1], bytes[2], bytes[3]), value);
    }
}

#[test]
fn buffer_is_decoded_as_far_as_it_was_written() {
    let buffer = [1u8, 0, 0, 0, 255, 255, 255, 255, 0, 0, 0, 128, 255, 255, 255, 127, 9];
    assert_eq!(BYTES_PER_SAMPLE, 4);
    assert_eq!(read_audio_buffer(&buffer, 16), vec![1, -1, i32::MIN, i32::MAX]);
    assert_eq!(read_audio_buffer(&buffer, 17), vec![1, -1, i32::MIN, i32::MAX]);
    assert_eq!(read_audio_buffer(&buffer, 100), vec![1, -1, i32::MIN, i32::MAX]);
    assert_eq!(read_audio_buffer(&buffer, 7), vec![1]);
    assert_eq!(read_audio_buffer(&buffer, 8), vec![1, -1]);
    assert!(read_audio_buffer(&buffer, 3).is_empty());
    assert!(read_audio_buffer(&buffer, 0).is_empty());
    assert!(read_audio_buffer(&[], 12).is_empty());
}
