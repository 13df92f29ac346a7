use png_chunk::chunk::Chunk;
use png_chunk::chunk::ChunkError;
use png_chunk::chunk_type::ChunkType;
use png_chunk::crc::crc32;

fn testing_chunk_bytes() -> Vec<u8> {
    let data_length: u32 = 42;
    let chunk_type = "RuSt".as_bytes();
    let message_bytes = "This is where your secret message will be!".as_bytes();
    let crc: u32 = 2882656334;

    data_length
        .to_be_bytes()
        .iter()
        .chain(chunk_type.iter())
        .chain(message_bytes.iter())
        .chain(crc.to_be_bytes().iter())
        .copied()
        .collect()
}

fn testing_chunk() -> Chunk {
    Chunk::try_from(testing_chunk_bytes().as_ref()).unwrap()
}

#[test]
fn test_chunk_length() {
    let chunk = testing_chunk();
    assert_eq!(chunk.length(), 42);
}

#[test]
fn test_chunk_type() {
    let chunk = testing_chunk();
    assert_eq!(chunk.chunk_type().to_text().unwrap(), String::from("RuSt"));
}

#[test]
fn test_chunk_string() {
    let chunk = testing_chunk();
    let chunk_string = chunk.data_as_string().unwrap();
    let expected_chunk_string = String::from("This is where your secret message will be!");
    assert_eq!(chunk_string, expected_chunk_string);
}

#[test]
fn test_chunk_crc() {
    let chunk = testing_chunk();
    assert_eq!(chunk.crc(), 2882656334);
}

#[test]
fn test_valid_chunk_from_bytes() {
    let chunk_data = testing_chunk_bytes();
    let chunk = Chunk::try_from(chunk_data.as_ref()).unwrap();

    let chunk_string = chunk.data_as_string().unwrap();
    let expected_chunk_string = String::from("This is where your secret message will be!");

    assert_eq!(chunk.length(), 42);
    assert_eq!(chunk.chunk_type().to_text().unwrap(), String::from("RuSt"));
    assert_eq!(chunk_string, expected_chunk_string);
    assert_eq!(chunk.crc(), 2882656334);
}

#[test]
fn test_invalid_chunk_from_bytes() {
    let data_length: u32 = 42;
    let chunk_type = "RuSt".as_bytes();
    let message_bytes = "This is where your secret message will be!".as_bytes();
    let crc: u32 = 2882656333;

    let chunk_data: Vec<u8> = data_length
        .to_be_bytes()
        .iter()
        .chain(chunk_type.iter())
        .chain(message_bytes.iter())
        .chain(crc.to_be_bytes().iter())
        .copied()
        .collect();

    let chunk = Chunk::try_from(chunk_data.as_ref());

    assert!(chunk.is_err());
    assert_eq!(chunk.unwrap_err(), ChunkError::ChecksumMismatch);
}

#[test]
fn test_crc32_reference_values() {
    assert_eq!(crc32("123456789".as_bytes()), 0xCBF4_3926);
    assert_eq!(crc32("IEND".as_bytes()), 0xAE42_6082);
    assert_eq!(crc32(&[]), 0);
}

#[test]
fn test_chunk_new_computes_crc() {
    let tag = ChunkType::from_str("RuSt").unwrap();
    let chunk = Chunk::new(tag, "Hi".as_bytes().to_vec());
    assert_eq!(chunk.length(), 2);
    assert_eq!(chunk.crc(), 0x4738_1BD1);
}

#[test]
fn test_as_bytes_exact_layout() {
    let tag = ChunkType::from_str("RuSt").unwrap();
    let chunk = Chunk::new(tag, "Hi".as_bytes().to_vec());
    let expected: Vec<u8> = vec![
        0, 0, 0, 2, // length 2, big-endian
        82, 117, 83, 116, // "RuSt"
        72, 105, // "Hi"
        71, 56, 27, 209, // CRC-32 of "RuStHi", big-endian
    ];
    assert_eq!(chunk.as_bytes(), expected);
}

#[test]
fn test_round_trip_new_encode_decode() {
    let tag = ChunkType::from_str("TeSt").unwrap();
    let data: Vec<u8> = vec![1, 2, 3, 4, 5];
    let chunk = Chunk::new(tag, data.clone());
    let encoded = chunk.as_bytes();
    let decoded = Chunk::try_from(encoded.as_slice()).unwrap();
    assert_eq!(decoded.length(), chunk.length());
    assert_eq!(decoded.chunk_type().bytes(), chunk.chunk_type().bytes());
    assert_eq!(decoded.data(), data.as_slice());
    assert_eq!(decoded.crc(), chunk.crc());
}

#[test]
fn test_decode_encode_decode_idempotent() {
    let original = testing_chunk_bytes();
    let first = Chunk::try_from(original.as_slice()).unwrap();
    let re_encoded = first.as_bytes();
    assert_eq!(re_encoded, original);
    let second = Chunk::try_from(re_encoded.as_slice()).unwrap();
    assert_eq!(second.length(), first.length());
    assert_eq!(second.chunk_type().bytes(), first.chunk_type().bytes());
    assert_eq!(second.data(), first.data());
    assert_eq!(second.crc(), first.crc());
}

#[test]
fn test_buffer_too_short() {
    let buf: Vec<u8> = vec![0, 0, 0, 0, 82, 117, 83];
    assert_eq!(
        Chunk::try_from(buf.as_slice()).unwrap_err(),
        ChunkError::BufferTooShort
    );
}

#[test]
fn test_truncated_data_is_length_mismatch() {
    let mut buf = testing_chunk_bytes();
    // remove one byte from the data region, keeping the trailing crc field
    buf.remove(10);
    assert_eq!(
        Chunk::try_from(buf.as_slice()).unwrap_err(),
        ChunkError::LengthMismatch
    );
}

#[test]
fn test_padded_data_is_length_mismatch() {
    let mut buf = testing_chunk_bytes();
    // slip one extra byte into the data region
    buf.insert(10, 0);
    assert_eq!(
        Chunk::try_from(buf.as_slice()).unwrap_err(),
        ChunkError::LengthMismatch
    );
}

#[test]
fn test_every_crc_bit_flip_is_checksum_mismatch() {
    let original = testing_chunk_bytes();
    let n = original.len();
    for byte_index in n - 4..n {
        for bit in 0..8 {
            let mut corrupted = original.clone();
            corrupted[byte_index] ^= 1 << bit;
            assert_eq!(
                Chunk::try_from(corrupted.as_slice()).unwrap_err(),
                ChunkError::ChecksumMismatch
            );
        }
    }
}

#[test]
fn test_data_as_string_rejects_invalid_utf8() {
    let tag = ChunkType::from_str("RuSt").unwrap();
    let chunk = Chunk::new(tag, vec![255, 254, 253]);
    assert_eq!(chunk.data_as_string().unwrap_err(), ChunkError::EncodingError);
}

#[test]
fn test_data_as_string_multibyte_utf8() {
    let tag = ChunkType::from_str("RuSt").unwrap();
    let chunk = Chunk::new(tag, "h\u{e9}llo".as_bytes().to_vec());
    assert_eq!(chunk.length(), 6);
    assert_eq!(chunk.data_as_string().unwrap(), "h\u{e9}llo");
}

#[test]
fn test_invalid_tag_still_round_trips() {
    // a structurally well-formed chunk whose tag fails the advisory validity
    // check must still decode and re-encode byte-for-byte
    let tag = ChunkType::from_bytes([0, 255, 32, 64]);
    let chunk = Chunk::new(tag, vec![9, 8, 7]);
    assert!(!chunk.chunk_type().is_valid());
    let encoded = chunk.as_bytes();
    let decoded = Chunk::try_from(encoded.as_slice()).unwrap();
    assert_eq!(decoded.chunk_type().bytes(), [0, 255, 32, 64]);
    assert_eq!(decoded.as_bytes(), encoded);
}

#[test]
fn test_chunk_summary() {
    let chunk = testing_chunk();
    assert_eq!(chunk.summary().unwrap(), "(RuSt, 42)");
}

#[test]
fn test_chunk_summary_zero_length() {
    let tag = ChunkType::from_str("RuSt").unwrap();
    let chunk = Chunk::new(tag, Vec::new());
    assert_eq!(chunk.summary().unwrap(), "(RuSt, 0)");
}

#[test]
fn test_chunk_summary_non_utf8_tag() {
    let tag = ChunkType::from_bytes([255, 254, 253, 252]);
    let chunk = Chunk::new(tag, vec![1]);
    assert!(chunk.summary().is_none());
}

#[test]
fn test_empty_data_chunk() {
    let tag = ChunkType::from_str("RuSt").unwrap();
    let chunk = Chunk::new(tag, Vec::new());
    assert_eq!(chunk.length(), 0);
    assert_eq!(chunk.as_bytes().len(), 12);
    let decoded = Chunk::try_from(chunk.as_bytes().as_slice()).unwrap();
    assert_eq!(decoded.length(), 0);
    assert_eq!(decoded.data(), &[] as &[u8]);
}
