use png_chunk::chunk_type::ChunkType;
use png_chunk::chunk_type::ChunkTypeError;

#[test]
pub fn test_chunk_type_from_bytes() {
    let expected = [82, 117, 83, 116];
    let actual = ChunkType::try_from([82, 117, 83, 116]).unwrap();

    assert_eq!(expected, actual.bytes());
}

#[test]
pub fn test_chunk_type_from_str() {
    let expected = ChunkType::try_from([82, 117, 83, 116]).unwrap();
    let actual = ChunkType::from_str("RuSt").unwrap();
    assert_eq!(expected, actual);
}

#[test]
pub fn test_chunk_type_is_critical() {
    let chunk = ChunkType::from_str("RuSt").unwrap();
    assert!(chunk.is_critical());
}

#[test]
pub fn test_chunk_type_is_not_critical() {
    let chunk = ChunkType::from_str("ruSt").unwrap();
    assert!(!chunk.is_critical());
}

#[test]
pub fn test_chunk_type_is_public() {
    let chunk = ChunkType::from_str("RUSt").unwrap();
    assert!(chunk.is_public());
}

#[test]
pub fn test_chunk_type_is_not_public() {
    let chunk = ChunkType::from_str("RuSt").unwrap();
    assert!(!chunk.is_public());
}

#[test]
pub fn test_chunk_type_is_reserved_bit_valid() {
    let chunk = ChunkType::from_str("RuSt").unwrap();
    assert!(chunk.is_reserved_bit_valid());
}

#[test]
pub fn test_chunk_type_is_reserved_bit_invalid() {
    let chunk = ChunkType::from_str("Rust").unwrap();
    assert!(!chunk.is_reserved_bit_valid());
}

#[test]
pub fn test_chunk_type_is_safe_to_copy() {
    let chunk = ChunkType::from_str("RuSt").unwrap();
    assert!(chunk.is_safe_to_copy());
}

#[test]
pub fn test_chunk_type_is_unsafe_to_copy() {
    let chunk = ChunkType::from_str("RuST").unwrap();
    assert!(!chunk.is_safe_to_copy());
}

#[test]
pub fn test_valid_chunk_is_valid() {
    let chunk = ChunkType::from_str("RuSt").unwrap();
    assert!(chunk.is_valid());
}

#[test]
pub fn test_invalid_chunk_is_valid() {
    let chunk = ChunkType::from_str("Rust").unwrap();
    assert!(!chunk.is_valid());

    let chunk = ChunkType::from_str("Ru1t");
    assert!(chunk.is_err());
}

#[test]
pub fn test_chunk_type_string() {
    let chunk = ChunkType::from_str("RuSt").unwrap();
    assert_eq!(chunk.to_text().unwrap(), "RuSt");
}

#[test]
pub fn test_chunk_type_trait_impls() {
    let chunk_type_1: ChunkType = ChunkType::try_from([82, 117, 83, 116]).unwrap();
    let chunk_type_2: ChunkType = ChunkType::from_str("RuSt").unwrap();
    let _chunk_string = chunk_type_1.to_text().unwrap();
    let _are_chunks_equal = chunk_type_1 == chunk_type_2;
}

#[test]
pub fn test_chunk_type_byte_length_errors() {
    assert_eq!(
        ChunkType::from_str("RuS"),
        Err(ChunkTypeError::ByteLengthError(3))
    );
    assert_eq!(
        ChunkType::from_str("RuSty"),
        Err(ChunkTypeError::ByteLengthError(5))
    );
}

#[test]
pub fn test_chunk_type_invalid_character_error() {
    assert_eq!(
        ChunkType::from_str("Ru1t"),
        Err(ChunkTypeError::InvalidCharacter)
    );
}

#[test]
pub fn test_chunk_type_error_messages() {
    let err = ChunkType::from_str("RuS").unwrap_err();
    assert_eq!(err.message(), "Expected 4 bytes but received 3");
    let err = ChunkType::from_str("RuStyLongTag").unwrap_err();
    assert_eq!(err.message(), "Expected 4 bytes but received 12");
    let err = ChunkType::from_str("Ru1t").unwrap_err();
    assert_eq!(err.message(), "Input contains one or more invalid characters");
}

#[test]
pub fn test_chunk_type_permissive_bytes_need_no_letters() {
    let tag = ChunkType::from_bytes([0, 255, 32, 64]);
    assert_eq!(tag.bytes(), [0, 255, 32, 64]);
    assert!(!tag.is_valid());
}

#[test]
pub fn test_chunk_type_non_utf8_tag_has_no_text() {
    let tag = ChunkType::from_bytes([255, 254, 253, 252]);
    assert!(tag.to_text().is_none());
}
