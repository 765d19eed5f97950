use pngchunk::{ChunkType, Error};
use std::convert::TryFrom;
use std::str::FromStr;

#[test]
pub fn test_chunk_type_from_bytes() {
    let expected = [82, 117, 83, 116];
    let actual = ChunkType::try_from([82, 117, 83, 116]).unwrap();

    assert_eq!(expected, actual.bytes());
}

#[test]
pub fn test_chunk_type_from_str() {
    let expected = ChunkType::try_from([82, 117, 83, 116]).unwrap();
    let actual = ChunkType::from_str("RuSt").unwrap();
    assert_eq!(expected, actual);
}

#[test]
pub fn test_chunk_type_is_critical() {
    let chunk = ChunkType::from_str("RuSt").unwrap();
    assert!(chunk.is_critical());
}

#[test]
pub fn test_chunk_type_is_not_critical() {
    let chunk = ChunkType::from_str("ruSt").unwrap();
    assert!(!chunk.is_critical());
}

#[test]
pub fn test_chunk_type_is_public() {
    let chunk = ChunkType::from_str("RUSt").unwrap();
    assert!(chunk.is_public());
}

#[test]
pub fn test_chunk_type_is_not_public() {
    let chunk = ChunkType::from_str("RuSt").unwrap();
    assert!(!chunk.is_public());
}

#[test]
pub fn test_chunk_type_is_reserved_bit_valid() {
    let chunk = ChunkType::from_str("RuSt").unwrap();
    assert!(chunk.is_reserved_bit_valid());
}

#[test]
pub fn test_chunk_type_is_reserved_bit_invalid() {
    let chunk = ChunkType::from_str("Rust").unwrap();
    assert!(!chunk.is_reserved_bit_valid());
}

#[test]
pub fn test_chunk_type_is_safe_to_copy() {
    let chunk = ChunkType::from_str("RuSt").unwrap();
    assert!(chunk.is_safe_to_copy());
}

#[test]
pub fn test_chunk_type_is_unsafe_to_copy() {
    let chunk = ChunkType::from_str("RuST").unwrap();
    assert!(!chunk.is_safe_to_copy());
}

#[test]
pub fn test_valid_chunk_is_valid() {
    let chunk = ChunkType::from_str("RuSt").unwrap();
    assert!(chunk.is_valid());
}

#[test]
pub fn test_invalid_chunk_is_valid() {
    let chunk = ChunkType::from_str("Rust").unwrap();
    assert!(!chunk.is_valid());

    let chunk = ChunkType::from_str("Ru1t");
    assert!(chunk.is_err());
}

#[test]
pub fn test_chunk_type_string() {
    let chunk = ChunkType::from_str("RuSt").unwrap();
    assert_eq!(&chunk.to_string(), "RuSt");
}

#[test]
pub fn test_chunk_type_trait_impls() {
    let chunk_type_1: ChunkType = TryFrom::try_from([82, 117, 83, 116]).unwrap();
    let chunk_type_2: ChunkType = FromStr::from_str("RuSt").unwrap();
    let _chunk_string = chunk_type_1.to_string();
    let _are_chunks_equal = chunk_type_1 == chunk_type_2;
}

#[test]
fn from_bytes_accepts_letters() {
    let t = ChunkType::from_bytes([82, 117, 83, 116]).unwrap();
    assert_eq!(t.bytes(), [82, 117, 83, 116]);
    assert_eq!(t.to_string(), "RuSt");
}

#[test]
fn from_byte_ref_and_try_from_ref() {
    let raw: [u8; 4] = [73, 72, 68, 82];
    let a = ChunkType::from_byte_ref(&raw).unwrap();
    let b = ChunkType::try_from(&raw).unwrap();
    assert_eq!(a, b);
    assert_eq!(a.to_string(), "IHDR");
}

#[test]
fn from_bytes_rejects_any_non_letter() {
    assert_eq!(ChunkType::from_bytes([82, 117, 49, 116]), Err(Error::ValueNotInRange));
    assert_eq!(ChunkType::from_bytes([0, 117, 83, 116]), Err(Error::ValueNotInRange));
    assert_eq!(ChunkType::from_bytes([82, 117, 83, 91]), Err(Error::ValueNotInRange));
    assert_eq!(ChunkType::from_bytes([64, 117, 83, 123]), Err(Error::ValueNotInRange));
    assert_eq!(ChunkType::from_bytes([255, 255, 255, 255]), Err(Error::ValueNotInRange));
}

#[test]
fn from_bytes_accepts_range_edges() {
    let t = ChunkType::from_bytes([65, 90, 97, 122]).unwrap();
    assert_eq!(t.to_string(), "AZaz");
}

#[test]
fn from_str_errors() {
    assert_eq!(ChunkType::from_str("Ru1t"), Err(Error::ValueNotInRange));
    assert_eq!(ChunkType::from_str("Rus"), Err(Error::WrongLength));
    assert_eq!(ChunkType::from_str(""), Err(Error::WrongLength));
    assert_eq!(ChunkType::from_str("RuStX"), Err(Error::WrongLength));
    assert_eq!(ChunkType::from_str("R1s"), Err(Error::WrongLength));
}

#[test]
fn from_str_counts_characters_not_bytes() {
    assert_eq!(ChunkType::from_str("Ru\u{df}t"), Err(Error::ValueNotInRange));
    assert_eq!(ChunkType::from_str("R\u{df}t"), Err(Error::WrongLength));
}

#[test]
fn bit_semantics_of_rust_tags() {
    let t = ChunkType::from_str("RuSt").unwrap();
    assert!(t.is_critical());
    assert!(!t.is_public());
    assert!(t.is_reserved_bit_valid());
    assert!(t.is_safe_to_copy());
    let u = ChunkType::from_str("RuST").unwrap();
    assert!(!u.is_safe_to_copy());
}

#[test]
fn equality_is_bytewise() {
    let a = ChunkType::from_str("RuSt").unwrap();
    let b = ChunkType::from_str("Rust").unwrap();
    assert!(a != b);
    assert!(a == ChunkType::from_bytes([82, 117, 83, 116]).unwrap());
}

#[test]
fn try_from_range_edges_and_forms_agree() {
    for bad in [[64, 117, 83, 116], [91, 117, 83, 116], [82, 96, 83, 116], [82, 117, 83, 123], [82, 117, 83, 0]] {
        assert_eq!(ChunkType::try_from(bad), Err(Error::ValueNotInRange));
        assert_eq!(ChunkType::try_from(&bad), Err(Error::ValueNotInRange));
    }
    let edges: [u8; 4] = [65, 90, 97, 122];
    let t = ChunkType::try_from(edges).unwrap();
    assert_eq!(t.bytes(), edges);
    assert_eq!(ChunkType::try_from(&edges), Ok(t));
    assert_eq!(ChunkType::from_str("RuSt"), ChunkType::try_from([82, 117, 83, 116]));
}
