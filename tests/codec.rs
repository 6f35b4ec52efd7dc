use pg_tokenizer::datatype::bm25vector::{count_ids, Bm25VectorBorrowed};
use pg_tokenizer::datatype::memory_bm25vector::{
    decode, encode, Bm25VectorHeader, Bm25VectorInput, Bm25VectorOutput,
};

#[test]
fn new_checked_accepts_valid_vector() {
    let indexes = [1u32, 5, 9];
    let values = [2u32, 1, 3];
    let v = Bm25VectorBorrowed::new_checked(6, &indexes, &values).unwrap();
    assert_eq!(v.len(), 3);
    assert_eq!(v.doc_len(), 6);
    assert_eq!(v.indexes(), &[1, 5, 9]);
    assert_eq!(v.values(), &[2, 1, 3]);
    assert!(!v.is_empty());
}

#[test]
fn new_checked_accepts_empty_vector() {
    let v = Bm25VectorBorrowed::new_checked(0, &[], &[]).unwrap();
    assert!(v.is_empty());
    assert_eq!(v.len(), 0);
}

#[test]
fn new_checked_rejects_length_mismatch() {
    assert!(Bm25VectorBorrowed::new_checked(3, &[1, 2], &[3]).is_none());
}

#[test]
fn new_checked_rejects_unsorted_indexes() {
    assert!(Bm25VectorBorrowed::new_checked(2, &[2, 1], &[1, 1]).is_none());
}

#[test]
fn new_checked_rejects_duplicate_indexes() {
    assert!(Bm25VectorBorrowed::new_checked(2, &[4, 4], &[1, 1]).is_none());
}

#[test]
fn new_checked_rejects_wrong_doc_len() {
    assert!(Bm25VectorBorrowed::new_checked(5, &[1, 2], &[1, 1]).is_none());
    assert!(Bm25VectorBorrowed::new_checked(1, &[1, 2], &[1, 1]).is_none());
}

#[test]
fn new_checked_rejects_sum_beyond_doc_len_without_overflow() {
    assert!(Bm25VectorBorrowed::new_checked(u32::MAX, &[1, 2], &[u32::MAX, u32::MAX]).is_none());
}

#[test]
fn count_ids_sorts_and_counts() {
    let (doc_len, indexes, values) = count_ids(&[7, 3, 7, 1, 7, 3]);
    assert_eq!(doc_len, 6);
    assert_eq!(indexes, vec![1, 3, 7]);
    assert_eq!(values, vec![1, 2, 3]);
}

#[test]
fn count_ids_of_nothing() {
    let (doc_len, indexes, values) = count_ids(&[]);
    assert_eq!(doc_len, 0);
    assert!(indexes.is_empty());
    assert!(values.is_empty());
}

#[test]
fn layout_sizes() {
    assert_eq!(Bm25VectorHeader::layout(0), 16);
    assert_eq!(Bm25VectorHeader::layout(1), 32);
    assert_eq!(Bm25VectorHeader::layout(2), 32);
    assert_eq!(Bm25VectorHeader::layout(3), 48);
    assert_eq!(Bm25VectorHeader::varlena(32), 128);
}

#[test]
fn encoding_has_exact_bytes() {
    let v = Bm25VectorOutput::from_ids(&[3, 1, 3]).unwrap();
    let bytes = v.into_raw();
    let expected: Vec<u8> = vec![
        128, 0, 0, 0, // size tag: 32 bytes, times four
        2, 0, 0, 0, // pairs
        3, 0, 0, 0, // doc_len
        0, 0, 0, 0, // reserved
        1, 0, 0, 0, 3, 0, 0, 0, // ids
        1, 0, 0, 0, 2, 0, 0, 0, // frequencies
    ];
    assert_eq!(bytes, expected);
}

#[test]
fn encoding_zeroes_padding() {
    let v = Bm25VectorOutput::from_ids(&[0x01020304]).unwrap();
    let bytes = v.to_bytes().to_vec();
    assert_eq!(bytes.len(), 32);
    assert_eq!(&bytes[16..20], &[4, 3, 2, 1]);
    assert_eq!(&bytes[20..24], &[0, 0, 0, 0]);
    assert_eq!(&bytes[24..28], &[1, 0, 0, 0]);
    assert_eq!(&bytes[28..32], &[0, 0, 0, 0]);
}

#[test]
fn round_trip_keeps_counts() {
    let ids = [10u32, 2, 10, 10, 99, 2, 0];
    let v = Bm25VectorOutput::from_ids(&ids).unwrap();
    let back = Bm25VectorOutput::from_bytes(v.into_raw()).unwrap();
    let b = back.borrow();
    assert_eq!(b.doc_len(), 7);
    assert_eq!(b.indexes(), &[0, 2, 10, 99]);
    assert_eq!(b.values(), &[1, 2, 3, 1]);
}

#[test]
fn new_copies_borrowed_vector() {
    let indexes = [4u32, 8];
    let values = [1u32, 5];
    let b = Bm25VectorBorrowed::new_checked(6, &indexes, &values).unwrap();
    let out = Bm25VectorOutput::new(b);
    assert_eq!(out.to_bytes(), encode(6, &indexes, &values).as_slice());
    assert_eq!(out.borrow().values(), &[1, 5]);
}

#[test]
fn decode_rejects_malformed_bytes() {
    let good = Bm25VectorOutput::from_ids(&[1, 2, 2]).unwrap().into_raw();
    assert!(decode(&good).is_some());
    assert!(decode(&good[..16]).is_none());
    assert!(decode(&[]).is_none());
    let single = Bm25VectorOutput::from_ids(&[7]).unwrap().into_raw();
    assert!(decode(&single).is_some());
    let mut bad_padding = single.clone();
    bad_padding[20] = 1;
    assert!(decode(&bad_padding).is_none());
    let mut bad_trailing = single.clone();
    bad_trailing[31] = 1;
    assert!(decode(&bad_trailing).is_none());
    let mut bad_reserved = good.clone();
    bad_reserved[12] = 1;
    assert!(decode(&bad_reserved).is_none());
    let mut bad_doc_len = good.clone();
    bad_doc_len[8] = 4;
    assert!(decode(&bad_doc_len).is_none());
    let mut unsorted = good.clone();
    unsorted[16] = 9;
    assert!(decode(&unsorted).is_none());
    let mut bad_tag = good.clone();
    bad_tag[0] = 0;
    assert!(decode(&bad_tag).is_none());
}

#[test]
fn input_borrows_or_owns() {
    let bytes = Bm25VectorOutput::from_ids(&[5, 6, 5]).unwrap().into_raw();
    let borrowed = Bm25VectorInput::new(&bytes, None).unwrap();
    assert_eq!(borrowed.len(), 2);
    assert_eq!(borrowed.doc_len(), 3);
    assert_eq!(borrowed.index(0), 5);
    assert_eq!(borrowed.value(0), 2);
    assert_eq!(borrowed.index(1), 6);
    assert_eq!(borrowed.value(1), 1);
    let owned = Bm25VectorInput::new(&bytes, Some(bytes.clone())).unwrap();
    assert_eq!(owned.to_bytes(), borrowed.to_bytes());
    assert!(Bm25VectorInput::new(&bytes[..8], None).is_none());
}
