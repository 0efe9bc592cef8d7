use grabduel::codec::{decode_words_vec, encode_words_vec};

#[test]
fn words_encode_little_endian() {
    let ws: Vec<i32> = vec![1];
    assert_eq!(encode_words_vec(&ws), vec![1, 0, 0, 0]);
    let ws: Vec<i32> = vec![-2];
    assert_eq!(encode_words_vec(&ws), vec![0xfe, 0xff, 0xff, 0xff]);
    let ws: Vec<i32> = vec![0x0403_0201];
    assert_eq!(encode_words_vec(&ws), vec![1, 2, 3, 4]);
}

#[test]
fn words_round_trip_through_bytes() {
    let ws: Vec<i32> = vec![0, 1, -1, i32::MAX, i32::MIN, 360_000, -340_000, 1_000];
    let bytes = encode_words_vec(&ws);
    assert_eq!(bytes.len(), 4 * ws.len());
    let back = decode_words_vec(&bytes);
    assert_eq!(back, ws);
}

#[test]
fn empty_stream_decodes_to_nothing() {
    let ws: Vec<i32> = vec![];
    let bytes = encode_words_vec(&ws);
    assert_eq!(bytes.len(), 0);
    assert_eq!(decode_words_vec(&bytes), ws);
}
