use rsquery::packet::player_key_bytes;
use rsquery::utils::slice_index;

#[test]
fn slice_index_finds_player_key() {
    let mut source: Vec<u8> = vec![0x01, 0x02];
    source.extend_from_slice(&player_key_bytes());
    assert_eq!(
        slice_index(source.as_slice(), &player_key_bytes()),
        Some(2)
    );
}

#[test]
fn slice_index_absent_needle() {
    let source: Vec<u8> = vec![0x01, 0x02, 0x03];
    assert_eq!(slice_index(&source, &[0x04]), None);
}

#[test]
fn slice_index_finds_first_occurrence() {
    let source: Vec<u8> = vec![7, 1, 2, 5, 1, 2];
    assert_eq!(slice_index(&source, &[1, 2]), Some(1));
}

#[test]
fn slice_index_needle_longer_than_buffer() {
    let source: Vec<u8> = vec![1];
    assert_eq!(slice_index(&source, &[1, 2, 3]), None);
}
