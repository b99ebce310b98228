use mongodb_gridfs::chunking::split_into_chunks;

#[test]
fn split_into_chunks_lengths_and_content() {
    let data: Vec<u8> = vec![0, 1, 2, 3, 4, 5, 6, 7, 8, 9];
    let pieces = split_into_chunks(&data, 4);
    assert_eq!(pieces.len(), 3);
    assert_eq!(pieces[0], vec![0, 1, 2, 3]);
    assert_eq!(pieces[1], vec![4, 5, 6, 7]);
    assert_eq!(pieces[2], vec![8, 9]);

    let rebuilt: Vec<u8> = pieces.concat();
    assert_eq!(rebuilt, data);
}

#[test]
fn split_into_chunks_exact_multiple() {
    let data: Vec<u8> = vec![1, 2, 3, 4, 5, 6];
    let pieces = split_into_chunks(&data, 3);
    assert_eq!(pieces.len(), 2);
    assert_eq!(pieces[1].len(), 3);
}

#[test]
fn split_into_chunks_edge_cases() {
    let none = split_into_chunks(&[], 4);
    assert!(none.is_empty());

    let zero = split_into_chunks(&[1u8, 2, 3], 0);
    assert!(zero.is_empty());

    let whole = split_into_chunks(&[1u8, 2, 3], 100);
    assert_eq!(whole.len(), 1);
    assert_eq!(whole[0], vec![1, 2, 3]);
}
