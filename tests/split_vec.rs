use rex::segment::Segment;
use rex::split_vec::{SplitVec, StoreError, MAX_BLOCK_SIZE, MIN_BLOCK_SIZE};

const SIZE: usize = 30;
const MIDDLE: usize = SIZE / 2;

fn create_test_split_vec() -> SplitVec {
    SplitVec::from_vecs(vec![vec![0; SIZE], vec![1; SIZE]])
}

fn contents(sv: &SplitVec) -> Vec<u8> {
    let mut out = Vec::new();
    let mut slices = sv.iter_slices();
    while let Some(block) = slices.next() {
        out.extend_from_slice(block);
    }
    out
}

fn at(sv: &SplitVec, i: usize) -> u8 {
    sv.get(i).unwrap()
}

#[test]
fn test_replace_in_split() {
    let mut sv = create_test_split_vec();

    sv.splice(SIZE - 10..SIZE + 10, &vec![5, 5]).unwrap();

    assert_eq!(at(&sv, SIZE - 11), 0);
    assert_eq!(at(&sv, SIZE - 10), 5);
    assert_eq!(at(&sv, SIZE - 9), 5);
    assert_eq!(at(&sv, SIZE - 8), 1);
}

#[test]
fn test_insert_in_split() {
    let mut sv = create_test_split_vec();

    sv.splice(SIZE..SIZE, &vec![5, 5]).unwrap();

    assert_eq!(at(&sv, SIZE - 1), 0);
    assert_eq!(at(&sv, SIZE), 5);
    assert_eq!(at(&sv, SIZE + 1), 5);
    assert_eq!(at(&sv, SIZE + 2), 1);
}

#[test]
fn test_delete_in_split() {
    let mut sv = create_test_split_vec();

    sv.splice(SIZE - 10..SIZE + 10, &vec![]).unwrap();

    assert_eq!(at(&sv, SIZE - 11), 0);
    assert_eq!(at(&sv, SIZE - 10), 1);
}

#[test]
fn test_replace_in_middle() {
    let mut sv = create_test_split_vec();

    sv.splice(MIDDLE - 10..MIDDLE + 10, &vec![5, 5]).unwrap();

    assert_eq!(at(&sv, MIDDLE - 11), 0);
    assert_eq!(at(&sv, MIDDLE - 10), 5);
    assert_eq!(at(&sv, MIDDLE - 9), 5);
    assert_eq!(at(&sv, MIDDLE - 8), 0);

    assert_eq!(at(&sv, SIZE - 19), 0);
    assert_eq!(at(&sv, SIZE - 18), 1);
}

#[test]
fn test_insert_in_middle() {
    let mut sv = create_test_split_vec();

    sv.splice(MIDDLE..MIDDLE, &vec![5, 5]).unwrap();

    assert_eq!(at(&sv, MIDDLE - 1), 0);
    assert_eq!(at(&sv, MIDDLE), 5);
    assert_eq!(at(&sv, MIDDLE + 1), 5);
    assert_eq!(at(&sv, MIDDLE + 2), 0);
}

#[test]
fn test_delete_in_middle() {
    let mut sv = create_test_split_vec();

    sv.splice(MIDDLE - 2..MIDDLE + 2, &vec![]).unwrap();

    assert_eq!(at(&sv, SIZE - 5), 0);
    assert_eq!(at(&sv, SIZE - 4), 1);
}

#[test]
fn split_vec_test_small_splitvec() {
    let size = 1024;
    let mut seg = SplitVec::from_vec(vec![1, 2, 3, 4, 5]);
    assert_eq!(Some(4), seg.find_slice(&[5]));

    let seg_len = seg.len();
    seg.splice((seg_len / 2)..(seg_len / 2), &vec![1 as u8; size]).unwrap();

    assert_eq!(Some(size + 4), seg.find_slice(&[5]));
}

#[test]
fn split_vec_test_large_splitvec() {
    let big_size = 4 * 1024 * 1024;
    let small_size = 1024;
    let mut seg = SplitVec::from_vec(vec![0; big_size]);

    seg.splice((big_size / 2)..(big_size / 2), &vec![1 as u8; small_size]).unwrap();

    assert_eq!(Some(big_size / 2 - 1), seg.find_slice(&[0, 1]));

    // Make sure we actually tested a "split" version
    let seg_lengths = seg.get_lengths();
    assert_eq!(2, seg_lengths.len());
    let index = seg_lengths[0];
    let sentinal = 100;
    seg.set(index, sentinal).unwrap();
    seg.set(index + 1, sentinal + 1).unwrap();
    assert_eq!(Some(index), seg.find_slice(&[sentinal, sentinal + 1]));
}

#[test]
fn test_segment() {
    let mut s = Segment::from_slice(&[1, 2, 3, 4]);
    s.insert(0, &[7, 7, 7, 7, 7]).unwrap();
    assert_eq!(s.len(), 9);
    assert_eq!(s.move_out_slice(0, 9).unwrap(), vec![7, 7, 7, 7, 7, 1, 2, 3, 4]);
}

#[test]
fn scenario_find_after_insert() {
    let mut sv = SplitVec::from_vec(vec![1, 2, 3, 4, 5]);
    assert_eq!(sv.find_slice(&[5]), Some(4));
    sv.insert(2, &[1; 1024]).unwrap();
    assert_eq!(sv.find_slice(&[5]), Some(1028));
}

#[test]
fn scenario_insert_splits_full_block() {
    let mut sv = SplitVec::from_vec(vec![0; MAX_BLOCK_SIZE]);
    sv.insert(2 * MIN_BLOCK_SIZE, &[1; 1024]).unwrap();
    assert_eq!(sv.get_lengths().len(), 2);
    assert_eq!(sv.get_lengths(), vec![2 * MIN_BLOCK_SIZE, 2 * MIN_BLOCK_SIZE + 1024]);
    assert_eq!(sv.get(2 * MIN_BLOCK_SIZE - 1), Ok(0));
    assert_eq!(sv.get(2 * MIN_BLOCK_SIZE), Ok(1));
    assert_eq!(sv.get(2 * MIN_BLOCK_SIZE + 1023), Ok(1));
    assert_eq!(sv.get(2 * MIN_BLOCK_SIZE + 1024), Ok(0));
    assert_eq!(sv.len(), MAX_BLOCK_SIZE + 1024);
}

#[test]
fn scenario_splice_across_blocks() {
    let mut sv = create_test_split_vec();
    let removed = sv.splice(25..35, &[5, 5]).unwrap();
    assert_eq!(removed, vec![0, 0, 0, 0, 0, 1, 1, 1, 1, 1]);
    assert_eq!(sv.get(24), Ok(0));
    assert_eq!(sv.get(25), Ok(5));
    assert_eq!(sv.get(26), Ok(5));
    assert_eq!(sv.get(27), Ok(1));
    assert_eq!(sv.len(), 52);
}

#[test]
fn scenario_append_at_block_boundary() {
    let mut sv = create_test_split_vec();
    let len = sv.len();
    let removed = sv.splice(len..len, &[9, 8, 7]).unwrap();
    assert!(removed.is_empty());
    assert_eq!(sv.len(), 63);
    assert_eq!(sv.get(60), Ok(9));
    assert_eq!(sv.get(62), Ok(7));

    let mut single = SplitVec::from_vec(vec![3; 30]);
    single.splice(30..30, &[4]).unwrap();
    assert_eq!(single.get(30), Ok(4));
}

#[test]
fn splice_round_trip_restores_content() {
    let mut sv = create_test_split_vec();
    let before = contents(&sv);
    let new_bytes = [9u8, 9, 9];
    let removed = sv.splice(20..45, &new_bytes).unwrap();
    sv.splice(20..20 + new_bytes.len(), &removed).unwrap();
    assert_eq!(contents(&sv), before);

    let removed = sv.splice(50..500, &new_bytes).unwrap();
    assert_eq!(removed.len(), 10);
    sv.splice(50..53, &removed).unwrap();
    assert_eq!(contents(&sv), before);
}

#[test]
fn length_follows_plain_model() {
    let mut sv = SplitVec::with_block_sizes(4, 8);
    let mut model: Vec<u8> = Vec::new();
    sv.insert(0, &[1, 2, 3, 4, 5, 6, 7, 8, 9]).unwrap();
    model.splice(0..0, [1, 2, 3, 4, 5, 6, 7, 8, 9]);
    assert_eq!(sv.len(), model.len());
    sv.insert(5, &[10, 11, 12]).unwrap();
    model.splice(5..5, [10, 11, 12]);
    assert_eq!(sv.len(), model.len());
    let out = sv.move_out(2..7).unwrap();
    let expected: Vec<u8> = model.splice(2..7, []).collect();
    assert_eq!(out, expected);
    assert_eq!(sv.len(), model.len());
    let old = sv.copy_in(1, &[20, 21]).unwrap();
    let expected: Vec<u8> = model.splice(1..3, [20, 21]).collect();
    assert_eq!(old, expected);
    assert_eq!(sv.len(), model.len());
    sv.splice(3..100, &[30]).unwrap();
    let end = model.len();
    model.splice(3..end, [30]);
    assert_eq!(sv.len(), model.len());
    assert_eq!(contents(&sv), model);
}

#[test]
fn blocks_stay_bounded_after_single_byte_inserts() {
    let mut sv = SplitVec::with_block_sizes(4, 8);
    for i in 0..100usize {
        sv.insert(i / 2, &[i as u8]).unwrap();
        assert!(sv.get_lengths().iter().all(|&l| l <= 8));
    }
    assert_eq!(sv.len(), 100);
}

#[test]
fn get_reflects_latest_write() {
    let mut sv = create_test_split_vec();
    sv.set(29, 7).unwrap();
    sv.set(30, 8).unwrap();
    assert_eq!(sv.get(29), Ok(7));
    assert_eq!(sv.get(30), Ok(8));
    sv.copy_in(28, &[1, 2, 3, 4]).unwrap();
    assert_eq!(sv.get(27), Ok(0));
    assert_eq!(sv.get(28), Ok(1));
    assert_eq!(sv.get(31), Ok(4));
    assert_eq!(sv.get(32), Ok(1));
}

#[test]
fn find_gives_first_occurrence() {
    let sv = SplitVec::from_vecs(vec![vec![1, 2, 3], vec![1, 2], vec![3, 1, 2, 3]]);
    assert_eq!(sv.find_slice(&[1, 2, 3]), Some(0));
    assert_eq!(sv.find_slice_from(1, &[1, 2, 3]), Some(3));
    assert_eq!(sv.find_slice_from(4, &[1, 2, 3]), Some(6));
    assert_eq!(sv.find_slice(&[3, 3]), None);
    assert_eq!(sv.find_slice(&[2, 3, 1, 2, 3]), Some(1));
    assert_eq!(sv.find_slice_from(2, &[2, 3, 1, 2, 3]), Some(4));
}

#[test]
fn out_of_range_errors() {
    let mut sv = create_test_split_vec();
    assert_eq!(sv.get(60), Err(StoreError::OutOfRange));
    assert_eq!(sv.set(60, 1), Err(StoreError::OutOfRange));
    assert_eq!(sv.insert(61, &[1]), Err(StoreError::OutOfRange));
    assert_eq!(sv.move_out(10..61), Err(StoreError::OutOfRange));
    assert_eq!(sv.move_out(10..5), Err(StoreError::InvertedRange));
    assert_eq!(sv.copy_in(59, &[1, 2]), Err(StoreError::OutOfRange));
    assert_eq!(sv.splice(61..70, &[1]), Err(StoreError::OutOfRange));
    assert_eq!(sv.splice(9..3, &[1]), Err(StoreError::InvertedRange));
    assert_eq!(sv.copy_out(5..2), Err(StoreError::InvertedRange));
    assert!(sv.iter_range(61..62).is_err());
    assert_eq!(sv.len(), 60);
}

#[test]
fn iterators_walk_ranges_and_blocks() {
    let sv = create_test_split_vec();
    let mut items = sv.iter_range(28..32).unwrap();
    let mut seen = Vec::new();
    while let Some(b) = items.next() {
        seen.push(b);
    }
    assert_eq!(seen, vec![0, 0, 1, 1]);
    assert_eq!(sv.copy_out(58..100).unwrap(), vec![1, 1]);
    assert_eq!(contents(&sv).len(), 60);
    let empty = SplitVec::new();
    assert_eq!(empty.len(), 0);
    assert_eq!(empty.find_slice(&[]), None);
}

#[test]
fn delete_removes_emptied_blocks() {
    let mut sv = create_test_split_vec();
    let out = sv.move_out(0..30).unwrap();
    assert_eq!(out, vec![0; 30]);
    assert_eq!(sv.get_lengths(), vec![30]);
    assert_eq!(sv.get(0), Ok(1));
}

#[test]
fn long_inserts_never_overfill_a_block() {
    let mut sv = SplitVec::with_block_sizes(4, 8);
    sv.insert(0, &[1; 7]).unwrap();
    sv.insert(3, &[2, 2]).unwrap();
    sv.insert(9, &[3; 20]).unwrap();
    assert!(sv.get_lengths().iter().all(|&l| l > 0 && l <= 8));
    assert_eq!(sv.len(), 29);
    let mut expected = vec![1, 1, 1, 2, 2, 1, 1, 1, 1];
    expected.extend_from_slice(&[3; 20]);
    assert_eq!(contents(&sv), expected);
}

#[test]
fn splice_leaves_no_empty_block() {
    let mut sv = SplitVec::from_vecs(vec![vec![1], vec![2]]);
    assert_eq!(sv.splice(0..1, &[]).unwrap(), vec![1]);
    assert_eq!(sv.get_lengths(), vec![1]);
    assert_eq!(sv.get(0), Ok(2));

    let mut single = SplitVec::from_vec(vec![7, 8]);
    single.splice(0..2, &[]).unwrap();
    assert!(single.get_lengths().is_empty());
    single.insert(0, &[]).unwrap();
    assert!(single.get_lengths().is_empty());
}

#[test]
fn empty_store_has_no_blocks() {
    let sv = SplitVec::new();
    let mut slices = sv.iter_slices();
    assert!(slices.next().is_none());
    assert!(SplitVec::with_block_sizes(1, 2).get_lengths().is_empty());
}

#[test]
fn segment_mutable_walk() {
    let mut seg = Segment::from_slice(&[1, 2, 3]);
    let mut walk = seg.mut_iter_range(1, 10).unwrap();
    assert_eq!(seg.write_next(&mut walk, 9), Some(2));
    assert_eq!(seg.write_next(&mut walk, 8), Some(3));
    assert_eq!(seg.write_next(&mut walk, 7), None);
    assert_eq!(seg.move_out_slice(0, 3).unwrap(), vec![1, 9, 8]);
    assert!(seg.mut_iter_range(2, 1).is_err());
}

#[test]
fn small_splitvec_with_insert() {
    let size = 1024;
    let mut seg = SplitVec::from_vec(vec![1, 2, 3, 4, 5]);
    assert_eq!(Some(4), seg.find_slice(&[5]));

    let seg_len = seg.len();
    seg.insert(seg_len / 2, &vec![1 as u8; size]).unwrap();

    assert_eq!(Some(size + 4), seg.find_slice(&[5]));
}

#[test]
fn large_splitvec_with_insert() {
    let big_size = 4 * 1024 * 1024;
    let small_size = 1024;
    let mut seg = SplitVec::from_vec(vec![0; big_size]);

    seg.insert(big_size / 2, &vec![1 as u8; small_size]).unwrap();

    assert_eq!(Some(big_size / 2 - 1), seg.find_slice(&[0, 1]));

    let seg_lengths = seg.get_lengths();
    assert_eq!(2, seg_lengths.len());
    let index = seg_lengths[0];
    let sentinal = 100;
    seg.set(index, sentinal).unwrap();
    seg.set(index + 1, sentinal + 1).unwrap();
    assert_eq!(Some(index), seg.find_slice(&[sentinal, sentinal + 1]));
}
