use pnghider::search::find_sequence;

#[test]
fn find_sequence_nothing() {
    assert_eq!(None, find_sequence(&[1, 2, 3, 4], &[5]));
}

#[test]
fn find_sequence_start() {
    assert_eq!(0, find_sequence(&[1, 2, 3, 4], &[1]).unwrap());
}

#[test]
fn find_sequence_middle() {
    assert_eq!(2, find_sequence(&[1, 2, 3, 4], &[3]).unwrap());
}

#[test]
fn find_sequence_end() {
    assert_eq!(3, find_sequence(&[1, 2, 3, 4], &[4]).unwrap());
}

#[test]
fn find_sequence_multiple_nothing() {
    assert_eq!(None, find_sequence(&[1, 2, 3, 4], &[2, 4]));
}

#[test]
fn find_sequence_multiple() {
    assert_eq!(1, find_sequence(&[1, 2, 3, 4], &[2, 3]).unwrap());
}

#[test]
fn find_sequence_full() {
    assert_eq!(0, find_sequence(&[1, 2, 3, 4], &[1, 2, 3, 4]).unwrap());
}

#[test]
fn find_sequence_lowest_of_several() {
    assert_eq!(Some(2), find_sequence(&[9, 9, 7, 8, 7, 8, 7, 8], &[7, 8]));
    assert_eq!(Some(0), find_sequence(&[1, 1, 1, 1], &[1, 1, 1]));
    assert_eq!(Some(1), find_sequence(&[0, 1, 1, 1], &[1, 1]));
}

#[test]
fn find_sequence_needle_longer_than_haystack() {
    assert_eq!(None, find_sequence(&[1, 2], &[1, 2, 3]));
    assert_eq!(None, find_sequence(&[], &[1]));
}

#[test]
fn find_sequence_empty_needle() {
    assert_eq!(Some(0), find_sequence(&[1, 2, 3], &[]));
    assert_eq!(Some(0), find_sequence(&[], &[]));
}
