//! The bounds-checked range operations, over vectors and over strings.

use tokenkit::error::Error;
use tokenkit::str_utils;
use tokenkit::vec_utils;

#[test]
fn npop_takes_last_in_order() {
    let mut v = vec![1, 2, 3, 4, 5];
    let taken = vec_utils::npop(&mut v, 2).unwrap();
    assert_eq!(taken, vec![4, 5]);
    assert_eq!(v, vec![1, 2, 3]);
}

#[test]
fn npop_round_trip_restores() {
    let original = vec![10, 20, 30, 40];
    for n in 0..=original.len() {
        let mut v = original.clone();
        let mut taken = vec_utils::npop(&mut v, n).unwrap();
        v.append(&mut taken);
        assert_eq!(v, original);
    }
}

#[test]
fn npop_whole_and_empty() {
    let mut v = vec![7, 8];
    assert_eq!(vec_utils::npop(&mut v, 2).unwrap(), vec![7, 8]);
    assert!(v.is_empty());
    let mut e: Vec<i32> = Vec::new();
    assert_eq!(vec_utils::npop(&mut e, 0).unwrap(), Vec::new());
}

#[test]
fn npop_count_too_large() {
    let mut v = vec![1, 2];
    assert_eq!(vec_utils::npop(&mut v, 3), Err(Error::CountTooLarge));
    assert_eq!(v, vec![1, 2]);
}

#[test]
fn nget_peeks_without_change() {
    let v = vec![1, 2, 3];
    assert_eq!(vec_utils::nget(&v, 2).unwrap(), vec![2, 3]);
    assert_eq!(v, vec![1, 2, 3]);
    assert_eq!(vec_utils::nget(&v, 4), Err(Error::CountTooLarge));
}

#[test]
fn range_validity() {
    let v = vec![0, 1, 2, 3, 4];
    assert!(vec_utils::is_valid_range(&v, 0, 5));
    assert!(vec_utils::is_valid_range(&v, 3, 2));
    assert!(vec_utils::is_valid_range(&v, 5, 5));
    assert!(!vec_utils::is_valid_range(&v, 6, 2));
    assert!(!vec_utils::is_valid_range(&v, 2, 6));
}

#[test]
fn get_range_extracts_in_order() {
    let v = vec![0, 1, 2, 3, 4];
    assert_eq!(vec_utils::get_range(&v, 1, 4).unwrap(), vec![1, 2, 3]);
    assert_eq!(v, vec![0, 1, 2, 3, 4]);
}

#[test]
fn get_range_twice_is_identical() {
    let v = vec![9, 8, 7, 6];
    let first = vec_utils::get_range(&v, 1, 3).unwrap();
    let second = vec_utils::get_range(&v, 1, 3).unwrap();
    assert_eq!(first, second);
    assert_eq!(v, vec![9, 8, 7, 6]);
}

#[test]
fn get_range_inverted_is_valid_but_empty() {
    let v = vec![0, 1, 2, 3, 4];
    assert!(vec_utils::is_valid_range(&v, 3, 2));
    assert_eq!(vec_utils::get_range(&v, 3, 2).unwrap(), Vec::new());
}

#[test]
fn get_range_invalid() {
    let v = vec![0, 1];
    assert_eq!(vec_utils::get_range(&v, 0, 3), Err(Error::InvalidRange));
}

#[test]
fn pop_range_removes_and_returns() {
    let mut v = vec![0, 1, 2, 3, 4];
    let removed = vec_utils::pop_range(&mut v, 1, 3).unwrap();
    assert_eq!(removed, vec![1, 2]);
    assert_eq!(v, vec![0, 3, 4]);
}

#[test]
fn pop_range_round_trip_restores() {
    let original = vec![0, 1, 2, 3, 4, 5];
    for a in 0..=original.len() {
        for b in a..=original.len() {
            let mut v = original.clone();
            let removed = vec_utils::pop_range(&mut v, a, b).unwrap();
            for (offset, x) in removed.into_iter().enumerate() {
                v.insert(a + offset, x);
            }
            assert_eq!(v, original);
        }
    }
}

#[test]
fn pop_range_inverted_removes_nothing() {
    let mut v = vec![0, 1, 2, 3, 4];
    assert_eq!(vec_utils::pop_range(&mut v, 3, 2).unwrap(), Vec::new());
    assert_eq!(v, vec![0, 1, 2, 3, 4]);
}

#[test]
fn pop_range_invalid() {
    let mut v = vec![0, 1];
    assert_eq!(vec_utils::pop_range(&mut v, 7, 1), Err(Error::InvalidRange));
    assert_eq!(v, vec![0, 1]);
}

#[test]
fn mul_repeats_in_order() {
    let v = vec![1, 2];
    assert_eq!(vec_utils::mul(&v, 3), vec![1, 2, 1, 2, 1, 2]);
    assert_eq!(v, vec![1, 2]);
}

#[test]
fn mul_zero_is_empty() {
    let v = vec![1, 2, 3];
    assert_eq!(vec_utils::mul(&v, 0), Vec::new());
    let e: Vec<i32> = Vec::new();
    assert_eq!(vec_utils::mul(&e, 5), Vec::new());
}

#[test]
fn str_npop_takes_last_in_order() {
    let mut s = String::from("hello");
    let taken = str_utils::npop(&mut s, 2).unwrap();
    assert_eq!(taken, "lo");
    assert_eq!(s, "hel");
}

#[test]
fn str_npop_count_too_large() {
    let mut s = String::from("ab");
    assert_eq!(str_utils::npop(&mut s, 3), Err(Error::CountTooLarge));
    assert_eq!(s, "ab");
}

#[test]
fn str_nget_peeks() {
    let s = String::from("hello");
    assert_eq!(str_utils::nget(&s, 3).unwrap(), "llo");
    assert_eq!(s, "hello");
    assert_eq!(str_utils::nget(&s, 6), Err(Error::CountTooLarge));
}

#[test]
fn str_ranges_match_vec_behaviour() {
    let s = String::from("abcde");
    assert!(str_utils::is_valid_range(&s, 3, 2));
    assert_eq!(str_utils::get_range(&s, 1, 4).unwrap(), "bcd");
    assert_eq!(str_utils::get_range(&s, 3, 2).unwrap(), "");
    assert_eq!(str_utils::get_range(&s, 0, 6), Err(Error::InvalidRange));

    let mut t = String::from("abcde");
    let removed = str_utils::pop_range(&mut t, 1, 3).unwrap();
    assert_eq!(removed, "bc");
    assert_eq!(t, "ade");

    let mut u = String::from("abcde");
    assert_eq!(str_utils::pop_range(&mut u, 3, 2).unwrap(), "");
    assert_eq!(u, "abcde");
}

#[test]
fn str_mul_repeats() {
    let s = String::from("ab");
    assert_eq!(str_utils::mul(&s, 3), "ababab");
    assert_eq!(str_utils::mul(&s, 0), "");
}
