use creature_feature::ftzrs::{bigram, bislice};
use creature_feature::traits::Ftzr;

#[test]
fn test_for_vec_of_str_slices() {
    let vec_of_str_slices: Vec<&str> = bislice().featurize("one fish").unwrap();
    assert_eq!(vec_of_str_slices, vec!["on", "ne", "e ", " f", "fi", "is", "sh"]);
}

#[test]
fn test_for_vec_of_2_length_array_slices() {
    let vec_of_2_length_array_slices: Vec<&[u8]> = bislice().featurize("one fish").unwrap();
    assert_eq!(
        vec_of_2_length_array_slices,
        vec![&[b'o', b'n'], &[b'n', b'e'], &[b'e', b' '], &[b' ', b'f'], &[b'f', b'i'], &[b'i', b's'], &[b's', b'h']]
    );
}

#[test]
fn test_for_vec_of_2_length_arrays() {
    let vec_of_2_length_arrays: Vec<[u8; 2]> = bigram().featurize("one fish").unwrap();
    assert_eq!(
        vec_of_2_length_arrays,
        vec![[b'o', b'n'], [b'n', b'e'], [b'e', b' '], [b' ', b'f'], [b'f', b'i'], [b'i', b's'], [b's', b'h']]
    );
}
