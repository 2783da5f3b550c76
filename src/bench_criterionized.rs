use crate::accum_ftzr::{lemma_vec_collects, Ftzr};
use crate::feature_from::{lemma_convert_arrays, lemma_convert_slices};
use crate::n_gram::n_gram;
use crate::n_slice::{n_slice, window_count, windows};
use crate::val::{vals, Val};
use vstd::prelude::*;
use vstd::string::StringSliceAdditionalSpecFns;
use vstd::utf8::encode_utf8;

verus! {

/// The number of byte n-slices of width `n` in a text, counted by collecting
/// them into a vector of slices.
pub fn benchmark_for_vec_of_n_length_array_slices(bigstring: &str, n: usize) -> (r: usize)
    requires
        n > 0,
    ensures
        r == window_count(bigstring.spec_bytes().len(), n as nat),
{
    let f = n_slice(n);
    match f.featurize::<&[u8], Vec<&[u8]>>(bigstring) {
        Ok(v) => {
            proof {
                lemma_convert_slices::<u8>(windows(encode_utf8(bigstring@), n as nat));
                lemma_vec_collects::<&[u8]>(windows(encode_utf8(bigstring@), n as nat));
                assert(vals(v@).len() == v@.len());
            }
            v.len()
        },
        Err(_) => {
            proof {
                lemma_convert_slices::<u8>(windows(encode_utf8(bigstring@), n as nat));
            }
            0
        },
    }
}

/// The number of byte n-grams of width `N` in a text, counted by collecting
/// them into a vector of arrays.
fn count_n_grams<const N: usize>(bigstring: &str) -> (r: usize)
    requires
        N > 0,
    ensures
        r == window_count(bigstring.spec_bytes().len(), N as nat),
{
    let f = n_gram::<N>();
    let ghost groups = windows(encode_utf8(bigstring@), N as nat);
    proof {
        lemma_convert_arrays::<u8, N>(groups);
        lemma_vec_collects::<[u8; N]>(groups);
    }
    match f.featurize::<[u8; N], Vec<[u8; N]>>(bigstring) {
        Ok(v) => {
            assert(vals(v@).len() == v@.len());
            v.len()
        },
        Err(_) => 0,
    }
}

/// The number of byte n-grams of width `n` in a text, for the widths 2, 4,
/// 8, 16, 32, 64 and 128.
pub fn benchmark_for_vec_of_n_length_arrays(bigstring: &str, n: usize) -> (r: usize)
    requires
        n == 2 || n == 4 || n == 8 || n == 16 || n == 32 || n == 64 || n == 128,
    ensures
        r == window_count(bigstring.spec_bytes().len(), n as nat),
{
    match n {
        2 => count_n_grams::<2>(bigstring),
        4 => count_n_grams::<4>(bigstring),
        8 => count_n_grams::<8>(bigstring),
        16 => count_n_grams::<16>(bigstring),
        32 => count_n_grams::<32>(bigstring),
        64 => count_n_grams::<64>(bigstring),
        _ => count_n_grams::<128>(bigstring),
    }
}

} // verus!
