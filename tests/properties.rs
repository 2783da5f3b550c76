use creature_feature::bench_criterionized::{
    benchmark_for_vec_of_n_length_array_slices, benchmark_for_vec_of_n_length_arrays,
};
use creature_feature::bookends::FrontBack;
use creature_feature::convert::{Bag, EncodingError, Merged};
use creature_feature::feature_from::FeatureFrom;
use creature_feature::ftzrs::{
    bigram, bislice, bookends, empty, for_each, gap_gram, multi, n_gram, n_slice, trigram,
    trislice, whole,
};
use creature_feature::tokengroup::{chars_of, string_of_chars};
use creature_feature::traits::Ftzr;
use creature_feature::gap_gram::GapPair;
use creature_feature::multiftzr::EitherGroup;
use creature_feature::skip_schema::{skipgram, SkipSchema};
use creature_feature::HashedAs;
use std::collections::{BTreeMap, BTreeSet, HashMap, HashSet, VecDeque};

#[test]
fn bigrams_of_the_alphabet_as_strings() {
    let feats: Vec<String> = bigram().featurize("abcdefghijk").unwrap();
    assert_eq!(feats, vec!["ab", "bc", "cd", "de", "ef", "fg", "gh", "hi", "ij", "jk"]);
}

#[test]
fn window_count_is_length_minus_width_plus_one() {
    let data: Vec<u32> = (0..20).collect();
    for n in 1..=20usize {
        let feats: Vec<&[u32]> = n_slice(n).featurize(data.as_slice()).unwrap();
        assert_eq!(feats.len(), 20 - n + 1);
        for (i, f) in feats.iter().enumerate() {
            assert_eq!(*f, &data[i..i + n]);
        }
    }
    let arrays: Vec<[u32; 5]> = n_gram::<5>().featurize(data.as_slice()).unwrap();
    assert_eq!(arrays.len(), 16);
    assert_eq!(arrays[0], [0, 1, 2, 3, 4]);
    assert_eq!(arrays[15], [15, 16, 17, 18, 19]);
}

#[test]
fn short_input_gives_no_groups() {
    let feats: Vec<&str> = trislice().featurize("ab").unwrap();
    assert!(feats.is_empty());
    let arrays: Vec<[u8; 3]> = trigram().featurize("").unwrap();
    assert!(arrays.is_empty());
    let exact: Vec<&str> = trislice().featurize("abc").unwrap();
    assert_eq!(exact, vec!["abc"]);
}

#[test]
fn gap_gram_pairs_unigrams_one_apart() {
    let data: Vec<i32> = (0..12).collect();
    let ftzr = gap_gram(n_gram::<1>(), 1, n_gram::<1>());
    let feats: Vec<([i32; 1], [i32; 1])> = ftzr.featurize(data.as_slice()).unwrap();
    let expected: Vec<([i32; 1], [i32; 1])> = (0..10).map(|i| ([i], [i + 2])).collect();
    assert_eq!(feats.len(), 10);
    assert_eq!(feats, expected);
}

#[test]
fn gap_gram_with_zero_gap_counts_like_one_wide_window() {
    let data = "0123456789".as_bytes();
    let ftzr = gap_gram(bislice(), 0, trislice());
    let feats: Vec<(&str, &str)> = ftzr.featurize(data).unwrap();
    assert_eq!(feats.len(), 10 - 5 + 1);
    assert_eq!(feats[0], ("01", "234"));
    assert_eq!(feats[5], ("56", "789"));
}

#[test]
fn gap_gram_nests() {
    let data = "0123456789".as_bytes();
    let unigram = n_slice(1);
    let inner = gap_gram(unigram, 1, unigram);
    let outer = gap_gram(inner, 3, inner);
    let feats: Vec<((&str, &str), (&str, &str))> = outer.featurize(data).unwrap();
    assert_eq!(feats, vec![(("0", "2"), ("6", "8")), (("1", "3"), ("7", "9"))]);
}

#[test]
fn bag_counts_repeated_bigrams() {
    let bag: Bag<HashMap<String, u64>> = bigram().featurize("aaaa").unwrap();
    assert_eq!(bag.0.len(), 1);
    assert_eq!(bag.0.get("aa"), Some(&3));
    let plain: Vec<String> = bigram().featurize("aaaa").unwrap();
    assert_eq!(plain.len(), 3);
}

#[test]
fn bag_of_words_with_for_each_whole() {
    let sentence = "one fish two fish red fish blue fish";
    let words: Vec<&[u8]> = sentence.split_ascii_whitespace().map(|w| w.as_bytes()).collect();
    let bag: Bag<HashMap<String, u64>> = for_each(whole()).featurize(words.as_slice()).unwrap();
    assert_eq!(bag.0.len(), 5);
    assert_eq!(bag.0.get("fish"), Some(&4));
    assert_eq!(bag.0.get("one"), Some(&1));
}

#[test]
fn for_each_runs_inner_featurizer_per_item_in_order() {
    let words: Vec<&[u8]> = vec!["abc".as_bytes(), "d".as_bytes(), "ef".as_bytes()];
    let feats: Vec<&str> = for_each(bislice()).featurize(words.as_slice()).unwrap();
    assert_eq!(feats, vec!["ab", "bc", "ef"]);
}

#[test]
fn bag_with_fingerprint_keys() {
    let bag: Bag<HashMap<HashedAs<u64>, u64>> = bislice().featurize("abab").unwrap();
    assert_eq!(bag.0.len(), 2);
    assert_eq!(bag.0.get(&HashedAs(fxhash::hash64("ab".as_bytes()))), Some(&2));
    assert_eq!(bag.0.get(&HashedAs(fxhash::hash64("ba".as_bytes()))), Some(&1));
}

#[test]
fn non_utf8_window_fails_as_text_but_hashes() {
    let data: &[u8] = &[0x61, 0xff, 0x62];
    let as_text: Result<Vec<String>, EncodingError> = bislice().featurize(data);
    assert_eq!(as_text, Err(EncodingError));
    let as_str: Result<Vec<&str>, EncodingError> = bislice().featurize(data);
    assert!(as_str.is_err());
    let hashed: Vec<HashedAs<u64>> = bislice().featurize(data).unwrap();
    assert_eq!(hashed.len(), 2);
    assert_eq!(hashed[0], HashedAs(fxhash::hash64(&data[0..2])));
    assert_eq!(hashed[1], HashedAs(fxhash::hash64(&data[1..3])));
    assert_ne!(hashed[0], hashed[1]);
    let short: Vec<HashedAs<u32>> = bislice().featurize(data).unwrap();
    assert_eq!(short[0], HashedAs(fxhash::hash64(&data[0..2]) as u32));
    assert!(!EncodingError.message().is_empty());
}

#[test]
fn ascii_text_converts_and_chars_take_the_other_path() {
    let text = "naïve";
    let chars = chars_of(text);
    assert_eq!(chars, vec!['n', 'a', 'ï', 'v', 'e']);
    let feats: Vec<String> = bislice().featurize(chars.as_slice()).unwrap();
    assert_eq!(feats, vec!["na", "aï", "ïv", "ve"]);
    let bytes: Result<Vec<String>, EncodingError> = bislice().featurize(text);
    assert!(bytes.is_err());
}

#[test]
fn round_trip_array_to_vector_and_chars_to_string() {
    let arrays: Vec<[u8; 3]> = trigram().featurize("abcd").unwrap();
    for a in arrays.iter() {
        let v: Vec<u8> = <Vec<u8> as FeatureFrom<[u8; 3]>>::from(*a).unwrap();
        let back: [u8; 3] = v.clone().try_into().unwrap();
        assert_eq!(back, *a);
        assert_eq!(v.as_slice(), &a[..]);
    }
    let chars = vec!['x', 'é', 'z'];
    let s = string_of_chars(&chars);
    assert_eq!(chars_of(&s), chars);
    let t: String = <String as FeatureFrom<&[u8]>>::from("text".as_bytes()).unwrap();
    assert_eq!(t.as_bytes(), "text".as_bytes());
}

#[test]
fn conversion_twice_gives_equal_features() {
    let g: &[u8] = "ab".as_bytes();
    let a = <String as FeatureFrom<&[u8]>>::from(g).unwrap();
    let b = <String as FeatureFrom<&[u8]>>::from(g).unwrap();
    assert_eq!(a, b);
    let h1 = <HashedAs<u64> as FeatureFrom<&[u8]>>::from(g).unwrap();
    let h2 = <HashedAs<u64> as FeatureFrom<&[u8]>>::from(g).unwrap();
    assert_eq!(h1, h2);
}

#[test]
fn bookends_tag_prefix_and_suffix() {
    let ftzr = bookends((bislice(), 4), (trigram(), 4));
    let feats: Vec<FrontBack<&str, String>> = ftzr.featurize("sesquipedalian".as_bytes()).unwrap();
    assert_eq!(
        feats,
        vec![
            FrontBack::Front("se"),
            FrontBack::Front("es"),
            FrontBack::Front("sq"),
            FrontBack::Back("lia".to_string()),
            FrontBack::Back("ian".to_string()),
        ]
    );
    let other: Vec<FrontBack<&str, String>> = ftzr.featurize("sesqXXXXXXXlian".as_bytes()).unwrap();
    assert_eq!(other, feats);
}

#[test]
fn bookends_on_short_input_keep_the_sides_that_fit() {
    let ftzr = bookends((bislice(), 4), (bislice(), 2));
    let feats: Vec<Result<&str, &str>> = ftzr.featurize("abc".as_bytes()).unwrap();
    assert_eq!(feats, vec![Err("bc")]);
    let merged: Vec<Merged<&str>> = bookends((bislice(), 2), (bislice(), 2)).featurize("abc".as_bytes()).unwrap();
    assert_eq!(merged, vec![Merged("ab"), Merged("bc")]);
}

#[test]
fn union_length_is_sum_of_sides() {
    let data = "abcdefg".as_bytes();
    let left: Vec<&str> = bislice().featurize(data).unwrap();
    let right: Vec<&str> = trislice().featurize(data).unwrap();
    let both: Vec<Merged<String>> = multi(bislice(), trislice()).featurize(data).unwrap();
    assert_eq!(both.len(), left.len() + right.len());
    assert_eq!(both[0], Merged("ab".to_string()));
    assert_eq!(both[6], Merged("abc".to_string()));
    let tagged: Vec<Result<&str, &str>> = multi(bislice(), bislice()).featurize(data).unwrap();
    assert_eq!(tagged.len(), 12);
    assert_eq!(tagged[0], Ok("ab"));
    assert_eq!(tagged[6], Err("ab"));
}

#[test]
fn empty_featurizer_gives_empty_containers() {
    let v: Vec<String> = empty().featurize("abc".as_bytes()).unwrap();
    assert!(v.is_empty());
    let s: Vec<String> = empty().featurize("abc".as_bytes()).unwrap();
    assert_eq!(s, Vec::<String>::new());
}

#[test]
fn whole_gives_the_input_once() {
    let v: Vec<&str> = whole().featurize("one fish").unwrap();
    assert_eq!(v, vec!["one fish"]);
}

#[test]
fn featurize_twice_in_one_pass() {
    let (set, list): (HashSet<HashedAs<u64>>, Vec<&str>) = bislice().featurize_x2("abab").unwrap();
    assert_eq!(list, vec!["ab", "ba", "ab"]);
    assert_eq!(set.len(), 2);
    let (deque, strings): (VecDeque<[u8; 2]>, Vec<String>) = bigram().featurize_x2("xyz").unwrap();
    assert_eq!(deque, VecDeque::from(vec![*b"xy", *b"yz"]));
    assert_eq!(strings, vec!["xy", "yz"]);
}

#[test]
fn sets_and_strings_as_accumulators() {
    let set: HashSet<&str> = bislice().featurize("abab").unwrap();
    assert_eq!(set.len(), 2);
    assert!(set.contains("ab") && set.contains("ba"));
    let chars = chars_of("abc");
    let joined: String = bislice().featurize::<&[char], String>(chars.as_slice()).unwrap();
    assert_eq!(joined, "abbc");
    let text: String = bislice().featurize("abc").map(|v: Vec<&str>| v.concat()).unwrap();
    assert_eq!(text, "abbc");
}

#[test]
fn benchmark_counts() {
    assert_eq!(benchmark_for_vec_of_n_length_array_slices("abcdef", 2), 5);
    assert_eq!(benchmark_for_vec_of_n_length_array_slices("ab", 3), 0);
    assert_eq!(benchmark_for_vec_of_n_length_arrays("abcdefgh", 4), 5);
    assert_eq!(benchmark_for_vec_of_n_length_arrays("abcdefgh", 8), 1);
    assert_eq!(benchmark_for_vec_of_n_length_arrays("abc", 2), 2);
}

#[test]
fn ordered_containers() {
    let set: BTreeSet<[u8; 2]> = bigram().featurize("abab").unwrap();
    assert_eq!(set.into_iter().collect::<Vec<_>>(), vec![*b"ab", *b"ba"]);
    let bag: Bag<BTreeMap<&str, u64>> = bislice().featurize("aaaa").unwrap();
    assert_eq!(bag.0.into_iter().collect::<Vec<_>>(), vec![("aa", 3)]);
}

#[test]
fn text_groups_concatenate_into_one_string() {
    let s: String = bislice().featurize::<&str, String>("abc").unwrap();
    assert_eq!(s, "abbc");
}

#[test]
fn skipgram_pairs_then_contiguous_groups() {
    let feats: Vec<Result<&str, (&str, &str)>> = skipgram(1, (0, 1), 1).featurize("abc".as_bytes()).unwrap();
    assert_eq!(feats, vec![Err(("a", "c")), Ok("ab"), Ok("bc")]);
    let wide: Vec<Result<&str, (&str, &str)>> = skipgram(1, (1, 2), 2).featurize("abcdef".as_bytes()).unwrap();
    assert_eq!(
        wide,
        vec![
            Err(("a", "cd")),
            Err(("a", "de")),
            Err(("b", "de")),
            Err(("b", "ef")),
            Err(("c", "ef")),
        ]
    );
    let short: Vec<Result<&str, (&str, &str)>> = skipgram(2, (1, 1), 2).featurize("abcd".as_bytes()).unwrap();
    assert!(short.is_empty());
}

#[test]
fn skip_schema_with_ranges_of_widths() {
    let schema = SkipSchema { group_a: (1, 2), gap: (0, 1), group_b: (1, 1) };
    let mut groups: Vec<EitherGroup<&[u8], GapPair<&[u8], &[u8]>>> = Vec::new();
    schema.push_tokens::<Vec<EitherGroup<&[u8], GapPair<&[u8], &[u8]>>>>("abcd".as_bytes(), &mut groups);
    let shown: Vec<String> = groups
        .iter()
        .map(|g| match g {
            EitherGroup::Left(s) => String::from_utf8(s.to_vec()).unwrap(),
            EitherGroup::Right(p) => format!(
                "{}_{}_{}",
                String::from_utf8(p.0.to_vec()).unwrap(),
                p.2,
                String::from_utf8(p.1.to_vec()).unwrap()
            ),
        })
        .collect();
    assert_eq!(
        shown,
        vec!["a_1_c", "ab_1_d", "b_1_d", "ab", "abc", "bc", "bcd", "cd"]
    );
}

#[test]
fn map_keeps_the_last_value_of_each_key() {
    let pairs: HashMap<&str, &str> = gap_gram(n_slice(1), 0, n_slice(1)).featurize("aXaYaZ".as_bytes()).unwrap();
    assert_eq!(pairs.len(), 3);
    assert_eq!(pairs.get("a"), Some(&"Z"));
    assert_eq!(pairs.get("X"), Some(&"a"));
    assert_eq!(pairs.get("Y"), Some(&"a"));
}

#[test]
fn merged_union_features_collapse_but_tagged_ones_do_not() {
    let data = "abc".as_bytes();
    let merged: HashSet<Merged<&str>> = multi(bislice(), bislice()).featurize(data).unwrap();
    assert_eq!(merged.len(), 2);
    let tagged: HashSet<Result<&str, &str>> = multi(bislice(), bislice()).featurize(data).unwrap();
    assert_eq!(tagged.len(), 4);
    let fronts: HashSet<FrontBack<&str, &str>> = bookends((bislice(), 2), (bislice(), 2)).featurize("abab".as_bytes()).unwrap();
    assert_eq!(fronts.len(), 2);
}

#[test]
fn featurize_three_ways_in_one_pass() {
    let (strs, arrays, hashes): (Vec<&str>, Vec<Vec<u8>>, Vec<HashedAs<u64>>) = bislice().featurize_x3("abc").unwrap();
    assert_eq!(strs, vec!["ab", "bc"]);
    assert_eq!(arrays, vec![b"ab".to_vec(), b"bc".to_vec()]);
    assert_eq!(hashes, vec![HashedAs(fxhash::hash64("ab".as_bytes())), HashedAs(fxhash::hash64("bc".as_bytes()))]);
    let failed: Result<(Vec<&str>, Vec<String>, Vec<HashedAs<u64>>), EncodingError> = bislice().featurize_x3(&[0xffu8, 0x61][..]);
    assert!(failed.is_err());
}
