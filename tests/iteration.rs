use creature_feature::accum_ftzr::{IterFtzr, TokenIter};
use creature_feature::bookends::FrontBack;
use creature_feature::ftzrs::{
    bigram, bislice, bookends, empty, for_each, gap_gram, multi, n_gram, n_slice, trigram, whole,
};
use creature_feature::gap_gram::{GapGramIter, GapPair};
use creature_feature::multiftzr::EitherGroup;
use creature_feature::traits::Ftzr;

fn drain<It: TokenIter>(mut it: It) -> Vec<It::Item> {
    let mut out = Vec::new();
    while let Some(t) = it.next() {
        out.push(t);
    }
    out
}

#[test]
fn n_gram_iterator_yields_the_windows() {
    let data = [1, 2, 3, 4, 5];
    let got = drain(bigram().iterate_features(&data[..]));
    assert_eq!(got, vec![[1, 2], [2, 3], [3, 4], [4, 5]]);
    let pushed: Vec<[i32; 2]> = bigram().featurize(&data[..]).unwrap();
    assert_eq!(got, pushed);
    let none = drain(n_gram::<6>().iterate_features(&data[..]));
    assert!(none.is_empty());
}

#[test]
fn slice_iterator_agrees_with_push() {
    let data = "one fish".as_bytes();
    let got = drain(bislice().iterate_features(data));
    let pushed: Vec<&[u8]> = bislice().featurize(data).unwrap();
    assert_eq!(got, pushed);
    assert_eq!(got.len(), 7);
    assert_eq!(got[3], " f".as_bytes());
}

#[test]
fn gap_gram_iterator_skips_the_gap() {
    let data: Vec<i32> = (0..12).collect();
    let ftzr = gap_gram(n_slice(1), 1, n_slice(1));
    let got = drain(ftzr.iterate_features(data.as_slice()));
    assert_eq!(got.len(), 10);
    assert_eq!(got[0], GapPair(&data[0..1], &data[2..3], 1));
    assert_eq!(got[9], GapPair(&data[9..10], &data[11..12], 1));
    let direct = drain(GapGramIter::new(data.as_slice(), &n_slice(1), 1, &n_slice(1)));
    assert_eq!(direct, got);
    let pushed: Vec<(&[i32], &[i32])> = ftzr.featurize(data.as_slice()).unwrap();
    let pairs: Vec<(&[i32], &[i32])> = got.iter().map(|p| (p.0, p.1)).collect();
    assert_eq!(pushed, pairs);
}

#[test]
fn union_iterator_tags_each_side() {
    let data = "abcd".as_bytes();
    let got = drain(multi(bislice(), trigram()).iterate_features(data));
    assert_eq!(
        got,
        vec![
            EitherGroup::Left("ab".as_bytes()),
            EitherGroup::Left("bc".as_bytes()),
            EitherGroup::Left("cd".as_bytes()),
            EitherGroup::Right(*b"abc"),
            EitherGroup::Right(*b"bcd"),
        ]
    );
}

#[test]
fn bookends_iterator_runs_front_then_back() {
    let data = "sesquipedalian".as_bytes();
    let got = drain(bookends((bislice(), 4), (trigram(), 4)).iterate_features(data));
    assert_eq!(
        got,
        vec![
            FrontBack::Front("se".as_bytes()),
            FrontBack::Front("es".as_bytes()),
            FrontBack::Front("sq".as_bytes()),
            FrontBack::Back(*b"lia"),
            FrontBack::Back(*b"ian"),
        ]
    );
    let short = drain(bookends((bislice(), 9), (bislice(), 3)).iterate_features("abcd".as_bytes()));
    assert_eq!(short, vec![FrontBack::Back("bc".as_bytes()), FrontBack::Back("cd".as_bytes())]);
}

#[test]
fn for_each_iterator_reads_item_after_item() {
    let words: Vec<&[u8]> = vec!["abc".as_bytes(), "".as_bytes(), "d".as_bytes(), "ef".as_bytes()];
    let got = drain(for_each(bislice()).iterate_features(words.as_slice()));
    assert_eq!(got, vec!["ab".as_bytes(), "bc".as_bytes(), "ef".as_bytes()]);
    let wholes = drain(for_each(whole()).iterate_features(words.as_slice()));
    assert_eq!(wholes.len(), 4);
}

#[test]
fn whole_and_empty_iterators() {
    let data = [7u8, 8, 9];
    assert_eq!(drain(whole().iterate_features(&data[..])), vec![&data[..]]);
    assert!(drain(empty().iterate_features(&data[..])).is_empty());
}
