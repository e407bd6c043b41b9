use zsfm::ensemble::cat_encoder::{CategoricalOrdinalEncoder, Cell, LabelEncoder};
use zsfm::ensemble::config_gen::{generate_ensemble, EnsembleConfigParams, NormMethod};
use zsfm::ensemble::mt19937::Mt19937;
use zsfm::ensemble::oof::{kfold_splits, select_rows};
use zsfm::ensemble::pyrandom::PyRandom;

#[test]
fn test_sample_10_of_10() {
    let mut r = PyRandom::new(42);
    assert_eq!(r.sample_indices(10, 10), vec![1, 0, 4, 9, 6, 5, 8, 2, 3, 7]);
}

#[test]
fn test_sample_3_of_5() {
    let mut r = PyRandom::new(42);
    assert_eq!(r.sample_indices(5, 3), vec![0, 4, 2]);
}

#[test]
fn test_shuffle_8() {
    let mut r = PyRandom::new(42);
    let mut v: Vec<usize> = (0..8).collect();
    r.shuffle(&mut v);
    assert_eq!(v, vec![3, 4, 6, 7, 2, 5, 0, 1]);
}

#[test]
fn test_sample_5_of_100_rejection_branch() {
    let mut r = PyRandom::new(7);
    assert_eq!(r.sample_indices(100, 5), vec![41, 19, 50, 83, 6]);
}

#[test]
fn mt19937_reference_words() {
    // The reference output of the generator seeded by the key [0x123, 0x234, 0x345, 0x456].
    let mut mt = Mt19937::from_seed_key(&[0x123, 0x234, 0x345, 0x456]);
    assert_eq!(mt.next_u32(), 1067595299);
    assert_eq!(mt.next_u32(), 955945823);
    assert_eq!(mt.next_u32(), 477289528);
    assert_eq!(mt.next_u32(), 4107218783);
}

#[test]
fn empty_key_is_the_zero_key() {
    let mut a = Mt19937::from_seed_key(&[]);
    let mut b = Mt19937::from_seed_key(&[0]);
    let mut c = Mt19937::from_u64_seed(0);
    for _ in 0..700 {
        let w = a.next_u32();
        assert_eq!(w, b.next_u32());
        assert_eq!(w, c.next_u32());
    }
}

#[test]
fn wide_seeds_use_two_words() {
    let mut a = Mt19937::from_u64_seed(0x0000_0005_0000_0007);
    let mut b = Mt19937::from_seed_key(&[7, 5]);
    assert_eq!(a.next_u32(), b.next_u32());
}

#[test]
fn random_bits_come_from_the_top_of_words() {
    let mut a = Mt19937::from_u64_seed(1);
    let mut b = Mt19937::from_u64_seed(1);
    let w = a.next_u32();
    assert_eq!(b.getrandbits(5), (w >> 27) as u64);
    let (lo, hi) = (a.next_u32(), a.next_u32());
    assert_eq!(b.getrandbits(40), (lo as u64) | ((hi >> 24) as u64) << 32);
    assert_eq!(b.getrandbits(32), a.next_u32() as u64);
}

#[test]
fn no_bits_are_zero_and_draw_nothing() {
    let mut a = Mt19937::from_u64_seed(42);
    let mut b = Mt19937::from_u64_seed(42);
    assert_eq!(a.getrandbits(0), 0);
    assert_eq!(a.next_u32(), b.next_u32());
}

#[test]
fn randbelow_stays_below() {
    let mut r = PyRandom::new(3);
    assert_eq!(r.randbelow(0), 0);
    for n in 1..200u64 {
        assert!(r.randbelow(n) < n);
    }
    assert!(r.randbelow(1 << 40) < 1 << 40);
}

#[test]
fn samples_by_rejection_are_distinct() {
    let mut r = PyRandom::new(11);
    let s = r.sample_indices(1000, 20);
    assert_eq!(s.len(), 20);
    for (i, a) in s.iter().enumerate() {
        assert!(*a < 1000);
        for b in &s[i + 1..] {
            assert_ne!(a, b);
        }
    }
}

#[test]
fn sample_takes_elements() {
    let mut a = PyRandom::new(42);
    let mut b = PyRandom::new(42);
    let pop = vec!["p", "q", "r", "s", "t"];
    let idx = a.sample_indices(5, 3);
    let got = b.sample(&pop, 3);
    assert_eq!(got, idx.iter().map(|&i| pop[i]).collect::<Vec<_>>());
}

fn params(n_features: usize, is_classification: bool, n_classes: usize, methods: Vec<NormMethod>) -> EnsembleConfigParams {
    EnsembleConfigParams {
        n_estimators: 32,
        n_features,
        n_train_rows: 10,
        is_classification,
        n_classes,
        class_shift: true,
        permute_categorical: false,
        cat_value_counts: vec![],
        max_num_rows: None,
        norm_methods: methods,
        random_state: 42,
    }
}

#[test]
fn test_default_config_shape() {
    let p = params(8, true, 3, vec![NormMethod::Identity, NormMethod::Power]);
    let configs = generate_ensemble(&p);
    assert_eq!(configs.len(), 32);
    for (i, c) in configs.iter().enumerate() {
        assert_eq!(c.feature_permutation.len(), 8);
        let mut sorted = c.feature_permutation.clone();
        sorted.sort();
        assert_eq!(sorted, (0..8).collect::<Vec<_>>(), "member {i} not a valid permutation");
        assert!(c.class_shift < 3);
        assert!(c.cat_permutation.is_none());
        assert!(c.row_subsample.is_none());
    }
    assert_eq!(configs[0].norm_method, NormMethod::Identity);
    assert_eq!(configs[1].norm_method, NormMethod::Power);
}

#[test]
fn test_small_feature_count_uses_permutation_enumeration() {
    let p = params(3, false, 1, vec![NormMethod::Identity]);
    let configs = generate_ensemble(&p);
    assert_eq!(configs.len(), 6);
}

#[test]
fn test_matches_real_ensemble_generator() {
    let p = params(8, true, 3, vec![NormMethod::Identity, NormMethod::Power]);
    let configs = generate_ensemble(&p);
    let expected: [(NormMethod, &[usize], usize); 6] = [
        (NormMethod::Identity, &[0, 5, 3, 4, 7, 1, 6, 2], 1),
        (NormMethod::Power, &[3, 0, 1, 4, 6, 7, 5, 2], 0),
        (NormMethod::Identity, &[2, 1, 5, 3, 6, 4, 7, 0], 1),
        (NormMethod::Power, &[4, 1, 6, 7, 2, 3, 5, 0], 2),
        (NormMethod::Identity, &[1, 4, 7, 2, 3, 0, 6, 5], 2),
        (NormMethod::Power, &[2, 3, 1, 7, 6, 0, 4, 5], 0),
    ];
    for (i, (exp_method, exp_perm, exp_shift)) in expected.iter().enumerate() {
        assert_eq!(configs[i].norm_method, *exp_method, "member {i} norm_method");
        assert_eq!(&configs[i].feature_permutation, exp_perm, "member {i} permutation");
        assert_eq!(configs[i].class_shift, *exp_shift, "member {i} shift");
    }
}

#[test]
fn features_do_not_depend_on_the_rest() {
    let features = |p: &EnsembleConfigParams| {
        let mut all: Vec<Vec<usize>> = generate_ensemble(p).into_iter().map(|c| c.feature_permutation).collect();
        let order = all.clone();
        all.sort();
        (all, order)
    };
    for n_features in [3, 7] {
        let p = params(n_features, true, 4, vec![NormMethod::Robust]);
        let mut q = params(n_features, false, 1, vec![NormMethod::Identity, NormMethod::Power]);
        q.permute_categorical = true;
        q.cat_value_counts = vec![3, 5];
        q.max_num_rows = Some(6);
        let ((a, in_p), (b, in_q)) = (features(&p), features(&q));
        assert_eq!(a, b);
        assert_ne!(in_p, in_q);
    }
}

#[test]
fn subsampled_rows_and_permuted_values() {
    let mut p = params(7, true, 4, vec![NormMethod::Robust]);
    p.permute_categorical = true;
    p.cat_value_counts = vec![3, 5];
    p.max_num_rows = Some(6);
    let configs = generate_ensemble(&p);
    assert_eq!(configs.len(), 32);
    for c in &configs {
        let rows = c.row_subsample.as_ref().unwrap();
        assert_eq!(rows.len(), 6);
        assert!(rows.iter().all(|&r| r < 10));
        let cats = c.cat_permutation.as_ref().unwrap();
        assert_eq!(cats.len(), 2);
        let mut first = cats[0].clone();
        first.sort();
        assert_eq!(first, vec![0, 1, 2]);
        let mut second = cats[1].clone();
        second.sort();
        assert_eq!(second, vec![0, 1, 2, 3, 4]);
    }
}

#[test]
fn norm_methods_by_name() {
    assert_eq!(NormMethod::parse("none").unwrap(), NormMethod::Identity);
    assert_eq!(NormMethod::parse("power").unwrap(), NormMethod::Power);
    assert_eq!(NormMethod::parse("quantile").unwrap(), NormMethod::Quantile);
    assert_eq!(NormMethod::parse("quantile_rtdl").unwrap(), NormMethod::QuantileRtdl);
    assert_eq!(NormMethod::parse("robust").unwrap(), NormMethod::Robust);
    let e = NormMethod::parse("zscore").unwrap_err();
    assert_eq!(e.message(), "unknown norm_method: zscore");
}

#[test]
fn test_kfold_covers_every_row_exactly_once() {
    let folds = kfold_splits(11, 5, 42);
    let mut seen = vec![0u32; 11];
    for f in &folds {
        for &i in &f.val_idx {
            seen[i] += 1;
        }
        assert!(!f.train_idx.is_empty());
    }
    assert!(seen.iter().all(|&c| c == 1));
}

#[test]
fn test_kfold_fold_count_capped_by_n() {
    let folds = kfold_splits(3, 5, 42);
    assert_eq!(folds.len(), 3);
}

#[test]
fn kfold_parts_complement_and_sizes() {
    let folds = kfold_splits(11, 3, 1);
    assert_eq!(folds.iter().map(|f| f.val_idx.len()).collect::<Vec<_>>(), vec![4, 4, 3]);
    for f in &folds {
        let mut all = f.train_idx.clone();
        all.extend(&f.val_idx);
        all.sort();
        assert_eq!(all, (0..11).collect::<Vec<_>>());
    }
    assert_eq!(kfold_splits(0, 4, 1).len(), 1);
    assert_eq!(kfold_splits(5, 0, 1).len(), 1);
}

#[test]
fn select_rows_takes_rows_in_order() {
    let rows = vec!["a".to_string(), "b".to_string(), "c".to_string()];
    assert_eq!(select_rows(&rows, &[2, 0, 2]), vec!["c", "a", "c"]);
}

fn text(s: &str) -> Cell {
    Cell::Text(s.into())
}

fn floats(codes: Vec<i64>) -> Vec<f64> {
    codes.into_iter().map(|c| c as f64).collect()
}

#[test]
fn test_appearance_order() {
    let col = vec![text("blue"), text("red"), text("blue"), text("green")];
    let enc = CategoricalOrdinalEncoder::fit(&col);
    assert_eq!(floats(enc.transform(&col)), vec![0.0, 1.0, 0.0, 2.0]);
}

#[test]
fn test_unknown_at_transform_time() {
    let train = vec![text("a"), text("b")];
    let enc = CategoricalOrdinalEncoder::fit(&train);
    let test = vec![text("a"), text("c")];
    assert_eq!(floats(enc.transform(&test)), vec![0.0, -1.0]);
}

#[test]
fn test_missing_values() {
    let col = vec![text("a"), Cell::Null, text("a")];
    let enc = CategoricalOrdinalEncoder::fit(&col);
    assert_eq!(floats(enc.transform(&col)), vec![0.0, -1.0, 0.0]);
}

#[test]
fn missing_spellings() {
    let col = vec![text(""), text("NaN"), text("nAn"), text("nano"), text("na")];
    let enc = CategoricalOrdinalEncoder::fit(&col);
    assert_eq!(enc.transform(&col), vec![-1, -1, -1, 0, 1]);
}

#[test]
fn labels_are_sorted_and_decode() {
    let y = vec![text("pear"), Cell::Number("10".into()), text("apple"), Cell::Bool(true), text("pear"), Cell::Null];
    let enc = LabelEncoder::fit(&y);
    assert_eq!(enc.n_classes(), 4);
    assert_eq!((0..4).map(|c| enc.decode(c).to_string()).collect::<Vec<_>>(), vec!["10", "apple", "pear", "true"]);
    assert_eq!(enc.transform(&y), vec![2, 0, 1, 3, 2, -1]);
    assert_eq!(enc.transform(&[text("fig")]), vec![-1]);
}
