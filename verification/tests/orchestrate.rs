use zsfm::ensemble::aggregate::{class_agg_mode, shifted_place, unshift_logits, ClassAggMode};
use zsfm::ensemble::cat_encoder::{Cell, LabelEncoder};
use zsfm::ensemble::columns::ColumnSets;
use zsfm::ensemble::config_gen::{MemberConfig, NormMethod};
use zsfm::ensemble::noise::noise_numerators;
use zsfm::ensemble::oof::kfold_splits;
use zsfm::ensemble::orchestrate::{
    build_member_table, chunks, collect_oof, distinct_norm_methods, labels_for, nnls_column, nnls_target, plan_classification,
    plan_regression, predicted_labels, row_of_members, scatter, Chunk, EnsembleParams, ScaledColumn, ONE,
};
use zsfm::float_bits::{first_greatest, first_least, is_finite, is_greater, is_nan, stable_order, total_less};

fn bits(v: &[f64]) -> Vec<u64> {
    v.iter().map(|x| x.to_bits()).collect()
}

#[test]
fn test_unshift_roundtrip() {
    let n_classes = 3;
    let shift = 1;
    let shifted_logits = vec![9.0, 0.1, 0.2];
    let unshifted = unshift_logits(&shifted_logits, shift, n_classes);
    assert_eq!(unshifted[2], 9.0);
}

#[test]
fn outputs_find_their_classes_again() {
    for shift in 0..7 {
        let outputs = unshift_logits(&[10, 11, 12, 13], shift, 4);
        for c in 0..4 {
            assert_eq!(outputs[c], 10 + shifted_place(c, shift, 4));
        }
    }
    assert!(matches!(class_agg_mode(true, None), ClassAggMode::AverageLogits));
    assert!(matches!(class_agg_mode(false, None), ClassAggMode::AverageProbs));
    assert!(matches!(class_agg_mode(true, Some(vec![1])), ClassAggMode::NnlsWeighted(w) if w == vec![1]));
}

#[test]
fn columns_move_between_the_sets() {
    let mut s = ColumnSets::new(3);
    assert_eq!(s.most_promising(&bits(&[0.5, 2.0, 2.0])), Some(2));
    assert_eq!(s.most_promising(&bits(&[-1.0, 0.0, 1e-12])), None);
    assert_eq!(s.enter(2), 2);
    assert_eq!(s.enter(0), 0);
    assert_eq!((s.active_len(), s.active_at(0)), (1, 1));
    assert_eq!((s.passive_at(0), s.passive_at(1)), (2, 0));
    assert_eq!(s.retire(&[true, false]), vec![2]);
    assert_eq!((s.active_len(), s.passive_len(), s.active_at(1)), (2, 1, 2));
}

#[test]
fn noise_is_a_fixed_stream() {
    let n = noise_numerators(2);
    let mut state: u64 = 0x2545_f491_4f6c_dd1d;
    let mut next = || {
        state ^= state << 13;
        state ^= state >> 7;
        state ^= state << 17;
        state >> 11
    };
    assert_eq!(n, vec![(next(), next()), (next(), next())]);
}

#[test]
fn members_in_batches() {
    let c = chunks(20, None);
    assert_eq!(c, vec![Chunk { start: 0, end: 8 }, Chunk { start: 8, end: 16 }, Chunk { start: 16, end: 20 }]);
    assert_eq!(chunks(2, Some(0)).len(), 2);
    assert!(chunks(0, Some(3)).is_empty());
}

#[test]
fn labels_that_members_see() {
    assert_eq!(labels_for(&[0, 1, 2, -1], 1, 3, 2), vec![1, 2, 0, 0, 0, 0]);
    assert_eq!(nnls_target(&[1, 0], 2), vec![0, ONE, ONE, 0]);
    assert_eq!(f64::from_bits(ONE), 1.0);
    assert_eq!(nnls_column(&vec![vec![1, 2, 3], vec![4, 5, 6]], 2), vec![1, 2, 4, 5]);
    assert_eq!(row_of_members(&vec![vec![vec![1], vec![2]], vec![vec![3], vec![4]]], 1), vec![vec![2], vec![4]]);
}

fn member(permutation: Vec<usize>, method: NormMethod) -> MemberConfig {
    MemberConfig {
        feature_permutation: permutation,
        class_shift: 0,
        cat_permutation: None,
        row_subsample: None,
        norm_method: method,
    }
}

#[test]
fn tables_of_members() {
    let column = |c: usize, method: NormMethod, v: u32| ScaledColumn { column: c, method, train: vec![v, v + 1], query: vec![v + 2] };
    let cache = vec![
        column(0, NormMethod::Identity, 10),
        column(1, NormMethod::Identity, 20),
        column(0, NormMethod::Power, 30),
        column(1, NormMethod::Power, 40),
    ];
    let m = member(vec![1, 0], NormMethod::Power);
    let t = build_member_table(&cache, 2, 1, &[false, true], &m);
    assert_eq!(t.x, vec![vec![40, 30], vec![41, 31], vec![42, 32]]);
    assert_eq!(t.cat_mask, vec![true, false]);
    let all = vec![m, member(vec![0], NormMethod::Identity), member(vec![1], NormMethod::Power)];
    let methods = distinct_norm_methods(&all);
    assert_eq!(methods.len(), 2);
    assert!(methods.contains(&NormMethod::Power) && methods.contains(&NormMethod::Identity));
}

#[test]
fn held_out_outputs_in_row_order() {
    let folds = kfold_splits(10, 3, 42);
    let outputs: Vec<Vec<usize>> = folds.iter().map(|f| f.val_idx.iter().map(|i| 100 + i).collect()).collect();
    assert_eq!(collect_oof(10, 42, &folds, &outputs, 0), (100..110).collect::<Vec<_>>());
    let mut into = vec![0; 10];
    scatter(&mut into, &folds[0], &outputs[0]);
    assert_eq!(into.iter().filter(|v| **v != 0).count(), folds[0].val_idx.len());
}

fn text(s: &str) -> Cell {
    Cell::Text(s.to_string())
}

#[test]
fn plans_of_predictions() {
    let y = vec![text("b"), text("a"), text("b"), text("c")];
    let p = EnsembleParams::default().with_n_estimators(5).with_multiclass_calibration(true);
    let plan = plan_classification(&y, 3, &p);
    assert_eq!(plan.codes, vec![1, 0, 1, 2]);
    assert_eq!(plan.configs.len(), 5);
    assert!(plan.calibrates && plan.needs_oof);
    let two = plan_classification(&y[..2], 3, &p);
    assert!(!two.calibrates && !two.needs_oof);
    assert!(plan_classification(&y[..2], 3, &EnsembleParams::default().with_enable_nnls(true)).needs_oof);
    assert_eq!(plan_regression(9, 3, &p).len(), 5);
}

#[test]
fn most_probable_labels() {
    let enc = LabelEncoder::fit(&[text("x"), text("y"), text("z")]);
    let probs = vec![bits(&[0.1, 0.6, 0.3]), bits(&[0.4, 0.4, 0.2]), bits(&[f64::NAN, 0.2, 0.1])];
    assert_eq!(predicted_labels(&probs, &enc), vec!["y".to_string(), "x".to_string(), "y".to_string()]);
    assert!(predicted_labels(&Vec::new(), &LabelEncoder::fit(&[])).is_empty());
}

#[test]
fn default_parameters() {
    let p = EnsembleParams::default();
    assert_eq!((p.n_estimators, p.num_folds_for_cv, p.random_state, p.batch_size), (32, 5, 42, None));
    assert_eq!(f64::from_bits(p.softmax_temperature), 0.9);
    assert_eq!(f64::from_bits(p.outlier_threshold), 4.0);
    assert_eq!(f64::from_bits(p.nnls_beta), 0.75);
}

#[test]
fn orders_of_doubles() {
    let v = [f64::NAN, -0.0, 0.0, f64::NEG_INFINITY, 1.5, -2.0];
    for a in v {
        for b in v {
            assert_eq!(total_less(a.to_bits(), b.to_bits()), a.total_cmp(&b).is_lt());
            assert_eq!(is_greater(a.to_bits(), b.to_bits()), a > b);
        }
        assert_eq!(is_nan(a.to_bits()), a.is_nan());
        assert_eq!(is_finite(a.to_bits()), a.is_finite());
    }
    assert_eq!(stable_order(&bits(&[2.0, 1.0, 2.0, f64::NAN])), vec![1, 0, 2, 3]);
    assert_eq!(first_least(&bits(&[1.0, 0.5, 0.5]), &[true, false, true]), Some(2));
    assert_eq!(first_greatest(&bits(&[1.0, 3.0, 3.0])), 1);
}
