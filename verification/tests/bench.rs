use zsfm::bench::cache::{key, Cache, CachedRun, EnsembleResult, Metrics, SoloResult};
use zsfm::bench::combine::{
    carry_of, combined_window, combo_weights, ensemble_plan, gather, has_weight, have_spread, middle, rank, rule_of,
    shared_windows, sorted_column, trimmed, Carry, ModelRun, Rule, Weights, NO_WEIGHT,
};
use zsfm::bench::data::{datasets, find, load_series, series_cells, trim, SeriesError};
use zsfm::bench::date::{civil_from_days, humantime_date};
use zsfm::bench::double::Double;
use zsfm::bench::ensemble::{abbrev, combinations, label, Method};
use zsfm::bench::model_id::ModelId;
use zsfm::bench::progress::{Progress, Weight};
use zsfm::bench::report::{
    best_solo, bold, change, context_phase, horizon_phase, latency, listed, main_phase, render, shown, solo_values, sweep_values,
    todo, winner, Config, Detail, Measure, ReportTables,
};
use zsfm::bench::rows::{details, dataset_detail, row_best, sweep_columns, sweep_row, table_rows, Axis, Cell, Table};
use zsfm::bench::setup::{
    chronos_context, loaded_order, missing_config, missing_weights, repo_dir, resolve_models, take_forecast, toto_context,
    ContextTooShort, Forecast, LevelPlaces,
};
use zsfm::bench::table::{join, md_table};
use zsfm::bench::windows::{
    collect_windows, linspace_int, plan_windows, window_result, Prediction, WindowPlan, WindowResult, NOT_A_NUMBER,
};

fn bits(v: &[f64]) -> Vec<u64> {
    v.iter().map(|x| x.to_bits()).collect()
}

fn values(v: &[u64]) -> Vec<f64> {
    v.iter().map(|x| f64::from_bits(*x)).collect()
}

fn texts(v: &[&str]) -> Vec<String> {
    v.iter().map(|s| s.to_string()).collect()
}

fn metrics(mae: f64) -> Metrics {
    Metrics { mae: mae.to_bits(), rmse: (2.0 * mae).to_bits(), mase: (3.0 * mae).to_bits() }
}

fn solo(mae: f64) -> SoloResult {
    SoloResult { metrics: metrics(mae), lat_ms: 7.5f64.to_bits(), errors: 0 }
}

#[test]
fn label_formats_combo_and_method() {
    assert_eq!(label(&[ModelId::Toto, ModelId::Chronos], "weighted"), "TC(w)");
}

#[test]
fn linspace_int_matches_numpy() {
    assert_eq!(linspace_int(0, 9, 5), vec![0, 2, 4, 6, 9]);
    assert_eq!(linspace_int(5, 5, 1), vec![5]);
    assert_eq!(linspace_int(3, 3, 4), vec![3, 3, 3, 3]);
}

#[test]
fn linspace_int_empty() {
    assert!(linspace_int(0, 10, 0).is_empty());
}

#[test]
fn linspace_reaches_its_ends() {
    for n in 2..60 {
        let s = linspace_int(7, 8, n);
        assert_eq!((s[0], s[n - 1]), (7, 8));
    }
    assert_eq!(linspace_int(-5, 5, 3), vec![0, 0, 5]);
    assert_eq!(linspace_int(-5, 5, 1), vec![0]);
}

#[test]
fn linspace_steps_in_double_precision() {
    let s = linspace_int(0, 3, 148);
    assert_eq!((s[48], s[49], s[50], s[147]), (0, 0, 1, 3));
    for (start, stop) in [(0i64, 3i64), (7, 1000), (512, 100_000), (1000, 7), (-40, 60), (3, i64::MAX - 9)] {
        for num in [2usize, 3, 10, 29, 50, 148, 1000] {
            let step = (stop - start) as f64 / (num - 1) as f64;
            let mut expected: Vec<usize> = (0..num).map(|i| (start as f64 + i as f64 * step).max(0.0) as usize).collect();
            expected[num - 1] = stop as usize;
            assert_eq!(linspace_int(start, stop, num), expected, "{start} {stop} {num}");
        }
    }
}

fn number(d: Double) -> f64 {
    d.mant as f64 * 2f64.powi(d.exp as i32 - 128)
}

#[test]
fn doubles_round_as_the_machine_does() {
    for a in [1u64, 3, 10, 1000, 12_345_678_901, (1 << 53) + 1, (1 << 53) + 3, u64::MAX] {
        for b in [1u64, 3, 7, 147, 1 << 40, (1 << 60) + 77] {
            let quotient = Double::of(a).over(Double::of(b));
            assert_eq!(number(quotient), a as f64 / b as f64);
            let product = Double::of(49).times(quotient);
            assert_eq!(number(product), 49.0 * (a as f64 / b as f64));
            assert_eq!(number(Double::of(b).plus(product)), b as f64 + number(product));
            assert_eq!(number(Double::of(b).minus(product)), (b as f64 - number(product)).max(0.0));
            assert_eq!(product.floor(), number(product) as usize);
        }
    }
}

#[test]
fn combinations_count_matches_binomial() {
    let items = [ModelId::Toto, ModelId::Chronos, ModelId::TimesFM, ModelId::Sundial];
    assert_eq!(combinations(&items, 2).len(), 6);
    assert_eq!(combinations(&items, 4).len(), 1);
    assert_eq!(combinations(&items, 1).len(), 4);
}

#[test]
fn combinations_are_order_preserving_subsets() {
    let items = [ModelId::Toto, ModelId::Chronos, ModelId::TimesFM];
    let combos = combinations(&items, 2);
    assert!(combos.contains(&vec![ModelId::Toto, ModelId::Chronos]));
    assert!(combos.contains(&vec![ModelId::Toto, ModelId::TimesFM]));
    assert!(combos.contains(&vec![ModelId::Chronos, ModelId::TimesFM]));
}

#[test]
fn median_of_three_models_picks_middle() {
    let (a, b) = middle(&bits(&[1.0, 5.0, 3.0]));
    assert_eq!((f64::from_bits(a) + f64::from_bits(b)) / 2.0, 3.0);
    assert_eq!(rule_of(Method::Median, 3, 0, &[]), Rule::Median);
}

#[test]
fn trim_drops_min_and_max() {
    let kept = values(&trimmed(&bits(&[1.0, 2.0, 3.0, 100.0])));
    let mean: f64 = kept.iter().sum::<f64>() / kept.len() as f64;
    assert!((mean - 2.5).abs() < 1e-9);
    assert_eq!(rule_of(Method::Trim, 4, 0, &[]), Rule::Trimmed);
}

#[test]
fn trim_falls_back_to_mean_below_three_models() {
    assert_eq!(rule_of(Method::Trim, 2, 0, &[]), rule_of(Method::Mean, 2, 0, &[]));
}

#[test]
fn rules_and_what_they_carry() {
    let errors = bits(&[3.0, 1.0, 1.0]);
    assert_eq!(rule_of(Method::Select, 3, 0, &errors), Rule::Mean);
    assert_eq!(rule_of(Method::Select, 3, 2, &errors), Rule::Chosen(1));
    assert_eq!(rule_of(Method::PerHoriz, 3, 1, &errors), Rule::PerStep);
    assert_eq!(rule_of(Method::Uncertain, 3, 1, &errors), Rule::Weighted(Weights::Spread));
    assert_eq!(carry_of(Method::Adaptive), Carry::ShrunkWeights);
    assert_eq!(carry_of(Method::Mean), Carry::Nothing);
    assert_eq!(have_spread(&[1.0f32.to_bits(), f32::NAN.to_bits(), f32::INFINITY.to_bits()]), vec![true, false, false]);
    assert_eq!(values(&sorted_column(&bits(&[2.0, -1.0, 0.5]))), vec![-1.0, 0.5, 2.0]);
    let (a, b) = middle(&bits(&[4.0, 1.0, 3.0, 2.0]));
    assert_eq!((f64::from_bits(a), f64::from_bits(b)), (2.0, 3.0));
}

#[test]
fn weights_of_a_combination() {
    let weights = vec![(ModelId::Toto, 2.0f64.to_bits())];
    assert_eq!(combo_weights(&weights, &[ModelId::Toto, ModelId::Ttm]), vec![2.0f64.to_bits(), NO_WEIGHT]);
    assert_eq!(f64::from_bits(NO_WEIGHT), 1e-9);
    assert!(has_weight(0.5f64.to_bits()));
    assert!(!has_weight(0.0f64.to_bits()));
    assert!(!has_weight(f64::NAN.to_bits()));
    assert!(!has_weight(f64::INFINITY.to_bits()));
}

#[test]
fn plans_come_from_the_windows_before() {
    let combo = [ModelId::Toto, ModelId::Ttm];
    let fixed = vec![(ModelId::Ttm, 3.0f64.to_bits())];
    let spreads = [0.5f32.to_bits(), f32::NAN.to_bits()];
    let one = Weight::Plain(1.0f64.to_bits());

    let mut p = Progress::new(Method::Select, 2, 3);
    assert_eq!((p.carried().len(), p.steps().len(), p.steps()[1].len()), (2, 2, 3));
    let first = p.plan(&fixed, &combo, &spreads);
    assert_eq!((first.rule, first.weights), (Rule::Mean, vec![one, one]));
    p.settle(bits(&[2.0, 1.5]), Vec::new());
    assert_eq!(p.plan(&fixed, &combo, &spreads).rule, Rule::Chosen(1));
    assert_eq!((values(p.carried()), p.steps().len()), (vec![2.0, 1.5], 2));

    let mut u = Progress::new(Method::Uncertain, 2, 3);
    u.settle(bits(&[4.0, 5.0]), Vec::new());
    assert_eq!(
        u.plan(&fixed, &combo, &spreads).weights,
        vec![Weight::InverseSpread(spreads[0]), Weight::Inverse(5.0f64.to_bits())]
    );

    let mut w = Progress::new(Method::Softmax, 2, 3);
    w.settle(bits(&[4.0, 5.0]), vec![bits(&[6.0])]);
    let plan = w.plan(&fixed, &combo, &spreads);
    assert_eq!((plan.rule, plan.weights), (Rule::Softmax, vec![Weight::Plain(NO_WEIGHT), Weight::Plain(3.0f64.to_bits())]));
    assert_eq!((values(w.carried()), w.steps().len()), (vec![1.0, 1.0], 2));

    let mut h = Progress::new(Method::PerHoriz, 2, 3);
    assert_eq!(h.plan(&fixed, &combo, &spreads).rule, Rule::Mean);
    h.settle(bits(&[4.0, 5.0]), vec![bits(&[6.0]), bits(&[7.0])]);
    assert_eq!(h.plan(&fixed, &combo, &spreads).rule, Rule::PerStep);
    assert_eq!((values(h.carried()), values(&h.steps()[1])), (vec![1.0, 1.0], vec![7.0]));
}

#[test]
fn a_plan_does_not_know_its_own_window() {
    let combo = [ModelId::Toto, ModelId::Ttm];
    let spreads = [f32::NAN.to_bits(); 2];
    for method in [Method::Online, Method::Adaptive, Method::Smooth, Method::Select, Method::Uncertain] {
        let mut a = Progress::new(method, 2, 1);
        let mut b = Progress::new(method, 2, 1);
        a.settle(bits(&[0.5, 2.0]), Vec::new());
        b.settle(bits(&[0.5, 2.0]), Vec::new());
        let (x, y) = (a.plan(&Vec::new(), &combo, &spreads), b.plan(&Vec::new(), &combo, &spreads));
        assert_eq!((x.rule, x.weights), (y.rule, y.weights));
        a.settle(bits(&[9.0, 1.0]), Vec::new());
        b.settle(bits(&[1.0, 9.0]), Vec::new());
        let (x, y) = (a.plan(&Vec::new(), &combo, &spreads), b.plan(&Vec::new(), &combo, &spreads));
        assert_ne!((x.rule, x.weights), (y.rule, y.weights));
    }
}

fn window(v: u32) -> WindowResult {
    WindowResult { point: vec![v], truth: vec![v + 1], context: vec![v + 2, v + 3], iqr: v + 4 }
}

#[test]
fn windows_that_all_models_have() {
    let all = vec![
        ModelRun { id: ModelId::Toto, windows: vec![Some(window(10)), None, Some(window(30))] },
        ModelRun { id: ModelId::Ttm, windows: vec![Some(window(100)), Some(window(200)), Some(window(300))] },
    ];
    let combo = [ModelId::Ttm, ModelId::Toto];
    assert_eq!(shared_windows(&all, &combo), vec![0, 2]);
    let g = gather(&all, &combo, 2);
    assert_eq!(g.points, vec![vec![300], vec![30]]);
    assert_eq!(g.spreads, vec![304, 34]);
    let w = combined_window(g, vec![5]);
    assert_eq!((w.point, w.truth, w.context, w.iqr), (vec![5], vec![301], vec![302, 303], NOT_A_NUMBER));
}

#[test]
fn ensembles_to_run_and_their_ranking() {
    let order = [ModelId::Toto, ModelId::Chronos, ModelId::Ttm];
    let plan = ensemble_plan(&order, &order.to_vec());
    assert_eq!(plan.len(), 3 * 11 + 12);
    let alone = ensemble_plan(&order, &vec![ModelId::Toto]);
    assert!(alone.len() < plan.len());
    assert!(alone.iter().all(|e| e.method != Method::Weighted));
    let result = |name: &str, mae: f64| EnsembleResult { name: name.to_string(), metrics: metrics(mae) };
    let ranked = rank(&vec![result("a", f64::NAN), result("b", 2.0), result("c", 1.0), result("d", 2.0)]);
    assert_eq!(ranked.iter().map(|e| e.name.as_str()).collect::<Vec<_>>(), vec!["c", "b", "d", "a"]);
}

#[test]
fn windows_lie_behind_the_training_rows() {
    let plans = plan_windows(100, 20, 30, 5, 4);
    let starts: Vec<usize> = plans.iter().map(|p| p.unwrap().start).collect();
    assert_eq!(starts, vec![80, 84, 89, 94]);
    assert_eq!(plans[0], Some(WindowPlan { context_start: 50, start: 80 }));
    assert!(plan_windows(10, 4, 3, 8, 2).iter().all(|p| p.is_none()));
    assert!(plan_windows(10, 10, 3, 1, 1)[0].is_none());
}

#[test]
fn short_forecasts_count_as_errors() {
    let series: Vec<u32> = (0..20).collect();
    let plan = Some(WindowPlan { context_start: 3, start: 6 });
    let made = |n: u32| Some(Prediction { point: (0..n).collect(), iqr: None });
    let w = window_result(&series, 2, &plan, &made(3)).unwrap();
    assert_eq!((w.point, w.truth, w.context, w.iqr), (vec![0, 1], vec![6, 7], vec![3, 4, 5], NOT_A_NUMBER));
    let run = collect_windows(&series, 2, &vec![plan, plan, None, plan], &vec![made(2), made(1), made(2), None]);
    assert_eq!(run.errors, 3);
    assert_eq!(run.windows.iter().map(|w| w.is_some()).collect::<Vec<_>>(), vec![true, false, false, false]);
}

#[test]
fn model_names() {
    let all = ModelId::all();
    assert_eq!(all.len(), 11);
    for m in &all {
        assert_eq!(ModelId::parse(m.as_str()), Some(*m));
    }
    assert_eq!(ModelId::parse("none"), None);
    assert_eq!(ModelId::Toto.letter(), 'T');
    assert_eq!(repo_dir(ModelId::Toto), ModelId::Toto.repo_id().replace('/', "__"));
}

#[test]
fn method_names() {
    let all = Method::all();
    assert_eq!(all.len(), 12);
    for m in &all {
        assert_eq!(Method::parse(m.as_str()), Some(*m));
    }
    assert_eq!(Method::parse("none"), None);
    assert_eq!(abbrev("weighted"), "w");
}

#[test]
fn datasets_by_name() {
    assert_eq!(datasets().len(), 21);
    let d = find("co2").unwrap();
    assert_eq!((d.file, d.col, d.test_rows, d.freq, d.domain), ("co2_weekly.csv", "value", 300, "1w", "Climate"));
    assert!(find("none").is_none());
}

#[test]
fn series_of_a_table() {
    let spec = find("ETTh1").unwrap();
    let csv = b"date,OT\n1, 2.5 \n2,\n3,\"7\"\n4,  \n5,-1e3\n";
    let s = load_series(csv, &spec).unwrap();
    assert_eq!(s.cells, texts(&["2.5", "7", "-1e3"]));
    assert!(s.refused.is_none());
    let torn = load_series(b"date,OT\n1,2\n3\n4,5\n", &spec).unwrap();
    assert_eq!(torn.cells, texts(&["2"]));
    assert!(torn.refused.is_some());
    assert!(matches!(load_series(b"date,value\n1,2\n", &spec), Err(SeriesError::NoColumn)));
    assert!(matches!(load_series(b"\xff,OT\n1,2\n", &spec), Err(SeriesError::Headers { .. })));
    assert_eq!(trim("\u{a0} x y\t\n"), "x y");
    assert_eq!(series_cells(&texts(&["a"]), &vec![texts(&["1"]), texts(&[])], "a"), Some(texts(&["1"])));
    assert_eq!(series_cells(&texts(&["a"]), &vec![], "b"), None);
}

#[test]
fn days_become_dates() {
    assert_eq!(civil_from_days(0), (1970, 1, 1));
    assert_eq!(civil_from_days(19_782), (2024, 2, 29));
    assert_eq!(civil_from_days(11_016), (2000, 2, 29));
    assert_eq!(humantime_date(951_782_400), "2000-02-29");
    assert_eq!(humantime_date(1_709_251_199), "2024-02-29");
    assert_eq!(humantime_date(1_709_251_200), "2024-03-01");
    assert_eq!(humantime_date(4_107_542_400), "2100-03-01");
}

#[test]
fn cached_runs_by_key() {
    assert_eq!(key("co2", 512, 96, 20), "co2:ctx512:h96:w20");
    let run = |n: usize| CachedRun { series_len: n, test_rows: 1, solo: vec![("toto".to_string(), solo(1.0))], ensembles: vec![] };
    let mut c = Cache::new();
    c.insert("b".to_string(), run(1));
    c.insert("a".to_string(), run(2));
    c.insert("b".to_string(), run(3));
    assert_eq!(c.len(), 2);
    assert_eq!(c.get("b").unwrap().series_len, 3);
    assert!(c.get("c").is_none());
    assert_eq!((c.entry(0).0, c.entry(1).0), ("b", "a"));
    assert_eq!(c.get("a").unwrap().solo_of("toto"), Some(solo(1.0)));
    assert_eq!(c.get("a").unwrap().solo_of("ttm"), None);
}

#[test]
fn what_a_report_runs() {
    assert_eq!(main_phase(20).len(), 21);
    assert_eq!(horizon_phase(5).len(), 84);
    assert_eq!(context_phase(5).len(), 84);
    assert_eq!(horizon_phase(5)[4].dataset, "ETTh2");
    let configs = vec![
        Config { dataset: "co2", context: 1, horizon: 2, windows: 3 },
        Config { dataset: "ili", context: 1, horizon: 2, windows: 3 },
    ];
    let mut c = Cache::new();
    c.insert(key("co2", 1, 2, 3), CachedRun { series_len: 1, test_rows: 1, solo: vec![], ensembles: vec![] });
    let left = todo(&c, &configs);
    assert_eq!(left.len(), 1);
    assert_eq!(left[0].dataset, "ili");
}

#[test]
fn best_numbers() {
    let raw = bits(&[f64::NAN, 2.0, 1.0, 1.0]);
    assert_eq!(winner(&raw), Some(2));
    assert_eq!(best_solo(&bits(&[f64::INFINITY, 3.0])), Some(1));
    assert_eq!(winner(&bits(&[f64::NAN])), None);
    assert_eq!(row_best(&raw).map(f64::from_bits), Some(1.0));
    let run = CachedRun { series_len: 1, test_rows: 1, solo: vec![("ttm".to_string(), solo(4.0))], ensembles: vec![] };
    let order = [ModelId::Toto, ModelId::Ttm];
    let v = solo_values(&run, &order, Measure::Mase);
    assert!(f64::from_bits(v[0]).is_nan());
    assert_eq!(f64::from_bits(v[1]), 12.0);
    let mut c = Cache::new();
    c.insert(key("co2", 512, 48, 5), run);
    assert_eq!(values(&sweep_values(&c, ModelId::Ttm, 512, 48, 5)), vec![12.0]);
    assert!(sweep_values(&c, ModelId::Toto, 512, 48, 5).is_empty());
}

#[test]
fn cells_of_the_report() {
    assert_eq!(shown(f64::NAN.to_bits(), "NaN"), "—");
    assert_eq!(shown(1.0f64.to_bits(), "1.000"), "1.000");
    assert_eq!(latency(f64::INFINITY.to_bits(), "inf", "ms"), "—");
    assert_eq!(latency(7.0f64.to_bits(), "7", "ms"), "7ms");
    assert_eq!(bold("x", true), "**x**");
    assert_eq!(bold("x", false), "x");
    assert_eq!(change((-1.0f64).to_bits(), "50.0"), "↓ 50.0%");
    assert_eq!(change(0.0f64.to_bits(), "0.0"), "↑ 0.0%");
    let many = CachedRun {
        series_len: 1,
        test_rows: 1,
        solo: vec![],
        ensembles: (0..12).map(|i| EnsembleResult { name: i.to_string(), metrics: metrics(1.0) }).collect(),
    };
    assert_eq!(listed(&many), 10);
}

fn said(row: &[Cell]) -> Vec<String> {
    row.iter()
        .map(|c| match c {
            Cell::Text(s) => s.clone(),
            Cell::Number { bits, decimals, best } => {
                let mark = if best == &Some(*bits) { "*" } else { "" };
                format!("{:.*}{mark}", *decimals, f64::from_bits(*bits))
            }
            Cell::Latency { bits, unit } => format!("{}{unit}", f64::from_bits(*bits)),
            Cell::Difference { of, from } => format!("{}-{}", f64::from_bits(*of), f64::from_bits(*from)),
            Cell::Change { of, from } => format!("{}/{}", f64::from_bits(*of), f64::from_bits(*from)),
        })
        .collect()
}

#[test]
fn rows_of_the_report() {
    let ensembles: Vec<EnsembleResult> =
        (0..12).map(|i| EnsembleResult { name: format!("e{i}"), metrics: metrics(1.0 + i as f64) }).collect();
    let both = vec![("toto".to_string(), solo(4.0)), ("ttm".to_string(), solo(2.0))];
    let one = vec![("ttm".to_string(), solo(3.0))];
    let mut c = Cache::new();
    c.insert(key("co2", 512, 96, 5), CachedRun { series_len: 9, test_rows: 3, solo: both, ensembles });
    c.insert(key("ili", 512, 96, 5), CachedRun { series_len: 8, test_rows: 2, solo: one, ensembles: vec![] });
    let order = [ModelId::Toto, ModelId::Ttm];

    let rows = table_rows(Table::Mae, &c, &order, 5);
    assert_eq!(rows.len(), 2);
    assert_eq!(said(&rows[0]), texts(&["co2", "1w", "Climate", "4.0000", "2.0000*", "ttm"]));
    assert_eq!(said(&rows[1]), texts(&["ili", "1w", "Health", "NaN", "3.0000*", "ttm"]));
    let rows = table_rows(Table::Mase, &c, &order, 5);
    assert_eq!(said(&rows[0]), texts(&["co2", "12.000", "6.000*", "ttm"]));
    let best = table_rows(Table::Best, &c, &order, 5);
    assert_eq!(best.len(), 1);
    assert_eq!(said(&best[0]), texts(&["co2", "ttm", "2.0000", "e0", "1.0000", "1-2", "1/2"]));
    assert_eq!(table_rows(Table::Latency, &c, &order, 5)[1].len(), 3);
    assert!(table_rows(Table::Mae, &c, &order, 6).is_empty());

    let d = details(&c, &order, 5);
    assert_eq!((d[0].spec.name, d[0].series_len, d[0].test_rows), ("co2", 9, 3));
    assert_eq!((d[0].solo.len(), d[0].ensembles.len()), (2, 10));
    assert_eq!(said(&d[0].solo[1])[..2], texts(&["ttm", "2.0000*"])[..]);
    assert_eq!(said(&d[0].ensembles[2])[4], "3-2");
    assert_eq!((d[1].solo.len(), d[1].ensembles.len()), (1, 0));
    let nobody = dataset_detail(&d[1].spec, &CachedRun { series_len: 1, test_rows: 1, solo: vec![], ensembles: vec![EnsembleResult { name: "e".to_string(), metrics: metrics(1.0) }] }, &order);
    assert_eq!(said(&nobody.ensembles[0])[4], "1-inf");
}

#[test]
fn sweeps_of_the_report() {
    let run = |v: f64| CachedRun { series_len: 1, test_rows: 1, solo: vec![("ttm".to_string(), solo(v))], ensembles: vec![] };
    let mut c = Cache::new();
    c.insert(key("co2", 512, 192, 5), run(1.0));
    c.insert(key("ili", 512, 192, 5), run(2.0));
    c.insert(key("co2", 1024, 96, 5), run(f64::INFINITY));
    let h: Vec<Vec<f64>> = sweep_columns(&c, ModelId::Ttm, Axis::Horizon, 5).iter().map(|v| values(v)).collect();
    assert_eq!(h, vec![vec![], vec![3.0, 6.0], vec![], vec![]]);
    assert_eq!(sweep_columns(&c, ModelId::Ttm, Axis::Context, 5), vec![Vec::<u64>::new(); 4]);
    let row = sweep_row(ModelId::Ttm, &bits(&[f64::NAN, 4.5, 3.0, 3.5]));
    assert_eq!(said(&row), texts(&[ModelId::Ttm.label(), "NaN", "4.500", "3.000*", "3.500"]));
    assert_eq!(row_best(&bits(&[f64::INFINITY, f64::NAN])), None);
}

#[test]
fn tables_in_markdown() {
    assert_eq!(join(&texts(&["a", "b", "c"]), " | "), "a | b | c");
    let t = md_table(&texts(&["h", "i"]), &vec![texts(&["1", "2"])]);
    let lines: Vec<&str> = t.lines().collect();
    assert_eq!(lines.len(), 3);
    assert!(lines[0].contains("h") && lines[2].contains("2"));
}

#[test]
fn report_in_full() {
    let tables = ReportTables {
        mae: vec![texts(&["co2", "1w", "Climate", "1.000", "toto"])],
        mase: vec![],
        latency: vec![],
        best: vec![],
        by_horizon: vec![],
        by_context: vec![],
        details: vec![Detail {
            name: "co2".to_string(),
            freq: "1w".to_string(),
            domain: "Climate".to_string(),
            series_len: 2000,
            test_rows: 300,
            solo: vec![],
            ensembles: vec![],
        }],
    };
    let r = render("2024-02-29", 20, 5, &[ModelId::Toto], &tables);
    assert!(r.contains("2024-02-29"));
    assert!(r.contains("| co2 | 1w | Climate | 1.000 | toto |"));
    assert!(r.contains("2000"));
}

#[test]
fn models_that_are_asked_for() {
    assert_eq!(resolve_models(&None).unwrap().len(), 11);
    assert_eq!(resolve_models(&Some(texts(&["ttm", "toto"]))).unwrap(), vec![ModelId::Ttm, ModelId::Toto]);
    assert_eq!(resolve_models(&Some(texts(&["ttm", "x", "y"]))).unwrap_err().name, "x");
    assert_eq!(
        loaded_order(&vec![ModelId::Toto, ModelId::Ttm, ModelId::Moment], &vec![ModelId::Moment, ModelId::Toto]),
        vec![ModelId::Toto, ModelId::Moment]
    );
    assert!(missing_weights(ModelId::Ttm, "p").starts_with("no cached F32 GGUF for ttm at p — run `zsfm ttm convert` first"));
    assert!(missing_config(ModelId::Ttm, "p").starts_with("missing p — "));
}

#[test]
fn contexts_of_whole_patches() {
    assert_eq!(toto_context(100, 32), Ok(4));
    assert_eq!(toto_context(5000, 32), Ok(5000 - 4096));
    let short = toto_context(31, 32).unwrap_err();
    assert_eq!(short, ContextTooShort::Toto { patch_size: 32 });
    assert_eq!(short.message(), "context too short for toto (patch_size=32)");
    assert_eq!(chronos_context(100, 16, 16, 2048), Ok(4));
    assert_eq!(
        chronos_context(15, 16, 8, 2048).unwrap_err().message(),
        "context too short for chronos (need >= 16, got 8)"
    );
}

#[test]
fn taking_of_forecasts() {
    let rows = |n: u32| -> Vec<Vec<u32>> { (0..n).map(|i| vec![i, 10 + i, 20 + i]).collect() };
    let none = LevelPlaces { low: None, half: None, high: None, count: 0 };
    let take = |id: ModelId, n: u32, levels: LevelPlaces, horizon: usize| {
        let taken = take_forecast(id, &Forecast { rows: rows(n), mean: vec![7, 8] }, levels, horizon);
        (taken.point, taken.bounds.map(|(low, high)| (low[0], high[0])))
    };
    assert_eq!(take(ModelId::Toto, 9, none, 3), (vec![4, 14, 24], Some((0, 8))));

    let levels = LevelPlaces { low: Some(1), half: Some(3), high: Some(5), count: 7 };
    assert_eq!(take(ModelId::Chronos, 7, levels, 3), (vec![3, 13, 23], Some((1, 5))));
    let no_half = LevelPlaces { low: None, half: None, high: Some(2), count: 5 };
    assert_eq!(take(ModelId::FlowState, 5, no_half, 3), (vec![2, 12, 22], None));

    assert_eq!(take(ModelId::TimesFM, 10, none, 3), (vec![0, 10, 20], Some((1, 9))));
    assert_eq!(take(ModelId::TimesFM, 9, none, 3), (vec![0, 10, 20], None));
    assert_eq!(take(ModelId::TimesFM, 0, none, 3), (vec![], None));
    assert_eq!(take(ModelId::Tirex, 9, none, 3), (vec![7, 8], Some((0, 8))));
    assert_eq!(take(ModelId::Tirex, 8, none, 3), (vec![7, 8], None));

    for id in [ModelId::Sundial, ModelId::Ttm] {
        assert_eq!(take(id, 1, none, 2), (vec![0, 10], None));
        assert_eq!(take(id, 1, none, 5), (vec![0, 10, 20], None));
    }
    for id in [ModelId::LagLlama, ModelId::Moment, ModelId::Moirai, ModelId::Moirai2] {
        assert_eq!(take(id, 1, none, 2), (vec![0, 10, 20], None));
    }
}
