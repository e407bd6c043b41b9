use zsfm::ensemble::brent::{Bracket, Next, Place, Point, Search};
use zsfm::ensemble::config_gen::NormMethod;
use zsfm::ensemble::pipeline::{locate, quantile_count, raise, stages, Among, Stage, MAX_QUANTILES};
use zsfm::float_bits::{is_at_most, is_equal, INFINITY, NAN};

fn point(x: f64, f: f64) -> Point {
    Point { x: x.to_bits(), f: f.to_bits() }
}

fn bits(v: &[f64]) -> Vec<u64> {
    v.iter().map(|x| x.to_bits()).collect()
}

#[test]
fn numbers_compare_by_their_bits() {
    let values = [-2.5, -0.0, 0.0, 1e-300, 3.0, f64::INFINITY, f64::NAN];
    for a in values {
        for b in values {
            assert_eq!(is_at_most(a.to_bits(), b.to_bits()), a <= b);
            assert_eq!(is_equal(a.to_bits(), b.to_bits()), a == b);
        }
    }
    assert!(!is_at_most(NAN, INFINITY));
}

#[test]
fn the_higher_point_comes_first() {
    let (p, q) = (point(0.0, 1.0), point(1.0, 2.0));
    assert_eq!(Bracket::order(p, q), (q, p));
    assert_eq!(Bracket::order(q, p), (q, p));
}

#[test]
fn a_walk_ends_around_its_lowest_point() {
    let start = Bracket { a: point(0.0, 9.0), b: point(1.0, 5.0), c: point(2.6, 3.0) };
    assert!(start.is_falling());

    let mut s = start;
    let u = point(2.0, 1.0);
    assert_eq!(s.judge(Place::Between, u), Next::Done);
    assert_eq!(s, Bracket { a: start.b, b: u, c: start.c });

    let mut s = start;
    let u = point(2.0, 6.0);
    assert_eq!(s.judge(Place::Between, u), Next::Done);
    assert_eq!(s, Bracket { a: start.a, b: start.b, c: u });

    let mut s = start;
    assert_eq!(s.judge(Place::Between, point(2.0, 4.0)), Next::Stride);
    assert_eq!(s, start);
    s.take_point(point(5.0, 7.0));
    assert_eq!(s, Bracket { a: start.b, b: start.c, c: point(5.0, 7.0) });
    assert!(!s.is_falling());
}

#[test]
fn a_walk_goes_on_ahead() {
    let start = Bracket { a: point(0.0, 9.0), b: point(1.0, 5.0), c: point(2.6, 3.0) };
    let mut s = start;
    let u = point(4.0, 2.0);
    assert_eq!(s.judge(Place::Ahead, u), Next::Stride);
    assert_eq!(s, Bracket { a: start.a, b: start.c, c: u });
    for place in [Place::Ahead, Place::Limit, Place::Step] {
        let mut s = start;
        let u = point(4.0, 4.0);
        assert_eq!(s.judge(place, u), Next::Walk);
        assert_eq!(s, Bracket { a: start.b, b: start.c, c: u });
    }
}

#[test]
fn a_search_closes_in_on_its_best_point() {
    let bracket = Bracket { a: point(5.0, 4.0), b: point(2.0, 1.0), c: point(0.0, 3.0) };
    let mut s = Search::new(&bracket, 1.0f64.to_bits());
    assert_eq!((s.low, s.high), (0.0f64.to_bits(), 5.0f64.to_bits()));
    let first = point(2.0, 1.0);
    assert_eq!((s.best, s.second, s.third), (first, first, first));

    let better = point(3.0, 0.5);
    s.narrow(better);
    assert_eq!((s.low, s.high), (2.0f64.to_bits(), 5.0f64.to_bits()));
    assert_eq!((s.best, s.second, s.third), (better, first, first));

    let worse = point(4.0, 2.0);
    s.narrow(worse);
    assert_eq!(s.high, 4.0f64.to_bits());
    assert_eq!((s.best, s.second, s.third), (better, first, worse));

    let middling = point(2.5, 0.75);
    s.narrow(middling);
    assert_eq!(s.low, 2.5f64.to_bits());
    assert_eq!((s.best, s.second, s.third), (better, middling, first));

    s.narrow(point(3.5, 8.0));
    assert_eq!((s.low, s.high), (2.5f64.to_bits(), 3.5f64.to_bits()));
    assert_eq!((s.best, s.second, s.third), (better, middling, first));
}

#[test]
fn columns_are_prepared_in_stages() {
    assert_eq!(stages(NormMethod::Identity), vec![Stage::CustomStandard, Stage::Outliers]);
    assert_eq!(stages(NormMethod::Power), vec![Stage::CustomStandard, Stage::Power, Stage::Outliers]);
    assert_eq!(stages(NormMethod::Quantile), vec![Stage::CustomStandard, Stage::Quantile, Stage::Outliers]);
    assert_eq!(stages(NormMethod::Robust), vec![Stage::CustomStandard, Stage::Robust, Stage::Outliers]);
    assert_eq!(
        stages(NormMethod::QuantileRtdl),
        vec![Stage::CustomStandard, Stage::Noise, Stage::Quantile, Stage::Standard, Stage::Outliers]
    );
}

#[test]
fn quantiles_are_counted_and_raised() {
    assert_eq!(quantile_count(0), 1);
    assert_eq!(quantile_count(7), 7);
    assert_eq!(quantile_count(5000), MAX_QUANTILES);
    assert_eq!(raise(&bits(&[1.0, 0.5, 2.0, 1.5])), bits(&[1.0, 1.0, 2.0, 2.0]));
    assert_eq!(raise(&[]), Vec::<u64>::new());
}

#[test]
fn values_are_located_among_quantiles() {
    let xs = bits(&[0.0, 1.0, 1.0, 4.0]);
    assert_eq!(locate((-1.0f64).to_bits(), &xs), Among::First);
    assert_eq!(locate(0.0f64.to_bits(), &xs), Among::First);
    assert_eq!(locate(0.5f64.to_bits(), &xs), Among::Between(0));
    assert_eq!(locate(1.0f64.to_bits(), &xs), Among::Between(2));
    assert_eq!(locate(3.0f64.to_bits(), &xs), Among::Between(2));
    assert_eq!(locate(4.0f64.to_bits(), &xs), Among::Last);
}
