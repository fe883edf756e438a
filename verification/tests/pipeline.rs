use arrsac::Arrsac;
use homography::consensus::ConsensusConfig;
use homography::estimator::HomographyEstimator;
use homography::fit::{advance, FitAction, FitEvent, FitStage};
use homography::kernel::{FitError, Spreads};
use homography::matrix::HomographyMatrix;
use homography::residual::residual;
use nalgebra::{Matrix3, Point2, SMatrix};
use rand::{Rng, SeedableRng};
use rand_pcg::Pcg64;
use sample_consensus::{Consensus, Estimator, Model};
use std::f64::consts::PI;

type Pair = (Point2<f64>, Point2<f64>);

/// The arithmetic of one fit: what the library asks for, computed on doubles.
struct Workspace<'a> {
    pairs: &'a [Pair],
    source_centre: Point2<f64>,
    destination_centre: Point2<f64>,
    source_spread: (f64, f64),
    destination_spread: (f64, f64),
    eigenvectors: SMatrix<f64, 9, 9>,
    matrix: Matrix3<f64>,
}

fn to_matrix(m: &HomographyMatrix) -> Matrix3<f64> {
    Matrix3::from_fn(|row, col| f64::from_bits(m.entry(row, col)))
}

fn to_bits(m: &Matrix3<f64>) -> HomographyMatrix {
    let mut entries = [0u64; 9];
    for row in 0..3 {
        for col in 0..3 {
            entries[3 * row + col] = m[(row, col)].to_bits();
        }
    }
    HomographyMatrix::from_row_major(entries)
}

impl<'a> Workspace<'a> {
    fn new(pairs: &'a [Pair]) -> Self {
        Workspace {
            pairs,
            source_centre: Point2::origin(),
            destination_centre: Point2::origin(),
            source_spread: (0.0, 0.0),
            destination_spread: (0.0, 0.0),
            eigenvectors: SMatrix::zeros(),
            matrix: Matrix3::zeros(),
        }
    }

    fn measure(&mut self) -> Spreads {
        let count = self.pairs.len() as f64;
        let (mut c1, mut c2): (Point2<f64>, Point2<f64>) = (Point2::origin(), Point2::origin());
        for (a, b) in self.pairs {
            c1.x += a.x;
            c1.y += a.y;
            c2.x += b.x;
            c2.y += b.y;
        }
        c1.x /= count;
        c1.y /= count;
        c2.x /= count;
        c2.y /= count;
        let (mut s1, mut s2): ((f64, f64), (f64, f64)) = ((0.0, 0.0), (0.0, 0.0));
        for (a, b) in self.pairs {
            s1.0 += (c1.x - a.x).abs();
            s1.1 += (c1.y - a.y).abs();
            s2.0 += (c2.x - b.x).abs();
            s2.1 += (c2.y - b.y).abs();
        }
        self.source_centre = c1;
        self.destination_centre = c2;
        self.source_spread = (s1.0 / count, s1.1 / count);
        self.destination_spread = (s2.0 / count, s2.1 / count);
        Spreads {
            source_x: self.source_spread.0.to_bits(),
            source_y: self.source_spread.1.to_bits(),
            destination_x: self.destination_spread.0.to_bits(),
            destination_y: self.destination_spread.1.to_bits(),
        }
    }

    fn solve(&mut self) -> [u64; 9] {
        let (c1, c2) = (self.source_centre, self.destination_centre);
        let s1 = (1.0 / self.source_spread.0, 1.0 / self.source_spread.1);
        let s2 = (1.0 / self.destination_spread.0, 1.0 / self.destination_spread.1);
        let mut ltl: SMatrix<f64, 9, 9> = SMatrix::zeros();
        for (a, b) in self.pairs {
            let x1 = (a.x - c1.x) * s1.0;
            let y1 = (a.y - c1.y) * s1.1;
            let x2 = (b.x - c2.x) * s2.0;
            let y2 = (b.y - c2.y) * s2.1;
            let lx = [x1, y1, 1., 0., 0., 0., -x2 * x1, -x2 * y1, -x2];
            let ly = [0., 0., 0., x1, y1, 1., -y2 * x1, -y2 * y1, -y2];
            for j in 0..9 {
                for k in 0..9 {
                    ltl[(j, k)] += lx[j] * lx[k] + ly[j] * ly[k];
                }
            }
        }
        ltl.fill_lower_triangle_with_upper_triangle();
        let eigen = ltl.symmetric_eigen();
        self.eigenvectors = eigen.eigenvectors;
        let mut eigenvalues = [0u64; 9];
        for i in 0..9 {
            eigenvalues[i] = eigen.eigenvalues[i].to_bits();
        }
        eigenvalues
    }

    fn denormalize(&mut self, column: usize) -> HomographyMatrix {
        let (c1, c2) = (self.source_centre, self.destination_centre);
        let mut components = [0u64; 9];
        for i in 0..9 {
            components[i] = self.eigenvectors[(i, column)].to_bits();
        }
        let h0 = to_matrix(&HomographyMatrix::from_row_major(components));
        let s1 = (1.0 / self.source_spread.0, 1.0 / self.source_spread.1);
        let inv_h_norm = Matrix3::new(
            self.destination_spread.0,
            0.,
            c2.x,
            0.,
            self.destination_spread.1,
            c2.y,
            0.,
            0.,
            1.,
        );
        let h_norm2 = Matrix3::new(s1.0, 0., -c1.x * s1.0, 0., s1.1, -c1.y * s1.1, 0., 0., 1.);
        self.matrix = (inv_h_norm * h0) * h_norm2;
        to_bits(&self.matrix)
    }

    fn rescale(&mut self) -> HomographyMatrix {
        self.matrix = self.matrix / self.matrix[(2, 2)];
        to_bits(&self.matrix)
    }
}

/// Runs one fit: the library decides, the workspace computes.
fn fit(pairs: &[Pair]) -> Result<HomographyMatrix, FitError> {
    let mut work = Workspace::new(pairs);
    let mut stage = FitStage::Counting;
    let mut event = FitEvent::Samples(pairs.len());
    loop {
        let (next, action) = advance(stage, event);
        stage = next;
        event = match action {
            FitAction::MeasureSpreads => FitEvent::Spreads(work.measure()),
            FitAction::SolveNormalSystem => FitEvent::Eigenvalues(work.solve()),
            FitAction::Denormalize { column } => FitEvent::Denormalized(work.denormalize(column)),
            FitAction::Rescale => FitEvent::Rescaled(work.rescale()),
            FitAction::Stop => break,
        };
    }
    match stage.outcome() {
        Some(outcome) => outcome,
        None => unreachable!(),
    }
}

fn find_homography(pairs: &[Pair]) -> Result<Matrix3<f64>, FitError> {
    fit(pairs).map(|m| to_matrix(&m))
}

#[derive(Debug, Clone, Copy, PartialEq)]
struct Homography(Matrix3<f64>);

impl Model<Pair> for Homography {
    fn residual(&self, data: &Pair) -> f64 {
        let (a, b) = data;
        let mapped = self.0 * a.to_homogeneous();
        let distance = match Point2::from_homogeneous(mapped) {
            Some(b2) => nalgebra::distance_squared(b, &b2),
            None => f64::NAN,
        };
        f64::from_bits(residual(mapped.z.to_bits(), distance.to_bits()))
    }
}

struct MinimalEstimator;

impl Estimator<Pair> for MinimalEstimator {
    type Model = Homography;
    type ModelIter = Option<Homography>;
    const MIN_SAMPLES: usize = HomographyEstimator::MIN_SAMPLES;

    fn estimate<I>(&self, data: I) -> Self::ModelIter
    where
        I: Iterator<Item = Pair> + Clone,
    {
        let sample: Vec<Pair> = data.take(Self::MIN_SAMPLES).collect();
        let library = HomographyEstimator {};
        library.estimate(fit(&sample)).map(|m| Homography(to_matrix(&m)))
    }
}

fn find_homography_robust(pairs: &[Pair], inlier_threshold: f64, seed: [u8; 32]) -> Option<Homography> {
    let config = ConsensusConfig { inlier_threshold: inlier_threshold.to_bits(), seed };
    if !config.admits(pairs.len()) {
        return None;
    }
    let mut arrsac = Arrsac::new(f64::from_bits(config.inlier_threshold), Pcg64::from_seed(config.seed));
    arrsac.model(&MinimalEstimator, pairs.iter().cloned())
}

fn find_homography_with_arrsac(pairs: &[Pair]) -> Option<Homography> {
    let config = ConsensusConfig::standard();
    find_homography_robust(pairs, f64::from_bits(config.inlier_threshold), config.seed)
}

struct TestData {
    matches: Vec<Pair>,
    h: Matrix3<f64>,
}

impl TestData {
    fn with<R: Rng>(rng: &mut R, match_count: usize) -> Self {
        let img_size = 100.0;
        let src: Vec<_> = (0..match_count)
            .map(|_| {
                Point2::new(rng.gen_range(0.0..img_size), rng.gen_range(0.0..img_size))
                    .to_homogeneous()
            })
            .collect();
        let fi = rng.gen_range(0.0..PI * 2.0);
        let tx = rng.gen_range(0.0..f64::sqrt(img_size));
        let ty = rng.gen_range(0.0..f64::sqrt(img_size));
        let h = Matrix3::new(
            f64::cos(fi), -f64::sin(fi), tx,
            f64::sin(fi), f64::cos(fi), ty,
            0.0, 0.0, 1.0
        );
        let matches = src
            .iter()
            .map(|a| {
                (
                    Point2::from_homogeneous(*a).unwrap(),
                    Point2::from_homogeneous(h * a).unwrap(),
                )
            })
            .collect();
        Self { matches, h }
    }

    fn new(match_count: usize) -> Self {
        Self::with(&mut rand::thread_rng(), match_count)
    }
}

fn max_abs_diff(a: &Matrix3<f64>, b: &Matrix3<f64>) -> f64 {
    (a - b).amax()
}

fn translation_by_two() -> Vec<Pair> {
    vec![
        (Point2::new(0.0, 0.0), Point2::new(0.0, 2.0)),
        (Point2::new(1.0, 1.0), Point2::new(1.0, 3.0)),
        (Point2::new(2.0, 4.0), Point2::new(2.0, 6.0)),
        (Point2::new(7.0, 3.0), Point2::new(7.0, 5.0)),
    ]
}

#[test]
fn it_works() {
    for _ in 0..24 {
        let TestData { matches, h: h_src } = TestData::new(48);
        let h = find_homography(&matches).unwrap();

        let max_diff = 0.000001;
        assert!(max_abs_diff(&h_src, &h) <= max_diff, "absolute difference is too large");
        assert!((h_src - h).norm() < max_diff, "L2 norm is too large");
    }
}

#[test]
fn recovers_the_transform_from_few_and_from_many_points() {
    let mut rng = Pcg64::from_seed([7; 32]);
    for count in [4, 5, 8, 16, 64, 256] {
        for _ in 0..8 {
            let TestData { matches, h: h_src } = TestData::with(&mut rng, count);
            let h = find_homography(&matches).unwrap();
            assert!(max_abs_diff(&h_src, &h) <= 1e-6, "{} points: {}", count, h);
            assert!((h_src - h).norm() < 1e-6, "{} points: {}", count, h);
        }
    }
}

#[test]
fn recovers_a_projective_transform() {
    let h_src = Matrix3::new(
        1.2, -0.3, 4.0,
        0.25, 0.9, -2.0,
        0.001, 0.002, 1.0,
    );
    let mut rng = Pcg64::from_seed([3; 32]);
    let matches: Vec<Pair> = (0..32)
        .map(|_| {
            let a = Point2::new(rng.gen_range(0.0..100.0), rng.gen_range(0.0..100.0));
            (a, Point2::from_homogeneous(h_src * a.to_homogeneous()).unwrap())
        })
        .collect();
    let h = find_homography(&matches).unwrap();
    assert!(max_abs_diff(&h_src, &h) <= 1e-6, "{}", h);
    assert!((h_src - h).norm() < 1e-6, "{}", h);
}

#[test]
fn vertical_translation_by_two() {
    let h = find_homography(&translation_by_two()).unwrap();
    let expected = Matrix3::new(
        1.0, 0.0, 0.0,
        0.0, 1.0, 2.0,
        0.0, 0.0, 1.0,
    );
    assert!(max_abs_diff(&h, &expected) <= 0.0001, "{}", h);
}

#[test]
fn a_fitted_matrix_is_finite_with_a_last_entry_of_exactly_one() {
    let m = fit(&translation_by_two()).unwrap();
    assert!(m.is_finite());
    assert!(m.is_normalized());
    assert_eq!(f64::from_bits(m.pivot()), 1.0);

    let mut rng = Pcg64::from_seed([11; 32]);
    for _ in 0..16 {
        let TestData { matches, .. } = TestData::with(&mut rng, 12);
        let h = find_homography(&matches).unwrap();
        assert_eq!(h[(2, 2)], 1.0);
        assert!(h.iter().all(|x| x.is_finite()));
    }
}

#[test]
fn source_points_on_a_vertical_line_are_degenerate() {
    let pairs = vec![
        (Point2::new(3.0, 0.0), Point2::new(0.0, 2.0)),
        (Point2::new(3.0, 1.0), Point2::new(1.0, 3.0)),
        (Point2::new(3.0, 4.0), Point2::new(2.0, 6.0)),
        (Point2::new(3.0, 3.0), Point2::new(7.0, 5.0)),
    ];
    assert_eq!(find_homography(&pairs), Err(FitError::DegenerateInput));

    for x in [0.1, -17.3, 1e6, 123456.789e3, 1e-9] {
        let pairs: Vec<Pair> = translation_by_two()
            .into_iter()
            .map(|(a, b)| (Point2::new(x, a.y), b))
            .collect();
        assert_eq!(find_homography(&pairs), Err(FitError::DegenerateInput), "x = {}", x);
    }
}

#[test]
fn points_that_do_not_spread_along_some_axis_are_degenerate() {
    let on_a_row: Vec<Pair> =
        translation_by_two().into_iter().map(|(a, b)| (Point2::new(a.x, 5.0), b)).collect();
    assert_eq!(find_homography(&on_a_row), Err(FitError::DegenerateInput));

    let to_a_column: Vec<Pair> =
        translation_by_two().into_iter().map(|(a, b)| (a, Point2::new(-2.0, b.y))).collect();
    assert_eq!(find_homography(&to_a_column), Err(FitError::DegenerateInput));

    let to_a_row: Vec<Pair> =
        translation_by_two().into_iter().map(|(a, b)| (a, Point2::new(b.x, 0.5))).collect();
    assert_eq!(find_homography(&to_a_row), Err(FitError::DegenerateInput));

    let coincident = vec![(Point2::new(1.0, 2.0), Point2::new(3.0, 4.0)); 6];
    assert_eq!(find_homography(&coincident), Err(FitError::DegenerateInput));
}

#[test]
fn fewer_than_four_correspondences_are_refused() {
    let all = translation_by_two();
    for count in 0..4 {
        assert_eq!(find_homography(&all[..count]), Err(FitError::InsufficientSamples));
        assert!(find_homography_with_arrsac(&all[..count]).is_none());
    }
}

#[test]
fn coordinates_that_are_no_numbers_are_refused() {
    for bad in [f64::NAN, f64::INFINITY, f64::NEG_INFINITY] {
        let mut pairs = translation_by_two();
        pairs[2].0.x = bad;
        assert_eq!(find_homography(&pairs), Err(FitError::NonFinite));
        let mut pairs = translation_by_two();
        pairs[1].1.y = bad;
        assert_eq!(find_homography(&pairs), Err(FitError::NonFinite));
    }
}

#[test]
fn residual_against_the_generating_transform_is_zero() {
    let mut rng = Pcg64::from_seed([5; 32]);
    let TestData { matches, h } = TestData::with(&mut rng, 48);
    let exact = Homography(h);
    for pair in &matches {
        let r = exact.residual(pair);
        assert!(r >= 0.0 && r <= 1e-9, "{}", r);
    }
    let fitted = Homography(find_homography(&matches).unwrap());
    for pair in &matches {
        let r = fitted.residual(pair);
        assert!(r >= 0.0 && r <= 1e-9, "{}", r);
    }
}

#[test]
fn residual_against_another_transform_is_positive() {
    let mut rng = Pcg64::from_seed([5; 32]);
    let TestData { matches, h } = TestData::with(&mut rng, 48);
    let mut other = h;
    other[(0, 2)] += 3.0;
    let other = Homography(other);
    for pair in &matches {
        let r = other.residual(pair);
        assert!((r - 9.0).abs() < 1e-9, "{}", r);
    }
}

#[test]
fn residual_is_the_squared_distance_to_the_mapped_point() {
    let model = Homography(Matrix3::new(
        2.0, 0.0, 1.0,
        0.0, 2.0, -1.0,
        0.0, 0.0, 2.0,
    ));
    // (3, 5) is mapped to (7, 9, 2), the point (3.5, 4.5).
    let pair = (Point2::new(3.0, 5.0), Point2::new(0.5, 0.5));
    assert_eq!(model.residual(&pair), 25.0);
    let pair = (Point2::new(3.0, 5.0), Point2::new(3.5, 4.5));
    assert_eq!(model.residual(&pair), 0.0);
}

#[test]
fn residual_of_a_point_mapped_to_infinity_is_unbounded() {
    let model = Homography(Matrix3::new(
        1.0, 0.0, 0.0,
        0.0, 1.0, 0.0,
        1.0, 0.0, -2.0,
    ));
    let at_infinity = (Point2::new(2.0, 1.0), Point2::new(0.0, 0.0));
    assert_eq!(model.residual(&at_infinity), f64::INFINITY);
    assert!(!(model.residual(&at_infinity) < 0.1));
    assert!(!(model.residual(&at_infinity) < f64::MAX));
    let elsewhere = (Point2::new(3.0, 1.0), Point2::new(3.0, 1.0));
    assert_eq!(model.residual(&elsewhere), 0.0);
}

fn contaminated(seed: u8, count: usize, outliers: usize) -> (Vec<Pair>, Matrix3<f64>) {
    let mut rng = Pcg64::from_seed([seed; 32]);
    let TestData { mut matches, h } = TestData::with(&mut rng, count);
    // Every third correspondence, up to the number asked for, gets a
    // destination drawn anew from the whole image.
    let mut replaced = 0;
    let mut i = 1;
    while replaced < outliers {
        matches[i].1 = Point2::new(rng.gen_range(0.0..100.0), rng.gen_range(0.0..100.0));
        replaced += 1;
        i += 3;
        if i >= count {
            i -= count - 1;
        }
    }
    (matches, h)
}

#[test]
fn consensus_recovers_the_transform_in_spite_of_outliers() {
    for (seed, outliers) in [(21u8, 30usize), (22, 35), (23, 40)] {
        let (matches, h_src) = contaminated(seed, 100, outliers);
        let robust = find_homography_with_arrsac(&matches).expect("no consensus");
        assert!(
            max_abs_diff(&h_src, &robust.0) <= 1e-6,
            "{} outliers: {}",
            outliers,
            robust.0
        );
        assert!((h_src - robust.0).norm() < 1e-6, "{} outliers: {}", outliers, robust.0);
        assert_eq!(robust.0[(2, 2)], 1.0);

        let direct = find_homography(&matches).unwrap();
        assert!(max_abs_diff(&h_src, &direct) > 1e-3, "{} outliers: {}", outliers, direct);
    }
}

#[test]
fn consensus_on_clean_data_recovers_the_transform() {
    let mut rng = Pcg64::from_seed([31; 32]);
    let TestData { matches, h: h_src } = TestData::with(&mut rng, 48);
    let robust = find_homography_with_arrsac(&matches).expect("no consensus");
    assert!(max_abs_diff(&h_src, &robust.0) <= 1e-6, "{}", robust.0);
}

#[test]
fn consensus_is_reproducible() {
    let (matches, _) = contaminated(24, 100, 33);
    let first = find_homography_with_arrsac(&matches).expect("no consensus");
    let second = find_homography_with_arrsac(&matches).expect("no consensus");
    assert_eq!(to_bits(&first.0).0, to_bits(&second.0).0);

    let config = ConsensusConfig::standard();
    let third =
        find_homography_robust(&matches, f64::from_bits(config.inlier_threshold), [1; 32])
            .expect("no consensus");
    assert_eq!(to_bits(&first.0).0, to_bits(&third.0).0);
}

#[test]
fn consensus_finds_nothing_in_degenerate_data() {
    let coincident = vec![(Point2::new(1.0, 2.0), Point2::new(3.0, 4.0)); 12];
    assert!(find_homography_with_arrsac(&coincident).is_none());

    let on_a_line: Vec<Pair> = (0..12)
        .map(|i| (Point2::new(5.0, i as f64), Point2::new(i as f64, 2.0 * i as f64)))
        .collect();
    assert!(find_homography_with_arrsac(&on_a_line).is_none());
}
