use rand_distr::Distribution;
use statrs::distribution::Laplace;
use veil::noise::{apply_noise, NoiseSpec};

fn scale(spec: &NoiseSpec) -> f64 {
    spec.sensitivity_micros() as f64 / spec.epsilon_micros() as f64
}

fn draws(spec: &NoiseSpec, count: usize) -> Vec<f64> {
    let laplace = Laplace::new(0.0, scale(spec)).unwrap();
    let mut rng = rand::thread_rng();
    (0..count).map(|_| laplace.sample(&mut rng)).collect()
}

fn mean(xs: &[f64]) -> f64 {
    xs.iter().sum::<f64>() / xs.len() as f64
}

fn variance(xs: &[f64]) -> f64 {
    let m = mean(xs);
    xs.iter().map(|x| (x - m) * (x - m)).sum::<f64>() / (xs.len() as f64 - 1.0)
}

#[test]
fn laplace_noise_is_centred_and_spread_by_the_scale() {
    let spec = NoiseSpec::new(3_000_000, 450_000).unwrap();
    let b = scale(&spec);
    assert!((b - 3.0 / 0.45).abs() < 1e-9);
    let noise = draws(&spec, 20_000);
    assert!(mean(&noise).abs() < 0.1 * b, "mean {}", mean(&noise));
    let expected = 2.0 * b * b;
    let observed = variance(&noise);
    assert!((observed - expected).abs() < 0.2 * expected, "variance {}", observed);
}

#[test]
fn extreme_parameters_drown_the_signal() {
    let spec = NoiseSpec::new(8_500_000_000, 100_000).unwrap();
    assert!((scale(&spec) - 85_000.0).abs() < 1e-6);
    let offsets: Vec<i64> = draws(&spec, 1000).iter().map(|x| x.round() as i64).collect();
    let as_reals: Vec<f64> = offsets.iter().map(|o| *o as f64).collect();
    let deviation = variance(&as_reals).sqrt();
    let expected = 85_000.0 * 2.0_f64.sqrt();
    assert!((deviation - expected).abs() < 0.25 * expected, "deviation {}", deviation);
    for (value, offset) in [50i64, 170, 70].iter().cycle().zip(offsets.iter()) {
        let noised = apply_noise(*value, *offset);
        assert!(noised >= 0);
        assert_eq!(noised, (*value + *offset).max(0));
    }
    let changed = offsets.iter().filter(|o| o.abs() > 170).count();
    assert!(changed > 900);
}
