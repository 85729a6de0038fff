use bmpf::resample::{
    advance_resample_count, best_index, find_sample_index, generate_sample_indices,
    is_resampler_name, Naive, Regular, Resampler,
};
use bmpf::ziggurat::Ziggurat;

fn keys(v: &[f64]) -> Vec<u64> {
    v.iter().map(|w| w.to_bits()).collect()
}

fn cumulative(w: &[f64]) -> Vec<f64> {
    let mut s = 0.0;
    w.iter()
        .map(|x| {
            s += x;
            s
        })
        .collect()
}

fn uniform(z: &mut Ziggurat) -> f64 {
    const SCALE: f64 = 5.42101086242752e-20;
    let hi = z.rand32() as f64;
    let lo = z.rand32() as f64;
    (4294967296.0 * hi + lo) * SCALE
}

#[test]
fn search_finds_first_index_reaching_target() {
    let c = keys(&[5.0, 10.0, 15.0, 20.0]);
    assert_eq!(find_sample_index(&c, 0.0f64.to_bits()), 0);
    assert_eq!(find_sample_index(&c, 5.0f64.to_bits()), 0);
    assert_eq!(find_sample_index(&c, 7.5f64.to_bits()), 1);
    assert_eq!(find_sample_index(&c, 10.0f64.to_bits()), 1);
    assert_eq!(find_sample_index(&c, 15.0f64.to_bits()), 2);
    assert_eq!(find_sample_index(&c, 19.9f64.to_bits()), 3);
    assert_eq!(find_sample_index(&c, 20.0f64.to_bits()), 3);
}

#[test]
fn search_past_the_total_clamps_to_last() {
    let c = keys(&[1.0, 2.0]);
    assert_eq!(find_sample_index(&c, 2.5f64.to_bits()), 1);
}

#[test]
fn search_skips_zero_weight_particles() {
    // Weights 0, 1, 0, 1: cumulative 0, 1, 1, 2.
    let c = keys(&[0.0, 1.0, 1.0, 2.0]);
    assert_eq!(find_sample_index(&c, 0.5f64.to_bits()), 1);
    assert_eq!(find_sample_index(&c, 1.5f64.to_bits()), 3);
}

#[test]
fn walk_matches_search_for_each_threshold() {
    let c = keys(&cumulative(&[0.4, 0.3, 0.2, 0.1]));
    let t: Vec<f64> = (1..=9).map(|i| i as f64 / 10.0).collect();
    let got = generate_sample_indices(&c, &keys(&t));
    assert_eq!(got.len(), t.len());
    for (i, u) in t.iter().enumerate() {
        assert_eq!(got[i], find_sample_index(&c, u.to_bits()));
    }
}

#[test]
fn walk_clamps_beyond_total() {
    let c = keys(&[1.0, 2.0]);
    let got = generate_sample_indices(&c, &keys(&[0.5, 2.0, 3.0, 4.0]));
    assert_eq!(got, vec![0, 1, 1, 1]);
}

#[test]
fn best_is_first_largest() {
    assert_eq!(best_index(&keys(&[0.1, 0.4, 0.2, 0.4])), 1);
    assert_eq!(best_index(&keys(&[0.0, 0.0])), 0);
    assert_eq!(best_index(&keys(&[0.3])), 0);
    assert_eq!(best_index(&keys(&[0.1, 0.2, 0.7])), 2);
}

#[test]
fn counter_wraps_at_interval() {
    assert_eq!(advance_resample_count(0, 1), (0, true));
    assert_eq!(advance_resample_count(0, 3), (1, false));
    assert_eq!(advance_resample_count(1, 3), (2, false));
    assert_eq!(advance_resample_count(2, 3), (0, true));
}

#[test]
fn names_select_schemes() {
    assert!(matches!(Resampler::<f64>::new("logm", 16), Resampler::Logm(_)));
    assert!(matches!(Resampler::<f64>::new("naive", 16), Resampler::Naive(_)));
    assert!(matches!(Resampler::<f64>::new("optimal", 16), Resampler::Optimal(_)));
    assert!(matches!(Resampler::<f64>::new("regular", 16), Resampler::Regular(_)));
    if let Resampler::Logm(l) = Resampler::<f64>::new("logm", 16) {
        assert_eq!(l.tweight.len(), 16);
    }
}

#[test]
fn unknown_names_are_recognised() {
    assert!(is_resampler_name("logm"));
    assert!(is_resampler_name("regular"));
    assert!(!is_resampler_name("Regular"));
    assert!(!is_resampler_name("log"));
    assert!(!is_resampler_name(""));
    assert!(!is_resampler_name("optimals"));
}

#[test]
fn scratch_grows_only() {
    let mut n: Naive<f64> = Naive::default();
    n.ensure_capacity(8);
    assert_eq!(n.cumsum.len(), 8);
    n.ensure_capacity(4);
    assert_eq!(n.cumsum.len(), 8);
    let mut r: Regular<f64> = Regular::default();
    r.ensure_capacity(5);
    assert_eq!(r.cumsum.len(), 5);
    assert_eq!(r.indices.len(), 5);
}

#[test]
fn multinomial_frequencies_follow_weights() {
    let w = [0.4, 0.3, 0.2, 0.1];
    let c = cumulative(&w);
    let ck = keys(&c);
    let total = c[3];
    let mut z = Ziggurat::new(42);
    let mut counts = [0usize; 4];
    let n = 100_000;
    for _ in 0..n {
        let u = uniform(&mut z) * total;
        counts[find_sample_index(&ck, u.to_bits())] += 1;
    }
    for i in 0..4 {
        let f = counts[i] as f64 / n as f64;
        assert!((f - w[i]).abs() < 0.01, "particle {} drawn with frequency {}", i, f);
    }
}

#[test]
fn systematic_frequencies_follow_weights_closely() {
    let w = [0.4, 0.3, 0.2, 0.1];
    let c = cumulative(&w);
    let ck = keys(&c);
    let n = 100_000;
    let step = c[3] / (n + 1) as f64;
    let mut u = step;
    let mut t = Vec::with_capacity(n);
    for _ in 0..n {
        t.push(u);
        u += step;
    }
    let got = generate_sample_indices(&ck, &keys(&t));
    let mut counts = [0usize; 4];
    for &i in &got {
        counts[i] += 1;
    }
    for i in 0..4 {
        let f = counts[i] as f64 / n as f64;
        assert!((f - w[i]).abs() < 0.001, "particle {} drawn with frequency {}", i, f);
    }
}
