use bmpf::particles::{Generations, Particles};
use bmpf::ziggurat::Ziggurat;

fn numbered(n: usize) -> Particles<f64> {
    let mut p: Particles<f64> = Particles::new(n);
    for i in 0..n {
        let x = i as f64;
        p.posn_x.set(i, x);
        p.posn_y.set(i, -x);
        p.vel_r.set(i, x / 10.0);
        p.vel_t.set(i, x / 100.0);
        p.weight.set(i, 1.0 + x);
    }
    p
}

fn fields(p: &Particles<f64>, i: usize) -> (f64, f64, f64, f64, f64) {
    (p.posn_x[i], p.posn_y[i], p.vel_r[i], p.vel_t[i], p.weight[i])
}

#[test]
fn copy_from_copies_every_field() {
    let src = numbered(4);
    let mut dst: Particles<f64> = Particles::new(4);
    dst.copy_from(2, &src, 3);
    assert_eq!(fields(&dst, 2), fields(&src, 3));
    assert_eq!(fields(&dst, 0), (0.0, 0.0, 0.0, 0.0, 0.0));
}

#[test]
fn copy_within_and_swap() {
    let mut p = numbered(3);
    p.copy_within(0, 2);
    assert_eq!(fields(&p, 0), (2.0, -2.0, 0.2, 0.02, 3.0));
    p.swap(1, 2);
    assert_eq!(fields(&p, 1).0, 2.0);
    assert_eq!(fields(&p, 2).0, 1.0);
}

#[test]
fn gather_copies_listed_particles_bit_for_bit() {
    let src = numbered(5);
    let mut dst = numbered(5);
    let idx = [4usize, 4, 0, 2];
    dst.gather(&src, &idx);
    for (i, &k) in idx.iter().enumerate() {
        assert_eq!(fields(&dst, i), fields(&src, k));
    }
    assert_eq!(fields(&dst, 4), fields(&src, 4));
}

#[test]
fn reorder_applies_order() {
    let mut p = numbered(4);
    p.reorder(&[3, 1, 0, 2]);
    let xs: Vec<f64> = (0..4).map(|i| p.posn_x[i]).collect();
    assert_eq!(xs, vec![3.0, 1.0, 0.0, 2.0]);
    assert_eq!(fields(&p, 0), (3.0, -3.0, 0.3, 0.03, 4.0));
}

#[test]
fn shuffle_is_a_permutation_and_reproducible() {
    let mut a = numbered(50);
    let mut b = numbered(50);
    let mut za = Ziggurat::new(3);
    let mut zb = Ziggurat::new(3);
    a.shuffle(50, &mut za);
    b.shuffle(50, &mut zb);
    let mut xs: Vec<f64> = (0..50).map(|i| a.posn_x[i]).collect();
    for i in 0..50 {
        assert_eq!(fields(&a, i), fields(&b, i));
        let k = a.posn_x[i] as usize;
        assert_eq!(fields(&a, i), fields(&numbered(50), k));
    }
    xs.sort_by(|p, q| p.partial_cmp(q).unwrap());
    assert_eq!(xs, (0..50).map(|i| i as f64).collect::<Vec<_>>());
    // 49 draws were taken from each stream.
    let mut fresh = Ziggurat::new(3);
    for _ in 0..49 {
        fresh.rand32();
    }
    assert_eq!(za.rand32(), fresh.rand32());
}

#[test]
fn shuffle_leaves_tail_alone() {
    let mut p = numbered(10);
    let mut z = Ziggurat::new(11);
    p.shuffle(4, &mut z);
    for i in 4..10 {
        assert_eq!(p.posn_x[i], i as f64);
    }
}

#[test]
fn sort_by_weight_puts_heaviest_first_and_is_stable() {
    let mut p = numbered(5);
    let w = [0.2, 0.5, 0.2, 0.1, 0.5];
    for (i, &x) in w.iter().enumerate() {
        p.weight.set(i, x);
    }
    let keys: Vec<u64> = w.iter().map(|x: &f64| x.to_bits()).collect();
    p.sort_by_weight(&keys);
    let xs: Vec<f64> = (0..5).map(|i| p.posn_x[i]).collect();
    assert_eq!(xs, vec![1.0, 4.0, 0.0, 2.0, 3.0]);
    let ws: Vec<f64> = (0..5).map(|i| p.weight[i]).collect();
    assert_eq!(ws, vec![0.5, 0.5, 0.2, 0.2, 0.1]);
    assert_eq!(p.vel_r[0], 0.1);
}

#[test]
fn sort_by_weight_of_one_particle_is_identity() {
    let mut p = numbered(1);
    p.sort_by_weight(&[1.0f64.to_bits()]);
    assert_eq!(fields(&p, 0), (0.0, 0.0, 0.0, 0.0, 1.0));
}

#[test]
fn shuffle_follows_its_draws() {
    let m = 6;
    let mut p = numbered(8);
    let mut z = Ziggurat::new(77);
    let mut replay = Ziggurat::new(77);
    let mut order: Vec<usize> = (0..8).collect();
    for i in 0..m - 1 {
        let j = replay.rand32() as usize % (m - i) + i;
        order.swap(i, j);
    }
    p.shuffle(m, &mut z);
    for k in 0..8 {
        assert_eq!(p.posn_x[k], order[k] as f64);
    }
}

#[test]
fn generations_flip_on_commit_and_reset_weights() {
    let mut g = Generations::new(numbered(3), Particles::new(3));
    {
        let (cur, other) = g.split_mut();
        other.gather(cur, &[2, 2, 0]);
    }
    g.commit_resampled(1.0 / 3.0);
    let c = g.current();
    assert_eq!(c.posn_x[0], 2.0);
    assert_eq!(c.posn_x[2], 0.0);
    for i in 0..3 {
        assert_eq!(c.weight[i], 1.0 / 3.0);
    }
    let (old, _) = g.split_mut();
    assert_eq!(old.posn_x[0], 2.0);
    g.flip();
    assert_eq!(fields(g.current(), 1), fields(&numbered(3), 1));
    g.current_mut().posn_x.set(1, 9.0);
    assert_eq!(g.current().posn_x[1], 9.0);
}

#[test]
fn heapify_builds_max_heap_of_the_same_particles() {
    let w = [0.05, 0.3, 0.1, 0.2, 0.15, 0.02, 0.08, 0.1];
    let mut p = numbered(8);
    for (i, &x) in w.iter().enumerate() {
        p.weight.set(i, x);
    }
    let mut k: Vec<u64> = w.iter().map(|x: &f64| x.to_bits()).collect();
    p.heapify(8, &mut k);
    for i in 1..8 {
        assert!(p.weight[i] <= p.weight[(i - 1) / 2]);
        assert_eq!(k[i], p.weight[i].to_bits());
    }
    assert_eq!(p.weight[0], 0.3);
    assert_eq!(p.posn_x[0], 1.0);
    let mut xs: Vec<f64> = (0..8).map(|i| p.posn_x[i]).collect();
    xs.sort_by(|a, b| a.partial_cmp(b).unwrap());
    assert_eq!(xs, (0..8).map(|i| i as f64).collect::<Vec<_>>());
    for i in 0..8 {
        let orig = p.posn_x[i] as usize;
        assert_eq!(p.weight[i], w[orig]);
    }
}

#[test]
fn heapify_touches_only_the_first_m() {
    let mut p = numbered(6);
    let mut k: Vec<u64> = (0..6).map(|i| (i as f64).to_bits()).collect();
    p.heapify(3, &mut k);
    assert_eq!(p.posn_x[0], 2.0);
    for i in 3..6 {
        assert_eq!(p.posn_x[i], i as f64);
    }
}
