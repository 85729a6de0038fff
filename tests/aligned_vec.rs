use bmpf::aligned_vec::{detect_optimal_alignment, simd_alignment, AVec};

#[test]
fn test_new_and_access() {
    let mut v: AVec<f64> = AVec::new(10);
    assert_eq!(v.len(), 10);

    for i in 0..10 {
        v.set(i, i as f64);
    }

    for i in 0..10 {
        assert_eq!(v[i], i as f64);
    }
}

#[test]
fn test_swap() {
    let mut v: AVec<f64> = AVec::new(5);
    v.set(0, 1.0);
    v.set(1, 2.0);
    v.set(2, 3.0);
    v.set(3, 4.0);
    v.set(4, 5.0);

    v.swap(1, 3);

    assert_eq!(v[0], 1.0);
    assert_eq!(v[1], 4.0);
    assert_eq!(v[2], 3.0);
    assert_eq!(v[3], 2.0);
    assert_eq!(v[4], 5.0);
}

#[test]
fn test_swap_same_index() {
    let mut v: AVec<f64> = AVec::new(3);
    v.set(0, 1.0);
    v.set(1, 2.0);
    v.set(2, 3.0);

    v.swap(1, 1);

    assert_eq!(v[0], 1.0);
    assert_eq!(v[1], 2.0);
    assert_eq!(v[2], 3.0);
}

#[test]
fn test_clone() {
    let mut v: AVec<f64> = AVec::new(3);
    v.set(0, 1.0);
    v.set(1, 2.0);
    v.set(2, 3.0);

    let v2 = v.clone();

    assert_eq!(v2[0], 1.0);
    assert_eq!(v2[1], 2.0);
    assert_eq!(v2[2], 3.0);
}

#[test]
fn test_alignment() {
    let v: AVec<f64> = AVec::new(100);
    let ptr = v.as_ptr() as usize;
    let align = v.alignment();
    assert_eq!(ptr % align, 0, "Pointer not aligned to {} bytes", align);
}

#[test]
fn test_explicit_alignment() {
    let v: AVec<f64> = AVec::with_alignment(100, 64);
    let ptr = v.as_ptr() as usize;
    assert_eq!(v.alignment(), 64);
    assert_eq!(ptr % 64, 0, "Pointer not aligned to 64 bytes");
}

#[test]
fn test_from_iter() {
    let v: AVec<f64> = AVec::from_iter(&[1.0, 2.0, 3.0, 4.0, 5.0]);
    assert_eq!(v.len(), 5);
    assert_eq!(v[0], 1.0);
    assert_eq!(v[4], 5.0);
}

#[test]
fn test_empty() {
    let v: AVec<f64> = AVec::new(0);
    assert!(v.is_empty());
    assert_eq!(v.len(), 0);
}

#[test]
fn test_fill() {
    let mut v: AVec<f64> = AVec::new(5);
    v.fill(42.0);
    for i in 0..5 {
        assert_eq!(v[i], 42.0);
    }
}

#[test]
fn test_range_index() {
    let mut v: AVec<f64> = AVec::from_iter(&[1.0, 2.0, 3.0, 4.0, 5.0]);
    let slice = &v.as_slice()[1..4];
    assert_eq!(slice, &[2.0, 3.0, 4.0]);

    v.as_mut_slice()[1..4].copy_from_slice(&[20.0, 30.0, 40.0]);
    assert_eq!(v[1], 20.0);
    assert_eq!(v[2], 30.0);
    assert_eq!(v[3], 40.0);
}

#[test]
fn test_detected_alignment() {
    let align = detect_optimal_alignment();
    assert!(align.is_power_of_two());
    assert!(align >= 16);
    println!("Detected optimal alignment: {} bytes", align);
}

#[test]
fn test_iter() {
    let v: AVec<f64> = AVec::from_iter(&[1.0, 2.0, 3.0]);
    let sum: f64 = v.iter().sum();
    assert_eq!(sum, 6.0);
}

#[test]
fn new_vector_holds_defaults() {
    let v: AVec<u32> = AVec::new(7);
    assert_eq!(v.len(), 7);
    assert!(v.iter().all(|&x| x == 0));
    assert_eq!(v.alignment(), simd_alignment());
}

#[test]
fn aligned_for_various_element_sizes() {
    for align in [8usize, 16, 32, 64, 128, 4096] {
        let a: AVec<u8> = AVec::with_alignment(33, align);
        assert_eq!(a.as_ptr() % align, 0);
        let b: AVec<u64> = AVec::with_alignment(33, align);
        assert_eq!(b.as_ptr() % align, 0);
        assert_eq!(b.len(), 33);
    }
}

#[test]
fn clone_is_aligned_and_independent() {
    let mut v: AVec<u64> = AVec::from_iter_aligned(&[5, 6, 7], 128);
    let w = v.clone();
    v.set(0, 50);
    assert_eq!(w.as_slice(), &[5, 6, 7]);
    assert_eq!(v.as_slice(), &[50, 6, 7]);
    assert_eq!(w.alignment(), 128);
    assert_eq!(w.as_ptr() % 128, 0);
}

#[test]
fn get_matches_index() {
    let v: AVec<i32> = AVec::from_iter(&[-1, 0, 1]);
    assert_eq!(*v.get(0), -1);
    assert_eq!(*v.get(2), 1);
}

#[test]
fn test_iter_mut() {
    let mut v: AVec<f64> = AVec::from_iter(&[1.0, 2.0, 3.0]);
    for x in v.iter_mut() {
        *x *= 2.0;
    }
    assert_eq!(v[0], 2.0);
    assert_eq!(v[1], 4.0);
    assert_eq!(v[2], 6.0);
}

#[test]
fn mutable_slice_writes_through() {
    let mut v: AVec<f64> = AVec::from_iter(&[1.0, 2.0, 3.0, 4.0, 5.0]);
    v.as_mut_slice()[1..4].copy_from_slice(&[20.0, 30.0, 40.0]);
    assert_eq!(v.as_slice(), &[1.0, 20.0, 30.0, 40.0, 5.0]);
    assert_eq!(v.as_ptr() % v.alignment(), 0);
}
