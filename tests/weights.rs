use magic_kernel::{Kernel1D, KernelKind, MagicKernel, Sharp2013, Sharp2021};

fn normalized(map: &Kernel1D, out: u32) -> Vec<(u32, f64)> {
    let list = map.taps(out);
    list.taps
        .iter()
        .map(|&(i, w)| (i, w as f64 / list.total as f64))
        .collect()
}

#[test]
fn weights_sum_to_one_for_many_sizes() {
    let sizes: [u32; 7] = [1, 2, 3, 4, 7, 10, 31];
    for &n_in in sizes.iter() {
        for &n_out in sizes.iter() {
            let map = Kernel1D::new(KernelKind::Magic, n_in, n_out);
            assert_eq!(map.number_out(), n_out);
            for out in 0..n_out {
                let list = map.taps(out);
                assert!(list.total > 0);
                let exact: i128 = list.taps.iter().map(|t| t.1).sum();
                assert_eq!(exact, list.total);
                let sum: f64 = normalized(&map, out).iter().map(|t| t.1).sum();
                assert!((sum - 1.0).abs() < 1e-9);
                for &(i, w) in list.taps.iter() {
                    assert!(i < n_in);
                    assert!(w != 0);
                }
            }
        }
    }
}

#[test]
fn correction_weights_sum_to_one() {
    for n in 1..12u32 {
        for kind in [KernelKind::Sharp2013, KernelKind::Sharp2021] {
            let map = Kernel1D::new(kind, n, n);
            for out in 0..n {
                let sum: f64 = normalized(&map, out).iter().map(|t| t.1).sum();
                assert!((sum - 1.0).abs() < 1e-9);
            }
        }
    }
}

#[test]
fn unity_scale_interior_taps() {
    let map = Kernel1D::new(KernelKind::Magic, 9, 9);
    for out in 1..8u32 {
        let w = normalized(&map, out);
        assert_eq!(w, vec![(out - 1, 0.125), (out, 0.75), (out + 1, 0.125)]);
        let list = map.taps(out);
        assert_eq!(list.total, 8 * 81);
    }
    // a linear ramp comes out unchanged away from the edges
    let samples: Vec<f64> = (0..9).map(|i| 2.0 + 0.5 * i as f64).collect();
    for out in 1..8u32 {
        let v: f64 = normalized(&map, out)
            .iter()
            .map(|&(i, w)| samples[i as usize] * w)
            .sum();
        assert!((v - samples[out as usize]).abs() < 1e-12);
    }
}

#[test]
fn unity_scale_edges_renormalize() {
    let map = Kernel1D::new(KernelKind::Magic, 5, 5);
    let first = normalized(&map, 0);
    assert_eq!(first.len(), 2);
    assert_eq!(first[0].0, 0);
    assert!((first[0].1 - 6.0 / 7.0).abs() < 1e-12);
    assert!((first[1].1 - 1.0 / 7.0).abs() < 1e-12);
}

#[test]
fn correction_kernel_constants() {
    assert_eq!(Sharp2013::denominator(), 4);
    assert_eq!(Sharp2013::weight(5, 5) as f64 / Sharp2013::denominator() as f64, 1.5);
    assert_eq!(Sharp2013::weight(4, 5) as f64 / Sharp2013::denominator() as f64, -0.25);
    assert_eq!(Sharp2013::weight(6, 5) as f64 / Sharp2013::denominator() as f64, -0.25);
    assert_eq!(Sharp2021::denominator(), 36);
    assert_eq!(Sharp2021::weight(7, 7) * 18, 17 * Sharp2021::denominator());
    assert_eq!(Sharp2021::weight(6, 7), 0);
    assert_eq!(Sharp2021::weight(8, 7), 0);
    assert_eq!(Sharp2021::weight(5, 7) * 36, Sharp2021::denominator());
    assert_eq!(Sharp2021::weight(9, 7) * 36, Sharp2021::denominator());
}

#[test]
fn correction_kernel_bounds() {
    assert_eq!(Sharp2013::bounds(0), (0, 1));
    assert_eq!(Sharp2013::bounds(5), (4, 6));
    assert_eq!(Sharp2021::bounds(1), (0, 3));
    assert_eq!(Sharp2021::bounds(5), (3, 7));
}

#[test]
fn correction_kernel_a_interior_and_edge() {
    let map = Kernel1D::new(KernelKind::Sharp2013, 4, 4);
    assert_eq!(normalized(&map, 1), vec![(0, -0.25), (1, 1.5), (2, -0.25)]);
    let edge = normalized(&map, 0);
    assert_eq!(edge[0].0, 0);
    assert!((edge[0].1 - 1.2).abs() < 1e-12);
    assert!((edge[1].1 + 0.2).abs() < 1e-12);
}

#[test]
fn correction_kernel_b_drops_zero_weights() {
    let map = Kernel1D::new(KernelKind::Sharp2021, 5, 5);
    let list = map.taps(2);
    assert_eq!(list.taps, vec![(0, 1), (2, 34), (4, 1)]);
    assert_eq!(list.total, 36);
}

#[test]
fn magic_kernel_values() {
    // unity scale: K(0) = 3/4, K(1) = 1/8, K(2) = 0, over the denominator 8 * 3^2
    assert_eq!(MagicKernel::denominator(3, 3), 72);
    assert_eq!(MagicKernel::weight(1, 1, 3, 3), 54);
    assert_eq!(MagicKernel::weight(0, 1, 3, 3), 9);
    assert_eq!(MagicKernel::weight(2, 0, 3, 3), 0);
    // K(1/4) = 0.6875 over the denominator 8 * 2^2
    assert_eq!(MagicKernel::weight(0, 0, 1, 2), 22);
    assert_eq!(MagicKernel::denominator(1, 2), 32);
    // K(1/2) = 1/2, where the two quadratic pieces meet
    assert_eq!(MagicKernel::weight(1, 0, 3, 2) * 2, MagicKernel::denominator(3, 2));
}

#[test]
fn magic_kernel_bounds() {
    assert_eq!(MagicKernel::bounds(3, 9, 9), (2, 4));
    assert_eq!(MagicKernel::bounds(0, 9, 9), (0, 1));
    assert_eq!(MagicKernel::bounds(0, 4, 2), (0, 2));
    assert_eq!(MagicKernel::bounds(1, 4, 2), (1, 4));
}

#[test]
fn downscale_four_to_two_weights() {
    // scale factor 2 / 4 = 0.5 on this axis
    let map = Kernel1D::new(KernelKind::Magic, 4, 2);
    assert_eq!(map.number_in(), 4);
    assert_eq!(map.number_out(), 2);
    assert_eq!(MagicKernel::denominator(4, 2), 128);
    // K(1/4) = 0.6875, K(-1/4) = 0.6875, K(-3/4) = 0.28125, before renormalizing
    assert_eq!(map.taps(0).taps, vec![(0, 88), (1, 88), (2, 36)]);
    assert_eq!(map.taps(0).total, 212);
    assert_eq!(map.taps(1).taps, vec![(1, 36), (2, 88), (3, 88)]);
    assert_eq!(map.taps(1).total, 212);
    let w = normalized(&map, 0);
    assert!((w[0].1 - 0.6875 / 1.65625).abs() < 1e-12);
    assert!((w[2].1 - 0.28125 / 1.65625).abs() < 1e-12);
}

#[test]
fn upscale_weights_cover_each_output() {
    let map = Kernel1D::new(KernelKind::Magic, 2, 5);
    for out in 0..5u32 {
        assert!(!map.taps(out).taps.is_empty());
    }
    let one = Kernel1D::new(KernelKind::Magic, 1, 3);
    for out in 0..3u32 {
        assert_eq!(normalized(&one, out), vec![(0, 1.0)]);
    }
}
