use magic_kernel::{plan, resolve_size, Kernel1D, Kernel2D, KernelKind, Version};

/// Samples of a 1-channel image, row-major.
struct Gray {
    width: usize,
    height: usize,
    samples: Vec<f64>,
}

fn weights(map: &Kernel1D, out: u32) -> Vec<(usize, f64)> {
    let list = map.taps(out);
    list.taps
        .iter()
        .map(|&(i, w)| (i as usize, w as f64 / list.total as f64))
        .collect()
}

fn separable(kernel: &Kernel2D, image: &Gray) -> Gray {
    let to_w = kernel.x.number_out() as usize;
    let to_h = kernel.y.number_out() as usize;
    let mut tmp = vec![0.0; to_w * image.height];
    for y in 0..image.height {
        for x in 0..to_w {
            tmp[y * to_w + x] = weights(&kernel.x, x as u32)
                .iter()
                .map(|&(i, w)| image.samples[y * image.width + i] * w)
                .sum();
        }
    }
    let mut out = vec![0.0; to_w * to_h];
    for x in 0..to_w {
        for y in 0..to_h {
            out[y * to_w + x] = weights(&kernel.y, y as u32)
                .iter()
                .map(|&(j, w)| tmp[j * to_w + x] * w)
                .sum();
        }
    }
    Gray {
        width: to_w,
        height: to_h,
        samples: out,
    }
}

fn direct(kernel: &Kernel2D, image: &Gray) -> Gray {
    let to_w = kernel.x.number_out() as usize;
    let to_h = kernel.y.number_out() as usize;
    let mut out = vec![0.0; to_w * to_h];
    for y in 0..to_h {
        for x in 0..to_w {
            let mut sum = 0.0;
            for &(j, wy) in weights(&kernel.y, y as u32).iter() {
                for &(i, wx) in weights(&kernel.x, x as u32).iter() {
                    sum += wx * wy * image.samples[j * image.width + i];
                }
            }
            out[y * to_w + x] = sum;
        }
    }
    Gray {
        width: to_w,
        height: to_h,
        samples: out,
    }
}

fn synthetic(width: usize, height: usize) -> Gray {
    let samples = (0..width * height)
        .map(|k| ((k * 37 + 11) % 17) as f64 / 16.0)
        .collect();
    Gray {
        width,
        height,
        samples,
    }
}

#[test]
fn aspect_ratio_from_width() {
    assert_eq!(resolve_size(100, 50, Some(50), None), (50, 25));
}

#[test]
fn aspect_ratio_from_height() {
    assert_eq!(resolve_size(100, 50, None, Some(10)), (20, 10));
    assert_eq!(resolve_size(3, 7, None, Some(2)), (0, 2));
}

#[test]
fn aspect_ratio_truncates() {
    assert_eq!(resolve_size(3, 2, Some(2), None), (2, 1));
}

#[test]
fn size_given_or_kept() {
    assert_eq!(resolve_size(100, 50, Some(7), Some(9)), (7, 9));
    assert_eq!(resolve_size(100, 50, None, None), (100, 50));
}

#[test]
fn size_saturates() {
    assert_eq!(resolve_size(1, 0xffff_ffff, Some(2), None), (2, u32::MAX));
}

#[test]
fn plan_stages_per_version() {
    let one = plan(Version::MagicKernel, (4, 4), (2, 2));
    assert_eq!(one.len(), 1);
    assert_eq!(one[0].x.kind(), KernelKind::Magic);
    assert_eq!(one[0].x.number_in(), 4);
    assert_eq!(one[0].x.number_out(), 2);
    let two = plan(Version::MagicKernelSharp2013, (4, 6), (8, 3));
    assert_eq!(two.len(), 2);
    assert_eq!(two[1].x.kind(), KernelKind::Sharp2013);
    assert_eq!(two[1].y.number_in(), 3);
    assert_eq!(two[1].y.number_out(), 3);
    let three = plan(Version::MagicKernelSharp2021, (4, 6), (8, 3));
    assert_eq!(three.len(), 3);
    assert_eq!(three[0].y.number_in(), 6);
    assert_eq!(three[0].y.number_out(), 3);
    assert_eq!(three[2].x.kind(), KernelKind::Sharp2021);
    assert_eq!(three[2].x.number_in(), 8);
}

#[test]
fn separable_matches_direct_convolution() {
    let image = synthetic(4, 4);
    for to in [(4u32, 4u32), (2, 2), (7, 3), (3, 5)] {
        let kernel = Kernel2D::new(KernelKind::Magic, (4, 4), to);
        let a = separable(&kernel, &image);
        let b = direct(&kernel, &image);
        assert_eq!(a.samples.len(), b.samples.len());
        for (p, q) in a.samples.iter().zip(b.samples.iter()) {
            assert!((p - q).abs() < 1e-9);
        }
    }
    let sharp = Kernel2D::new(KernelKind::Sharp2021, (4, 4), (4, 4));
    let a = separable(&sharp, &image);
    let b = direct(&sharp, &image);
    for (p, q) in a.samples.iter().zip(b.samples.iter()) {
        assert!((p - q).abs() < 1e-9);
    }
}

#[test]
fn four_by_four_to_two_by_two() {
    let kernel = Kernel2D::new(KernelKind::Magic, (4, 4), (2, 2));
    let x = weights(&kernel.x, 0);
    let y = weights(&kernel.y, 0);
    // scale factor 0.5 on both axes; K(1/4), K(-1/4), K(-3/4) renormalized
    let norm = 0.6875 + 0.6875 + 0.28125;
    let expected = vec![(0, 0.6875 / norm), (1, 0.6875 / norm), (2, 0.28125 / norm)];
    for list in [x, y] {
        assert_eq!(list.len(), 3);
        for (got, want) in list.iter().zip(expected.iter()) {
            assert_eq!(got.0, want.0);
            assert!((got.1 - want.1).abs() < 1e-12);
        }
    }
    let image = Gray {
        width: 4,
        height: 4,
        samples: vec![1.0; 16],
    };
    let out = separable(&kernel, &image);
    assert_eq!((out.width, out.height), (2, 2));
    for v in out.samples.iter() {
        assert!((v - 1.0).abs() < 1e-12);
    }
}

#[test]
fn round_trip_keeps_total_sample_sum() {
    let image = synthetic(6, 5);
    let up = Kernel2D::new(KernelKind::Magic, (6, 5), (12, 10));
    let down = Kernel2D::new(KernelKind::Magic, (12, 10), (6, 5));
    let back = separable(&down, &separable(&up, &image));
    assert_eq!((back.width, back.height), (6, 5));
    let before: f64 = image.samples.iter().sum();
    let after: f64 = back.samples.iter().sum();
    assert!((after - before).abs() / before < 0.05);
}

#[test]
fn constant_image_stays_constant_through_every_stage() {
    let image = Gray {
        width: 5,
        height: 3,
        samples: vec![0.25; 15],
    };
    let stages = plan(Version::MagicKernelSharp2021, (5, 3), (9, 4));
    let mut current = image;
    for kernel in stages.iter() {
        current = separable(kernel, &current);
    }
    assert_eq!((current.width, current.height), (9, 4));
    for v in current.samples.iter() {
        assert!((v - 0.25).abs() < 1e-12);
    }
}
