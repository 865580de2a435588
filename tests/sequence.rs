use sobol_qmc::error::check_dims;
use sobol_qmc::{JoeKuoD6, JoeKuoD6Dim, LinearRender, ParamDimension, Sobol, SobolError};
use statrs::distribution::{ContinuousCDF, Normal};

/// Rows for dimensions 2 to 10 of the published "new-joe-kuo-6" data.
fn params() -> JoeKuoD6 {
    let rows: Vec<(u16, u32, Vec<u32>)> = vec![
        (2, 0, vec![1]),
        (3, 1, vec![1, 3]),
        (4, 1, vec![1, 3, 1]),
        (5, 2, vec![1, 1, 1]),
        (6, 1, vec![1, 1, 3, 3]),
        (7, 4, vec![1, 3, 5, 13]),
        (8, 2, vec![1, 1, 5, 5, 17]),
        (9, 4, vec![1, 1, 5, 5, 5]),
        (10, 7, vec![1, 1, 7, 11, 19]),
    ];
    JoeKuoD6::new(rows.into_iter().map(|(d, a, m)| JoeKuoD6Dim::new(d, a, m)).collect())
}

fn gray(n: u64) -> u64 {
    n ^ (n >> 1)
}

fn van_der_corput(mut n: u64) -> f64 {
    let mut x = 0.0;
    let mut f = 0.5;
    while n > 0 {
        if n & 1 == 1 {
            x += f;
        }
        f /= 2.0;
        n >>= 1;
    }
    x
}

#[test]
fn first_point_is_zero() {
    let p = params();
    let mut s = Sobol::<u32, LinearRender>::new(10, &p).unwrap();
    assert_eq!(s.next(), Some(vec![0u32; 10]));
    let mut s = Sobol::<u8, LinearRender>::new_with_resolution(4, &p, Some(3), LinearRender).unwrap();
    assert_eq!(s.next(), Some(vec![0u8; 4]));
}

#[test]
fn resolution_four_gray_code_order() {
    let p = params();
    let mut s = Sobol::<u8, LinearRender>::new_with_resolution(1, &p, Some(4), LinearRender).unwrap();
    let mut seen = Vec::new();
    while let Some(v) = s.next() {
        assert_eq!(v.len(), 1);
        seen.push(v[0] >> 4);
    }
    assert_eq!(seen, vec![0, 8, 12, 4, 6, 14, 10, 2, 3, 11, 15, 7, 5, 13, 9, 1]);
    let mut sorted = seen.clone();
    sorted.sort();
    assert_eq!(sorted, (0..16).collect::<Vec<u8>>());
    assert_eq!(s.next(), None);
}

#[test]
fn sequence_has_two_to_the_resolution_points() {
    let p = params();
    for res in 1..=6usize {
        let mut s = Sobol::<u16, LinearRender>::new_with_resolution(3, &p, Some(res), LinearRender).unwrap();
        let mut n = 0usize;
        while s.next().is_some() {
            n += 1;
        }
        assert_eq!(n, 1 << res);
        assert!(s.is_exhausted());
        assert_eq!(s.next(), None);
    }
}

#[test]
fn resolution_is_clamped_to_the_type() {
    let p = params();
    let s = Sobol::<u8, LinearRender>::new_with_resolution(2, &p, Some(40), LinearRender).unwrap();
    assert_eq!(s.resolution(), 8);
    let s = Sobol::<u64, LinearRender>::new(2, &p).unwrap();
    assert_eq!(s.resolution(), 64);
    assert_eq!(s.dims(), 2);
    let s = Sobol::<u128, LinearRender>::new_with_resolution(2, &p, Some(7), LinearRender).unwrap();
    assert_eq!(s.resolution(), 7);
}

#[test]
fn first_points_of_three_dimensions() {
    let p = params();
    let mut s = Sobol::<u32, LinearRender>::new(3, &p).unwrap();
    let half: u32 = 1 << 31;
    let q: u32 = 1 << 30;
    let e: u32 = 1 << 29;
    assert_eq!(s.next(), Some(vec![0, 0, 0]));
    assert_eq!(s.next(), Some(vec![half, half, half]));
    assert_eq!(s.next(), Some(vec![half + q, q, q]));
    assert_eq!(s.next(), Some(vec![q, half + q, half + q]));
    assert_eq!(s.next(), Some(vec![q + e, q + e, half + e]));
}

#[test]
fn direction_values_follow_the_recurrence() {
    let p = params();
    let cols = Sobol::<u8, LinearRender>::init_direction_vals(3, 4, &p);
    assert_eq!(cols[0], vec![128, 64, 32, 16]);
    // m = 1: v1 = .1, then v_i = v_{i-1} ^ (v_{i-1} >> 1)
    assert_eq!(cols[1], vec![128, 192, 160, 240]);
    // m = 1, 3 with a = 1
    assert_eq!(cols[2], vec![128, 192, 96, 144]);
}

#[test]
fn rightmost_zero_counts_low_ones() {
    assert_eq!(Sobol::<u8, LinearRender>::rightmost_zero(0), 0);
    assert_eq!(Sobol::<u8, LinearRender>::rightmost_zero(1), 1);
    assert_eq!(Sobol::<u8, LinearRender>::rightmost_zero(0b1011), 2);
    assert_eq!(Sobol::<u8, LinearRender>::rightmost_zero(u128::MAX), 128);
}

#[test]
fn signed_output_flips_the_sign_bit() {
    let p = params();
    let mut s = Sobol::<i8, LinearRender>::new(2, &p).unwrap();
    assert_eq!(s.next(), Some(vec![-128i8, -128]));
    assert_eq!(s.next(), Some(vec![0i8, 0]));
    let mut s = Sobol::<i64, LinearRender>::new(1, &p).unwrap();
    assert_eq!(s.next(), Some(vec![i64::MIN]));
    assert_eq!(s.next(), Some(vec![0i64]));
}

#[test]
fn identical_generators_agree() {
    let p = params();
    let mut a = Sobol::<u32, LinearRender>::new_with_resolution(10, &p, Some(12), LinearRender).unwrap();
    let mut b = Sobol::<u32, LinearRender>::new_with_resolution(10, &p, Some(12), LinearRender).unwrap();
    for _ in 0..500 {
        assert_eq!(a.next(), b.next());
    }
}

#[test]
fn skip_then_next_matches_stepping() {
    let p = params();
    for n in [0usize, 1, 2, 7, 30, 62, 63, 64, 100] {
        let mut a = Sobol::<u16, LinearRender>::new_with_resolution(5, &p, Some(6), LinearRender).unwrap();
        let mut b = Sobol::<u16, LinearRender>::new_with_resolution(5, &p, Some(6), LinearRender).unwrap();
        let mut last = None;
        for _ in 0..=n {
            last = b.next();
        }
        assert_eq!(a.nth(n), last);
    }
}

#[test]
fn advance_gives_raw_words() {
    let p = params();
    let mut s = Sobol::<i16, LinearRender>::new_with_resolution(2, &p, Some(2), LinearRender).unwrap();
    assert_eq!(s.advance(), Some(vec![0u128, 0]));
    assert_eq!(s.advance(), Some(vec![0x8000u128, 0x8000]));
    assert_eq!(s.advance(), Some(vec![0xc000u128, 0x4000]));
    assert_eq!(s.advance(), Some(vec![0x4000u128, 0xc000]));
    assert_eq!(s.advance(), None);
}

#[test]
fn too_many_dimensions_is_max_dim() {
    let p = params();
    let r = Sobol::<u32, LinearRender>::new(11, &p);
    assert!(matches!(r, Err(SobolError::MaxDim { dims: 11, max_dims: 10 })));
    let r = Sobol::<u32, LinearRender>::new(10, &p);
    assert!(r.is_ok());
}

#[test]
fn render_dimension_mismatch_is_render_dim() {
    assert_eq!(check_dims(3, 10, Some(2)), Err(SobolError::RenderDim { dims: 3, render_dims: 2 }));
    assert_eq!(check_dims(3, 10, Some(3)), Ok(()));
    assert_eq!(check_dims(3, 10, None), Ok(()));
    assert_eq!(check_dims(12, 10, Some(2)), Err(SobolError::MaxDim { dims: 12, max_dims: 10 }));
}

#[test]
fn error_messages_name_both_counts() {
    let e = SobolError::MaxDim { dims: 11, max_dims: 10 };
    assert_eq!(
        e.message(),
        "Sobol sequence supports a maximum of 10 dimensions, but was configured for 11."
    );
    let e = SobolError::RenderDim { dims: 3, render_dims: 2 };
    assert_eq!(e.message(), "Render supports a 2 dimensions, but Sobol was configured for 3.");
}

#[test]
fn first_dimension_is_van_der_corput() {
    let p = params();
    let mut s = Sobol::<u64, LinearRender>::new_with_resolution(1, &p, Some(20), LinearRender).unwrap();
    for n in 0..2000u64 {
        let v = s.next().unwrap()[0] as f64 / 18_446_744_073_709_551_616_f64;
        assert!((v - van_der_corput(gray(n))).abs() < 1e-15);
    }
}

#[test]
fn linear_fractions_lie_in_unit_interval_and_gaussian_round_trips() {
    let p = params();
    let normal = Normal::standard();
    let mut s = Sobol::<u64, LinearRender>::new_with_resolution(10, &p, Some(53), LinearRender).unwrap();
    let _ = s.next();
    for _ in 0..300 {
        for raw in s.next().unwrap() {
            let x = raw as f64 / 18_446_744_073_709_551_616_f64;
            assert!((0.0..1.0).contains(&x));
            let g = normal.inverse_cdf(x);
            assert!((normal.cdf(g) - x).abs() < 1e-9);
        }
    }
}

#[test]
fn coefficient_bits_of_a_row() {
    let d = JoeKuoD6Dim::new(10, 7, vec![1, 1, 7, 11, 19]);
    assert_eq!(d.d(), 10);
    assert_eq!(d.s(), 5);
    assert_eq!((d.coefficient(0), d.coefficient(1), d.coefficient(2), d.coefficient(3)), (1, 1, 1, 0));
    assert_eq!(d.coefficient(40), 0);
    assert_eq!(d.m(4), 19);
}

#[test]
fn take_points_stops_at_the_end() {
    let p = params();
    let mut s = Sobol::<u8, LinearRender>::new_with_resolution(2, &p, Some(3), LinearRender).unwrap();
    let first = s.take_points(3);
    assert_eq!(first, vec![vec![0u8, 0], vec![128, 128], vec![192, 64]]);
    let rest = s.take_points(100);
    assert_eq!(rest.len(), 5);
    assert_eq!(s.take_points(4), Vec::<Vec<u8>>::new());
}

#[test]
fn nth_past_the_end_is_none() {
    let p = params();
    let mut s = Sobol::<u8, LinearRender>::new_with_resolution(1, &p, Some(3), LinearRender).unwrap();
    assert_eq!(s.nth(7).map(|v| v[0] >> 5), Some(1));
    let mut s = Sobol::<u8, LinearRender>::new_with_resolution(1, &p, Some(3), LinearRender).unwrap();
    assert_eq!(s.nth(8), None);
}
