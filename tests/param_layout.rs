use stableview::param::{parse_param, ParamError};

fn counting_param() -> [f64; 62] {
    let mut param = [0.0f64; 62];
    for (i, p) in param.iter_mut().enumerate() {
        *p = i as f64;
    }
    param
}

fn expected_split() -> ([[f64; 3]; 3], [[f64; 1]; 3], [[f64; 1]; 40], [[f64; 1]; 10]) {
    let mut alpha_shp = [[0.0f64; 1]; 40];
    for (i, a) in alpha_shp.iter_mut().enumerate() {
        a[0] = (12 + i) as f64;
    }
    let mut alpha_exp = [[0.0f64; 1]; 10];
    for (i, a) in alpha_exp.iter_mut().enumerate() {
        a[0] = (52 + i) as f64;
    }
    (
        [[0.0, 1.0, 2.0], [4.0, 5.0, 6.0], [8.0, 9.0, 10.0]],
        [[3.0], [7.0], [11.0]],
        alpha_shp,
        alpha_exp,
    )
}

#[test]
fn utils_test_parse_param() {
    let param = [
        0.0, 1.0, 2.0, 3.0, 4.0, 5.0, 6.0, 7.0, 8.0, 9.0, 10.0, 11.0, 12.0, 13.0, 14.0, 15.0,
        16.0, 17.0, 18.0, 19.0, 20.0, 21.0, 22.0, 23.0, 24.0, 25.0, 26.0, 27.0, 28.0, 29.0,
        30.0, 31.0, 32.0, 33.0, 34.0, 35.0, 36.0, 37.0, 38.0, 39.0, 40.0, 41.0, 42.0, 43.0,
        44.0, 45.0, 46.0, 47.0, 48.0, 49.0, 50.0, 51.0, 52.0, 53.0, 54.0, 55.0, 56.0, 57.0,
        58.0, 59.0, 60.0, 61.0,
    ];
    let result = parse_param(&param);

    assert!(result.is_ok());

    let expected = Ok((
        [[0.0, 1.0, 2.0], [4.0, 5.0, 6.0], [8.0, 9.0, 10.0]],
        [[3.0], [7.0], [11.0]],
        [
            [12.0], [13.0], [14.0], [15.0], [16.0], [17.0], [18.0], [19.0], [20.0], [21.0],
            [22.0], [23.0], [24.0], [25.0], [26.0], [27.0], [28.0], [29.0], [30.0], [31.0],
            [32.0], [33.0], [34.0], [35.0], [36.0], [37.0], [38.0], [39.0], [40.0], [41.0],
            [42.0], [43.0], [44.0], [45.0], [46.0], [47.0], [48.0], [49.0], [50.0], [51.0],
        ],
        [[52.0], [53.0], [54.0], [55.0], [56.0], [57.0], [58.0], [59.0], [60.0], [61.0]],
    ));

    assert_eq!(result, expected);
}

#[test]
fn tddfa_test_parse_param() {
    let param: [f32; 62] = [
        0.0, 1.0, 2.0, 3.0, 4.0, 5.0, 6.0, 7.0, 8.0, 9.0, 10.0, 11.0, 12.0, 13.0, 14.0, 15.0,
        16.0, 17.0, 18.0, 19.0, 20.0, 21.0, 22.0, 23.0, 24.0, 25.0, 26.0, 27.0, 28.0, 29.0,
        30.0, 31.0, 32.0, 33.0, 34.0, 35.0, 36.0, 37.0, 38.0, 39.0, 40.0, 41.0, 42.0, 43.0,
        44.0, 45.0, 46.0, 47.0, 48.0, 49.0, 50.0, 51.0, 52.0, 53.0, 54.0, 55.0, 56.0, 57.0,
        58.0, 59.0, 60.0, 61.0,
    ];
    let result = parse_param(&param);
    let expected = (
        [[0.0, 1.0, 2.0], [4.0, 5.0, 6.0], [8.0, 9.0, 10.0]],
        [[3.0], [7.0], [11.0]],
        [
            [12.0], [13.0], [14.0], [15.0], [16.0], [17.0], [18.0], [19.0], [20.0], [21.0],
            [22.0], [23.0], [24.0], [25.0], [26.0], [27.0], [28.0], [29.0], [30.0], [31.0],
            [32.0], [33.0], [34.0], [35.0], [36.0], [37.0], [38.0], [39.0], [40.0], [41.0],
            [42.0], [43.0], [44.0], [45.0], [46.0], [47.0], [48.0], [49.0], [50.0], [51.0],
        ],
        [[52.0], [53.0], [54.0], [55.0], [56.0], [57.0], [58.0], [59.0], [60.0], [61.0]],
    );
    assert_eq!(result, Ok(expected));
}

#[test]
fn parse_param_splits_counting_vector() {
    assert_eq!(parse_param(&counting_param()), Ok(expected_split()));
}

#[test]
fn parse_param_rejects_unknown_lengths() {
    assert_eq!(parse_param(&[0.0f32; 61]), Err(ParamError::UnknownLength));
    assert_eq!(parse_param(&[0u8; 0]), Err(ParamError::UnknownLength));
    assert_eq!(parse_param(&vec![1i32; 100]), Err(ParamError::UnknownLength));
}

#[test]
fn parse_param_wide_shape_layout() {
    let param: Vec<u32> = (0..141).collect();
    let (r, offset, alpha_shp, alpha_exp) = parse_param(&param).unwrap();
    assert_eq!(r[2], [8, 9, 10]);
    assert_eq!(offset[1], [7]);
    assert_eq!(alpha_shp[39], [51]);
    // expression coefficients start after 100 shape coefficients
    assert_eq!(alpha_exp[0], [112]);
    assert_eq!(alpha_exp[9], [121]);
}

#[test]
fn parse_param_72_layout_keeps_forty_shape_coefficients() {
    let param: Vec<u32> = (0..72).collect();
    let (_, _, alpha_shp, alpha_exp) = parse_param(&param).unwrap();
    assert_eq!(alpha_shp[0], [12]);
    assert_eq!(alpha_exp[0], [52]);
    assert_eq!(alpha_exp[9], [61]);
}
