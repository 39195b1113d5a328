use ferrilab::{
    aprox, invert_matrix, round, transpose, CurveFit, LinearFit, Measure, Model, MyError, Reader,
    Scalar, Style,
};
use std::f64::consts::PI;

/// An IEEE double. Every operation forwards to the machine operation the
/// engine's floating-point callers rely on.
#[derive(Debug, Clone, Copy, PartialEq)]
struct F(f64);

impl Scalar for F {
    fn add(self, other: F) -> F {
        F(self.0 + other.0)
    }
    fn sub(self, other: F) -> F {
        F(self.0 - other.0)
    }
    fn mul(self, other: F) -> F {
        F(self.0 * other.0)
    }
    fn div(self, other: F) -> F {
        F(self.0 / other.0)
    }
    fn powi(self, exponent: i32) -> F {
        F(self.0.powi(exponent))
    }
    fn powf(self, exponent: F) -> F {
        F(self.0.powf(exponent.0))
    }
    fn abs(self) -> F {
        F(self.0.abs())
    }
    fn sqrt(self) -> F {
        F(self.0.sqrt())
    }
    fn ceil(self) -> F {
        F(self.0.ceil())
    }
    fn floor(self) -> F {
        F(self.0.floor())
    }
    fn trunc(self) -> F {
        F(self.0.trunc())
    }
    fn log10(self) -> F {
        F(self.0.log10())
    }
    fn ln(self) -> F {
        F(self.0.ln())
    }
    fn exp(self) -> F {
        F(self.0.exp())
    }
    fn sin(self) -> F {
        F(self.0.sin())
    }
    fn cos(self) -> F {
        F(self.0.cos())
    }
    fn tan(self) -> F {
        F(self.0.tan())
    }
    fn asin(self) -> F {
        F(self.0.asin())
    }
    fn acos(self) -> F {
        F(self.0.acos())
    }
    fn atan(self) -> F {
        F(self.0.atan())
    }
    fn atan2(self, other: F) -> F {
        F(self.0.atan2(other.0))
    }
    fn min_v(self, other: F) -> F {
        F(self.0.min(other.0))
    }
    fn eq_v(self, other: F) -> bool {
        self.0 == other.0
    }
    fn lt_v(self, other: F) -> bool {
        self.0 < other.0
    }
    fn gt_v(self, other: F) -> bool {
        self.0 > other.0
    }
    fn ge_v(self, other: F) -> bool {
        self.0 >= other.0
    }
    fn is_nan(self) -> bool {
        self.0.is_nan()
    }
    fn is_finite(self) -> bool {
        self.0.is_finite()
    }
    fn is_infinite(self) -> bool {
        self.0.is_infinite()
    }
    fn exp10(self) -> i32 {
        let e = self.0.abs().log10().floor();
        (e as i32).clamp(-9999, 9999)
    }
    fn zero() -> F {
        F(0.0)
    }
    fn one() -> F {
        F(1.0)
    }
    fn pi() -> F {
        F(std::f64::consts::PI)
    }
    fn infinity() -> F {
        F(f64::INFINITY)
    }
    fn from_usize(n: usize) -> F {
        F(n as f64)
    }

    // The specification members of the trait compile to ordinary trait items.
    // Outside the verifier nothing ever calls them; each mirrors its
    // executable operation.
    fn s_add(self, other: F) -> F {
        self.add(other)
    }
    fn s_sub(self, other: F) -> F {
        self.sub(other)
    }
    fn s_mul(self, other: F) -> F {
        self.mul(other)
    }
    fn s_div(self, other: F) -> F {
        self.div(other)
    }
    fn s_powi(self, exponent: i32) -> F {
        self.powi(exponent)
    }
    fn s_powf(self, exponent: F) -> F {
        self.powf(exponent)
    }
    fn s_abs(self) -> F {
        self.abs()
    }
    fn s_sqrt(self) -> F {
        self.sqrt()
    }
    fn s_ceil(self) -> F {
        self.ceil()
    }
    fn s_floor(self) -> F {
        self.floor()
    }
    fn s_trunc(self) -> F {
        self.trunc()
    }
    fn s_log10(self) -> F {
        self.log10()
    }
    fn s_ln(self) -> F {
        self.ln()
    }
    fn s_exp(self) -> F {
        self.exp()
    }
    fn s_sin(self) -> F {
        self.sin()
    }
    fn s_cos(self) -> F {
        self.cos()
    }
    fn s_tan(self) -> F {
        self.tan()
    }
    fn s_asin(self) -> F {
        self.asin()
    }
    fn s_acos(self) -> F {
        self.acos()
    }
    fn s_atan(self) -> F {
        self.atan()
    }
    fn s_atan2(self, other: F) -> F {
        self.atan2(other)
    }
    fn s_min(self, other: F) -> F {
        self.min_v(other)
    }
    fn s_eq(self, other: F) -> bool {
        self.eq_v(other)
    }
    fn s_lt(self, other: F) -> bool {
        self.lt_v(other)
    }
    fn s_gt(self, other: F) -> bool {
        self.gt_v(other)
    }
    fn s_ge(self, other: F) -> bool {
        self.ge_v(other)
    }
    fn s_is_nan(self) -> bool {
        self.is_nan()
    }
    fn s_is_finite(self) -> bool {
        self.is_finite()
    }
    fn s_is_infinite(self) -> bool {
        self.is_infinite()
    }
    fn s_exp10(self) -> i32 {
        self.exp10()
    }
    fn s_zero() -> F {
        F::zero()
    }
    fn s_one() -> F {
        F::one()
    }
    fn s_pi() -> F {
        F::pi()
    }
    fn s_infinity() -> F {
        F::infinity()
    }
    fn s_from_usize(n: usize) -> F {
        F::from_usize(n)
    }
}

#[test]
fn round_test() {
    assert_eq!(round(F(8.7), 0), F(9.0));
    assert_eq!(round(F(3.2), 0), F(3.0));
    assert_eq!(round(F(-1.2), 0), F(-1.0));
    assert_eq!(round(F(-1.5), 0), F(-2.0));
    assert_eq!(round(F(-1.49), 0), F(-1.0));
    assert_eq!(round(F(1.51), 0), F(2.0));

    assert_eq!(round(F(1.9256), 1), F(1.9));
    assert_eq!(round(F(1.9256), 2), F(1.93));
    assert_eq!(round(F(1.9256), 3), F(1.926));
    assert_eq!(round(F(1.9256), 4), F(1.9256));
}

#[test]
fn aprox_test() {
    assert_eq!(aprox(F(10.05), F(0.1)), (F(10.05), F(0.1)));
    assert_eq!(aprox(F(10.14), F(0.22)), (F(10.1), F(0.2)));
    assert_eq!(aprox(F(10.14), F(0.15)), (F(10.14), F(0.15)));
    assert_eq!(aprox(F(10.14), F(0.151)), (F(10.1), F(0.2)));
}

#[test]
fn unpack_test() {
    assert_eq!(
        Measure::new(vec![F(1.)], vec![F(2.)], false).unwrap().unpack(),
        (&vec![F(1.)], &vec![F(2.)])
    )
}

/// A measure from plain doubles, rounded to significant figures when asked.
fn measure(values: &[f64], errors: &[f64], aproximate: bool) -> Measure<F> {
    Measure::new(
        values.iter().map(|v| F(*v)).collect(),
        errors.iter().map(|e| F(*e)).collect(),
        aproximate,
    )
    .unwrap()
}

#[test]
fn get_and_set() {
    let mut measure1 = measure(&[1., 2., 3.], &[2., 2., 2.], false);

    let mut measure2 = measure(&[4., 5., 6.], &[1., 1., 1.], false);

    measure2.set(2, (F(0.), F(0.)));

    measure1.set_value(0, F(15.));

    measure1.set_error(1, F(0.));

    assert_eq!(measure1.get(2), Some((&F(3.), &F(2.))));
    assert_eq!(measure2, measure(&[4., 5., 0.], &[1., 1., 0.], false));
    assert_eq!(measure1, measure(&[15., 2., 3.], &[2., 0., 2.], false));
}

#[test]
fn operations() {
    let x = measure(&[1., 2., 3., 4.], &[0.1, 0.2, 0.3, 0.4], true);
    let y = measure(&[0.5, 0.6, 0.7, 0.8], &[0.05, 0.06, 0.07, 0.08], true);

    assert_eq!(
        x.pow(F(2.0)).aprox(),
        measure(&[1., 4., 9., 16.], &[0.2, 0.8, 1.8, 3.2], true)
    );

    assert_eq!(
        x.sqrt().aprox(),
        measure(&[1.0, 1.41, 1.73, 2.0], &[0.05, 0.07, 0.09, 0.1], true)
    );

    assert_eq!(
        x.sin().aprox(),
        measure(&[0.84, 0.91, 0.1, -0.8], &[0.05, 0.08, 0.3, 0.3], true)
    );

    assert_eq!(
        x.cos().aprox(),
        measure(&[0.54, -0.4, -0.99, -0.7], &[0.08, 0.2, 0.04, 0.3], true)
    );

    assert_eq!(
        x.tan().aprox(),
        measure(&[1.6, -2.2, -0.1, 1.2], &[0.3, 1.2, 0.3, 0.9], true)
    );

    assert_eq!(
        y.asin().aprox(),
        measure(&[0.52, 0.64, 0.78, 0.93], &[0.06, 0.07, 0.1, 0.13], true)
    );

    assert_eq!(
        y.acos().aprox(),
        measure(&[1.05, 0.93, 0.8, 0.64], &[0.06, 0.07, 0.1, 0.13], true)
    );

    assert_eq!(
        x.atan().aprox(),
        measure(&[0.79, 1.11, 1.25, 1.33], &[0.05, 0.04, 0.03, 0.02], true)
    );

    assert_eq!(
        x.atan2(&y).aprox(),
        measure(&[1.11, 1.28, 1.34, 1.37], &[0.06, 0.04, 0.03, 0.03], true)
    );

    assert_eq!(
        x.ln().aprox(),
        measure(&[0.0, 0.69, 1.1, 1.39], &[0.1, 0.1, 0.1, 0.1], true)
    );

    assert_eq!(
        x.exp().aprox(),
        measure(&[2.72, 7.4, 20.1, 55.0], &[0.1, 0.4, 0.9, 2.0], true)
    );

    assert_eq!(
        x.add(&y).aprox(),
        measure(&[1.5, 2.6, 3.7, 4.8], &[0.11, 0.2, 0.3, 0.4], true)
    );

    assert_eq!(
        x.sub(&y).aprox(),
        measure(&[0.5, 1.4, 2.3, 3.2], &[0.11, 0.2, 0.3, 0.4], true)
    );

    assert_eq!(
        x.mul(&y).aprox(),
        measure(&[0.5, 1.2, 2.1, 3.2], &[0.07, 0.2, 0.3, 0.5], true)
    );

    assert_eq!(
        x.div(&y).aprox(),
        measure(&[2.0, 3.3, 4.3, 5.0], &[0.3, 0.5, 0.6, 0.7], true)
    );
}

/// The exponential decay model `a * exp(-b * x)` under coefficients `[a, b]`.
struct ExpModel;

impl Model<F> for ExpModel {
    fn eval(&self, x: &F, coefs: &Vec<F>) -> F {
        F(coefs[0].0 * (-x.0 * coefs[1].0).exp())
    }

    // Never called outside the verifier; the runtime sequence type carries no
    // way to read coefficients back.
    fn s_eval(&self, _x: F, _coefs: vstd::prelude::Seq<F>) -> F {
        F(0.0)
    }
}

#[test]
fn fit_test() {
    assert_eq!(
        LinearFit::new(
            vec![F(0.7), F(1.8), F(2.7), F(4.3)],
            vec![F(4.6), F(5.4), F(6.9), F(8.1)]
        )
        .fit(),
        (
            measure(&[1.0111550917596268], &[0.1158958350259736], false),
            measure(&[3.8485066570708875], &[0.31479109479486966], false)
        )
    );
    assert_eq!(
        LinearFit::new(
            vec![F(0.7), F(1.8), F(2.7), F(4.3)],
            vec![F(4.6), F(5.4), F(6.9), F(8.1)]
        )
        .y_error(vec![F(0.1), F(0.3), F(0.4), F(0.7)])
        .fit(),
        (
            measure(&[0.9963598861989915], &[0.13329751086990216], false),
            measure(&[3.8896028985935134], &[0.15825404095614476], false)
        )
    );
    assert_eq!(
        CurveFit::new(
            ExpModel,
            vec![F(0.042), F(0.2), F(0.33), F(0.6)],
            vec![F(1.6), F(1.25), F(0.8), F(0.34)]
        )
        .initial_zeros(2)
        .fit(),
        vec![
            measure(&[1.8368313871324062], &[0.1339378128643651], false),
            measure(&[2.4591460197698325], &[0.35963907104421394], false)
        ]
    )
}

#[test]
fn broadcast_fills_every_error() {
    let m = Measure::new(vec![F(1.), F(2.), F(3.), F(4.)], vec![F(0.5)], false).unwrap();
    assert_eq!(m.len(), 4);
    assert_eq!(m.error(), &vec![F(0.5), F(0.5), F(0.5), F(0.5)]);
    assert_eq!(m.value(), &vec![F(1.), F(2.), F(3.), F(4.)]);
}

#[test]
fn invalid_error_length_is_refused() {
    assert_eq!(
        Measure::new(vec![F(1.), F(2.), F(3.)], vec![F(0.1), F(0.2)], false),
        Err(MyError::InvalidErrorLen)
    );
    assert_eq!(
        Measure::new(vec![F(1.), F(2.), F(3.)], vec![F(0.1); 4], false),
        Err(MyError::InvalidErrorLen)
    );
    assert!(Measure::new(vec![F(1.), F(2.), F(3.)], vec![F(0.1); 3], false).is_ok());
    assert!(Measure::new(vec![F(1.), F(2.), F(3.)], vec![F(0.1)], false).is_ok());
    let e = Measure::new(vec![F(1.)], vec![], false).unwrap_err();
    assert_eq!(
        e.message(),
        "You're only allowed to assign either one error for all values or one error for each value."
    );
}

#[test]
fn addition_combines_errors_in_quadrature() {
    let a = measure(&[1., 2., 3.], &[0.1, 0.2, 0.3], false);
    let b = measure(&[4., 5., 6.], &[0.4, 0.5, 0.6], false);
    let c = a.add(&b);
    for i in 0..3 {
        let ae = a.error()[i].0;
        let be = b.error()[i].0;
        assert_eq!(c.error()[i].0, (ae.powi(2) + be.powi(2)).sqrt());
        assert_eq!(c.value()[i].0, a.value()[i].0 + b.value()[i].0);
    }
}

#[test]
fn broadcast_addition_combines_errors() {
    let single = measure(&[10.], &[0.5], false);
    let many = measure(&[1., 2., 3.], &[0.1, 0.2, 0.3], false);
    let c = single.add(&many);
    assert_eq!(c.len(), 3);
    for i in 0..3 {
        assert_eq!(
            c.error()[i].0,
            (0.5f64.powi(2) + many.error()[i].0.powi(2)).sqrt()
        );
        assert_eq!(c.value()[i].0, 10. + many.value()[i].0);
    }
}

#[test]
fn aprox_is_idempotent() {
    let m = measure(&[10.14, 2.71828, 0.009], &[0.22, 0.004, 0.013], false);
    let once = m.aprox();
    let twice = once.clone().aprox();
    assert_eq!(once, twice);

    let (v, e) = aprox(F(10.14), F(0.22));
    assert_eq!(aprox(v, e), (v, e));
}

#[test]
fn aprox_edge_cases() {
    assert_eq!(aprox(F(5.0), F(0.0)), (F(5.0), F(0.0)));
    assert_eq!(aprox(F(5.0), F(f64::INFINITY)), (F(0.0), F(f64::INFINITY)));
    let (v, e) = aprox(F(f64::NAN), F(0.22));
    assert!(v.0.is_nan());
    assert_eq!(e, F(0.2));
    let (v, e) = aprox(F(f64::INFINITY), F(0.22));
    assert_eq!(v, F(f64::INFINITY));
    assert_eq!(e, F(0.2));
}

#[test]
fn aggregate_statistics() {
    let m = measure(&[1., 2., 3.], &[0.1, 0.1, 0.1], false);
    assert_eq!(m.mean(), F(2.0));
    assert_eq!(m.standard_deviation(), F(1.0));
    assert_eq!(m.standard_error(), F(1.0 / 3f64.sqrt()));
    let est = m.estimation();
    let se = 1.0 / 3f64.sqrt();
    for i in 0..3 {
        assert_eq!(est.value()[i], F(2.0));
        assert_eq!(est.error()[i].0, (se.powi(2) + 0.1f64.powi(2)).sqrt());
    }
}

#[test]
fn delta_differences() {
    let m = measure(&[1., 2., 4.], &[0.1, 0.2, 0.3], false);
    let d = m.delta();
    assert_eq!(d.len(), 2);
    assert_eq!(d.value(), &vec![F(1.0), F(2.0)]);
    assert_eq!(
        d.error(),
        &vec![
            F((0.1f64.powi(2) + 0.2f64.powi(2)).sqrt()),
            F((0.2f64.powi(2) + 0.3f64.powi(2)).sqrt())
        ]
    );
    assert!(measure(&[7.], &[0.1], false).delta().is_empty());
}

#[test]
fn scalar_number_operations() {
    let m = measure(&[1., 2.], &[0.1, 0.2], false);
    assert_eq!(m.add_num(F(3.)), measure(&[4., 5.], &[0.1, 0.2], false));
    assert_eq!(m.sub_num(F(1.)), measure(&[0., 1.], &[0.1, 0.2], false));
    let scaled = m.mul_num(F(-2.));
    assert_eq!(scaled, measure(&[-2., -4.], &[0.2, 0.4], false));
    let halved = m.div_num(F(2.));
    assert_eq!(halved, measure(&[0.5, 1.], &[0.05, 0.1], false));
    let inv = m.num_div(F(1.));
    assert_eq!(inv.value(), &vec![F(1.0), F(0.5)]);
    assert_eq!(
        inv.error(),
        &vec![F(1.0 * 0.1 / 1.0), F(1.0 * 0.2 / 4.0)]
    );
}

#[test]
fn unit_conversions_and_style() {
    let m = measure(&[180.], &[90.], false);
    let r = m.rad();
    assert_eq!(r.value()[0].0, 180. * PI / 180.);
    assert_eq!(r.error()[0].0, 90. * PI / 180.);
    let g = r.grad();
    assert_eq!(g.value()[0].0, (180. * PI / 180.) * 180. / PI);

    let styled = m.change_style(Style::LatexTable);
    assert_eq!(styled.style(), &Style::LatexTable);
    assert_eq!(styled.value(), &vec![F(180.)]);

    let singles = styled.list_of_measures();
    assert_eq!(singles.len(), 1);
    assert_eq!(singles[0].value(), &vec![F(180.)]);
    assert_eq!(singles[0].style(), &Style::PM);

    let pairs = styled.iter();
    assert_eq!(pairs, vec![(F(180.), F(90.))]);
    assert!(!styled.is_empty());
}

#[test]
fn matrix_inversion_roundtrip() {
    let m = vec![vec![F(4.), F(7.)], vec![F(2.), F(6.)]];
    let inv = invert_matrix(&m).unwrap();
    let expected = [[0.6, -0.7], [-0.2, 0.4]];
    for i in 0..2 {
        for j in 0..2 {
            assert!((inv[i][j].0 - expected[i][j]).abs() < 1e-12);
        }
    }

    let singular = vec![vec![F(1.), F(2.)], vec![F(2.), F(4.)]];
    assert!(invert_matrix(&singular).is_none());

    let ragged = vec![vec![F(1.), F(2.)], vec![F(3.)]];
    assert!(invert_matrix(&ragged).is_none());
}

#[test]
fn transpose_swaps_rows_and_columns() {
    let t = transpose(vec![vec![1, 2], vec![3, 4], vec![5, 6]]);
    assert_eq!(t, vec![vec![1, 3, 5], vec![2, 4, 6]]);
}

#[test]
fn reader_configuration() {
    let r = Reader::new("data.txt", 2).separator(";").line("\r\n").decimal(".").by_columns(false);
    assert_eq!(r.parts(), ("data.txt", ";", "\r\n", ".", 2, false));
    let d = Reader::new("data.txt", 0);
    assert_eq!(d.parts(), ("data.txt", "\t", "\n", ",", 0, true));
}

#[test]
fn linear_r_value() {
    let fitting = LinearFit::new(
        vec![F(0.7), F(1.8), F(2.7), F(4.3)],
        vec![F(4.6), F(5.4), F(6.9), F(8.1)],
    );
    let r = fitting.r_value().0;
    assert!((r - 0.9871).abs() < 1e-3);
    assert!(r <= 1.0);
}

#[test]
fn curve_fit_r_value() {
    let r = CurveFit::new(
        ExpModel,
        vec![F(0.042), F(0.2), F(0.33), F(0.6)],
        vec![F(1.6), F(1.25), F(0.8), F(0.34)],
    )
    .initial_zeros(2)
    .r_value()
    .0;
    assert!(r > 0.9 && r <= 1.0);
}

#[test]
fn line_model_fit_holds_the_optimum() {
    // Data on the exact line y = 2x + 1, with the search started at the
    // optimum: the best vertex is never displaced, and the fit returns it.
    let fit = CurveFit::new(
        ferrilab::LineModel,
        vec![F(0.), F(1.), F(2.), F(3.), F(4.)],
        vec![F(1.), F(3.), F(5.), F(7.), F(9.)],
    )
    .initial_point(vec![F(2.), F(1.)])
    .fit();
    assert_eq!(fit[0].value()[0], F(2.0));
    assert_eq!(fit[1].value()[0], F(1.0));
}

#[test]
fn iteration_cap_stops_the_search() {
    // With a cap of zero iterations the search never moves, and the fit
    // reports the best vertex of the starting simplex: here the one with the
    // first coordinate stepped by the default scale of one half.
    let fit = CurveFit::new(
        ExpModel,
        vec![F(0.042), F(0.2), F(0.33), F(0.6)],
        vec![F(1.6), F(1.25), F(0.8), F(0.34)],
    )
    .initial_point(vec![F(1.), F(2.)])
    .max_iterations(Some(0))
    .fit();
    assert_eq!(fit[0].value()[0], F(1.5));
    assert_eq!(fit[1].value()[0], F(2.0));
}

#[test]
fn style_rendering() {
    let vals = vec!["10.1".to_string(), "2.4".to_string()];
    let errs = vec!["0.2".to_string(), "0.5".to_string()];
    assert_eq!(Style::PM.disp(&vals, &errs), "10.1 \u{b1} 0.2, 2.4 \u{b1} 0.5");
    assert_eq!(Style::List.disp(&vals, &errs), "[10.1, 2.4] \u{b1} [0.2, 0.5]");
    assert_eq!(
        Style::Table.disp(&vals, &errs),
        "This style is only for one value and its error."
    );
    let v1 = vec!["10.1".to_string()];
    let e1 = vec!["0.2".to_string()];
    assert_eq!(Style::Table.disp(&v1, &e1), "10.1 \u{b1} 0.2");
    assert_eq!(Style::LatexTable.disp(&v1, &e1), "$10.1 \\pm 0.2$");
    assert_eq!(Style::TypstTable.disp(&v1, &e1), "$10.1 plus.minus 0.2$");
}

#[test]
fn aprox_to_rounds_both_vectors() {
    let m = measure(&[1.9256, 3.14159], &[0.012, 0.045], false).aprox_to(2);
    assert_eq!(m, measure(&[1.93, 3.14], &[0.01, 0.04], false));
}
