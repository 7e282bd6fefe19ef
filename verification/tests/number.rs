use loxrs::number::{
    number_is_nan, number_is_zero, number_less, number_less_or_same, number_negate, number_same,
};

fn samples() -> Vec<f64> {
    vec![
        0.0,
        -0.0,
        1.0,
        -1.0,
        0.5,
        -0.5,
        1e300,
        -1e300,
        5e-324,
        -5e-324,
        f64::MAX,
        f64::MIN,
        f64::INFINITY,
        f64::NEG_INFINITY,
        f64::NAN,
        -f64::NAN,
        f64::from_bits(0x7FF0_0000_0000_0001),
        3.0,
        2.999999999999999,
    ]
}

#[test]
fn order_agrees_with_doubles() {
    for a in samples() {
        for b in samples() {
            let (x, y) = (a.to_bits(), b.to_bits());
            assert_eq!(number_less(x, y), a < b, "{a} < {b}");
            assert_eq!(number_less_or_same(x, y), a <= b, "{a} <= {b}");
            assert_eq!(number_same(x, y), a == b, "{a} == {b}");
        }
    }
}

#[test]
fn classes_agree_with_doubles() {
    for a in samples() {
        assert_eq!(number_is_nan(a.to_bits()), a.is_nan());
        assert_eq!(number_is_zero(a.to_bits()), a == 0.0);
        assert_eq!(number_negate(a.to_bits()), (-a).to_bits());
    }
}
