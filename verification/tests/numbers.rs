use json_schema::number::Number;

fn num(x: f64) -> Number {
    Number::from_bits(x.to_bits())
}

#[test]
fn ordering_follows_binary64() {
    let samples = [
        f64::NEG_INFINITY, -1.0e300, -2.5, -1.0, -f64::MIN_POSITIVE, -0.0, 0.0, f64::MIN_POSITIVE,
        1.0, 2.5, 1.0e300, f64::INFINITY, f64::NAN,
    ];
    for a in samples {
        for b in samples {
            assert_eq!(num(a).le(&num(b)), a <= b);
            assert_eq!(num(a).lt(&num(b)), a < b);
            assert_eq!(num(a).equals(&num(b)), a == b);
        }
    }
}
