use blinky::division::{div_option, div_raw, div_result, DivError};

#[test]
fn div_raw_quotient() {
    assert_eq!(div_raw(12, 8), 1);
    assert_eq!(div_raw(12, 3), 4);
    assert_eq!(div_raw(255, 1), 255);
}

#[test]
fn div_option_some_and_none() {
    assert_eq!(div_option(12, 5), Some(2));
    assert_eq!(div_option(0, 7), Some(0));
    assert_eq!(div_option(12, 0), None);
}

#[test]
fn div_result_ok_and_err() {
    assert_eq!(div_result(12, 4), Ok(3));
    assert_eq!(div_result(12, 0), Err(DivError::BadDenominator(0)));
}
