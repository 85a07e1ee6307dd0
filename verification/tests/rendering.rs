use cell_sorting::numfmt::{eps_milli_exec, push_digits, push_fixed};

fn fixed(v: i64, comma: bool) -> Vec<u8> {
    let mut out: Vec<u8> = Vec::new();
    push_fixed(&mut out, v, comma);
    out
}

#[test]
fn digits_render_most_significant_first() {
    let mut out: Vec<u8> = Vec::new();
    push_digits(&mut out, 0);
    assert_eq!(out, b"0".to_vec());
    out.clear();
    push_digits(&mut out, 1234567);
    assert_eq!(out, b"1234567".to_vec());
}

#[test]
fn fixed_point_trims_trailing_zeros() {
    assert_eq!(fixed(1500, false), b"1.5".to_vec());
    assert_eq!(fixed(1100, false), b"1.1".to_vec());
    assert_eq!(fixed(1000, false), b"1".to_vec());
    assert_eq!(fixed(0, false), b"0".to_vec());
    assert_eq!(fixed(-250, false), b"-0.25".to_vec());
    assert_eq!(fixed(12345, false), b"12.345".to_vec());
    assert_eq!(fixed(-1_000_000, false), b"-1000".to_vec());
}

#[test]
fn comma_form_changes_only_the_separator() {
    assert_eq!(fixed(1500, true), b"1,5".to_vec());
    assert_eq!(fixed(-250, true), b"-0,25".to_vec());
    assert_eq!(fixed(2000, true), b"2".to_vec());
}

#[test]
fn normalisation_rounds_down_in_thousandths() {
    assert_eq!(eps_milli_exec(384, 384), 1000);
    assert_eq!(eps_milli_exec(0, 384), 0);
    assert_eq!(eps_milli_exec(192, 384), 500);
    // -128 / 384 = -0.333..., floored to -334 thousandths.
    assert_eq!(eps_milli_exec(-128, 384), -334);
    assert_eq!(eps_milli_exec(-384, 384), -1000);
}
