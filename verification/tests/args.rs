use siset::numbers::{from_base_10, from_base_16};
use siset::selectors::{arg_clk, arg_pll, default_clk, default_pll, ClockOutput, Pll};

#[test]
fn base_10_accepts_plain_numerals() {
    assert_eq!(from_base_10("0"), Ok(0));
    assert_eq!(from_base_10("7"), Ok(7));
    assert_eq!(from_base_10("25000000"), Ok(25_000_000));
    assert_eq!(from_base_10("007"), Ok(7));
}

#[test]
fn base_10_accepts_a_leading_plus() {
    assert_eq!(from_base_10("+25000000"), Ok(25_000_000));
    assert_eq!(from_base_10("+0"), Ok(0));
}

#[test]
fn base_10_accepts_the_largest_value() {
    assert_eq!(from_base_10("4294967295"), Ok(u32::MAX));
}

#[test]
fn base_10_rejects_values_over_u32_max() {
    assert!(from_base_10("4294967296").is_err());
    assert!(from_base_10("99999999999999999999").is_err());
}

#[test]
fn base_10_rejects_malformed_text() {
    assert!(from_base_10("").is_err());
    assert!(from_base_10("+").is_err());
    assert!(from_base_10("-1").is_err());
    assert!(from_base_10(" 1").is_err());
    assert!(from_base_10("1 ").is_err());
    assert!(from_base_10("12a").is_err());
    assert!(from_base_10("0x10").is_err());
    assert!(from_base_10("1.5").is_err());
}

#[test]
fn base_10_error_message() {
    assert_eq!(
        from_base_10("oops"),
        Err(String::from("Unable to convert address from base 10"))
    );
}

#[test]
fn base_16_accepts_byte_values() {
    assert_eq!(from_base_16("0"), Ok(0));
    assert_eq!(from_base_16("60"), Ok(0x60));
    assert_eq!(from_base_16("ff"), Ok(255));
    assert_eq!(from_base_16("FF"), Ok(255));
    assert_eq!(from_base_16("+7f"), Ok(127));
    assert_eq!(from_base_16("0Ab"), Ok(0xAB));
}

#[test]
fn base_16_rejects_values_over_a_byte() {
    assert!(from_base_16("100").is_err());
    assert!(from_base_16("fff").is_err());
}

#[test]
fn base_16_rejects_malformed_text() {
    assert!(from_base_16("").is_err());
    assert!(from_base_16("+").is_err());
    assert!(from_base_16("g").is_err());
    assert!(from_base_16("-1").is_err());
    assert!(from_base_16("7f ").is_err());
}

#[test]
fn base_16_error_message() {
    assert_eq!(
        from_base_16("zz"),
        Err(String::from("Unable to convert address from base 16"))
    );
}

#[test]
fn clk_selector_maps_the_three_outputs() {
    assert_eq!(arg_clk("0"), Ok(ClockOutput::Clk0));
    assert_eq!(arg_clk("1"), Ok(ClockOutput::Clk1));
    assert_eq!(arg_clk("2"), Ok(ClockOutput::Clk2));
}

#[test]
fn clk_selector_rejects_everything_else() {
    for bad in ["3", "a", "", "00", "+1", "A", " 0", "10"] {
        assert_eq!(
            arg_clk(bad),
            Err(String::from("PLL must be \"0\", \"1\", or \"2\""))
        );
    }
}

#[test]
fn pll_selector_maps_the_two_plls() {
    assert_eq!(arg_pll("A"), Ok(Pll::A));
    assert_eq!(arg_pll("B"), Ok(Pll::B));
}

#[test]
fn pll_selector_rejects_everything_else() {
    for bad in ["a", "b", "C", "AB", "", "0", " A"] {
        assert_eq!(arg_pll(bad), Err(String::from("PLL must be \"A\" or \"B\"")));
    }
}

#[test]
fn defaults_are_clk0_and_pll_a() {
    assert_eq!(default_clk(), ClockOutput::Clk0);
    assert_eq!(default_pll(), Pll::A);
}
