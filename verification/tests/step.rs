use bb::decimal::push_decimal;
use bb::decimal::read_u8;
use bb::error::TextureError;
use bb::step::Step;

fn chars(s: &str) -> Vec<char> {
    s.chars().collect()
}

fn malformed(text: &str) {
    assert_eq!(
        Step::try_from(text),
        Err(TextureError::MalformedStep(text.to_string())),
        "{:?}",
        text
    );
}

#[test]
fn reads_a_plain_step() {
    let step = Step::try_from("dirt:0..127").unwrap();
    assert_eq!(step.name, "dirt");
    assert_eq!(step.start, 0);
    assert_eq!(step.end, 127);
}

#[test]
fn reads_the_whole_domain() {
    assert_eq!(
        Step::try_from("water:0..255"),
        Ok(Step { name: "water".to_string(), start: 0, end: 255 })
    );
}

#[test]
fn writes_the_canonical_form() {
    let step = Step { name: "grass".to_string(), start: 128, end: 255 };
    assert_eq!(step.to_string(), "grass:128..255");
}

#[test]
fn push_to_appends_to_what_is_there() {
    let step = Step { name: "a".to_string(), start: 1, end: 20 };
    let mut out = String::from("x ");
    step.push_to(&mut out);
    assert_eq!(out, "x a:1..20");
}

#[test]
fn round_trip_of_canonical_descriptions() {
    for text in ["dirt:0..127", "grass:128..255", "a:0..0", "dirt-1:26..51", "x:255..255", "t:9..10", "t:99..100"] {
        let step = Step::try_from(text).unwrap();
        assert_eq!(step.to_string(), text);
    }
}

#[test]
fn round_trip_settles_on_the_canonical_form() {
    let step = Step::try_from("dirt:007..+9").unwrap();
    assert_eq!(step, Step { name: "dirt".to_string(), start: 7, end: 9 });
    let canonical = step.to_string();
    assert_eq!(canonical, "dirt:7..9");
    let again = Step::try_from(&canonical).unwrap();
    assert_eq!(again, step);
    assert_eq!(again.to_string(), canonical);
}

#[test]
fn round_trip_over_every_pair_of_bounds_on_a_diagonal() {
    for n in 0..=255u8 {
        let step = Step { name: "tile".to_string(), start: n, end: 255 - n };
        let again = Step::try_from(&step.to_string()).unwrap();
        assert_eq!(again, step);
    }
}

#[test]
fn a_reversed_range_is_read() {
    assert_eq!(
        Step::try_from("a:9..3"),
        Ok(Step { name: "a".to_string(), start: 9, end: 3 })
    );
}

#[test]
fn the_name_may_hold_dots_and_spaces() {
    let step = Step::try_from("dirt.1 b:0..5").unwrap();
    assert_eq!(step.name, "dirt.1 b");
    assert_eq!(step.to_string(), "dirt.1 b:0..5");
}

#[test]
fn the_name_may_be_empty() {
    assert_eq!(
        Step::try_from(":0..5"),
        Ok(Step { name: String::new(), start: 0, end: 5 })
    );
}

#[test]
fn the_name_may_hold_any_script() {
    let step = Step::try_from("草地:10..20").unwrap();
    assert_eq!(step.name, "草地");
    assert_eq!(step.start, 10);
    assert_eq!(step.end, 20);
    assert_eq!(step.to_string(), "草地:10..20");
}

#[test]
fn a_description_without_colon_is_malformed() {
    malformed("dirt");
    malformed("");
    malformed("0..5");
}

#[test]
fn a_second_colon_is_malformed() {
    malformed("a:b:0..1");
    malformed("a:0..1:");
    malformed("::0..1");
}

#[test]
fn the_bounds_need_two_dots_between_them() {
    malformed("dirt:0.127");
    malformed("dirt:0127");
    malformed("dirt:0...127");
    malformed("dirt:0....127");
    malformed("dirt:0..1..2");
    malformed("dirt:..");
    malformed("dirt:");
    malformed("dirt:.");
}

#[test]
fn each_bound_must_be_a_number() {
    malformed("dirt:..5");
    malformed("dirt:5..");
    malformed("dirt:a..5");
    malformed("dirt:0..b");
    malformed("dirt:0x1..5");
    malformed("dirt: 0..5");
    malformed("dirt:0..5 ");
    malformed("dirt:0 ..5");
    malformed("dirt:-1..5");
    malformed("dirt:0..-5");
    malformed("dirt:+..5");
    malformed("dirt:1_0..50");
    malformed("dirt:٣..5");
}

#[test]
fn each_bound_must_fit_eight_bits() {
    malformed("dirt:0..256");
    malformed("dirt:256..0");
    malformed("dirt:0..1000");
    malformed("dirt:0..99999999999999999999999999");
    assert!(Step::try_from("dirt:0..255").is_ok());
    assert!(Step::try_from("dirt:0..0000000000000000000000255").is_ok());
}

#[test]
fn the_error_holds_the_description() {
    match Step::try_from("bad step") {
        Err(TextureError::MalformedStep(text)) => assert_eq!(text, "bad step"),
        other => panic!("{:?}", other),
    }
}

#[test]
fn read_u8_takes_an_optional_plus_and_leading_zeros() {
    assert_eq!(read_u8(&chars("0")), Some(0));
    assert_eq!(read_u8(&chars("7")), Some(7));
    assert_eq!(read_u8(&chars("+7")), Some(7));
    assert_eq!(read_u8(&chars("007")), Some(7));
    assert_eq!(read_u8(&chars("+000")), Some(0));
    assert_eq!(read_u8(&chars("255")), Some(255));
    assert_eq!(read_u8(&chars("128")), Some(128));
}

#[test]
fn read_u8_refuses_what_is_no_literal() {
    for text in ["", "+", "-", "-0", "++1", "1+", "256", "300", "2550", "1.0", " 1", "1 ", "a", "１"] {
        assert_eq!(read_u8(&chars(text)), None, "{:?}", text);
    }
}

#[test]
fn read_u8_agrees_with_the_standard_library() {
    for text in ["0", "00", "+0", "+255", "+256", "25", "099", "0255", "260", "999", "+", "", "-1", "12a", "a12", "1 2"] {
        assert_eq!(read_u8(&chars(text)), text.parse::<u8>().ok(), "{:?}", text);
    }
    for n in 0..=999u32 {
        let text = n.to_string();
        assert_eq!(read_u8(&chars(&text)), text.parse::<u8>().ok());
    }
}

#[test]
fn push_decimal_writes_the_shortest_notation() {
    for (n, text) in [
        (0u64, "0"),
        (9, "9"),
        (10, "10"),
        (42, "42"),
        (100, "100"),
        (255, "255"),
        (256, "256"),
        (1000, "1000"),
        (18446744073709551615, "18446744073709551615"),
    ] {
        let mut out = String::new();
        push_decimal(&mut out, n);
        assert_eq!(out, text);
    }
}

#[test]
fn push_decimal_agrees_with_the_standard_library() {
    let mut n: u64 = 1;
    for _ in 0..64 {
        let mut out = String::from("=");
        push_decimal(&mut out, n);
        assert_eq!(out, format!("={}", n));
        n = n.wrapping_mul(3).wrapping_add(7);
    }
}
