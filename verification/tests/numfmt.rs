use hypixel_stats::numfmt::{num, num_fixed, parse_u64, stat, stat_row, stat_text, StatType};
use hypixel_stats::markup::parse_and_flatten;
use hypixel_stats::color::Color;

#[test]
fn integers_grouped_by_thousands() {
    assert_eq!(num(Some(0)), "0");
    assert_eq!(num(Some(999)), "999");
    assert_eq!(num(Some(1000)), "1,000");
    assert_eq!(num(Some(1234567)), "1,234,567");
    assert_eq!(num(Some(u64::MAX)), "18,446,744,073,709,551,615");
}

#[test]
fn unsupported_integers() {
    assert_eq!(num(None), "Unsupported type");
}

#[test]
fn two_decimal_numbers() {
    assert_eq!(num_fixed("1234.57"), "1,234.57");
    assert_eq!(num_fixed("-1234.50"), "-1,234.50");
    assert_eq!(num_fixed("0.00"), "0.00");
    assert_eq!(num_fixed("-0.00"), "-0.00");
    assert_eq!(num_fixed("NaN"), "0.00");
    assert_eq!(num_fixed("inf"), "0.00");
    assert_eq!(num_fixed("-inf"), "-0.00");
    assert_eq!(num_fixed("12.34.56"), "12.34");
    assert_eq!(num_fixed("123456789012345678901234.00"), "0.00");
}

#[test]
fn float_formatting_pipeline() {
    let f: f32 = 2.3456;
    let rounded = ((f as f64) * 100.0).round() / 100.0;
    assert_eq!(num_fixed(&format!("{:.2}", rounded)), "2.35");
}

#[test]
fn parse_unsigned() {
    assert_eq!(parse_u64("42"), Some(42));
    assert_eq!(parse_u64("+42"), Some(42));
    assert_eq!(parse_u64("-42"), None);
    assert_eq!(parse_u64("+"), None);
    assert_eq!(parse_u64(""), None);
    assert_eq!(parse_u64("4a"), None);
    assert_eq!(parse_u64("18446744073709551615"), Some(u64::MAX));
    assert_eq!(parse_u64("18446744073709551616"), None);
}

#[test]
fn stats_are_coloured_by_type() {
    assert_eq!(stat(Some(1500), StatType::Positive), "<green>1,500</green>");
    assert_eq!(stat(Some(3), StatType::Negative), "<red>3</red>");
    assert_eq!(stat_text("1.25", StatType::Ratio), "<gold>1.25</gold>");
}

#[test]
fn stat_renders_in_its_colour() {
    assert_eq!(
        parse_and_flatten(&stat(Some(1234), StatType::Positive)),
        vec![("1,234".to_string(), Some(Color { a: 255, r: 0x55, g: 0xFF, b: 0x55 }))]
    );
    assert_eq!(
        parse_and_flatten(&stat(None, StatType::Ratio)),
        vec![("Unsupported type".to_string(), Some(Color { a: 255, r: 0xFF, g: 0xAA, b: 0x00 }))]
    );
}

#[test]
fn stats_table_row() {
    let row = stat_row("<white>Kills</white>", &vec![1, 2000, 3, 4, 5], StatType::Positive);
    assert_eq!(
        row,
        vec![
            "<white>Kills</white>".to_string(),
            "<green>1</green>".to_string(),
            "<green>2,000</green>".to_string(),
            "<green>3</green>".to_string(),
            "<green>4</green>".to_string(),
            "<green>5</green>".to_string(),
        ]
    );
}

#[test]
fn grouping_only_adds_commas() {
    for n in [0u64, 7, 999, 1000, 65536, 1_000_000, 987_654_321_012] {
        assert_eq!(num(Some(n)).replace(',', ""), n.to_string());
    }
}
