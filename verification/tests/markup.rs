use hypixel_stats::color::Color;
use hypixel_stats::markup::{parse_and_flatten, parse_color, parse_nodes, parse_nodes_rec, flatten_nodes, Node, from_str_radix_16, find_char};

fn seg(text: &str, color: Option<Color>) -> (String, Option<Color>) {
    (text.to_string(), color)
}

fn rgb(r: u8, g: u8, b: u8) -> Option<Color> {
    Some(Color { a: 255, r, g, b })
}

#[test]
fn plain_text_is_one_uncoloured_segment() {
    assert_eq!(parse_and_flatten("Hello world"), vec![seg("Hello world", None)]);
}

#[test]
fn empty_text_has_no_segments() {
    assert!(parse_and_flatten("").is_empty());
}

#[test]
fn named_colour_tag() {
    assert_eq!(parse_and_flatten("<green>Hi</green> there"), vec![seg("Hi", rgb(0x55, 0xFF, 0x55)), seg(" there", None)]);
}

#[test]
fn tag_names_ignore_case() {
    assert_eq!(parse_and_flatten("<GoLd>x</GoLd>"), vec![seg("x", rgb(0xFF, 0xAA, 0x00))]);
}

#[test]
fn hex_colour_tags() {
    assert_eq!(parse_and_flatten("<#ffe900>Solo</#ffe900>"), vec![seg("Solo", rgb(0xFF, 0xE9, 0x00))]);
    assert_eq!(
        parse_and_flatten("<#80102030>a</#80102030>"),
        vec![seg("a", Some(Color { a: 0x80, r: 0x10, g: 0x20, b: 0x30 }))]
    );
}

#[test]
fn nested_tags_inherit_colour() {
    assert_eq!(
        parse_and_flatten("<red>a<bold>b</bold><aqua>c</aqua>d</red>"),
        vec![
            seg("a", rgb(0xFF, 0x55, 0x55)),
            seg("b", rgb(0xFF, 0x55, 0x55)),
            seg("c", rgb(0x55, 0xFF, 0xFF)),
            seg("d", rgb(0xFF, 0x55, 0x55)),
        ]
    );
}

#[test]
fn unmatched_closing_tag_is_text() {
    assert_eq!(
        parse_and_flatten("<red>a</blue>b</red>"),
        vec![seg("a", rgb(0xFF, 0x55, 0x55)), seg("</blue>", rgb(0xFF, 0x55, 0x55)), seg("b", rgb(0xFF, 0x55, 0x55))]
    );
    assert_eq!(parse_and_flatten("x</red>"), vec![seg("x", None), seg("</red>", None)]);
}

#[test]
fn inner_mismatch_does_not_close_outer() {
    // `</red>` inside `<b>` does not end `<red>`: it is text of `<b>`.
    assert_eq!(
        parse_and_flatten("<red><b>x</red>y"),
        vec![seg("x", rgb(0xFF, 0x55, 0x55)), seg("</red>", rgb(0xFF, 0x55, 0x55)), seg("y", rgb(0xFF, 0x55, 0x55))]
    );
}

#[test]
fn unclosed_tag_runs_to_the_end() {
    assert_eq!(parse_and_flatten("<yellow>abc"), vec![seg("abc", rgb(0xFF, 0xFF, 0x55))]);
}

#[test]
fn lone_angle_bracket_makes_the_rest_text() {
    assert_eq!(parse_and_flatten("a <b c"), vec![seg("a ", None), seg("<b c", None)]);
    assert_eq!(parse_and_flatten("</abc"), vec![seg("</abc", None)]);
}

#[test]
fn unknown_tag_keeps_colour() {
    assert_eq!(parse_and_flatten("<nope>z</nope>"), vec![seg("z", None)]);
    assert_eq!(parse_and_flatten("<#12345>z</#12345>"), vec![seg("z", None)]);
}

#[test]
fn parse_colour_forms() {
    assert_eq!(parse_color("white"), rgb(0xFF, 0xFF, 0xFF));
    assert_eq!(parse_color("DARK_GREEN"), rgb(0x00, 0xAA, 0x00));
    assert_eq!(parse_color("#FfAa00"), rgb(0xFF, 0xAA, 0x00));
    assert_eq!(parse_color("#+ABCDE"), rgb(0x0A, 0xBC, 0xDE));
    assert_eq!(parse_color("#GGGGGG"), None);
    assert_eq!(parse_color("#1234567"), None);
    assert_eq!(parse_color("#"), None);
    assert_eq!(parse_color("purple"), None);
    assert_eq!(parse_color("#ff00ff00"), Some(Color { a: 0xFF, r: 0x00, g: 0xFF, b: 0x00 }));
}

#[test]
fn radix_16_parsing() {
    assert_eq!(from_str_radix_16("ff"), Some(255));
    assert_eq!(from_str_radix_16("+1A"), Some(26));
    assert_eq!(from_str_radix_16("+"), None);
    assert_eq!(from_str_radix_16("-1"), None);
    assert_eq!(from_str_radix_16(""), None);
    assert_eq!(from_str_radix_16("FFFFFFFF"), Some(u32::MAX));
    assert_eq!(from_str_radix_16("100000000"), None);
}

#[test]
fn find_first_character() {
    assert_eq!(find_char("ab>c>", '>'), Some(2));
    assert_eq!(find_char("abc", '>'), None);
}

#[test]
fn parse_tree_shape() {
    let nodes = parse_nodes("a<red>b<x>c</x></red>d");
    assert_eq!(nodes.len(), 3);
    match &nodes[1] {
        Node::Tag { tag, children } => {
            assert_eq!(tag, "red");
            assert_eq!(children.len(), 2);
            match &children[1] {
                Node::Tag { tag, children } => {
                    assert_eq!(tag, "x");
                    assert_eq!(children.len(), 1);
                }
                Node::Text(_) => panic!("expected a tag"),
            }
        }
        Node::Text(_) => panic!("expected a tag"),
    }
    match &nodes[2] {
        Node::Text(t) => assert_eq!(t, "d"),
        Node::Tag { .. } => panic!("expected text"),
    }
}

#[test]
fn parse_up_to_expected_closing_tag() {
    let (nodes, rest) = parse_nodes_rec("ab</red>cd", Some("</red>"));
    assert_eq!(nodes.len(), 1);
    assert_eq!(rest, "cd");
    let (nodes, rest) = parse_nodes_rec("ab</red>cd", None);
    assert_eq!(nodes.len(), 3);
    assert_eq!(rest, "");
}

#[test]
fn flatten_with_a_starting_colour() {
    let nodes = parse_nodes("a<nope>b</nope>");
    let white = rgb(255, 255, 255);
    assert_eq!(flatten_nodes(&nodes, white), vec![seg("a", white), seg("b", white)]);
}
