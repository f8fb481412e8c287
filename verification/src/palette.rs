//! The sixteen named chat colours and the shadow colour drawn under each.

use vstd::prelude::*;
use crate::color::{Color, opaque_rgb, color_from_rgb_u32, hex_of, color_to_hex, hex_digit};

verus! {

/// Number of named colours.
pub const PALETTE_LEN: usize = 16;

/// Name of the `i`-th named colour.
pub open spec fn palette_name(i: int) -> Seq<char> {
    if i == 0 { "black"@ }
    else if i == 1 { "dark_blue"@ }
    else if i == 2 { "dark_green"@ }
    else if i == 3 { "dark_aqua"@ }
    else if i == 4 { "dark_red"@ }
    else if i == 5 { "dark_purple"@ }
    else if i == 6 { "gold"@ }
    else if i == 7 { "gray"@ }
    else if i == 8 { "dark_gray"@ }
    else if i == 9 { "blue"@ }
    else if i == 10 { "green"@ }
    else if i == 11 { "aqua"@ }
    else if i == 12 { "red"@ }
    else if i == 13 { "light_purple"@ }
    else if i == 14 { "yellow"@ }
    else { "white"@ }
}

/// `0xRRGGBB` of the `i`-th named colour.
pub open spec fn palette_rgb(i: int) -> u32 {
    if i == 0 { 0x000000 }
    else if i == 1 { 0x0000AA }
    else if i == 2 { 0x00AA00 }
    else if i == 3 { 0x00AAAA }
    else if i == 4 { 0xAA0000 }
    else if i == 5 { 0xAA00AA }
    else if i == 6 { 0xFFAA00 }
    else if i == 7 { 0xAAAAAA }
    else if i == 8 { 0x555555 }
    else if i == 9 { 0x5555FF }
    else if i == 10 { 0x55FF55 }
    else if i == 11 { 0x55FFFF }
    else if i == 12 { 0xFF5555 }
    else if i == 13 { 0xFF55FF }
    else if i == 14 { 0xFFFF55 }
    else { 0xFFFFFF }
}

/// `0xRRGGBB` of the shadow drawn under text of the `i`-th named colour.
pub open spec fn palette_shadow_rgb(i: int) -> u32 {
    if i == 0 { 0x000000 }
    else if i == 1 { 0x00002A }
    else if i == 2 { 0x002A00 }
    else if i == 3 { 0x002A2A }
    else if i == 4 { 0x2A0000 }
    else if i == 5 { 0x2A002A }
    else if i == 6 { 0x2A2A00 }
    else if i == 7 { 0x2A2A2A }
    else if i == 8 { 0x151515 }
    else if i == 9 { 0x15153F }
    else if i == 10 { 0x153F15 }
    else if i == 11 { 0x153F3F }
    else if i == 12 { 0x3F1515 }
    else if i == 13 { 0x3F153F }
    else if i == 14 { 0x3F3F15 }
    else { 0x3F3F3F }
}

/// Name, colour and shadow colour of the `i`-th named colour.
pub fn palette_entry(i: usize) -> (e: (&'static str, u32, u32))
    requires
        i < PALETTE_LEN,
    ensures
        e.0@ == palette_name(i as int),
        e.1 == palette_rgb(i as int),
        e.2 == palette_shadow_rgb(i as int),
{
    match i {
        0 => ("black", 0x000000, 0x000000),
        1 => ("dark_blue", 0x0000AA, 0x00002A),
        2 => ("dark_green", 0x00AA00, 0x002A00),
        3 => ("dark_aqua", 0x00AAAA, 0x002A2A),
        4 => ("dark_red", 0xAA0000, 0x2A0000),
        5 => ("dark_purple", 0xAA00AA, 0x2A002A),
        6 => ("gold", 0xFFAA00, 0x2A2A00),
        7 => ("gray", 0xAAAAAA, 0x2A2A2A),
        8 => ("dark_gray", 0x555555, 0x151515),
        9 => ("blue", 0x5555FF, 0x15153F),
        10 => ("green", 0x55FF55, 0x153F15),
        11 => ("aqua", 0x55FFFF, 0x153F3F),
        12 => ("red", 0xFF5555, 0x3F1515),
        13 => ("light_purple", 0xFF55FF, 0x3F153F),
        14 => ("yellow", 0xFFFF55, 0x3F3F15),
        _ => ("white", 0xFFFFFF, 0x3F3F3F),
    }
}

/// Index of the first named colour, from `i` on, whose name is `name`.
pub open spec fn name_index_from(name: Seq<char>, i: int) -> Option<int>
    decreases 16 - i,
{
    if i < 0 || i >= 16 {
        None
    } else if palette_name(i) == name {
        Some(i)
    } else {
        name_index_from(name, i + 1)
    }
}

/// The opaque colour named `name`, if any.
pub open spec fn named_color(name: Seq<char>) -> Option<Color> {
    match name_index_from(name, 0) {
        Some(i) => Some(opaque_rgb(palette_rgb(i))),
        None => None,
    }
}

/// Looks a colour up by its exact (lower-case) name.
pub fn get_color(name: &str) -> (res: Option<Color>)
    ensures
        res == named_color(name@),
{
    let mut i: usize = 0;
    while i < PALETTE_LEN
        invariant
            i <= PALETTE_LEN,
            name_index_from(name@, 0) == name_index_from(name@, i as int),
        decreases PALETTE_LEN - i,
    {
        let (n, rgb, _) = palette_entry(i);
        if crate::text::str_eq(n, name) {
            return Some(color_from_rgb_u32(rgb));
        }
        i = i + 1;
    }
    None
}

/// Index of the first named colour, from `i` on, whose `#RRGGBB` is `hex`.
pub open spec fn hex_index_from(hex: Seq<char>, i: int) -> Option<int>
    decreases 16 - i,
{
    if i < 0 || i >= 16 {
        None
    } else if hex_of(opaque_rgb(palette_rgb(i))) == hex {
        Some(i)
    } else {
        hex_index_from(hex, i + 1)
    }
}

/// Position of `hex` (`#RRGGBB`, upper case) among the named colours.
pub fn position(hex: &str) -> (res: Option<usize>)
    ensures
        match res {
            Some(i) => i < PALETTE_LEN && hex_index_from(hex@, 0) == Some(i as int),
            None => hex_index_from(hex@, 0) is None,
        },
{
    let mut i: usize = 0;
    while i < PALETTE_LEN
        invariant
            i <= PALETTE_LEN,
            hex_index_from(hex@, 0) == hex_index_from(hex@, i as int),
        decreases PALETTE_LEN - i,
    {
        let (_, rgb, _) = palette_entry(i);
        let h = color_to_hex(color_from_rgb_u32(rgb));
        if crate::text::str_eq(h.as_str(), hex) {
            return Some(i);
        }
        i = i + 1;
    }
    None
}

/// A channel darkened by the factor 0.75: `c * 0.25`, rounded half up.
pub open spec fn quarter(c: u8) -> u8 {
    ((c as int * 25 + 50) / 100) as u8
}

/// The opaque colour with each channel of `c` darkened by the factor 0.75.
pub open spec fn darkened(c: Color) -> Color {
    Color { a: 255, r: quarter(c.r), g: quarter(c.g), b: quarter(c.b) }
}

/// The colour drawn under text of colour `c`: the shadow of the named colour
/// with the same `#RRGGBB`, or else `c` darkened by the factor 0.75.
pub open spec fn shadow_of(c: Color) -> Color {
    match hex_index_from(hex_of(c), 0) {
        Some(i) => opaque_rgb(palette_shadow_rgb(i)),
        None => darkened(c),
    }
}

fn quarter_channel(c: u8) -> (q: u8)
    ensures
        q == quarter(c),
{
    ((c as u32 * 25 + 50) / 100) as u8
}

/// Darkens each channel by the factor 0.75 (to a quarter, rounded half up);
/// the result is opaque.
pub fn darken_color(color: Color) -> (res: Color)
    ensures
        res == darkened(color),
{
    Color::from_rgb(quarter_channel(color.r), quarter_channel(color.g), quarter_channel(color.b))
}

/// The shadow colour for text drawn in `color`.
pub fn get_shadow(color: Color) -> (res: Color)
    ensures
        res == shadow_of(color),
{
    let hex = color_to_hex(color);
    match position(hex.as_str()) {
        Some(index) => {
            let (_, _, shadow_rgb) = palette_entry(index);
            color_from_rgb_u32(shadow_rgb)
        },
        None => darken_color(color),
    }
}

/// Two colours have the same `#RRGGBB` exactly when their channels agree.
pub proof fn lemma_hex_of_injective(c1: Color, c2: Color)
    ensures
        (hex_of(c1) == hex_of(c2)) <==> (c1.r == c2.r && c1.g == c2.g && c1.b == c2.b),
{
    assert forall|d1: int, d2: int| 0 <= d1 < 16 && 0 <= d2 < 16 && hex_digit(d1) == hex_digit(d2)
        implies d1 == d2 by {
        if d1 < 10 && d2 >= 10 {
            assert((d1 + 48) as char != (d2 + 55) as char);
        } else if d1 >= 10 && d2 < 10 {
            assert((d1 + 55) as char != (d2 + 48) as char);
        }
    }
    if hex_of(c1) == hex_of(c2) {
        assert(hex_of(c1)[1] == hex_of(c2)[1]);
        assert(hex_of(c1)[2] == hex_of(c2)[2]);
        assert(hex_of(c1)[3] == hex_of(c2)[3]);
        assert(hex_of(c1)[4] == hex_of(c2)[4]);
        assert(hex_of(c1)[5] == hex_of(c2)[5]);
        assert(hex_of(c1)[6] == hex_of(c2)[6]);
    }
}

/// The named colours are sixteen different colours.
pub proof fn lemma_palette_distinct(i: int, j: int)
    requires
        0 <= i < 16,
        0 <= j < 16,
        i != j,
    ensures
        palette_rgb(i) != palette_rgb(j),
        palette_rgb(i) < 0x1000000,
{
}

proof fn lemma_opaque_rgb_injective(x: u32, y: u32)
    requires
        x < 0x1000000,
        y < 0x1000000,
        opaque_rgb(x).r == opaque_rgb(y).r,
        opaque_rgb(x).g == opaque_rgb(y).g,
        opaque_rgb(x).b == opaque_rgb(y).b,
    ensures
        x == y,
{
    vstd::arithmetic::div_mod::lemma_fundamental_div_mod(x as int, 65536);
    vstd::arithmetic::div_mod::lemma_fundamental_div_mod(y as int, 65536);
    vstd::arithmetic::div_mod::lemma_fundamental_div_mod(x as int, 256);
    vstd::arithmetic::div_mod::lemma_fundamental_div_mod(y as int, 256);
    vstd::arithmetic::div_mod::lemma_fundamental_div_mod(x as int / 256, 256);
    vstd::arithmetic::div_mod::lemma_fundamental_div_mod(y as int / 256, 256);
    vstd::arithmetic::div_mod::lemma_div_denominator(x as int, 256, 256);
    vstd::arithmetic::div_mod::lemma_div_denominator(y as int, 256, 256);
}

proof fn lemma_hex_index_named(c: Color, i: int, j: int)
    requires
        0 <= j <= i < 16,
        c.r == opaque_rgb(palette_rgb(i)).r,
        c.g == opaque_rgb(palette_rgb(i)).g,
        c.b == opaque_rgb(palette_rgb(i)).b,
    ensures
        hex_index_from(hex_of(c), j) == Some(i),
    decreases i - j,
{
    lemma_hex_of_injective(c, opaque_rgb(palette_rgb(j)));
    if j < i {
        if hex_of(opaque_rgb(palette_rgb(j))) == hex_of(c) {
            lemma_palette_distinct(i, j);
            lemma_palette_distinct(j, i);
            lemma_opaque_rgb_injective(palette_rgb(i), palette_rgb(j));
        }
        lemma_hex_index_named(c, i, j + 1);
    }
}

/// Text in a named colour (whatever its alpha) gets that colour's shadow.
pub proof fn lemma_shadow_of_named(c: Color, i: int)
    requires
        0 <= i < 16,
        c.r == opaque_rgb(palette_rgb(i)).r,
        c.g == opaque_rgb(palette_rgb(i)).g,
        c.b == opaque_rgb(palette_rgb(i)).b,
    ensures
        shadow_of(c) == opaque_rgb(palette_shadow_rgb(i)),
{
    lemma_hex_index_named(c, i, 0);
}

/// Shadows are opaque, and a colour that is not a named one is darkened to a
/// quarter of each channel, rounded half up.
pub proof fn lemma_shadow_opaque(c: Color)
    ensures
        shadow_of(c).a == 255,
        (forall|i: int| 0 <= i < 16 ==> !(#[trigger] opaque_rgb(palette_rgb(i)).r == c.r
            && opaque_rgb(palette_rgb(i)).g == c.g && opaque_rgb(palette_rgb(i)).b == c.b))
            ==> 4 * shadow_of(c).r <= c.r + 2 && c.r <= 4 * shadow_of(c).r + 1,
{
    if forall|i: int| 0 <= i < 16 ==> !(#[trigger] opaque_rgb(palette_rgb(i)).r == c.r
        && opaque_rgb(palette_rgb(i)).g == c.g && opaque_rgb(palette_rgb(i)).b == c.b) {
        lemma_hex_index_none(c, 0);
    }
}

proof fn lemma_hex_index_none(c: Color, j: int)
    requires
        0 <= j <= 16,
        forall|i: int| 0 <= i < 16 ==> !(#[trigger] opaque_rgb(palette_rgb(i)).r == c.r
            && opaque_rgb(palette_rgb(i)).g == c.g && opaque_rgb(palette_rgb(i)).b == c.b),
    ensures
        hex_index_from(hex_of(c), j) is None,
    decreases 16 - j,
{
    if j < 16 {
        lemma_hex_of_injective(c, opaque_rgb(palette_rgb(j)));
        assert(!(opaque_rgb(palette_rgb(j)).r == c.r && opaque_rgb(palette_rgb(j)).g == c.g
            && opaque_rgb(palette_rgb(j)).b == c.b));
        lemma_hex_index_none(c, j + 1);
    }
}

proof fn lemma_seqs_differ_at(a: Seq<char>, b: Seq<char>, i: int)
    requires
        0 <= i < a.len(),
        i < b.len(),
        a[i] != b[i],
    ensures
        a != b,
{
}

proof fn lemma_palette_index_from(name: Seq<char>, k: int, j: int)
    requires
        0 <= j <= k < 16,
        palette_name(k) == name,
        forall|i: int| 0 <= i < k ==> palette_name(i) != name,
    ensures
        name_index_from(name, j) == Some(k),
    decreases k - j,
{
    if j < k {
        lemma_palette_index_from(name, k, j + 1);
    }
}

proof fn lemma_named_black()
    ensures
        named_color("black"@) == Some(opaque_rgb(0x000000)),
{
    reveal_strlit("black");
    assert(palette_name(0) == "black"@);
    lemma_palette_index_from("black"@, 0, 0);
}

proof fn lemma_named_dark_blue()
    ensures
        named_color("dark_blue"@) == Some(opaque_rgb(0x0000AA)),
{
    reveal_strlit("dark_blue");
    reveal_strlit("black");
    assert("black"@.len() != "dark_blue"@.len());
    assert(palette_name(1) == "dark_blue"@);
    lemma_palette_index_from("dark_blue"@, 1, 0);
}

proof fn lemma_named_dark_green()
    ensures
        named_color("dark_green"@) == Some(opaque_rgb(0x00AA00)),
{
    reveal_strlit("dark_green");
    reveal_strlit("black");
    reveal_strlit("dark_blue");
    assert("black"@.len() != "dark_green"@.len());
    assert("dark_blue"@.len() != "dark_green"@.len());
    assert(palette_name(2) == "dark_green"@);
    lemma_palette_index_from("dark_green"@, 2, 0);
}

proof fn lemma_named_dark_aqua()
    ensures
        named_color("dark_aqua"@) == Some(opaque_rgb(0x00AAAA)),
{
    reveal_strlit("dark_aqua");
    reveal_strlit("black");
    reveal_strlit("dark_blue");
    reveal_strlit("dark_green");
    assert("black"@.len() != "dark_aqua"@.len());
    lemma_seqs_differ_at("dark_blue"@, "dark_aqua"@, 5);
    assert("dark_green"@.len() != "dark_aqua"@.len());
    assert(palette_name(3) == "dark_aqua"@);
    lemma_palette_index_from("dark_aqua"@, 3, 0);
}

proof fn lemma_named_dark_red()
    ensures
        named_color("dark_red"@) == Some(opaque_rgb(0xAA0000)),
{
    reveal_strlit("dark_red");
    reveal_strlit("black");
    reveal_strlit("dark_blue");
    reveal_strlit("dark_green");
    reveal_strlit("dark_aqua");
    assert("black"@.len() != "dark_red"@.len());
    assert("dark_blue"@.len() != "dark_red"@.len());
    assert("dark_green"@.len() != "dark_red"@.len());
    assert("dark_aqua"@.len() != "dark_red"@.len());
    assert(palette_name(4) == "dark_red"@);
    lemma_palette_index_from("dark_red"@, 4, 0);
}

proof fn lemma_named_dark_purple()
    ensures
        named_color("dark_purple"@) == Some(opaque_rgb(0xAA00AA)),
{
    reveal_strlit("dark_purple");
    reveal_strlit("black");
    reveal_strlit("dark_blue");
    reveal_strlit("dark_green");
    reveal_strlit("dark_aqua");
    reveal_strlit("dark_red");
    assert("black"@.len() != "dark_purple"@.len());
    assert("dark_blue"@.len() != "dark_purple"@.len());
    assert("dark_green"@.len() != "dark_purple"@.len());
    assert("dark_aqua"@.len() != "dark_purple"@.len());
    assert("dark_red"@.len() != "dark_purple"@.len());
    assert(palette_name(5) == "dark_purple"@);
    lemma_palette_index_from("dark_purple"@, 5, 0);
}

proof fn lemma_named_gold()
    ensures
        named_color("gold"@) == Some(opaque_rgb(0xFFAA00)),
{
    reveal_strlit("gold");
    reveal_strlit("black");
    reveal_strlit("dark_blue");
    reveal_strlit("dark_green");
    reveal_strlit("dark_aqua");
    reveal_strlit("dark_red");
    reveal_strlit("dark_purple");
    assert("black"@.len() != "gold"@.len());
    assert("dark_blue"@.len() != "gold"@.len());
    assert("dark_green"@.len() != "gold"@.len());
    assert("dark_aqua"@.len() != "gold"@.len());
    assert("dark_red"@.len() != "gold"@.len());
    assert("dark_purple"@.len() != "gold"@.len());
    assert(palette_name(6) == "gold"@);
    lemma_palette_index_from("gold"@, 6, 0);
}

proof fn lemma_named_gray()
    ensures
        named_color("gray"@) == Some(opaque_rgb(0xAAAAAA)),
{
    reveal_strlit("gray");
    reveal_strlit("black");
    reveal_strlit("dark_blue");
    reveal_strlit("dark_green");
    reveal_strlit("dark_aqua");
    reveal_strlit("dark_red");
    reveal_strlit("dark_purple");
    reveal_strlit("gold");
    assert("black"@.len() != "gray"@.len());
    assert("dark_blue"@.len() != "gray"@.len());
    assert("dark_green"@.len() != "gray"@.len());
    assert("dark_aqua"@.len() != "gray"@.len());
    assert("dark_red"@.len() != "gray"@.len());
    assert("dark_purple"@.len() != "gray"@.len());
    lemma_seqs_differ_at("gold"@, "gray"@, 1);
    assert(palette_name(7) == "gray"@);
    lemma_palette_index_from("gray"@, 7, 0);
}

proof fn lemma_named_dark_gray()
    ensures
        named_color("dark_gray"@) == Some(opaque_rgb(0x555555)),
{
    reveal_strlit("dark_gray");
    reveal_strlit("black");
    reveal_strlit("dark_blue");
    reveal_strlit("dark_green");
    reveal_strlit("dark_aqua");
    reveal_strlit("dark_red");
    reveal_strlit("dark_purple");
    reveal_strlit("gold");
    reveal_strlit("gray");
    assert("black"@.len() != "dark_gray"@.len());
    lemma_seqs_differ_at("dark_blue"@, "dark_gray"@, 5);
    assert("dark_green"@.len() != "dark_gray"@.len());
    lemma_seqs_differ_at("dark_aqua"@, "dark_gray"@, 5);
    assert("dark_red"@.len() != "dark_gray"@.len());
    assert("dark_purple"@.len() != "dark_gray"@.len());
    assert("gold"@.len() != "dark_gray"@.len());
    assert("gray"@.len() != "dark_gray"@.len());
    assert(palette_name(8) == "dark_gray"@);
    lemma_palette_index_from("dark_gray"@, 8, 0);
}

proof fn lemma_named_blue()
    ensures
        named_color("blue"@) == Some(opaque_rgb(0x5555FF)),
{
    reveal_strlit("blue");
    reveal_strlit("black");
    reveal_strlit("dark_blue");
    reveal_strlit("dark_green");
    reveal_strlit("dark_aqua");
    reveal_strlit("dark_red");
    reveal_strlit("dark_purple");
    reveal_strlit("gold");
    reveal_strlit("gray");
    reveal_strlit("dark_gray");
    assert("black"@.len() != "blue"@.len());
    assert("dark_blue"@.len() != "blue"@.len());
    assert("dark_green"@.len() != "blue"@.len());
    assert("dark_aqua"@.len() != "blue"@.len());
    assert("dark_red"@.len() != "blue"@.len());
    assert("dark_purple"@.len() != "blue"@.len());
    lemma_seqs_differ_at("gold"@, "blue"@, 0);
    lemma_seqs_differ_at("gray"@, "blue"@, 0);
    assert("dark_gray"@.len() != "blue"@.len());
    assert(palette_name(9) == "blue"@);
    lemma_palette_index_from("blue"@, 9, 0);
}

proof fn lemma_named_green()
    ensures
        named_color("green"@) == Some(opaque_rgb(0x55FF55)),
{
    reveal_strlit("green");
    reveal_strlit("black");
    reveal_strlit("dark_blue");
    reveal_strlit("dark_green");
    reveal_strlit("dark_aqua");
    reveal_strlit("dark_red");
    reveal_strlit("dark_purple");
    reveal_strlit("gold");
    reveal_strlit("gray");
    reveal_strlit("dark_gray");
    reveal_strlit("blue");
    lemma_seqs_differ_at("black"@, "green"@, 0);
    assert("dark_blue"@.len() != "green"@.len());
    assert("dark_green"@.len() != "green"@.len());
    assert("dark_aqua"@.len() != "green"@.len());
    assert("dark_red"@.len() != "green"@.len());
    assert("dark_purple"@.len() != "green"@.len());
    assert("gold"@.len() != "green"@.len());
    assert("gray"@.len() != "green"@.len());
    assert("dark_gray"@.len() != "green"@.len());
    assert("blue"@.len() != "green"@.len());
    assert(palette_name(10) == "green"@);
    lemma_palette_index_from("green"@, 10, 0);
}

proof fn lemma_named_aqua()
    ensures
        named_color("aqua"@) == Some(opaque_rgb(0x55FFFF)),
{
    reveal_strlit("aqua");
    reveal_strlit("black");
    reveal_strlit("dark_blue");
    reveal_strlit("dark_green");
    reveal_strlit("dark_aqua");
    reveal_strlit("dark_red");
    reveal_strlit("dark_purple");
    reveal_strlit("gold");
    reveal_strlit("gray");
    reveal_strlit("dark_gray");
    reveal_strlit("blue");
    reveal_strlit("green");
    assert("black"@.len() != "aqua"@.len());
    assert("dark_blue"@.len() != "aqua"@.len());
    assert("dark_green"@.len() != "aqua"@.len());
    assert("dark_aqua"@.len() != "aqua"@.len());
    assert("dark_red"@.len() != "aqua"@.len());
    assert("dark_purple"@.len() != "aqua"@.len());
    lemma_seqs_differ_at("gold"@, "aqua"@, 0);
    lemma_seqs_differ_at("gray"@, "aqua"@, 0);
    assert("dark_gray"@.len() != "aqua"@.len());
    lemma_seqs_differ_at("blue"@, "aqua"@, 0);
    assert("green"@.len() != "aqua"@.len());
    assert(palette_name(11) == "aqua"@);
    lemma_palette_index_from("aqua"@, 11, 0);
}

proof fn lemma_named_red()
    ensures
        named_color("red"@) == Some(opaque_rgb(0xFF5555)),
{
    reveal_strlit("red");
    reveal_strlit("black");
    reveal_strlit("dark_blue");
    reveal_strlit("dark_green");
    reveal_strlit("dark_aqua");
    reveal_strlit("dark_red");
    reveal_strlit("dark_purple");
    reveal_strlit("gold");
    reveal_strlit("gray");
    reveal_strlit("dark_gray");
    reveal_strlit("blue");
    reveal_strlit("green");
    reveal_strlit("aqua");
    assert("black"@.len() != "red"@.len());
    assert("dark_blue"@.len() != "red"@.len());
    assert("dark_green"@.len() != "red"@.len());
    assert("dark_aqua"@.len() != "red"@.len());
    assert("dark_red"@.len() != "red"@.len());
    assert("dark_purple"@.len() != "red"@.len());
    assert("gold"@.len() != "red"@.len());
    assert("gray"@.len() != "red"@.len());
    assert("dark_gray"@.len() != "red"@.len());
    assert("blue"@.len() != "red"@.len());
    assert("green"@.len() != "red"@.len());
    assert("aqua"@.len() != "red"@.len());
    assert(palette_name(12) == "red"@);
    lemma_palette_index_from("red"@, 12, 0);
}

proof fn lemma_named_light_purple()
    ensures
        named_color("light_purple"@) == Some(opaque_rgb(0xFF55FF)),
{
    reveal_strlit("light_purple");
    reveal_strlit("black");
    reveal_strlit("dark_blue");
    reveal_strlit("dark_green");
    reveal_strlit("dark_aqua");
    reveal_strlit("dark_red");
    reveal_strlit("dark_purple");
    reveal_strlit("gold");
    reveal_strlit("gray");
    reveal_strlit("dark_gray");
    reveal_strlit("blue");
    reveal_strlit("green");
    reveal_strlit("aqua");
    reveal_strlit("red");
    assert("black"@.len() != "light_purple"@.len());
    assert("dark_blue"@.len() != "light_purple"@.len());
    assert("dark_green"@.len() != "light_purple"@.len());
    assert("dark_aqua"@.len() != "light_purple"@.len());
    assert("dark_red"@.len() != "light_purple"@.len());
    assert("dark_purple"@.len() != "light_purple"@.len());
    assert("gold"@.len() != "light_purple"@.len());
    assert("gray"@.len() != "light_purple"@.len());
    assert("dark_gray"@.len() != "light_purple"@.len());
    assert("blue"@.len() != "light_purple"@.len());
    assert("green"@.len() != "light_purple"@.len());
    assert("aqua"@.len() != "light_purple"@.len());
    assert("red"@.len() != "light_purple"@.len());
    assert(palette_name(13) == "light_purple"@);
    lemma_palette_index_from("light_purple"@, 13, 0);
}

proof fn lemma_named_yellow()
    ensures
        named_color("yellow"@) == Some(opaque_rgb(0xFFFF55)),
{
    reveal_strlit("yellow");
    reveal_strlit("black");
    reveal_strlit("dark_blue");
    reveal_strlit("dark_green");
    reveal_strlit("dark_aqua");
    reveal_strlit("dark_red");
    reveal_strlit("dark_purple");
    reveal_strlit("gold");
    reveal_strlit("gray");
    reveal_strlit("dark_gray");
    reveal_strlit("blue");
    reveal_strlit("green");
    reveal_strlit("aqua");
    reveal_strlit("red");
    reveal_strlit("light_purple");
    assert("black"@.len() != "yellow"@.len());
    assert("dark_blue"@.len() != "yellow"@.len());
    assert("dark_green"@.len() != "yellow"@.len());
    assert("dark_aqua"@.len() != "yellow"@.len());
    assert("dark_red"@.len() != "yellow"@.len());
    assert("dark_purple"@.len() != "yellow"@.len());
    assert("gold"@.len() != "yellow"@.len());
    assert("gray"@.len() != "yellow"@.len());
    assert("dark_gray"@.len() != "yellow"@.len());
    assert("blue"@.len() != "yellow"@.len());
    assert("green"@.len() != "yellow"@.len());
    assert("aqua"@.len() != "yellow"@.len());
    assert("red"@.len() != "yellow"@.len());
    assert("light_purple"@.len() != "yellow"@.len());
    assert(palette_name(14) == "yellow"@);
    lemma_palette_index_from("yellow"@, 14, 0);
}

proof fn lemma_named_white()
    ensures
        named_color("white"@) == Some(opaque_rgb(0xFFFFFF)),
{
    reveal_strlit("white");
    reveal_strlit("black");
    reveal_strlit("dark_blue");
    reveal_strlit("dark_green");
    reveal_strlit("dark_aqua");
    reveal_strlit("dark_red");
    reveal_strlit("dark_purple");
    reveal_strlit("gold");
    reveal_strlit("gray");
    reveal_strlit("dark_gray");
    reveal_strlit("blue");
    reveal_strlit("green");
    reveal_strlit("aqua");
    reveal_strlit("red");
    reveal_strlit("light_purple");
    reveal_strlit("yellow");
    lemma_seqs_differ_at("black"@, "white"@, 0);
    assert("dark_blue"@.len() != "white"@.len());
    assert("dark_green"@.len() != "white"@.len());
    assert("dark_aqua"@.len() != "white"@.len());
    assert("dark_red"@.len() != "white"@.len());
    assert("dark_purple"@.len() != "white"@.len());
    assert("gold"@.len() != "white"@.len());
    assert("gray"@.len() != "white"@.len());
    assert("dark_gray"@.len() != "white"@.len());
    assert("blue"@.len() != "white"@.len());
    lemma_seqs_differ_at("green"@, "white"@, 0);
    assert("aqua"@.len() != "white"@.len());
    assert("red"@.len() != "white"@.len());
    assert("light_purple"@.len() != "white"@.len());
    assert("yellow"@.len() != "white"@.len());
    assert(palette_name(15) == "white"@);
    lemma_palette_index_from("white"@, 15, 0);
}

/// The sixteen chat colour names name their standard colours.
pub proof fn lemma_named_colors()
    ensures
        named_color("black"@) == Some(opaque_rgb(0x000000)),
        named_color("dark_blue"@) == Some(opaque_rgb(0x0000AA)),
        named_color("dark_green"@) == Some(opaque_rgb(0x00AA00)),
        named_color("dark_aqua"@) == Some(opaque_rgb(0x00AAAA)),
        named_color("dark_red"@) == Some(opaque_rgb(0xAA0000)),
        named_color("dark_purple"@) == Some(opaque_rgb(0xAA00AA)),
        named_color("gold"@) == Some(opaque_rgb(0xFFAA00)),
        named_color("gray"@) == Some(opaque_rgb(0xAAAAAA)),
        named_color("dark_gray"@) == Some(opaque_rgb(0x555555)),
        named_color("blue"@) == Some(opaque_rgb(0x5555FF)),
        named_color("green"@) == Some(opaque_rgb(0x55FF55)),
        named_color("aqua"@) == Some(opaque_rgb(0x55FFFF)),
        named_color("red"@) == Some(opaque_rgb(0xFF5555)),
        named_color("light_purple"@) == Some(opaque_rgb(0xFF55FF)),
        named_color("yellow"@) == Some(opaque_rgb(0xFFFF55)),
        named_color("white"@) == Some(opaque_rgb(0xFFFFFF)),
{
    lemma_named_black();
    lemma_named_dark_blue();
    lemma_named_dark_green();
    lemma_named_dark_aqua();
    lemma_named_dark_red();
    lemma_named_dark_purple();
    lemma_named_gold();
    lemma_named_gray();
    lemma_named_dark_gray();
    lemma_named_blue();
    lemma_named_green();
    lemma_named_aqua();
    lemma_named_red();
    lemma_named_light_purple();
    lemma_named_yellow();
    lemma_named_white();
}

/// Text in each of the sixteen chat colours is shadowed by
/// that colour's standard shadow.
pub proof fn lemma_named_shadows()
    ensures
        shadow_of(opaque_rgb(0x000000)) == opaque_rgb(0x000000),
        shadow_of(opaque_rgb(0x0000AA)) == opaque_rgb(0x00002A),
        shadow_of(opaque_rgb(0x00AA00)) == opaque_rgb(0x002A00),
        shadow_of(opaque_rgb(0x00AAAA)) == opaque_rgb(0x002A2A),
        shadow_of(opaque_rgb(0xAA0000)) == opaque_rgb(0x2A0000),
        shadow_of(opaque_rgb(0xAA00AA)) == opaque_rgb(0x2A002A),
        shadow_of(opaque_rgb(0xFFAA00)) == opaque_rgb(0x2A2A00),
        shadow_of(opaque_rgb(0xAAAAAA)) == opaque_rgb(0x2A2A2A),
        shadow_of(opaque_rgb(0x555555)) == opaque_rgb(0x151515),
        shadow_of(opaque_rgb(0x5555FF)) == opaque_rgb(0x15153F),
        shadow_of(opaque_rgb(0x55FF55)) == opaque_rgb(0x153F15),
        shadow_of(opaque_rgb(0x55FFFF)) == opaque_rgb(0x153F3F),
        shadow_of(opaque_rgb(0xFF5555)) == opaque_rgb(0x3F1515),
        shadow_of(opaque_rgb(0xFF55FF)) == opaque_rgb(0x3F153F),
        shadow_of(opaque_rgb(0xFFFF55)) == opaque_rgb(0x3F3F15),
        shadow_of(opaque_rgb(0xFFFFFF)) == opaque_rgb(0x3F3F3F),
{
    lemma_shadow_of_named(opaque_rgb(0x000000), 0);
    lemma_shadow_of_named(opaque_rgb(0x0000AA), 1);
    lemma_shadow_of_named(opaque_rgb(0x00AA00), 2);
    lemma_shadow_of_named(opaque_rgb(0x00AAAA), 3);
    lemma_shadow_of_named(opaque_rgb(0xAA0000), 4);
    lemma_shadow_of_named(opaque_rgb(0xAA00AA), 5);
    lemma_shadow_of_named(opaque_rgb(0xFFAA00), 6);
    lemma_shadow_of_named(opaque_rgb(0xAAAAAA), 7);
    lemma_shadow_of_named(opaque_rgb(0x555555), 8);
    lemma_shadow_of_named(opaque_rgb(0x5555FF), 9);
    lemma_shadow_of_named(opaque_rgb(0x55FF55), 10);
    lemma_shadow_of_named(opaque_rgb(0x55FFFF), 11);
    lemma_shadow_of_named(opaque_rgb(0xFF5555), 12);
    lemma_shadow_of_named(opaque_rgb(0xFF55FF), 13);
    lemma_shadow_of_named(opaque_rgb(0xFFFF55), 14);
    lemma_shadow_of_named(opaque_rgb(0xFFFFFF), 15);
}

} // verus!
