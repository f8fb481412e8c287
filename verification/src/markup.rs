//! The colour markup of card texts: `<green>text</green>`, `<#FFAA00>text</#FFAA00>`
//! and `<#80FFAA00>text</#80FFAA00>`. A text is parsed into a tree of text
//! and tag nodes, which is then flattened into coloured segments.

use vstd::prelude::*;
use crate::color::{Color, opaque_rgb, from_argb_u32, color_from_rgb_u32, color_from_argb_u32, hex_of, hex_digit};
use crate::palette::{named_color, get_color};
use crate::text::{lowercase, ascii_lowercase, utf8_len, to_lowercase};

verus! {

// ---------------------------------------------------------------------------
// Searching
// ---------------------------------------------------------------------------

/// Index of the first `c` in `s` at or after `i`.
pub open spec fn find_from(s: Seq<char>, c: char, i: int) -> Option<int>
    decreases s.len() - i,
{
    if i < 0 || i >= s.len() {
        None
    } else if s[i] == c {
        Some(i)
    } else {
        find_from(s, c, i + 1)
    }
}

/// What `find_from` returns: the first occurrence at or after `i`, if any.
pub proof fn lemma_find_from(s: Seq<char>, c: char, i: int)
    requires
        0 <= i,
    ensures
        match find_from(s, c, i) {
            Some(k) => i <= k < s.len() && s[k] == c && forall|j: int| i <= j < k ==> s[j] != c,
            None => forall|j: int| i <= j < s.len() ==> s[j] != c,
        },
    decreases s.len() - i,
{
    if i < s.len() && s[i] != c {
        lemma_find_from(s, c, i + 1);
    }
}

/// `find_from(s, c, 0)` is `k` when `s[k]` is the first `c`.
pub proof fn lemma_find_is(s: Seq<char>, c: char, k: int)
    requires
        0 <= k < s.len(),
        s[k] == c,
        forall|j: int| 0 <= j < k ==> s[j] != c,
    ensures
        find_from(s, c, 0) == Some(k),
{
    lemma_find_from(s, c, 0);
}

/// Index of the first `c` in `s`.
pub fn find_char(s: &str, c: char) -> (res: Option<usize>)
    ensures
        match res {
            Some(k) => find_from(s@, c, 0) == Some(k as int),
            None => find_from(s@, c, 0) is None,
        },
{
    let n = s.unicode_len();
    let mut i: usize = 0;
    while i < n
        invariant
            n == s@.len(),
            i <= n,
            find_from(s@, c, 0) == find_from(s@, c, i as int),
        decreases n - i,
    {
        if s.get_char(i) == c {
            return Some(i);
        }
        i = i + 1;
    }
    None
}

// ---------------------------------------------------------------------------
// Parse trees
// ---------------------------------------------------------------------------

/// A parsed markup tree, as a mathematical value.
pub enum NodeView {
    Text(Seq<char>),
    Tag(Seq<char>, Seq<NodeView>),
}

/// A parsed markup node: plain text, or a tag with the nodes it encloses.
#[derive(Debug)]
pub enum Node {
    Text(String),
    Tag { tag: String, children: Vec<Node> },
}

impl Node {
    pub open spec fn view_node(&self) -> NodeView
        decreases self,
    {
        match self {
            Node::Text(t) => NodeView::Text(t@),
            Node::Tag { tag, children } => NodeView::Tag(tag@, nodes_view(children@)),
        }
    }
}

/// The mathematical value of a sequence of nodes.
pub open spec fn nodes_view(s: Seq<Node>) -> Seq<NodeView>
    decreases s,
{
    if s.len() == 0 {
        Seq::empty()
    } else {
        nodes_view(s.drop_last()).push(s.last().view_node())
    }
}

proof fn lemma_nodes_view_push(s: Seq<Node>, n: Node)
    ensures
        nodes_view(s.push(n)) == nodes_view(s).push(n.view_node()),
{
    assert(s.push(n).drop_last() =~= s);
}

/// The closing tag `</tag>` of an opening tag `<tag>`.
pub open spec fn closer(tag: Seq<char>) -> Seq<char> {
    seq!['<', '/'] + tag + seq!['>']
}

/// Whether `s` begins with `</`.
pub open spec fn starts_closing(s: Seq<char>) -> bool {
    s.len() >= 2 && s[0] == '<' && s[1] == '/'
}

/// The nodes that `input` holds up to the closing tag `expected` (or up to its
/// end), and the input that follows that closing tag.
///
/// Text runs up to the next `<`. A `<` with no `>` after it makes the rest of
/// the input text. A closing tag `</..>` ends the level when it is the expected
/// one and is kept as text otherwise. An opening tag `<tag>` encloses the
/// nodes up to its own closing tag `</tag>` or to the end of the input.
pub open spec fn parse_spec(input: Seq<char>, expected: Option<Seq<char>>) -> (Seq<NodeView>, Seq<char>)
    decreases input.len(),
{
    if input.len() == 0 {
        (Seq::empty(), input)
    } else if starts_closing(input) {
        match find_from(input, '>', 0) {
            Some(end) => {
                proof { lemma_find_from(input, '>', 0); }
                let closing = input.take(end + 1);
                let rest = input.skip(end + 1);
                if expected == Some(closing) {
                    (Seq::empty(), rest)
                } else {
                    let r = parse_spec(rest, expected);
                    (seq![NodeView::Text(closing)] + r.0, r.1)
                }
            },
            None => (seq![NodeView::Text(input)], Seq::empty()),
        }
    } else if input[0] == '<' {
        match find_from(input, '>', 0) {
            Some(end) => {
                proof { lemma_find_from(input, '>', 0); }
                let tag = input.subrange(1, end);
                let inner = parse_spec(input.skip(end + 1), Some(closer(tag)));
                if inner.1.len() < input.len() {
                    let r = parse_spec(inner.1, expected);
                    (seq![NodeView::Tag(tag, inner.0)] + r.0, r.1)
                } else {
                    (Seq::empty(), Seq::empty())
                }
            },
            None => (seq![NodeView::Text(input)], Seq::empty()),
        }
    } else {
        match find_from(input, '<', 0) {
            Some(idx) => {
                proof { lemma_find_from(input, '<', 0); }
                let r = parse_spec(input.skip(idx), expected);
                (seq![NodeView::Text(input.take(idx))] + r.0, r.1)
            },
            None => (seq![NodeView::Text(input)], Seq::empty()),
        }
    }
}

/// The input left after parsing is a suffix of the input.
pub proof fn lemma_parse_rest(input: Seq<char>, expected: Option<Seq<char>>)
    ensures
        parse_spec(input, expected).1.len() <= input.len(),
        parse_spec(input, expected).1 == input.skip(input.len() - parse_spec(input, expected).1.len()),
    decreases input.len(),
{
    if input.len() == 0 {
        assert(input.skip(0) =~= input);
    } else if starts_closing(input) {
        lemma_find_from(input, '>', 0);
        match find_from(input, '>', 0) {
            Some(end) => {
                let rest = input.skip(end + 1);
                if expected != Some(input.take(end + 1)) {
                    lemma_parse_rest(rest, expected);
                    let r = parse_spec(rest, expected).1;
                    assert(rest.skip(rest.len() - r.len()) =~= input.skip(input.len() - r.len()));
                }
            },
            None => {
                assert(input.skip(input.len() as int) =~= Seq::<char>::empty());
            },
        }
    } else if input[0] == '<' {
        lemma_find_from(input, '>', 0);
        match find_from(input, '>', 0) {
            Some(end) => {
                let tag = input.subrange(1, end);
                let after = input.skip(end + 1);
                lemma_parse_rest(after, Some(closer(tag)));
                let inner = parse_spec(after, Some(closer(tag)));
                assert(after.skip(after.len() - inner.1.len()) =~= input.skip(input.len() - inner.1.len()));
                lemma_parse_rest(inner.1, expected);
                let r = parse_spec(inner.1, expected).1;
                assert(inner.1.skip(inner.1.len() - r.len()) =~= input.skip(input.len() - r.len()));
            },
            None => {
                assert(input.skip(input.len() as int) =~= Seq::<char>::empty());
            },
        }
    } else {
        lemma_find_from(input, '<', 0);
        match find_from(input, '<', 0) {
            Some(idx) => {
                let rest = input.skip(idx);
                lemma_parse_rest(rest, expected);
                let r = parse_spec(rest, expected).1;
                assert(rest.skip(rest.len() - r.len()) =~= input.skip(input.len() - r.len()));
            },
            None => {
                assert(input.skip(input.len() as int) =~= Seq::<char>::empty());
            },
        }
    }
}

pub open spec fn opt_str_view(o: Option<&str>) -> Option<Seq<char>> {
    match o {
        Some(s) => Some(s@),
        None => None,
    }
}

fn closing_tag_for(tag: &str) -> (s: String)
    ensures
        s@ == closer(tag@),
{
    let mut s = String::new();
    crate::text::push_char(&mut s, '<');
    crate::text::push_char(&mut s, '/');
    let n = tag.unicode_len();
    let mut i: usize = 0;
    while i < n
        invariant
            n == tag@.len(),
            i <= n,
            s@ == seq!['<', '/'] + tag@.take(i as int),
        decreases n - i,
    {
        crate::text::push_char(&mut s, tag.get_char(i));
        assert(tag@.take(i + 1) =~= tag@.take(i as int).push(tag@[i as int]));
        i = i + 1;
    }
    crate::text::push_char(&mut s, '>');
    assert(tag@.take(n as int) =~= tag@);
    assert(s@ =~= closer(tag@));
    s
}

/// Parses `input` up to the closing tag `expected` (or to its end); returns the
/// nodes and the input after that closing tag.
pub fn parse_nodes_rec<'a>(input: &'a str, expected: Option<&str>) -> (res: (Vec<Node>, &'a str))
    ensures
        nodes_view(res.0@) == parse_spec(input@, opt_str_view(expected)).0,
        res.1@ == parse_spec(input@, opt_str_view(expected)).1,
    decreases input@.len(),
{
    let ghost orig = input@;
    let ghost e = opt_str_view(expected);
    let mut nodes: Vec<Node> = Vec::new();
    let mut inp = input;
    while !inp.is_empty()
        invariant
            inp@.len() <= orig.len(),
            orig == input@,
            e == opt_str_view(expected),
            parse_spec(orig, e).0 == nodes_view(nodes@) + parse_spec(inp@, e).0,
            parse_spec(orig, e).1 == parse_spec(inp@, e).1,
        ensures
            inp@.len() == 0,
            parse_spec(orig, e).0 == nodes_view(nodes@) + parse_spec(inp@, e).0,
            parse_spec(orig, e).1 == parse_spec(inp@, e).1,
        decreases inp@.len(),
    {
        let ghost cur = inp@;
        let len = inp.unicode_len();
        if len >= 2 && inp.get_char(0) == '<' && inp.get_char(1) == '/' {
            proof { lemma_find_from(cur, '>', 0); }
            match find_char(inp, '>') {
                Some(end) => {
                    let closing_tag = inp.substring_char(0, end + 1);
                    let rest = inp.substring_char(end + 1, len);
                    assert(closing_tag@ == cur.take(end + 1));
                    assert(rest@ == cur.skip(end + 1));
                    let matches = match expected {
                        Some(exp) => crate::text::str_eq(closing_tag, exp),
                        None => false,
                    };
                    if matches {
                        assert(parse_spec(cur, e).0 == Seq::<NodeView>::empty());
                        inp = rest;
                        assert(nodes_view(nodes@) + Seq::<NodeView>::empty() =~= nodes_view(nodes@));
                        return (nodes, inp);
                    } else {
                        let ghost before = nodes@;
                        let node = Node::Text(closing_tag.to_owned());
                        proof { lemma_nodes_view_push(before, node); }
                        nodes.push(node);
                        inp = rest;
                        assert(nodes_view(before) + parse_spec(cur, e).0 =~= nodes_view(nodes@) + parse_spec(inp@, e).0);
                    }
                },
                None => {
                    let ghost before = nodes@;
                    let node = Node::Text(inp.to_owned());
                    proof { lemma_nodes_view_push(before, node); }
                    nodes.push(node);
                    inp = inp.substring_char(len, len);
                    assert(inp@ =~= Seq::<char>::empty());
                    assert(nodes_view(before) + parse_spec(cur, e).0 =~= nodes_view(nodes@) + parse_spec(inp@, e).0);
                    break;
                },
            }
        } else if inp.get_char(0) == '<' {
            proof { lemma_find_from(cur, '>', 0); }
            match find_char(inp, '>') {
                Some(end) => {
                    let tag = inp.substring_char(1, end);
                    let after = inp.substring_char(end + 1, len);
                    assert(after@ == cur.skip(end + 1));
                    let expected_closing = closing_tag_for(tag);
                    assert(after@.len() < orig.len());
                    let (children, new_input) = parse_nodes_rec(after, Some(expected_closing.as_str()));
                    proof { lemma_parse_rest(after@, Some(closer(tag@))); }
                    let ghost before = nodes@;
                    let node = Node::Tag { tag: tag.to_owned(), children };
                    proof { lemma_nodes_view_push(before, node); }
                    nodes.push(node);
                    inp = new_input;
                    assert(nodes_view(before) + parse_spec(cur, e).0 =~= nodes_view(nodes@) + parse_spec(inp@, e).0);
                },
                None => {
                    let ghost before = nodes@;
                    let node = Node::Text(inp.to_owned());
                    proof { lemma_nodes_view_push(before, node); }
                    nodes.push(node);
                    inp = inp.substring_char(len, len);
                    assert(inp@ =~= Seq::<char>::empty());
                    assert(nodes_view(before) + parse_spec(cur, e).0 =~= nodes_view(nodes@) + parse_spec(inp@, e).0);
                    break;
                },
            }
        } else {
            proof { lemma_find_from(cur, '<', 0); }
            match find_char(inp, '<') {
                Some(idx) => {
                    let text = inp.substring_char(0, idx);
                    let ghost before = nodes@;
                    let node = Node::Text(text.to_owned());
                    proof { lemma_nodes_view_push(before, node); }
                    nodes.push(node);
                    inp = inp.substring_char(idx, len);
                    assert(inp@ == cur.skip(idx as int));
                    assert(nodes_view(before) + parse_spec(cur, e).0 =~= nodes_view(nodes@) + parse_spec(inp@, e).0);
                },
                None => {
                    let ghost before = nodes@;
                    let node = Node::Text(inp.to_owned());
                    proof { lemma_nodes_view_push(before, node); }
                    nodes.push(node);
                    inp = inp.substring_char(len, len);
                    assert(inp@ =~= Seq::<char>::empty());
                    assert(nodes_view(before) + parse_spec(cur, e).0 =~= nodes_view(nodes@) + parse_spec(inp@, e).0);
                },
            }
        }
    }
    assert(nodes_view(nodes@) + Seq::<NodeView>::empty() =~= nodes_view(nodes@));
    (nodes, inp)
}

/// Parses a whole markup text into its tree.
pub fn parse_nodes(input: &str) -> (nodes: Vec<Node>)
    ensures
        nodes_view(nodes@) == parse_spec(input@, None).0,
{
    let (nodes, _) = parse_nodes_rec(input, None);
    nodes
}

// ---------------------------------------------------------------------------
// Colours of tags
// ---------------------------------------------------------------------------

/// Whether `c` is a hexadecimal digit (either case).
pub open spec fn is_hex_char(c: char) -> bool {
    ('0' <= c && c <= '9') || ('a' <= c && c <= 'f') || ('A' <= c && c <= 'F')
}

/// Value of a hexadecimal digit (0 for any other character).
pub open spec fn hex_char_value(c: char) -> nat {
    if '0' <= c && c <= '9' {
        (c as int - 48) as nat
    } else if 'a' <= c && c <= 'f' {
        (c as int - 87) as nat
    } else if 'A' <= c && c <= 'F' {
        (c as int - 55) as nat
    } else {
        0
    }
}

/// Value of a sequence of hexadecimal digits.
pub open spec fn hex_seq_value(s: Seq<char>) -> nat
    decreases s.len(),
{
    if s.len() == 0 {
        0
    } else {
        hex_seq_value(s.drop_last()) * 16 + hex_char_value(s.last())
    }
}

/// Whether every character of `d` is a hexadecimal digit.
pub open spec fn all_hex(d: Seq<char>) -> bool {
    forall|i: int| 0 <= i < d.len() ==> is_hex_char(#[trigger] d[i])
}

/// The digits that `u32::from_str_radix` reads: `s` without a leading `+`.
pub open spec fn radix16_digits(s: Seq<char>) -> Seq<char> {
    if s.len() > 0 && s[0] == '+' {
        s.drop_first()
    } else {
        s
    }
}

/// What `u32::from_str_radix(s, 16)` gives: an optional `+`, then one or more
/// hexadecimal digits whose value fits in 32 bits.
pub open spec fn radix16(s: Seq<char>) -> Option<u32> {
    if s.len() == 1 && (s[0] == '+' || s[0] == '-') {
        None
    } else if radix16_digits(s).len() > 0 && all_hex(radix16_digits(s))
        && hex_seq_value(radix16_digits(s)) <= u32::MAX {
        Some(hex_seq_value(radix16_digits(s)) as u32)
    } else {
        None
    }
}

proof fn lemma_hex_prefix_le(s: Seq<char>, k: int)
    requires
        0 <= k <= s.len(),
    ensures
        hex_seq_value(s.take(k)) <= hex_seq_value(s),
    decreases s.len(),
{
    if k < s.len() {
        lemma_hex_prefix_le(s.drop_last(), k);
        assert(s.drop_last().take(k) =~= s.take(k));
    } else {
        assert(s.take(k) =~= s);
    }
}

fn hex_digit_value(c: char) -> (v: Option<u32>)
    ensures
        match v {
            Some(x) => is_hex_char(c) && x == hex_char_value(c),
            None => !is_hex_char(c),
        },
{
    if '0' <= c && c <= '9' {
        Some(c as u32 - 48)
    } else if 'a' <= c && c <= 'f' {
        Some(c as u32 - 87)
    } else if 'A' <= c && c <= 'F' {
        Some(c as u32 - 55)
    } else {
        None
    }
}

/// `u32::from_str_radix(s, 16)`, `None` on error.
pub fn from_str_radix_16(s: &str) -> (res: Option<u32>)
    ensures
        res == radix16(s@),
{
    let n = s.unicode_len();
    if n == 1 && (s.get_char(0) == '+' || s.get_char(0) == '-') {
        return None;
    }
    let start: usize = if n > 0 && s.get_char(0) == '+' { 1 } else { 0 };
    let ghost d = radix16_digits(s@);
    assert(d =~= s@.subrange(start as int, n as int));
    if start >= n {
        return None;
    }
    let mut acc: u64 = 0;
    let mut i: usize = start;
    while i < n
        invariant
            n == s@.len(),
            start <= i <= n,
            !(s@.len() == 1 && (s@[0] == '+' || s@[0] == '-')),
            d == radix16_digits(s@),
            d == s@.subrange(start as int, n as int),
            acc == hex_seq_value(s@.subrange(start as int, i as int)),
            acc <= u32::MAX,
            forall|j: int| start <= j < i ==> is_hex_char(#[trigger] s@[j]),
        decreases n - i,
    {
        let c = s.get_char(i);
        let ghost prefix = s@.subrange(start as int, i + 1);
        assert(prefix.drop_last() =~= s@.subrange(start as int, i as int));
        match hex_digit_value(c) {
            Some(v) => {
                acc = acc * 16 + v as u64;
                if acc > 0xFFFF_FFFF {
                    proof {
                        assert(hex_seq_value(prefix) == acc);
                        assert(d.take(i + 1 - start) =~= prefix);
                        lemma_hex_prefix_le(d, i + 1 - start);
                        assert(hex_seq_value(d) > u32::MAX);
                    }
                    return None;
                }
            },
            None => {
                assert(d[i - start] == c);
                assert(!is_hex_char(d[i - start]));
                return None;
            },
        }
        i = i + 1;
    }
    assert(s@.subrange(start as int, n as int) =~= d);
    assert forall|j: int| 0 <= j < d.len() implies is_hex_char(#[trigger] d[j]) by {
        assert(d[j] == s@[j + start]);
    }
    Some(acc as u32)
}

/// Text that `u32::from_str_radix(.., 16)` accepts is ASCII, so its UTF-8
/// length is its number of characters.
proof fn lemma_radix16_ascii(s: Seq<char>)
    ensures
        radix16(s) is Some ==> utf8_len(s) == s.len(),
{
    if radix16(s) is Some {
        let d = radix16_digits(s);
        assert forall|i: int| 0 <= i < s.len() implies '\0' <= #[trigger] s[i] <= '\u{7f}' by {
            if s.len() > 0 && s[0] == '+' && i > 0 {
                assert(s[i] == d[i - 1]);
                assert(is_hex_char(d[i - 1]));
            } else if !(s.len() > 0 && s[0] == '+') {
                assert(is_hex_char(d[i]));
            }
        }
        assert(vstd::utf8::is_ascii_chars(s));
        vstd::utf8::is_ascii_chars_encode_utf8(s);
    }
}

/// The tag in lower case: ASCII text has `A`..`Z` mapped to `a`..`z`, other
/// text is lower-cased as `str::to_lowercase` does.
pub open spec fn lower_case(tag: Seq<char>) -> Seq<char> {
    if vstd::utf8::is_ascii_chars(tag) {
        ascii_lowercase(tag)
    } else {
        lowercase(tag)
    }
}

/// The colour that a tag names: `#RRGGBB` (opaque) or `#AARRGGBB` in
/// hexadecimal, or the name of a named colour in any case.
pub open spec fn parse_color_spec(tag: Seq<char>) -> Option<Color> {
    if tag.len() > 0 && tag[0] == '#' {
        let hex = tag.skip(1);
        if utf8_len(hex) == 6 {
            match radix16(hex) {
                Some(v) => Some(opaque_rgb(v)),
                None => None,
            }
        } else if utf8_len(hex) == 8 {
            match radix16(hex) {
                Some(v) => Some(from_argb_u32(v)),
                None => None,
            }
        } else {
            None
        }
    } else {
        named_color(lower_case(tag))
    }
}

/// The colour that a tag names, if any.
pub fn parse_color(tag: &str) -> (res: Option<Color>)
    ensures
        res == parse_color_spec(tag@),
{
    let n = tag.unicode_len();
    if n > 0 && tag.get_char(0) == '#' {
        let hex = tag.substring_char(1, n);
        assert(hex@ == tag@.skip(1));
        proof { lemma_radix16_ascii(hex@); }
        let hex_len = hex.unicode_len();
        if hex_len == 6 {
            if let Some(rgb) = from_str_radix_16(hex) {
                return Some(color_from_rgb_u32(rgb));
            }
        } else if hex_len == 8 {
            if let Some(argb) = from_str_radix_16(hex) {
                return Some(color_from_argb_u32(argb));
            }
        }
        None
    } else {
        let lower = to_lowercase(tag);
        get_color(lower.as_str())
    }
}

// ---------------------------------------------------------------------------
// Flattening into coloured segments
// ---------------------------------------------------------------------------

/// `a`, or `b` when `a` is `None`.
pub open spec fn or_color(a: Option<Color>, b: Option<Color>) -> Option<Color> {
    match a {
        Some(_) => a,
        None => b,
    }
}

/// The coloured text segments of one node drawn in `color`: a tag that names a
/// colour draws what it encloses in that colour, any other tag keeps `color`.
pub open spec fn flatten_node(node: NodeView, color: Option<Color>) -> Seq<(Seq<char>, Option<Color>)>
    decreases node,
{
    match node {
        NodeView::Text(t) => seq![(t, color)],
        NodeView::Tag(tag, children) => flatten_spec(children, or_color(parse_color_spec(tag), color)),
    }
}

/// The coloured text segments of a sequence of nodes drawn in `color`.
pub open spec fn flatten_spec(nodes: Seq<NodeView>, color: Option<Color>) -> Seq<(Seq<char>, Option<Color>)>
    decreases nodes,
{
    if nodes.len() == 0 {
        Seq::empty()
    } else {
        flatten_spec(nodes.drop_last(), color) + flatten_node(nodes.last(), color)
    }
}

/// The mathematical value of a list of segments.
pub open spec fn segments_view(v: Seq<(String, Option<Color>)>) -> Seq<(Seq<char>, Option<Color>)> {
    v.map_values(|p: (String, Option<Color>)| (p.0@, p.1))
}

/// Flattens nodes drawn in `current_color` into coloured text segments.
pub fn flatten_nodes(nodes: &[Node], current_color: Option<Color>) -> (segments: Vec<(String, Option<Color>)>)
    ensures
        segments_view(segments@) == flatten_spec(nodes_view(nodes@), current_color),
    decreases nodes@,
{
    let mut segments: Vec<(String, Option<Color>)> = Vec::new();
    let n = nodes.len();
    let mut i: usize = 0;
    while i < n
        invariant
            n == nodes@.len(),
            i <= n,
            segments_view(segments@) == flatten_spec(nodes_view(nodes@.take(i as int)), current_color),
        decreases n - i,
    {
        let ghost before = segments@;
        proof {
            assert(nodes@.take(i + 1).drop_last() =~= nodes@.take(i as int));
            let nv = nodes_view(nodes@.take(i + 1));
            assert(nodes@.take(i + 1).last() == nodes@[i as int]);
            assert(nv.drop_last() =~= nodes_view(nodes@.take(i as int)));
            assert(nv.last() == nodes@[i as int].view_node());
            assert(flatten_spec(nv, current_color) == flatten_spec(nodes_view(nodes@.take(i as int)), current_color)
                + flatten_node(nodes@[i as int].view_node(), current_color));
        }
        match &nodes[i] {
            Node::Text(text) => {
                segments.push((text.clone(), current_color));
                assert(segments_view(segments@) =~= segments_view(before) + seq![(text@, current_color)]);
            },
            Node::Tag { tag, children } => {
                let new_color = match parse_color(tag.as_str()) {
                    Some(c) => Some(c),
                    None => current_color,
                };
                let mut child_segments = flatten_nodes(children.as_slice(), new_color);
                let ghost child = child_segments@;
                segments.append(&mut child_segments);
                assert(segments@ =~= before + child);
                assert(segments_view(segments@) =~= segments_view(before) + segments_view(child));
            },
        }
        i = i + 1;
    }
    assert(nodes@.take(n as int) =~= nodes@);
    segments
}

/// Parses a markup text and flattens it into coloured text segments.
pub fn parse_and_flatten(input: &str) -> (segments: Vec<(String, Option<Color>)>)
    ensures
        segments_view(segments@) == flatten_spec(parse_spec(input@, None).0, None),
{
    let nodes = parse_nodes(input);
    flatten_nodes(nodes.as_slice(), None)
}

// ---------------------------------------------------------------------------
// Laws of the markup
// ---------------------------------------------------------------------------

/// Text without `<`, up to a closing tag or the end, is one text node.
pub proof fn lemma_text_then(body: Seq<char>, rest: Seq<char>, expected: Option<Seq<char>>)
    requires
        body.len() > 0,
        forall|i: int| 0 <= i < body.len() ==> body[i] != '<',
        rest.len() == 0 || rest[0] == '<',
    ensures
        parse_spec(body + rest, expected).0 == seq![NodeView::Text(body)] + parse_spec(rest, expected).0,
        parse_spec(body + rest, expected).1 == parse_spec(rest, expected).1,
{
    let input = body + rest;
    assert(input[0] == body[0]);
    if rest.len() == 0 {
        assert(input =~= body);
        lemma_find_from(input, '<', 0);
        assert(parse_spec(rest, expected).0 =~= Seq::<NodeView>::empty());
        assert(seq![NodeView::Text(body)] + Seq::<NodeView>::empty() =~= seq![NodeView::Text(body)]);
    } else {
        assert(input[body.len() as int] == '<');
        lemma_find_is(input, '<', body.len() as int);
        assert(input.take(body.len() as int) =~= body);
        assert(input.skip(body.len() as int) =~= rest);
    }
}

proof fn lemma_flatten_single_text(t: Seq<char>, col: Option<Color>)
    ensures
        flatten_spec(seq![NodeView::Text(t)], col) == seq![(t, col)],
{
    let ns = seq![NodeView::Text(t)];
    assert(ns.drop_last() =~= Seq::<NodeView>::empty());
    assert(flatten_spec(ns.drop_last(), col) == Seq::<(Seq<char>, Option<Color>)>::empty());
    assert(ns.last() == NodeView::Text(t));
    assert(flatten_node(NodeView::Text(t), col) == seq![(t, col)]);
    assert(flatten_spec(ns, col) =~= seq![(t, col)]);
}

/// Plain text — text without `<` — is a single segment without colour.
pub proof fn lemma_plain_text(input: Seq<char>)
    requires
        input.len() > 0,
        forall|i: int| 0 <= i < input.len() ==> input[i] != '<',
    ensures
        parse_spec(input, None).0 == seq![NodeView::Text(input)],
        flatten_spec(parse_spec(input, None).0, None) == seq![(input, None::<Color>)],
{
    lemma_text_then(input, Seq::empty(), None);
    assert(input + Seq::<char>::empty() =~= input);
    assert(seq![NodeView::Text(input)] + Seq::<NodeView>::empty() =~= seq![NodeView::Text(input)]);
    lemma_flatten_single_text(input, None);
}

/// The markup `<tag>body</tag>`.
pub open spec fn tagged(tag: Seq<char>, body: Seq<char>) -> Seq<char> {
    seq!['<'] + tag + seq!['>'] + body + closer(tag)
}

/// Text enclosed in a tag and its closing tag is one segment drawn in the
/// colour that the tag names (none when it names none).
pub proof fn lemma_tagged_text(tag: Seq<char>, body: Seq<char>)
    requires
        forall|i: int| 0 <= i < tag.len() ==> tag[i] != '>',
        tag.len() == 0 || tag[0] != '/',
        body.len() > 0,
        forall|i: int| 0 <= i < body.len() ==> body[i] != '<',
    ensures
        parse_spec(tagged(tag, body), None).0 == seq![NodeView::Tag(tag, seq![NodeView::Text(body)])],
        flatten_spec(parse_spec(tagged(tag, body), None).0, None) == seq![(body, parse_color_spec(tag))],
{
    let input = tagged(tag, body);
    let t = tag.len() as int;
    assert(input[0] == '<');
    assert(input[1] != '/') by {
        if t > 0 { assert(input[1] == tag[0]); } else { assert(input[1] == '>'); }
    }
    assert(input[t + 1] == '>');
    assert forall|j: int| 0 <= j < t + 1 implies input[j] != '>' by {
        if j > 0 { assert(input[j] == tag[j - 1]); }
    }
    lemma_find_is(input, '>', t + 1);
    assert(input.subrange(1, t + 1) =~= tag);
    let after = input.skip(t + 2);
    assert(after =~= body + closer(tag));
    // inside the tag: the body, then the expected closing tag
    let c = closer(tag);
    assert(c[0] == '<');
    lemma_text_then(body, c, Some(c));
    assert(c[t + 2] == '>');
    assert forall|j: int| 0 <= j < t + 2 implies c[j] != '>' by {
        if j >= 2 { assert(c[j] == tag[j - 2]); }
    }
    lemma_find_is(c, '>', t + 2);
    assert(c.take(t + 3) =~= c);
    assert(c.skip(t + 3) =~= Seq::<char>::empty());
    assert(starts_closing(c));
    assert(parse_spec(c, Some(c)).0 =~= Seq::<NodeView>::empty());
    assert(parse_spec(c, Some(c)).1 =~= Seq::<char>::empty());
    let inner = parse_spec(after, Some(c));
    assert(inner.0 =~= seq![NodeView::Text(body)]);
    assert(inner.1 =~= Seq::<char>::empty());
    assert(parse_spec(inner.1, None).0 =~= Seq::<NodeView>::empty());
    assert(parse_spec(input, None).0 =~= seq![NodeView::Tag(tag, seq![NodeView::Text(body)])]);
    // flattening
    let ns = seq![NodeView::Tag(tag, seq![NodeView::Text(body)])];
    assert(ns.drop_last() =~= Seq::<NodeView>::empty());
    let col = or_color(parse_color_spec(tag), None);
    assert(col == parse_color_spec(tag));
    lemma_flatten_single_text(body, col);
    assert(flatten_spec(ns.drop_last(), None) == Seq::<(Seq<char>, Option<Color>)>::empty());
    assert(ns.last() == NodeView::Tag(tag, seq![NodeView::Text(body)]));
    assert(flatten_node(ns.last(), None) == seq![(body, col)]);
    assert(flatten_spec(ns, None) =~= seq![(body, col)]);
}

proof fn lemma_hex_digit_value(d: int)
    requires
        0 <= d < 16,
    ensures
        is_hex_char(hex_digit(d)),
        hex_char_value(hex_digit(d)) == d,
        '\0' <= hex_digit(d) <= '\u{7f}',
{
}

proof fn lemma_hex_seq_value_step(s: Seq<char>, k: int)
    requires
        1 <= k <= s.len(),
    ensures
        hex_seq_value(s.take(k)) == hex_seq_value(s.take(k - 1)) * 16 + hex_char_value(s[k - 1]),
{
    assert(s.take(k).drop_last() =~= s.take(k - 1));
}

proof fn lemma_hex_seq_value6(s: Seq<char>, d0: int, d1: int, d2: int, d3: int, d4: int, d5: int)
    requires
        s.len() == 6,
        hex_char_value(s[0]) == d0,
        hex_char_value(s[1]) == d1,
        hex_char_value(s[2]) == d2,
        hex_char_value(s[3]) == d3,
        hex_char_value(s[4]) == d4,
        hex_char_value(s[5]) == d5,
    ensures
        hex_seq_value(s) == ((((d0 * 16 + d1) * 16 + d2) * 16 + d3) * 16 + d4) * 16 + d5,
{
    assert(s.take(0) =~= Seq::<char>::empty());
    lemma_hex_seq_value_step(s, 1);
    lemma_hex_seq_value_step(s, 2);
    lemma_hex_seq_value_step(s, 3);
    lemma_hex_seq_value_step(s, 4);
    lemma_hex_seq_value_step(s, 5);
    lemma_hex_seq_value_step(s, 6);
    assert(s.take(6) =~= s);
}

proof fn lemma_channel_digits(x: u8)
    ensures
        (x as int / 16) * 16 + x as int % 16 == x as int,
        0 <= x as int / 16 < 16,
        0 <= x as int % 16 < 16,
{
}

/// A tag written by `color_to_hex` names the colour it was written from,
/// made opaque: `parse_color` reads back what `color_to_hex` writes.
pub proof fn lemma_hex_round_trip(c: Color)
    ensures
        parse_color_spec(hex_of(c)) == Some(Color { a: 255, ..c }),
{
    let h = hex_of(c);
    let hex = h.skip(1);
    lemma_channel_digits(c.r);
    lemma_channel_digits(c.g);
    lemma_channel_digits(c.b);
    let d0 = c.r as int / 16;
    let d1 = c.r as int % 16;
    let d2 = c.g as int / 16;
    let d3 = c.g as int % 16;
    let d4 = c.b as int / 16;
    let d5 = c.b as int % 16;
    assert(hex =~= seq![hex_digit(d0), hex_digit(d1), hex_digit(d2), hex_digit(d3), hex_digit(d4), hex_digit(d5)]);
    lemma_hex_digit_value(d0);
    lemma_hex_digit_value(d1);
    lemma_hex_digit_value(d2);
    lemma_hex_digit_value(d3);
    lemma_hex_digit_value(d4);
    lemma_hex_digit_value(d5);
    assert(vstd::utf8::is_ascii_chars(hex));
    vstd::utf8::is_ascii_chars_encode_utf8(hex);
    assert(utf8_len(hex) == 6);
    assert(radix16_digits(hex) == hex);
    assert(all_hex(hex));
    lemma_hex_seq_value6(hex, d0, d1, d2, d3, d4, d5);
    let v6 = ((((d0 * 16 + d1) * 16 + d2) * 16 + d3) * 16 + d4) * 16 + d5;
    lemma_rgb_value(c);
    let v = v6 as u32;
    assert(radix16(hex) == Some(v));
}

proof fn lemma_rgb_value(c: Color)
    ensures
        ({
            let v6 = (((((c.r as int / 16) * 16 + c.r as int % 16) * 16 + c.g as int / 16) * 16
                + c.g as int % 16) * 16 + c.b as int / 16) * 16 + c.b as int % 16;
            &&& 0 <= v6 <= u32::MAX
            &&& opaque_rgb(v6 as u32) == Color { a: 255, ..c }
        }),
{
    let r = c.r as int;
    let g = c.g as int;
    let b = c.b as int;
    lemma_channel_digits(c.r);
    lemma_channel_digits(c.g);
    lemma_channel_digits(c.b);
    let e1 = (r / 16) * 16 + r % 16;
    assert(e1 == r);
    let e2 = (e1 * 16 + g / 16) * 16 + g % 16;
    assert(e2 == r * 256 + g);
    let e3 = (e2 * 16 + b / 16) * 16 + b % 16;
    assert(e3 == r * 65536 + g * 256 + b);
    let v = r * 65536 + g * 256 + b;
    vstd::arithmetic::div_mod::lemma_fundamental_div_mod_converse(v, 65536, r, g * 256 + b);
    vstd::arithmetic::div_mod::lemma_fundamental_div_mod_converse(v, 256, r * 256 + g, b);
    vstd::arithmetic::div_mod::lemma_fundamental_div_mod_converse(r * 256 + g, 256, r, g);
    assert(v / 65536 % 256 == r);
    assert(v / 256 % 256 == g);
    assert(v % 256 == b);
}

/// The hexadecimal digits and their values: `0`..`9`, and `a`..`f` in
/// either case for 10..15; nothing else is a digit.
pub proof fn lemma_hex_digits()
    ensures
        is_hex_char('0') && hex_char_value('0') == 0,
        is_hex_char('1') && hex_char_value('1') == 1,
        is_hex_char('2') && hex_char_value('2') == 2,
        is_hex_char('3') && hex_char_value('3') == 3,
        is_hex_char('4') && hex_char_value('4') == 4,
        is_hex_char('5') && hex_char_value('5') == 5,
        is_hex_char('6') && hex_char_value('6') == 6,
        is_hex_char('7') && hex_char_value('7') == 7,
        is_hex_char('8') && hex_char_value('8') == 8,
        is_hex_char('9') && hex_char_value('9') == 9,
        is_hex_char('a') && hex_char_value('a') == 10,
        is_hex_char('A') && hex_char_value('A') == 10,
        is_hex_char('b') && hex_char_value('b') == 11,
        is_hex_char('B') && hex_char_value('B') == 11,
        is_hex_char('c') && hex_char_value('c') == 12,
        is_hex_char('C') && hex_char_value('C') == 12,
        is_hex_char('d') && hex_char_value('d') == 13,
        is_hex_char('D') && hex_char_value('D') == 13,
        is_hex_char('e') && hex_char_value('e') == 14,
        is_hex_char('E') && hex_char_value('E') == 14,
        is_hex_char('f') && hex_char_value('f') == 15,
        is_hex_char('F') && hex_char_value('F') == 15,
        !is_hex_char('g') && !is_hex_char('G') && !is_hex_char('+') && !is_hex_char('-') && !is_hex_char('#'),
{
}

/// The lower-case hexadecimal digit of `d` (`d < 16`).
pub open spec fn hex_digit_lower(d: int) -> char {
    if d < 10 {
        (d + 48) as char
    } else {
        (d + 87) as char
    }
}

/// `#rrggbb` in lower case.
pub open spec fn hex_of_lower(c: Color) -> Seq<char> {
    seq![
        '#',
        hex_digit_lower(c.r as int / 16),
        hex_digit_lower(c.r as int % 16),
        hex_digit_lower(c.g as int / 16),
        hex_digit_lower(c.g as int % 16),
        hex_digit_lower(c.b as int / 16),
        hex_digit_lower(c.b as int % 16),
    ]
}

proof fn lemma_hex_digit_lower_value(d: int)
    requires
        0 <= d < 16,
    ensures
        is_hex_char(hex_digit_lower(d)),
        hex_char_value(hex_digit_lower(d)) == d,
        '\0' <= hex_digit_lower(d) <= '\u{7f}',
{
}

/// Hex digits are read in either case: a tag `#rrggbb` written in lower case
/// names the same opaque colour as its upper-case form.
pub proof fn lemma_hex_round_trip_lower(c: Color)
    ensures
        parse_color_spec(hex_of_lower(c)) == Some(Color { a: 255, ..c }),
{
    let h = hex_of_lower(c);
    let hex = h.skip(1);
    lemma_channel_digits(c.r);
    lemma_channel_digits(c.g);
    lemma_channel_digits(c.b);
    let d0 = c.r as int / 16;
    let d1 = c.r as int % 16;
    let d2 = c.g as int / 16;
    let d3 = c.g as int % 16;
    let d4 = c.b as int / 16;
    let d5 = c.b as int % 16;
    assert(hex =~= seq![
        hex_digit_lower(d0), hex_digit_lower(d1), hex_digit_lower(d2),
        hex_digit_lower(d3), hex_digit_lower(d4), hex_digit_lower(d5),
    ]);
    lemma_hex_digit_lower_value(d0);
    lemma_hex_digit_lower_value(d1);
    lemma_hex_digit_lower_value(d2);
    lemma_hex_digit_lower_value(d3);
    lemma_hex_digit_lower_value(d4);
    lemma_hex_digit_lower_value(d5);
    assert(vstd::utf8::is_ascii_chars(hex));
    vstd::utf8::is_ascii_chars_encode_utf8(hex);
    assert(utf8_len(hex) == 6);
    assert(radix16_digits(hex) == hex);
    assert(all_hex(hex));
    lemma_hex_seq_value6(hex, d0, d1, d2, d3, d4, d5);
    let v6 = ((((d0 * 16 + d1) * 16 + d2) * 16 + d3) * 16 + d4) * 16 + d5;
    lemma_rgb_value(c);
    let v = v6 as u32;
    assert(radix16(hex) == Some(v));
}

} // verus!
