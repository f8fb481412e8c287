//! Number formatting for stat cards: thousands separated by commas, two
//! decimals for ratios, and the colour markup around a stat.

use vstd::prelude::*;
use num_format::{Locale, ToFormattedString};
use crate::markup::{find_from, tagged, parse_spec, flatten_spec, lemma_tagged_text, parse_color_spec};
use crate::color::{Color, opaque_rgb};
use crate::palette::{named_color, palette_name, name_index_from, palette_rgb};

verus! {

/// The decimal digit character for `d` (`d < 10`).
pub open spec fn digit(d: int) -> char {
    (d + 48) as char
}

/// The decimal digits of `n`.
pub open spec fn decimal(n: nat) -> Seq<char>
    decreases n,
{
    if n < 10 {
        seq![digit(n as int)]
    } else {
        decimal(n / 10).push(digit((n % 10) as int))
    }
}

/// The decimal digits of `n` with a `,` between groups of three, counted from
/// the right (`1234567` gives `1,234,567`).
pub open spec fn grouped(n: nat) -> Seq<char>
    decreases n,
{
    if n < 1000 {
        decimal(n)
    } else {
        grouped(n / 1000) + seq![
            ',',
            digit(((n % 1000) / 100) as int),
            digit(((n % 100) / 10) as int),
            digit((n % 10) as int),
        ]
    }
}

/// `n.to_formatted_string(&Locale::en)` of num-format: the digits of `n` with
/// the English separator `,` between groups of three.
#[verifier::external_body]
fn format_grouped(n: u64) -> (s: String)
    ensures
        s@ == grouped(n as nat),
{
    n.to_formatted_string(&Locale::en)
}

/// What `num` gives for an integer: its value when it is in `0..=u64::MAX`
/// (`Some`), grouped by thousands; otherwise `Unsupported type`.
pub open spec fn num_spec(value: Option<u64>) -> Seq<char> {
    match value {
        Some(v) => grouped(v as nat),
        None => "Unsupported type"@,
    }
}

/// Formats an integer stat with thousands separators. `value` is the integer
/// as a `u64`, `None` when it has no such value (it is negative or too large).
pub fn num(value: Option<u64>) -> (s: String)
    ensures
        s@ == num_spec(value),
{
    match value {
        Some(v) => format_grouped(v),
        None => "Unsupported type".to_owned(),
    }
}

/// Whether `c` is a decimal digit.
pub open spec fn is_digit_char(c: char) -> bool {
    '0' <= c && c <= '9'
}

/// Whether every character of `d` is a decimal digit.
pub open spec fn all_digits(d: Seq<char>) -> bool {
    forall|i: int| 0 <= i < d.len() ==> is_digit_char(#[trigger] d[i])
}

/// Value of a sequence of decimal digits.
pub open spec fn digits_value(s: Seq<char>) -> nat
    decreases s.len(),
{
    if s.len() == 0 {
        0
    } else {
        digits_value(s.drop_last()) * 10 + (s.last() as int - 48) as nat
    }
}

/// The digits `u64::from_str` reads: `s` without a leading `+`.
pub open spec fn unsigned_digits(s: Seq<char>) -> Seq<char> {
    if s.len() > 0 && s[0] == '+' {
        s.drop_first()
    } else {
        s
    }
}

/// What `s.parse::<u64>()` gives: an optional `+`, then one or more decimal
/// digits whose value fits in 64 bits.
pub open spec fn parse_u64_spec(s: Seq<char>) -> Option<u64> {
    if s.len() == 1 && (s[0] == '+' || s[0] == '-') {
        None
    } else if unsigned_digits(s).len() > 0 && all_digits(unsigned_digits(s))
        && digits_value(unsigned_digits(s)) <= u64::MAX {
        Some(digits_value(unsigned_digits(s)) as u64)
    } else {
        None
    }
}

proof fn lemma_digits_prefix_le(s: Seq<char>, k: int)
    requires
        0 <= k <= s.len(),
        all_digits(s),
    ensures
        digits_value(s.take(k)) <= digits_value(s),
    decreases s.len(),
{
    if k < s.len() {
        assert(all_digits(s.drop_last()));
        lemma_digits_prefix_le(s.drop_last(), k);
        assert(s.drop_last().take(k) =~= s.take(k));
    } else {
        assert(s.take(k) =~= s);
    }
}

/// `s.parse::<u64>()`, `None` on error.
pub fn parse_u64(s: &str) -> (res: Option<u64>)
    ensures
        res == parse_u64_spec(s@),
{
    let n = s.unicode_len();
    if n == 1 && (s.get_char(0) == '+' || s.get_char(0) == '-') {
        return None;
    }
    let start: usize = if n > 0 && s.get_char(0) == '+' { 1 } else { 0 };
    let ghost d = unsigned_digits(s@);
    assert(d =~= s@.subrange(start as int, n as int));
    if start >= n {
        return None;
    }
    let mut acc: u128 = 0;
    let mut i: usize = start;
    while i < n
        invariant
            n == s@.len(),
            start <= i <= n,
            !(s@.len() == 1 && (s@[0] == '+' || s@[0] == '-')),
            d == unsigned_digits(s@),
            d == s@.subrange(start as int, n as int),
            acc == digits_value(s@.subrange(start as int, i as int)),
            acc <= u64::MAX,
            forall|j: int| start <= j < i ==> is_digit_char(#[trigger] s@[j]),
        decreases n - i,
    {
        let c = s.get_char(i);
        let ghost prefix = s@.subrange(start as int, i + 1);
        assert(prefix.drop_last() =~= s@.subrange(start as int, i as int));
        if '0' <= c && c <= '9' {
            acc = acc * 10 + (c as u32 - 48) as u128;
            if acc > 0xFFFF_FFFF_FFFF_FFFF {
                proof {
                    assert(digits_value(prefix) == acc);
                    if all_digits(d) {
                        assert(d.take(i + 1 - start) =~= prefix);
                        lemma_digits_prefix_le(d, i + 1 - start);
                    }
                }
                return None;
            }
        } else {
            assert(d[i - start] == c);
            return None;
        }
        i = i + 1;
    }
    assert(s@.subrange(start as int, n as int) =~= d);
    assert forall|j: int| 0 <= j < d.len() implies is_digit_char(#[trigger] d[j]) by {
        assert(d[j] == s@[j + start]);
    }
    Some(acc as u64)
}

/// The integer part of a `{:.2}`-formatted number: the text before the first `.`.
pub open spec fn int_part(f: Seq<char>) -> Seq<char> {
    match find_from(f, '.', 0) {
        Some(k) => f.take(k),
        None => f,
    }
}

/// The fraction part: the text between the first and the second `.`, or `00`
/// when there is no `.`.
pub open spec fn frac_part(f: Seq<char>) -> Seq<char> {
    match find_from(f, '.', 0) {
        Some(k) => {
            let after = f.skip(k + 1);
            match find_from(after, '.', 0) {
                Some(m) => after.take(m),
                None => after,
            }
        },
        None => seq!['0', '0'],
    }
}

/// A number formatted with two decimals (`-1234.50`) regrouped by thousands
/// (`-1,234.50`): the sign is kept, the digits of the integer part are read as
/// a `u64` (0 when they are not one) and grouped, the fraction is kept.
pub open spec fn fixed_spec(f: Seq<char>) -> Seq<char> {
    let ip = int_part(f);
    let negative = ip.len() > 0 && ip[0] == '-';
    let digits = if negative { ip.drop_first() } else { ip };
    let value = match parse_u64_spec(digits) {
        Some(v) => v,
        None => 0,
    };
    let sign = if negative { seq!['-'] } else { Seq::<char>::empty() };
    sign + grouped(value as nat) + seq!['.'] + frac_part(f)
}

/// Regroups a number formatted with two decimals by thousands.
pub fn num_fixed(formatted: &str) -> (s: String)
    ensures
        s@ == fixed_spec(formatted@),
{
    let n = formatted.unicode_len();
    let (int_part, frac_part) = match crate::markup::find_char(formatted, '.') {
        Some(k) => {
            proof { crate::markup::lemma_find_from(formatted@, '.', 0); }
            let after = formatted.substring_char(k + 1, n);
            let frac = match crate::markup::find_char(after, '.') {
                Some(j) => {
                    proof { crate::markup::lemma_find_from(after@, '.', 0); }
                    after.substring_char(0, j)
                },
                None => after,
            };
            (formatted.substring_char(0, k), frac)
        },
        None => (formatted, "00"),
    };
    proof {
        reveal_strlit("00");
        assert("00"@ =~= seq!['0', '0']);
    }
    let ip_len = int_part.unicode_len();
    let negative = ip_len > 0 && int_part.get_char(0) == '-';
    let digits = if negative { int_part.substring_char(1, ip_len) } else { int_part };
    assert(digits@ == (if negative { int_part@.drop_first() } else { int_part@ }));
    let value = match parse_u64(digits) {
        Some(v) => v,
        None => 0,
    };
    let mut s = String::new();
    if negative {
        crate::text::push_char(&mut s, '-');
    }
    let grouped_digits = format_grouped(value);
    s.append(grouped_digits.as_str());
    crate::text::push_char(&mut s, '.');
    s.append(frac_part);
    assert(s@ =~= fixed_spec(formatted@));
    s
}

/// How a stat is coloured: good (green), bad (red) or a ratio (gold).
#[derive(Clone, Copy, PartialEq, Eq, Structural, Debug)]
pub enum StatType {
    Positive,
    Negative,
    Ratio,
}

/// Opening tag of the colour of a stat type.
pub open spec fn stat_open(t: StatType) -> Seq<char> {
    match t {
        StatType::Positive => "<green>"@,
        StatType::Negative => "<red>"@,
        StatType::Ratio => "<gold>"@,
    }
}

/// Closing tag of the colour of a stat type.
pub open spec fn stat_close(t: StatType) -> Seq<char> {
    match t {
        StatType::Positive => "</green>"@,
        StatType::Negative => "</red>"@,
        StatType::Ratio => "</gold>"@,
    }
}

/// Wraps formatted stat text in the colour tag of its type.
pub fn stat_text(formatted: &str, _type: StatType) -> (s: String)
    ensures
        s@ == stat_open(_type) + formatted@ + stat_close(_type),
{
    let (open, close) = match _type {
        StatType::Positive => ("<green>", "</green>"),
        StatType::Negative => ("<red>", "</red>"),
        StatType::Ratio => ("<gold>", "</gold>"),
    };
    let mut s = open.to_owned();
    s.append(formatted);
    s.append(close);
    s
}

/// Formats an integer stat (see `num`) and colours it by its type.
pub fn stat(value: Option<u64>, _type: StatType) -> (s: String)
    ensures
        s@ == stat_open(_type) + num_spec(value) + stat_close(_type),
{
    let formatted = num(value);
    stat_text(formatted.as_str(), _type)
}

/// A row of the stats table: the label, then each counter as a stat of the
/// given type.
pub fn stat_row(label: &str, values: &Vec<u32>, kind: StatType) -> (row: Vec<String>)
    ensures
        row@.len() == values@.len() + 1,
        row@[0]@ == label@,
        forall|i: int| 0 <= i < values@.len() ==> #[trigger] row@[i + 1]@
            == stat_open(kind) + num_spec(Some(values@[i] as u64)) + stat_close(kind),
{
    let mut row: Vec<String> = Vec::new();
    row.push(label.to_owned());
    let n = values.len();
    let mut i: usize = 0;
    while i < n
        invariant
            n == values@.len(),
            i <= n,
            row@.len() == i + 1,
            row@[0]@ == label@,
            forall|j: int| 0 <= j < i ==> #[trigger] row@[j + 1]@
                == stat_open(kind) + num_spec(Some(values@[j] as u64)) + stat_close(kind),
        decreases n - i,
    {
        row.push(stat(Some(values[i] as u64), kind));
        i = i + 1;
    }
    row
}

// ---------------------------------------------------------------------------
// Laws
// ---------------------------------------------------------------------------

/// `s` with every `,` removed.
pub open spec fn without_commas(s: Seq<char>) -> Seq<char>
    decreases s.len(),
{
    if s.len() == 0 {
        Seq::empty()
    } else if s.last() == ',' {
        without_commas(s.drop_last())
    } else {
        without_commas(s.drop_last()).push(s.last())
    }
}

proof fn lemma_without_commas_add(a: Seq<char>, b: Seq<char>)
    ensures
        without_commas(a + b) == without_commas(a) + without_commas(b),
    decreases b.len(),
{
    if b.len() == 0 {
        assert(a + b =~= a);
        assert(without_commas(a) + Seq::<char>::empty() =~= without_commas(a));
    } else {
        assert((a + b).drop_last() =~= a + b.drop_last());
        lemma_without_commas_add(a, b.drop_last());
        if b.last() != ',' {
            assert(without_commas(a) + without_commas(b.drop_last()).push(b.last())
                =~= (without_commas(a) + without_commas(b.drop_last())).push(b.last()));
        }
    }
}

proof fn lemma_decimal_thousands(n: nat)
    requires
        n >= 1000,
    ensures
        decimal(n) == decimal(n / 1000) + seq![
            digit(((n % 1000) / 100) as int),
            digit(((n % 100) / 10) as int),
            digit((n % 10) as int),
        ],
{
    let a = n / 10;
    let b = n / 100;
    let c = n / 1000;
    assert(a / 10 == b);
    assert(b / 10 == c);
    assert(a % 10 == (n % 100) / 10);
    assert(b % 10 == (n % 1000) / 100);
    assert(decimal(n) == decimal(a).push(digit((n % 10) as int)));
    assert(decimal(a) == decimal(b).push(digit((a % 10) as int)));
    assert(decimal(b) == decimal(c).push(digit((b % 10) as int)));
    assert(decimal(n) =~= decimal(c) + seq![
        digit(((n % 1000) / 100) as int),
        digit(((n % 100) / 10) as int),
        digit((n % 10) as int),
    ]);
}

proof fn lemma_decimal_digits(n: nat)
    ensures
        decimal(n).len() > 0,
        forall|i: int| 0 <= i < decimal(n).len() ==> '0' <= #[trigger] decimal(n)[i] <= '9',
    decreases n,
{
    if n >= 10 {
        lemma_decimal_digits(n / 10);
    }
}

/// Removing the separators from a grouped number gives its plain decimal
/// digits: grouping only inserts commas.
pub proof fn lemma_grouped_digits(n: nat)
    ensures
        without_commas(grouped(n)) == decimal(n),
    decreases n,
{
    lemma_decimal_digits(n);
    if n < 1000 {
        lemma_no_commas(decimal(n));
    } else {
        lemma_grouped_digits(n / 1000);
        let tail = seq![
            ',',
            digit(((n % 1000) / 100) as int),
            digit(((n % 100) / 10) as int),
            digit((n % 10) as int),
        ];
        lemma_without_commas_add(grouped(n / 1000), tail);
        let t3 = tail.drop_first();
        assert(tail =~= seq![','] + t3);
        lemma_without_commas_add(seq![','], t3);
        assert(seq![','].drop_last() =~= Seq::<char>::empty());
        assert(seq![','].last() == ',');
        assert(without_commas(Seq::<char>::empty()) == Seq::<char>::empty());
        assert(without_commas(seq![',']) =~= Seq::<char>::empty());
        lemma_no_commas(t3);
        lemma_decimal_thousands(n);
        assert(without_commas(grouped(n)) =~= decimal(n));
    }
}

proof fn lemma_no_commas(s: Seq<char>)
    requires
        forall|i: int| 0 <= i < s.len() ==> #[trigger] s[i] != ',',
    ensures
        without_commas(s) == s,
    decreases s.len(),
{
    if s.len() > 0 {
        lemma_no_commas(s.drop_last());
        assert(s.drop_last().push(s.last()) =~= s);
    }
}

/// A grouped number is made of digits and commas only.
pub proof fn lemma_grouped_chars(n: nat)
    ensures
        grouped(n).len() > 0,
        forall|i: int| 0 <= i < grouped(n).len() ==> (('0' <= #[trigger] grouped(n)[i] <= '9') || grouped(n)[i] == ','),
    decreases n,
{
    lemma_decimal_digits(n);
    if n >= 1000 {
        lemma_grouped_chars(n / 1000);
    }
}

/// The colour a stat type is drawn in: green, red or gold.
pub open spec fn stat_color(t: StatType) -> Color {
    match t {
        StatType::Positive => opaque_rgb(palette_rgb(10)),
        StatType::Negative => opaque_rgb(palette_rgb(12)),
        StatType::Ratio => opaque_rgb(palette_rgb(6)),
    }
}

/// Name of the colour of a stat type.
pub open spec fn stat_color_name(t: StatType) -> Seq<char> {
    match t {
        StatType::Positive => "green"@,
        StatType::Negative => "red"@,
        StatType::Ratio => "gold"@,
    }
}

proof fn lemma_stat_color_named(t: StatType)
    ensures
        parse_color_spec(stat_color_name(t)) == Some(stat_color(t)),
        stat_open(t) == seq!['<'] + stat_color_name(t) + seq!['>'],
        stat_close(t) == seq!['<', '/'] + stat_color_name(t) + seq!['>'],
        forall|i: int| 0 <= i < stat_color_name(t).len() ==> #[trigger] stat_color_name(t)[i] != '>',
        stat_color_name(t).len() > 0 && stat_color_name(t)[0] != '/',
{
    reveal_strlit("black");
    reveal_strlit("dark_blue");
    reveal_strlit("dark_green");
    reveal_strlit("dark_aqua");
    reveal_strlit("dark_red");
    reveal_strlit("dark_purple");
    reveal_strlit("gold");
    reveal_strlit("gray");
    reveal_strlit("dark_gray");
    reveal_strlit("blue");
    reveal_strlit("green");
    reveal_strlit("aqua");
    reveal_strlit("red");
    reveal_strlit("<green>");
    reveal_strlit("</green>");
    reveal_strlit("<red>");
    reveal_strlit("</red>");
    reveal_strlit("<gold>");
    reveal_strlit("</gold>");
    let name = stat_color_name(t);
    assert(vstd::utf8::is_ascii_chars(name));
    assert(crate::text::ascii_lowercase(name) =~= name);
    assert(crate::markup::lower_case(name) == name);
    let k = match t {
        StatType::Positive => 10int,
        StatType::Negative => 12int,
        StatType::Ratio => 6int,
    };
    assert(palette_name(k) == name);
    assert forall|j: int| 0 <= j < k implies palette_name(j) != name by {
        if j == 0 { assert(palette_name(j).len() != name.len() || palette_name(j)[0] != name[0]); }
        else if j == 1 || j == 2 || j == 3 || j == 4 || j == 5 || j == 8 {
            assert(palette_name(j)[0] == 'd');
        } else if j == 6 || j == 7 || j == 9 || j == 10 || j == 11 {
            assert(palette_name(j).len() != name.len() || palette_name(j)[0] != name[0]
                || palette_name(j)[1] != name[1] || palette_name(j)[2] != name[2]);
        }
    }
    lemma_name_index(name, k, 0);
    assert(stat_open(t) =~= seq!['<'] + name + seq!['>']);
    assert(stat_close(t) =~= seq!['<', '/'] + name + seq!['>']);
}

proof fn lemma_name_index(name: Seq<char>, k: int, j: int)
    requires
        0 <= j <= k < 16,
        palette_name(k) == name,
        forall|i: int| 0 <= i < k ==> palette_name(i) != name,
    ensures
        name_index_from(name, j) == Some(k),
    decreases k - j,
{
    if j < k {
        lemma_name_index(name, k, j + 1);
    }
}

/// A stat is drawn as its formatted number, in one segment, in the colour of
/// its type (green for positive, red for negative, gold for ratios).
pub proof fn lemma_stat_renders(value: Option<u64>, t: StatType)
    ensures
        flatten_spec(parse_spec(stat_open(t) + num_spec(value) + stat_close(t), None).0, None)
            == seq![(num_spec(value), Some(stat_color(t)))],
{
    lemma_stat_color_named(t);
    let f = num_spec(value);
    match value {
        Some(v) => {
            lemma_grouped_chars(v as nat);
        },
        None => {
            reveal_strlit("Unsupported type");
        },
    }
    assert(forall|i: int| 0 <= i < f.len() ==> #[trigger] f[i] != '<');
    let name = stat_color_name(t);
    assert(stat_open(t) + f + stat_close(t) =~= tagged(name, f));
    lemma_tagged_text(name, f);
}

/// The fraction is kept: when the formatted number has a `.`, the result ends
/// with `.` and the text that follows the first `.` (up to a second `.`),
/// whatever the integer part is.
pub proof fn lemma_fraction_kept(f: Seq<char>, k: int)
    requires
        find_from(f, '.', 0) == Some(k),
    ensures
        ({
            let after = f.skip(k + 1);
            let frac = match find_from(after, '.', 0) {
                Some(m) => after.take(m),
                None => after,
            };
            let r = fixed_spec(f);
            &&& r.len() >= frac.len() + 1
            &&& r.subrange(r.len() - frac.len() - 1, r.len() as int) == seq!['.'] + frac
        }),
{
    let after = f.skip(k + 1);
    let frac = frac_part(f);
    let r = fixed_spec(f);
    let ip = int_part(f);
    let negative = ip.len() > 0 && ip[0] == '-';
    let digits = if negative { ip.drop_first() } else { ip };
    let value = match parse_u64_spec(digits) {
        Some(v) => v,
        None => 0,
    };
    let sign = if negative { seq!['-'] } else { Seq::<char>::empty() };
    let head = sign + grouped(value as nat);
    assert(r == head + (seq!['.'] + frac));
    assert(r.subrange(head.len() as int, r.len() as int) =~= seq!['.'] + frac);
}

proof fn lemma_decimal_value(n: nat)
    ensures
        all_digits(decimal(n)),
        digits_value(decimal(n)) == n,
        decimal(n).len() > 0,
        decimal(n)[0] != '+' && decimal(n)[0] != '-' && decimal(n)[0] != '.',
        forall|i: int| 0 <= i < decimal(n).len() ==> #[trigger] decimal(n)[i] != '.',
    decreases n,
{
    lemma_decimal_digits(n);
    let d = decimal(n);
    if n >= 10 {
        lemma_decimal_value(n / 10);
        assert(d.drop_last() =~= decimal(n / 10));
        assert(d[0] == decimal(n / 10)[0]);
        assert(d.last() == digit((n % 10) as int));
        assert(digit((n % 10) as int) as int - 48 == n % 10);
        assert(digits_value(d) == digits_value(decimal(n / 10)) * 10 + (n % 10));
        assert((n / 10) * 10 + n % 10 == n);
    } else {
        assert(d.drop_last() =~= Seq::<char>::empty());
        assert(d.last() == digit(n as int));
        assert(digit(n as int) as int - 48 == n);
        assert(digits_value(d.drop_last()) == 0);
        assert(digits_value(d) == digits_value(d.drop_last()) * 10 + (d.last() as int - 48) as nat);
        assert(digits_value(d) == n);
    }
}

/// Regrouping a well-formed two-decimal number only inserts commas: taking
/// the commas out of the result gives back the input, sign and fraction
/// included.
pub proof fn lemma_fixed_round_trip(n: u64, negative: bool, d1: char, d2: char)
    requires
        '0' <= d1 <= '9',
        '0' <= d2 <= '9',
    ensures
        ({
            let sign = if negative { seq!['-'] } else { Seq::<char>::empty() };
            let f = sign + decimal(n as nat) + seq!['.', d1, d2];
            without_commas(fixed_spec(f)) == f
        }),
{
    let sign = if negative { seq!['-'] } else { Seq::<char>::empty() };
    let dec = decimal(n as nat);
    let f = sign + dec + seq!['.', d1, d2];
    lemma_decimal_value(n as nat);
    let p: int = (sign.len() + dec.len()) as int;
    assert forall|j: int| 0 <= j < p implies f[j] != '.' by {
        if j >= sign.len() {
            assert(f[j] == dec[j - sign.len()]);
        }
    }
    assert(f[p] == '.');
    crate::markup::lemma_find_is(f, '.', p);
    assert(int_part(f) =~= sign + dec);
    let after = f.skip(p + 1);
    assert(after =~= seq![d1, d2]);
    crate::markup::lemma_find_from(after, '.', 0);
    assert(frac_part(f) =~= seq![d1, d2]);
    let ip = int_part(f);
    if negative {
        assert(ip[0] == '-');
        assert(ip.drop_first() =~= dec);
    } else {
        assert(ip =~= dec);
    }
    assert(unsigned_digits(dec) == dec);
    assert(parse_u64_spec(dec) == Some(n));
    lemma_grouped_digits(n as nat);
    let g = grouped(n as nat);
    let tail = seq!['.', d1, d2];
    assert(fixed_spec(f) == sign + g + tail);
    lemma_without_commas_add(sign + g, tail);
    lemma_without_commas_add(sign, g);
    lemma_no_commas(sign);
    lemma_no_commas(tail);
    assert(without_commas(fixed_spec(f)) =~= f);
}

} // verus!
