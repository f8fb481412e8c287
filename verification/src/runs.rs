//! Splitting coloured text into runs that are each drawn with one typeface at
//! one scale: characters that the main (Minecraft) typeface cannot draw are
//! drawn with the backup typeface, a few star symbols at 80 % size.

use vstd::prelude::*;
use crate::color::Color;
use crate::markup::{parse_and_flatten, parse_spec, flatten_spec, segments_view};

verus! {

/// The typeface a run is drawn with.
#[derive(Clone, Copy, PartialEq, Eq, Structural, Debug)]
pub enum FontFace {
    Minecraft,
    Backup,
}

/// Which characters each typeface has no glyph for.
pub struct GlyphCoverage {
    pub missing_in_minecraft: Vec<char>,
    pub missing_in_backup: Vec<char>,
}

impl GlyphCoverage {
    /// Whether `face` has a glyph for `ch`.
    pub open spec fn covers(&self, face: FontFace, ch: char) -> bool {
        match face {
            FontFace::Minecraft => !self.missing_in_minecraft@.contains(ch),
            FontFace::Backup => !self.missing_in_backup@.contains(ch),
        }
    }

    /// Whether `face` has a glyph for `ch`.
    pub fn has_glyph(&self, face: FontFace, ch: char) -> (res: bool)
        ensures
            res == self.covers(face, ch),
    {
        let list = match face {
            FontFace::Minecraft => &self.missing_in_minecraft,
            FontFace::Backup => &self.missing_in_backup,
        };
        let n = list.len();
        let mut i: usize = 0;
        while i < n
            invariant
                n == list@.len(),
                i <= n,
                list@ == match face {
                    FontFace::Minecraft => self.missing_in_minecraft@,
                    FontFace::Backup => self.missing_in_backup@,
                },
                forall|j: int| 0 <= j < i ==> list@[j] != ch,
            decreases n - i,
        {
            if list[i] == ch {
                assert(list@[i as int] == ch);
                assert(list@.contains(ch));
                return false;
            }
            i = i + 1;
        }
        true
    }
}

/// A piece of text drawn with one typeface, at one scale (in percent of the
/// text size), in one colour (`None`: the default colour).
pub struct TextRun {
    pub text: String,
    pub typeface: FontFace,
    pub scale: u32,
    pub color: Option<Color>,
}

/// The mathematical value of a run.
pub struct RunView {
    pub text: Seq<char>,
    pub typeface: FontFace,
    pub scale: u32,
    pub color: Option<Color>,
}

impl TextRun {
    pub open spec fn view_run(&self) -> RunView {
        RunView { text: self.text@, typeface: self.typeface, scale: self.scale, color: self.color }
    }
}

pub open spec fn runs_view(v: Seq<TextRun>) -> Seq<RunView> {
    v.map_values(|r: TextRun| r.view_run())
}

/// Size of a glyph from the backup typeface, in percent: the stars
/// `✫ ✪ ⚝ ✥` are drawn at 80 %, everything else at 100 %.
pub open spec fn scale_factor(ch: char) -> u32 {
    if ch == '✫' || ch == '✪' || ch == '⚝' || ch == '✥' {
        80
    } else {
        100
    }
}

/// Size of a glyph from the backup typeface, in percent.
pub fn get_scale_factor(ch: char) -> (s: u32)
    ensures
        s == scale_factor(ch),
{
    match ch {
        '✫' | '✪' | '⚝' | '✥' => 80,
        _ => 100,
    }
}

/// The state of the split after a prefix of a segment: the finished runs, the
/// run being built, and its typeface and scale.
pub struct SplitState {
    pub runs: Seq<RunView>,
    pub current: Seq<char>,
    pub typeface: FontFace,
    pub scale: u32,
}

/// The typeface and scale wanted for `ch` when the current typeface is
/// `face`: when `face` has no glyph for it, the backup typeface at the
/// character's scale; otherwise the Minecraft typeface at full size.
pub open spec fn wanted(cov: GlyphCoverage, face: FontFace, ch: char) -> (FontFace, u32) {
    if !cov.covers(face, ch) {
        (FontFace::Backup, scale_factor(ch))
    } else {
        (FontFace::Minecraft, 100)
    }
}

/// The split state after the first `n` characters of `seg`. A run is closed
/// (even an empty one) when the typeface changes, or when the scale changes
/// and the run is not empty.
pub open spec fn split_scan(seg: Seq<char>, n: int, color: Option<Color>, cov: GlyphCoverage) -> SplitState
    decreases n,
{
    if n <= 0 {
        SplitState { runs: Seq::empty(), current: Seq::empty(), typeface: FontFace::Minecraft, scale: 100 }
    } else {
        let st = split_scan(seg, n - 1, color, cov);
        let ch = seg[n - 1];
        let w = wanted(cov, st.typeface, ch);
        if w.0 != st.typeface || (w.1 != st.scale && st.current.len() > 0) {
            SplitState {
                runs: st.runs.push(RunView { text: st.current, typeface: st.typeface, scale: st.scale, color }),
                current: seq![ch],
                typeface: w.0,
                scale: w.1,
            }
        } else {
            SplitState { runs: st.runs, current: st.current.push(ch), typeface: w.0, scale: w.1 }
        }
    }
}

/// The runs of one coloured segment (none for an empty segment).
pub open spec fn segment_runs(seg: Seq<char>, color: Option<Color>, cov: GlyphCoverage) -> Seq<RunView> {
    if seg.len() == 0 {
        Seq::empty()
    } else {
        let st = split_scan(seg, seg.len() as int, color, cov);
        if st.current.len() > 0 {
            st.runs.push(RunView { text: st.current, typeface: st.typeface, scale: st.scale, color })
        } else {
            st.runs
        }
    }
}

/// The runs of a sequence of coloured segments.
pub open spec fn all_runs(segs: Seq<(Seq<char>, Option<Color>)>, cov: GlyphCoverage) -> Seq<RunView>
    decreases segs.len(),
{
    if segs.len() == 0 {
        Seq::empty()
    } else {
        all_runs(segs.drop_last(), cov) + segment_runs(segs.last().0, segs.last().1, cov)
    }
}

/// The runs of a markup text.
pub open spec fn text_runs(input: Seq<char>, cov: GlyphCoverage) -> Seq<RunView> {
    all_runs(flatten_spec(parse_spec(input, None).0, None), cov)
}

fn split_segment(seg: &String, color: Option<Color>, coverage: &GlyphCoverage, runs: &mut Vec<TextRun>)
    ensures
        runs_view(final(runs)@) == runs_view(old(runs)@) + segment_runs(seg@, color, *coverage),
{
    let ghost start = runs@;
    let n = seg.as_str().unicode_len();
    if n == 0 {
        assert(runs_view(runs@) =~= runs_view(start) + Seq::<RunView>::empty());
        return;
    }
    let mut run = String::new();
    let mut current_typeface = FontFace::Minecraft;
    let mut current_scale: u32 = 100;
    let mut i: usize = 0;
    while i < n
        invariant
            n == seg@.len(),
            i <= n,
            runs_view(runs@) == runs_view(start) + split_scan(seg@, i as int, color, *coverage).runs,
            run@ == split_scan(seg@, i as int, color, *coverage).current,
            current_typeface == split_scan(seg@, i as int, color, *coverage).typeface,
            current_scale == split_scan(seg@, i as int, color, *coverage).scale,
        decreases n - i,
    {
        let ch = seg.as_str().get_char(i);
        let (desired_typeface, desired_scale) = if !coverage.has_glyph(current_typeface, ch) {
            (FontFace::Backup, get_scale_factor(ch))
        } else {
            (FontFace::Minecraft, 100)
        };
        if desired_typeface != current_typeface || (desired_scale != current_scale && run.as_str().unicode_len() > 0) {
            let ghost before = runs@;
            runs.push(TextRun { text: run.clone(), typeface: current_typeface, scale: current_scale, color });
            assert(runs_view(runs@) =~= runs_view(before).push(
                RunView { text: run@, typeface: current_typeface, scale: current_scale, color },
            ));
            run = String::new();
        }
        current_typeface = desired_typeface;
        current_scale = desired_scale;
        crate::text::push_char(&mut run, ch);
        proof {
            assert(run@ =~= split_scan(seg@, i + 1, color, *coverage).current);
        }
        i = i + 1;
    }
    if run.as_str().unicode_len() > 0 {
        let ghost before = runs@;
        runs.push(TextRun { text: run, typeface: current_typeface, scale: current_scale, color });
        assert(runs_view(runs@) =~= runs_view(before).push(
            RunView { text: run@, typeface: current_typeface, scale: current_scale, color },
        ));
    } else {
        assert(runs_view(runs@) =~= runs_view(start) + segment_runs(seg@, color, *coverage));
    }
}

/// Splits a markup text into runs drawn each with one typeface at one scale.
pub fn extract_text_runs(input: &str, coverage: &GlyphCoverage) -> (runs: Vec<TextRun>)
    ensures
        runs_view(runs@) == text_runs(input@, *coverage),
{
    let segments = parse_and_flatten(input);
    let ghost segs = segments_view(segments@);
    let mut runs: Vec<TextRun> = Vec::new();
    let n = segments.len();
    let mut i: usize = 0;
    while i < n
        invariant
            n == segments@.len(),
            i <= n,
            segs == segments_view(segments@),
            segs == flatten_spec(parse_spec(input@, None).0, None),
            runs_view(runs@) == all_runs(segs.take(i as int), *coverage),
        decreases n - i,
    {
        proof {
            assert(segs.take(i + 1).drop_last() =~= segs.take(i as int));
        }
        split_segment(&segments[i].0, segments[i].1, coverage, &mut runs);
        i = i + 1;
    }
    assert(segs.take(n as int) =~= segs);
    runs
}

/// The texts of runs, one after the other.
pub open spec fn concat_texts(rs: Seq<RunView>) -> Seq<char>
    decreases rs.len(),
{
    if rs.len() == 0 {
        Seq::empty()
    } else {
        concat_texts(rs.drop_last()) + rs.last().text
    }
}

/// The texts of segments, one after the other.
pub open spec fn concat_segments(segs: Seq<(Seq<char>, Option<Color>)>) -> Seq<char>
    decreases segs.len(),
{
    if segs.len() == 0 {
        Seq::empty()
    } else {
        concat_segments(segs.drop_last()) + segs.last().0
    }
}

proof fn lemma_concat_texts_add(a: Seq<RunView>, b: Seq<RunView>)
    ensures
        concat_texts(a + b) == concat_texts(a) + concat_texts(b),
    decreases b.len(),
{
    if b.len() == 0 {
        assert(a + b =~= a);
        assert(concat_texts(a) + Seq::<char>::empty() =~= concat_texts(a));
    } else {
        assert((a + b).drop_last() =~= a + b.drop_last());
        lemma_concat_texts_add(a, b.drop_last());
        assert(concat_texts(a) + concat_texts(b.drop_last()) + b.last().text
            =~= concat_texts(a) + (concat_texts(b.drop_last()) + b.last().text));
    }
}

proof fn lemma_scan_text(seg: Seq<char>, n: int, color: Option<Color>, cov: GlyphCoverage)
    requires
        0 <= n <= seg.len(),
    ensures
        concat_texts(split_scan(seg, n, color, cov).runs) + split_scan(seg, n, color, cov).current
            == seg.take(n),
    decreases n,
{
    if n == 0 {
        assert(seg.take(0) =~= Seq::<char>::empty());
        assert(Seq::<char>::empty() + Seq::<char>::empty() =~= Seq::<char>::empty());
    } else {
        lemma_scan_text(seg, n - 1, color, cov);
        let st = split_scan(seg, n - 1, color, cov);
        let st2 = split_scan(seg, n, color, cov);
        assert(seg.take(n) =~= seg.take(n - 1).push(seg[n - 1]));
        if st2.runs.len() != st.runs.len() {
            assert(st2.runs.drop_last() =~= st.runs);
            assert(concat_texts(st2.runs) == concat_texts(st.runs) + st.current);
            assert(concat_texts(st2.runs) + st2.current =~= seg.take(n));
        } else {
            assert(concat_texts(st2.runs) + st2.current =~= seg.take(n));
        }
    }
}

/// The runs of a segment hold its text, in order.
pub proof fn lemma_segment_runs_text(seg: Seq<char>, color: Option<Color>, cov: GlyphCoverage)
    ensures
        concat_texts(segment_runs(seg, color, cov)) == seg,
{
    if seg.len() == 0 {
        assert(concat_texts(Seq::<RunView>::empty()) =~= seg);
    } else {
        let st = split_scan(seg, seg.len() as int, color, cov);
        lemma_scan_text(seg, seg.len() as int, color, cov);
        assert(seg.take(seg.len() as int) =~= seg);
        if st.current.len() > 0 {
            let rs = segment_runs(seg, color, cov);
            assert(rs.drop_last() =~= st.runs);
        } else {
            assert(concat_texts(st.runs) + st.current =~= concat_texts(st.runs));
        }
    }
}

/// Splitting into runs loses and adds no text: the runs' texts, one after the
/// other, are the segments' texts, one after the other.
pub proof fn lemma_runs_keep_text(segs: Seq<(Seq<char>, Option<Color>)>, cov: GlyphCoverage)
    ensures
        concat_texts(all_runs(segs, cov)) == concat_segments(segs),
    decreases segs.len(),
{
    if segs.len() > 0 {
        lemma_runs_keep_text(segs.drop_last(), cov);
        lemma_concat_texts_add(all_runs(segs.drop_last(), cov), segment_runs(segs.last().0, segs.last().1, cov));
        lemma_segment_runs_text(segs.last().0, segs.last().1, cov);
    }
}

proof fn lemma_scan_colors(seg: Seq<char>, n: int, color: Option<Color>, cov: GlyphCoverage)
    ensures
        forall|i: int| 0 <= i < split_scan(seg, n, color, cov).runs.len()
            ==> #[trigger] split_scan(seg, n, color, cov).runs[i].color == color,
    decreases n,
{
    if n > 0 {
        lemma_scan_colors(seg, n - 1, color, cov);
    }
}

/// Every run of a segment is drawn in the segment's colour, whatever
/// typeface and scale it uses.
pub proof fn lemma_segment_runs_color(seg: Seq<char>, color: Option<Color>, cov: GlyphCoverage)
    ensures
        forall|i: int| 0 <= i < segment_runs(seg, color, cov).len()
            ==> #[trigger] segment_runs(seg, color, cov)[i].color == color,
{
    if seg.len() > 0 {
        lemma_scan_colors(seg, seg.len() as int, color, cov);
    }
}

/// Every run of a sequence of segments is drawn in the colour of one of the
/// segments: splitting into runs never changes or drops a colour.
pub proof fn lemma_all_runs_color(segs: Seq<(Seq<char>, Option<Color>)>, cov: GlyphCoverage)
    ensures
        forall|i: int| 0 <= i < all_runs(segs, cov).len() ==> exists|j: int|
            0 <= j < segs.len() && #[trigger] all_runs(segs, cov)[i].color == segs[j].1,
    decreases segs.len(),
{
    if segs.len() > 0 {
        let init = segs.drop_last();
        lemma_all_runs_color(init, cov);
        let last = segs.last();
        lemma_segment_runs_color(last.0, last.1, cov);
        let a = all_runs(init, cov);
        let b = segment_runs(last.0, last.1, cov);
        assert forall|i: int| 0 <= i < all_runs(segs, cov).len() implies exists|j: int|
            0 <= j < segs.len() && #[trigger] all_runs(segs, cov)[i].color == segs[j].1 by {
            assert(all_runs(segs, cov) == a + b);
            if i < a.len() {
                let j = choose|j: int| 0 <= j < init.len() && a[i].color == init[j].1;
                assert(segs[j] == init[j]);
            } else {
                assert(b[i - a.len()].color == last.1);
                assert(segs[segs.len() - 1] == last);
            }
        }
    }
}

} // verus!
