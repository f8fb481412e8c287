use hypixel_stats::color::Color;
use hypixel_stats::runs::{extract_text_runs, get_scale_factor, FontFace, GlyphCoverage, TextRun};

fn cov(missing_mc: &str, missing_backup: &str) -> GlyphCoverage {
    GlyphCoverage { missing_in_minecraft: missing_mc.chars().collect(), missing_in_backup: missing_backup.chars().collect() }
}

fn parts(runs: &[TextRun]) -> Vec<(String, FontFace, u32, Option<Color>)> {
    runs.iter().map(|r| (r.text.clone(), r.typeface, r.scale, r.color)).collect()
}

#[test]
fn scale_factors() {
    assert_eq!(get_scale_factor('✫'), 80);
    assert_eq!(get_scale_factor('✪'), 80);
    assert_eq!(get_scale_factor('⚝'), 80);
    assert_eq!(get_scale_factor('✥'), 80);
    assert_eq!(get_scale_factor('a'), 100);
}

#[test]
fn covered_text_is_one_run() {
    let runs = extract_text_runs("<red>abc</red>", &cov("", ""));
    let red = Some(Color { a: 255, r: 0xFF, g: 0x55, b: 0x55 });
    assert_eq!(parts(&runs), vec![("abc".to_string(), FontFace::Minecraft, 100, red)]);
}

#[test]
fn missing_glyphs_switch_typeface() {
    let runs = extract_text_runs("ab✫cd", &cov("✫", ""));
    assert_eq!(
        parts(&runs),
        vec![
            ("ab".to_string(), FontFace::Minecraft, 100, None),
            ("✫".to_string(), FontFace::Backup, 80, None),
            ("cd".to_string(), FontFace::Minecraft, 100, None),
        ]
    );
}

#[test]
fn leading_backup_glyph_makes_an_empty_run() {
    let runs = extract_text_runs("✫a", &cov("✫", ""));
    assert_eq!(
        parts(&runs),
        vec![
            ("".to_string(), FontFace::Minecraft, 100, None),
            ("✫".to_string(), FontFace::Backup, 80, None),
            ("a".to_string(), FontFace::Minecraft, 100, None),
        ]
    );
}

#[test]
fn backup_run_continues_while_backup_lacks_glyphs() {
    // After a switch, glyphs are looked up in the backup typeface: a character
    // it lacks stays in the backup run, at its own scale.
    let runs = extract_text_runs("✫€x", &cov("✫€", "€x"));
    assert_eq!(
        parts(&runs),
        vec![
            ("".to_string(), FontFace::Minecraft, 100, None),
            ("✫".to_string(), FontFace::Backup, 80, None),
            ("€x".to_string(), FontFace::Backup, 100, None),
        ]
    );
}

#[test]
fn empty_segments_give_no_runs() {
    assert!(extract_text_runs("", &cov("", "")).is_empty());
    assert!(extract_text_runs("<red></red>", &cov("", "")).is_empty());
}

#[test]
fn runs_keep_all_text() {
    let input = "<gold>[1✫]</gold> <#AA00AA>Name</#AA00AA> x";
    let runs = extract_text_runs(input, &cov("✫", ""));
    let joined: String = runs.iter().map(|r| r.text.as_str()).collect();
    assert_eq!(joined, "[1✫] Name x");
}

#[test]
fn coverage_lookup() {
    let c = cov("a", "b");
    assert!(!c.has_glyph(FontFace::Minecraft, 'a'));
    assert!(c.has_glyph(FontFace::Minecraft, 'b'));
    assert!(!c.has_glyph(FontFace::Backup, 'b'));
    assert!(c.has_glyph(FontFace::Backup, 'a'));
}
