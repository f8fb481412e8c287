use hypixel_stats::bedwars::{default_number, HypixelBedwarsFours, HypixelBedwarsOverall, HypixelBedwarsSlumber, HypixelBedwarsSolo};
use hypixel_stats::layout::{Alignment, TableRows};
use hypixel_stats::render_service::{ExpiringCache, PlayerRenderService, RENDER_TTL_SECS};

#[test]
fn counters_default_to_zero() {
    assert_eq!(default_number(), 0);
    let o = HypixelBedwarsOverall::default();
    assert_eq!(o.kills + o.deaths + o.final_kills + o.winstreak + o.emerald_collected, 0);
    let s = HypixelBedwarsSolo::default();
    assert_eq!(s.games_played, 0);
    let f = HypixelBedwarsFours::default();
    assert_eq!(f.beds_lost, 0);
    let t = HypixelBedwarsSlumber::default();
    assert_eq!(t.tickets + t.total_tickets, 0);
}

#[test]
fn alignment_defaults_to_left() {
    assert_eq!(Alignment::default(), Alignment::Left);
}

#[test]
fn table_rows_must_fit_the_columns() {
    let t = TableRows::new(2)
        .add_row(vec!["a".to_string(), "b".to_string()])
        .add_row(vec!["c".to_string()])
        .add_row(vec!["d".to_string(), "e".to_string(), "f".to_string()])
        .add_row(vec!["g".to_string(), "h".to_string()]);
    assert_eq!(t.columns(), 2);
    assert_eq!(t.rows(), &vec![vec!["a".to_string(), "b".to_string()], vec!["g".to_string(), "h".to_string()]]);
}

#[test]
fn cache_serves_fresh_entries() {
    let mut c = ExpiringCache::new(10);
    assert_eq!(c.get("a", 0), None);
    c.insert("a".to_string(), vec![1, 2], 100);
    assert_eq!(c.get("a", 100), Some(vec![1, 2]));
    assert_eq!(c.get("a", 109), Some(vec![1, 2]));
    assert_eq!(c.get("a", 110), None);
    assert_eq!(c.get("b", 100), None);
    c.insert("b".to_string(), vec![3], 105);
    c.insert("a".to_string(), vec![4], 120);
    assert_eq!(c.get("a", 125), Some(vec![4]));
    assert_eq!(c.get("b", 110), Some(vec![3]));
}

#[test]
fn render_service_keeps_renders_an_hour() {
    assert_eq!(RENDER_TTL_SECS, 3600);
    let mut s = PlayerRenderService::instance();
    assert_eq!(s.cached_render("uuid", 0), None);
    s.store_render("uuid", vec![9, 9], 1000);
    assert_eq!(s.cached_render("uuid", 1000 + 3599), Some(vec![9, 9]));
    assert_eq!(s.cached_render("uuid", 1000 + 3600), None);
    assert_eq!(s.cached_render("other", 1000), None);
}
