use onepage::clock::WallClock;
use onepage::config::TimezoneConfig;
use chrono::{Duration, Timelike, Utc};
use onepage::handlers::{fallback_wallpaper, page_date_time, safe_url, timezone_infos, TimezoneInfo};

fn zone(name: &str, tz: &str) -> TimezoneConfig {
    TimezoneConfig { name: name.to_string(), tz: tz.to_string(), icon: "🕐".to_string() }
}

#[test]
fn safe_urls_are_kept() {
    assert_eq!(safe_url("https://github.com"), "https://github.com");
    assert_eq!(safe_url("http://example.com"), "http://example.com");
    assert_eq!(safe_url("/static/a.css"), "/static/a.css");
    assert_eq!(safe_url("#top"), "#top");
}

#[test]
fn other_schemes_become_a_fragment() {
    assert_eq!(safe_url("javascript:alert(1)"), "#");
    assert_eq!(safe_url("ftp://example.com"), "#");
    assert_eq!(safe_url(""), "#");
    assert_eq!(safe_url(&safe_url("data:text/html,x")), "#");
}

#[test]
fn fallback_wallpaper_contents() {
    let w = fallback_wallpaper();
    assert_eq!(w.url, "https://images.unsplash.com/photo-1506905925346-21bda4d32df4?w=1920");
    assert_eq!(w.copyright, "Default wallpaper");
    assert_eq!(w.copyright_link, "#");
    assert_eq!(w.title, "Default");
}

#[test]
fn card_at_a_given_reading() {
    let c = WallClock { year: 2024, month: 7, day: 1, hour: 18, minute: 5, second: 3, nanosecond: 0, weekday_from_sunday: 1 };
    let info = TimezoneInfo::at_clock(&zone("美西", "America/Los_Angeles"), false, &c);
    assert_eq!(info.name, "美西");
    assert_eq!(info.icon, "🕐");
    assert_eq!(info.tz, "America/Los_Angeles");
    assert_eq!(info.time, "18:05:03");
    assert_eq!(info.date, "07月01日");
    assert!(!info.is_primary);
}

fn hour_of(card: &TimezoneInfo) -> u32 {
    card.time[0..2].parse().unwrap()
}

#[test]
fn named_zone_card_shows_that_zone() {
    let before = Utc::now();
    let shanghai = TimezoneInfo::from_config(&zone("北京", "Asia/Shanghai"), true);
    let after = Utc::now();
    let expected = [(before + Duration::hours(8)).hour(), (after + Duration::hours(8)).hour()];
    assert!(expected.contains(&hour_of(&shanghai)));
    assert_eq!(shanghai.name, "北京");
    assert_eq!(shanghai.tz, "Asia/Shanghai");
    assert!(shanghai.is_primary);
}

#[test]
fn different_zones_show_different_hours() {
    let shanghai = TimezoneInfo::from_config(&zone("北京", "Asia/Shanghai"), true);
    let los_angeles = TimezoneInfo::from_config(&zone("美西", "America/Los_Angeles"), false);
    assert_ne!(hour_of(&shanghai), hour_of(&los_angeles));
    assert!(!los_angeles.is_primary);
}

#[test]
fn local_and_unknown_zones_show_a_valid_local_card() {
    for tz in ["local", "Local", "LOCAL", "Nowhere/City"] {
        let card = TimezoneInfo::from_config(&zone("本地", tz), false);
        assert_eq!(card.tz, tz);
        assert_eq!(card.time.len(), 8);
        assert!(hour_of(&card) < 24);
        assert!(card.date.ends_with("日"));
    }
}

#[test]
fn cards_keep_order_and_mark_the_first_primary() {
    let infos = timezone_infos(&vec![zone("北京", "Asia/Shanghai"), zone("本地", "local"), zone("坏", "Bad/Zone")]);
    assert_eq!(infos.len(), 3);
    assert_eq!(infos.iter().map(|i| i.is_primary).collect::<Vec<_>>(), vec![true, false, false]);
    assert_eq!(infos[0].name, "北京");
    assert_eq!(infos[2].tz, "Bad/Zone");
    for i in &infos {
        assert_eq!(i.time.len(), 8);
        assert_eq!(&i.time[2..3], ":");
        assert!(i.date.ends_with("日"));
    }
}

#[test]
fn page_date_and_time_shapes() {
    let (date, time) = page_date_time();
    assert_eq!(time.len(), 5);
    assert_eq!(&time[2..3], ":");
    assert!(date.contains("年") && date.contains("月") && date.contains("日 "));
    assert!(date.ends_with("day"));
}
