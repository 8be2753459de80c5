//! What the page handlers compute: the time-zone cards, the page's date and
//! time, the wallpaper shown when none can be fetched, and the filter that
//! keeps rendered links to safe URLs. Serving, templating and JSON are left
//! to the caller.

use vstd::prelude::*;
use vstd::string::*;
use crate::bing_wallpaper::{WallpaperInfo, WallpaperView};
use crate::clock::{
    names_time_zone, clock_time_text, format_clock_time, format_hour_minute, format_long_date, format_month_day,
    hour_minute_text, local_wall_clock, long_date_text, month_day_text, zone_clock_at, zone_now,
    Timestamp, WallClock,
};
use crate::config::TimezoneConfig;
use crate::text::{has_prefix, starts_with, text_eq};

verus! {

/// One time-zone card of the page.
#[derive(Debug, Clone)]
pub struct TimezoneInfo {
    pub name: String,
    pub icon: String,
    /// `HH:MM:SS`
    pub time: String,
    /// `MM月DD日`
    pub date: String,
    /// The zone's identifier, for the page's script to keep the clock running.
    pub tz: String,
    /// The first card is the primary one.
    pub is_primary: bool,
}

/// The card shows `config`'s name, icon and zone, and the time and date of
/// the reading `c`.
pub open spec fn card_at(info: TimezoneInfo, config: TimezoneConfig, is_primary: bool, c: WallClock) -> bool {
    &&& info.name@ == config.name@
    &&& info.icon@ == config.icon@
    &&& info.tz@ == config.tz@
    &&& info.is_primary == is_primary
    &&& info.time@ == clock_time_text(c)
    &&& info.date@ == month_day_text(c)
}

/// The card shows `config` at some valid reading of the clock.
pub open spec fn card_of(info: TimezoneInfo, config: TimezoneConfig, is_primary: bool) -> bool {
    exists|c: WallClock| c.valid() && card_at(info, config, is_primary, c)
}

/// The zone is the machine's own: "local" or "Local".
pub open spec fn is_local_zone(tz: Seq<char>) -> bool {
    tz == "local"@ || tz == "Local"@
}

/// The card shows `config` as `from_config` makes it: at some valid reading
/// of the clock, and, for a zone chrono-tz knows that is not "local" or
/// "Local", at the zone's wall clock for some instant.
pub open spec fn card_for(info: TimezoneInfo, config: TimezoneConfig, is_primary: bool) -> bool {
    &&& card_of(info, config, is_primary)
    &&& !is_local_zone(config.tz@) && names_time_zone(config.tz@) ==> exists|t: Timestamp|
        t.nanos < 2_000_000_000 && #[trigger] card_at(
            info,
            config,
            is_primary,
            zone_clock_at(config.tz@, t.secs, t.nanos),
        )
}

impl TimezoneInfo {
    /// The card for `config` at the clock reading `clock`.
    pub fn at_clock(config: &TimezoneConfig, is_primary: bool, clock: &WallClock) -> (r: Self)
        requires
            clock.valid(),
        ensures
            card_at(r, *config, is_primary, *clock),
    {
        TimezoneInfo {
            name: config.name.clone(),
            icon: config.icon.clone(),
            time: format_clock_time(clock),
            date: format_month_day(clock),
            tz: config.tz.clone(),
            is_primary,
        }
    }

    /// The card for `config` now: in the machine's own zone when the zone is
    /// "local" or "Local" or is not a zone chrono-tz knows, else in that zone.
    pub fn from_config(config: &TimezoneConfig, is_primary: bool) -> (r: Self)
        ensures
            card_for(r, *config, is_primary),
    {
        let tz = config.tz.as_str();
        if text_eq(tz, "local") || text_eq(tz, "Local") {
            let clock = local_wall_clock();
            return TimezoneInfo::at_clock(config, is_primary, &clock);
        }
        match zone_now(tz) {
            Some((at, clock)) => {
                let r = TimezoneInfo::at_clock(config, is_primary, &clock);
                assert(card_at(r, *config, is_primary, zone_clock_at(config.tz@, at.secs, at.nanos)));
                r
            },
            None => {
                let clock = local_wall_clock();
                TimezoneInfo::at_clock(config, is_primary, &clock)
            },
        }
    }
}

/// The cards for the configured zones, in order; the first is primary.
pub fn timezone_infos(configs: &Vec<TimezoneConfig>) -> (r: Vec<TimezoneInfo>)
    ensures
        r@.len() == configs@.len(),
        forall|i: int| 0 <= i < r@.len() ==> card_for(#[trigger] r@[i], configs@[i], i == 0),
{
    let n = configs.len();
    let mut out: Vec<TimezoneInfo> = Vec::new();
    let mut i: usize = 0;
    while i < n
        invariant
            n == configs@.len(),
            i <= n,
            out@.len() == i,
            forall|k: int| 0 <= k < i ==> card_for(#[trigger] out@[k], configs@[k], k == 0),
        decreases n - i,
    {
        let info = TimezoneInfo::from_config(&configs[i], i == 0);
        out.push(info);
        i = i + 1;
    }
    out
}

/// The page's date (`YYYY年MM月DD日 Weekday`) and time (`HH:MM`), both of one
/// reading of the local clock.
pub fn page_date_time() -> (r: (String, String))
    ensures
        exists|c: WallClock| c.valid() && c.weekday_matches() && r.0@ == long_date_text(c) && r.1@ == hour_minute_text(c),
{
    let clock = local_wall_clock();
    (format_long_date(&clock), format_hour_minute(&clock))
}

/// The wallpaper shown when none can be fetched.
pub open spec fn fallback_wallpaper_view() -> WallpaperView {
    WallpaperView {
        url: "https://images.unsplash.com/photo-1506905925346-21bda4d32df4?w=1920"@,
        copyright: "Default wallpaper"@,
        copyright_link: "#"@,
        title: "Default"@,
    }
}

/// The wallpaper shown when none can be fetched.
pub fn fallback_wallpaper() -> (r: WallpaperInfo)
    ensures
        r@ == fallback_wallpaper_view(),
{
    WallpaperInfo {
        url: String::from_str("https://images.unsplash.com/photo-1506905925346-21bda4d32df4?w=1920"),
        copyright: String::from_str("Default wallpaper"),
        copyright_link: String::from_str("#"),
        title: String::from_str("Default"),
    }
}

/// A link target the page may render: a web URL, a root-relative path or a
/// fragment.
pub open spec fn is_safe_url(s: Seq<char>) -> bool {
    has_prefix(s, "http://"@) || has_prefix(s, "https://"@) || has_prefix(s, "/"@) || has_prefix(s, "#"@)
}

/// The link target as rendered: kept when safe, else "#".
pub open spec fn safe_url_text(s: Seq<char>) -> Seq<char> {
    if is_safe_url(s) {
        s
    } else {
        "#"@
    }
}

/// The link target as rendered: kept when it is a web URL, a root-relative
/// path or a fragment, else replaced by "#" (so that no other scheme, such as
/// `javascript:`, reaches an `href`).
pub fn safe_url(s: &str) -> (r: String)
    ensures
        r@ == safe_url_text(s@),
{
    if starts_with(s, "http://") || starts_with(s, "https://") || starts_with(s, "/") || starts_with(s, "#") {
        s.to_owned()
    } else {
        String::from_str("#")
    }
}

} // verus!
