//! The daily Bing wallpaper: the request URL, reading the archive answer,
//! and the cache that spares a request while a fetched wallpaper is fresh.
//! The HTTP exchange itself and the locking around the cache are left to the
//! caller.

use vstd::prelude::*;
use vstd::string::*;
use crate::clock::{utc_now, Timestamp};
use crate::text::{has_prefix, starts_with};

verus! {

/// One image of Bing's wallpaper archive answer.
#[derive(Debug, Clone)]
pub struct BingImage {
    /// Absolute, or relative to `https://www.bing.com`.
    pub url: String,
    pub copyright: String,
    pub copyrightlink: String,
    pub title: String,
}

/// Bing's wallpaper archive answer.
#[derive(Debug, Clone)]
pub struct BingImageResponse {
    pub images: Vec<BingImage>,
}

/// The wallpaper the page shows.
#[derive(Debug, Clone)]
pub struct WallpaperInfo {
    pub url: String,
    pub copyright: String,
    pub copyright_link: String,
    pub title: String,
}

/// A `WallpaperInfo` as text.
pub struct WallpaperView {
    pub url: Seq<char>,
    pub copyright: Seq<char>,
    pub copyright_link: Seq<char>,
    pub title: Seq<char>,
}

impl View for WallpaperInfo {
    type V = WallpaperView;

    open spec fn view(&self) -> WallpaperView {
        WallpaperView {
            url: self.url@,
            copyright: self.copyright@,
            copyright_link: self.copyright_link@,
            title: self.title@,
        }
    }
}

/// Why no wallpaper could be taken from an archive answer.
#[derive(Debug, Clone, Copy, PartialEq, Eq)]
pub enum WallpaperError {
    /// The answer lists no image.
    NoWallpaper,
}

impl WallpaperError {
    /// The text shown for this error.
    pub fn message(&self) -> (r: String)
        ensures
            r@ == "No wallpaper found in Bing response"@,
    {
        String::from_str("No wallpaper found in Bing response")
    }
}

/// The archive request for one image of the given market.
pub open spec fn archive_url_text(market: Seq<char>) -> Seq<char> {
    "https://www.bing.com/HPImageArchive.aspx?format=js&idx=0&n=1&mkt="@ + market
}

/// The image URL made absolute: kept when it begins with "http", else
/// prefixed with the Bing host.
pub open spec fn full_image_url_text(url: Seq<char>) -> Seq<char> {
    if has_prefix(url, "http"@) {
        url
    } else {
        "https://www.bing.com"@ + url
    }
}

/// The wallpaper shown for an archive image.
pub open spec fn wallpaper_of_image(image: BingImage) -> WallpaperView {
    WallpaperView {
        url: full_image_url_text(image.url@),
        copyright: image.copyright@,
        copyright_link: image.copyrightlink@,
        title: image.title@,
    }
}

/// The URL of Bing's wallpaper archive request for `market`.
pub fn bing_archive_url(market: &str) -> (r: String)
    ensures
        r@ == archive_url_text(market@),
{
    String::from_str("https://www.bing.com/HPImageArchive.aspx?format=js&idx=0&n=1&mkt=").concat(market)
}

/// Makes an archive image URL absolute.
pub fn full_image_url(url: String) -> (r: String)
    ensures
        r@ == full_image_url_text(url@),
{
    if starts_with(url.as_str(), "http") {
        url
    } else {
        String::from_str("https://www.bing.com").concat(url.as_str())
    }
}

/// The wallpaper of the first image of the answer; an error when it lists
/// no image.
pub fn wallpaper_from_response(response: BingImageResponse) -> (r: Result<WallpaperInfo, WallpaperError>)
    ensures
        response.images@.len() == 0 ==> r == Err::<WallpaperInfo, WallpaperError>(WallpaperError::NoWallpaper),
        response.images@.len() > 0 ==> (r matches Ok(w) && w@ == wallpaper_of_image(response.images@[0])),
{
    let mut images = response.images;
    if images.len() == 0 {
        return Err(WallpaperError::NoWallpaper);
    }
    let image = images.remove(0);
    Ok(WallpaperInfo {
        url: full_image_url(image.url),
        copyright: image.copyright,
        copyright_link: image.copyrightlink,
        title: image.title,
    })
}

fn copy_wallpaper(w: &WallpaperInfo) -> (r: WallpaperInfo)
    ensures
        r@ == w@,
{
    WallpaperInfo {
        url: w.url.clone(),
        copyright: w.copyright.clone(),
        copyright_link: w.copyright_link.clone(),
        title: w.title.clone(),
    }
}

/// Nanoseconds from `then` to `now`.
pub open spec fn elapsed_nanos(then: Timestamp, now: Timestamp) -> int {
    (now.secs - then.secs) * 1_000_000_000 + (now.nanos - then.nanos)
}

/// Whole minutes from `then` to `now`, rounded toward zero. For instants
/// outside a leap second (nanoseconds below one billion) this is what
/// chrono's `TimeDelta::num_minutes` gives for their difference; chrono
/// counts an instant inside a leap second differently.
pub open spec fn elapsed_minutes(then: Timestamp, now: Timestamp) -> int {
    let d = elapsed_nanos(then, now);
    if d >= 0 {
        d / 60_000_000_000
    } else {
        -((-d) / 60_000_000_000)
    }
}

/// A wallpaper and the moment it was fetched.
#[derive(Debug, Clone)]
pub struct CachedWallpaper {
    pub wallpaper: WallpaperInfo,
    pub fetched_at: Timestamp,
}

/// The last fetched wallpaper, kept while fewer whole minutes than the
/// refresh interval have passed since it was fetched.
pub struct WallpaperCache {
    entry: Option<CachedWallpaper>,
    refresh_interval_minutes: i64,
}

impl WallpaperCache {
    /// The wallpaper held, if any, with its fetch time.
    pub closed spec fn spec_entry(&self) -> Option<CachedWallpaper> {
        self.entry
    }

    /// The refresh interval in minutes.
    pub closed spec fn spec_interval(&self) -> int {
        self.refresh_interval_minutes as int
    }

    /// Whether a wallpaper fetched at `then` is fresh at `now`.
    pub open spec fn fresh(&self, then: Timestamp, now: Timestamp) -> bool {
        elapsed_minutes(then, now) < self.spec_interval()
    }

    /// An empty cache. The interval is taken as a signed 64-bit number, so
    /// an interval above `i64::MAX` wraps to a negative one.
    pub fn new(refresh_interval_minutes: u64) -> (r: Self)
        ensures
            r.spec_entry() is None,
            r.spec_interval() == refresh_interval_minutes as i64,
    {
        WallpaperCache { entry: None, refresh_interval_minutes: refresh_interval_minutes as i64 }
    }

    /// Whether a wallpaper fetched at `then` is still fresh at `now`.
    pub fn is_fresh_at(&self, then: Timestamp, now: Timestamp) -> (r: bool)
        ensures
            r == self.fresh(then, now),
    {
        let d: i128 = ((now.secs as i128) - (then.secs as i128)) * 1_000_000_000i128
            + ((now.nanos as i128) - (then.nanos as i128));
        let minutes: i128 = if d >= 0 {
            d / 60_000_000_000i128
        } else {
            0i128 - ((0i128 - d) / 60_000_000_000i128)
        };
        minutes < (self.refresh_interval_minutes as i128)
    }

    /// What a lookup at the instant `now` answers: the held wallpaper when
    /// it is fresh then, else nothing.
    pub open spec fn served_at(&self, now: Timestamp, r: Option<WallpaperInfo>) -> bool {
        match self.spec_entry() {
            Some(c) if self.fresh(c.fetched_at, now) => r matches Some(w) && w@ == c.wallpaper@,
            _ => r is None,
        }
    }

    /// The held wallpaper if it is fresh at `now`.
    pub fn lookup_at(&self, now: Timestamp) -> (r: Option<WallpaperInfo>)
        ensures
            self.served_at(now, r),
    {
        match &self.entry {
            Some(c) => {
                if self.is_fresh_at(c.fetched_at, now) {
                    Some(copy_wallpaper(&c.wallpaper))
                } else {
                    None
                }
            },
            None => None,
        }
    }

    /// The held wallpaper if it is fresh now, by the system clock: the
    /// answer of a lookup at the instant the clock was read.
    pub fn lookup(&self) -> (r: Option<WallpaperInfo>)
        ensures
            exists|now: Timestamp| now.nanos < 2_000_000_000 && #[trigger] self.served_at(now, r),
    {
        let now = utc_now();
        let r = self.lookup_at(now);
        assert(self.served_at(now, r));
        r
    }

    /// Holds `wallpaper`, fetched at `now`, in place of what was held.
    pub fn store_at(&mut self, wallpaper: WallpaperInfo, now: Timestamp)
        ensures
            final(self).spec_entry() matches Some(c) && c.wallpaper@ == wallpaper@ && c.fetched_at == now,
            final(self).spec_interval() == old(self).spec_interval(),
    {
        self.entry = Some(CachedWallpaper { wallpaper, fetched_at: now });
    }

    /// Holds `wallpaper`, fetched now by the system clock, in place of what
    /// was held.
    pub fn store(&mut self, wallpaper: WallpaperInfo)
        ensures
            final(self).spec_entry() matches Some(c) && c.wallpaper@ == wallpaper@
                && c.fetched_at.nanos < 2_000_000_000,
            final(self).spec_interval() == old(self).spec_interval(),
    {
        let now = utc_now();
        self.store_at(wallpaper, now);
    }
}

} // verus!
