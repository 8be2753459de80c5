use onepage::bing_wallpaper::{
    bing_archive_url, full_image_url, wallpaper_from_response, BingImage, BingImageResponse, WallpaperCache,
    WallpaperError, WallpaperInfo,
};
use onepage::clock::Timestamp;

fn image(url: &str) -> BingImage {
    BingImage {
        url: url.to_string(),
        copyright: "© someone".to_string(),
        copyrightlink: "https://www.bing.com/search?q=x".to_string(),
        title: "A title".to_string(),
    }
}

fn wallpaper(url: &str) -> WallpaperInfo {
    WallpaperInfo { url: url.to_string(), copyright: "c".to_string(), copyright_link: "l".to_string(), title: "t".to_string() }
}

fn at(secs: i64, nanos: u32) -> Timestamp {
    Timestamp { secs, nanos }
}

#[test]
fn archive_url_names_the_market() {
    assert_eq!(bing_archive_url("zh-CN"), "https://www.bing.com/HPImageArchive.aspx?format=js&idx=0&n=1&mkt=zh-CN");
    assert_eq!(bing_archive_url("en-US"), "https://www.bing.com/HPImageArchive.aspx?format=js&idx=0&n=1&mkt=en-US");
}

#[test]
fn image_urls_are_made_absolute() {
    assert_eq!(full_image_url("/th?id=OHR.X_1920x1080.jpg".to_string()), "https://www.bing.com/th?id=OHR.X_1920x1080.jpg");
    assert_eq!(full_image_url("https://cdn.example.com/a.jpg".to_string()), "https://cdn.example.com/a.jpg");
    assert_eq!(full_image_url("httpx".to_string()), "httpx");
    let once = full_image_url("/a.jpg".to_string());
    assert_eq!(full_image_url(once.clone()), once);
}

#[test]
fn first_image_becomes_the_wallpaper() {
    let w = wallpaper_from_response(BingImageResponse { images: vec![image("/first.jpg"), image("/second.jpg")] }).unwrap();
    assert_eq!(w.url, "https://www.bing.com/first.jpg");
    assert_eq!(w.copyright, "© someone");
    assert_eq!(w.copyright_link, "https://www.bing.com/search?q=x");
    assert_eq!(w.title, "A title");
}

#[test]
fn empty_answer_is_an_error() {
    let e = wallpaper_from_response(BingImageResponse { images: vec![] }).unwrap_err();
    assert_eq!(e, WallpaperError::NoWallpaper);
    assert_eq!(e.message(), "No wallpaper found in Bing response");
}

#[test]
fn new_cache_serves_nothing() {
    let cache = WallpaperCache::new(60);
    assert!(cache.lookup().is_none());
    assert!(cache.lookup_at(at(0, 0)).is_none());
}

#[test]
fn stored_wallpaper_is_served_while_fresh() {
    let mut cache = WallpaperCache::new(60);
    cache.store_at(wallpaper("u"), at(1_000, 500));
    assert_eq!(cache.lookup_at(at(1_000, 500)).unwrap().url, "u");
    assert_eq!(cache.lookup_at(at(1_000 + 59 * 60 + 59, 999_999_999)).unwrap().url, "u");
    assert!(cache.lookup_at(at(1_000 + 60 * 60, 500)).is_none());
    assert!(cache.lookup_at(at(1_000 + 60 * 60, 499)).is_some());
}

#[test]
fn stale_entry_is_replaced_by_store() {
    let mut cache = WallpaperCache::new(1);
    cache.store_at(wallpaper("old"), at(0, 0));
    assert!(cache.lookup_at(at(60, 0)).is_none());
    cache.store_at(wallpaper("new"), at(60, 0));
    assert_eq!(cache.lookup_at(at(60, 0)).unwrap().url, "new");
}

#[test]
fn zero_interval_never_serves() {
    let mut cache = WallpaperCache::new(0);
    cache.store_at(wallpaper("u"), at(5, 0));
    assert!(cache.lookup_at(at(5, 0)).is_none());
}

#[test]
fn huge_interval_wraps_negative_and_never_serves() {
    let mut cache = WallpaperCache::new(u64::MAX);
    cache.store_at(wallpaper("u"), at(5, 0));
    assert!(cache.lookup_at(at(5, 0)).is_none());
}

#[test]
fn minutes_are_counted_toward_zero() {
    let cache = WallpaperCache::new(1);
    assert!(cache.is_fresh_at(at(0, 0), at(59, 999_999_999)));
    assert!(!cache.is_fresh_at(at(0, 0), at(60, 0)));
    assert!(cache.is_fresh_at(at(100, 0), at(0, 0)));
    assert!(cache.is_fresh_at(at(30, 0), at(0, 0)));
}

#[test]
fn store_then_lookup_by_the_system_clock() {
    let mut cache = WallpaperCache::new(60);
    cache.store(wallpaper("now"));
    assert_eq!(cache.lookup().unwrap().url, "now");
}
