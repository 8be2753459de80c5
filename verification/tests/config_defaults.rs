use onepage::config::{
    default_bing, default_host, default_market, default_port, default_refresh_interval, default_server, Config,
    SearchEngine,
};

fn engine(name: &str, default: bool) -> SearchEngine {
    SearchEngine { name: name.to_string(), url: format!("https://{}/?q=", name), icon: "🔍".to_string(), default }
}

#[test]
fn default_settings() {
    assert_eq!(default_host(), "0.0.0.0");
    assert_eq!(default_port(), 8080);
    assert_eq!(default_market(), "zh-CN");
    assert_eq!(default_refresh_interval(), 60);
    let s = default_server();
    assert_eq!((s.host.as_str(), s.port), ("0.0.0.0", 8080));
    let b = default_bing();
    assert_eq!((b.market.as_str(), b.refresh_interval), ("zh-CN", 60));
}

#[test]
fn default_config_contents() {
    let c = Config::default();
    assert_eq!(c.server.host, "0.0.0.0");
    assert_eq!(c.server.port, 8080);
    assert_eq!(c.bing.market, "zh-CN");
    assert_eq!(c.bing.refresh_interval, 60);
    assert_eq!(c.search_engines.len(), 1);
    assert_eq!(c.search_engines[0].name, "Google");
    assert_eq!(c.search_engines[0].url, "https://www.google.com/search?q=");
    assert_eq!(c.search_engines[0].icon, "🔍");
    assert!(c.search_engines[0].default);
    assert!(c.categories.is_empty());
    assert_eq!(c.timezones.len(), 1);
    assert_eq!(c.timezones[0].name, "本地");
    assert_eq!(c.timezones[0].tz, "Asia/Shanghai");
    assert_eq!(c.timezones[0].icon, "🏠");
}

#[test]
fn default_config_selects_google() {
    let c = Config::default();
    assert_eq!(c.get_default_search_engine().unwrap().name, "Google");
}

#[test]
fn first_engine_marked_default_is_selected() {
    let mut c = Config::default();
    c.search_engines = vec![engine("a", false), engine("b", true), engine("c", true)];
    assert_eq!(c.get_default_search_engine().unwrap().name, "b");
}

#[test]
fn first_engine_is_selected_when_none_is_marked() {
    let mut c = Config::default();
    c.search_engines = vec![engine("a", false), engine("b", false)];
    assert_eq!(c.get_default_search_engine().unwrap().name, "a");
}

#[test]
fn no_engine_without_engines() {
    let mut c = Config::default();
    c.search_engines = vec![];
    assert!(c.get_default_search_engine().is_none());
}
