//! The configuration of the start page: server, wallpaper market, search
//! engines, link categories and time zones, with the defaults the page uses
//! when a setting is missing.

use vstd::prelude::*;
use vstd::string::*;

verus! {

#[derive(Debug, Clone)]
pub struct Config {
    pub server: ServerConfig,
    pub bing: BingConfig,
    pub search_engines: Vec<SearchEngine>,
    pub categories: Vec<Category>,
    pub timezones: Vec<TimezoneConfig>,
}

#[derive(Debug, Clone)]
pub struct ServerConfig {
    pub host: String,
    pub port: u16,
}

#[derive(Debug, Clone)]
pub struct BingConfig {
    pub market: String,
    /// Minutes for which a fetched wallpaper is served from the cache.
    pub refresh_interval: u64,
}

#[derive(Debug, Clone)]
pub struct SearchEngine {
    pub name: String,
    pub url: String,
    pub icon: String,
    pub default: bool,
}

#[derive(Debug, Clone)]
pub struct Category {
    pub name: String,
    pub icon: String,
    pub links: Vec<Link>,
}

#[derive(Debug, Clone)]
pub struct Link {
    pub name: String,
    pub url: String,
    pub icon: String,
}

#[derive(Debug, Clone)]
pub struct TimezoneConfig {
    pub name: String,
    pub tz: String,
    pub icon: String,
}

/// A link as text.
pub struct LinkView {
    pub name: Seq<char>,
    pub url: Seq<char>,
    pub icon: Seq<char>,
}

/// A category as text, with its links in order.
pub struct CategoryView {
    pub name: Seq<char>,
    pub icon: Seq<char>,
    pub links: Seq<LinkView>,
}

/// Links as text.
pub open spec fn links_of(links: Seq<Link>) -> Seq<LinkView> {
    links.map_values(|l: Link| l@)
}

/// Categories as text.
pub open spec fn categories_of(cats: Seq<Category>) -> Seq<CategoryView> {
    cats.map_values(|c: Category| c@)
}

impl View for Link {
    type V = LinkView;

    open spec fn view(&self) -> LinkView {
        LinkView { name: self.name@, url: self.url@, icon: self.icon@ }
    }
}

impl View for Category {
    type V = CategoryView;

    open spec fn view(&self) -> CategoryView {
        CategoryView {
            name: self.name@,
            icon: self.icon@,
            links: links_of(self.links@),
        }
    }
}

impl Config {
    /// The link categories as text.
    pub open spec fn categories_view(&self) -> Seq<CategoryView> {
        categories_of(self.categories@)
    }

    /// Index of the search engine the page selects first: the first one
    /// marked default, else the first one, else none.
    pub open spec fn default_engine_index(&self) -> Option<int> {
        let engines = self.search_engines@;
        if exists|i: int| 0 <= i < engines.len() && engines[i].default {
            Some(choose|i: int| 0 <= i < engines.len() && engines[i].default
                && forall|j: int| 0 <= j < i ==> !engines[j].default)
        } else if engines.len() > 0 {
            Some(0)
        } else {
            None
        }
    }

    /// The search engine the page selects first: the first one marked
    /// default, else the first one listed, else none.
    pub fn get_default_search_engine(&self) -> (r: Option<&SearchEngine>)
        ensures
            match self.default_engine_index() {
                Some(i) => r == Some(&self.search_engines@[i]),
                None => r.is_none(),
            },
    {
        let n = self.search_engines.len();
        let mut i: usize = 0;
        while i < n
            invariant
                n == self.search_engines@.len(),
                i <= n,
                forall|j: int| 0 <= j < i ==> !self.search_engines@[j].default,
            decreases n - i,
        {
            if self.search_engines[i].default {
                proof {
                    let engines = self.search_engines@;
                    let k = choose|k: int| 0 <= k < engines.len() && engines[k].default
                        && forall|j: int| 0 <= j < k ==> !engines[j].default;
                    assert(engines[i as int].default);
                    if k < i {
                        assert(!engines[k].default);
                    } else if k > i {
                        assert(!engines[i as int].default);
                    }
                }
                return Some(&self.search_engines[i]);
            }
            i = i + 1;
        }
        if n > 0 {
            Some(&self.search_engines[0])
        } else {
            None
        }
    }
}

pub open spec fn default_host_text() -> Seq<char> {
    "0.0.0.0"@
}

pub open spec fn default_market_text() -> Seq<char> {
    "zh-CN"@
}

/// The address the server binds when none is configured.
pub fn default_host() -> (r: String)
    ensures
        r@ == default_host_text(),
{
    String::from_str("0.0.0.0")
}

/// The port the server listens on when none is configured.
pub fn default_port() -> (r: u16)
    ensures
        r == 8080,
{
    8080
}

/// The Bing market whose wallpaper is shown when none is configured.
pub fn default_market() -> (r: String)
    ensures
        r@ == default_market_text(),
{
    String::from_str("zh-CN")
}

/// Minutes a wallpaper stays cached when no interval is configured.
pub fn default_refresh_interval() -> (r: u64)
    ensures
        r == 60,
{
    60
}

/// The server settings used when the section is missing.
pub fn default_server() -> (r: ServerConfig)
    ensures
        r.host@ == default_host_text(),
        r.port == 8080,
{
    ServerConfig { host: default_host(), port: default_port() }
}

/// The wallpaper settings used when the section is missing.
pub fn default_bing() -> (r: BingConfig)
    ensures
        r.market@ == default_market_text(),
        r.refresh_interval == 60,
{
    BingConfig { market: default_market(), refresh_interval: default_refresh_interval() }
}

impl Config {
    /// What `Config::default()` holds.
    pub open spec fn is_default(self) -> bool {
        &&& self.server.host@ == default_host_text()
        &&& self.server.port == 8080
        &&& self.bing.market@ == default_market_text()
        &&& self.bing.refresh_interval == 60
        &&& self.search_engines@.len() == 1
        &&& self.search_engines@[0].name@ == "Google"@
        &&& self.search_engines@[0].url@ == "https://www.google.com/search?q="@
        &&& self.search_engines@[0].icon@ == "🔍"@
        &&& self.search_engines@[0].default
        &&& self.categories@.len() == 0
        &&& self.timezones@.len() == 1
        &&& self.timezones@[0].name@ == "本地"@
        &&& self.timezones@[0].tz@ == "Asia/Shanghai"@
        &&& self.timezones@[0].icon@ == "🏠"@
    }
}

impl Default for Config {
    /// The configuration used when no configuration file exists: default
    /// server and wallpaper settings, Google as the one (default) search
    /// engine, no link categories, and one local time zone (Asia/Shanghai).
    fn default() -> (r: Self)
        ensures
            r.is_default(),
    {
        let mut search_engines = Vec::new();
        search_engines.push(SearchEngine {
            name: String::from_str("Google"),
            url: String::from_str("https://www.google.com/search?q="),
            icon: String::from_str("🔍"),
            default: true,
        });
        let mut timezones = Vec::new();
        timezones.push(TimezoneConfig {
            name: String::from_str("本地"),
            tz: String::from_str("Asia/Shanghai"),
            icon: String::from_str("🏠"),
        });
        Config {
            server: default_server(),
            bing: default_bing(),
            search_engines,
            categories: Vec::new(),
            timezones,
        }
    }
}

} // verus!
