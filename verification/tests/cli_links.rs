use onepage::cli::{confirms_removal, trim_text, truncate_url, CliError, CliHandler};
use onepage::commands::{handle_category_command, handle_link_command, CategoryCommands, LinkCommands, LinkReport};
use onepage::config::{Category, Config, Link};

fn link(name: &str, url: &str, icon: &str) -> Link {
    Link { name: name.to_string(), url: url.to_string(), icon: icon.to_string() }
}

fn category(name: &str, icon: &str, links: Vec<Link>) -> Category {
    Category { name: name.to_string(), icon: icon.to_string(), links }
}

fn config_with(categories: Vec<Category>) -> Config {
    let mut config = Config::default();
    config.categories = categories;
    config
}

fn shape(config: &Config) -> Vec<(String, String, Vec<(String, String, String)>)> {
    config
        .categories
        .iter()
        .map(|c| {
            (
                c.name.clone(),
                c.icon.clone(),
                c.links.iter().map(|l| (l.name.clone(), l.url.clone(), l.icon.clone())).collect(),
            )
        })
        .collect()
}

fn sample() -> CliHandler {
    CliHandler::new(
        config_with(vec![
            category("常用", "⭐", vec![link("GitHub", "https://github.com", "🐙")]),
            category("阅读", "📚", vec![link("HN", "https://news.ycombinator.com", "📰"), link("GitHub", "https://github.com/trending", "🔥")]),
        ]),
        "onepage.toml".to_string(),
    )
}

#[test]
fn add_link_rejects_url_without_web_scheme() {
    let mut h = sample();
    let before = shape(h.config());
    let r = h.add_link("FTP", "ftp://example.com", None, None);
    match r {
        Err(CliError::ValidationError(m)) => assert_eq!(m, "URL 必须以 http:// 或 https:// 开头"),
        other => panic!("unexpected {:?}", other),
    }
    assert_eq!(shape(h.config()), before);
}

#[test]
fn add_link_defaults_create_uncategorized() {
    let mut h = CliHandler::new(Config::default(), "x.toml".to_string());
    let o = h.add_link("Example", "http://example.com", None, None).unwrap();
    assert_eq!(o.category, "未分类");
    assert!(o.created);
    assert_eq!(
        shape(h.config()),
        vec![("未分类".to_string(), "📁".to_string(), vec![("Example".to_string(), "http://example.com".to_string(), "🔗".to_string())])]
    );
    assert_eq!(h.config_path(), "x.toml");
    assert_eq!(h.config().search_engines.len(), 1);
}

#[test]
fn add_link_appends_to_first_category_of_that_name() {
    let mut h = sample();
    let o = h.add_link("Hacker News", "https://news.ycombinator.com", Some("📰"), Some("阅读")).unwrap();
    assert_eq!(o.category, "阅读");
    assert!(!o.created);
    let s = shape(h.config());
    assert_eq!(s.len(), 2);
    assert_eq!(s[1].2.len(), 3);
    assert_eq!(s[1].2[2], ("Hacker News".to_string(), "https://news.ycombinator.com".to_string(), "📰".to_string()));
    assert_eq!(s[0], shape(sample().config())[0]);
}

#[test]
fn add_link_rejects_duplicate_name_in_category() {
    let mut h = sample();
    let before = shape(h.config());
    match h.add_link("GitHub", "https://github.com/x", None, Some("常用")) {
        Err(e) => {
            assert!(matches!(e, CliError::ValidationError(_)));
            assert_eq!(e.message(), "验证错误: 分类 '常用' 中已存在名为 'GitHub' 的链接");
        }
        Ok(o) => panic!("unexpected {:?}", o),
    }
    assert_eq!(shape(h.config()), before);
}

#[test]
fn add_link_same_name_in_other_category_is_allowed() {
    let mut h = sample();
    let o = h.add_link("HN", "https://news.ycombinator.com", None, Some("常用")).unwrap();
    assert!(!o.created);
    assert_eq!(shape(h.config())[0].2.len(), 2);
}

#[test]
fn remove_undoes_add_in_existing_category() {
    let mut h = sample();
    let before = shape(h.config());
    h.add_link("Rust", "https://www.rust-lang.org", Some("🦀"), Some("常用")).unwrap();
    let o = h.remove_link("Rust", Some("常用")).unwrap();
    assert_eq!(o.categories, vec!["常用".to_string()]);
    assert_eq!(o.emptied, None);
    assert_eq!(shape(h.config()), before);
}

#[test]
fn remove_undoes_add_of_new_category_after_confirmation() {
    let mut h = sample();
    let before = shape(h.config());
    h.add_link("Rust", "https://www.rust-lang.org", None, Some("编程")).unwrap();
    let o = h.remove_link("Rust", Some("编程")).unwrap();
    assert_eq!(o.emptied, Some("编程".to_string()));
    assert!(confirms_removal("y\n"));
    h.remove_category("编程");
    assert_eq!(shape(h.config()), before);
}

#[test]
fn remove_link_from_named_category_only() {
    let mut h = sample();
    let o = h.remove_link("GitHub", Some("阅读")).unwrap();
    assert_eq!(o.categories, vec!["阅读".to_string()]);
    assert_eq!(o.emptied, None);
    let s = shape(h.config());
    assert_eq!(s[0].2.len(), 1);
    assert_eq!(s[1].2, vec![("HN".to_string(), "https://news.ycombinator.com".to_string(), "📰".to_string())]);
}

#[test]
fn remove_link_everywhere_reports_each_category() {
    let mut h = sample();
    let o = h.remove_link("GitHub", None).unwrap();
    assert_eq!(o.categories, vec!["常用".to_string(), "阅读".to_string()]);
    assert_eq!(o.emptied, None);
    let s = shape(h.config());
    assert_eq!(s.len(), 2);
    assert!(s[0].2.is_empty());
    assert_eq!(s[1].2.len(), 1);
}

#[test]
fn remove_missing_link_is_not_found_and_changes_nothing() {
    let mut h = sample();
    let before = shape(h.config());
    match h.remove_link("Nope", None) {
        Err(e) => {
            assert!(matches!(&e, CliError::NotFound(m) if m == "链接 'Nope'"));
            assert_eq!(e.message(), "未找到: 链接 'Nope'");
        }
        Ok(o) => panic!("unexpected {:?}", o),
    }
    match h.remove_link("HN", Some("常用")) {
        Err(CliError::NotFound(m)) => assert_eq!(m, "链接 'HN'"),
        other => panic!("unexpected {:?}", other),
    }
    match h.remove_link("HN", Some("不存在")) {
        Err(CliError::NotFound(m)) => assert_eq!(m, "链接 'HN'"),
        other => panic!("unexpected {:?}", other),
    }
    assert_eq!(shape(h.config()), before);
}

#[test]
fn remove_category_deletes_every_category_of_that_name() {
    let mut h = CliHandler::new(
        config_with(vec![category("a", "1", vec![]), category("b", "2", vec![]), category("a", "3", vec![])]),
        "c.toml".to_string(),
    );
    h.remove_category("a");
    assert_eq!(shape(h.config()), vec![("b".to_string(), "2".to_string(), vec![])]);
}

#[test]
fn confirmation_answer_is_trimmed_and_lowercased() {
    assert!(confirms_removal("y"));
    assert!(confirms_removal("  Y \n"));
    assert!(!confirms_removal("yes"));
    assert!(!confirms_removal("n"));
    assert!(!confirms_removal(""));
    assert!(confirms_removal("\u{3000}y\u{2028}"));
    assert!(!confirms_removal("y y"));
}

#[test]
fn truncate_url_keeps_short_urls() {
    assert_eq!(truncate_url("https://github.com", 30), "https://github.com");
    let exact = "https://example.com/abcdefghij";
    assert_eq!(exact.len(), 30);
    assert_eq!(truncate_url(exact, 30), exact);
}

#[test]
fn truncate_url_cuts_long_urls_to_the_width() {
    let long = "https://example.com/abcdefghijk";
    let t = truncate_url(long, 30);
    assert_eq!(t, "https://example.com/abcdefg...");
    assert_eq!(t.len(), 30);
    let wide = "https://例子.com/路径/更多/内容";
    let cut = truncate_url(wide, 17);
    assert_eq!(cut, "https://例子...");
    assert!(cut.len() <= 17);
}

#[test]
fn list_links_rows_and_totals() {
    let mut h = sample();
    h.add_link("Long", "https://example.com/a/very/long/path/indeed", None, Some("阅读")).unwrap();
    let table = h.list_links(None).unwrap();
    assert_eq!(table.total_categories, 2);
    assert_eq!(table.total_links, 4);
    let rows: Vec<(String, String, String)> = table.rows.iter().map(|r| (r.label.clone(), r.name.clone(), r.url.clone())).collect();
    assert_eq!(
        rows,
        vec![
            ("⭐ 常用".to_string(), "GitHub".to_string(), "https://github.com".to_string()),
            ("📚 阅读".to_string(), "HN".to_string(), "https://news.ycombinator.com".to_string()),
            ("".to_string(), "GitHub".to_string(), "https://github.com/trending".to_string()),
            ("".to_string(), "Long".to_string(), "https://example.com/a/very/...".to_string()),
        ]
    );
    let filtered = h.list_links(Some("常用")).unwrap();
    assert_eq!(filtered.rows.len(), 1);
    assert_eq!(filtered.total_links, 4);
    assert_eq!(filtered.total_categories, 2);
    assert!(h.list_links(Some("无")).unwrap().rows.is_empty());
}

#[test]
fn list_links_without_categories_is_none() {
    let h = CliHandler::new(Config::default(), "c.toml".to_string());
    assert!(h.list_links(None).is_none());
}

#[test]
fn list_categories_counts_links() {
    let h = sample();
    let rows: Vec<(String, String, usize)> = h.list_categories().into_iter().map(|r| (r.icon, r.name, r.links)).collect();
    assert_eq!(rows, vec![("⭐".to_string(), "常用".to_string(), 1), ("📚".to_string(), "阅读".to_string(), 2)]);
    let empty = CliHandler::new(Config::default(), "c.toml".to_string());
    assert!(empty.list_categories().is_empty());
}

#[test]
fn error_messages_name_their_kind() {
    assert_eq!(CliError::ConfigError("bad".to_string()).message(), "配置错误: bad");
    assert_eq!(CliError::IoError("disk".to_string()).message(), "IO 错误: disk");
    assert_eq!(CliError::ValidationError("v".to_string()).message(), "验证错误: v");
    assert_eq!(CliError::NotFound("n".to_string()).message(), "未找到: n");
}

#[test]
fn link_commands_dispatch_to_the_handler() {
    let mut h = sample();
    let added = handle_link_command(
        &mut h,
        LinkCommands::Add { name: "Docs".to_string(), url: "https://docs.rs".to_string(), icon: Some("📖".to_string()), category: Some("编程".to_string()) },
    )
    .unwrap();
    assert!(matches!(added, LinkReport::Added(ref o) if o.created && o.category == "编程"));
    let listed = handle_link_command(&mut h, LinkCommands::List { category: Some("编程".to_string()) }).unwrap();
    match listed {
        LinkReport::Listed(Some(t)) => {
            assert_eq!(t.rows.len(), 1);
            assert_eq!(t.rows[0].label, "📁 编程");
            assert_eq!(t.total_categories, 3);
        }
        other => panic!("unexpected {:?}", other),
    }
    let removed = handle_link_command(&mut h, LinkCommands::Remove { name: "Docs".to_string(), category: None }).unwrap();
    assert!(matches!(removed, LinkReport::Removed(ref o) if o.categories == vec!["编程".to_string()] && o.emptied.is_none()));
    let err = handle_link_command(&mut h, LinkCommands::Remove { name: "Docs".to_string(), category: None });
    assert!(matches!(err, Err(CliError::NotFound(_))));
    let rows = handle_category_command(&h, CategoryCommands::List);
    assert_eq!(rows.len(), 3);
    assert_eq!(rows[2].links, 0);
}

#[test]
fn finish_removal_deletes_on_yes() {
    let mut h = CliHandler::new(
        config_with(vec![category("a", "1", vec![link("x", "https://x.org", "🔗")]), category("b", "2", vec![]), category("a", "3", vec![])]),
        "c.toml".to_string(),
    );
    let o = h.remove_link("x", Some("a")).unwrap();
    assert_eq!(o.emptied, Some("a".to_string()));
    assert!(h.finish_removal("a", " Y\n"));
    assert_eq!(shape(h.config()), vec![("b".to_string(), "2".to_string(), vec![])]);
}

#[test]
fn finish_removal_keeps_on_other_answers() {
    let mut h = CliHandler::new(
        config_with(vec![category("a", "1", vec![link("x", "https://x.org", "🔗")]), category("b", "2", vec![])]),
        "c.toml".to_string(),
    );
    h.remove_link("x", Some("a")).unwrap();
    let before = shape(h.config());
    assert!(!h.finish_removal("a", "n\n"));
    assert!(!h.finish_removal("a", ""));
    assert!(!h.finish_removal("a", "yes"));
    assert_eq!(shape(h.config()), before);
    assert_eq!(before[0], ("a".to_string(), "1".to_string(), vec![]));
}

#[test]
fn trim_removes_unicode_white_space_at_both_ends() {
    assert_eq!(trim_text("  a b \t\n"), "a b");
    assert_eq!(trim_text("\u{3000}x\u{2028}"), "x");
    assert_eq!(trim_text("   "), "");
    assert_eq!(trim_text(""), "");
    assert_eq!(trim_text("\u{200B}x"), "\u{200B}x");
    for s in ["  a b \t\n", "\u{3000}x\u{2028}", "\u{85}q\u{A0}", " \u{1680}\u{2000}z\u{200A}\u{202F}\u{205F}"] {
        assert_eq!(trim_text(s), s.trim());
    }
}
