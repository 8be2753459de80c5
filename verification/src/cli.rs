//! The link-management commands of the command-line tool: adding, removing
//! and listing links, and listing categories. The operations here change or
//! read the configuration held by a `CliHandler`; reading and writing the
//! configuration file, printing and prompting are left to the caller.

use vstd::prelude::*;
use vstd::string::*;
use vstd::utf8::*;
use crate::config::{categories_of, links_of, Category, CategoryView, Config, Link, LinkView};
use crate::links::{
    added_categories, any_has_link, categories_without, find_category, has_link, is_duplicate,
    lemma_find_category, lemma_find_category_at, lemma_links_without, links_without,
    names_with_link, new_category_icon, strip_all, strip_category, with_link,
};
use crate::text::{has_prefix, starts_with, text_eq};

verus! {

/// The errors of the command-line tool, each with its detail text.
#[derive(Debug, Clone)]
pub enum CliError {
    ConfigError(String),
    IoError(String),
    ValidationError(String),
    NotFound(String),
}

/// A `CliError` as text.
pub enum CliErrorView {
    ConfigError(Seq<char>),
    IoError(Seq<char>),
    ValidationError(Seq<char>),
    NotFound(Seq<char>),
}

impl View for CliError {
    type V = CliErrorView;

    open spec fn view(&self) -> CliErrorView {
        match self {
            CliError::ConfigError(m) => CliErrorView::ConfigError(m@),
            CliError::IoError(m) => CliErrorView::IoError(m@),
            CliError::ValidationError(m) => CliErrorView::ValidationError(m@),
            CliError::NotFound(m) => CliErrorView::NotFound(m@),
        }
    }
}

/// The text shown for an error: a label for its kind, then its detail.
pub open spec fn error_text(e: CliErrorView) -> Seq<char> {
    match e {
        CliErrorView::ConfigError(m) => "配置错误: "@ + m,
        CliErrorView::IoError(m) => "IO 错误: "@ + m,
        CliErrorView::ValidationError(m) => "验证错误: "@ + m,
        CliErrorView::NotFound(m) => "未找到: "@ + m,
    }
}

impl CliError {
    /// The text shown for this error.
    pub fn message(&self) -> (r: String)
        ensures
            r@ == error_text(self@),
    {
        match self {
            CliError::ConfigError(m) => String::from_str("配置错误: ").concat(m.as_str()),
            CliError::IoError(m) => String::from_str("IO 错误: ").concat(m.as_str()),
            CliError::ValidationError(m) => String::from_str("验证错误: ").concat(m.as_str()),
            CliError::NotFound(m) => String::from_str("未找到: ").concat(m.as_str()),
        }
    }
}

/// The detail of the error for a URL without a web scheme.
pub open spec fn bad_url_text() -> Seq<char> {
    "URL 必须以 http:// 或 https:// 开头"@
}

/// The detail of the error for a link name already taken in its category.
pub open spec fn duplicate_link_text(cat_name: Seq<char>, name: Seq<char>) -> Seq<char> {
    "分类 '"@ + cat_name + "' 中已存在名为 '"@ + name + "' 的链接"@
}

/// The detail of the error for a link that was not found.
pub open spec fn missing_link_text(name: Seq<char>) -> Seq<char> {
    "链接 '"@ + name + "'"@
}

/// The URL begins with `http://` or `https://`.
pub open spec fn is_web_url(url: Seq<char>) -> bool {
    has_prefix(url, "http://"@) || has_prefix(url, "https://"@)
}

/// The icon of a link added without one.
pub open spec fn default_link_icon() -> Seq<char> {
    "🔗"@
}

/// The category of a link added without one.
pub open spec fn uncategorized() -> Seq<char> {
    "未分类"@
}

/// The text of an optional argument, or `fallback` when it is absent.
pub open spec fn text_or(o: Option<Seq<char>>, fallback: Seq<char>) -> Seq<char> {
    match o {
        Some(s) => s,
        None => fallback,
    }
}

/// An optional argument as text.
pub open spec fn opt_text(o: Option<&str>) -> Option<Seq<char>> {
    match o {
        Some(s) => Some(s@),
        None => None,
    }
}

/// The configuration and the path of the file it is saved to.
pub struct CliHandler {
    config: Config,
    config_path: String,
}

/// Where a link was added.
#[derive(Debug, Clone)]
pub struct AddOutcome {
    /// The category that received the link.
    pub category: String,
    /// Whether that category was created for it.
    pub created: bool,
}

/// What removing a link did.
#[derive(Debug, Clone)]
pub struct RemoveOutcome {
    /// The categories the link was removed from, in order.
    pub categories: Vec<String>,
    /// The category named in the command, when it was left without links.
    pub emptied: Option<String>,
}

/// Strings as text.
pub open spec fn texts_of(v: Seq<String>) -> Seq<Seq<char>> {
    v.map_values(|s: String| s@)
}

/// A character of Unicode's White_Space property (the 25 code points that
/// `char::is_whitespace` accepts).
pub open spec fn is_white_space(c: char) -> bool {
    let u = c as u32;
    ||| 0x9 <= u <= 0xD
    ||| u == 0x20
    ||| u == 0x85
    ||| u == 0xA0
    ||| u == 0x1680
    ||| 0x2000 <= u <= 0x200A
    ||| u == 0x2028
    ||| u == 0x2029
    ||| u == 0x202F
    ||| u == 0x205F
    ||| u == 0x3000
}

/// The text without its leading whitespace.
pub open spec fn trim_start_text(s: Seq<char>) -> Seq<char>
    decreases s.len(),
{
    if s.len() > 0 && is_white_space(s[0]) {
        trim_start_text(s.drop_first())
    } else {
        s
    }
}

/// The text without its trailing whitespace.
pub open spec fn trim_end_text(s: Seq<char>) -> Seq<char>
    decreases s.len(),
{
    if s.len() > 0 && is_white_space(s.last()) {
        trim_end_text(s.drop_last())
    } else {
        s
    }
}

/// The text with its leading and trailing whitespace removed.
pub open spec fn trimmed(s: Seq<char>) -> Seq<char> {
    trim_end_text(trim_start_text(s))
}

/// The text in lower case (`str::to_lowercase`).
pub uninterp spec fn lowercased(s: Seq<char>) -> Seq<char>;

/// Whether the character is whitespace in Unicode's White_Space sense.
fn is_white_space_char(c: char) -> (r: bool)
    ensures
        r == is_white_space(c),
{
    let u = c as u32;
    (0x9 <= u && u <= 0xD) || u == 0x20 || u == 0x85 || u == 0xA0 || u == 0x1680
        || (0x2000 <= u && u <= 0x200A) || u == 0x2028 || u == 0x2029 || u == 0x202F
        || u == 0x205F || u == 0x3000
}

/// Leaving out the leading whitespace leaves the text from the first other
/// character on.
pub proof fn lemma_trim_start_text(s: Seq<char>, i: int)
    requires
        0 <= i <= s.len(),
        forall|k: int| 0 <= k < i ==> is_white_space(#[trigger] s[k]),
        i < s.len() ==> !is_white_space(s[i]),
    ensures
        trim_start_text(s) == s.skip(i),
    decreases i,
{
    if i == 0 {
        assert(s.skip(0) =~= s);
    } else {
        let rest = s.drop_first();
        assert forall|k: int| 0 <= k < i - 1 implies is_white_space(#[trigger] rest[k]) by {
            assert(rest[k] == s[k + 1]);
        }
        lemma_trim_start_text(rest, i - 1);
        assert(rest.skip(i - 1) =~= s.skip(i));
    }
}

/// Leaving out the trailing whitespace leaves the text up to the last other
/// character.
pub proof fn lemma_trim_end_text(t: Seq<char>, j: int)
    requires
        0 <= j <= t.len(),
        forall|k: int| j <= k < t.len() ==> is_white_space(#[trigger] t[k]),
        j > 0 ==> !is_white_space(t[j - 1]),
    ensures
        trim_end_text(t) == t.take(j),
    decreases t.len() - j,
{
    if j == t.len() {
        assert(t.take(j) =~= t);
    } else {
        let init = t.drop_last();
        assert forall|k: int| j <= k < init.len() implies is_white_space(#[trigger] init[k]) by {
            assert(init[k] == t[k]);
        }
        lemma_trim_end_text(init, j);
        assert(init.take(j) =~= t.take(j));
    }
}

/// The text with its leading and trailing whitespace removed, as std's
/// `str::trim` documents it.
pub fn trim_text(s: &str) -> (r: &str)
    ensures
        r@ == trimmed(s@),
{
    let n = s.unicode_len();
    let mut i: usize = 0;
    while i < n
        invariant
            n == s@.len(),
            i <= n,
            forall|k: int| 0 <= k < i ==> is_white_space(#[trigger] s@[k]),
        ensures
            i <= n,
            forall|k: int| 0 <= k < i ==> is_white_space(#[trigger] s@[k]),
            i < n ==> !is_white_space(s@[i as int]),
        decreases n - i,
    {
        if !is_white_space_char(s.get_char(i)) {
            break;
        }
        i = i + 1;
    }
    proof { lemma_trim_start_text(s@, i as int); }
    let ghost t = s@.skip(i as int);
    let mut j: usize = n;
    while j > i
        invariant
            n == s@.len(),
            i <= j <= n,
            t == s@.skip(i as int),
            forall|k: int| j <= k < n ==> is_white_space(#[trigger] s@[k]),
        ensures
            i <= j <= n,
            forall|k: int| j <= k < n ==> is_white_space(#[trigger] s@[k]),
            j > i ==> !is_white_space(s@[j - 1]),
        decreases j - i,
    {
        if !is_white_space_char(s.get_char(j - 1)) {
            break;
        }
        j = j - 1;
    }
    proof {
        assert forall|k: int| j - i <= k < t.len() implies is_white_space(#[trigger] t[k]) by {
            assert(t[k] == s@[k + i]);
        }
        if j > i {
            assert(t[j - i - 1] == s@[j - 1]);
        }
        lemma_trim_end_text(t, j - i);
        assert(t.take(j - i) =~= s@.subrange(i as int, j as int));
    }
    s.substring_char(i, j)
}

/// The ASCII lower case of a character: 'A' to 'Z' become 'a' to 'z'.
pub open spec fn ascii_lower(c: char) -> char {
    if 65 <= (c as u32) <= 90 {
        ((c as u32) + 32) as char
    } else {
        c
    }
}

/// Every character of the text is ASCII.
pub open spec fn all_ascii(s: Seq<char>) -> bool {
    forall|i: int| 0 <= i < s.len() ==> (#[trigger] s[i] as u32) < 128
}

/// std's `str::to_lowercase`. Claimed: the result is what `lowercased`
/// names, a fixed function of the text; for a text of ASCII characters it
/// is the text with 'A' to 'Z' turned into 'a' to 'z' and every other
/// character kept (Unicode's lower-case mapping of ASCII). Beyond ASCII the
/// mapping follows Unicode's tables, which are not stated.
#[verifier::external_body]
fn lowercase_text(s: &str) -> (r: String)
    ensures
        r@ == lowercased(s@),
        all_ascii(s@) ==> r@ == s@.map_values(|c: char| ascii_lower(c)),
{
    s.to_lowercase()
}

/// Whether an answer to "delete the empty category?" means yes: once trimmed
/// and lower-cased it is exactly "y".
pub fn confirms_removal(answer: &str) -> (r: bool)
    ensures
        r == (lowercased(trimmed(answer@)) == "y"@),
        all_ascii(trimmed(answer@)) ==> r == (trimmed(answer@).map_values(|c: char| ascii_lower(c)) == "y"@),
{
    let t = trim_text(answer);
    let l = lowercase_text(t);
    text_eq(l.as_str(), "y")
}

/// The URL fits in `max_len` bytes, or cutting it at `max_len - 3` bytes
/// falls between characters.
pub open spec fn fits_truncation(url: Seq<char>, max_len: int) -> bool {
    encode_utf8(url).len() <= max_len || (max_len >= 3 && is_char_boundary(
        encode_utf8(url),
        max_len - 3,
    ))
}

/// The URL itself when its UTF-8 form has at most `max_len` bytes; else its
/// first `max_len - 3` bytes followed by "...".
pub open spec fn truncated_url(url: Seq<char>, max_len: int) -> Seq<char> {
    if encode_utf8(url).len() <= max_len {
        url
    } else {
        decode_utf8(encode_utf8(url).subrange(0, max_len - 3)) + seq!['.', '.', '.']
    }
}

/// Shortens a URL for display to at most `max_len` bytes, marking a cut
/// with "...".
pub fn truncate_url(url: &str, max_len: usize) -> (r: String)
    requires
        fits_truncation(url@, max_len as int),
    ensures
        r@ == truncated_url(url@, max_len as int),
{
    let byte_len = url.as_bytes().len();
    if byte_len <= max_len {
        url.to_owned()
    } else {
        let (head, _rest) = url.split_at(max_len - 3);
        proof {
            encode_utf8_decode_utf8(head@);
            reveal_strlit("...");
        }
        assert(head.spec_bytes() == encode_utf8(url@).subrange(0, max_len - 3));
        assert(head@ == decode_utf8(encode_utf8(url@).subrange(0, max_len - 3)));
        let mut r = head.to_owned();
        r.append("...");
        assert("..."@ == seq!['.', '.', '.']);
        r
    }
}

/// One line of the link listing.
#[derive(Debug, Clone)]
pub struct LinkRow {
    /// The category's icon and name on its first link, empty on the others.
    pub label: String,
    pub name: String,
    /// The link's URL, shortened to at most 30 bytes.
    pub url: String,
}

/// A `LinkRow` as text.
pub struct LinkRowView {
    pub label: Seq<char>,
    pub name: Seq<char>,
    pub url: Seq<char>,
}

impl View for LinkRow {
    type V = LinkRowView;

    open spec fn view(&self) -> LinkRowView {
        LinkRowView { label: self.label@, name: self.name@, url: self.url@ }
    }
}

/// The link listing: its lines, and the totals over all categories.
#[derive(Debug, Clone)]
pub struct LinkTable {
    pub rows: Vec<LinkRow>,
    pub total_categories: usize,
    pub total_links: usize,
}

/// One line of the category listing.
#[derive(Debug, Clone)]
pub struct CategoryRow {
    pub icon: String,
    pub name: String,
    /// How many links the category holds.
    pub links: usize,
}

/// A `CategoryRow` as text.
pub struct CategoryRowView {
    pub icon: Seq<char>,
    pub name: Seq<char>,
    pub links: nat,
}

impl View for CategoryRow {
    type V = CategoryRowView;

    open spec fn view(&self) -> CategoryRowView {
        CategoryRowView { icon: self.icon@, name: self.name@, links: self.links as nat }
    }
}

/// Listing lines as text.
pub open spec fn link_rows_of(v: Seq<LinkRow>) -> Seq<LinkRowView> {
    v.map_values(|r: LinkRow| r@)
}

/// The width, in bytes, to which the listing shortens URLs.
pub open spec fn listed_url_width() -> int {
    30
}

/// The label of a category's first line: its icon, a space, its name.
pub open spec fn category_label(c: CategoryView) -> Seq<char> {
    c.icon + seq![' '] + c.name
}

/// The line for the `j`-th link of the category.
pub open spec fn link_row(c: CategoryView, j: int) -> LinkRowView {
    LinkRowView {
        label: if j == 0 { category_label(c) } else { Seq::empty() },
        name: c.links[j].name,
        url: truncated_url(c.links[j].url, listed_url_width()),
    }
}

/// The lines for all links of the category.
pub open spec fn category_rows(c: CategoryView) -> Seq<LinkRowView> {
    Seq::new(c.links.len(), |j: int| link_row(c, j))
}

/// The category passes the filter: there is none, or it names the category.
pub open spec fn is_listed(c: CategoryView, filter: Option<Seq<char>>) -> bool {
    match filter {
        Some(f) => c.name == f,
        None => true,
    }
}

/// The lines of the link listing: the lines of each listed category, in order.
pub open spec fn listed_rows(cats: Seq<CategoryView>, filter: Option<Seq<char>>) -> Seq<LinkRowView>
    decreases cats.len(),
{
    if cats.len() == 0 {
        Seq::empty()
    } else {
        listed_rows(cats.drop_last(), filter) + if is_listed(cats.last(), filter) {
            category_rows(cats.last())
        } else {
            Seq::empty()
        }
    }
}

/// The number of links over all categories.
pub open spec fn link_total(cats: Seq<CategoryView>) -> nat
    decreases cats.len(),
{
    if cats.len() == 0 {
        0
    } else {
        link_total(cats.drop_last()) + cats.last().links.len()
    }
}

/// The listing can be produced: the link count fits in a `usize`, and every
/// URL it shows can be shortened at a character boundary.
pub open spec fn is_listable(cats: Seq<CategoryView>, filter: Option<Seq<char>>) -> bool {
    &&& link_total(cats) <= usize::MAX
    &&& forall|i: int, j: int|
        0 <= i < cats.len() && is_listed(cats[i], filter) && 0 <= j < cats[i].links.len()
            ==> fits_truncation(#[trigger] cats[i].links[j].url, listed_url_width())
}

/// The link total of a prefix is at most the whole total.
pub proof fn lemma_link_total_prefix(cats: Seq<CategoryView>, i: int)
    requires
        0 <= i <= cats.len(),
    ensures
        link_total(cats.take(i)) <= link_total(cats),
    decreases cats.len() - i,
{
    if i < cats.len() {
        assert(cats.take(i + 1).drop_last() =~= cats.take(i));
        lemma_link_total_prefix(cats, i + 1);
    } else {
        assert(cats.take(i) =~= cats);
    }
}

/// The two configurations differ at most in their link categories.
pub open spec fn same_apart_from_categories(a: Config, b: Config) -> bool {
    &&& a.server == b.server
    &&& a.bing == b.bing
    &&& a.search_engines == b.search_engines
    &&& a.timezones == b.timezones
}

/// What `add_link` does: from handler `pre` to handler `post`, adding the
/// link `name` → `url` with the optional icon and category, answering `r`.
pub open spec fn add_link_result(
    pre: CliHandler,
    post: CliHandler,
    name: Seq<char>,
    url: Seq<char>,
    icon: Option<Seq<char>>,
    category: Option<Seq<char>>,
    r: Result<AddOutcome, CliError>,
) -> bool {
    let cats = pre.spec_config().categories_view();
    let cat_name = text_or(category, uncategorized());
    let link = LinkView { name: name, url: url, icon: text_or(icon, default_link_icon()) };
    if !is_web_url(url) {
        &&& r matches Err(e) && e@ == CliErrorView::ValidationError(bad_url_text())
        &&& post == pre
    } else if is_duplicate(cats, cat_name, name) {
        &&& r matches Err(e) && e@ == CliErrorView::ValidationError(duplicate_link_text(cat_name, name))
        &&& post == pre
    } else {
        &&& r matches Ok(o) && o.category@ == cat_name && o.created == find_category(cats, cat_name) is None
        &&& post.spec_config().categories_view() == added_categories(cats, cat_name, link)
        &&& same_apart_from_categories(post.spec_config(), pre.spec_config())
        &&& post.spec_config_path() == pre.spec_config_path()
    }
}

/// What `remove_link` does: from handler `pre` to handler `post`, removing
/// the links called `name` from the given category or from all, answering `r`.
pub open spec fn remove_link_result(
    pre: CliHandler,
    post: CliHandler,
    name: Seq<char>,
    category: Option<Seq<char>>,
    r: Result<RemoveOutcome, CliError>,
) -> bool {
    let cats = pre.spec_config().categories_view();
    match category {
        Some(c) => match find_category(cats, c) {
            Some(i) if has_link(cats[i].links, name) => {
                let kept = links_without(cats[i].links, name);
                &&& r matches Ok(o) && texts_of(o.categories@) == seq![c]
                    && (kept.len() == 0 ==> (o.emptied matches Some(e) && e@ == c))
                    && (kept.len() != 0 ==> o.emptied is None)
                &&& post.spec_config().categories_view() == cats.update(i, strip_category(cats[i], name))
                &&& same_apart_from_categories(post.spec_config(), pre.spec_config())
                &&& post.spec_config_path() == pre.spec_config_path()
            },
            _ => {
                &&& r matches Err(e) && e@ == CliErrorView::NotFound(missing_link_text(name))
                &&& post == pre
            },
        },
        None => if any_has_link(cats, name) {
            &&& r matches Ok(o) && texts_of(o.categories@) == names_with_link(cats, name)
                && o.emptied is None
            &&& post.spec_config().categories_view() == strip_all(cats, name)
            &&& same_apart_from_categories(post.spec_config(), pre.spec_config())
            &&& post.spec_config_path() == pre.spec_config_path()
        } else {
            &&& r matches Err(e) && e@ == CliErrorView::NotFound(missing_link_text(name))
            &&& post == pre
        },
    }
}

/// What `list_links` answers for the categories `cats` and the filter.
pub open spec fn list_links_result(cats: Seq<CategoryView>, filter: Option<Seq<char>>, r: Option<LinkTable>) -> bool {
    if cats.len() == 0 {
        r is None
    } else {
        &&& r matches Some(t)
        &&& link_rows_of(t.rows@) == listed_rows(cats, filter)
        &&& t.total_categories == cats.len()
        &&& t.total_links == link_total(cats)
    }
}

/// What `list_categories` answers for the categories `cats`.
pub open spec fn list_categories_result(cats: Seq<CategoryView>, r: Seq<CategoryRow>) -> bool {
    &&& r.len() == cats.len()
    &&& forall|i: int| 0 <= i < r.len() ==> {
        let c = #[trigger] cats[i];
        r[i]@ == CategoryRowView { icon: c.icon, name: c.name, links: c.links.len() }
    }
}

fn copy_link(l: &Link) -> (r: Link)
    ensures
        r@ == l@,
{
    Link { name: l.name.clone(), url: l.url.clone(), icon: l.icon.clone() }
}

fn find_category_index(cats: &Vec<Category>, name: &str) -> (r: Option<usize>)
    ensures
        match r {
            Some(i) => find_category(categories_of(cats@), name@) == Some(i as int),
            None => find_category(categories_of(cats@), name@) is None,
        },
{
    let ghost cv = categories_of(cats@);
    let n = cats.len();
    let mut i: usize = 0;
    while i < n
        invariant
            n == cats@.len(),
            cv == categories_of(cats@),
            i <= n,
            forall|j: int| 0 <= j < i ==> cv[j].name != name@,
        decreases n - i,
    {
        if text_eq(cats[i].name.as_str(), name) {
            proof { lemma_find_category_at(cv, name@, i as int); }
            return Some(i);
        }
        i = i + 1;
    }
    proof { lemma_find_category_at(cv, name@, n as int); }
    None
}

fn contains_link(links: &Vec<Link>, name: &str) -> (r: bool)
    ensures
        r == has_link(links_of(links@), name@),
{
    let ghost lv = links_of(links@);
    let n = links.len();
    let mut i: usize = 0;
    while i < n
        invariant
            n == links@.len(),
            lv == links_of(links@),
            i <= n,
            forall|j: int| 0 <= j < i ==> lv[j].name != name@,
        decreases n - i,
    {
        if text_eq(links[i].name.as_str(), name) {
            assert(lv[i as int].name == name@);
            return true;
        }
        i = i + 1;
    }
    false
}

fn without_links(links: &Vec<Link>, name: &str) -> (r: Vec<Link>)
    ensures
        links_of(r@) == links_without(links_of(links@), name@),
{
    let ghost lv = links_of(links@);
    let n = links.len();
    let mut out: Vec<Link> = Vec::new();
    let mut i: usize = 0;
    while i < n
        invariant
            n == links@.len(),
            lv == links_of(links@),
            i <= n,
            links_of(out@) == links_without(lv.take(i as int), name@),
        decreases n - i,
    {
        assert(lv.take(i as int + 1).drop_last() =~= lv.take(i as int));
        if !text_eq(links[i].name.as_str(), name) {
            let l = copy_link(&links[i]);
            out.push(l);
            assert(links_of(out@) =~= links_without(lv.take(i as int), name@).push(lv[i as int]));
        }
        i = i + 1;
    }
    assert(lv.take(n as int) =~= lv);
    out
}

impl CliHandler {
    /// The configuration held.
    pub closed spec fn spec_config(&self) -> Config {
        self.config
    }

    /// The path the configuration is saved to.
    pub closed spec fn spec_config_path(&self) -> Seq<char> {
        self.config_path@
    }

    /// A handler for `config`, which is saved to `config_path`.
    pub fn new(config: Config, config_path: String) -> (r: Self)
        ensures
            r.spec_config() == config,
            r.spec_config_path() == config_path@,
    {
        CliHandler { config, config_path }
    }

    /// The configuration held.
    pub fn config(&self) -> (r: &Config)
        ensures
            *r == self.spec_config(),
    {
        &self.config
    }

    /// The path the configuration is saved to.
    pub fn config_path(&self) -> (r: &str)
        ensures
            r@ == self.spec_config_path(),
    {
        self.config_path.as_str()
    }

    /// Adds the link `name` → `url` to the category `category` (by default
    /// "未分类"), with the icon `icon` (by default "🔗").
    ///
    /// The URL must begin with `http://` or `https://`, and the first
    /// category of that name must not already hold a link called `name`;
    /// otherwise the configuration is left as it was. The link goes to the
    /// end of the first category of that name, or into a new category (icon
    /// "📁") at the end of the list.
    pub fn add_link(&mut self, name: &str, url: &str, icon: Option<&str>, category: Option<&str>) -> (r: Result<AddOutcome, CliError>)
        ensures
            add_link_result(*old(self), *final(self), name@, url@, opt_text(icon), opt_text(category), r),
    {
        if !(starts_with(url, "http://") || starts_with(url, "https://")) {
            return Err(CliError::ValidationError(String::from_str("URL 必须以 http:// 或 https:// 开头")));
        }
        let link_icon = match icon {
            Some(s) => s.to_owned(),
            None => String::from_str("🔗"),
        };
        let category_name = match category {
            Some(s) => s.to_owned(),
            None => String::from_str("未分类"),
        };
        let new_link = Link { name: name.to_owned(), url: url.to_owned(), icon: link_icon };
        let ghost cats = self.config.categories_view();
        let ghost link = new_link@;
        match find_category_index(&self.config.categories, category_name.as_str()) {
            Some(i) => {
                proof { lemma_find_category(cats, category_name@); }
                if contains_link(&self.config.categories[i].links, name) {
                    let message = String::from_str("分类 '").concat(category_name.as_str()).concat(
                        "' 中已存在名为 '",
                    ).concat(name).concat("' 的链接");
                    return Err(CliError::ValidationError(message));
                }
                let mut cat = Category {
                    name: self.config.categories[i].name.clone(),
                    icon: self.config.categories[i].icon.clone(),
                    links: Vec::new(),
                };
                let ghost old_cat = self.config.categories@[i as int];
                std::mem::swap(&mut cat.links, &mut self.config.categories[i].links);
                cat.links.push(new_link);
                assert(links_of(cat.links@) =~= links_of(old_cat.links@).push(link));
                self.config.categories.set(i, cat);
                assert(self.config.categories_view() =~= cats.update(i as int, with_link(cats[i as int], link)));
                Ok(AddOutcome { category: category_name, created: false })
            },
            None => {
                let mut links = Vec::new();
                links.push(new_link);
                assert(links_of(links@) =~= seq![link]);
                let cat = Category { name: category_name.clone(), icon: String::from_str("📁"), links };
                self.config.categories.push(cat);
                assert(self.config.categories_view() =~= cats.push(
                    CategoryView { name: category_name@, icon: new_category_icon(), links: seq![link] },
                ));
                Ok(AddOutcome { category: category_name, created: true })
            },
        }
    }

    /// Removes the links called `name`: from the first category called
    /// `category` when one is given, else from every category.
    ///
    /// When no link of that name is found there, the result is `NotFound`
    /// and the configuration is left as it was. The outcome names the
    /// categories that lost a link and, when a category was given, reports it
    /// if it was left empty.
    pub fn remove_link(&mut self, name: &str, category: Option<&str>) -> (r: Result<RemoveOutcome, CliError>)
        ensures
            remove_link_result(*old(self), *final(self), name@, opt_text(category), r),
    {
        let ghost cats = self.config.categories_view();
        match category {
            Some(cat_name) => {
                if let Some(i) = find_category_index(&self.config.categories, cat_name) {
                    proof { lemma_find_category(cats, cat_name@); }
                    if contains_link(&self.config.categories[i].links, name) {
                        let kept = without_links(&self.config.categories[i].links, name);
                        let now_empty = kept.len() == 0;
                        let cat = Category {
                            name: self.config.categories[i].name.clone(),
                            icon: self.config.categories[i].icon.clone(),
                            links: kept,
                        };
                        self.config.categories.set(i, cat);
                        assert(self.config.categories_view() =~= cats.update(
                            i as int,
                            strip_category(cats[i as int], name@),
                        ));
                        let mut removed_from = Vec::new();
                        removed_from.push(cat_name.to_owned());
                        assert(texts_of(removed_from@) =~= seq![cat_name@]);
                        let emptied = if now_empty {
                            Some(cat_name.to_owned())
                        } else {
                            None
                        };
                        return Ok(RemoveOutcome { categories: removed_from, emptied });
                    }
                }
                Err(CliError::NotFound(String::from_str("链接 '").concat(name).concat("'")))
            },
            None => {
                let ghost before = *self;
                let n = self.config.categories.len();
                let mut removed_from: Vec<String> = Vec::new();
                let mut i: usize = 0;
                while i < n
                    invariant
                        n == cats.len(),
                        cats == before.config.categories_view(),
                        i <= n,
                        self.config.categories@.len() == n,
                        forall|j: int| 0 <= j < i ==> #[trigger] self.config.categories_view()[j]
                            == strip_category(cats[j], name@),
                        forall|j: int| i <= j < n ==> #[trigger] self.config.categories_view()[j] == cats[j],
                        texts_of(removed_from@) == names_with_link(cats.take(i as int), name@),
                        removed_from@.len() == 0 ==> *self == before,
                        removed_from@.len() == 0 <==> !any_has_link(cats.take(i as int), name@),
                        same_apart_from_categories(self.config, before.config),
                        self.config_path == before.config_path,
                    decreases n - i,
                {
                    let ghost prefix = cats.take(i as int + 1);
                    assert(prefix.drop_last() =~= cats.take(i as int));
                    assert(prefix.last() == cats[i as int]);
                    assert(self.config.categories_view()[i as int] == cats[i as int]);
                    proof { lemma_links_without(cats[i as int].links, name@); }
                    proof {
                        if any_has_link(cats.take(i as int), name@) {
                            let k = choose|k: int| 0 <= k < i && has_link(#[trigger] cats.take(i as int)[k].links, name@);
                            assert(prefix[k] == cats.take(i as int)[k]);
                        }
                        if any_has_link(prefix, name@) {
                            let k = choose|k: int| 0 <= k < i + 1 && has_link(#[trigger] prefix[k].links, name@);
                            if k < i {
                                assert(cats.take(i as int)[k] == prefix[k]);
                            }
                        }
                    }
                    if contains_link(&self.config.categories[i].links, name) {
                        let kept = without_links(&self.config.categories[i].links, name);
                        let cat = Category {
                            name: self.config.categories[i].name.clone(),
                            icon: self.config.categories[i].icon.clone(),
                            links: kept,
                        };
                        let ghost prev = self.config.categories_view();
                        self.config.categories.set(i, cat);
                        assert(self.config.categories_view() =~= prev.update(
                            i as int,
                            strip_category(cats[i as int], name@),
                        ));
                        let cat_name = self.config.categories[i].name.clone();
                        removed_from.push(cat_name);
                        assert(texts_of(removed_from@) =~= names_with_link(prefix, name@));
                        assert(has_link(prefix[i as int].links, name@));
                    } else {
                        assert(strip_category(cats[i as int], name@) == cats[i as int]);
                        assert(texts_of(removed_from@) =~= names_with_link(prefix, name@));
                    }
                    i = i + 1;
                }
                assert(cats.take(n as int) =~= cats);
                if removed_from.len() == 0 {
                    return Err(CliError::NotFound(String::from_str("链接 '").concat(name).concat("'")));
                }
                assert(self.config.categories_view() =~= strip_all(cats, name@));
                Ok(RemoveOutcome { categories: removed_from, emptied: None })
            },
        }
    }

    /// Deletes every category called `name`, keeping the others in order.
    pub fn remove_category(&mut self, name: &str)
        ensures
            final(self).spec_config().categories_view() == categories_without(
                old(self).spec_config().categories_view(),
                name@,
            ),
            same_apart_from_categories(final(self).spec_config(), old(self).spec_config()),
            final(self).spec_config_path() == old(self).spec_config_path(),
    {
        let ghost cats = self.config.categories_view();
        let mut rest: Vec<Category> = Vec::new();
        std::mem::swap(&mut rest, &mut self.config.categories);
        let n = rest.len();
        while rest.len() > 0
            invariant
                n == cats.len(),
                rest@.len() <= n,
                categories_of(rest@) == cats.skip(n - rest@.len()),
                self.config.categories_view() == categories_without(cats.take(n - rest@.len()), name@),
                same_apart_from_categories(self.config, old(self).config),
                self.config_path == old(self).config_path,
            decreases rest@.len(),
        {
            let ghost k = n - rest@.len();
            let ghost old_rest = rest@;
            assert(categories_of(old_rest)[0] == cats.skip(k)[0]);
            let c = rest.remove(0);
            assert(c@ == cats[k]);
            assert forall|idx: int| 0 <= idx < rest@.len() implies #[trigger] categories_of(rest@)[idx] == cats.skip(k + 1)[idx] by {
                assert(rest@[idx] == old_rest[idx + 1]);
                assert(categories_of(old_rest)[idx + 1] == cats.skip(k)[idx + 1]);
            }
            assert(categories_of(rest@) =~= cats.skip(k + 1));
            assert(cats.take(k + 1).drop_last() =~= cats.take(k));
            if !text_eq(c.name.as_str(), name) {
                let ghost before = self.config.categories_view();
                self.config.categories.push(c);
                assert(self.config.categories_view() =~= before.push(cats[k]));
            }
        }
        assert(cats.take(n as int) =~= cats);
    }

    /// Acts on the answer to "delete the empty category `emptied`?": when the
    /// answer, trimmed and lower-cased, is "y", every category called
    /// `emptied` is deleted and the result is `true`; otherwise nothing
    /// changes and the result is `false`.
    pub fn finish_removal(&mut self, emptied: &str, answer: &str) -> (deleted: bool)
        ensures
            deleted == (lowercased(trimmed(answer@)) == "y"@),
            deleted ==> final(self).spec_config().categories_view() == categories_without(
                old(self).spec_config().categories_view(),
                emptied@,
            ),
            deleted ==> same_apart_from_categories(final(self).spec_config(), old(self).spec_config()),
            deleted ==> final(self).spec_config_path() == old(self).spec_config_path(),
            !deleted ==> *final(self) == *old(self),
    {
        if confirms_removal(answer) {
            self.remove_category(emptied);
            true
        } else {
            false
        }
    }

    /// The link listing, restricted to the categories called `category` when
    /// it is given; `None` when there are no categories at all. The totals
    /// count every category and link, whatever the filter.
    pub fn list_links(&self, category: Option<&str>) -> (r: Option<LinkTable>)
        requires
            is_listable(self.spec_config().categories_view(), opt_text(category)),
        ensures
            list_links_result(self.spec_config().categories_view(), opt_text(category), r),
    {
        let ghost cats = self.config.categories_view();
        let ghost filter = opt_text(category);
        let n = self.config.categories.len();
        if n == 0 {
            return None;
        }
        let mut rows: Vec<LinkRow> = Vec::new();
        let mut total: usize = 0;
        let mut i: usize = 0;
        while i < n
            invariant
                n == cats.len(),
                cats == self.config.categories_view(),
                filter == opt_text(category),
                is_listable(cats, filter),
                i <= n,
                link_rows_of(rows@) == listed_rows(cats.take(i as int), filter),
                total == link_total(cats.take(i as int)),
            decreases n - i,
        {
            let c = &self.config.categories[i];
            assert(c@ == cats[i as int]);
            assert(cats.take(i as int + 1).drop_last() =~= cats.take(i as int));
            proof { lemma_link_total_prefix(cats, i as int + 1); }
            total = total + c.links.len();
            let listed = match category {
                Some(f) => text_eq(c.name.as_str(), f),
                None => true,
            };
            if listed {
                let m = c.links.len();
                let mut j: usize = 0;
                while j < m
                    invariant
                        m == c.links@.len(),
                        c@ == cats[i as int],
                        is_listable(cats, filter),
                        is_listed(cats[i as int], filter),
                        0 <= i < n,
                        n == cats.len(),
                        j <= m,
                        link_rows_of(rows@) == listed_rows(cats.take(i as int), filter)
                            + category_rows(cats[i as int]).take(j as int),
                    decreases m - j,
                {
                    let link = &c.links[j];
                    assert(link@ == cats[i as int].links[j as int]);
                    assert(fits_truncation(cats[i as int].links[j as int].url, listed_url_width()));
                    let label = if j == 0 {
                        proof { reveal_strlit(" "); }
                        let mut l = c.icon.clone();
                        l.append(" ");
                        l.append(c.name.as_str());
                        l
                    } else {
                        String::new()
                    };
                    let row = LinkRow {
                        label,
                        name: link.name.clone(),
                        url: truncate_url(link.url.as_str(), 30),
                    };
                    assert(row.name@ == link_row(cats[i as int], j as int).name);
                    assert(row.url@ == link_row(cats[i as int], j as int).url);
                    assert(row.label@ == link_row(cats[i as int], j as int).label);
                    assert(row@ == link_row(cats[i as int], j as int));
                    let ghost before = link_rows_of(rows@);
                    rows.push(row);
                    assert(link_rows_of(rows@) =~= before.push(link_row(cats[i as int], j as int)));
                    assert(category_rows(cats[i as int]).take(j as int + 1) =~= category_rows(
                        cats[i as int],
                    ).take(j as int).push(link_row(cats[i as int], j as int)));
                    j = j + 1;
                }
                assert(category_rows(cats[i as int]).take(m as int) =~= category_rows(cats[i as int]));
            } else {
                assert(link_rows_of(rows@) =~= listed_rows(cats.take(i as int + 1), filter));
            }
            i = i + 1;
        }
        assert(cats.take(n as int) =~= cats);
        Some(LinkTable { rows, total_categories: n, total_links: total })
    }

    /// One line per category, in order: its icon, its name and how many
    /// links it holds.
    pub fn list_categories(&self) -> (r: Vec<CategoryRow>)
        ensures
            list_categories_result(self.spec_config().categories_view(), r@),
    {
        let n = self.config.categories.len();
        let mut rows: Vec<CategoryRow> = Vec::new();
        let mut i: usize = 0;
        while i < n
            invariant
                n == self.config.categories@.len(),
                i <= n,
                rows@.len() == i,
                forall|k: int| 0 <= k < i ==> {
                    let c = #[trigger] self.config.categories_view()[k];
                    rows@[k]@ == CategoryRowView { icon: c.icon, name: c.name, links: c.links.len() }
                },
            decreases n - i,
        {
            let c = &self.config.categories[i];
            rows.push(CategoryRow { icon: c.icon.clone(), name: c.name.clone(), links: c.links.len() });
            assert(self.config.categories_view()[i as int] == c@);
            i = i + 1;
        }
        rows
    }
}

} // verus!
