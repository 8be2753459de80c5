//! Properties that hold across the operations of the library.

use vstd::prelude::*;
use vstd::utf8::*;
use crate::bing_wallpaper::{elapsed_minutes, elapsed_nanos, full_image_url_text, WallpaperCache};
use crate::cli::{
    category_rows, fits_truncation, link_rows_of, list_links_result, listed_rows, remove_link_result,
    truncated_url, CliError, CliHandler, LinkRowView, RemoveOutcome,
};
use crate::clock::{
    days_from_civil, hour_minute_text, long_date_text, two_digits, weekday_name, weekday_of_date,
    year_text, Timestamp, WallClock,
};
use crate::config::{CategoryView, Config, LinkView};
use crate::handlers::{is_safe_url, safe_url_text};
use crate::links::{
    added_categories, any_has_link, categories_without, find_category, has_link, is_duplicate,
    lemma_find_category, lemma_find_category_at, lemma_find_category_same_names, lemma_links_without,
    lemma_links_without_push, links_without, strip_all, strip_category,
    unique_link_names,
};
use crate::text::has_prefix;

verus! {

/// Adding a link to an existing category and then removing it by name from
/// that category gives back the categories as they were.
pub proof fn law_remove_undoes_add(cats: Seq<CategoryView>, cat_name: Seq<char>, link: LinkView)
    requires
        find_category(cats, cat_name) is Some,
        !is_duplicate(cats, cat_name, link.name),
    ensures
        ({
            let added = added_categories(cats, cat_name, link);
            let i = find_category(cats, cat_name)->0;
            &&& find_category(added, cat_name) == Some(i)
            &&& has_link(added[i].links, link.name)
            &&& added.update(i, strip_category(added[i], link.name)) == cats
        }),
{
    let added = added_categories(cats, cat_name, link);
    lemma_find_category(cats, cat_name);
    let i = find_category(cats, cat_name)->0;
    lemma_find_category_same_names(cats, added, cat_name);
    lemma_links_without_push(cats[i].links, link);
    assert(added[i].links.last() == link);
    assert(has_link(added[i].links, link.name));
    assert(added.update(i, strip_category(added[i], link.name)) =~= cats);
}

/// Adding a link to a category that does not exist creates it at the end;
/// removing the link by name from it leaves it empty, and deleting that
/// empty category gives back the categories as they were.
pub proof fn law_remove_undoes_add_of_new_category(cats: Seq<CategoryView>, cat_name: Seq<char>, link: LinkView)
    requires
        find_category(cats, cat_name) is None,
    ensures
        ({
            let added = added_categories(cats, cat_name, link);
            let i = cats.len() as int;
            let stripped = added.update(i, strip_category(added[i], link.name));
            &&& find_category(added, cat_name) == Some(i)
            &&& has_link(added[i].links, link.name)
            &&& links_without(added[i].links, link.name).len() == 0
            &&& categories_without(stripped, cat_name) == cats
        }),
{
    let added = added_categories(cats, cat_name, link);
    let i = cats.len() as int;
    lemma_find_category(cats, cat_name);
    assert forall|j: int| 0 <= j < i implies added[j].name != cat_name by {
        assert(added[j] == cats[j]);
    }
    lemma_find_category_at(added, cat_name, i);
    assert(added[i].links =~= seq![link]);
    assert(added[i].links[0].name == link.name);
    assert(seq![link].drop_last() =~= Seq::<LinkView>::empty());
    assert(links_without(Seq::<LinkView>::empty(), link.name) == Seq::<LinkView>::empty());
    assert(links_without(added[i].links, link.name).len() == 0);
    assert(has_link(added[i].links, link.name));
    let stripped = added.update(i, strip_category(added[i], link.name));
    assert(stripped.drop_last() =~= cats);
    assert(stripped.last().name == cat_name);
    lemma_categories_without_absent(cats, cat_name);
    assert(categories_without(stripped, cat_name) == categories_without(stripped.drop_last(), cat_name));
}

/// Deleting categories of a name none of them has changes nothing.
pub proof fn lemma_categories_without_absent(cats: Seq<CategoryView>, name: Seq<char>)
    requires
        forall|j: int| 0 <= j < cats.len() ==> cats[j].name != name,
    ensures
        categories_without(cats, name) == cats,
    decreases cats.len(),
{
    if cats.len() > 0 {
        lemma_categories_without_absent(cats.drop_last(), name);
        assert(cats.drop_last().push(cats.last()) =~= cats);
    }
}

/// Deleting the categories called `name` gives the same result for two
/// sequences that agree on every name and on every other category.
pub proof fn lemma_categories_without_agree(a: Seq<CategoryView>, b: Seq<CategoryView>, name: Seq<char>)
    requires
        a.len() == b.len(),
        forall|i: int| 0 <= i < a.len() ==> a[i].name == b[i].name,
        forall|i: int| 0 <= i < a.len() && a[i].name != name ==> a[i] == b[i],
    ensures
        categories_without(a, name) == categories_without(b, name),
    decreases a.len(),
{
    if a.len() > 0 {
        lemma_categories_without_agree(a.drop_last(), b.drop_last(), name);
    }
}

/// No category called `name` is left once they are deleted.
pub proof fn lemma_categories_without_none_left(cats: Seq<CategoryView>, name: Seq<char>)
    ensures
        forall|i: int| 0 <= i < categories_without(cats, name).len()
            ==> (#[trigger] categories_without(cats, name)[i]).name != name,
    decreases cats.len(),
{
    if cats.len() > 0 {
        let rest = categories_without(cats.drop_last(), name);
        lemma_categories_without_none_left(cats.drop_last(), name);
        if cats.last().name != name {
            let out = rest.push(cats.last());
            assert forall|i: int| 0 <= i < out.len() implies (#[trigger] out[i]).name != name by {
                if i < rest.len() {
                    assert(out[i] == rest[i]);
                }
            }
        }
    }
}

/// When removing a link from the category `c` empties it and the deletion is
/// confirmed, the categories end as deleting every category called `c` from
/// the original ones would leave them: none of that name is left, whatever
/// the removal did to it first.
pub proof fn law_confirmed_removal_drops_category(cats: Seq<CategoryView>, c: Seq<char>, name: Seq<char>)
    requires
        find_category(cats, c) is Some,
    ensures
        ({
            let k = find_category(cats, c)->0;
            let after = categories_without(cats.update(k, strip_category(cats[k], name)), c);
            &&& after == categories_without(cats, c)
            &&& forall|i: int| 0 <= i < after.len() ==> (#[trigger] after[i]).name != c
        }),
{
    lemma_find_category(cats, c);
    let k = find_category(cats, c)->0;
    let stripped = cats.update(k, strip_category(cats[k], name));
    lemma_categories_without_agree(stripped, cats, c);
    lemma_categories_without_none_left(cats, c);
}

/// After a successful add, the category of that name holds the link as its
/// last entry, and every other category is as it was.
pub proof fn law_added_link_is_listed(cats: Seq<CategoryView>, cat_name: Seq<char>, link: LinkView)
    ensures
        ({
            let added = added_categories(cats, cat_name, link);
            &&& find_category(added, cat_name) matches Some(i)
            &&& added[i].links.last() == link
            &&& forall|j: int| 0 <= j < cats.len() && j != i ==> added[j] == cats[j]
        }),
{
    let added = added_categories(cats, cat_name, link);
    lemma_find_category(cats, cat_name);
    match find_category(cats, cat_name) {
        Some(i) => {
            lemma_find_category_same_names(cats, added, cat_name);
        },
        None => {
            let i = cats.len() as int;
            assert forall|j: int| 0 <= j < i implies added[j].name != cat_name by {
                assert(added[j] == cats[j]);
            }
            lemma_find_category_at(added, cat_name, i);
        },
    }
}

/// Adding links never gives a category two links of one name.
pub proof fn law_add_keeps_link_names_unique(cats: Seq<CategoryView>, cat_name: Seq<char>, link: LinkView)
    requires
        forall|i: int| 0 <= i < cats.len() ==> unique_link_names(#[trigger] cats[i].links),
        !is_duplicate(cats, cat_name, link.name),
    ensures
        ({
            let added = added_categories(cats, cat_name, link);
            forall|i: int| 0 <= i < added.len() ==> unique_link_names(#[trigger] added[i].links)
        }),
{
    let added = added_categories(cats, cat_name, link);
    lemma_find_category(cats, cat_name);
    match find_category(cats, cat_name) {
        Some(k) => {
            let old_links = cats[k].links;
            let new_links = added[k].links;
            assert forall|j: int, m: int|
                0 <= j < new_links.len() && 0 <= m < new_links.len() && j != m
                implies new_links[j].name != new_links[m].name by {
                if j == old_links.len() as int {
                    assert(old_links[m].name != link.name);
                } else if m == old_links.len() as int {
                    assert(old_links[j].name != link.name);
                } else {
                    assert(unique_link_names(cats[k].links));
                }
            }
            assert forall|i: int| 0 <= i < added.len() implies unique_link_names(#[trigger] added[i].links) by {
                if i != k {
                    assert(added[i] == cats[i]);
                }
            }
        },
        None => {
            assert forall|i: int| 0 <= i < added.len() implies unique_link_names(#[trigger] added[i].links) by {
                if i < cats.len() {
                    assert(added[i] == cats[i]);
                } else {
                    assert(added[i].links.len() == 1);
                }
            }
        },
    }
}

/// After removing a link from every category, no category holds a link of
/// that name, and each keeps its name and icon.
pub proof fn law_remove_everywhere_leaves_none(cats: Seq<CategoryView>, name: Seq<char>)
    ensures
        !any_has_link(strip_all(cats, name), name),
        strip_all(cats, name).len() == cats.len(),
        forall|i: int| 0 <= i < cats.len() ==> (#[trigger] strip_all(cats, name)[i]).name == cats[i].name
            && strip_all(cats, name)[i].icon == cats[i].icon,
{
    let stripped = strip_all(cats, name);
    if any_has_link(stripped, name) {
        let i = choose|i: int| 0 <= i < stripped.len() && has_link(#[trigger] stripped[i].links, name);
        lemma_links_without(cats[i].links, name);
    }
}

/// The UTF-8 form of a concatenation is the concatenation of the forms.
pub proof fn lemma_encode_utf8_append(a: Seq<char>, b: Seq<char>)
    ensures
        encode_utf8(a + b) == encode_utf8(a) + encode_utf8(b),
    decreases a.len(),
{
    if a.len() > 0 {
        assert((a + b).drop_first() =~= a.drop_first() + b);
        lemma_encode_utf8_append(a.drop_first(), b);
        assert(encode_utf8(a + b) =~= encode_utf8(a) + encode_utf8(b));
    } else {
        assert(a + b =~= b);
        assert(encode_utf8(a) =~= Seq::<u8>::empty());
        assert(encode_utf8(a) + encode_utf8(b) =~= encode_utf8(b));
    }
}

/// A shortened URL takes at most `max_len` bytes, and exactly `max_len`
/// bytes when it was cut.
pub proof fn law_truncated_url_fits(url: Seq<char>, max_len: int)
    requires
        max_len >= 3,
        fits_truncation(url, max_len),
    ensures
        encode_utf8(truncated_url(url, max_len)).len() <= max_len,
        encode_utf8(url).len() > max_len ==> encode_utf8(truncated_url(url, max_len)).len() == max_len,
{
    let bytes = encode_utf8(url);
    if bytes.len() > max_len {
        let head = bytes.subrange(0, max_len - 3);
        encode_utf8_valid_utf8(url);
        valid_utf8_split(bytes, max_len - 3);
        decode_utf8_encode_utf8(head);
        let dots = seq!['.', '.', '.'];
        lemma_encode_utf8_append(decode_utf8(head), dots);
        assert(dots.drop_first().drop_first().drop_first() =~= Seq::<char>::empty());
        reveal_with_fuel(encode_utf8, 4);
        assert(encode_utf8(dots).len() == 3);
    }
}

/// What the link filter renders is always a safe target.
pub proof fn law_safe_url_is_safe(s: Seq<char>)
    ensures
        is_safe_url(safe_url_text(s)),
{
    if !is_safe_url(s) {
        reveal_strlit("#");
        assert("#"@.subrange(0, 1) =~= "#"@);
    }
}

/// Filtering a rendered target again changes nothing.
pub proof fn law_safe_url_idempotent(s: Seq<char>)
    ensures
        safe_url_text(safe_url_text(s)) == safe_url_text(s),
{
    law_safe_url_is_safe(s);
}

/// A wallpaper URL made absolute begins with "http", and making it absolute
/// again changes nothing.
pub proof fn law_full_image_url_is_absolute(url: Seq<char>)
    ensures
        has_prefix(full_image_url_text(url), "http"@),
        full_image_url_text(full_image_url_text(url)) == full_image_url_text(url),
{
    if !has_prefix(url, "http"@) {
        reveal_strlit("http");
        reveal_strlit("https://www.bing.com");
        let full = "https://www.bing.com"@ + url;
        assert(full.subrange(0, 4) =~= "http"@);
    }
}

/// A wallpaper is served right after it is stored exactly when the refresh
/// interval is positive.
pub proof fn law_fresh_when_just_stored(cache: WallpaperCache, t: Timestamp)
    ensures
        cache.fresh(t, t) == (cache.spec_interval() > 0),
{
    assert(elapsed_nanos(t, t) == 0);
    assert(elapsed_minutes(t, t) == 0);
}

/// Going forward in time, a stored wallpaper is fresh exactly while fewer
/// than `interval` whole minutes have passed.
pub proof fn law_fresh_within_interval(cache: WallpaperCache, then: Timestamp, now: Timestamp)
    requires
        elapsed_nanos(then, now) >= 0,
    ensures
        cache.fresh(then, now) == (elapsed_nanos(then, now) < cache.spec_interval() * 60_000_000_000),
{
    let d = elapsed_nanos(then, now);
    let k = cache.spec_interval();
    assert((d / 60_000_000_000 < k) == (d < k * 60_000_000_000)) by (nonlinear_arith)
        requires
            d >= 0,
    {}
}

/// The default configuration selects its only search engine, Google.
pub proof fn law_default_config_selects_google(c: Config)
    requires
        c.is_default(),
    ensures
        c.default_engine_index() == Some(0int),
        c.search_engines@[0].name@ == "Google"@,
{
    let engines = c.search_engines@;
    assert(engines[0].default);
    let k = choose|i: int| 0 <= i < engines.len() && engines[i].default
        && forall|j: int| 0 <= j < i ==> !engines[j].default;
    assert(0 <= k < 1);
}

/// When some engine is marked default, the selected engine is marked
/// default and none before it is.
pub proof fn law_selected_engine_is_first_default(c: Config)
    requires
        exists|i: int| 0 <= i < c.search_engines@.len() && c.search_engines@[i].default,
    ensures
        c.default_engine_index() matches Some(k) && 0 <= k < c.search_engines@.len()
            && c.search_engines@[k].default
            && forall|j: int| 0 <= j < k ==> !c.search_engines@[j].default,
{
    let engines = c.search_engines@;
    let i0 = choose|i: int| 0 <= i < engines.len() && engines[i].default;
    lemma_first_marked(engines, i0);
}

/// Among the engines up to a marked one there is a first marked one.
pub proof fn lemma_first_marked(engines: Seq<crate::config::SearchEngine>, i: int)
    requires
        0 <= i < engines.len(),
        engines[i].default,
    ensures
        exists|k: int| 0 <= k < engines.len() && engines[k].default
            && forall|j: int| 0 <= j < k ==> !engines[j].default,
    decreases i,
{
    if exists|j: int| 0 <= j < i && engines[j].default {
        let j = choose|j: int| 0 <= j < i && engines[j].default;
        lemma_first_marked(engines, j);
    } else {
        assert(forall|j: int| 0 <= j < i ==> !engines[j].default);
    }
}

/// Keeps the links not called `name`.
pub open spec fn not_named(name: Seq<char>) -> spec_fn(LinkView) -> bool {
    |l: LinkView| l.name != name
}

/// Leaving out the links called `name` is filtering for the others.
pub proof fn lemma_links_without_is_filter(links: Seq<LinkView>, name: Seq<char>)
    ensures
        links_without(links, name) == links.filter(not_named(name)),
    decreases links.len(),
{
    reveal(Seq::filter);
    if links.len() > 0 {
        lemma_links_without_is_filter(links.drop_last(), name);
    }
}

/// Removing a link from a named category keeps that category's other links,
/// in their order, and leaves every other category as it was.
pub proof fn law_remove_from_category_keeps_others_in_order(
    pre: CliHandler,
    post: CliHandler,
    name: Seq<char>,
    c: Seq<char>,
    r: Result<RemoveOutcome, CliError>,
)
    requires
        remove_link_result(pre, post, name, Some(c), r),
        r is Ok,
    ensures
        ({
            let before = pre.spec_config().categories_view();
            let after = post.spec_config().categories_view();
            &&& find_category(before, c) is Some
            &&& after.len() == before.len()
            &&& after[find_category(before, c)->0].name == c
            &&& after[find_category(before, c)->0].links
                == before[find_category(before, c)->0].links.filter(not_named(name))
            &&& forall|j: int| 0 <= j < before.len() && j != find_category(before, c)->0
                ==> after[j] == before[j]
        }),
{
    let before = pre.spec_config().categories_view();
    lemma_find_category(before, c);
    if let Some(i) = find_category(before, c) {
        lemma_links_without_is_filter(before[i].links, name);
    }
}

/// Removing a link from every category keeps each category's name, icon and
/// other links, in their order.
pub proof fn law_remove_everywhere_keeps_others_in_order(
    pre: CliHandler,
    post: CliHandler,
    name: Seq<char>,
    r: Result<RemoveOutcome, CliError>,
)
    requires
        remove_link_result(pre, post, name, None, r),
        r is Ok,
    ensures
        ({
            let before = pre.spec_config().categories_view();
            let after = post.spec_config().categories_view();
            &&& after.len() == before.len()
            &&& forall|j: int| 0 <= j < before.len() ==> {
                &&& (#[trigger] after[j]).name == before[j].name
                &&& after[j].icon == before[j].icon
                &&& after[j].links == before[j].links.filter(not_named(name))
            }
        }),
{
    let before = pre.spec_config().categories_view();
    let after = post.spec_config().categories_view();
    assert forall|j: int| 0 <= j < before.len() implies {
        &&& (#[trigger] after[j]).name == before[j].name
        &&& after[j].icon == before[j].icon
        &&& after[j].links == before[j].links.filter(not_named(name))
    } by {
        lemma_links_without_is_filter(before[j].links, name);
    }
}

/// Selects the categories called `f`.
pub open spec fn named_category(f: Seq<char>) -> spec_fn(CategoryView) -> bool {
    |c: CategoryView| c.name == f
}

/// The listing lines of one category.
pub open spec fn rows_of_category() -> spec_fn(CategoryView) -> Seq<LinkRowView> {
    |c: CategoryView| category_rows(c)
}

/// The filtered listing is the lines of the categories whose name equals the
/// filter, in order.
pub proof fn lemma_listed_rows_named(cats: Seq<CategoryView>, f: Seq<char>)
    ensures
        listed_rows(cats, Some(f)) == cats.filter(named_category(f)).map_values(rows_of_category()).flatten(),
    decreases cats.len(),
{
    if cats.len() == 0 {
        reveal(Seq::filter);
        assert(cats.filter(named_category(f)).map_values(rows_of_category()) =~= Seq::<Seq<LinkRowView>>::empty());
    } else {
        let init = cats.drop_last();
        let last = cats.last();
        lemma_listed_rows_named(init, f);
        assert(init.push(last) =~= cats);
        init.lemma_filter_push(last, named_category(f));
        let sel = init.filter(named_category(f));
        sel.lemma_push_map_commute(rows_of_category(), last);
        sel.map_values(rows_of_category()).lemma_flatten_push(category_rows(last));
        if last.name == f {
            assert(listed_rows(cats, Some(f)) =~= listed_rows(init, Some(f)) + category_rows(last));
        } else {
            assert(listed_rows(cats, Some(f)) =~= listed_rows(init, Some(f)));
        }
    }
}

/// The unfiltered listing is the lines of every category, in order.
pub proof fn lemma_listed_rows_all(cats: Seq<CategoryView>)
    ensures
        listed_rows(cats, None) == cats.map_values(rows_of_category()).flatten(),
    decreases cats.len(),
{
    if cats.len() == 0 {
        assert(cats.map_values(rows_of_category()) =~= Seq::<Seq<LinkRowView>>::empty());
    } else {
        let init = cats.drop_last();
        let last = cats.last();
        lemma_listed_rows_all(init);
        assert(init.push(last) =~= cats);
        init.lemma_push_map_commute(rows_of_category(), last);
        init.map_values(rows_of_category()).lemma_flatten_push(category_rows(last));
        assert(listed_rows(cats, None) =~= listed_rows(init, None) + category_rows(last));
    }
}

/// Listing with a filter shows the lines of exactly the categories whose
/// name equals the filter, all their links, in order; nothing of any other
/// category.
pub proof fn law_list_shows_exactly_the_named_category(cats: Seq<CategoryView>, f: Seq<char>, r: Option<crate::cli::LinkTable>)
    requires
        list_links_result(cats, Some(f), r),
        cats.len() > 0,
    ensures
        r matches Some(t) && link_rows_of(t.rows@)
            == cats.filter(named_category(f)).map_values(rows_of_category()).flatten(),
{
    lemma_listed_rows_named(cats, f);
}

/// Listing without a filter shows the lines of every category, in order.
pub proof fn law_list_shows_every_category(cats: Seq<CategoryView>, r: Option<crate::cli::LinkTable>)
    requires
        list_links_result(cats, None, r),
        cats.len() > 0,
    ensures
        r matches Some(t) && link_rows_of(t.rows@) == cats.map_values(rows_of_category()).flatten(),
{
    lemma_listed_rows_all(cats);
}

/// The weekday moves on by one with each day of a month; 1970-01-01 was a
/// Thursday and 2024-07-01 a Monday.
pub proof fn law_weekday_advances_daily(y: int, m: int, d: int)
    ensures
        weekday_of_date(y, m, d + 1) == (weekday_of_date(y, m, d) + 1) % 7,
        weekday_of_date(1970, 1, 1) == 4,
        weekday_of_date(2024, 7, 1) == 1,
{
    assert(days_from_civil(y, m, d + 1) == days_from_civil(y, m, d) + 1);
    assert(days_from_civil(1970, 1, 1) == 0);
    assert(days_from_civil(2024, 7, 1) == 19905);
}

/// The page's date names the weekday of the very date it shows.
pub proof fn law_page_date_shows_its_weekday(date: Seq<char>, time: Seq<char>)
    requires
        exists|c: WallClock| c.valid() && c.weekday_matches() && date == long_date_text(c)
            && time == hour_minute_text(c),
    ensures
        exists|y: int, m: int, d: int| 1 <= m <= 12 && 1 <= d <= 31 && date == year_text(y) + "年"@
            + two_digits(m) + "月"@ + two_digits(d) + "日 "@ + weekday_name(weekday_of_date(y, m, d)),
{
    let c = choose|c: WallClock| c.valid() && c.weekday_matches() && date == long_date_text(c)
        && time == hour_minute_text(c);
    let y = c.year as int;
    let m = c.month as int;
    let d = c.day as int;
    assert(date == year_text(y) + "年"@ + two_digits(m) + "月"@ + two_digits(d) + "日 "@
        + weekday_name(weekday_of_date(y, m, d)));
}

} // verus!
