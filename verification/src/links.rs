//! The link model: what adding and removing links does to the categories,
//! stated over their text, with the facts about it that the command-line
//! operations rely on.

use vstd::prelude::*;
use crate::config::{CategoryView, LinkView};

verus! {

/// Index of the first category called `name`.
pub open spec fn find_category(cats: Seq<CategoryView>, name: Seq<char>) -> Option<int>
    decreases cats.len(),
{
    if cats.len() == 0 {
        None
    } else if cats[0].name == name {
        Some(0)
    } else {
        match find_category(cats.drop_first(), name) {
            Some(i) => Some(i + 1),
            None => None,
        }
    }
}

/// Some link in `links` is called `name`.
pub open spec fn has_link(links: Seq<LinkView>, name: Seq<char>) -> bool {
    exists|j: int| 0 <= j < links.len() && links[j].name == name
}

/// `links` with every link called `name` left out, the others in order.
pub open spec fn links_without(links: Seq<LinkView>, name: Seq<char>) -> Seq<LinkView>
    decreases links.len(),
{
    if links.len() == 0 {
        links
    } else {
        let rest = links_without(links.drop_last(), name);
        if links.last().name == name {
            rest
        } else {
            rest.push(links.last())
        }
    }
}

/// The category with its links called `name` left out.
pub open spec fn strip_category(c: CategoryView, name: Seq<char>) -> CategoryView {
    CategoryView { name: c.name, icon: c.icon, links: links_without(c.links, name) }
}

/// The category with `link` appended to its links.
pub open spec fn with_link(c: CategoryView, link: LinkView) -> CategoryView {
    CategoryView { name: c.name, icon: c.icon, links: c.links.push(link) }
}

/// The icon of a category that adding a link creates.
pub open spec fn new_category_icon() -> Seq<char> {
    "📁"@
}

/// The categories after `link` is added to the category `cat_name`: appended
/// to the first category of that name, or to a new category at the end.
pub open spec fn added_categories(cats: Seq<CategoryView>, cat_name: Seq<char>, link: LinkView) -> Seq<CategoryView> {
    match find_category(cats, cat_name) {
        Some(i) => cats.update(i, with_link(cats[i], link)),
        None => cats.push(CategoryView { name: cat_name, icon: new_category_icon(), links: seq![link] }),
    }
}

/// The first category called `cat_name` already holds a link called `name`.
pub open spec fn is_duplicate(cats: Seq<CategoryView>, cat_name: Seq<char>, name: Seq<char>) -> bool {
    match find_category(cats, cat_name) {
        Some(i) => has_link(cats[i].links, name),
        None => false,
    }
}

/// Every category with its links called `name` left out.
pub open spec fn strip_all(cats: Seq<CategoryView>, name: Seq<char>) -> Seq<CategoryView> {
    cats.map_values(|c: CategoryView| strip_category(c, name))
}

/// Some category holds a link called `name`.
pub open spec fn any_has_link(cats: Seq<CategoryView>, name: Seq<char>) -> bool {
    exists|i: int| 0 <= i < cats.len() && has_link(#[trigger] cats[i].links, name)
}

/// The names, in order, of the categories that hold a link called `name`.
pub open spec fn names_with_link(cats: Seq<CategoryView>, name: Seq<char>) -> Seq<Seq<char>>
    decreases cats.len(),
{
    if cats.len() == 0 {
        Seq::empty()
    } else {
        let rest = names_with_link(cats.drop_last(), name);
        if has_link(cats.last().links, name) {
            rest.push(cats.last().name)
        } else {
            rest
        }
    }
}

/// `cats` with every category called `name` left out, the others in order.
pub open spec fn categories_without(cats: Seq<CategoryView>, name: Seq<char>) -> Seq<CategoryView>
    decreases cats.len(),
{
    if cats.len() == 0 {
        cats
    } else {
        let rest = categories_without(cats.drop_last(), name);
        if cats.last().name == name {
            rest
        } else {
            rest.push(cats.last())
        }
    }
}

/// No two links of one category share a name.
pub open spec fn unique_link_names(links: Seq<LinkView>) -> bool {
    forall|j: int, k: int| 0 <= j < links.len() && 0 <= k < links.len() && j != k
        ==> links[j].name != links[k].name
}

/// Characterises `find_category` by the names before and at an index.
pub proof fn lemma_find_category(cats: Seq<CategoryView>, name: Seq<char>)
    ensures
        match find_category(cats, name) {
            Some(i) => 0 <= i < cats.len() && cats[i].name == name
                && forall|j: int| 0 <= j < i ==> cats[j].name != name,
            None => forall|j: int| 0 <= j < cats.len() ==> cats[j].name != name,
        },
    decreases cats.len(),
{
    if cats.len() > 0 && cats[0].name != name {
        let rest = cats.drop_first();
        lemma_find_category(rest, name);
        assert forall|j: int| 1 <= j < cats.len() implies cats[j] == rest[j - 1] by {}
    }
}

/// The first index whose category is called `name`, with none before it,
/// is what `find_category` gives.
pub proof fn lemma_find_category_at(cats: Seq<CategoryView>, name: Seq<char>, i: int)
    requires
        0 <= i <= cats.len(),
        forall|j: int| 0 <= j < i ==> cats[j].name != name,
        i < cats.len() ==> cats[i].name == name,
    ensures
        i < cats.len() ==> find_category(cats, name) == Some(i),
        i == cats.len() ==> find_category(cats, name) is None,
{
    lemma_find_category(cats, name);
    match find_category(cats, name) {
        Some(k) => {
            if k < i {
                assert(cats[k].name != name);
            } else if k > i && i < cats.len() {
                assert(cats[i].name != name);
            }
        },
        None => {
            if i < cats.len() {
                assert(cats[i].name != name);
            }
        },
    }
}

/// `find_category` depends only on the names of the categories.
pub proof fn lemma_find_category_same_names(a: Seq<CategoryView>, b: Seq<CategoryView>, name: Seq<char>)
    requires
        a.len() == b.len(),
        forall|j: int| 0 <= j < a.len() ==> a[j].name == b[j].name,
    ensures
        find_category(a, name) == find_category(b, name),
{
    lemma_find_category(a, name);
    match find_category(a, name) {
        Some(i) => lemma_find_category_at(b, name, i),
        None => lemma_find_category_at(b, name, b.len() as int),
    }
}

/// What leaving out links called `name` keeps, and that it shortens the
/// sequence exactly when such a link exists.
pub proof fn lemma_links_without(links: Seq<LinkView>, name: Seq<char>)
    ensures
        links_without(links, name).len() <= links.len(),
        links_without(links, name).len() < links.len() <==> has_link(links, name),
        !has_link(links, name) ==> links_without(links, name) == links,
        !has_link(links_without(links, name), name),
    decreases links.len(),
{
    if links.len() > 0 {
        let init = links.drop_last();
        lemma_links_without(init, name);
        let rest = links_without(init, name);
        if has_link(links, name) {
            let j = choose|j: int| 0 <= j < links.len() && links[j].name == name;
            if links.last().name != name {
                assert(init[j].name == name);
            }
        }
        if has_link(init, name) {
            let j = choose|j: int| 0 <= j < init.len() && init[j].name == name;
            assert(links[j].name == name);
        }
        if !has_link(links, name) {
            assert(links.last().name != name);
            assert(!has_link(init, name)) by {
                if has_link(init, name) {
                    let j = choose|j: int| 0 <= j < init.len() && init[j].name == name;
                    assert(links[j].name == name);
                }
            }
            assert(rest.push(links.last()) =~= links);
        }
        if links.last().name != name {
            let out = rest.push(links.last());
            assert(!has_link(out, name)) by {
                if has_link(out, name) {
                    let j = choose|j: int| 0 <= j < out.len() && out[j].name == name;
                    if j < rest.len() {
                        assert(rest[j].name == name);
                    }
                }
            }
        }
    }
}

/// Leaving out the names of `link` after appending it undoes the append,
/// when no earlier link had that name.
pub proof fn lemma_links_without_push(links: Seq<LinkView>, link: LinkView)
    requires
        !has_link(links, link.name),
    ensures
        links_without(links.push(link), link.name) == links,
{
    assert(links.push(link).drop_last() =~= links);
    lemma_links_without(links, link.name);
}

} // verus!
