//! The subcommands of the command-line tool and their dispatch onto a
//! `CliHandler`.

use vstd::prelude::*;
use crate::cli::{
    add_link_result, is_listable, list_categories_result, list_links_result, remove_link_result,
    AddOutcome, CategoryRow, CliError, CliHandler, LinkTable, RemoveOutcome,
};

verus! {

/// `link` subcommands.
#[derive(Debug, Clone)]
pub enum LinkCommands {
    /// Add a link, with an optional icon and category.
    Add { name: String, url: String, icon: Option<String>, category: Option<String> },
    /// Remove a link, from one category or from all.
    Remove { name: String, category: Option<String> },
    /// List the links, optionally of one category only.
    List { category: Option<String> },
}

/// `category` subcommands.
#[derive(Debug, Clone, Copy, PartialEq, Eq)]
pub enum CategoryCommands {
    /// List the categories.
    List,
}

/// What a `link` subcommand did or found.
#[derive(Debug, Clone)]
pub enum LinkReport {
    Added(AddOutcome),
    Removed(RemoveOutcome),
    Listed(Option<LinkTable>),
}

/// An optional owned argument as text.
pub open spec fn opt_string_text(o: Option<String>) -> Option<Seq<char>> {
    match o {
        Some(s) => Some(s@),
        None => None,
    }
}

fn as_opt_str(o: &Option<String>) -> (r: Option<&str>)
    ensures
        match r {
            Some(s) => opt_string_text(*o) == Some(s@),
            None => o.is_none(),
        },
{
    match o {
        Some(s) => Some(s.as_str()),
        None => None,
    }
}

/// Carries out a `link` subcommand on the handler's configuration: adding and
/// removing change it as `add_link` and `remove_link` do; listing leaves it
/// unchanged and reports the listing.
pub fn handle_link_command(handler: &mut CliHandler, cmd: LinkCommands) -> (r: Result<LinkReport, CliError>)
    requires
        cmd matches LinkCommands::List { category } ==> is_listable(
            old(handler).spec_config().categories_view(),
            opt_string_text(category),
        ),
    ensures
        match cmd {
            LinkCommands::Add { name, url, icon, category } => {
                ||| exists|o: AddOutcome| r == Ok::<LinkReport, CliError>(LinkReport::Added(o))
                    && add_link_result(*old(handler), *final(handler), name@, url@,
                        opt_string_text(icon), opt_string_text(category), Ok(o))
                ||| exists|e: CliError| r == Err::<LinkReport, CliError>(e)
                    && add_link_result(*old(handler), *final(handler), name@, url@,
                        opt_string_text(icon), opt_string_text(category), Err(e))
            },
            LinkCommands::Remove { name, category } => {
                ||| exists|o: RemoveOutcome| r == Ok::<LinkReport, CliError>(LinkReport::Removed(o))
                    && remove_link_result(*old(handler), *final(handler), name@,
                        opt_string_text(category), Ok(o))
                ||| exists|e: CliError| r == Err::<LinkReport, CliError>(e)
                    && remove_link_result(*old(handler), *final(handler), name@,
                        opt_string_text(category), Err(e))
            },
            LinkCommands::List { category } => {
                &&& *final(handler) == *old(handler)
                &&& r matches Ok(LinkReport::Listed(t))
                &&& list_links_result(old(handler).spec_config().categories_view(),
                        opt_string_text(category), t)
            },
        },
{
    match cmd {
        LinkCommands::Add { name, url, icon, category } => {
            let icon_arg = as_opt_str(&icon);
            let category_arg = as_opt_str(&category);
            match handler.add_link(name.as_str(), url.as_str(), icon_arg, category_arg) {
                Ok(o) => Ok(LinkReport::Added(o)),
                Err(e) => Err(e),
            }
        },
        LinkCommands::Remove { name, category } => {
            let category_arg = as_opt_str(&category);
            match handler.remove_link(name.as_str(), category_arg) {
                Ok(o) => Ok(LinkReport::Removed(o)),
                Err(e) => Err(e),
            }
        },
        LinkCommands::List { category } => {
            let category_arg = as_opt_str(&category);
            Ok(LinkReport::Listed(handler.list_links(category_arg)))
        },
    }
}

/// Carries out a `category` subcommand: the category listing.
pub fn handle_category_command(handler: &CliHandler, cmd: CategoryCommands) -> (r: Vec<CategoryRow>)
    ensures
        list_categories_result(handler.spec_config().categories_view(), r@),
{
    match cmd {
        CategoryCommands::List => handler.list_categories(),
    }
}

} // verus!
