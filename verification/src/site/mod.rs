//! Sites: the projects that the front page introduces.

pub mod manifest;

use vstd::prelude::*;
use crate::table::{parse_table, spec_text_of, spec_toml_fields, table_fields, text_of, FieldView};

verus! {

/// A site: its name and a few words that introduce it.
#[derive(Debug, Clone, PartialEq, Eq)]
pub struct Site {
    pub name: String,
    pub introduction: String,
}

/// The mathematical content of a [`Site`].
#[verifier::ext_equal]
pub struct SiteView {
    pub name: Seq<char>,
    pub introduction: Seq<char>,
}

impl View for Site {
    type V = SiteView;

    open spec fn view(&self) -> SiteView {
        SiteView { name: self.name@, introduction: self.introduction@ }
    }
}

/// The site that a document describes: its `name` and its `introduction`,
/// both of which it has to state as strings.
pub open spec fn spec_site(fields: Map<Seq<char>, FieldView>) -> Option<SiteView> {
    match (spec_text_of(fields, "name"@), spec_text_of(fields, "introduction"@)) {
        (Some(name), Some(introduction)) => Some(SiteView { name, introduction }),
        _ => None,
    }
}

/// The site that the text of a description stands for.
pub open spec fn spec_site_of(input: Seq<char>) -> Option<SiteView> {
    match spec_toml_fields(input) {
        Some(fields) => spec_site(fields),
        None => None,
    }
}

/// The mathematical content of an optional site.
pub open spec fn site_view(site: Option<Site>) -> Option<SiteView> {
    match site {
        Some(site) => Some(site@),
        None => None,
    }
}

impl Site {
    /// Reads a site from the text of its description; `None` where the text
    /// is no TOML document or lacks one of the two strings.
    pub fn parse(input: &str) -> (site: Option<Site>)
        ensures
            site_view(site) == spec_site_of(input@),
    {
        let table = match parse_table(input) {
            Ok(table) => table,
            Err(_) => {
                return None;
            },
        };
        let name = match text_of(&table, "name") {
            Some(name) => name,
            None => {
                return None;
            },
        };
        let introduction = match text_of(&table, "introduction") {
            Some(introduction) => introduction,
            None => {
                return None;
            },
        };
        let site = Site { name, introduction };
        assert(Some(site@) =~= spec_site(table_fields(table)));
        Some(site)
    }
}

} // verus!
