//! Color themes.
use vstd::prelude::*;

use crate::config::ColorConfig;
use crate::grid::view::strings;
use crate::text::same_text;

verus! {

/// A named set of colors.
#[derive(Debug)]
pub struct Theme {
    pub name: String,
    pub colors: ColorConfig,
}

impl Theme {
    /// The names of the built-in themes.
    pub open spec fn names() -> Seq<Seq<char>> {
        seq!["Catppuccin Mocha"@]
    }

    /// The names of the built-in themes.
    pub fn theme_names() -> (r: Vec<String>)
        ensures
            strings(r@) == Theme::names(),
    {
        let mut v: Vec<String> = Vec::new();
        v.push("Catppuccin Mocha".to_owned());
        proof {
            assert(strings(v@) =~= Theme::names());
        }
        v
    }

    /// The built-in theme with this name: Catppuccin Mocha has the default
    /// colors.
    pub fn find(name: &str) -> (r: Option<Theme>)
        ensures
            r is Some <==> name@ == "Catppuccin Mocha"@,
            r matches Some(t) ==> t.name@ == name@ && t.colors.is_default(),
    {
        if same_text(name, "Catppuccin Mocha") {
            Some(Theme { name: name.to_owned(), colors: ColorConfig::default() })
        } else {
            None
        }
    }
}

/// Exactly the themes that are listed can be found.
pub proof fn listed_themes_are_found(name: Seq<char>)
    ensures
        Theme::names().contains(name) <==> name == "Catppuccin Mocha"@,
{
    assert(Theme::names()[0] == "Catppuccin Mocha"@);
}

} // verus!
