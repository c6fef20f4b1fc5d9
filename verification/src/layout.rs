//! The parts of the page shell that depend on where the visitor is: the
//! navigation links and which of them marks the current page.
use vstd::prelude::*;

use crate::text::{chars_of, same_text};

verus! {

/// A link of the main navigation.
#[derive(Clone, Copy)]
pub struct NavLink {
    pub href: &'static str,
    pub label: &'static str,
}

/// The main navigation, in order: the home page, the berths, and the two
/// vessel searches.
pub open spec fn nav_targets() -> Seq<(Seq<char>, Seq<char>)> {
    seq![
        ("/"@, "Home"@),
        ("/berths"@, "Berths"@),
        ("/vessels"@, "Vessels"@),
        ("/vessels/htmx"@, "Vessels (htmx)"@),
    ]
}

/// Each page marks its own link and only its own: the navigation targets
/// are distinct, so for a page that is one of them exactly one link is the
/// current one.
pub proof fn lemma_one_current_link(i: int, j: int)
    requires
        0 <= i < nav_targets().len(),
        0 <= j < nav_targets().len(),
    ensures
        (nav_targets()[j].0 == nav_targets()[i].0) <==> i == j,
{
    reveal_strlit("/");
    reveal_strlit("/berths");
    reveal_strlit("/vessels");
    reveal_strlit("/vessels/htmx");
    if i != j {
        assert(nav_targets()[j].0.len() != nav_targets()[i].0.len());
    }
}

/// The main navigation, in order.
pub fn nav_links() -> (links: Vec<NavLink>)
    ensures
        links@.map_values(|l: NavLink| (l.href@, l.label@)) == nav_targets(),
{
    let links = vec![
        NavLink { href: "/", label: "Home" },
        NavLink { href: "/berths", label: "Berths" },
        NavLink { href: "/vessels", label: "Vessels" },
        NavLink { href: "/vessels/htmx", label: "Vessels (htmx)" },
    ];
    assert(links@.map_values(|l: NavLink| (l.href@, l.label@)) =~= nav_targets());
    links
}

impl NavLink {
    /// Whether this link leads to the page at `current_path`: exactly the
    /// link whose target is that path is marked with `aria-current="page"`
    /// and the `nav-link-active` class.
    pub fn is_current(&self, current_path: &str) -> (r: bool)
        ensures
            r == (self.href@ == current_path@),
    {
        same_text(&chars_of(self.href), &chars_of(current_path))
    }
}

} // verus!
