//! The marina's berths: the data model, the seed data the site renders, the
//! lookup by slug, and the per-berth text that the berth card shows.
use vstd::prelude::*;

use crate::text::{chars_of, decimal, same_text, to_decimal};

verus! {

/// The slug of the berth shown on the home page and the featured page.
pub const FEATURED: &'static str = "a1";

/// A berth in the marina.
pub struct Berth {
    pub name: &'static str,
    pub slug: &'static str,
    pub length_m: u8,
    pub status: Status,
}

/// What is currently happening at a berth.
pub enum Status {
    Vacant,
    Occupied { vessel: &'static str },
    Maintenance,
}

/// A berth as plain text and numbers.
pub struct BerthView {
    pub name: Seq<char>,
    pub slug: Seq<char>,
    pub length_m: u8,
    pub status: StatusView,
}

/// A status as plain text.
pub enum StatusView {
    Vacant,
    Occupied { vessel: Seq<char> },
    Maintenance,
}

impl View for Status {
    type V = StatusView;

    open spec fn view(&self) -> StatusView {
        match self {
            Status::Vacant => StatusView::Vacant,
            Status::Occupied { vessel } => StatusView::Occupied { vessel: vessel@ },
            Status::Maintenance => StatusView::Maintenance,
        }
    }
}

impl View for Berth {
    type V = BerthView;

    open spec fn view(&self) -> BerthView {
        BerthView {
            name: self.name@,
            slug: self.slug@,
            length_m: self.length_m,
            status: self.status@,
        }
    }
}

/// The seed data: every berth of the marina, in display order.
pub open spec fn seed_berths() -> Seq<BerthView> {
    seq![
        BerthView {
            name: "A1"@,
            slug: "a1"@,
            length_m: 8,
            status: StatusView::Occupied { vessel: "Lady Jane"@ },
        },
        BerthView { name: "A2"@, slug: "a2"@, length_m: 8, status: StatusView::Vacant },
        BerthView { name: "B7"@, slug: "b7"@, length_m: 12, status: StatusView::Maintenance },
        BerthView {
            name: "C3"@,
            slug: "c3"@,
            length_m: 15,
            status: StatusView::Occupied { vessel: "Sea Urchin"@ },
        },
    ]
}

/// The views of a list of berths.
pub open spec fn berth_views(berths: Seq<Berth>) -> Seq<BerthView> {
    berths.map_values(|b: Berth| b@)
}

/// The first berth of `berths` whose slug is `slug`, if any.
pub open spec fn first_with_slug(berths: Seq<BerthView>, slug: Seq<char>) -> Option<BerthView>
    decreases berths.len(),
{
    if berths.len() == 0 {
        None
    } else if berths[0].slug == slug {
        Some(berths[0])
    } else {
        first_with_slug(berths.drop_first(), slug)
    }
}

/// The berth the site shows for `slug`, if any.
pub open spec fn berth_with_slug(slug: Seq<char>) -> Option<BerthView> {
    first_with_slug(seed_berths(), slug)
}

/// The detail URL of a berth with the given slug.
pub open spec fn berth_url(slug: Seq<char>) -> Seq<char> {
    "/berths/"@ + slug
}

/// The vessel at a berth, if it is occupied.
pub open spec fn vessel_of(status: StatusView) -> Option<Seq<char>> {
    match status {
        StatusView::Occupied { vessel } => Some(vessel),
        _ => None,
    }
}

/// The class that marks a status badge's kind.
pub open spec fn badge_class(status: StatusView) -> Seq<char> {
    match status {
        StatusView::Vacant => "badge-vacant"@,
        StatusView::Occupied { .. } => "badge-occupied"@,
        StatusView::Maintenance => "badge-maintenance"@,
    }
}

/// The text of a status badge.
pub open spec fn badge_label(status: StatusView) -> Seq<char> {
    match status {
        StatusView::Vacant => "Vacant"@,
        StatusView::Occupied { vessel } => "Occupied by "@ + vessel,
        StatusView::Maintenance => "Maintenance"@,
    }
}

/// Every berth of the marina is the one found by its own slug, so the link
/// on its card (its detail URL) leads back to it.
pub proof fn lemma_every_berth_found_by_slug(i: int)
    requires
        0 <= i < seed_berths().len(),
    ensures
        berth_with_slug(seed_berths()[i].slug) == Some(seed_berths()[i]),
        berth_url(seed_berths()[i].slug) == "/berths/"@ + seed_berths()[i].slug,
{
    reveal_strlit("a1");
    reveal_strlit("a2");
    reveal_strlit("b7");
    reveal_strlit("c3");
    let b = seed_berths();
    assert(b[0].slug[1] != b[1].slug[1]);
    assert(b[0].slug[0] != b[2].slug[0]);
    assert(b[0].slug[0] != b[3].slug[0]);
    assert(b[1].slug[0] != b[2].slug[0]);
    assert(b[1].slug[0] != b[3].slug[0]);
    assert(b[2].slug[0] != b[3].slug[0]);
    reveal_with_fuel(first_with_slug, 5);
    assert(b.drop_first() =~= seq![b[1], b[2], b[3]]);
    assert(b.drop_first().drop_first() =~= seq![b[2], b[3]]);
    assert(b.drop_first().drop_first().drop_first() =~= seq![b[3]]);
}

impl Berth {
    /// The berth's detail URL: `/berths/` followed by its slug.
    pub fn url(&self) -> (u: String)
        ensures
            u@ == berth_url(self.slug@),
    {
        let mut u = String::from_str("/berths/");
        u.append(self.slug);
        u
    }

    /// The vessel moored at the berth, when it is occupied.
    pub fn vessel(&self) -> (v: Option<&'static str>)
        ensures
            vessel_of(self.status@) == match v {
                Some(name) => Some(name@),
                None => None,
            },
    {
        match &self.status {
            Status::Occupied { vessel } => Some(*vessel),
            _ => None,
        }
    }

    /// The berth's length as the card prints it in its `data-length`
    /// attribute: the number of metres in decimal.
    pub fn length_text(&self) -> (t: String)
        ensures
            t@ == decimal(self.length_m as nat),
    {
        to_decimal(self.length_m as u64)
    }
}

impl Status {
    /// The class that distinguishes the status badge of this status.
    pub fn badge_class(&self) -> (c: &'static str)
        ensures
            c@ == badge_class(self@),
    {
        match self {
            Status::Vacant => "badge-vacant",
            Status::Occupied { .. } => "badge-occupied",
            Status::Maintenance => "badge-maintenance",
        }
    }

    /// The text of the status badge: `Vacant`, `Maintenance`, or
    /// `Occupied by` followed by the vessel's name.
    pub fn badge_label(&self) -> (l: String)
        ensures
            l@ == badge_label(self@),
    {
        match self {
            Status::Vacant => String::from_str("Vacant"),
            Status::Occupied { vessel } => {
                let mut l = String::from_str("Occupied by ");
                l.append(vessel);
                l
            },
            Status::Maintenance => String::from_str("Maintenance"),
        }
    }
}

/// Every berth of the marina, in display order.
pub fn berths() -> (v: Vec<Berth>)
    ensures
        berth_views(v@) == seed_berths(),
{
    let v = vec![
        Berth {
            name: "A1",
            slug: "a1",
            length_m: 8,
            status: Status::Occupied { vessel: "Lady Jane" },
        },
        Berth { name: "A2", slug: "a2", length_m: 8, status: Status::Vacant },
        Berth { name: "B7", slug: "b7", length_m: 12, status: Status::Maintenance },
        Berth {
            name: "C3",
            slug: "c3",
            length_m: 15,
            status: Status::Occupied { vessel: "Sea Urchin" },
        },
    ];
    assert(berth_views(v@) =~= seed_berths());
    v
}

/// One berth by slug: the first berth of [`berths`] whose slug is `slug`.
pub fn find_berth(slug: &str) -> (found: Option<Berth>)
    ensures
        berth_with_slug(slug@) == match found {
            Some(b) => Some(b@),
            None => None,
        },
{
    let mut all = berths();
    let wanted = chars_of(slug);
    let mut i: usize = 0;
    assert(berth_views(all@).subrange(0, all@.len() as int) =~= berth_views(all@));
    while i < all.len()
        invariant
            i <= all.len(),
            wanted@ == slug@,
            first_with_slug(berth_views(all@).subrange(i as int, all@.len() as int), slug@)
                == berth_with_slug(slug@),
        decreases all.len() - i,
    {
        let ghost rest = berth_views(all@).subrange(i as int, all@.len() as int);
        let candidate = chars_of(all[i].slug);
        if same_text(&candidate, &wanted) {
            let b = all.swap_remove(i);
            return Some(b);
        }
        assert(rest.drop_first() =~= berth_views(all@).subrange(i + 1, all@.len() as int));
        i = i + 1;
    }
    None
}

} // verus!
