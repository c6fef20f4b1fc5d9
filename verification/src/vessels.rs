//! Vessel search: the vessel list, the query rule shared by the shard and
//! the htmx transports, and the stable element id of each result row.
use vstd::prelude::*;

use crate::form::{form_encoded, urlencode};
use crate::text::{chars_of, contains, has_infix, push_char, trim, trimmed};
use vstd::string::StringSliceAdditionalSpecFns;

verus! {

/// The longest search, in bytes of UTF-8 after trimming, that either
/// transport accepts.
pub const MAX_QUERY_LEN: usize = 80;

/// A vessel and where it is kept.
#[derive(Clone, Copy)]
pub struct Vessel {
    pub name: &'static str,
    pub berth: &'static str,
}

/// A vessel as plain text.
pub struct VesselView {
    pub name: Seq<char>,
    pub berth: Seq<char>,
}

impl View for Vessel {
    type V = VesselView;

    open spec fn view(&self) -> VesselView {
        VesselView { name: self.name@, berth: self.berth@ }
    }
}

/// The search text was longer than [`MAX_QUERY_LEN`] once trimmed.
#[derive(Debug, PartialEq, Eq, Structural)]
pub struct QueryTooLong;

/// The vessels the marina knows, in display order.
pub open spec fn seed_vessels() -> Seq<VesselView> {
    seq![
        VesselView { name: "Lady Jane"@, berth: "A1"@ },
        VesselView { name: "Sea Urchin"@, berth: "C3"@ },
        VesselView { name: "Morning Star"@, berth: "Visitors"@ },
        VesselView { name: "Blue Moon"@, berth: "Yard"@ },
    ]
}

/// The views of a list of vessels.
pub open spec fn vessel_views(vessels: Seq<Vessel>) -> Seq<VesselView> {
    vessels.map_values(|v: Vessel| v@)
}

/// A vessel answers the (trimmed) query `q`: every vessel answers the empty
/// query, and otherwise the query must occur in its name.
pub open spec fn answers(v: VesselView, q: Seq<char>) -> bool {
    q.len() == 0 || has_infix(v.name, q)
}

/// The vessels of `vs` that answer `q`, in their order.
pub open spec fn matching(vs: Seq<VesselView>, q: Seq<char>) -> Seq<VesselView>
    decreases vs.len(),
{
    if vs.len() == 0 {
        Seq::empty()
    } else if answers(vs.last(), q) {
        matching(vs.drop_last(), q).push(vs.last())
    } else {
        matching(vs.drop_last(), q)
    }
}

/// The query is too long: its trimmed text takes more than
/// [`MAX_QUERY_LEN`] bytes of UTF-8.
pub open spec fn too_long(query: Seq<char>) -> bool {
    vstd::utf8::encode_utf8(trimmed(query)).len() > MAX_QUERY_LEN
}

/// What a search for `query` answers: the refusal for a query that is too
/// long, else the vessels that answer the trimmed query.
pub open spec fn search_result(query: Seq<char>) -> Result<Seq<VesselView>, QueryTooLong> {
    if too_long(query) {
        Err(QueryTooLong)
    } else {
        Ok(matching(seed_vessels(), trimmed(query)))
    }
}

/// A name's characters as the row id spells them: ASCII capitals in lower
/// case and spaces as hyphens.
pub open spec fn id_char(c: char) -> char {
    if c == ' ' {
        '-'
    } else if 'A' <= c && c <= 'Z' {
        ((c as u32) + 32) as char
    } else {
        c
    }
}

/// The element id of a vessel's result row.
pub open spec fn vessel_id(name: Seq<char>) -> Seq<char> {
    "vessel-"@ + name.map_values(|c: char| id_char(c))
}

/// The vessels the marina knows, in display order.
pub fn vessels() -> (v: Vec<Vessel>)
    ensures
        vessel_views(v@) == seed_vessels(),
{
    let v = vec![
        Vessel { name: "Lady Jane", berth: "A1" },
        Vessel { name: "Sea Urchin", berth: "C3" },
        Vessel { name: "Morning Star", berth: "Visitors" },
        Vessel { name: "Blue Moon", berth: "Yard" },
    ];
    assert(vessel_views(v@) =~= seed_vessels());
    v
}

/// The search both transports run. The query is trimmed; a trimmed query of
/// more than [`MAX_QUERY_LEN`] bytes is refused, and otherwise the result
/// is every vessel (in order) whose name contains the trimmed query, which
/// is every vessel when the query is empty.
pub fn search_vessels(query: &str) -> (r: Result<Vec<Vessel>, QueryTooLong>)
    ensures
        search_result(query@) == match r {
            Ok(v) => Ok(vessel_views(v@)),
            Err(e) => Err(e),
        },
{
    let q = trim(query);
    if q.as_bytes().len() > MAX_QUERY_LEN {
        return Err(QueryTooLong);
    }
    let wanted = chars_of(q);
    let every_vessel = q.is_empty();
    let all = vessels();
    let mut found: Vec<Vessel> = Vec::new();
    let mut i: usize = 0;
    while i < all.len()
        invariant
            i <= all.len(),
            wanted@ == trimmed(query@),
            every_vessel == (wanted@.len() == 0),
            vessel_views(all@) == seed_vessels(),
            vessel_views(found@) == matching(seed_vessels().take(i as int), wanted@),
        decreases all.len() - i,
    {
        let v = all[i];
        let name = chars_of(v.name);
        assert(seed_vessels().take(i + 1).drop_last() =~= seed_vessels().take(i as int));
        assert(seed_vessels().take(i + 1).last() == v@);
        if every_vessel || contains(&name, &wanted) {
            found.push(v);
            assert(vessel_views(found@) =~= vessel_views(found@.drop_last()).push(v@));
        }
        i = i + 1;
    }
    assert(seed_vessels().take(all.len() as int) =~= seed_vessels());
    Ok(found)
}

/// The id character for `c`.
fn id_char_of(c: char) -> (d: char)
    ensures
        d == id_char(c),
{
    if c == ' ' {
        '-'
    } else if 'A' <= c && c <= 'Z' {
        ((c as u8) + 32) as char
    } else {
        c
    }
}

/// The stable element id of a vessel's result row: `vessel-` followed by
/// its name in ASCII lower case, with hyphens for spaces.
pub fn vessel_dom_id(name: &str) -> (id: String)
    ensures
        id@ == vessel_id(name@),
{
    let chars = chars_of(name);
    let mut id = String::from_str("vessel-");
    let mut i: usize = 0;
    while i < chars.len()
        invariant
            i <= chars.len(),
            chars@ == name@,
            id@ == "vessel-"@ + name@.take(i as int).map_values(|c: char| id_char(c)),
        decreases chars.len() - i,
    {
        push_char(&mut id, id_char_of(chars[i]));
        assert(name@.take(i + 1).map_values(|c: char| id_char(c)) =~= name@.take(
            i as int,
        ).map_values(|c: char| id_char(c)).push(id_char(chars@[i as int])));
        i = i + 1;
    }
    assert(name@.take(chars.len() as int) =~= name@);
    id
}

/// An element of `s` pushed with `x` is one of `s` or `x` itself.
proof fn lemma_push_contains(s: Seq<VesselView>, x: VesselView, v: VesselView)
    ensures
        s.push(x).contains(v) <==> (s.contains(v) || v == x),
{
    if s.push(x).contains(v) {
        let i = choose|i: int| 0 <= i < s.len() + 1 && s.push(x)[i] == v;
        if i < s.len() {
            assert(s[i] == v);
        }
    }
    if s.contains(v) {
        let i = choose|i: int| 0 <= i < s.len() && s[i] == v;
        assert(s.push(x)[i] == v);
    }
    assert(s.push(x)[s.len() as int] == x);
}

/// The search answers exactly the vessels whose names contain the query:
/// every vessel it returns answers the query, and every vessel that
/// answers it is returned.
pub proof fn lemma_matching_exact(vs: Seq<VesselView>, q: Seq<char>)
    ensures
        forall|v: VesselView| #[trigger]
            matching(vs, q).contains(v) <==> (vs.contains(v) && answers(v, q)),
    decreases vs.len(),
{
    if vs.len() > 0 {
        let front = vs.drop_last();
        let last = vs.last();
        lemma_matching_exact(front, q);
        assert(vs =~= front.push(last));
        assert(matching(vs, q) == if answers(last, q) {
            matching(front, q).push(last)
        } else {
            matching(front, q)
        });
        assert forall|v: VesselView| #[trigger]
            matching(vs, q).contains(v) <==> (vs.contains(v) && answers(v, q)) by {
            lemma_push_contains(front, last, v);
            if answers(last, q) {
                lemma_push_contains(matching(front, q), last, v);
            }
        }
    }
}

/// A query that occurs in another at `j`, where that one occurs in `s` at
/// `i`, occurs in `s` at `i + j`.
proof fn lemma_occurs_within(s: Seq<char>, outer: Seq<char>, inner: Seq<char>, i: int, j: int)
    requires
        crate::text::occurs_at(s, outer, i),
        crate::text::occurs_at(outer, inner, j),
    ensures
        crate::text::occurs_at(s, inner, i + j),
{
    assert forall|k: int| 0 <= k < inner.len() implies s.subrange(i + j, i + j + inner.len())[k]
        == inner[k] by {
        assert(outer.subrange(j, j + inner.len())[k] == outer[j + k]);
        assert(s.subrange(i, i + outer.len())[j + k] == s[i + j + k]);
    }
    assert(s.subrange(i + j, i + j + inner.len()) =~= inner);
}

/// Containment of text is transitive.
pub proof fn lemma_infix_transitive(s: Seq<char>, outer: Seq<char>, inner: Seq<char>)
    requires
        has_infix(s, outer),
        has_infix(outer, inner),
    ensures
        has_infix(s, inner),
{
    let i = choose|i: int| crate::text::occurs_at(s, outer, i);
    let j = choose|j: int| crate::text::occurs_at(outer, inner, j);
    lemma_occurs_within(s, outer, inner, i, j);
}

/// The UTF-8 encoding of joined text is the encodings joined.
proof fn lemma_encode_concat(a: Seq<char>, b: Seq<char>)
    ensures
        vstd::utf8::encode_utf8(a + b) == vstd::utf8::encode_utf8(a) + vstd::utf8::encode_utf8(b),
    decreases a.len(),
{
    if a.len() > 0 {
        assert((a + b).drop_first() =~= a.drop_first() + b);
        assert((a + b)[0] == a[0]);
        lemma_encode_concat(a.drop_first(), b);
    } else {
        assert(a + b =~= b);
    }
}

/// Text contained in other text takes no more bytes of UTF-8.
proof fn lemma_infix_bytes(outer: Seq<char>, inner: Seq<char>)
    requires
        has_infix(outer, inner),
    ensures
        vstd::utf8::encode_utf8(inner).len() <= vstd::utf8::encode_utf8(outer).len(),
{
    let j = choose|j: int| crate::text::occurs_at(outer, inner, j);
    let before = outer.subrange(0, j);
    let after = outer.subrange(j + inner.len(), outer.len() as int);
    assert(outer =~= before + inner + after);
    lemma_encode_concat(before + inner, after);
    lemma_encode_concat(before, inner);
}

/// Narrowing a search never adds results: when the trimmed text of one
/// query contains the trimmed text of another and is accepted, the other
/// is accepted too, and every vessel the narrower query returns is also
/// returned by the wider one.
pub proof fn lemma_narrowing_never_adds(wide: Seq<char>, narrow: Seq<char>)
    requires
        !too_long(narrow),
        has_infix(trimmed(narrow), trimmed(wide)),
    ensures
        !too_long(wide),
        forall|v: VesselView|
            #[trigger] matching(seed_vessels(), trimmed(narrow)).contains(v) ==> matching(
                seed_vessels(),
                trimmed(wide),
            ).contains(v),
{
    let t1 = trimmed(wide);
    let t2 = trimmed(narrow);
    lemma_infix_bytes(t2, t1);
    lemma_matching_exact(seed_vessels(), t1);
    lemma_matching_exact(seed_vessels(), t2);
    assert forall|v: VesselView| #[trigger]
        matching(seed_vessels(), t2).contains(v) implies matching(seed_vessels(), t1).contains(
        v,
    ) by {
        if t2.len() == 0 {
            let j = choose|j: int| crate::text::occurs_at(t2, t1, j);
            assert(t1.len() == 0);
        } else if t1.len() != 0 {
            lemma_infix_transitive(v.name, t2, t1);
        }
    }
}

/// An empty query lists every vessel, in order.
pub proof fn lemma_empty_query_lists_all(vs: Seq<VesselView>)
    ensures
        matching(vs, Seq::empty()) == vs,
    decreases vs.len(),
{
    if vs.len() > 0 {
        lemma_empty_query_lists_all(vs.drop_last());
        assert(vs.drop_last().push(vs.last()) =~= vs);
    }
}

/// Every vessel's result row has its own id, so a re-render can follow each
/// row.
pub proof fn lemma_vessel_ids_distinct(i: int, j: int)
    requires
        0 <= i < seed_vessels().len(),
        0 <= j < seed_vessels().len(),
        i != j,
    ensures
        vessel_id(seed_vessels()[i].name) != vessel_id(seed_vessels()[j].name),
{
    reveal_strlit("Lady Jane");
    reveal_strlit("Sea Urchin");
    reveal_strlit("Morning Star");
    reveal_strlit("Blue Moon");
    reveal_strlit("vessel-");
    let a = vessel_id(seed_vessels()[i].name);
    let b = vessel_id(seed_vessels()[j].name);
    assert(a[7] == id_char(seed_vessels()[i].name[0]));
    assert(b[7] == id_char(seed_vessels()[j].name[0]));
    assert(a[7] != b[7]);
}

/// What a search answers, in terms of the query text itself: a query whose
/// trimmed text takes more than 80 bytes of UTF-8 is refused; any other
/// returns a vessel of the list exactly when the trimmed query is empty or
/// occurs in the vessel's name.
pub proof fn lemma_search_answers_containing(query: Seq<char>, v: VesselView)
    ensures
        search_result(query) is Err <==> vstd::utf8::encode_utf8(trimmed(query)).len() > 80,
        search_result(query) matches Ok(found) ==> (found.contains(v) <==> (
        seed_vessels().contains(v) && (trimmed(query).len() == 0 || has_infix(
            v.name,
            trimmed(query),
        )))),
{
    lemma_matching_exact(seed_vessels(), trimmed(query));
}

/// The search page that the htmx fragment route belongs to.
pub const HTMX_SEARCH_PAGE: &'static str = "/vessels/htmx";

/// What the htmx fragment route answers.
pub enum HtmxSearch {
    /// The request did not come from htmx: send the visitor to the search
    /// page instead.
    Redirect,
    /// The query is too long: report it in the alert region.
    TooLong,
    /// Render the matches, push `pushed_url` into the address bar and
    /// announce `count` matches.
    Found { pushed_url: String, count: usize },
}

/// The address a search for `query` is pushed to: the htmx search page with
/// the encoded query.
pub open spec fn pushed_search_url(query: &str) -> Seq<char> {
    "/vessels/htmx?q="@ + form_encoded(query.spec_bytes())
}

/// The search text as both transports read it: trimmed of white space.
pub fn normalized_query(query: &str) -> (q: &str)
    ensures
        q@ == trimmed(query@),
{
    trim(query)
}

/// What the htmx fragment route answers for a request: a request not made
/// by htmx is redirected; a query that is too long is reported; otherwise
/// the matches are rendered, the raw query is pushed, encoded, into the
/// address bar, and the number of matches is announced.
pub fn htmx_search(hx_request: bool, query: &str) -> (r: HtmxSearch)
    ensures
        match r {
            HtmxSearch::Redirect => !hx_request,
            HtmxSearch::TooLong => hx_request && too_long(query@),
            HtmxSearch::Found { pushed_url, count } => {
                &&& hx_request
                &&& !too_long(query@)
                &&& pushed_url@ == pushed_search_url(query)
                &&& count == matching(seed_vessels(), trimmed(query@)).len()
            },
        },
{
    if !hx_request {
        return HtmxSearch::Redirect;
    }
    match search_vessels(query) {
        Err(_) => HtmxSearch::TooLong,
        Ok(matches) => {
            let mut pushed_url = String::from_str("/vessels/htmx?q=");
            pushed_url.append(urlencode(query).as_str());
            HtmxSearch::Found { pushed_url, count: matches.len() }
        },
    }
}

} // verus!
