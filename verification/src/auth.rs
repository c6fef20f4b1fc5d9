//! The marina's sign-in state: the session records kept per session-token
//! hash, the single-use magic links that sign a visitor in, and the work
//! orders marked complete.
//!
//! Instants are signed nanoseconds from the UNIX epoch; a session or link whose
//! expiry is at or before the current instant is no longer valid.
use vstd::hash_map::StringHashMap;
use vstd::hash_set::StringHashSet;
use vstd::prelude::*;

use crate::clock::{is_clock_reading, max_instant, now};
use crate::text::{decimal, push_decimal};

verus! {

/// How long a magic link stays valid: fifteen minutes, in nanoseconds.
pub const MAGIC_LINK_LIFETIME: i128 = 900_000_000_000;

/// The hash that identifies a session (the SHA-256 of its token).
pub type TokenHash = [u8; 32];

/// What the site records about a signed-in session.
pub struct SessionRecord {
    pub email: String,
    pub expires_at: i128,
}

/// A magic link waiting to be used.
pub struct MagicLink {
    pub email: String,
    pub expires_at: i128,
}

/// A session record or magic link as plain values.
pub struct Grant {
    pub email: Seq<char>,
    pub expires_at: i128,
}

impl View for SessionRecord {
    type V = Grant;

    open spec fn view(&self) -> Grant {
        Grant { email: self.email@, expires_at: self.expires_at }
    }
}

impl View for MagicLink {
    type V = Grant;

    open spec fn view(&self) -> Grant {
        Grant { email: self.email@, expires_at: self.expires_at }
    }
}

/// One session record and the hash it is kept under.
struct SessionEntry {
    token_hash: TokenHash,
    record: SessionRecord,
}

/// The sign-in state as plain values.
pub struct AppStateView {
    /// Session records by token hash.
    pub sessions: Map<Seq<u8>, Grant>,
    /// Unused magic links by token.
    pub magic_links: Map<Seq<char>, Grant>,
    /// The ids of the work orders marked complete.
    pub completed_work_orders: Set<Seq<char>>,
    /// The number the next magic link's token is made from.
    pub next_magic_link: usize,
}

/// The site's sign-in state.
pub struct AppState {
    sessions: Vec<SessionEntry>,
    magic_links: StringHashMap<MagicLink>,
    completed_work_orders: StringHashSet,
    next_magic_link: usize,
}

/// No hash is held by two entries.
spec fn hashes_distinct(entries: Seq<SessionEntry>) -> bool {
    forall|i: int, j: int|
        0 <= i < entries.len() && 0 <= j < entries.len() && i != j ==> entries[i].token_hash@
            != entries[j].token_hash@
}

/// The session records of a list of entries, by hash.
spec fn entry_map(entries: Seq<SessionEntry>) -> Map<Seq<u8>, Grant> {
    Map::new(
        |h: Seq<u8>| exists|i: int| 0 <= i < entries.len() && entries[i].token_hash@ == h,
        |h: Seq<u8>|
            entries[choose|i: int| 0 <= i < entries.len() && entries[i].token_hash@ == h].record@,
    )
}

/// The token of the magic link made from the number `n`.
pub open spec fn magic_token(n: usize) -> Seq<char> {
    "magic-"@ + decimal(n as nat)
}

/// The state with a session record for `hash` (replacing any earlier one).
pub open spec fn with_session(s: AppStateView, hash: Seq<u8>, record: Grant) -> AppStateView {
    AppStateView { sessions: s.sessions.insert(hash, record), ..s }
}

/// The state without a session record for `hash`.
pub open spec fn without_session(s: AppStateView, hash: Seq<u8>) -> AppStateView {
    AppStateView { sessions: s.sessions.remove(hash), ..s }
}

/// Looking up the email of the session `hash` at instant `now`: a record
/// that has expired is dropped and yields nothing.
pub open spec fn session_lookup(s: AppStateView, hash: Seq<u8>, now: i128) -> (
    AppStateView,
    Option<Seq<char>>,
) {
    if !s.sessions.contains_key(hash) {
        (s, None)
    } else if s.sessions[hash].expires_at <= now {
        (without_session(s, hash), None)
    } else {
        (s, Some(s.sessions[hash].email))
    }
}

/// The state with the expiry of session `hash` moved to `expires_at`, when
/// there is such a session.
pub open spec fn with_expiry(s: AppStateView, hash: Seq<u8>, expires_at: i128) -> AppStateView {
    if s.sessions.contains_key(hash) {
        with_session(s, hash, Grant { expires_at, ..s.sessions[hash] })
    } else {
        s
    }
}

/// Rotating session `revoked` to `hash` at instant `now`: the old record
/// goes, and the new one carries the old record's email while that was
/// still valid (the empty email otherwise).
pub open spec fn rotated(
    s: AppStateView,
    revoked: Seq<u8>,
    hash: Seq<u8>,
    expires_at: i128,
    now: i128,
) -> AppStateView {
    let (looked, email) = session_lookup(s, revoked, now);
    let email = match email {
        Some(e) => e,
        None => Seq::empty(),
    };
    with_session(without_session(looked, revoked), hash, Grant { email, expires_at })
}

/// Issuing a magic link for `email` at instant `now`: its token is made from
/// the counter, which moves on (wrapping as the counter does), and it
/// expires [`MAGIC_LINK_LIFETIME`] later.
pub open spec fn issued(s: AppStateView, email: Seq<char>, now: i128) -> (AppStateView, Seq<char>) {
    let token = magic_token(s.next_magic_link);
    (
        AppStateView {
            magic_links: s.magic_links.insert(
                token,
                Grant { email, expires_at: (now + MAGIC_LINK_LIFETIME) as i128 },
            ),
            next_magic_link: if s.next_magic_link == usize::MAX {
                0
            } else {
                (s.next_magic_link + 1) as usize
            },
            ..s
        },
        token,
    )
}

/// Redeeming the magic link `token` at instant `now`: the link is used up
/// whatever happens, and it signs in only while it has not expired.
pub open spec fn redeemed(s: AppStateView, token: Seq<char>, now: i128) -> (
    AppStateView,
    Option<Grant>,
) {
    (
        AppStateView { magic_links: s.magic_links.remove(token), ..s },
        if s.magic_links.contains_key(token) && s.magic_links[token].expires_at > now {
            Some(s.magic_links[token])
        } else {
            None
        },
    )
}

/// Marking work order `id` complete: the answer says whether it was not
/// complete before.
pub open spec fn completed(s: AppStateView, id: Seq<char>) -> (AppStateView, bool) {
    (
        AppStateView { completed_work_orders: s.completed_work_orders.insert(id), ..s },
        !s.completed_work_orders.contains(id),
    )
}

impl View for AppState {
    type V = AppStateView;

    closed spec fn view(&self) -> AppStateView {
        AppStateView {
            sessions: entry_map(self.sessions@),
            magic_links: self.magic_links@.map_values(|l: MagicLink| l@),
            completed_work_orders: self.completed_work_orders@,
            next_magic_link: self.next_magic_link,
        }
    }
}

/// The entry at `i` is what the map holds for its hash.
proof fn lemma_entry_at(entries: Seq<SessionEntry>, i: int)
    requires
        hashes_distinct(entries),
        0 <= i < entries.len(),
    ensures
        entry_map(entries).contains_key(entries[i].token_hash@),
        entry_map(entries)[entries[i].token_hash@] == entries[i].record@,
{
    let h = entries[i].token_hash@;
    assert(entry_map(entries).contains_key(h));
    let j = choose|j: int| 0 <= j < entries.len() && entries[j].token_hash@ == h;
    assert(j == i);
}

/// A hash that no entry holds is not in the map.
proof fn lemma_entry_absent(entries: Seq<SessionEntry>, h: Seq<u8>)
    requires
        forall|i: int| 0 <= i < entries.len() ==> entries[i].token_hash@ != h,
    ensures
        !entry_map(entries).contains_key(h),
{
}

/// Removing the entry at `i` removes its hash from the map and keeps the
/// hashes distinct.
proof fn lemma_entry_remove(entries: Seq<SessionEntry>, i: int)
    requires
        hashes_distinct(entries),
        0 <= i < entries.len(),
    ensures
        hashes_distinct(entries.remove(i)),
        entry_map(entries.remove(i)) == entry_map(entries).remove(entries[i].token_hash@),
{
    let h = entries[i].token_hash@;
    let rest = entries.remove(i);
    assert forall|a: int, b: int|
        0 <= a < rest.len() && 0 <= b < rest.len() && a != b implies rest[a].token_hash@
        != rest[b].token_hash@ by {
        let a2 = if a < i { a } else { a + 1 };
        let b2 = if b < i { b } else { b + 1 };
        assert(rest[a] == entries[a2]);
        assert(rest[b] == entries[b2]);
    }
    assert forall|k: Seq<u8>| #[trigger]
        entry_map(rest).contains_key(k) == entry_map(entries).remove(h).contains_key(k) by {
        if exists|j: int| 0 <= j < rest.len() && rest[j].token_hash@ == k {
            let j = choose|j: int| 0 <= j < rest.len() && rest[j].token_hash@ == k;
            let j2 = if j < i { j } else { j + 1 };
            assert(rest[j] == entries[j2]);
            assert(j2 != i);
        }
        if k != h && exists|j: int| 0 <= j < entries.len() && entries[j].token_hash@ == k {
            let j = choose|j: int| 0 <= j < entries.len() && entries[j].token_hash@ == k;
            assert(j != i);
            let j2 = if j < i { j } else { j - 1 };
            assert(rest[j2] == entries[j]);
        }
    }
    assert forall|k: Seq<u8>| #[trigger]
        entry_map(rest).contains_key(k) implies entry_map(rest)[k] == entry_map(entries)[k] by {
        let j = choose|j: int| 0 <= j < rest.len() && rest[j].token_hash@ == k;
        let j2 = if j < i { j } else { j + 1 };
        assert(rest[j] == entries[j2]);
        lemma_entry_at(entries, j2);
    }
    assert(entry_map(rest) =~= entry_map(entries).remove(h));
}

/// A magic link signs its visitor in: redeeming the token of a link issued
/// for `email` at `issued_at`, before fifteen minutes have passed, hands
/// back that address.
pub proof fn lemma_magic_link_signs_in(s: AppStateView, email: Seq<char>, issued_at: i128, at: i128)
    requires
        issued_at + MAGIC_LINK_LIFETIME <= i128::MAX,
        at < issued_at + MAGIC_LINK_LIFETIME,
    ensures
        ({
            let (after, token) = issued(s, email, issued_at);
            let (_, link) = redeemed(after, token, at);
            link matches Some(g) && g.email == email
        }),
{
}

/// A magic link works once: after its token has been redeemed, redeeming
/// it again signs nobody in, whenever that is tried.
pub proof fn lemma_magic_link_single_use(s: AppStateView, token: Seq<char>, first: i128, second: i128)
    ensures
        redeemed(redeemed(s, token, first).0, token, second).1 is None,
{
}

/// An expired magic link signs nobody in.
pub proof fn lemma_expired_magic_link_refused(s: AppStateView, token: Seq<char>, at: i128)
    requires
        s.magic_links.contains_key(token),
        s.magic_links[token].expires_at <= at,
    ensures
        redeemed(s, token, at).1 is None,
{
}

/// Links issued from different counter values have different tokens, so a
/// new link never takes over an unused one while the counter has not come
/// round again.
pub proof fn lemma_magic_tokens_distinct(a: usize, b: usize)
    requires
        a != b,
    ensures
        magic_token(a) != magic_token(b),
{
    if magic_token(a) == magic_token(b) {
        let prefix = "magic-"@;
        assert(magic_token(a).subrange(prefix.len() as int, magic_token(a).len() as int) =~= decimal(a as nat));
        assert(magic_token(b).subrange(prefix.len() as int, magic_token(b).len() as int) =~= decimal(b as nat));
        crate::text::lemma_decimal_injective(a as nat, b as nat);
    }
}

/// A recorded session identifies its visitor until it expires: looking it
/// up before its expiry yields its email and changes nothing.
pub proof fn lemma_session_signs_in(s: AppStateView, hash: Seq<u8>, record: Grant, at: i128)
    requires
        at < record.expires_at,
    ensures
        session_lookup(with_session(s, hash, record), hash, at) == (
            with_session(s, hash, record),
            Some(record.email),
        ),
{
}

/// Signing out ends a session: once its record is removed, looking it up
/// yields nobody.
pub proof fn lemma_sign_out_ends_session(s: AppStateView, hash: Seq<u8>, at: i128)
    ensures
        session_lookup(without_session(s, hash), hash, at).1 is None,
{
}

/// An expired session is forgotten: looking it up yields nobody and drops
/// its record, so it stays signed out.
pub proof fn lemma_expired_session_forgotten(s: AppStateView, hash: Seq<u8>, at: i128, later: i128)
    requires
        s.sessions.contains_key(hash),
        s.sessions[hash].expires_at <= at,
    ensures
        session_lookup(s, hash, at).1 is None,
        !session_lookup(s, hash, at).0.sessions.contains_key(hash),
        session_lookup(session_lookup(s, hash, at).0, hash, later).1 is None,
{
}

/// Rotation keeps the visitor signed in under the new token and revokes the
/// old one.
pub proof fn lemma_rotation_moves_session(
    s: AppStateView,
    revoked: Seq<u8>,
    hash: Seq<u8>,
    expires_at: i128,
    at: i128,
    later: i128,
)
    requires
        s.sessions.contains_key(revoked),
        at < s.sessions[revoked].expires_at,
        revoked != hash,
        later < expires_at,
    ensures
        session_lookup(rotated(s, revoked, hash, expires_at, at), hash, later).1 == Some(
            s.sessions[revoked].email,
        ),
        session_lookup(rotated(s, revoked, hash, expires_at, at), revoked, later).1 is None,
{
}

/// Marking a work order complete sticks: it is complete afterwards, and
/// marking it again reports that nothing changed.
pub proof fn lemma_completion_persists(s: AppStateView, id: Seq<char>)
    ensures
        completed(s, id).0.completed_work_orders.contains(id),
        completed(completed(s, id).0, id).1 == false,
        completed(completed(s, id).0, id).0 == completed(s, id).0,
{
    assert(completed(completed(s, id).0, id).0.completed_work_orders =~= completed(s, id).0.completed_work_orders);
}

/// Looking up a session answers by its expiry against the instant of the
/// lookup: a session that expires after that instant yields its email and
/// stays; one that expires at or before it yields nobody and is dropped,
/// with every other session kept; an unknown hash yields nobody and changes
/// nothing.
pub proof fn lemma_session_lookup_by_expiry(s: AppStateView, hash: Seq<u8>, at: i128)
    ensures
        s.sessions.contains_key(hash) && at < s.sessions[hash].expires_at ==> {
            &&& session_lookup(s, hash, at).1 == Some(s.sessions[hash].email)
            &&& session_lookup(s, hash, at).0 == s
        },
        s.sessions.contains_key(hash) && s.sessions[hash].expires_at <= at ==> {
            &&& session_lookup(s, hash, at).1 is None
            &&& session_lookup(s, hash, at).0.sessions == s.sessions.remove(hash)
            &&& session_lookup(s, hash, at).0.magic_links == s.magic_links
        },
        !s.sessions.contains_key(hash) ==> session_lookup(s, hash, at) == (s, None::<Seq<char>>),
        forall|other: Seq<u8>|
            other != hash && #[trigger] s.sessions.contains_key(other) ==> session_lookup(
                s,
                hash,
                at,
            ).0.sessions.contains_key(other) && session_lookup(s, hash, at).0.sessions[other]
                == s.sessions[other],
{
}

/// Rotating a session that is still valid at the instant of rotation hands
/// its email to the new token with the new expiry, revokes the old token,
/// and leaves every other session as it was.
pub proof fn lemma_rotation_carries_email(
    s: AppStateView,
    revoked: Seq<u8>,
    hash: Seq<u8>,
    expires_at: i128,
    at: i128,
)
    requires
        s.sessions.contains_key(revoked),
        at < s.sessions[revoked].expires_at,
    ensures
        rotated(s, revoked, hash, expires_at, at).sessions.contains_key(hash),
        rotated(s, revoked, hash, expires_at, at).sessions[hash] == (Grant {
            email: s.sessions[revoked].email,
            expires_at,
        }),
        revoked != hash ==> !rotated(s, revoked, hash, expires_at, at).sessions.contains_key(
            revoked,
        ),
        forall|other: Seq<u8>|
            other != hash && other != revoked && #[trigger] s.sessions.contains_key(other)
                ==> rotated(s, revoked, hash, expires_at, at).sessions.contains_key(other)
                && rotated(s, revoked, hash, expires_at, at).sessions[other] == s.sessions[other],
{
}

/// Redeeming a link hands back the stored link exactly when it is known
/// and expires after the instant of redemption; whatever the answer, the
/// token is used up and every other link stays.
pub proof fn lemma_redeem_by_expiry(s: AppStateView, token: Seq<char>, at: i128)
    ensures
        redeemed(s, token, at).1 is Some <==> (s.magic_links.contains_key(token)
            && at < s.magic_links[token].expires_at),
        redeemed(s, token, at).1 matches Some(g) ==> g == s.magic_links[token],
        !redeemed(s, token, at).0.magic_links.contains_key(token),
        forall|other: Seq<char>|
            other != token && #[trigger] s.magic_links.contains_key(other) ==> redeemed(
                s,
                token,
                at,
            ).0.magic_links.contains_key(other) && redeemed(s, token, at).0.magic_links[other]
                == s.magic_links[other],
        redeemed(s, token, at).0.sessions == s.sessions,
{
}

/// Completing a work order keeps every order already complete, adds the
/// given one and nothing else, answers whether it was new, and touches
/// neither sessions nor links.
pub proof fn lemma_completion_keeps_others(s: AppStateView, id: Seq<char>)
    ensures
        completed(s, id).0.completed_work_orders.contains(id),
        forall|other: Seq<char>| #[trigger]
            s.completed_work_orders.contains(other) ==> completed(
                s,
                id,
            ).0.completed_work_orders.contains(other),
        forall|other: Seq<char>| #[trigger]
            completed(s, id).0.completed_work_orders.contains(other) ==> other == id
                || s.completed_work_orders.contains(other),
        completed(s, id).1 == !s.completed_work_orders.contains(id),
        completed(s, id).0.sessions == s.sessions,
        completed(s, id).0.magic_links == s.magic_links,
{
}

/// Whether two token hashes are equal.
fn same_hash(a: &TokenHash, b: &TokenHash) -> (r: bool)
    ensures
        r == (a@ == b@),
{
    let mut i: usize = 0;
    while i < 32
        invariant
            i <= 32,
            a@.len() == 32,
            b@.len() == 32,
            forall|j: int| 0 <= j < i ==> a@[j] == b@[j],
        decreases 32 - i,
    {
        if a[i] != b[i] {
            return false;
        }
        i = i + 1;
    }
    assert(a@ =~= b@);
    true
}

/// The position of the entry for `hash` in `entries`, if there is one.
fn find_entry(entries: &Vec<SessionEntry>, hash: &TokenHash) -> (r: Option<usize>)
    ensures
        match r {
            Some(i) => i < entries@.len() && entries@[i as int].token_hash@ == hash@,
            None => forall|i: int| 0 <= i < entries@.len() ==> entries@[i].token_hash@ != hash@,
        },
{
    let mut i: usize = 0;
    while i < entries.len()
        invariant
            i <= entries@.len(),
            forall|j: int| 0 <= j < i ==> entries@[j].token_hash@ != hash@,
        decreases entries@.len() - i,
    {
        if same_hash(&entries[i].token_hash, hash) {
            return Some(i);
        }
        i = i + 1;
    }
    None
}

/// Puts `entry` into `entries`, replacing the entry for the same hash.
fn put_entry(entries: &mut Vec<SessionEntry>, entry: SessionEntry)
    requires
        hashes_distinct(old(entries)@),
    ensures
        hashes_distinct(final(entries)@),
        entry_map(final(entries)@) == entry_map(old(entries)@).insert(
            entry.token_hash@,
            entry.record@,
        ),
{
    let ghost old_entries = entries@;
    let token_hash = entry.token_hash;
    let ghost h = token_hash@;
    let ghost g = entry.record@;
    match find_entry(entries, &token_hash) {
        Some(i) => {
            entries.set(i, entry);
            proof {
                let new_entries = entries@;
                assert forall|k: Seq<u8>| #[trigger]
                    entry_map(new_entries).contains_key(k) == entry_map(
                        old_entries,
                    ).insert(h, g).contains_key(k) by {
                    if k != h {
                        if exists|j: int| 0 <= j < old_entries.len() && old_entries[j].token_hash@ == k {
                            let j = choose|j: int| 0 <= j < old_entries.len() && old_entries[j].token_hash@ == k;
                            assert(new_entries[j].token_hash@ == k);
                        }
                        if exists|j: int| 0 <= j < new_entries.len() && new_entries[j].token_hash@ == k {
                            let j = choose|j: int| 0 <= j < new_entries.len() && new_entries[j].token_hash@ == k;
                            assert(old_entries[j].token_hash@ == k);
                        }
                    } else {
                        assert(new_entries[i as int].token_hash@ == k);
                    }
                }
                assert forall|k: Seq<u8>| #[trigger]
                    entry_map(new_entries).contains_key(k) implies entry_map(new_entries)[k]
                    == entry_map(old_entries).insert(h, g)[k] by {
                    let j = choose|j: int| 0 <= j < new_entries.len() && new_entries[j].token_hash@ == k;
                    if k == h {
                        assert(j == i);
                    } else {
                        let j2 = choose|j2: int| 0 <= j2 < old_entries.len() && old_entries[j2].token_hash@ == k;
                        assert(j2 == j);
                    }
                }
                assert(entry_map(new_entries) =~= entry_map(old_entries).insert(h, g));
            }
        },
        None => {
            entries.push(entry);
            proof {
                let new_entries = entries@;
                let last = old_entries.len() as int;
                assert forall|k: Seq<u8>| #[trigger]
                    entry_map(new_entries).contains_key(k) == entry_map(
                        old_entries,
                    ).insert(h, g).contains_key(k) by {
                    if k != h {
                        if exists|j: int| 0 <= j < old_entries.len() && old_entries[j].token_hash@ == k {
                            let j = choose|j: int| 0 <= j < old_entries.len() && old_entries[j].token_hash@ == k;
                            assert(new_entries[j].token_hash@ == k);
                        }
                    } else {
                        assert(new_entries[last].token_hash@ == k);
                    }
                }
                assert forall|k: Seq<u8>| #[trigger]
                    entry_map(new_entries).contains_key(k) implies entry_map(new_entries)[k]
                    == entry_map(old_entries).insert(h, g)[k] by {
                    let j = choose|j: int| 0 <= j < new_entries.len() && new_entries[j].token_hash@ == k;
                    if k == h {
                        assert(j == last);
                    } else {
                        let j2 = choose|j2: int| 0 <= j2 < old_entries.len() && old_entries[j2].token_hash@ == k;
                        assert(new_entries[j2] == old_entries[j2]);
                        assert(j2 == j);
                    }
                }
                assert(entry_map(new_entries) =~= entry_map(old_entries).insert(h, g));
            }
        },
    }
}

impl AppState {
    /// The state is well formed: no session hash is recorded twice.
    #[verifier::type_invariant]
    spec fn inv(self) -> bool {
        hashes_distinct(self.sessions@)
    }

    /// An empty state: no sessions, no links, no completed work orders, and
    /// magic-link numbering starting at 1.
    pub fn new() -> (s: AppState)
        ensures
            s@.sessions == Map::<Seq<u8>, Grant>::empty(),
            s@.magic_links == Map::<Seq<char>, Grant>::empty(),
            s@.completed_work_orders == Set::<Seq<char>>::empty(),
            s@.next_magic_link == 1,
    {
        let s = AppState {
            sessions: Vec::new(),
            magic_links: StringHashMap::new(),
            completed_work_orders: StringHashSet::new(),
            next_magic_link: 1,
        };
        assert(entry_map(s.sessions@) =~= Map::<Seq<u8>, Grant>::empty());
        assert(s.magic_links@.map_values(|l: MagicLink| l@) =~= Map::<Seq<char>, Grant>::empty());
        s
    }

    /// Records a session for `token_hash`, replacing any earlier record for
    /// the same hash.
    pub fn record_session(&mut self, token_hash: TokenHash, expires_at: i128, email: String)
        ensures
            final(self)@ == with_session(
                old(self)@,
                token_hash@,
                Grant { email: email@, expires_at },
            ),
    {
        proof {
            use_type_invariant(&*self);
        }
        let entry = SessionEntry { token_hash, record: SessionRecord { email, expires_at } };
        let mut entries: Vec<SessionEntry> = Vec::new();
        std::mem::swap(&mut entries, &mut self.sessions);
        put_entry(&mut entries, entry);
        self.sessions = entries;
    }

    /// Forgets the session recorded for `hash`, if any.
    pub fn remove_session(&mut self, hash: &TokenHash)
        ensures
            final(self)@ == without_session(old(self)@, hash@),
    {
        proof {
            use_type_invariant(&*self);
        }
        let mut entries: Vec<SessionEntry> = Vec::new();
        std::mem::swap(&mut entries, &mut self.sessions);
        match find_entry(&entries, hash) {
            Some(i) => {
                proof {
                    lemma_entry_remove(entries@, i as int);
                }
                entries.remove(i);
            },
            None => {
                proof {
                    lemma_entry_absent(entries@, hash@);
                    assert(entry_map(entries@).remove(hash@) =~= entry_map(entries@));
                }
            },
        }
        self.sessions = entries;
    }

    /// The email of the session `hash` at instant `now`. A session that has
    /// expired (its expiry is at or before `now`) is forgotten and yields
    /// nothing.
    pub fn current_email_at(&mut self, hash: &TokenHash, now: i128) -> (email: Option<String>)
        ensures
            (final(self)@, match email {
                Some(e) => Some(e@),
                None => None,
            }) == session_lookup(old(self)@, hash@, now),
    {
        proof {
            use_type_invariant(&*self);
        }
        match find_entry(&self.sessions, hash) {
            None => {
                proof {
                    lemma_entry_absent(self.sessions@, hash@);
                }
                None
            },
            Some(i) => {
                proof {
                    lemma_entry_at(self.sessions@, i as int);
                }
                if self.sessions[i].record.expires_at <= now {
                    self.remove_session(hash);
                    None
                } else {
                    Some(self.sessions[i].record.email.clone())
                }
            },
        }
    }

    /// The email of the session `hash` now. A session that has expired is
    /// forgotten and yields nothing; the clock decides which.
    pub fn current_email(&mut self, hash: &TokenHash) -> (email: Option<String>)
        ensures
            exists|t: i128|
                #![trigger session_lookup(old(self)@, hash@, t)]
                -max_instant() <= t <= max_instant() && is_clock_reading(t as int) && (final(self)@, match email {
                    Some(e) => Some(e@),
                    None => None,
                }) == session_lookup(old(self)@, hash@, t),
    {
        proof {
            use_type_invariant(&*self);
        }
        let t = now();
        let email = self.current_email_at(hash, t);
        assert(session_lookup(old(self)@, hash@, t).1 == match email {
            Some(e) => Some(e@),
            None => None,
        });
        email
    }

    /// Moves the expiry of the session `hash` to `expires_at`, when there is
    /// such a session.
    pub fn update_expiry(&mut self, hash: TokenHash, expires_at: i128)
        ensures
            final(self)@ == with_expiry(old(self)@, hash@, expires_at),
    {
        proof {
            use_type_invariant(&*self);
        }
        match find_entry(&self.sessions, &hash) {
            Some(i) => {
                proof {
                    lemma_entry_at(self.sessions@, i as int);
                }
                let email = self.sessions[i].record.email.clone();
                self.record_session(hash, expires_at, email);
            },
            None => {
                proof {
                    lemma_entry_absent(self.sessions@, hash@);
                }
            },
        }
    }

    /// Replaces the session `revoked` by the session `token_hash` at
    /// instant `now`: the new session carries the email the old one had
    /// while it was valid (the empty email otherwise), and the old record
    /// is gone.
    pub fn rotate_session_at(
        &mut self,
        revoked: &TokenHash,
        token_hash: TokenHash,
        expires_at: i128,
        now: i128,
    )
        ensures
            final(self)@ == rotated(old(self)@, revoked@, token_hash@, expires_at, now),
    {
        proof {
            use_type_invariant(&*self);
        }
        let email = match self.current_email_at(revoked, now) {
            Some(e) => e,
            None => String::new(),
        };
        self.remove_session(revoked);
        self.record_session(token_hash, expires_at, email);
    }

    /// Replaces the session `revoked` by the session `token_hash`, the
    /// clock deciding whether the old session was still valid.
    pub fn rotate_session(&mut self, revoked: &TokenHash, token_hash: TokenHash, expires_at: i128)
        ensures
            exists|t: i128|
                #![trigger rotated(old(self)@, revoked@, token_hash@, expires_at, t)]
                -max_instant() <= t <= max_instant() && is_clock_reading(t as int) && final(self)@ == rotated(
                    old(self)@,
                    revoked@,
                    token_hash@,
                    expires_at,
                    t,
                ),
    {
        proof {
            use_type_invariant(&*self);
        }
        let t = now();
        self.rotate_session_at(revoked, token_hash, expires_at, t);
    }

    /// Issues a magic link for `email` at instant `now` and returns its
    /// token, `magic-` followed by the counter in decimal. The link expires
    /// fifteen minutes after `now`.
    pub fn new_magic_link_at(&mut self, email: String, now: i128) -> (token: String)
        requires
            now <= max_instant(),
        ensures
            (final(self)@, token@) == issued(old(self)@, email@, now),
    {
        proof {
            use_type_invariant(&*self);
        }
        let id = self.next_magic_link;
        self.next_magic_link = id.wrapping_add(1);
        let mut token = String::from_str("magic-");
        push_decimal(&mut token, id as u64);
        let link = MagicLink { email, expires_at: now + MAGIC_LINK_LIFETIME };
        let mut links: StringHashMap<MagicLink> = StringHashMap::new();
        std::mem::swap(&mut links, &mut self.magic_links);
        links.insert(token.clone(), link);
        self.magic_links = links;
        proof {
            assert(self.magic_links@.map_values(|l: MagicLink| l@) =~= old(self)@.magic_links.insert(
                token@,
                link@,
            ));
        }
        token
    }

    /// Issues a magic link for `email` now and returns its token.
    pub fn new_magic_link(&mut self, email: String) -> (token: String)
        ensures
            exists|t: i128|
                #![trigger issued(old(self)@, email@, t)]
                -max_instant() <= t <= max_instant() && is_clock_reading(t as int) && (final(self)@, token@) == issued(old(self)@, email@, t),
    {
        proof {
            use_type_invariant(&*self);
        }
        let t = now();
        self.new_magic_link_at(email, t)
    }

    /// Redeems the magic link `token` at instant `now`. The link is used up
    /// whether or not it is still valid; it is handed back only when its
    /// expiry is after `now`.
    pub fn consume_magic_link_at(&mut self, token: &str, now: i128) -> (link: Option<MagicLink>)
        ensures
            (final(self)@, match link {
                Some(l) => Some(l@),
                None => None,
            }) == redeemed(old(self)@, token@, now),
    {
        proof {
            use_type_invariant(&*self);
        }
        let found = match self.magic_links.get(token) {
            Some(l) => Some(MagicLink { email: l.email.clone(), expires_at: l.expires_at }),
            None => None,
        };
        let mut links: StringHashMap<MagicLink> = StringHashMap::new();
        std::mem::swap(&mut links, &mut self.magic_links);
        links.remove(token);
        self.magic_links = links;
        proof {
            assert(self.magic_links@.map_values(|l: MagicLink| l@) =~= old(
                self,
            )@.magic_links.remove(token@));
        }
        match found {
            Some(l) => {
                if l.expires_at > now {
                    Some(l)
                } else {
                    None
                }
            },
            None => None,
        }
    }

    /// Redeems the magic link `token` now; the clock decides whether it is
    /// still valid.
    pub fn consume_magic_link(&mut self, token: &str) -> (link: Option<MagicLink>)
        ensures
            exists|t: i128|
                #![trigger redeemed(old(self)@, token@, t)]
                -max_instant() <= t <= max_instant() && is_clock_reading(t as int) && (final(self)@, match link {
                    Some(l) => Some(l@),
                    None => None,
                }) == redeemed(old(self)@, token@, t),
    {
        proof {
            use_type_invariant(&*self);
        }
        let t = now();
        let link = self.consume_magic_link_at(token, t);
        assert(redeemed(old(self)@, token@, t).1 == match link {
            Some(l) => Some(l@),
            None => None,
        });
        link
    }

    /// Marks work order `id` complete; answers whether it was not complete
    /// already.
    pub fn complete_work_order(&mut self, id: &str) -> (newly: bool)
        ensures
            (final(self)@, newly) == completed(old(self)@, id@),
    {
        proof {
            use_type_invariant(&*self);
        }
        let mut done = StringHashSet::new();
        std::mem::swap(&mut done, &mut self.completed_work_orders);
        let newly = done.insert(String::from_str(id));
        self.completed_work_orders = done;
        newly
    }

    /// Whether work order `id` has been marked complete.
    pub fn work_order_is_complete(&self, id: &str) -> (done: bool)
        ensures
            done == self@.completed_work_orders.contains(id@),
    {
        self.completed_work_orders.contains(id)
    }
}

impl Default for AppState {
    /// An empty state, as [`AppState::new`] makes it.
    fn default() -> (s: AppState)
        ensures
            s@.sessions == Map::<Seq<u8>, Grant>::empty(),
            s@.magic_links == Map::<Seq<char>, Grant>::empty(),
            s@.completed_work_orders == Set::<Seq<char>>::empty(),
            s@.next_magic_link == 1,
    {
        AppState::new()
    }
}

} // verus!
