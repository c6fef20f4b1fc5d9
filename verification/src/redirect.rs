//! Where a signed-in visitor is sent back to: the page remembered when a
//! protected page turned them away, accepted only when it is a path on this
//! site.
use vstd::prelude::*;

use crate::text::{chars_of, contains, has_infix, has_prefix, starts_with};

verus! {

/// The cookie that remembers the page to return to after signing in.
pub const RETURN_TO_COOKIE: &'static str = "return_to";

/// Where a visitor goes after signing in when no usable page was remembered.
pub const DEFAULT_RETURN_TO: &'static str = "/admin";

/// A return-to target is safe when it is a path on this site: it starts
/// with `/`, not with `//` (another host), and holds no backslash and no
/// `..`.
pub open spec fn is_local_path(s: Seq<char>) -> bool {
    &&& has_prefix(s, "/"@)
    &&& !has_prefix(s, "//"@)
    &&& !has_infix(s, "\\"@)
    &&& !has_infix(s, ".."@)
}

/// The page a visitor is sent to for a remembered target.
pub open spec fn return_target(remembered: Option<Seq<char>>) -> Seq<char> {
    match remembered {
        Some(s) => if is_local_path(s) {
            s
        } else {
            DEFAULT_RETURN_TO@
        },
        None => DEFAULT_RETURN_TO@,
    }
}

/// The page to send a visitor to after signing in: the remembered target
/// when it is a local path, `/admin` otherwise.
pub fn validated_return_to(return_to: Option<String>) -> (target: String)
    ensures
        target@ == return_target(
            match return_to {
                Some(s) => Some(s@),
                None => None,
            },
        ),
{
    match return_to {
        Some(value) => {
            if is_local(&value) {
                value
            } else {
                String::from_str(DEFAULT_RETURN_TO)
            }
        },
        None => String::from_str(DEFAULT_RETURN_TO),
    }
}

/// Whether `value` is a local path.
fn is_local(value: &String) -> (r: bool)
    ensures
        r == is_local_path(value@),
{
    let chars = chars_of(value.as_str());
    let slash = chars_of("/");
    let double_slash = chars_of("//");
    let backslash = chars_of("\\");
    let dot_dot = chars_of("..");
    starts_with(&chars, &slash) && !starts_with(&chars, &double_slash) && !contains(
        &chars,
        &backslash,
    ) && !contains(&chars, &dot_dot)
}

/// What a protected page remembers as the place to come back to: for a
/// `GET` or `HEAD` request, its path and query (`/` when it has none);
/// nothing for any other method.
pub fn return_to_for_request(is_get_or_head: bool, path_and_query: Option<&str>) -> (r: Option<
    String,
>)
    ensures
        match r {
            Some(s) => is_get_or_head && s@ == match path_and_query {
                Some(p) => p@,
                None => "/"@,
            },
            None => !is_get_or_head,
        },
{
    if !is_get_or_head {
        return None;
    }
    match path_and_query {
        Some(p) => Some(String::from_str(p)),
        None => Some(String::from_str("/")),
    }
}

/// The default target is itself a local path.
proof fn lemma_default_is_local()
    ensures
        is_local_path(DEFAULT_RETURN_TO@),
{
    reveal_strlit("/admin");
    reveal_strlit("/");
    reveal_strlit("//");
    reveal_strlit("\\");
    reveal_strlit("..");
    let s = DEFAULT_RETURN_TO@;
    assert(s.subrange(0, 1) =~= "/"@);
    assert(s.subrange(0, 2) != "//"@) by {
        assert(s.subrange(0, 2)[1] == 'a');
    }
    assert forall|i: int| !crate::text::occurs_at(s, "\\"@, i) by {
        if crate::text::occurs_at(s, "\\"@, i) {
            assert(s.subrange(i, i + 1)[0] == s[i]);
        }
    }
    assert forall|i: int| !crate::text::occurs_at(s, ".."@, i) by {
        if crate::text::occurs_at(s, ".."@, i) {
            assert(s.subrange(i, i + 2)[0] == s[i]);
        }
    }
}

/// Whatever was remembered, the visitor is sent to a path on this site:
/// the target never names another host, holds no backslash and no `..`.
pub proof fn lemma_return_target_is_local(remembered: Option<Seq<char>>)
    ensures
        is_local_path(return_target(remembered)),
{
    lemma_default_is_local();
}

/// Validating a target twice changes nothing: a target that passed is
/// passed on unchanged.
pub proof fn lemma_return_target_idempotent(remembered: Option<Seq<char>>)
    ensures
        return_target(Some(return_target(remembered))) == return_target(remembered),
{
    lemma_default_is_local();
}

} // verus!
