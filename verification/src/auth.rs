//! Who may ask for a signature: tokens, key allowlists and address allowlists.

use crate::config::AuthView;
use crate::hsm::HsmBackend;
use crate::net;
use crate::net::{any_covers, IpAddr};
use crate::state::AppState;
use crate::string_map;
use crate::text;
use crate::text::{same, strip_prefix};
use vstd::prelude::*;

verus! {

/// The caller that a token belongs to.
pub open spec fn token_owner(auth: AuthView, token: Option<Seq<char>>) -> Option<Seq<char>> {
    match token {
        Some(token) => string_map::lookup(auth.tokens, token),
        None => None,
    }
}

/// Is the caller who they say they are?
pub open spec fn caller_ok(auth: AuthView, caller: Seq<char>, token: Option<Seq<char>>) -> bool {
    auth.allow_all || token_owner(auth, token) == Some(caller)
}

/// May the caller use the key?
pub open spec fn key_ok(auth: AuthView, caller: Seq<char>, key: Seq<char>) -> bool {
    auth.allow_all || match string_map::lookup(auth.allowed_keys, caller) {
        Some(keys) => keys.contains(key),
        None => true,
    }
}

/// May the caller connect from the address?
pub open spec fn ip_ok(auth: AuthView, caller: Seq<char>, ip: IpAddr) -> bool {
    auth.allow_all || match string_map::lookup(auth.allowed_ips, caller) {
        Some(patterns) => net::covered(patterns, ip),
        None => true,
    }
}

/// The token in an `Authorization` header.
pub open spec fn bearer(header: Option<Seq<char>>) -> Option<Seq<char>> {
    match header {
        Some(header) => text::without_prefix(header, "Bearer "@),
        None => None,
    }
}

/// Is the caller who they say they are? The token must be theirs.
pub fn check_caller<B: HsmBackend>(state: &AppState<B>, caller_id: &str, token: Option<&str>) -> (r:
    bool)
    ensures
        r == caller_ok(state.config.auth@, caller_id@, text::option_view(token)),
{
    let auth = &state.config.auth;
    if auth.allow_all {
        return true;
    }
    match token {
        Some(token) => match auth.tokens.get(token) {
            Some(owner) => same(owner.as_str(), caller_id),
            None => false,
        },
        None => false,
    }
}

/// May the caller use the key? A caller without an entry in `allowed_keys` may use every key.
pub fn check_key_allowed<B: HsmBackend>(state: &AppState<B>, caller_id: &str, key_id: &str) -> (r:
    bool)
    ensures
        r == key_ok(state.config.auth@, caller_id@, key_id@),
{
    let auth = &state.config.auth;
    if auth.allow_all {
        return true;
    }
    match auth.allowed_keys.get(caller_id) {
        Some(keys) => names(keys, key_id),
        None => true,
    }
}

/// Is the text one of those in the list?
fn names(list: &Vec<String>, text: &str) -> (r: bool)
    ensures
        r == list.deep_view().contains(text@),
{
    let ghost all = list.deep_view();
    let mut i: usize = 0;
    while i < list.len()
        invariant
            i <= list.len(),
            all == list.deep_view(),
            forall|j: int| 0 <= j < i ==> #[trigger] all[j] != text@,
        decreases list.len() - i,
    {
        if same(list[i].as_str(), text) {
            proof {
                assert(all[i as int] == text@);
            }
            return true;
        }
        i = i + 1;
    }
    false
}

/// May the caller connect from the address? The entries are addresses or address ranges. A caller
/// without an entry in `allowed_ips` may connect from everywhere.
pub fn check_ip_allowed<B: HsmBackend>(state: &AppState<B>, caller_id: &str, ip: IpAddr) -> (r:
    bool)
    ensures
        r == ip_ok(state.config.auth@, caller_id@, ip),
{
    let auth = &state.config.auth;
    if auth.allow_all {
        return true;
    }
    match auth.allowed_ips.get(caller_id) {
        Some(patterns) => any_covers(patterns, ip),
        None => true,
    }
}

/// The token in an `Authorization` header.
pub fn extract_bearer<'a>(header: Option<&'a str>) -> (r: Option<&'a str>)
    ensures
        text::option_view(r) == bearer(text::option_view(header)),
{
    match header {
        Some(header) => strip_prefix(header, "Bearer "),
        None => None,
    }
}

/// Where everybody is allowed, nobody is turned away.
pub proof fn allow_all_admits(
    auth: AuthView,
    caller: Seq<char>,
    token: Option<Seq<char>>,
    key: Seq<char>,
    ip: IpAddr,
)
    requires
        auth.allow_all,
    ensures
        caller_ok(auth, caller, token),
        key_ok(auth, caller, key),
        ip_ok(auth, caller, ip),
{
}

/// A caller without an entry in an allowlist is not restricted by it.
pub proof fn no_entry_no_restriction(auth: AuthView, caller: Seq<char>, key: Seq<char>, ip: IpAddr)
    ensures
        string_map::lookup(auth.allowed_keys, caller) is None ==> key_ok(auth, caller, key),
        string_map::lookup(auth.allowed_ips, caller) is None ==> ip_ok(auth, caller, ip),
{
}

/// A token lets in one caller only.
pub proof fn token_lets_in_one(
    auth: AuthView,
    token: Option<Seq<char>>,
    a: Seq<char>,
    b: Seq<char>,
)
    requires
        !auth.allow_all,
        caller_ok(auth, a, token),
        caller_ok(auth, b, token),
    ensures
        a == b,
{
}

/// A caller is let in with a token of theirs, and only so.
pub proof fn callers_need_their_token(
    auth: AuthView,
    caller: Seq<char>,
    token: Seq<char>,
)
    requires
        !auth.allow_all,
    ensures
        caller_ok(auth, caller, Some(token)) <==> string_map::lookup(auth.tokens, token) == Some(
            caller,
        ),
        !caller_ok(auth, caller, None),
        token_owner(auth, Some(token)) == string_map::lookup(auth.tokens, token),
        token_owner(auth, None) is None,
{
}

/// A caller with a list of keys may use those on it, and no other.
pub proof fn callers_use_the_keys_on_their_list(
    auth: AuthView,
    caller: Seq<char>,
    keys: Seq<Seq<char>>,
    key: Seq<char>,
)
    requires
        !auth.allow_all,
        string_map::lookup(auth.allowed_keys, caller) == Some(keys),
    ensures
        key_ok(auth, caller, key) <==> exists|i: int| 0 <= i < keys.len() && keys[i] == key,
{
}

/// A caller with a list of address patterns may connect from what one of them covers, and from nowhere
/// else.
pub proof fn callers_connect_from_the_addresses_on_their_list(
    auth: AuthView,
    caller: Seq<char>,
    patterns: Seq<Seq<char>>,
    ip: IpAddr,
)
    requires
        !auth.allow_all,
        string_map::lookup(auth.allowed_ips, caller) == Some(patterns),
    ensures
        ip_ok(auth, caller, ip) <==> exists|i: int|
            0 <= i < patterns.len() && net::pattern_covers(#[trigger] patterns[i], ip),
{
}

/// What a caller may do does not depend on the tokens and the lists of others.
pub proof fn callers_do_not_affect_each_other(
    auth: AuthView,
    other: AuthView,
    caller: Seq<char>,
    key: Seq<char>,
    ip: IpAddr,
)
    requires
        auth.allow_all == other.allow_all,
        string_map::lookup(auth.allowed_keys, caller) == string_map::lookup(
            other.allowed_keys,
            caller,
        ),
        string_map::lookup(auth.allowed_ips, caller) == string_map::lookup(
            other.allowed_ips,
            caller,
        ),
    ensures
        key_ok(auth, caller, key) == key_ok(other, caller, key),
        ip_ok(auth, caller, ip) == ip_ok(other, caller, ip),
{
}

/// The token of a header is all that follows the word that announces it; a header without that word
/// holds none.
pub proof fn bearer_tokens_follow_the_word(header: Seq<char>, token: Seq<char>)
    ensures
        bearer(Some(header)) == Some(token) <==> header == seq![
            'B',
            'e',
            'a',
            'r',
            'e',
            'r',
            ' ',
        ] + token,
        bearer(None) is None,
{
    reveal_strlit("Bearer ");
    assert("Bearer "@ =~= seq!['B', 'e', 'a', 'r', 'e', 'r', ' ']);
    text::prefix_is_cut_off("Bearer "@, token, header);
    if bearer(Some(header)) == Some(token) {
        text::prefix_is_cut_off("Bearer "@, token, header);
    }
}

} // verus!
