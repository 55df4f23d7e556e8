use vstd::prelude::*;
use vstd::string::StringExecFns;
use crate::models::CartOwner;

verus! {

/// The cookie that carries a guest's session token.
pub const SESSION_COOKIE_NAME: &'static str = "goseli_session";

/// Relies on uuid's `Uuid::now_v7` and its hyphenated `to_string`, which is
/// always 36 characters; the value itself depends on the clock and on
/// chance.
#[verifier::external_body]
fn new_session_token() -> (r: String)
    ensures
        r@.len() == 36,
{
    uuid::Uuid::now_v7().to_string()
}

/// The guest session token a request carries, or a fresh one.
pub fn get_or_create_session_id(cookie: Option<String>) -> (r: String)
    ensures
        cookie matches Some(v) ==> r == v,
        cookie is None ==> r@.len() == 36,
{
    match cookie {
        Some(v) => v,
        None => new_session_token(),
    }
}

/// Who owns the cart of a request, and the `Set-Cookie` value to send: a
/// signed-in user wins over any session cookie; a guest without a session
/// gets a fresh one, and only then is a cookie set.
pub fn resolve_cart_owner(user_id: Option<u128>, cookie: Option<String>) -> (r: (CartOwner, Option<String>))
    ensures
        user_id matches Some(u) ==> r.0 == CartOwner::User(u) && r.1 is None,
        user_id is None && cookie is Some ==> r.0 == CartOwner::Guest(cookie->Some_0) && r.1 is None,
        user_id is None && cookie is None ==> (r.0 matches CartOwner::Guest(s) && s@.len() == 36 && (r.1 matches Some(
            c,
        ) && c@ == session_cookie_text(s@))),
{
    match user_id {
        Some(u) => (CartOwner::User(u), None),
        None => match cookie {
            Some(v) => (CartOwner::Guest(v), None),
            None => {
                let sid = new_session_token();
                let set = session_cookie(sid.as_str());
                (CartOwner::Guest(sid), Some(set))
            },
        },
    }
}

/// The `Set-Cookie` text that keeps a guest session for 30 days.
pub open spec fn session_cookie_text(sid: Seq<char>) -> Seq<char> {
    "goseli_session="@ + sid + "; Path=/; HttpOnly; SameSite=Lax; Max-Age=2592000"@
}

/// The `Set-Cookie` value that keeps a guest session for 30 days.
pub fn session_cookie(sid: &str) -> (r: String)
    ensures
        r@ == "goseli_session="@ + sid@ + "; Path=/; HttpOnly; SameSite=Lax; Max-Age=2592000"@,
{
    let head = String::from_str("goseli_session=");
    let with_sid = head.concat(sid);
    with_sid.concat("; Path=/; HttpOnly; SameSite=Lax; Max-Age=2592000")
}

} // verus!
