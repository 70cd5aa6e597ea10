//! Users, credentials and the guard of the administrative routes.

use crate::exchange::{
    empty_reply, responds_empty, responds_text, text_reply, Action, Body, Event, Reply,
};
use crate::text::{chars_of, copy_text, text_of};
use argon2::password_hash::Salt;
use argon2::{Argon2, PasswordHash, PasswordHasher, PasswordVerifier};
use vstd::prelude::*;

verus! {

/// The credentials of a request to log in or to sign up.
#[derive(Debug, PartialEq, Eq)]
pub struct AuthPayload {
    pub username: String,
    pub password: String,
}

/// What a successful login is answered with.
#[derive(Debug, PartialEq, Eq)]
pub struct AuthResponse {
    pub token: String,
    pub role: String,
}

/// A user as the store holds it.
#[derive(Debug, PartialEq, Eq)]
pub struct User {
    pub id: i32,
    pub username: String,
    pub password_hash: String,
    pub role: String,
    /// Microseconds since the Unix epoch.
    pub created_at: Option<i64>,
}

/// What a token states: the user, the second at which it expires, the role.
#[derive(Debug, PartialEq, Eq)]
pub struct Claims {
    pub sub: i32,
    pub exp: usize,
    pub role: String,
}

// ---------------------------------------------------------------------------
// Password hashes
// ---------------------------------------------------------------------------
/// The Argon2 hash of a password under a salt, in PHC notation, with the
/// default parameters; `None` where the salt is no salt in B64 or the
/// hashing fails.
pub uninterp spec fn password_hash_of(password: Seq<char>, salt: Seq<char>) -> Option<Seq<char>>;

/// Whether a text is a hash in PHC notation that Argon2 computes anew from
/// the password.
pub uninterp spec fn password_accepted(password: Seq<char>, hash: Seq<char>) -> bool;

/// `Argon2::default().hash_password` on the password's bytes and the salt
/// that `Salt::from_b64` reads. The result is a function of both.
#[verifier::external_body]
fn argon2_hash(password: &str, salt: &str) -> (hash: Option<String>)
    ensures
        hash.deep_view() == password_hash_of(password@, salt@),
{
    match Salt::from_b64(salt) {
        Ok(salt) => match Argon2::default().hash_password(password.as_bytes(), salt) {
            Ok(hash) => Some(hash.to_string()),
            Err(_) => None,
        },
        Err(_) => None,
    }
}

/// `Argon2::default().verify_password` on the password's bytes and the hash
/// that `PasswordHash::new` reads; a text that is no hash is not accepted.
/// The result is a function of both.
#[verifier::external_body]
fn argon2_verify(password: &str, hash: &str) -> (accepted: bool)
    ensures
        accepted == password_accepted(password@, hash@),
{
    match PasswordHash::new(hash) {
        Ok(parsed) => Argon2::default().verify_password(password.as_bytes(), &parsed).is_ok(),
        Err(_) => false,
    }
}

// ---------------------------------------------------------------------------
// The guard
// ---------------------------------------------------------------------------
/// The role that may pass the guard.
pub open spec fn admin_role() -> Seq<char> {
    seq!['a', 'd', 'm', 'i', 'n']
}

/// What a header of authorization must begin with.
pub open spec fn bearer_prefix() -> Seq<char> {
    seq!['B', 'e', 'a', 'r', 'e', 'r', ' ']
}

/// The token that a header of authorization carries: what follows the
/// prefix, where the header begins with it.
pub open spec fn bearer_token(header: Option<Seq<char>>) -> Option<Seq<char>> {
    match header {
        Some(text) => if text.len() >= 7 && text.take(7) == bearer_prefix() {
            Some(text.skip(7))
        } else {
            None
        },
        None => None,
    }
}

/// Where a request stands before the guard.
#[derive(Debug, PartialEq, Eq)]
pub enum Guard {
    /// A request with this header of authorization, not yet acted on.
    Received(Option<String>),
    /// The token was handed on to be read.
    Reading,
    /// The request was let through or answered.
    Finished,
    /// An event came that answers nothing.
    Failed,
}

/// One step of the guard.
///
/// A request without a bearer token, or with one that is not valid, is
/// answered with status 401. A valid token of a role other than `admin` is
/// answered with status 403. A valid token of the role `admin` lets the
/// request through.
pub open spec fn guard_step(state: Guard, event: Event, next: Guard, action: Action) -> bool {
    match (state, event) {
        (Guard::Received(header), Event::Start) => match bearer_token(header.deep_view()) {
            Some(token) => {
                &&& next is Reading
                &&& action matches Action::ReadToken(sent)
                &&& sent@ == token
            },
            None => next is Finished && responds_empty(action, 401),
        },
        (Guard::Reading, Event::Claims(Ok(role))) => if role@ == admin_role() {
            next is Finished && action is Forward
        } else {
            next is Finished && responds_empty(action, 403)
        },
        (Guard::Reading, Event::Claims(Err(_))) => next is Finished && responds_empty(action, 401),
        _ => next is Failed && action is Abort,
    }
}

/// The token that a header of authorization carries.
pub fn token_of(header: &Option<String>) -> (token: Option<String>)
    ensures
        token.deep_view() == bearer_token(header.deep_view()),
{
    match header {
        Some(text) => {
            let chars = chars_of(text.as_str());
            if chars.len() >= 7 && chars[0] == 'B' && chars[1] == 'e' && chars[2] == 'a' && chars[3]
                == 'r' && chars[4] == 'e' && chars[5] == 'r' && chars[6] == ' ' {
                assert(chars@.take(7) =~= bearer_prefix());
                assert(chars@.subrange(7, chars@.len() as int) =~= chars@.skip(7));
                Some(text_of(&chars, 7, chars.len()))
            } else {
                proof {
                    if chars@.len() >= 7 && chars@.take(7) == bearer_prefix() {
                        assert(chars@.take(7)[0] == 'B' && chars@.take(7)[1] == 'e' && chars@.take(
                            7,
                        )[2] == 'a' && chars@.take(7)[3] == 'r' && chars@.take(7)[4] == 'e'
                            && chars@.take(7)[5] == 'r' && chars@.take(7)[6] == ' ');
                    }
                }
                None
            }
        },
        None => None,
    }
}

/// Whether the role may pass the guard.
pub fn is_admin(role: &str) -> (admin: bool)
    ensures
        admin == (role@ == admin_role()),
{
    let chars = chars_of(role);
    let admin = chars.len() == 5 && chars[0] == 'a' && chars[1] == 'd' && chars[2] == 'm'
        && chars[3] == 'i' && chars[4] == 'n';
    proof {
        if admin {
            assert(chars@ =~= admin_role());
        }
    }
    admin
}

/// One step of the guard: see `guard_step`. The flow starts in
/// `Guard::Received` with `Event::Start`.
pub fn guard(state: Guard, event: Event) -> (step: (Guard, Action))
    ensures
        guard_step(state, event, step.0, step.1),
{
    match (state, event) {
        (Guard::Received(header), Event::Start) => {
            match token_of(&header) {
                Some(token) => (Guard::Reading, Action::ReadToken(token)),
                None => (Guard::Finished, empty_reply(401)),
            }
        },
        (Guard::Reading, Event::Claims(Ok(role))) => {
            if is_admin(role.as_str()) {
                (Guard::Finished, Action::Forward)
            } else {
                (Guard::Finished, empty_reply(403))
            }
        },
        (Guard::Reading, Event::Claims(Err(_))) => (Guard::Finished, empty_reply(401)),
        _ => (Guard::Failed, Action::Abort),
    }
}

// ---------------------------------------------------------------------------
// Logging in
// ---------------------------------------------------------------------------
/// For how many hours a token is valid.
pub const TOKEN_HOURS: i64 = 24;

/// Where a login stands.
#[derive(Debug, PartialEq, Eq)]
pub enum Login {
    /// Credentials, not yet acted on.
    Received(AuthPayload),
    /// The store was asked for the user; this is the password given.
    Looking(String),
    /// A token was asked for, for a user of this role.
    Signing(String),
    /// The request was answered.
    Finished,
    /// An event came that answers nothing.
    Failed,
}

/// One step of a login.
///
/// The user of the given name is read. If there is one and the password is
/// accepted by the user's hash, a token is asked for that is valid for a day;
/// the answer carries the token and the role, with status 200. Else the
/// answer is status 401, and does not say whether the name or the password
/// was wrong.
pub open spec fn login_step(state: Login, event: Event, next: Login, action: Action) -> bool {
    match (state, event) {
        (Login::Received(given), Event::Start) => {
            &&& next matches Login::Looking(password)
            &&& password@ == given.password@
            &&& action matches Action::FindUser(name)
            &&& name@ == given.username@
        },
        (Login::Looking(password), Event::User(Ok(Some(user)))) => if password_accepted(
            password@,
            user.password_hash@,
        ) {
            &&& next matches Login::Signing(role)
            &&& role@ == user.role@
            &&& action matches Action::IssueToken { user: id, role: named, hours }
            &&& id == user.id
            &&& named@ == user.role@
            &&& hours == TOKEN_HOURS
        } else {
            next is Finished && responds_text(action, 401, "用户名或密码错误"@)
        },
        (Login::Looking(_), Event::User(_)) => {
            next is Finished && responds_text(action, 401, "用户名或密码错误"@)
        },
        (Login::Signing(role), Event::Token(Ok(token))) => {
            &&& next is Finished
            &&& action matches Action::Respond(reply)
            &&& reply.status == 200
            &&& reply.body matches Body::Auth(body)
            &&& body.token@ == token@
            &&& body.role@ == role@
        },
        (Login::Signing(_), Event::Token(Err(_))) => next is Finished && responds_empty(action, 500),
        _ => next is Failed && action is Abort,
    }
}

/// One step of a login: see `login_step`. The flow starts in
/// `Login::Received` with `Event::Start`.
pub fn login(state: Login, event: Event) -> (step: (Login, Action))
    ensures
        login_step(state, event, step.0, step.1),
{
    match (state, event) {
        (Login::Received(given), Event::Start) => {
            (Login::Looking(given.password), Action::FindUser(given.username))
        },
        (Login::Looking(password), Event::User(found)) => {
            match found {
                Ok(Some(user)) => {
                    if argon2_verify(password.as_str(), user.password_hash.as_str()) {
                        let role = copy_text(user.role.as_str());
                        (
                            Login::Signing(user.role),
                            Action::IssueToken { user: user.id, role, hours: TOKEN_HOURS },
                        )
                    } else {
                        (Login::Finished, text_reply(401, copy_text("用户名或密码错误")))
                    }
                },
                _ => (Login::Finished, text_reply(401, copy_text("用户名或密码错误"))),
            }
        },
        (Login::Signing(role), Event::Token(Ok(token))) => {
            (
                Login::Finished,
                Action::Respond(Reply { status: 200, body: Body::Auth(AuthResponse { token, role }) }),
            )
        },
        (Login::Signing(_), Event::Token(Err(_))) => (Login::Finished, empty_reply(500)),
        _ => (Login::Failed, Action::Abort),
    }
}

// ---------------------------------------------------------------------------
// Signing up
// ---------------------------------------------------------------------------
/// Where the making of a user stands.
#[derive(Debug, PartialEq, Eq)]
pub enum Signup {
    /// Credentials, not yet acted on.
    Received(AuthPayload),
    /// A salt was asked for, for these credentials.
    Salting(AuthPayload),
    /// The store was asked to take the user.
    Storing,
    /// The request was answered, or the job ended.
    Finished,
    /// An event came that answers nothing.
    Failed,
}

/// The hash that is stored for a password: its hash under the salt, or the
/// empty text where there is none.
pub open spec fn stored_hash(password: Seq<char>, salt: Seq<char>) -> Seq<char> {
    match password_hash_of(password, salt) {
        Some(hash) => hash,
        None => Seq::empty(),
    }
}

/// One step of a sign-up.
///
/// A salt is drawn, the password hashed under it, and the user stored with
/// the role `user`. The answer is status 201, or status 400 where the store
/// refuses.
pub open spec fn signup_step(state: Signup, event: Event, next: Signup, action: Action) -> bool {
    match (state, event) {
        (Signup::Received(given), Event::Start) => {
            &&& next matches Signup::Salting(kept)
            &&& kept.username@ == given.username@
            &&& kept.password@ == given.password@
            &&& action is DrawSalt
        },
        (Signup::Salting(given), Event::Salt(salt)) => {
            &&& next is Storing
            &&& action matches Action::InsertUser { username, password_hash, role }
            &&& username@ == given.username@
            &&& password_hash@ == stored_hash(given.password@, salt@)
            &&& role@ == "user"@
        },
        (Signup::Storing, Event::Completed(Ok(_))) => next is Finished && responds_empty(action, 201),
        (Signup::Storing, Event::Completed(Err(_))) => {
            next is Finished && responds_text(action, 400, "用户已存在或数据库异常"@)
        },
        _ => next is Failed && action is Abort,
    }
}

/// One step of a sign-up: see `signup_step`. The flow starts in
/// `Signup::Received` with `Event::Start`.
pub fn signup(state: Signup, event: Event) -> (step: (Signup, Action))
    ensures
        signup_step(state, event, step.0, step.1),
{
    match (state, event) {
        (Signup::Received(given), Event::Start) => (Signup::Salting(given), Action::DrawSalt),
        (Signup::Salting(given), Event::Salt(salt)) => {
            let password_hash = match argon2_hash(given.password.as_str(), salt.as_str()) {
                Some(hash) => hash,
                None => String::new(),
            };
            (
                Signup::Storing,
                Action::InsertUser {
                    username: given.username,
                    password_hash,
                    role: copy_text("user"),
                },
            )
        },
        (Signup::Storing, Event::Completed(Ok(_))) => (Signup::Finished, empty_reply(201)),
        (Signup::Storing, Event::Completed(Err(_))) => {
            (Signup::Finished, text_reply(400, copy_text("用户已存在或数据库异常")))
        },
        _ => (Signup::Failed, Action::Abort),
    }
}

// ---------------------------------------------------------------------------
// The first administrator
// ---------------------------------------------------------------------------
/// Where the making of the first administrator stands.
#[derive(Debug, PartialEq, Eq)]
pub enum AdminSetup {
    /// The job was asked for and has not begun.
    Requested,
    /// The store was asked for the administrator.
    Looking,
    /// A salt was asked for.
    Salting,
    /// The store was asked to take the administrator.
    Storing,
    /// The job ended.
    Finished,
    /// An event came that answers nothing.
    Failed,
}

/// One step in the making of the first administrator.
///
/// If the store holds no user `admin`, or cannot say, one is made with the
/// password `admin` and the role `admin`. If the password cannot be hashed
/// the job fails; what the store answers to the new user is not looked at.
pub open spec fn admin_setup_step(
    state: AdminSetup,
    event: Event,
    next: AdminSetup,
    action: Action,
) -> bool {
    match (state, event) {
        (AdminSetup::Requested, Event::Start) => {
            &&& next is Looking
            &&& action matches Action::FindUser(name)
            &&& name@ == "admin"@
        },
        (AdminSetup::Looking, Event::User(Ok(Some(_)))) => next is Finished && action is Done,
        (AdminSetup::Looking, Event::User(_)) => next is Salting && action is DrawSalt,
        (AdminSetup::Salting, Event::Salt(salt)) => match password_hash_of("admin"@, salt@) {
            Some(hash) => {
                &&& next is Storing
                &&& action matches Action::InsertUser { username, password_hash, role }
                &&& username@ == "admin"@
                &&& password_hash@ == hash
                &&& role@ == "admin"@
            },
            None => {
                &&& next is Finished
                &&& action matches Action::Fatal(message)
                &&& message@ == "无法生成密码哈希"@
            },
        },
        (AdminSetup::Storing, Event::Completed(_)) => next is Finished && action is Done,
        _ => next is Failed && action is Abort,
    }
}

/// One step in the making of the first administrator: see
/// `admin_setup_step`. The job starts in `AdminSetup::Requested` with
/// `Event::Start`.
pub fn ensure_default_admin(state: AdminSetup, event: Event) -> (step: (AdminSetup, Action))
    ensures
        admin_setup_step(state, event, step.0, step.1),
{
    match (state, event) {
        (AdminSetup::Requested, Event::Start) => {
            (AdminSetup::Looking, Action::FindUser(copy_text("admin")))
        },
        (AdminSetup::Looking, Event::User(found)) => {
            match found {
                Ok(Some(_)) => (AdminSetup::Finished, Action::Done),
                _ => (AdminSetup::Salting, Action::DrawSalt),
            }
        },
        (AdminSetup::Salting, Event::Salt(salt)) => {
            match argon2_hash("admin", salt.as_str()) {
                Some(password_hash) => (
                    AdminSetup::Storing,
                    Action::InsertUser {
                        username: copy_text("admin"),
                        password_hash,
                        role: copy_text("admin"),
                    },
                ),
                None => (AdminSetup::Finished, Action::Fatal(copy_text("无法生成密码哈希"))),
            }
        },
        (AdminSetup::Storing, Event::Completed(_)) => (AdminSetup::Finished, Action::Done),
        _ => (AdminSetup::Failed, Action::Abort),
    }
}

} // verus!
