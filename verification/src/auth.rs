//! Authentication: password hashing behind the hashing library, the
//! token-comparison rule that anchors a session to the stored token, and
//! the login and user-maintenance flows built on them.

use vstd::prelude::*;

use crate::errors::CustomHttpError;
use crate::store::has_username;
use crate::store::user_by_username;
use crate::store::Store;
use crate::store::usernames_unique;
use crate::store::users_uuid_unique;
use crate::user_models::MutUser;
use crate::user_models::spec_user_update;
use crate::user_models::User;
use crate::user_models::UserView;

verus! {

/// The failures of the cryptographic and session layer.
#[derive(Debug, Clone, Copy, PartialEq, Eq, Structural)]
pub enum CryptoError {
    Unknown,
    FailedComparison,
    NoUser,
    NotLoggedIn,
    NoAuthHeader,
    OperationFail,
}

pub open spec fn spec_crypto_error_message(e: CryptoError) -> Seq<char> {
    match e {
        CryptoError::Unknown => "An unknown cryptographic error has occured"@,
        CryptoError::FailedComparison => "User has failed their token comparison"@,
        CryptoError::NoUser => "There is no user present"@,
        CryptoError::NotLoggedIn => "The user is not logged in"@,
        CryptoError::NoAuthHeader => "No auth header present."@,
        CryptoError::OperationFail => "Password operation failed."@,
    }
}

impl CryptoError {
    /// The human-readable message of the failure.
    pub fn message(&self) -> (r: String)
        ensures
            r@ == spec_crypto_error_message(*self),
    {
        match self {
            Self::Unknown => "An unknown cryptographic error has occured".to_owned(),
            Self::FailedComparison => "User has failed their token comparison".to_owned(),
            Self::NoUser => "There is no user present".to_owned(),
            Self::NotLoggedIn => "The user is not logged in".to_owned(),
            Self::NoAuthHeader => "No auth header present.".to_owned(),
            Self::OperationFail => "Password operation failed.".to_owned(),
        }
    }
}

impl From<CryptoError> for CustomHttpError {
    /// Every cryptographic failure surfaces as an authorization failure.
    fn from(e: CryptoError) -> (r: CustomHttpError) {
        match e {
            _ => CustomHttpError::Unauthorized,
        }
    }
}

impl vstd::std_specs::convert::FromSpecImpl<CryptoError> for CustomHttpError {
    open spec fn obeys_from_spec() -> bool {
        true
    }

    open spec fn from_spec(e: CryptoError) -> CustomHttpError {
        CustomHttpError::Unauthorized
    }
}

/// The claims carried by a session token: who it names and when it lapses
/// (seconds since the epoch).
pub struct Claims {
    pub exp: u64,
    pub sub: String,
}

#[verifier::ext_equal]
pub struct ClaimsView {
    pub exp: u64,
    pub sub: Seq<char>,
}

impl View for Claims {
    type V = ClaimsView;

    open spec fn view(&self) -> ClaimsView {
        ClaimsView { exp: self.exp, sub: self.sub@ }
    }
}

impl Clone for Claims {
    fn clone(&self) -> (r: Self)
        ensures
            r@ == self@,
    {
        Claims { exp: self.exp, sub: self.sub.clone() }
    }
}

/// How long an issued token lives: ten days, in seconds.
pub const TOKEN_LIFETIME_SECONDS: u64 = 864000;

/// When a token issued now lapses; saturates at the largest representable
/// time rather than wrapping.
pub open spec fn spec_expiry(now: u64) -> u64 {
    if now + TOKEN_LIFETIME_SECONDS <= u64::MAX {
        (now + TOKEN_LIFETIME_SECONDS) as u64
    } else {
        u64::MAX
    }
}

/// Relies on chrono::Utc::now and its timestamp: the system clock as
/// seconds since the epoch. Nothing can be promised of a clock reading;
/// the clock library itself gives up when the platform clock reads before
/// the epoch.
#[verifier::external_body]
fn now_timestamp() -> i64 {
    chrono::Utc::now().timestamp()
}

impl Claims {
    /// The claims of a token issued at `now` for the given subject.
    pub fn with_expiry(sub: String, now: u64) -> (c: Claims)
        ensures
            c@.sub == sub@,
            c@.exp == spec_expiry(now),
    {
        let exp = if now <= u64::MAX - TOKEN_LIFETIME_SECONDS {
            now + TOKEN_LIFETIME_SECONDS
        } else {
            u64::MAX
        };
        Claims { exp, sub }
    }

    /// The claims of a token issued now, as the login and user-update flows
    /// build them; a clock reading before the epoch is treated as the
    /// epoch. The clock decides the expiry, so only the subject is
    /// promised.
    pub fn issue(sub: String) -> (c: Claims)
        ensures
            c@.sub == sub@,
    {
        let t = now_timestamp();
        let now: u64 = if t < 0 {
            0
        } else {
            t as u64
        };
        Claims::with_expiry(sub, now)
    }
}

/// What a hash produced from this password looks like to the verifier:
/// whether the hash string checks out against the password.
pub uninterp spec fn password_verifies(password: Seq<char>, hash: Seq<char>) -> bool;

/// Whether a stored string is a well-formed PHC hash at all: what the hash
/// parser accepts. A string that does not parse cannot be verified against
/// any password.
pub uninterp spec fn hash_parses(hash: Seq<char>) -> bool;

/// Relies on argon2's hash_password_simple over a fresh random salt: the
/// produced PHC hash string parses back (it is the parser's own format)
/// and verifies against the same password, because verification re-derives
/// the hash from the salt and parameters the string itself carries. The
/// salt is random, so nothing more is promised.
#[verifier::external_body]
pub fn encrypt_password(password: &String) -> (r: Result<String, CryptoError>)
    ensures
        r matches Ok(h) ==> password_verifies(password@, h@) && hash_parses(h@),
{
    let salt = argon2::password_hash::SaltString::generate(&mut rand_core::OsRng);
    let argon2 = argon2::Argon2::default();
    match argon2::PasswordHasher::hash_password_simple(&argon2, password.as_bytes(), &salt) {
        Ok(h) => Ok(h.to_string()),
        Err(_) => Err(CryptoError::OperationFail),
    }
}

/// Relies on argon2's verify_password over a parsed PHC hash string: the
/// outcome is a function of the password and the hash string alone, since
/// the string carries its own salt and parameters. Parsing, too, depends
/// on the string alone: a string that does not parse as a PHC hash is an
/// operation failure, and a string that parses gets a verdict.
#[verifier::external_body]
fn verify_hashed_password(password: &String, hash: &String) -> (r: Result<bool, CryptoError>)
    ensures
        r is Ok <==> hash_parses(hash@),
        r matches Ok(b) ==> b == password_verifies(password@, hash@),
{
    match argon2::PasswordHash::new(hash.as_str()) {
        Ok(parsed) => Ok(
            argon2::PasswordVerifier::verify_password(
                &argon2::Argon2::default(),
                password.as_bytes(),
                &parsed,
            ).is_ok(),
        ),
        Err(_) => Err(CryptoError::OperationFail),
    }
}

/// The stored session of the claimed user matches the presented token
/// verbatim.
pub open spec fn token_matches(s: crate::store::StoreView, sub: Seq<char>, tok: Seq<char>) -> bool {
    has_username(s.users, sub) && user_by_username(s.users, sub).token == Some(tok)
}

/// Compares a presented token against the stored session of the user the
/// claims name: trust is anchored to equality with the stored value, so
/// overwriting or clearing that value invalidates the session.
pub fn compare(token: &Claims, enc_token: &String, pool: &Store) -> (r: Result<(), CryptoError>)
    requires
        pool@.wf(),
    ensures
        match r {
            Ok(u) => token_matches(pool@, token@.sub, enc_token@),
            Err(e) => match e {
                CryptoError::NoUser => !has_username(pool@.users, token@.sub),
                CryptoError::NotLoggedIn => has_username(pool@.users, token@.sub)
                    && user_by_username(pool@.users, token@.sub).token is None,
                CryptoError::FailedComparison => has_username(pool@.users, token@.sub)
                    && user_by_username(pool@.users, token@.sub).token is Some
                    && user_by_username(pool@.users, token@.sub).token != Some(enc_token@),
                _ => false,
            },
        },
{
    let looked_up = User::read_one(token.sub.clone(), pool);
    match looked_up {
        Ok(user) => {
            match &user.token {
                None => Err(CryptoError::NotLoggedIn),
                // verify against the encrypted version of the token.
                Some(t) => {
                    if *t == *enc_token {
                        Ok(())
                    } else {
                        Err(CryptoError::FailedComparison)
                    }
                },
            }
        },
        Err(_) => Err(CryptoError::NoUser),
    }
}

/// The decision behind authenticating a request: claims decoded from the
/// bearer token (or none, when decoding failed) are held against the stored
/// session of the user they name. A request with no decodable claims or a
/// stale or mismatched token is unauthorized, and the store is untouched.
pub fn authenticate(decoded: Option<Claims>, enc_token: &String, db: &Store) -> (r: Result<
    Claims,
    CustomHttpError,
>)
    requires
        db@.wf(),
    ensures
        match r {
            Ok(c) => decoded is Some && c == decoded.unwrap() && token_matches(
                db@,
                c@.sub,
                enc_token@,
            ),
            Err(e) => {
                &&& e == CustomHttpError::Unauthorized
                &&& (decoded matches Some(c) ==> !token_matches(db@, c@.sub, enc_token@))
            },
        },
{
    match decoded {
        Some(c) => {
            let logged_in = compare(&c, enc_token, db);
            match logged_in {
                Ok(_) => Ok(c),
                Err(_) => Err(CustomHttpError::Unauthorized),
            }
        },
        None => Err(CustomHttpError::Unauthorized),
    }
}

/// The root account while no password has been set yet.
pub open spec fn is_default_login(u: UserView) -> bool {
    u.username == "root"@ && u.password.len() == 0
}

/// A user row with its session token replaced.
pub open spec fn spec_with_token(u: UserView, t: Seq<char>) -> UserView {
    UserView { uuid: u.uuid, username: u.username, password: u.password, token: Some(t) }
}

/// How a login attempt ended.
#[derive(Debug, Clone, Copy, PartialEq, Eq, Structural)]
pub enum LoginOutcome {
    /// The password checked out; the token was stored.
    LoggedIn,
    /// The passwordless root account logged in; the token was stored.
    Accepted,
    /// A second login to the passwordless root account is refused.
    Forbidden,
    /// The password did not check out; nothing changed.
    Denied,
}

/// The login flow. Reads the named user; a passwordless root account is
/// granted once and refused while its token stands; any other account is
/// held to its password hash. On success the issued token is stored against
/// the user, which is what later requests are compared to.
#[verifier::loop_isolation(false)]
pub fn login(user: &MutUser, token_enc: String, db: &mut Store) -> (r: Result<
    LoginOutcome,
    CustomHttpError,
>)
    requires
        old(db)@.wf(),
        has_username(old(db)@.users, user@.username) && !is_default_login(
            user_by_username(old(db)@.users, user@.username),
        ) ==> user@.password is Some,
    ensures
        final(db)@.wf(),
        final(db)@.pages == old(db)@.pages,
        final(db)@.modules == old(db)@.modules,
        final(db)@.categories == old(db)@.categories,
        match r {
            Ok(outcome) => has_username(old(db)@.users, user@.username) && ({
                let u = user_by_username(old(db)@.users, user@.username);
                &&& (outcome == LoginOutcome::Forbidden) <==> (is_default_login(u)
                    && u.token is Some)
                &&& outcome == LoginOutcome::Accepted ==> is_default_login(u) && u.token is None
                &&& outcome == LoginOutcome::LoggedIn ==> !is_default_login(u)
                    && password_verifies(user@.password.unwrap(), u.password)
                &&& outcome == LoginOutcome::Denied ==> !is_default_login(u)
                    && !password_verifies(user@.password.unwrap(), u.password)
                &&& (outcome == LoginOutcome::Forbidden || outcome == LoginOutcome::Denied)
                    ==> final(db)@.users == old(db)@.users
                &&& (outcome == LoginOutcome::Accepted || outcome == LoginOutcome::LoggedIn) ==> {
                    &&& final(db)@.users.len() == old(db)@.users.len()
                    &&& forall|j: int|
                        0 <= j < old(db)@.users.len() ==> final(db)@.users[j] == (
                        if old(db)@.users[j].username == user@.username {
                            spec_with_token(#[trigger] old(db)@.users[j], token_enc@)
                        } else {
                            old(db)@.users[j]
                        })
                }
            }),
            Err(e) => final(db)@.users == old(db)@.users && match e {
                CustomHttpError::NotFound => !has_username(old(db)@.users, user@.username),
                CustomHttpError::Unknown => has_username(old(db)@.users, user@.username)
                    && !is_default_login(user_by_username(old(db)@.users, user@.username))
                    && !hash_parses(user_by_username(old(db)@.users, user@.username).password),
                _ => false,
            },
        },
        has_username(old(db)@.users, user@.username) && (is_default_login(
            user_by_username(old(db)@.users, user@.username),
        ) || hash_parses(user_by_username(old(db)@.users, user@.username).password)) ==> r is Ok,
{
    let ghost db0 = db@;
    let read_user = match User::read_one(user.username.clone(), db) {
        Ok(u) => u,
        Err(_) => {
            return Err(CustomHttpError::NotFound);
        },
    };

    let root_name = String::from_str("root");
    let is_default = read_user.username == root_name && read_user.password.as_str().is_empty();

    // a second login to a root user with no password set is refused while
    // its token stands.
    if read_user.token.is_some() && is_default {
        return Ok(LoginOutcome::Forbidden);
    }

    if is_default {
        let with_token = MutUser {
            uuid: None,
            username: user.username.clone(),
            password: None,
            token: Some(token_enc),
        };
        let updated = User::update_with_token(&with_token, db);
        proof {
            assert(forall|j: int|
                0 <= j < db0.users.len() && db0.users[j].username == user@.username
                    ==> spec_user_update(#[trigger] db0.users[j], with_token@) == spec_with_token(
                    db0.users[j],
                    token_enc@,
                ));
        }
        match updated {
            Ok(_) => Ok(LoginOutcome::Accepted),
            Err(_) => Err(CustomHttpError::Unknown),
        }
    } else {
        let password_ref: &String = match &user.password {
            Some(p) => p,
            None => unreached(),
        };
        let verdict = match verify_hashed_password(password_ref, &read_user.password) {
            Ok(b) => b,
            Err(_) => {
                return Err(CustomHttpError::Unknown);
            },
        };
        if verdict {
            let with_token = MutUser {
                uuid: None,
                username: user.username.clone(),
                password: None,
                token: Some(token_enc),
            };
            let updated = User::update_with_token(&with_token, db);
            proof {
                assert(forall|j: int|
                    0 <= j < db0.users.len() && db0.users[j].username == user@.username
                        ==> spec_user_update(#[trigger] db0.users[j], with_token@)
                        == spec_with_token(db0.users[j], token_enc@));
            }
            match updated {
                Ok(_) => Ok(LoginOutcome::LoggedIn),
                Err(_) => Err(CustomHttpError::Unknown),
            }
        } else {
            Ok(LoginOutcome::Denied)
        }
    }
}

/// The user-creation flow: the payload's password is hashed with a fresh
/// salt and a fresh identifier is drawn before the strict insert. A hashing
/// failure surfaces as an authorization failure, a conflicting insert as an
/// internal error; in both nothing is stored.
pub fn create_user(new: &MutUser, db: &mut Store) -> (r: Result<(), CustomHttpError>)
    requires
        old(db)@.wf(),
        new@.password is Some,
    ensures
        final(db)@.wf(),
        final(db)@.pages == old(db)@.pages,
        final(db)@.modules == old(db)@.modules,
        final(db)@.categories == old(db)@.categories,
        match r {
            Ok(u) => {
                &&& final(db)@.users.len() == old(db)@.users.len() + 1
                &&& forall|j: int|
                    0 <= j < old(db)@.users.len() ==> final(db)@.users[j] == #[trigger] old(
                        db,
                    )@.users[j]
                &&& final(db)@.users.last().username == new@.username
                &&& password_verifies(
                    new@.password.unwrap(),
                    final(db)@.users.last().password,
                )
                &&& hash_parses(final(db)@.users.last().password)
                &&& final(db)@.users.last().token == new@.token
            },
            Err(e) => final(db)@.users == old(db)@.users && (e == CustomHttpError::Unauthorized
                || e == CustomHttpError::Unknown),
        },
{
    let password_ref: &String = match &new.password {
        Some(p) => p,
        None => unreached(),
    };
    let encrypted_password = match encrypt_password(password_ref) {
        Ok(h) => h,
        Err(_) => {
            return Err(CustomHttpError::Unauthorized);
        },
    };
    let salted_user = MutUser {
        uuid: Some(crate::ids::new_uuid()),
        username: new.username.clone(),
        password: Some(encrypted_password),
        token: match &new.token {
            Some(t) => Some(t.clone()),
            None => None,
        },
    };
    match User::create(&salted_user, db) {
        Ok(_) => Ok(()),
        Err(_) => Err(CustomHttpError::Unknown),
    }
}

/// A user row with its session token cleared.
pub open spec fn spec_cleared_token(u: UserView) -> UserView {
    UserView { uuid: u.uuid, username: u.username, password: u.password, token: None }
}

/// The logout flow on the store's side: clears the stored session token of
/// the named user, so later token comparisons fail and the session is
/// invalid — trust being anchored to equality with the stored value.
/// Returns how many rows matched; a name that is not present clears
/// nothing and is not an error.
#[verifier::loop_isolation(false)]
pub fn logout(username: &String, db: &mut Store) -> (r: Result<usize, CustomHttpError>)
    requires
        old(db)@.wf(),
    ensures
        final(db)@.wf(),
        final(db)@.pages == old(db)@.pages,
        final(db)@.modules == old(db)@.modules,
        final(db)@.categories == old(db)@.categories,
        r is Ok,
        r->Ok_0 == (if has_username(old(db)@.users, username@) {
            1int
        } else {
            0int
        }),
        final(db)@.users.len() == old(db)@.users.len(),
        forall|j: int|
            0 <= j < old(db)@.users.len() ==> final(db)@.users[j] == (
            if old(db)@.users[j].username == username@ {
                spec_cleared_token(#[trigger] old(db)@.users[j])
            } else {
                old(db)@.users[j]
            }),
{
    let ghost db0 = db@;
    let ghost pre = db0.users;
    let mut count: usize = 0;
    let mut k: usize = 0;
    while k < db.users.len()
        invariant
            0 <= k <= db.users.len(),
            db@.pages == db0.pages,
            db@.modules == db0.modules,
            db@.categories == db0.categories,
            db@.users.len() == pre.len(),
            forall|j: int|
                k <= j < pre.len() ==> #[trigger] db@.users[j] == pre[j],
            forall|j: int|
                0 <= j < k ==> #[trigger] db@.users[j] == (if pre[j].username == username@ {
                    spec_cleared_token(pre[j])
                } else {
                    pre[j]
                }),
            count == (if exists|j: int| 0 <= j < k && (#[trigger] pre[j]).username == username@ {
                1int
            } else {
                0int
            }),
        decreases db.users.len() - k,
    {
        let ghost cur = db@.users;
        let matches = db.users[k].username == *username;
        proof {
            assert(db@.users[k as int] == pre[k as int]);
            assert(matches == (pre[k as int].username == username@));
        }
        if matches {
            let cleared = User {
                uuid: db.users[k].uuid.clone(),
                username: db.users[k].username.clone(),
                password: db.users[k].password.clone(),
                token: None,
            };
            proof {
                assert(count == 0) by {
                    if exists|j: int| 0 <= j < k && (#[trigger] pre[j]).username == username@ {
                        let j = choose|j: int|
                            0 <= j < k && (#[trigger] pre[j]).username == username@;
                        assert(pre[j].username == pre[k as int].username);
                        assert(usernames_unique(pre));
                    }
                }
                assert(cleared@ =~= spec_cleared_token(pre[k as int]));
            }
            let ghost cv = cleared@;
            db.users[k] = cleared;
            proof {
                assert(db@.users =~= cur.update(k as int, cv));
            }
            count += 1;
        }
        proof {
            if pre[k as int].username == username@ {
                assert(exists|j: int| 0 <= j < k + 1 && (#[trigger] pre[j]).username == username@);
            } else {
                assert((exists|j: int|
                    0 <= j < k + 1 && (#[trigger] pre[j]).username == username@) == (exists|j: int|
                    0 <= j < k && (#[trigger] pre[j]).username == username@));
            }
        }
        k += 1;
    }
    proof {
        assert(count == (if has_username(pre, username@) {
            1int
        } else {
            0int
        }));
        assert(users_uuid_unique(db@.users)) by {
            assert(forall|j: int|
                0 <= j < pre.len() ==> (#[trigger] db@.users[j]).uuid == pre[j].uuid);
        }
        assert(usernames_unique(db@.users)) by {
            assert(forall|j: int|
                0 <= j < pre.len() ==> (#[trigger] db@.users[j]).username == pre[j].username);
        }
    }
    Ok(count)
}

/// How a user-maintenance request ended.
#[derive(Debug, Clone, Copy, PartialEq, Eq, Structural)]
pub enum UpdateUserOutcome {
    /// The caller's claims name someone else; nothing changed.
    Unauthorized,
    /// The update went through; how many rows matched.
    Updated(usize),
}

/// The user-maintenance flow. A caller may only change their own record:
/// claims naming anyone else are turned away with the record untouched.
/// Otherwise the payload's password is hashed afresh and the newly issued
/// token is stored along with the update, so the session survives a
/// rename.
pub fn update_user(id: &String, new: &MutUser, claim: &Claims, token_enc: String, db: &mut Store) -> (r:
    Result<UpdateUserOutcome, CustomHttpError>)
    requires
        old(db)@.wf(),
        id@ == claim@.sub ==> new@.password is Some,
    ensures
        final(db)@.wf(),
        final(db)@.pages == old(db)@.pages,
        final(db)@.modules == old(db)@.modules,
        final(db)@.categories == old(db)@.categories,
        id@ != claim@.sub ==> r == Ok::<UpdateUserOutcome, CustomHttpError>(
            UpdateUserOutcome::Unauthorized,
        ) && final(db)@.users == old(db)@.users,
        match r {
            Ok(outcome) => match outcome {
                UpdateUserOutcome::Unauthorized => id@ != claim@.sub && final(db)@.users == old(
                    db,
                )@.users,
                UpdateUserOutcome::Updated(n) => {
                    &&& id@ == claim@.sub
                    &&& n == (if has_username(old(db)@.users, id@) {
                        1int
                    } else {
                        0int
                    })
                    &&& final(db)@.users.len() == old(db)@.users.len()
                    &&& forall|j: int|
                        0 <= j < old(db)@.users.len() && (#[trigger] old(db)@.users[j]).username
                            != id@ ==> final(db)@.users[j] == old(db)@.users[j]
                    &&& forall|j: int|
                        0 <= j < old(db)@.users.len() && (#[trigger] old(db)@.users[j]).username
                            == id@ ==> {
                            &&& final(db)@.users[j].uuid == old(db)@.users[j].uuid
                            &&& final(db)@.users[j].username == new@.username
                            &&& password_verifies(
                                new@.password.unwrap(),
                                final(db)@.users[j].password,
                            )
                            &&& hash_parses(final(db)@.users[j].password)
                            &&& final(db)@.users[j].token == Some(token_enc@)
                        }
                },
            },
            Err(e) => final(db)@.users == old(db)@.users && (e == CustomHttpError::Unauthorized
                || e == CustomHttpError::Unknown),
        },
{
    // changing someone else's record is not allowed.
    if !(*id == claim.sub) {
        return Ok(UpdateUserOutcome::Unauthorized);
    }
    let password_ref: &String = match &new.password {
        Some(p) => p,
        None => unreached(),
    };
    let encrypted_password = match encrypt_password(password_ref) {
        Ok(h) => h,
        Err(_) => {
            return Err(CustomHttpError::Unauthorized);
        },
    };
    let salted_user = MutUser {
        uuid: None,
        username: new.username.clone(),
        password: Some(encrypted_password),
        token: Some(token_enc),
    };
    match User::update(id.clone(), &salted_user, db) {
        Ok(n) => Ok(UpdateUserOutcome::Updated(n)),
        Err(_) => Err(CustomHttpError::Unknown),
    }
}

} // verus!
