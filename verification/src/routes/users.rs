//! The requests about users: signing in and resetting a password.

use crate::api_error::{ApiError, PasswordFeedback};
use crate::claims::Claims;
use crate::database::{DbToken, DbUser};
use crate::models::User;
use crate::text::{decimal, decimal_text};
use argon2::{Argon2, PasswordHash, PasswordVerifier};
use data_encoding::BASE64URL;
use vstd::prelude::*;
use vstd::string::*;
use vstd::utf8::encode_utf8;

verus! {

/// Length in bytes of the random part of a reset token.
pub const TOKEN_BYTES: usize = 48;

/// Seconds for which a sign-in holds: 180 days.
pub const SESSION_SECS: i64 = 180 * 24 * 60 * 60;

/// What answers every request for a password reset, whether the address is known or not.
pub const RESET_REQUESTED_MESSAGE: &'static str =
    "If that email address is in our database, we will send you an email to reset your password.";

/// Subject of the mail that carries the reset link.
pub const RESET_LINK_SUBJECT: &'static str = "Password reset link";

/// Subject of the mail that confirms a new password.
pub const PASSWORD_UPDATED_SUBJECT: &'static str = "Password updated";

/// Body of the mail that confirms a new password.
pub const PASSWORD_UPDATED_BODY: &'static str = "Your password has been updated successfully.";

/// What a sign-in request carries.
#[derive(Debug)]
pub struct AuthPayload {
    pub email: String,
    pub password: String,
}

/// What answers a sign-in: the token and its kind.
#[derive(Debug)]
pub struct AuthBody {
    pub access_token: String,
    pub token_type: String,
}

/// What a request to set a new password carries.
#[derive(Debug)]
pub struct PasswordResetPayload {
    pub user_id: i32,
    pub token: String,
    pub new_password: String,
}

/// What a request for a reset link carries.
#[derive(Debug)]
pub struct RequestPasswordResetPayload {
    pub email: String,
}

/// How a secret fares against a stored hash.
#[derive(Debug, Clone, Copy, PartialEq, Eq, Structural)]
pub enum PasswordCheck {
    /// The stored text is no hash in the PHC string format.
    Malformed,
    /// The hash is not that of the secret.
    Mismatch,
    /// The hash is that of the secret.
    Match,
}

/// Whether `PasswordHash::new` of the password-hash crate takes `hash` as a hash in
/// the PHC string format.
pub uninterp spec fn phc_well_formed(hash: Seq<char>) -> bool;

/// Whether Argon2 with its default parameters, run on the bytes `secret` with the salt
/// and the parameters that the well-formed `hash` names, gives the output that `hash`
/// holds.
pub uninterp spec fn argon2_accepts(hash: Seq<char>, secret: Seq<u8>) -> bool;

/// The text that `BASE64URL` of data-encoding makes of `bytes`: base 64 with the
/// alphabet that is safe in addresses, padded.
pub uninterp spec fn base64url_text(bytes: Seq<u8>) -> Seq<char>;

/// How the bytes `secret` fare against the stored text `hash`.
pub open spec fn password_check(hash: Seq<char>, secret: Seq<u8>) -> PasswordCheck {
    if !phc_well_formed(hash) {
        PasswordCheck::Malformed
    } else if argon2_accepts(hash, secret) {
        PasswordCheck::Match
    } else {
        PasswordCheck::Mismatch
    }
}

/// `PasswordHash::new` of password-hash on `hash`, then `verify_password` of argon2's
/// default `Argon2` on the UTF-8 bytes of `secret`: a text that does not parse is
/// malformed; a parsed hash matches if the verification succeeds and else does not.
#[verifier::external_body]
fn verify_secret(secret: &str, hash: &str) -> (check: PasswordCheck)
    ensures
        check == (if !phc_well_formed(hash@) {
            PasswordCheck::Malformed
        } else if argon2_accepts(hash@, encode_utf8(secret@)) {
            PasswordCheck::Match
        } else {
            PasswordCheck::Mismatch
        }),
{
    match PasswordHash::new(hash) {
        Err(_) => PasswordCheck::Malformed,
        Ok(parsed) => match Argon2::default().verify_password(secret.as_bytes(), &parsed) {
            Ok(()) => PasswordCheck::Match,
            Err(_) => PasswordCheck::Mismatch,
        },
    }
}

/// `BASE64URL.encode` of data-encoding: the text of the bytes, four characters for every
/// three bytes begun.
#[verifier::external_body]
fn encode_base64url(bytes: &[u8; TOKEN_BYTES]) -> (text: String)
    ensures
        text@ == base64url_text(bytes@),
        text@.len() == 64,
{
    BASE64URL.encode(bytes)
}

/// What is thought of a password: a score from 0, the weakest, to 4, and, for the weak
/// ones, feedback.
#[derive(Debug)]
pub struct PasswordStrength {
    pub score: u8,
    pub feedback: Option<PasswordFeedback>,
}

/// `zxcvbn` of the zxcvbn crate, with no words of the user to look out for; `None`
/// where it refuses to judge the password. Its estimate leans on the current year, so
/// nothing is claimed of the score but its range, and that every password scored below
/// 3 comes with feedback.
#[verifier::external_body]
fn estimate_strength(password: &str) -> (strength: Option<PasswordStrength>)
    ensures
        strength is Some ==> strength->0.score <= 4,
        strength is Some && strength->0.score <= 2 ==> strength->0.feedback is Some,
{
    let entropy = zxcvbn::zxcvbn(password, &[]).ok()?;
    let feedback = entropy.feedback().as_ref().map(
        |feedback| PasswordFeedback {
            suggestions: feedback.suggestions().iter().map(|hint| hint.to_string()).collect(),
            warning: feedback.warning().map(|warning| warning.to_string()),
        },
    );
    Some(PasswordStrength { score: entropy.score(), feedback })
}

/// Whether a sign-in request can be looked at: it must name an address and a password.
pub fn check_credentials(payload: &AuthPayload) -> (result: Result<(), ApiError>)
    ensures
        result == if payload.email@.len() == 0 || payload.password@.len() == 0 {
            Err::<(), ApiError>(ApiError::BadRequest)
        } else {
            Ok::<(), ApiError>(())
        },
{
    if payload.email.as_str().is_empty() || payload.password.as_str().is_empty() {
        Err(ApiError::BadRequest)
    } else {
        Ok(())
    }
}

/// What the claims of a user hold who signs in at the time `now`: they expire
/// `SESSION_SECS` later.
pub open spec fn claims_of(user: DbUser, now: i64) -> Claims {
    Claims {
        user_id: user.id,
        email: user.email,
        language: user.language,
        exp: (now + SESSION_SECS) as i64,
    }
}

/// What a sign-in with the bytes `secret` as password comes to, given the user that the
/// address belongs to, if any: the user's claims if the stored hash is that of the
/// password. An unknown address, a user without a password and a wrong password are all
/// unauthorized, alike; a stored text that is no hash is the server's failure.
pub open spec fn sign_in(user: Option<DbUser>, secret: Seq<u8>, now: i64) -> Result<
    Claims,
    ApiError,
> {
    match user {
        None => Err(ApiError::Unauthorized),
        Some(user) => match user.password {
            None => Err(ApiError::Unauthorized),
            Some(hash) => match password_check(hash@, secret) {
                PasswordCheck::Malformed => Err(ApiError::InternalServerError),
                PasswordCheck::Mismatch => Err(ApiError::Unauthorized),
                PasswordCheck::Match => Ok(claims_of(user, now)),
            },
        },
    }
}

/// Signs a user in, once the request has been checked and the user looked up: the
/// claims to put into the token, or why there are none.
pub fn authorize(payload: &AuthPayload, user: Option<DbUser>, now: i64) -> (result: Result<
    Claims,
    ApiError,
>)
    requires
        now + SESSION_SECS <= i64::MAX,
    ensures
        result == sign_in(user, encode_utf8(payload.password@), now),
{
    let user = match user {
        Some(user) => user,
        None => return Err(ApiError::Unauthorized),
    };
    let check = match &user.password {
        Some(hash) => verify_secret(payload.password.as_str(), hash.as_str()),
        None => return Err(ApiError::Unauthorized),
    };
    match check {
        PasswordCheck::Malformed => Err(ApiError::InternalServerError),
        PasswordCheck::Mismatch => Err(ApiError::Unauthorized),
        PasswordCheck::Match => Ok(
            Claims {
                user_id: user.id,
                email: user.email,
                language: user.language,
                exp: now + SESSION_SECS,
            },
        ),
    }
}

/// What answers a sign-in, once the token has been made or has failed to be: the
/// token as a bearer token, or the server's failure.
pub fn auth_body(token: Option<String>) -> (result: Result<AuthBody, ApiError>)
    ensures
        match token {
            Some(token) => result is Ok && result->Ok_0.access_token == token
                && result->Ok_0.token_type@ == "Bearer"@,
            None => result == Err::<AuthBody, ApiError>(ApiError::InternalServerError),
        },
{
    match token {
        Some(access_token) => Ok(AuthBody { access_token, token_type: String::from_str("Bearer") }),
        None => Err(ApiError::InternalServerError),
    }
}

/// Answers a request for the user of the claims.
pub fn get_user(claims: Claims) -> (user: User)
    ensures
        user.email == claims.email,
        user.language == claims.language,
{
    User { email: claims.email, language: claims.language }
}

/// Whether a new password can be looked at: it must not be empty.
pub fn check_new_password(payload: &PasswordResetPayload) -> (result: Result<(), ApiError>)
    ensures
        result == if payload.new_password@.len() == 0 {
            Err::<(), ApiError>(ApiError::BadRequest)
        } else {
            Ok::<(), ApiError>(())
        },
{
    if payload.new_password.as_str().is_empty() {
        Err(ApiError::BadRequest)
    } else {
        Ok(())
    }
}

/// Whether a new password is strong enough: on the scale from 0 to 4 its score must be
/// above 2. A weaker one is refused with the feedback on it.
pub fn check_strength(score: u8, feedback: Option<PasswordFeedback>) -> (result: Result<
    (),
    ApiError,
>)
    requires
        score <= 2 ==> feedback is Some,
    ensures
        result == if score <= 2 {
            Err::<(), ApiError>(ApiError::WeakPassword(feedback->0))
        } else {
            Ok::<(), ApiError>(())
        },
{
    if score <= 2 {
        match feedback {
            Some(feedback) => Err(ApiError::WeakPassword(feedback)),
            None => Ok(()),
        }
    } else {
        Ok(())
    }
}

/// Whether the new password of a request is taken: an empty one is a bad request; one
/// that cannot be judged is the server's failure; one that is judged weak is refused
/// with the feedback on it. What is thought of a password that is not empty is not
/// for the library to say: `check_strength` says what follows from each judgement.
pub fn check_password(payload: &PasswordResetPayload) -> (result: Result<(), ApiError>)
    ensures
        payload.new_password@.len() == 0 ==> result == Err::<(), ApiError>(ApiError::BadRequest),
        payload.new_password@.len() > 0 ==> result is Ok || result->Err_0 is WeakPassword
            || result->Err_0 is InternalServerError,
{
    match check_new_password(payload) {
        Err(error) => Err(error),
        Ok(_) => match estimate_strength(payload.new_password.as_str()) {
            None => Err(ApiError::InternalServerError),
            Some(strength) => check_strength(strength.score, strength.feedback),
        },
    }
}

/// How the search for the reset token of a request ended.
#[derive(Debug, Clone, Copy, PartialEq, Eq, Structural)]
pub enum ScanOutcome {
    /// The stored token at this index is the hash of the request's token.
    Matched(usize),
    /// No stored token that is still good is the hash of the request's token.
    NoMatch,
    /// The stored token at this index is still good but is no hash.
    Malformed(usize),
}

/// The stored tokens that were found expired, by index, and how the search ended.
#[derive(Debug)]
pub struct TokenScan {
    pub expired: Vec<usize>,
    pub outcome: ScanOutcome,
}

/// Whether a stored token has expired at the time `now`.
pub open spec fn is_expired(token: DbToken, now: i64) -> bool {
    now >= token.expires_at
}

/// How the search ends that goes through the stored tokens from `from` on, in order:
/// expired tokens are passed over; the first good token that is no hash ends it, and
/// so does the first that is the hash of `secret`.
pub open spec fn scan_from(tokens: Seq<DbToken>, secret: Seq<u8>, now: i64, from: int) -> ScanOutcome
    decreases tokens.len() - from,
{
    if from < 0 || from >= tokens.len() {
        ScanOutcome::NoMatch
    } else if is_expired(tokens[from], now) {
        scan_from(tokens, secret, now, from + 1)
    } else {
        match password_check(tokens[from].token@, secret) {
            PasswordCheck::Malformed => ScanOutcome::Malformed(from as usize),
            PasswordCheck::Match => ScanOutcome::Matched(from as usize),
            PasswordCheck::Mismatch => scan_from(tokens, secret, now, from + 1),
        }
    }
}

/// Where a search with this outcome stopped among `count` tokens.
pub open spec fn scan_end(outcome: ScanOutcome, count: int) -> int {
    match outcome {
        ScanOutcome::Matched(index) => index as int,
        ScanOutcome::Malformed(index) => index as int,
        ScanOutcome::NoMatch => count,
    }
}

/// The indices below `end` of the stored tokens that have expired, in order.
pub open spec fn expired_before(tokens: Seq<DbToken>, now: i64, end: int) -> Seq<usize>
    decreases end,
{
    if end <= 0 {
        Seq::empty()
    } else if is_expired(tokens[end - 1], now) {
        expired_before(tokens, now, end - 1).push((end - 1) as usize)
    } else {
        expired_before(tokens, now, end - 1)
    }
}

/// Looks among the stored tokens of a user for the one that the request's token
/// belongs to. The stored tokens are gone through in order, up to the first that ends
/// the search; each expired one met on the way is reported, to be deleted.
pub fn scan_tokens(tokens: &Vec<DbToken>, token: &str, now: i64) -> (scan: TokenScan)
    ensures
        scan.outcome == scan_from(tokens@, encode_utf8(token@), now, 0),
        scan.expired@ == expired_before(tokens@, now, scan_end(scan.outcome, tokens@.len() as int)),
{
    let mut expired: Vec<usize> = Vec::new();
    let mut i: usize = 0;
    while i < tokens.len()
        invariant
            i <= tokens.len(),
            scan_from(tokens@, encode_utf8(token@), now, 0) == scan_from(
                tokens@,
                encode_utf8(token@),
                now,
                i as int,
            ),
            expired@ == expired_before(tokens@, now, i as int),
        decreases tokens.len() - i,
    {
        if now >= tokens[i].expires_at {
            expired.push(i);
        } else {
            match verify_secret(token, tokens[i].token.as_str()) {
                PasswordCheck::Malformed => {
                    return TokenScan { expired, outcome: ScanOutcome::Malformed(i) };
                },
                PasswordCheck::Match => {
                    return TokenScan { expired, outcome: ScanOutcome::Matched(i) };
                },
                PasswordCheck::Mismatch => {},
            }
        }
        i = i + 1;
    }
    TokenScan { expired, outcome: ScanOutcome::NoMatch }
}

/// What setting a new password comes to, once the tokens are searched and the user
/// looked up: the user whose password is to be set, if there is such a user and the
/// token was found; else nothing is found. A stored token that is no hash is the
/// server's failure.
pub fn password_reset(outcome: ScanOutcome, user: Option<DbUser>) -> (result: Result<
    DbUser,
    ApiError,
>)
    ensures
        result == match (outcome, user) {
            (ScanOutcome::Malformed(_), _) => Err::<DbUser, ApiError>(ApiError::InternalServerError),
            (ScanOutcome::Matched(_), Some(user)) => Ok::<DbUser, ApiError>(user),
            _ => Err::<DbUser, ApiError>(ApiError::NotFound),
        },
{
    match (outcome, user) {
        (ScanOutcome::Malformed(_), _) => Err(ApiError::InternalServerError),
        (ScanOutcome::Matched(_), Some(user)) => Ok(user),
        _ => Err(ApiError::NotFound),
    }
}

/// The reset token that is made of random bytes: their text in base 64, 64 characters.
pub fn generate_token(random: &[u8; TOKEN_BYTES]) -> (token: String)
    ensures
        token@ == base64url_text(random@),
        token@.len() == 64,
{
    encode_base64url(random)
}

/// Body of the mail that carries the reset link: the link with the token and the
/// user's id as its query.
pub open spec fn reset_mail_body(link: Seq<char>, token: Seq<char>, user_id: int) -> Seq<char> {
    "\nFollow this link for resetting your password: "@ + link + "?token="@ + token + "&user_id="@
        + decimal_text(user_id)
        + "\n\nIf you didn't initialize any password reset, you can safely ignore this message."@
}

/// Writes the mail that carries the reset link, for the user that the address of the
/// request belongs to; without such a user there is no mail.
pub fn request_password_reset(link: &str, token: &str, user: &Option<DbUser>) -> (body: Option<
    String,
>)
    ensures
        match user {
            Some(user) => body is Some && body->0@ == reset_mail_body(
                link@,
                token@,
                user.id as int,
            ),
            None => body is None,
        },
{
    match user {
        None => None,
        Some(user) => {
            let mut body = String::from_str("\nFollow this link for resetting your password: ");
            body.append(link);
            body.append("?token=");
            body.append(token);
            body.append("&user_id=");
            body.append(decimal(user.id).as_str());
            body.append(
                "\n\nIf you didn't initialize any password reset, you can safely ignore this message.",
            );
            proof {
                assert(body@ =~= reset_mail_body(link@, token@, user.id as int));
            }
            Some(body)
        },
    }
}

} // verus!
