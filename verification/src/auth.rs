//! Accounts: roles, the rule for protected actions, token claims, password
//! hashes, and the public label of a winner.

use vstd::prelude::*;
use argon2::{PasswordHasher, PasswordVerifier};
use crate::text::{chars_of, is_whitespace, is_ws, push_str, skip_ws, string_from, string_of, trim, trim_bounds, trim_start};

verus! {

/// Access level: admins may do everything, editors manage content.
#[derive(PartialEq, Eq, Structural, Clone, Copy, Debug)]
pub enum Role {
    Admin,
    Editor,
}

/// The role written in a token or an account row: `"Admin"` or `"Editor"`.
pub open spec fn role_text(r: Role) -> Seq<char> {
    match r {
        Role::Admin => "Admin"@,
        Role::Editor => "Editor"@,
    }
}

impl Role {
    /// The role's name as tokens and account rows hold it.
    pub fn name(&self) -> (s: String)
        ensures
            s@ == role_text(*self),
    {
        match self {
            Role::Admin => string_from("Admin"),
            Role::Editor => string_from("Editor"),
        }
    }
}

/// The role a stored name stands for: `"Admin"` is an admin, anything else an editor.
pub open spec fn role_of_text(t: Seq<char>) -> Role {
    if t == "Admin"@ { Role::Admin } else { Role::Editor }
}

pub fn role_from_claim(t: &str) -> (r: Role)
    ensures
        r == role_of_text(t@),
{
    if crate::text::str_eq(t, "Admin") {
        Role::Admin
    } else {
        Role::Editor
    }
}

/// A user's public profile (never the password hash).
pub struct UserDto {
    pub id: i64,
    pub username: String,
    pub email: String,
    pub first_name: String,
    pub last_name: String,
    pub role: Role,
}

pub struct UserView {
    pub id: i64,
    pub username: Seq<char>,
    pub email: Seq<char>,
    pub first_name: Seq<char>,
    pub last_name: Seq<char>,
    pub role: Role,
}

impl View for UserDto {
    type V = UserView;

    open spec fn view(&self) -> UserView {
        UserView {
            id: self.id,
            username: self.username@,
            email: self.email@,
            first_name: self.first_name@,
            last_name: self.last_name@,
            role: self.role,
        }
    }
}

/// Why a protected action was refused.
#[derive(PartialEq, Eq, Structural, Clone, Copy, Debug)]
pub enum AuthError {
    /// No valid token: missing, malformed, badly signed or expired.
    Unauthorized,
    /// A valid token whose role is too low.
    Forbidden,
    /// Unknown account or wrong password.
    InvalidCredentials,
}

pub open spec fn auth_error_text(e: AuthError) -> Seq<char> {
    match e {
        AuthError::Unauthorized => "Unauthorized: invalid or expired token"@,
        AuthError::Forbidden => "Forbidden: insufficient permissions"@,
        AuthError::InvalidCredentials => "Invalid credentials"@,
    }
}

impl AuthError {
    /// The message the server answers with.
    pub fn message(&self) -> (s: String)
        ensures
            s@ == auth_error_text(*self),
    {
        match self {
            AuthError::Unauthorized => string_from("Unauthorized: invalid or expired token"),
            AuthError::Forbidden => string_from("Forbidden: insufficient permissions"),
            AuthError::InvalidCredentials => string_from("Invalid credentials"),
        }
    }
}

/// A role meets the minimum `min`: any role meets editor, only admin meets admin.
pub open spec fn role_allows(role: Role, min: Role) -> bool {
    match min {
        Role::Editor => true,
        Role::Admin => role == Role::Admin,
    }
}

/// The rule for protected actions, given the user that the caller's token
/// decodes to (`None` when it decodes to none): no user is unauthorized, a
/// user below `min_role` is forbidden, anyone else passes.
pub fn require_role(user: Option<UserDto>, min_role: &Role) -> (r: Result<UserDto, AuthError>)
    ensures
        match user {
            None => r == Err::<UserDto, AuthError>(AuthError::Unauthorized),
            Some(u) => if role_allows(u.role, *min_role) {
                r matches Ok(v) && v@ == u@
            } else {
                r == Err::<UserDto, AuthError>(AuthError::Forbidden)
            },
        },
{
    match user {
        None => Err(AuthError::Unauthorized),
        Some(u) => {
            let allowed = match min_role {
                Role::Editor => true,
                Role::Admin => u.role == Role::Admin,
            };
            if allowed {
                Ok(u)
            } else {
                Err(AuthError::Forbidden)
            }
        },
    }
}

/// What a session token carries.
pub struct Claims {
    pub sub: i64,
    pub username: String,
    pub email: String,
    pub first_name: String,
    pub last_name: String,
    pub role: String,
    pub exp: u64,
}

/// Tokens expire 30 days after they are made.
pub const TOKEN_LIFETIME_SECS: i64 = 2_592_000;

/// The claims of a token for `user`, expiring at the second `exp`.
pub fn claims_for(user: &UserDto, exp: u64) -> (c: Claims)
    ensures
        c.sub == user.id,
        c.username@ == user.username@,
        c.email@ == user.email@,
        c.first_name@ == user.first_name@,
        c.last_name@ == user.last_name@,
        c.role@ == role_text(user.role),
        c.exp == exp,
{
    Claims {
        sub: user.id,
        username: user.username.clone(),
        email: user.email.clone(),
        first_name: user.first_name.clone(),
        last_name: user.last_name.clone(),
        role: user.role.name(),
        exp,
    }
}

/// The expiry second of a token made at the second `now`, as the token
/// writes it: 30 days later, cut to 64 bits.
pub fn token_expiry(now: i64) -> (exp: u64)
    requires
        -crate::clock::CHRONO_SECS_BOUND < now < crate::clock::CHRONO_SECS_BOUND,
    ensures
        exp == (now + TOKEN_LIFETIME_SECS) as u64,
{
    (now + TOKEN_LIFETIME_SECS) as u64
}

/// The user that decoded claims stand for.
pub fn user_from_claims(c: Claims) -> (u: UserDto)
    ensures
        u.id == c.sub,
        u.username@ == c.username@,
        u.email@ == c.email@,
        u.first_name@ == c.first_name@,
        u.last_name@ == c.last_name@,
        u.role == role_of_text(c.role@),
{
    let role = role_from_claim(c.role.as_str());
    UserDto { id: c.sub, username: c.username, email: c.email, first_name: c.first_name, last_name: c.last_name, role }
}

/// The signing secret: the configured one, else the development default.
pub fn jwt_secret(configured: Option<String>) -> (s: String)
    ensures
        s@ == match configured {
            Some(c) => c@,
            None => "dev-secret-change-in-production"@,
        },
{
    match configured {
        Some(c) => c,
        None => string_from("dev-secret-change-in-production"),
    }
}

/// Hashes a password with argon2id (`Argon2::default()`) and a fresh random
/// salt (`SaltString::generate(&mut OsRng)`), giving the PHC text of the
/// hash or the error's text. The hash text is PHC text that starts with
/// `$argon2id$v=19$` (the `Display` of argon2's `PasswordHash`: algorithm,
/// then version 0x13), and the password matches it. The rest of the text
/// (parameters, random salt, digest) is not stated.
#[verifier::external_body]
pub fn hash_password(password: &str) -> (r: Result<String, String>)
    ensures
        r matches Ok(h) ==> password_matches(password@, h@),
        r matches Ok(h) ==> h@.len() >= 15 && h@.subrange(0, 15) == "$argon2id$v=19$"@,
{
    let salt = argon2::password_hash::SaltString::generate(&mut rand_core::OsRng);
    argon2::Argon2::default().hash_password(password.as_bytes(), &salt).map(|h| h.to_string()).map_err(|e| e.to_string())
}

/// Whether `password` matches the PHC hash text `hash` under argon2
/// (`PasswordHash::new` then `Argon2::default().verify_password`; a text that
/// is no PHC hash matches nothing).
pub uninterp spec fn password_matches(password: Seq<char>, hash: Seq<char>) -> bool;

/// Checks a password against a stored hash, as `password_matches` names it.
#[verifier::external_body]
pub(crate) fn verify_password(password: &str, hash: &str) -> (b: bool)
    ensures
        b == password_matches(password@, hash@),
{
    match argon2::PasswordHash::new(hash) {
        Ok(parsed) => argon2::Argon2::default().verify_password(password.as_bytes(), &parsed).is_ok(),
        Err(_) => false,
    }
}

/// An account row as the login reads it.
pub struct AccountRow {
    pub id: i64,
    pub username: String,
    pub email: String,
    pub first_name: String,
    pub last_name: String,
    pub password_hash: String,
    pub role: String,
}

/// The login rule: the account found by name or e-mail, if any, is let in
/// when the password matches its hash; otherwise the credentials are invalid.
pub fn check_login(row: Option<AccountRow>, password: &str) -> (r: Result<UserDto, AuthError>)
    ensures
        match row {
            None => r == Err::<UserDto, AuthError>(AuthError::InvalidCredentials),
            Some(a) => if password_matches(password@, a.password_hash@) {
                r matches Ok(u) && u@ == (UserView {
                    id: a.id,
                    username: a.username@,
                    email: a.email@,
                    first_name: a.first_name@,
                    last_name: a.last_name@,
                    role: role_of_text(a.role@),
                })
            } else {
                r == Err::<UserDto, AuthError>(AuthError::InvalidCredentials)
            },
        },
{
    match row {
        None => Err(AuthError::InvalidCredentials),
        Some(a) => {
            if !verify_password(password, a.password_hash.as_str()) {
                return Err(AuthError::InvalidCredentials);
            }
            let role = role_from_claim(a.role.as_str());
            Ok(UserDto { id: a.id, username: a.username, email: a.email, first_name: a.first_name, last_name: a.last_name, role })
        },
    }
}

/// `s` holds `pat` somewhere.
pub open spec fn has_infix(s: Seq<char>, pat: Seq<char>) -> bool {
    exists|i: int| 0 <= i && i + pat.len() <= s.len() && #[trigger] s.subrange(i, i + pat.len()) == pat
}

/// Whether `s` holds `pat` somewhere.
pub fn contains_text(s: &str, pat: &str) -> (b: bool)
    ensures
        b == has_infix(s@, pat@),
{
    let v = chars_of(s);
    let p = chars_of(pat);
    if p.len() > v.len() {
        return false;
    }
    let n = v.len() - p.len();
    let mut i: usize = 0;
    loop
        invariant
            v@ == s@,
            p@ == pat@,
            p@.len() <= v@.len(),
            n == v@.len() - p@.len(),
            i <= n,
            forall|j: int| 0 <= j < i ==> #[trigger] s@.subrange(j, j + pat@.len()) != pat@,
        decreases n - i,
    {
        if crate::text::range_equals(&v, i, v.len() - (n - i), &p) {
            assert(s@.subrange(i as int, i + pat@.len()) == pat@);
            return true;
        }
        if i == n {
            return false;
        }
        i = i + 1;
    }
}

/// The answer to a refused sign-up: a clash on a unique column is told as
/// such, any other database error by its own text.
pub fn registration_error(db_message: &str) -> (m: String)
    ensures
        m@ == if has_infix(db_message@, "UNIQUE"@) { "Username or email already taken"@ } else { db_message@ },
{
    if contains_text(db_message, "UNIQUE") {
        string_from("Username or email already taken")
    } else {
        string_from(db_message)
    }
}

/// The characters that `char::to_uppercase` gives for `c`.
pub uninterp spec fn upper_of(c: char) -> Seq<char>;

/// The characters that `char::to_lowercase` gives for `c`.
pub uninterp spec fn lower_of(c: char) -> Seq<char>;

/// `char::to_uppercase`, collected, as `upper_of` names it.
#[verifier::external_body]
fn char_upper(c: char) -> (s: String)
    ensures
        s@ == upper_of(c),
{
    c.to_uppercase().collect()
}

/// `char::to_lowercase`, collected, as `lower_of` names it.
#[verifier::external_body]
fn char_lower(c: char) -> (s: String)
    ensures
        s@ == lower_of(c),
{
    c.to_lowercase().collect()
}

/// Every character of `s` in lower case.
pub open spec fn lower_each(s: Seq<char>) -> Seq<char>
    decreases s.len(),
{
    if s.len() == 0 { Seq::empty() } else { lower_each(s.drop_last()) + lower_of(s.last()) }
}

/// A name written like a name: the first character in upper case, the
/// others in lower case.
pub open spec fn capitalized(s: Seq<char>) -> Seq<char> {
    if s.len() == 0 { Seq::empty() } else { upper_of(s[0]) + lower_each(s.drop_first()) }
}

/// The initial of a name in upper case, `U` for an empty name.
pub open spec fn initial_of(s: Seq<char>) -> Seq<char> {
    if s.len() == 0 { "U"@ } else { upper_of(s[0]) }
}

fn capitalize_like_name(s: &Vec<char>, from: usize, to: usize) -> (r: Vec<char>)
    requires
        from <= to <= s@.len(),
    ensures
        r@ == capitalized(s@.subrange(from as int, to as int)),
{
    let ghost w = s@.subrange(from as int, to as int);
    let mut out: Vec<char> = Vec::new();
    if from == to {
        return out;
    }
    let u = char_upper(s[from]);
    push_str(&mut out, u.as_str());
    let mut i: usize = from + 1;
    while i < to
        invariant
            from < i <= to <= s@.len(),
            w == s@.subrange(from as int, to as int),
            out@ == upper_of(w[0]) + lower_each(s@.subrange(from + 1, i as int)),
        decreases to - i,
    {
        let l = char_lower(s[i]);
        push_str(&mut out, l.as_str());
        proof {
            assert(s@.subrange(from + 1, i + 1).drop_last() == s@.subrange(from + 1, i as int));
        }
        i = i + 1;
    }
    assert(w.drop_first() == s@.subrange(from + 1, to as int));
    out
}

fn push_initial(out: &mut Vec<char>, s: &Vec<char>, from: usize, to: usize)
    requires
        from <= to <= s@.len(),
    ensures
        final(out)@ == old(out)@ + initial_of(s@.subrange(from as int, to as int)),
{
    if from == to {
        out.push('U');
        assert(old(out)@.push('U') == old(out)@ + "U"@) by {
            reveal_strlit("U");
        }
    } else {
        let u = char_upper(s[from]);
        push_str(out, u.as_str());
    }
}

/// The position of the first whitespace in `s`, or its length.
pub open spec fn first_ws(s: Seq<char>) -> int
    decreases s.len(),
{
    if s.len() == 0 {
        0
    } else if is_ws(s[0]) {
        0
    } else {
        1 + first_ws(s.drop_first())
    }
}

proof fn lemma_first_ws(s: Seq<char>, k: int)
    requires
        0 <= k <= s.len(),
        forall|j: int| 0 <= j < k ==> !is_ws(#[trigger] s[j]),
        k < s.len() ==> is_ws(s[k]),
    ensures
        first_ws(s) == k,
    decreases k,
{
    if k > 0 {
        assert forall|j: int| 0 <= j < k - 1 implies !is_ws(#[trigger] s.drop_first()[j]) by {
            assert(s.drop_first()[j] == s[j + 1]);
        }
        lemma_first_ws(s.drop_first(), k - 1);
    }
}

/// The first whitespace at or after `from` and before `to`, or `to`.
fn first_ws_in(v: &Vec<char>, from: usize, to: usize) -> (k: usize)
    requires
        from <= to <= v@.len(),
    ensures
        from <= k <= to,
        k - from == first_ws(v@.subrange(from as int, to as int)),
{
    let mut k = from;
    while k < to && !is_whitespace(v[k])
        invariant
            from <= k <= to <= v@.len(),
            forall|j: int| from <= j < k ==> !is_ws(#[trigger] v@[j]),
        decreases to - k,
    {
        k = k + 1;
    }
    proof {
        let w = v@.subrange(from as int, to as int);
        assert forall|j: int| 0 <= j < k - from implies !is_ws(#[trigger] w[j]) by {
            assert(w[j] == v@[from + j]);
        }
        lemma_first_ws(w, k - from);
    }
    k
}

/// The first word of `s` (up to the first whitespace).
pub open spec fn first_word(s: Seq<char>) -> Seq<char> {
    s.take(first_ws(s))
}

/// The label made from a user name when no names are known: the first word
/// written like a name, then the initial of the second word (of the first
/// when there is no second), then a dot; `User U.` for a blank user name.
pub open spec fn label_from_username(u: Seq<char>) -> Seq<char> {
    let t = trim(u);
    if t.len() == 0 {
        "User U."@
    } else {
        let w1 = first_word(t);
        let rest = trim_start(t.skip(w1.len() as int));
        let src = if rest.len() == 0 { w1 } else { first_word(rest) };
        capitalized(w1) + " "@ + initial_of(src) + "."@
    }
}

/// The public label of a winner: the trimmed given name written like a
/// name, a space, the initial of the trimmed family name and a dot; when
/// both names are blank, the label made from the user name.
pub open spec fn public_label(first: Seq<char>, last: Seq<char>, username: Seq<char>) -> Seq<char> {
    let f = trim(first);
    let l = trim(last);
    if f.len() > 0 || l.len() > 0 {
        capitalized(f) + " "@ + initial_of(l) + "."@
    } else {
        label_from_username(username)
    }
}

fn winner_label_from_username(username: &str) -> (r: String)
    ensures
        r@ == label_from_username(username@),
{
    let v = chars_of(username);
    let (a, b) = trim_bounds(&v, 0, v.len());
    assert(v@.subrange(0, v@.len() as int) == v@);
    let ghost t = v@.subrange(a as int, b as int);
    if a == b {
        return string_from("User U.");
    }
    let e1 = first_ws_in(&v, a, b);
    let c = skip_ws(&v, e1, b);
    let ghost w1 = t.take(first_ws(t));
    proof {
        assert(w1 == v@.subrange(a as int, e1 as int));
        assert(t.skip(w1.len() as int) == v@.subrange(e1 as int, b as int));
    }
    let mut out = capitalize_like_name(&v, a, e1);
    out.push(' ');
    if c == b {
        push_initial(&mut out, &v, a, e1);
    } else {
        let e2 = first_ws_in(&v, c, b);
        proof {
            assert(v@.subrange(c as int, b as int).take(e2 - c) == v@.subrange(c as int, e2 as int));
        }
        push_initial(&mut out, &v, c, e2);
    }
    out.push('.');
    proof {
        reveal_strlit(" ");
        reveal_strlit(".");
    }
    string_of(&out)
}

/// The public label of a winner (see `public_label`).
pub fn winner_public_label(first_name: &str, last_name: &str, username_fallback: &str) -> (r: String)
    ensures
        r@ == public_label(first_name@, last_name@, username_fallback@),
{
    let fv = chars_of(first_name);
    let lv = chars_of(last_name);
    let (a, b) = trim_bounds(&fv, 0, fv.len());
    let (c, d) = trim_bounds(&lv, 0, lv.len());
    assert(fv@.subrange(0, fv@.len() as int) == fv@);
    assert(lv@.subrange(0, lv@.len() as int) == lv@);
    if a < b || c < d {
        let mut out = capitalize_like_name(&fv, a, b);
        out.push(' ');
        push_initial(&mut out, &lv, c, d);
        out.push('.');
        proof {
            reveal_strlit(" ");
            reveal_strlit(".");
        }
        return string_of(&out);
    }
    winner_label_from_username(username_fallback)
}

/// Where a visitor's session stands.
pub enum AuthState {
    /// The stored token is being checked.
    Loading,
    /// No valid session.
    LoggedOut,
    /// A valid token decoded to this user.
    LoggedIn(UserDto),
}

/// What the token check found: no stored token, or the server's answer
/// (`Ok(Some(user))` for a valid token).
pub enum TokenCheck {
    NoToken,
    Checked(Result<Option<UserDto>, String>),
}

/// The session after the stored token is checked, and whether the stored
/// token must be cleared: a valid token signs the user in; no token signs
/// out; an invalid token or a failed check signs out and clears the token.
pub fn session_after_check(check: TokenCheck) -> (r: (AuthState, bool))
    ensures
        match check {
            TokenCheck::NoToken => r.0 is LoggedOut && !r.1,
            TokenCheck::Checked(Ok(Some(u))) => (r.0 matches AuthState::LoggedIn(v) && v@ == u@) && !r.1,
            TokenCheck::Checked(_) => r.0 is LoggedOut && r.1,
        },
{
    match check {
        TokenCheck::NoToken => (AuthState::LoggedOut, false),
        TokenCheck::Checked(Ok(Some(u))) => (AuthState::LoggedIn(u), false),
        TokenCheck::Checked(_) => (AuthState::LoggedOut, true),
    }
}

/// Where an admin page sends a visitor.
#[derive(PartialEq, Eq, Structural, Clone, Copy, Debug)]
pub enum AdminRedirect {
    Stay,
    Login,
    Rewards,
    Home,
}

/// Whom an admin page turns away: signed-in users who are not admins go to
/// the rewards page or to the home page, or stay (the page then shows only
/// what they may see).
#[derive(PartialEq, Eq, Structural, Clone, Copy, Debug)]
pub enum OthersGo {
    ToRewards,
    ToHome,
    Nowhere,
}

/// Where a page guarded as `others` says sends a visitor: signed-out
/// visitors to the login page, admins nowhere, other users as `others`
/// says; nobody while the session loads.
pub open spec fn guard_target(state: AuthState, others: OthersGo) -> AdminRedirect {
    match state {
        AuthState::Loading => AdminRedirect::Stay,
        AuthState::LoggedOut => AdminRedirect::Login,
        AuthState::LoggedIn(u) => if u.role == Role::Admin {
            AdminRedirect::Stay
        } else {
            match others {
                OthersGo::ToRewards => AdminRedirect::Rewards,
                OthersGo::ToHome => AdminRedirect::Home,
                OthersGo::Nowhere => AdminRedirect::Stay,
            }
        },
    }
}

/// Where a page guarded as `others` says sends a visitor.
pub fn guard_redirect(state: &AuthState, others: OthersGo) -> (r: AdminRedirect)
    ensures
        r == guard_target(*state, others),
{
    match state {
        AuthState::Loading => AdminRedirect::Stay,
        AuthState::LoggedOut => AdminRedirect::Login,
        AuthState::LoggedIn(u) => if u.role == Role::Admin {
            AdminRedirect::Stay
        } else {
            match others {
                OthersGo::ToRewards => AdminRedirect::Rewards,
                OthersGo::ToHome => AdminRedirect::Home,
                OthersGo::Nowhere => AdminRedirect::Stay,
            }
        },
    }
}

/// An admin page keeps admins, sends signed-out visitors to the login page
/// and other users to the rewards page, and waits while the session loads.
pub fn admin_page_redirect(state: &AuthState) -> (r: AdminRedirect)
    ensures
        r == guard_target(*state, OthersGo::ToRewards),
{
    guard_redirect(state, OthersGo::ToRewards)
}

/// A guarded page keeps an admin, whatever it does with other users.
pub proof fn law_guard_keeps_admins(u: UserDto, others: OthersGo)
    requires
        u.role == Role::Admin,
    ensures
        guard_target(AuthState::LoggedIn(u), others) == AdminRedirect::Stay,
        guard_target(AuthState::LoggedOut, others) == AdminRedirect::Login,
{
}

/// Admins may do whatever any role may; only admins may do what needs an admin.
pub proof fn law_role_order(role: Role, min: Role)
    ensures
        role_allows(Role::Admin, min),
        role_allows(role, Role::Editor),
        role_allows(role, Role::Admin) <==> role == Role::Admin,
{
}

/// Why the sign-up form is not sent.
#[derive(PartialEq, Eq, Structural, Clone, Copy, Debug)]
pub enum SignUpProblem {
    /// The password and its confirmation differ.
    PasswordMismatch,
    /// A field is empty (the names count as empty when blank).
    MissingField,
}

/// The sign-up form's check: the passwords must agree, then user name,
/// e-mail and password must not be empty and the names not blank.
pub open spec fn sign_up_problem(
    username: Seq<char>,
    email: Seq<char>,
    first: Seq<char>,
    last: Seq<char>,
    password: Seq<char>,
    confirm: Seq<char>,
) -> Option<SignUpProblem> {
    if password != confirm {
        Some(SignUpProblem::PasswordMismatch)
    } else if username.len() == 0 || email.len() == 0 || trim(first).len() == 0 || trim(last).len() == 0 || password.len() == 0 {
        Some(SignUpProblem::MissingField)
    } else {
        None
    }
}

fn is_blank(s: &str) -> (b: bool)
    ensures
        b == (trim(s@).len() == 0),
{
    let v = chars_of(s);
    let (a, b) = trim_bounds(&v, 0, v.len());
    assert(v@.subrange(0, v@.len() as int) == v@);
    a == b
}

pub fn check_sign_up(username: &str, email: &str, first_name: &str, last_name: &str, password: &str, confirm: &str) -> (r: Option<SignUpProblem>)
    ensures
        r == sign_up_problem(username@, email@, first_name@, last_name@, password@, confirm@),
{
    if !crate::text::str_eq(password, confirm) {
        return Some(SignUpProblem::PasswordMismatch);
    }
    if username.unicode_len() == 0 || email.unicode_len() == 0 || is_blank(first_name) || is_blank(last_name)
        || password.unicode_len() == 0 {
        return Some(SignUpProblem::MissingField);
    }
    None
}

impl SignUpProblem {
    /// The translation key of the message shown.
    pub fn message_key(&self) -> (s: &'static str)
        ensures
            s@ == match *self {
                SignUpProblem::PasswordMismatch => "login.error.password_mismatch"@,
                SignUpProblem::MissingField => "login.error.required"@,
            },
    {
        match self {
            SignUpProblem::PasswordMismatch => "login.error.password_mismatch",
            SignUpProblem::MissingField => "login.error.required",
        }
    }
}

} // verus!
