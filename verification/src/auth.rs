//! Account registration and sign-in.
//!
//! Each of the three flows (registering a company admin, registering an
//! invited member, signing in) interleaves storage lookups and writes with
//! decisions. The decisions live here as a state machine: a flow is started
//! by `AuthService`, answers with an `AuthAction` for the caller to carry
//! out, and takes the outcome back as an `AuthEvent` through
//! `AuthFlow::step`, until it finishes with a session or fails.

use vstd::prelude::*;
use vstd::utf8::encode_utf8;
use crate::text::{contains_char, trim, trim_str};
use crate::models::{AuthToken, Company, CompanyInvite, CompanyMember, User};

verus! {

/// Shortest accepted password, in bytes of its UTF-8 encoding.
pub const MIN_PASSWORD_BYTES: usize = 8;

/// Request to create a company together with its first (admin) user.
#[derive(Debug, Clone, PartialEq, Eq)]
pub struct RegisterAdminRequest {
    pub company_name: String,
    pub email: String,
    pub name: String,
    pub password: String,
}

/// Request of an invited person to join an existing company.
#[derive(Debug, Clone, PartialEq, Eq)]
pub struct RegisterMemberRequest {
    pub company_slug: String,
    pub email: String,
    pub name: String,
    pub password: String,
}

/// Request to sign in with email and password.
#[derive(Debug, Clone, PartialEq, Eq)]
pub struct SignInRequest {
    pub email: String,
    pub password: String,
}

/// What the caller supplies when a flow asks to `Prepare`: the current time
/// in milliseconds, fresh identifiers for a new company, a new user and a new membership, the
/// slug of the company name and the hash of the password (the last two only
/// where the `Prepare` action names a text for them).
#[derive(Debug, Clone, PartialEq, Eq)]
pub struct Prepared {
    pub now: i64,
    pub company_id: u128,
    pub user_id: u128,
    pub membership_id: u128,
    pub slug: String,
    pub password_hash: String,
}

/// The result of a successful flow.
#[derive(Debug, Clone, PartialEq, Eq)]
pub struct AuthSession {
    pub user_id: u128,
    pub email: String,
    pub name: String,
    pub company_id: u128,
    pub company_name: String,
    pub company_slug: String,
    pub role: String,
    pub token: String,
}

/// Why a flow failed.
#[derive(Debug, Clone, PartialEq, Eq)]
pub enum AuthError {
    CompanyNameRequired,
    InvalidEmail,
    PasswordTooShort,
    EmailAlreadyRegistered,
    CompanyNotFound,
    NoInvitation,
    NoAccount,
    IncorrectPassword,
    NoMembership,
    /// A lookup, write, hash or token operation failed with this message.
    Backend(String),
}

/// A write the caller performs on the store.
#[derive(Debug, Clone, PartialEq, Eq)]
pub enum AuthWrite {
    CreateCompany(Company),
    CreateUser(User),
    CreateMembership(CompanyMember),
    CreateDefaultConfig { company_id: u128, updated_at: i64 },
    MarkInviteUsed { invite_id: u128, used_at: i64 },
}

/// What a flow asks its caller to do next.
#[derive(Debug, Clone, PartialEq, Eq)]
pub enum AuthAction {
    FindUserByEmail(String),
    FindCompanyBySlug(String),
    FindInvite { email: String, company_id: u128 },
    VerifyPassword { password: String, password_hash: String },
    FindMembership(u128),
    FindCompanyById(u128),
    /// Read the clock and make fresh identifiers; slug `slug_of` and hash
    /// `hash_of` where they are given.
    Prepare { slug_of: Option<String>, hash_of: Option<String> },
    Write(AuthWrite),
    CreateToken { user_id: u128, company_id: u128, role: String, ttl_seconds: i64 },
    StoreToken(AuthToken),
    Finish(AuthSession),
    Fail(AuthError),
}

/// The outcome of an action, handed back to the flow.
#[derive(Debug, Clone, PartialEq, Eq)]
pub enum AuthEvent {
    UserLookup(Option<User>),
    CompanyLookup(Option<Company>),
    InviteLookup(Option<CompanyInvite>),
    PasswordChecked(bool),
    MembershipLookup(Option<CompanyMember>),
    CompanyLoaded(Company),
    Prepared(Prepared),
    Written,
    TokenCreated(String),
    TokenStored,
    /// The action failed with this message.
    Failed(String),
}

/// The session a flow is about to grant, with the times of its token.
#[derive(Debug, Clone, PartialEq, Eq)]
pub struct Grant {
    pub user_id: u128,
    /// The identifier of the membership a registration creates.
    pub membership_id: u128,
    pub email: String,
    pub name: String,
    pub company_id: u128,
    pub company_name: String,
    pub company_slug: String,
    pub role: String,
    pub ttl_seconds: i64,
    pub created_at: i64,
    pub expires_at: i64,
}

/// The write that follows the membership in a registration.
#[derive(Debug, Clone, PartialEq, Eq)]
pub enum FollowUp {
    /// A new company gets its default configuration.
    DefaultConfig,
    /// The invitation that admitted the member is marked as used.
    InviteUsed(u128),
}

/// The state of a flow: what it waits for, and what it has learnt so far.
#[derive(Debug, Clone, PartialEq, Eq)]
pub enum AuthFlow {
    /// `role` is the role the registrant will hold, `admin`.
    AdminAwaitUser { req: RegisterAdminRequest, ttl: i64, role: String },
    AdminAwaitPrepared { req: RegisterAdminRequest, ttl: i64, role: String },
    AwaitCompanyCreated { grant: Grant, password_hash: String },
    MemberAwaitCompany { req: RegisterMemberRequest, ttl: i64 },
    MemberAwaitInvite { req: RegisterMemberRequest, ttl: i64, company: Company },
    MemberAwaitUser {
        req: RegisterMemberRequest,
        ttl: i64,
        company: Company,
        invite: CompanyInvite,
    },
    MemberAwaitPrepared {
        req: RegisterMemberRequest,
        ttl: i64,
        company: Company,
        invite: CompanyInvite,
    },
    AwaitUserCreated { grant: Grant, follow: FollowUp },
    AwaitMembershipCreated { grant: Grant, follow: FollowUp },
    AwaitFollowUpWritten { grant: Grant },
    SignInAwaitUser { req: SignInRequest, ttl: i64 },
    SignInAwaitCheck { ttl: i64, user: User },
    SignInAwaitMembership { ttl: i64, user: User },
    SignInAwaitCompany { ttl: i64, user: User, membership: CompanyMember },
    SignInAwaitPrepared {
        ttl: i64,
        user: User,
        membership: CompanyMember,
        company: Company,
    },
    AwaitToken { grant: Grant },
    AwaitStore { grant: Grant, token: String },
    Done,
}

/// The role of the user who registers a company.
pub open spec fn admin_role() -> Seq<char> {
    seq!['a', 'd', 'm', 'i', 'n']
}

/// Whether `now + ttl_seconds * 1000` stays within `i64`.
pub open spec fn expiry_fits(now: i64, ttl_seconds: i64) -> bool {
    &&& i64::MIN <= ttl_seconds * 1000 <= i64::MAX
    &&& i64::MIN <= now + ttl_seconds * 1000 <= i64::MAX
}

/// A token created at `now` (milliseconds) with a lifetime of `ttl_seconds`
/// expires `ttl_seconds * 1000` milliseconds later.
pub open spec fn expiry(now: i64, ttl_seconds: i64) -> i64 {
    (now + ttl_seconds * 1000) as i64
}

/// Byte length of the UTF-8 encoding of a text (`str::len`; the encoding
/// of a text held in memory always fits in `usize`).
pub open spec fn byte_len(s: Seq<char>) -> usize {
    encode_utf8(s).len() as usize
}

/// The message reported for an error.
pub open spec fn error_message(e: AuthError) -> Seq<char> {
    match e {
        AuthError::CompanyNameRequired => "Company name is required"@,
        AuthError::InvalidEmail => "Valid email is required"@,
        AuthError::PasswordTooShort => "Password must be at least 8 characters"@,
        AuthError::EmailAlreadyRegistered => "Email already registered"@,
        AuthError::CompanyNotFound => "Company not found"@,
        AuthError::NoInvitation => "No invitation found"@,
        AuthError::NoAccount => "No account found"@,
        AuthError::IncorrectPassword => "Incorrect password"@,
        AuthError::NoMembership => "No company membership found"@,
        AuthError::Backend(m) => m@,
    }
}

impl AuthError {
    /// The message reported for this error.
    pub fn message(&self) -> (r: String)
        ensures
            r@ == error_message(*self),
    {
        match self {
            AuthError::CompanyNameRequired => String::from_str("Company name is required"),
            AuthError::InvalidEmail => String::from_str("Valid email is required"),
            AuthError::PasswordTooShort => String::from_str("Password must be at least 8 characters"),
            AuthError::EmailAlreadyRegistered => String::from_str("Email already registered"),
            AuthError::CompanyNotFound => String::from_str("Company not found"),
            AuthError::NoInvitation => String::from_str("No invitation found"),
            AuthError::NoAccount => String::from_str("No account found"),
            AuthError::IncorrectPassword => String::from_str("Incorrect password"),
            AuthError::NoMembership => String::from_str("No company membership found"),
            AuthError::Backend(m) => m.clone(),
        }
    }
}

/// The first check that a company registration fails, if any.
pub open spec fn admin_request_error(req: RegisterAdminRequest) -> Option<AuthError> {
    if trim(req.company_name@).len() == 0 {
        Some(AuthError::CompanyNameRequired)
    } else if !req.email@.contains('@') {
        Some(AuthError::InvalidEmail)
    } else if byte_len(req.password@) < 8 {
        Some(AuthError::PasswordTooShort)
    } else {
        None
    }
}

/// The first check that a member registration fails, if any.
pub open spec fn member_request_error(req: RegisterMemberRequest) -> Option<AuthError> {
    if !req.email@.contains('@') {
        Some(AuthError::InvalidEmail)
    } else if byte_len(req.password@) < 8 {
        Some(AuthError::PasswordTooShort)
    } else {
        None
    }
}

/// The session granted, carrying `token`.
pub open spec fn session_of(g: Grant, token: String) -> AuthSession {
    AuthSession {
        user_id: g.user_id,
        email: g.email,
        name: g.name,
        company_id: g.company_id,
        company_name: g.company_name,
        company_slug: g.company_slug,
        role: g.role,
        token: token,
    }
}

/// The action that asks for a token for the grant.
pub open spec fn token_request(g: Grant) -> AuthAction {
    AuthAction::CreateToken {
        user_id: g.user_id,
        company_id: g.company_id,
        role: g.role,
        ttl_seconds: g.ttl_seconds,
    }
}

/// How a flow ends in failure.
pub open spec fn failure(e: AuthError) -> (AuthFlow, AuthAction) {
    (AuthFlow::Done, AuthAction::Fail(e))
}

impl AuthFlow {
    /// The time-to-live of the token this flow will ask for, where the
    /// state still holds it apart from a grant.
    pub open spec fn ttl_of(self) -> i64 {
        match self {
            AuthFlow::AdminAwaitPrepared { ttl, .. } => ttl,
            AuthFlow::MemberAwaitPrepared { ttl, .. } => ttl,
            AuthFlow::SignInAwaitPrepared { ttl, .. } => ttl,
            _ => 0,
        }
    }

    /// Whether the flow waits for `e`: each state takes the outcome of the
    /// action it asked for, or a failure; the clock reading of `Prepared`
    /// must leave room for the token's expiry time. A finished flow takes
    /// nothing.
    pub open spec fn awaits(self, e: AuthEvent) -> bool {
        match e {
            AuthEvent::Failed(_) => !(self is Done),
            AuthEvent::UserLookup(_) => self is AdminAwaitUser || self is MemberAwaitUser
                || self is SignInAwaitUser,
            AuthEvent::CompanyLookup(_) => self is MemberAwaitCompany,
            AuthEvent::InviteLookup(_) => self is MemberAwaitInvite,
            AuthEvent::PasswordChecked(_) => self is SignInAwaitCheck,
            AuthEvent::MembershipLookup(_) => self is SignInAwaitMembership,
            AuthEvent::CompanyLoaded(_) => self is SignInAwaitCompany,
            AuthEvent::Prepared(p) => (self is AdminAwaitPrepared || self is MemberAwaitPrepared
                || self is SignInAwaitPrepared) && expiry_fits(p.now, self.ttl_of()),
            AuthEvent::Written => self is AwaitCompanyCreated || self is AwaitUserCreated
                || self is AwaitMembershipCreated || self is AwaitFollowUpWritten,
            AuthEvent::TokenCreated(_) => self is AwaitToken,
            AuthEvent::TokenStored => self is AwaitStore,
        }
    }

    /// The transition of the flow on an awaited event: the next state and
    /// the action the caller carries out next.
    pub open spec fn next(self, e: AuthEvent) -> (AuthFlow, AuthAction) {
        if let AuthEvent::Failed(msg) = e {
            failure(AuthError::Backend(msg))
        } else {
            match self {
                AuthFlow::AdminAwaitUser { req, ttl, role } => match e {
                    AuthEvent::UserLookup(Some(_)) => failure(AuthError::EmailAlreadyRegistered),
                    _ => (
                        AuthFlow::AdminAwaitPrepared { req, ttl, role },
                        AuthAction::Prepare {
                            slug_of: Some(req.company_name),
                            hash_of: Some(req.password),
                        },
                    ),
                },
                AuthFlow::AdminAwaitPrepared { req, ttl, role } => match e {
                    AuthEvent::Prepared(p) => {
                        let grant = Grant {
                            user_id: p.user_id,
                            membership_id: p.membership_id,
                            email: req.email,
                            name: req.name,
                            company_id: p.company_id,
                            company_name: req.company_name,
                            company_slug: p.slug,
                            role,
                            ttl_seconds: ttl,
                            created_at: p.now,
                            expires_at: expiry(p.now, ttl),
                        };
                        (
                            AuthFlow::AwaitCompanyCreated { grant, password_hash: p.password_hash },
                            AuthAction::Write(
                                AuthWrite::CreateCompany(Company {
                                    id: p.company_id,
                                    name: req.company_name,
                                    slug: p.slug,
                                    created_at: p.now,
                                    updated_at: p.now,
                                }),
                            ),
                        )
                    },
                    _ => arbitrary(),
                },
                AuthFlow::AwaitCompanyCreated { grant, password_hash } => (
                    AuthFlow::AwaitUserCreated { grant, follow: FollowUp::DefaultConfig },
                    AuthAction::Write(
                        AuthWrite::CreateUser(User {
                            id: grant.user_id,
                            email: grant.email,
                            name: grant.name,
                            password_hash,
                            created_at: grant.created_at,
                        }),
                    ),
                ),
                AuthFlow::MemberAwaitCompany { req, ttl } => match e {
                    AuthEvent::CompanyLookup(Some(company)) => (
                        AuthFlow::MemberAwaitInvite { req, ttl, company },
                        AuthAction::FindInvite { email: req.email, company_id: company.id },
                    ),
                    _ => failure(AuthError::CompanyNotFound),
                },
                AuthFlow::MemberAwaitInvite { req, ttl, company } => match e {
                    AuthEvent::InviteLookup(Some(invite)) => (
                        AuthFlow::MemberAwaitUser { req, ttl, company, invite },
                        AuthAction::FindUserByEmail(req.email),
                    ),
                    _ => failure(AuthError::NoInvitation),
                },
                AuthFlow::MemberAwaitUser { req, ttl, company, invite } => match e {
                    AuthEvent::UserLookup(Some(_)) => failure(AuthError::EmailAlreadyRegistered),
                    _ => (
                        AuthFlow::MemberAwaitPrepared { req, ttl, company, invite },
                        AuthAction::Prepare { slug_of: None, hash_of: Some(req.password) },
                    ),
                },
                AuthFlow::MemberAwaitPrepared { req, ttl, company, invite } => match e {
                    AuthEvent::Prepared(p) => {
                        let grant = Grant {
                            user_id: p.user_id,
                            membership_id: p.membership_id,
                            email: req.email,
                            name: req.name,
                            company_id: company.id,
                            company_name: company.name,
                            company_slug: company.slug,
                            role: invite.role,
                            ttl_seconds: ttl,
                            created_at: p.now,
                            expires_at: expiry(p.now, ttl),
                        };
                        (
                            AuthFlow::AwaitUserCreated {
                                grant,
                                follow: FollowUp::InviteUsed(invite.id),
                            },
                            AuthAction::Write(
                                AuthWrite::CreateUser(User {
                                    id: p.user_id,
                                    email: req.email,
                                    name: req.name,
                                    password_hash: p.password_hash,
                                    created_at: p.now,
                                }),
                            ),
                        )
                    },
                    _ => arbitrary(),
                },
                AuthFlow::AwaitUserCreated { grant, follow } => (
                    AuthFlow::AwaitMembershipCreated { grant, follow },
                    AuthAction::Write(
                        AuthWrite::CreateMembership(CompanyMember {
                            id: grant.membership_id,
                            company_id: grant.company_id,
                            user_id: grant.user_id,
                            role: grant.role,
                            joined_at: grant.created_at,
                        }),
                    ),
                ),
                AuthFlow::AwaitMembershipCreated { grant, follow } => (
                    AuthFlow::AwaitFollowUpWritten { grant },
                    AuthAction::Write(
                        match follow {
                            FollowUp::DefaultConfig => AuthWrite::CreateDefaultConfig {
                                company_id: grant.company_id,
                                updated_at: grant.created_at,
                            },
                            FollowUp::InviteUsed(invite_id) => AuthWrite::MarkInviteUsed {
                                invite_id,
                                used_at: grant.created_at,
                            },
                        },
                    ),
                ),
                AuthFlow::AwaitFollowUpWritten { grant } => (
                    AuthFlow::AwaitToken { grant },
                    token_request(grant),
                ),
                AuthFlow::SignInAwaitUser { req, ttl } => match e {
                    AuthEvent::UserLookup(Some(user)) => (
                        AuthFlow::SignInAwaitCheck { ttl, user },
                        AuthAction::VerifyPassword {
                            password: req.password,
                            password_hash: user.password_hash,
                        },
                    ),
                    _ => failure(AuthError::NoAccount),
                },
                AuthFlow::SignInAwaitCheck { ttl, user } => match e {
                    AuthEvent::PasswordChecked(true) => (
                        AuthFlow::SignInAwaitMembership { ttl, user },
                        AuthAction::FindMembership(user.id),
                    ),
                    _ => failure(AuthError::IncorrectPassword),
                },
                AuthFlow::SignInAwaitMembership { ttl, user } => match e {
                    AuthEvent::MembershipLookup(Some(membership)) => (
                        AuthFlow::SignInAwaitCompany { ttl, user, membership },
                        AuthAction::FindCompanyById(membership.company_id),
                    ),
                    _ => failure(AuthError::NoMembership),
                },
                AuthFlow::SignInAwaitCompany { ttl, user, membership } => match e {
                    AuthEvent::CompanyLoaded(company) => (
                        AuthFlow::SignInAwaitPrepared { ttl, user, membership, company },
                        AuthAction::Prepare { slug_of: None, hash_of: None },
                    ),
                    _ => arbitrary(),
                },
                AuthFlow::SignInAwaitPrepared { ttl, user, membership, company } => match e {
                    AuthEvent::Prepared(p) => {
                        let grant = Grant {
                            user_id: user.id,
                            membership_id: p.membership_id,
                            email: user.email,
                            name: user.name,
                            company_id: company.id,
                            company_name: company.name,
                            company_slug: company.slug,
                            role: membership.role,
                            ttl_seconds: ttl,
                            created_at: p.now,
                            expires_at: expiry(p.now, ttl),
                        };
                        (AuthFlow::AwaitToken { grant }, token_request(grant))
                    },
                    _ => arbitrary(),
                },
                AuthFlow::AwaitToken { grant } => match e {
                    AuthEvent::TokenCreated(token) => (
                        AuthFlow::AwaitStore { grant, token },
                        AuthAction::StoreToken(AuthToken {
                            token,
                            user_id: grant.user_id,
                            company_id: grant.company_id,
                            created_at: grant.created_at,
                            expires_at: grant.expires_at,
                        }),
                    ),
                    _ => arbitrary(),
                },
                AuthFlow::AwaitStore { grant, token } => (
                    AuthFlow::Done,
                    AuthAction::Finish(session_of(grant, token)),
                ),
                AuthFlow::Done => arbitrary(),
            }
        }
    }
}


/// The first check that a company registration fails, if any: a blank
/// company name, an email without `@`, a password shorter than 8 bytes.
pub fn check_admin_request(req: &RegisterAdminRequest) -> (r: Option<AuthError>)
    ensures
        r == admin_request_error(*req),
{
    if trim_str(req.company_name.as_str()).is_empty() {
        Some(AuthError::CompanyNameRequired)
    } else if !contains_char(req.email.as_str(), '@') {
        Some(AuthError::InvalidEmail)
    } else if req.password.as_str().len() < MIN_PASSWORD_BYTES {
        Some(AuthError::PasswordTooShort)
    } else {
        None
    }
}

/// The first check that a member registration fails, if any: an email
/// without `@`, a password shorter than 8 bytes.
pub fn check_member_request(req: &RegisterMemberRequest) -> (r: Option<AuthError>)
    ensures
        r == member_request_error(*req),
{
    if !contains_char(req.email.as_str(), '@') {
        Some(AuthError::InvalidEmail)
    } else if req.password.as_str().len() < MIN_PASSWORD_BYTES {
        Some(AuthError::PasswordTooShort)
    } else {
        None
    }
}

/// Whether `now + ttl_seconds * 1000` stays within `i64`.
pub fn expiry_in_range(now: i64, ttl_seconds: i64) -> (b: bool)
    ensures
        b == expiry_fits(now, ttl_seconds),
{
    match ttl_seconds.checked_mul(1000) {
        Some(ms) => now.checked_add(ms).is_some(),
        None => false,
    }
}

fn fail(e: AuthError) -> (r: (AuthFlow, AuthAction))
    ensures
        r == failure(e),
{
    (AuthFlow::Done, AuthAction::Fail(e))
}

fn request_token(grant: &Grant) -> (r: AuthAction)
    ensures
        r == token_request(*grant),
{
    AuthAction::CreateToken {
        user_id: grant.user_id,
        company_id: grant.company_id,
        role: grant.role.clone(),
        ttl_seconds: grant.ttl_seconds,
    }
}

/// The service that starts the account flows.
#[derive(Debug, Clone, Copy)]
pub struct AuthService;

/// How a company registration starts: with the first failed check, or by
/// looking up the email.
pub open spec fn admin_start(req: RegisterAdminRequest, ttl_seconds: i64, role: String) -> (
    AuthFlow,
    AuthAction,
) {
    match admin_request_error(req) {
        Some(e) => failure(e),
        None => (
            AuthFlow::AdminAwaitUser { req, ttl: ttl_seconds, role },
            AuthAction::FindUserByEmail(req.email),
        ),
    }
}

/// How a member registration starts: with the first failed check, or by
/// looking up the company by its slug.
pub open spec fn member_start(req: RegisterMemberRequest, ttl_seconds: i64) -> (
    AuthFlow,
    AuthAction,
) {
    match member_request_error(req) {
        Some(e) => failure(e),
        None => (
            AuthFlow::MemberAwaitCompany { req, ttl: ttl_seconds },
            AuthAction::FindCompanyBySlug(req.company_slug),
        ),
    }
}

/// How a sign-in starts: by looking up the email.
pub open spec fn sign_in_start(req: SignInRequest, ttl_seconds: i64) -> (AuthFlow, AuthAction) {
    (AuthFlow::SignInAwaitUser { req, ttl: ttl_seconds }, AuthAction::FindUserByEmail(req.email))
}

impl AuthService {
    /// Starts registering a company and its admin; tokens live
    /// `ttl_seconds`.
    pub fn register_admin(&self, req: RegisterAdminRequest, ttl_seconds: i64) -> (r: (
        AuthFlow,
        AuthAction,
    ))
        ensures
            exists|role: String| role@ == admin_role() && r == admin_start(req, ttl_seconds, role),
    {
        let role = String::from_str("admin");
        proof {
            reveal_strlit("admin");
        }
        let check = check_admin_request(&req);
        match check {
            Some(e) => fail(e),
            None => {
                let email = req.email.clone();
                (AuthFlow::AdminAwaitUser { req, ttl: ttl_seconds, role }, AuthAction::FindUserByEmail(email))
            },
        }
    }

    /// Starts registering an invited member; tokens live `ttl_seconds`.
    pub fn register_member(&self, req: RegisterMemberRequest, ttl_seconds: i64) -> (r: (
        AuthFlow,
        AuthAction,
    ))
        ensures
            r == member_start(req, ttl_seconds),
    {
        match check_member_request(&req) {
            Some(e) => fail(e),
            None => {
                let slug = req.company_slug.clone();
                (AuthFlow::MemberAwaitCompany { req, ttl: ttl_seconds }, AuthAction::FindCompanyBySlug(slug))
            },
        }
    }

    /// Starts a sign-in; tokens live `ttl_seconds`.
    pub fn sign_in(&self, req: SignInRequest, ttl_seconds: i64) -> (r: (AuthFlow, AuthAction))
        ensures
            r == sign_in_start(req, ttl_seconds),
    {
        let email = req.email.clone();
        (AuthFlow::SignInAwaitUser { req, ttl: ttl_seconds }, AuthAction::FindUserByEmail(email))
    }
}

impl AuthFlow {
    /// Whether the flow waits for `e` (see `awaits`).
    pub fn accepts(&self, e: &AuthEvent) -> (b: bool)
        ensures
            b == self.awaits(*e),
    {
        match e {
            AuthEvent::Failed(_) => !matches!(self, AuthFlow::Done),
            AuthEvent::UserLookup(_) => matches!(self, AuthFlow::AdminAwaitUser { .. })
                || matches!(self, AuthFlow::MemberAwaitUser { .. })
                || matches!(self, AuthFlow::SignInAwaitUser { .. }),
            AuthEvent::CompanyLookup(_) => matches!(self, AuthFlow::MemberAwaitCompany { .. }),
            AuthEvent::InviteLookup(_) => matches!(self, AuthFlow::MemberAwaitInvite { .. }),
            AuthEvent::PasswordChecked(_) => matches!(self, AuthFlow::SignInAwaitCheck { .. }),
            AuthEvent::MembershipLookup(_) => matches!(self, AuthFlow::SignInAwaitMembership { .. }),
            AuthEvent::CompanyLoaded(_) => matches!(self, AuthFlow::SignInAwaitCompany { .. }),
            AuthEvent::Prepared(p) => match self {
                AuthFlow::AdminAwaitPrepared { ttl, .. } => expiry_in_range(p.now, *ttl),
                AuthFlow::MemberAwaitPrepared { ttl, .. } => expiry_in_range(p.now, *ttl),
                AuthFlow::SignInAwaitPrepared { ttl, .. } => expiry_in_range(p.now, *ttl),
                _ => false,
            },
            AuthEvent::Written => matches!(self, AuthFlow::AwaitCompanyCreated { .. })
                || matches!(self, AuthFlow::AwaitUserCreated { .. })
                || matches!(self, AuthFlow::AwaitMembershipCreated { .. })
                || matches!(self, AuthFlow::AwaitFollowUpWritten { .. }),
            AuthEvent::TokenCreated(_) => matches!(self, AuthFlow::AwaitToken { .. }),
            AuthEvent::TokenStored => matches!(self, AuthFlow::AwaitStore { .. }),
        }
    }

    /// Whether the flow has ended.
    pub fn is_done(&self) -> (b: bool)
        ensures
            b == (*self is Done),
    {
        matches!(self, AuthFlow::Done)
    }

    /// Takes the outcome `e` of the last action; gives the next state and
    /// the next action.
    pub fn step(self, e: AuthEvent) -> (r: (AuthFlow, AuthAction))
        requires
            self.awaits(e),
        ensures
            r == self.next(e),
    {
        if let AuthEvent::Failed(msg) = e {
            return fail(AuthError::Backend(msg));
        }
        match self {
            AuthFlow::AdminAwaitUser { req, ttl, role } => match e {
                AuthEvent::UserLookup(Some(_)) => fail(AuthError::EmailAlreadyRegistered),
                _ => {
                    let slug_of = req.company_name.clone();
                    let hash_of = req.password.clone();
                    (
                        AuthFlow::AdminAwaitPrepared { req, ttl, role },
                        AuthAction::Prepare { slug_of: Some(slug_of), hash_of: Some(hash_of) },
                    )
                },
            },
            AuthFlow::AdminAwaitPrepared { req, ttl, role } => match e {
                AuthEvent::Prepared(p) => {
                    let expires_at = p.now + ttl * 1000;
                    let grant = Grant {
                        user_id: p.user_id,
                        membership_id: p.membership_id,
                        email: req.email,
                        name: req.name,
                        company_id: p.company_id,
                        company_name: req.company_name.clone(),
                        company_slug: p.slug.clone(),
                        role,
                        ttl_seconds: ttl,
                        created_at: p.now,
                        expires_at,
                    };
                    (
                        AuthFlow::AwaitCompanyCreated { grant, password_hash: p.password_hash },
                        AuthAction::Write(
                            AuthWrite::CreateCompany(Company {
                                id: p.company_id,
                                name: req.company_name,
                                slug: p.slug,
                                created_at: p.now,
                                updated_at: p.now,
                            }),
                        ),
                    )
                },
                _ => {
                    proof {
                        assert(false);
                    }
                    fail(AuthError::NoAccount)
                },
            },
            AuthFlow::AwaitCompanyCreated { grant, password_hash } => {
                let w = AuthWrite::CreateUser(User {
                    id: grant.user_id,
                    email: grant.email.clone(),
                    name: grant.name.clone(),
                    password_hash,
                    created_at: grant.created_at,
                });
                (AuthFlow::AwaitUserCreated { grant, follow: FollowUp::DefaultConfig }, AuthAction::Write(w))
            },
            AuthFlow::MemberAwaitCompany { req, ttl } => match e {
                AuthEvent::CompanyLookup(Some(company)) => {
                    let email = req.email.clone();
                    let company_id = company.id;
                    (
                        AuthFlow::MemberAwaitInvite { req, ttl, company },
                        AuthAction::FindInvite { email, company_id },
                    )
                },
                _ => fail(AuthError::CompanyNotFound),
            },
            AuthFlow::MemberAwaitInvite { req, ttl, company } => match e {
                AuthEvent::InviteLookup(Some(invite)) => {
                    let email = req.email.clone();
                    (
                        AuthFlow::MemberAwaitUser { req, ttl, company, invite },
                        AuthAction::FindUserByEmail(email),
                    )
                },
                _ => fail(AuthError::NoInvitation),
            },
            AuthFlow::MemberAwaitUser { req, ttl, company, invite } => match e {
                AuthEvent::UserLookup(Some(_)) => fail(AuthError::EmailAlreadyRegistered),
                _ => {
                    let hash_of = req.password.clone();
                    (
                        AuthFlow::MemberAwaitPrepared { req, ttl, company, invite },
                        AuthAction::Prepare { slug_of: None, hash_of: Some(hash_of) },
                    )
                },
            },
            AuthFlow::MemberAwaitPrepared { req, ttl, company, invite } => match e {
                AuthEvent::Prepared(p) => {
                    let expires_at = p.now + ttl * 1000;
                    let grant = Grant {
                        user_id: p.user_id,
                        membership_id: p.membership_id,
                        email: req.email.clone(),
                        name: req.name.clone(),
                        company_id: company.id,
                        company_name: company.name,
                        company_slug: company.slug,
                        role: invite.role,
                        ttl_seconds: ttl,
                        created_at: p.now,
                        expires_at,
                    };
                    (
                        AuthFlow::AwaitUserCreated { grant, follow: FollowUp::InviteUsed(invite.id) },
                        AuthAction::Write(
                            AuthWrite::CreateUser(User {
                                id: p.user_id,
                                email: req.email,
                                name: req.name,
                                password_hash: p.password_hash,
                                created_at: p.now,
                            }),
                        ),
                    )
                },
                _ => {
                    proof {
                        assert(false);
                    }
                    fail(AuthError::NoAccount)
                },
            },
            AuthFlow::AwaitUserCreated { grant, follow } => {
                let w = AuthWrite::CreateMembership(CompanyMember {
                    id: grant.membership_id,
                    company_id: grant.company_id,
                    user_id: grant.user_id,
                    role: grant.role.clone(),
                    joined_at: grant.created_at,
                });
                (AuthFlow::AwaitMembershipCreated { grant, follow }, AuthAction::Write(w))
            },
            AuthFlow::AwaitMembershipCreated { grant, follow } => {
                let w = match follow {
                    FollowUp::DefaultConfig => AuthWrite::CreateDefaultConfig {
                        company_id: grant.company_id,
                        updated_at: grant.created_at,
                    },
                    FollowUp::InviteUsed(invite_id) => AuthWrite::MarkInviteUsed {
                        invite_id,
                        used_at: grant.created_at,
                    },
                };
                (AuthFlow::AwaitFollowUpWritten { grant }, AuthAction::Write(w))
            },
            AuthFlow::AwaitFollowUpWritten { grant } => {
                let a = request_token(&grant);
                (AuthFlow::AwaitToken { grant }, a)
            },
            AuthFlow::SignInAwaitUser { req, ttl } => match e {
                AuthEvent::UserLookup(Some(user)) => {
                    let password_hash = user.password_hash.clone();
                    (
                        AuthFlow::SignInAwaitCheck { ttl, user },
                        AuthAction::VerifyPassword { password: req.password, password_hash },
                    )
                },
                _ => fail(AuthError::NoAccount),
            },
            AuthFlow::SignInAwaitCheck { ttl, user } => match e {
                AuthEvent::PasswordChecked(true) => {
                    let id = user.id;
                    (AuthFlow::SignInAwaitMembership { ttl, user }, AuthAction::FindMembership(id))
                },
                _ => fail(AuthError::IncorrectPassword),
            },
            AuthFlow::SignInAwaitMembership { ttl, user } => match e {
                AuthEvent::MembershipLookup(Some(membership)) => {
                    let company_id = membership.company_id;
                    (
                        AuthFlow::SignInAwaitCompany { ttl, user, membership },
                        AuthAction::FindCompanyById(company_id),
                    )
                },
                _ => fail(AuthError::NoMembership),
            },
            AuthFlow::SignInAwaitCompany { ttl, user, membership } => match e {
                AuthEvent::CompanyLoaded(company) => (
                    AuthFlow::SignInAwaitPrepared { ttl, user, membership, company },
                    AuthAction::Prepare { slug_of: None, hash_of: None },
                ),
                _ => {
                    proof {
                        assert(false);
                    }
                    fail(AuthError::NoAccount)
                },
            },
            AuthFlow::SignInAwaitPrepared { ttl, user, membership, company } => match e {
                AuthEvent::Prepared(p) => {
                    let expires_at = p.now + ttl * 1000;
                    let grant = Grant {
                        user_id: user.id,
                        membership_id: p.membership_id,
                        email: user.email,
                        name: user.name,
                        company_id: company.id,
                        company_name: company.name,
                        company_slug: company.slug,
                        role: membership.role,
                        ttl_seconds: ttl,
                        created_at: p.now,
                        expires_at,
                    };
                    let a = request_token(&grant);
                    (AuthFlow::AwaitToken { grant }, a)
                },
                _ => {
                    proof {
                        assert(false);
                    }
                    fail(AuthError::NoAccount)
                },
            },
            AuthFlow::AwaitToken { grant } => match e {
                AuthEvent::TokenCreated(token) => {
                    let a = AuthAction::StoreToken(AuthToken {
                        token: token.clone(),
                        user_id: grant.user_id,
                        company_id: grant.company_id,
                        created_at: grant.created_at,
                        expires_at: grant.expires_at,
                    });
                    (AuthFlow::AwaitStore { grant, token }, a)
                },
                _ => {
                    proof {
                        assert(false);
                    }
                    fail(AuthError::NoAccount)
                },
            },
            AuthFlow::AwaitStore { grant, token } => {
                let session = AuthSession {
                    user_id: grant.user_id,
                    email: grant.email,
                    name: grant.name,
                    company_id: grant.company_id,
                    company_name: grant.company_name,
                    company_slug: grant.company_slug,
                    role: grant.role,
                    token,
                };
                (AuthFlow::Done, AuthAction::Finish(session))
            },
            AuthFlow::Done => {
                proof {
                    assert(false);
                }
                fail(AuthError::NoAccount)
            },
        }
    }
}

} // verus!
