//! Whole runs of the account flows: what each flow asks for, in order,
//! when every step succeeds, and how any failure ends a flow.

use vstd::prelude::*;
use crate::models::{AuthToken, Company, CompanyInvite, CompanyMember, User};
use crate::auth::{
    admin_request_error, admin_role, admin_start, expiry_fits, AuthAction, AuthError, AuthEvent,
    AuthFlow, AuthSession, AuthWrite, Prepared,
    RegisterAdminRequest, RegisterMemberRequest, SignInRequest, member_request_error,
    member_start, sign_in_start, byte_len, expiry,
};
use crate::text::{is_ws, law_trim_blank};

verus! {

/// Whether each of `events` is awaited by the state the flow has reached
/// when it arrives.
pub open spec fn accepted(flow: AuthFlow, events: Seq<AuthEvent>) -> bool
    decreases events.len(),
{
    if events.len() == 0 {
        true
    } else {
        flow.awaits(events[0]) && accepted(flow.next(events[0]).0, events.drop_first())
    }
}

/// The actions a flow asks for on `events`, one per event.
pub open spec fn run(flow: AuthFlow, events: Seq<AuthEvent>) -> Seq<AuthAction>
    decreases events.len(),
{
    if events.len() == 0 {
        seq![]
    } else {
        seq![flow.next(events[0]).1] + run(flow.next(events[0]).0, events.drop_first())
    }
}

/// The state a flow reaches on `events`.
pub open spec fn end_state(flow: AuthFlow, events: Seq<AuthEvent>) -> AuthFlow
    decreases events.len(),
{
    if events.len() == 0 {
        flow
    } else {
        end_state(flow.next(events[0]).0, events.drop_first())
    }
}

/// A failed action ends every unfinished flow, with the failure's message.
pub proof fn law_failure_ends_flow(flow: AuthFlow, msg: String)
    requires
        !(flow is Done),
    ensures
        flow.awaits(AuthEvent::Failed(msg)),
        flow.next(AuthEvent::Failed(msg)) == (AuthFlow::Done, AuthAction::Fail(AuthError::Backend(msg))),
{
}

/// Registering a company whose request passes the checks, for an email that
/// is not yet registered, with every action succeeding: the flow asks for
/// the clock, ids, slug and hash; creates the company, the user, the admin
/// membership and the default configuration, in that order; asks for a
/// token for the new admin of the new company; stores it with an expiry
/// `ttl * 1000` ms after creation; and finishes with the session of the new
/// admin carrying that token.
pub proof fn law_admin_registration_run(
    req: RegisterAdminRequest,
    ttl: i64,
    role: String,
    p: Prepared,
    token: String,
)
    requires
        admin_request_error(req) is None,
        role@ == admin_role(),
        expiry_fits(p.now, ttl),
    ensures
        ({
            let flow = admin_start(req, ttl, role).0;
            let events = seq![
                AuthEvent::UserLookup(None),
                AuthEvent::Prepared(p),
                AuthEvent::Written,
                AuthEvent::Written,
                AuthEvent::Written,
                AuthEvent::Written,
                AuthEvent::TokenCreated(token),
                AuthEvent::TokenStored,
            ];
            &&& admin_start(req, ttl, role).1 == AuthAction::FindUserByEmail(req.email)
            &&& accepted(flow, events)
            &&& end_state(flow, events) is Done
            &&& run(flow, events) == seq![
                AuthAction::Prepare {
                    slug_of: Some(req.company_name),
                    hash_of: Some(req.password),
                },
                AuthAction::Write(
                    AuthWrite::CreateCompany(Company {
                        id: p.company_id,
                        name: req.company_name,
                        slug: p.slug,
                        created_at: p.now,
                        updated_at: p.now,
                    }),
                ),
                AuthAction::Write(
                    AuthWrite::CreateUser(User {
                        id: p.user_id,
                        email: req.email,
                        name: req.name,
                        password_hash: p.password_hash,
                        created_at: p.now,
                    }),
                ),
                AuthAction::Write(
                    AuthWrite::CreateMembership(CompanyMember {
                        id: p.membership_id,
                        company_id: p.company_id,
                        user_id: p.user_id,
                        role: role,
                        joined_at: p.now,
                    }),
                ),
                AuthAction::Write(
                    AuthWrite::CreateDefaultConfig { company_id: p.company_id, updated_at: p.now },
                ),
                AuthAction::CreateToken {
                    user_id: p.user_id,
                    company_id: p.company_id,
                    role: role,
                    ttl_seconds: ttl,
                },
                AuthAction::StoreToken(AuthToken {
                    token: token,
                    user_id: p.user_id,
                    company_id: p.company_id,
                    created_at: p.now,
                    expires_at: (p.now + ttl * 1000) as i64,
                }),
                AuthAction::Finish(
                    AuthSession {
                        user_id: p.user_id,
                        email: req.email,
                        name: req.name,
                        company_id: p.company_id,
                        company_name: req.company_name,
                        company_slug: p.slug,
                        role: role,
                        token: token,
                    },
                ),
            ]
        }),
{
    let flow = admin_start(req, ttl, role).0;
    let events = seq![
        AuthEvent::UserLookup(None),
        AuthEvent::Prepared(p),
        AuthEvent::Written,
        AuthEvent::Written,
        AuthEvent::Written,
        AuthEvent::Written,
        AuthEvent::TokenCreated(token),
        AuthEvent::TokenStored,
    ];
    reveal_with_fuel(accepted, 9);
    reveal_with_fuel(run, 9);
    reveal_with_fuel(end_state, 9);
}


/// A registration (of a company or of a member) for an email that is
/// already registered fails with `EmailAlreadyRegistered` before anything
/// is written.
pub proof fn law_registered_email_refused(
    admin: RegisterAdminRequest,
    member: RegisterMemberRequest,
    ttl: i64,
    role: String,
    company: Company,
    invite: CompanyInvite,
    existing: User,
)
    requires
        admin_request_error(admin) is None,
        member_request_error(member) is None,
    ensures
        ({
            let f = admin_start(admin, ttl, role).0;
            let e = seq![AuthEvent::UserLookup(Some(existing))];
            &&& accepted(f, e)
            &&& run(f, e) == seq![AuthAction::Fail(AuthError::EmailAlreadyRegistered)]
            &&& end_state(f, e) is Done
        }),
        ({
            let f = member_start(member, ttl).0;
            let e = seq![
                AuthEvent::CompanyLookup(Some(company)),
                AuthEvent::InviteLookup(Some(invite)),
                AuthEvent::UserLookup(Some(existing)),
            ];
            &&& accepted(f, e)
            &&& run(f, e) == seq![
                AuthAction::FindInvite { email: member.email, company_id: company.id },
                AuthAction::FindUserByEmail(member.email),
                AuthAction::Fail(AuthError::EmailAlreadyRegistered),
            ]
            &&& end_state(f, e) is Done
        }),
{
    reveal_with_fuel(accepted, 4);
    reveal_with_fuel(run, 4);
    reveal_with_fuel(end_state, 4);
}

/// Registering an invited member whose request passes the checks, with
/// every action succeeding: the flow finds the company by its slug, the
/// invitation of the email to that company, makes sure the email is not
/// registered, creates the user, a membership in that company with the
/// invitation's role, marks the invitation used, and finishes with the
/// session of the new member carrying the stored token.
pub proof fn law_member_registration_run(
    req: RegisterMemberRequest,
    ttl: i64,
    company: Company,
    invite: CompanyInvite,
    p: Prepared,
    token: String,
)
    requires
        member_request_error(req) is None,
        expiry_fits(p.now, ttl),
    ensures
        ({
            let flow = member_start(req, ttl).0;
            let events = seq![
                AuthEvent::CompanyLookup(Some(company)),
                AuthEvent::InviteLookup(Some(invite)),
                AuthEvent::UserLookup(None),
                AuthEvent::Prepared(p),
                AuthEvent::Written,
                AuthEvent::Written,
                AuthEvent::Written,
                AuthEvent::TokenCreated(token),
                AuthEvent::TokenStored,
            ];
            &&& member_start(req, ttl).1 == AuthAction::FindCompanyBySlug(req.company_slug)
            &&& accepted(flow, events)
            &&& end_state(flow, events) is Done
            &&& run(flow, events) == seq![
                AuthAction::FindInvite { email: req.email, company_id: company.id },
                AuthAction::FindUserByEmail(req.email),
                AuthAction::Prepare { slug_of: None, hash_of: Some(req.password) },
                AuthAction::Write(
                    AuthWrite::CreateUser(User {
                        id: p.user_id,
                        email: req.email,
                        name: req.name,
                        password_hash: p.password_hash,
                        created_at: p.now,
                    }),
                ),
                AuthAction::Write(
                    AuthWrite::CreateMembership(CompanyMember {
                        id: p.membership_id,
                        company_id: company.id,
                        user_id: p.user_id,
                        role: invite.role,
                        joined_at: p.now,
                    }),
                ),
                AuthAction::Write(AuthWrite::MarkInviteUsed { invite_id: invite.id, used_at: p.now }),
                AuthAction::CreateToken {
                    user_id: p.user_id,
                    company_id: company.id,
                    role: invite.role,
                    ttl_seconds: ttl,
                },
                AuthAction::StoreToken(AuthToken {
                    token: token,
                    user_id: p.user_id,
                    company_id: company.id,
                    created_at: p.now,
                    expires_at: (p.now + ttl * 1000) as i64,
                }),
                AuthAction::Finish(
                    AuthSession {
                        user_id: p.user_id,
                        email: req.email,
                        name: req.name,
                        company_id: company.id,
                        company_name: company.name,
                        company_slug: company.slug,
                        role: invite.role,
                        token: token,
                    },
                ),
            ]
        }),
{
    reveal_with_fuel(accepted, 10);
    reveal_with_fuel(run, 10);
    reveal_with_fuel(end_state, 10);
}

/// Signing in with a known email and a matching password, for a user with
/// a membership, with every action succeeding: the flow checks the password
/// against the stored hash, loads the membership and its company, and
/// finishes with a session of that user in that company, with the
/// membership's role and the stored token. No store write happens before
/// the token.
pub proof fn law_sign_in_run(
    req: SignInRequest,
    ttl: i64,
    user: User,
    membership: CompanyMember,
    company: Company,
    p: Prepared,
    token: String,
)
    requires
        expiry_fits(p.now, ttl),
    ensures
        ({
            let flow = sign_in_start(req, ttl).0;
            let events = seq![
                AuthEvent::UserLookup(Some(user)),
                AuthEvent::PasswordChecked(true),
                AuthEvent::MembershipLookup(Some(membership)),
                AuthEvent::CompanyLoaded(company),
                AuthEvent::Prepared(p),
                AuthEvent::TokenCreated(token),
                AuthEvent::TokenStored,
            ];
            &&& sign_in_start(req, ttl).1 == AuthAction::FindUserByEmail(req.email)
            &&& accepted(flow, events)
            &&& end_state(flow, events) is Done
            &&& run(flow, events) == seq![
                AuthAction::VerifyPassword {
                    password: req.password,
                    password_hash: user.password_hash,
                },
                AuthAction::FindMembership(user.id),
                AuthAction::FindCompanyById(membership.company_id),
                AuthAction::Prepare { slug_of: None, hash_of: None },
                AuthAction::CreateToken {
                    user_id: user.id,
                    company_id: company.id,
                    role: membership.role,
                    ttl_seconds: ttl,
                },
                AuthAction::StoreToken(AuthToken {
                    token: token,
                    user_id: user.id,
                    company_id: company.id,
                    created_at: p.now,
                    expires_at: (p.now + ttl * 1000) as i64,
                }),
                AuthAction::Finish(
                    AuthSession {
                        user_id: user.id,
                        email: user.email,
                        name: user.name,
                        company_id: company.id,
                        company_name: company.name,
                        company_slug: company.slug,
                        role: membership.role,
                        token: token,
                    },
                ),
            ]
        }),
{
    reveal_with_fuel(accepted, 8);
    reveal_with_fuel(run, 8);
    reveal_with_fuel(end_state, 8);
}

/// A sign-in fails with `NoAccount` for an unknown email and with
/// `IncorrectPassword` when the password does not match the stored hash;
/// either way nothing more is asked.
pub proof fn law_sign_in_refusals(req: SignInRequest, ttl: i64, user: User)
    ensures
        ({
            let f = sign_in_start(req, ttl).0;
            let e = seq![AuthEvent::UserLookup(None)];
            &&& accepted(f, e)
            &&& run(f, e) == seq![AuthAction::Fail(AuthError::NoAccount)]
            &&& end_state(f, e) is Done
        }),
        ({
            let f = sign_in_start(req, ttl).0;
            let e = seq![AuthEvent::UserLookup(Some(user)), AuthEvent::PasswordChecked(false)];
            &&& accepted(f, e)
            &&& run(f, e) == seq![
                AuthAction::VerifyPassword {
                    password: req.password,
                    password_hash: user.password_hash,
                },
                AuthAction::Fail(AuthError::IncorrectPassword),
            ]
            &&& end_state(f, e) is Done
        }),
{
    reveal_with_fuel(accepted, 3);
    reveal_with_fuel(run, 3);
    reveal_with_fuel(end_state, 3);
}

/// The checks of a company registration, in order: the company name is
/// refused as missing exactly when it has no non-whitespace character
/// (any other name passes, however short); then the email is refused
/// exactly when it has no `@`; then the password exactly when it is
/// shorter than 8 bytes (`byte_len`); otherwise the request passes.
pub proof fn law_admin_request_checks(req: RegisterAdminRequest)
    ensures
        (admin_request_error(req) == Some(AuthError::CompanyNameRequired)) <==> (forall|k: int|
            0 <= k < req.company_name@.len() ==> is_ws(#[trigger] req.company_name@[k])),
        (admin_request_error(req) == Some(AuthError::InvalidEmail)) <==> ((exists|k: int|
            0 <= k < req.company_name@.len() && !is_ws(#[trigger] req.company_name@[k])) && !(
        exists|k: int| 0 <= k < req.email@.len() && #[trigger] req.email@[k] == '@')),
        (admin_request_error(req) == Some(AuthError::PasswordTooShort)) <==> ((exists|k: int|
            0 <= k < req.company_name@.len() && !is_ws(#[trigger] req.company_name@[k])) && (
        exists|k: int| 0 <= k < req.email@.len() && #[trigger] req.email@[k] == '@')
            && byte_len(req.password@) < 8),
        (admin_request_error(req) is None) <==> ((exists|k: int|
            0 <= k < req.company_name@.len() && !is_ws(#[trigger] req.company_name@[k])) && (
        exists|k: int| 0 <= k < req.email@.len() && #[trigger] req.email@[k] == '@')
            && byte_len(req.password@) >= 8),
{
    law_trim_blank(req.company_name@);
    assert(req.email@.contains('@') <==> exists|k: int|
        0 <= k < req.email@.len() && #[trigger] req.email@[k] == '@');
}

/// The checks of a member registration, in order: the email is refused
/// exactly when it has no `@` (any email with an `@` passes this check);
/// then the password exactly when it is shorter than 8 bytes; otherwise the
/// request passes. Nothing else about the request is checked here.
pub proof fn law_member_request_checks(req: RegisterMemberRequest)
    ensures
        (member_request_error(req) == Some(AuthError::InvalidEmail)) <==> !(exists|k: int|
            0 <= k < req.email@.len() && #[trigger] req.email@[k] == '@'),
        (member_request_error(req) == Some(AuthError::PasswordTooShort)) <==> ((exists|k: int|
            0 <= k < req.email@.len() && #[trigger] req.email@[k] == '@') && byte_len(req.password@)
            < 8),
        (member_request_error(req) is None) <==> ((exists|k: int|
            0 <= k < req.email@.len() && #[trigger] req.email@[k] == '@') && byte_len(req.password@)
            >= 8),
{
    assert(req.email@.contains('@') <==> exists|k: int|
        0 <= k < req.email@.len() && #[trigger] req.email@[k] == '@');
}

/// A flow waiting for the clock reading takes `Prepared(p)` exactly when
/// the token's expiry `p.now + ttl * 1000` milliseconds, and `ttl * 1000`
/// itself, fit in `i64`; the expiry it then records is that sum. With the
/// default lifetime of 30 days, every reading up to
/// `i64::MAX - 2_592_000_000` is taken.
pub proof fn law_prepared_accepted(flow: AuthFlow, p: Prepared)
    requires
        flow is AdminAwaitPrepared || flow is MemberAwaitPrepared || flow is SignInAwaitPrepared,
    ensures
        flow.awaits(AuthEvent::Prepared(p)) <==> (i64::MIN <= flow.ttl_of() * 1000 <= i64::MAX
            && i64::MIN <= p.now + flow.ttl_of() * 1000 <= i64::MAX),
        flow.awaits(AuthEvent::Prepared(p)) ==> expiry(p.now, flow.ttl_of()) == p.now
            + flow.ttl_of() * 1000,
        flow.ttl_of() == 30 * 24 * 60 * 60 && p.now <= i64::MAX - 2_592_000_000 ==> flow.awaits(
            AuthEvent::Prepared(p),
        ),
{
}

} // verus!
