use companion_hivemind::auth::{
    AuthAction, AuthError, AuthEvent, AuthFlow, AuthService, AuthSession, AuthWrite, Prepared,
    RegisterAdminRequest, RegisterMemberRequest, SignInRequest, expiry_in_range,
};
use companion_hivemind::models::{AuthToken, Company, CompanyInvite, CompanyMember, User};

fn admin_req() -> RegisterAdminRequest {
    RegisterAdminRequest {
        company_name: "Acme Inc".to_string(),
        email: "ada@acme.test".to_string(),
        name: "Ada".to_string(),
        password: "correct horse".to_string(),
    }
}

fn member_req() -> RegisterMemberRequest {
    RegisterMemberRequest {
        company_slug: "acme-inc".to_string(),
        email: "bob@acme.test".to_string(),
        name: "Bob".to_string(),
        password: "12345678".to_string(),
    }
}

fn prepared() -> Prepared {
    Prepared {
        now: 1_000,
        company_id: 11,
        user_id: 22,
        membership_id: 33,
        slug: "acme-inc".to_string(),
        password_hash: "HASH".to_string(),
    }
}

/// Feeds `events` to the flow, checking each is awaited; returns the actions.
fn drive(mut flow: AuthFlow, events: Vec<AuthEvent>) -> (AuthFlow, Vec<AuthAction>) {
    let mut actions = Vec::new();
    for e in events {
        assert!(flow.accepts(&e), "event not awaited: {:?} in {:?}", e, flow);
        let (f, a) = flow.step(e);
        flow = f;
        actions.push(a);
    }
    (flow, actions)
}

fn fail_of(a: &AuthAction) -> AuthError {
    match a {
        AuthAction::Fail(e) => e.clone(),
        other => panic!("expected failure, got {:?}", other),
    }
}

#[test]
fn admin_validation_errors() {
    let svc = AuthService;
    let mut r = admin_req();
    r.company_name = "  \t".to_string();
    assert_eq!(fail_of(&svc.register_admin(r, 60).1), AuthError::CompanyNameRequired);
    let mut r = admin_req();
    r.email = "ada.acme.test".to_string();
    assert_eq!(fail_of(&svc.register_admin(r, 60).1), AuthError::InvalidEmail);
    let mut r = admin_req();
    r.password = "1234567".to_string();
    assert_eq!(fail_of(&svc.register_admin(r, 60).1), AuthError::PasswordTooShort);
    // Length counts bytes: four two-byte characters make 8 bytes.
    let mut r = admin_req();
    r.password = "éééé".to_string();
    assert!(matches!(svc.register_admin(r, 60).1, AuthAction::FindUserByEmail(_)));
    // The company name is checked first.
    let r = RegisterAdminRequest { company_name: String::new(), email: String::new(), name: String::new(), password: String::new() };
    assert_eq!(fail_of(&svc.register_admin(r, 60).1), AuthError::CompanyNameRequired);
}

#[test]
fn admin_registration_full_run() {
    let (flow, first) = AuthService.register_admin(admin_req(), 3600);
    assert_eq!(first, AuthAction::FindUserByEmail("ada@acme.test".to_string()));
    let (flow, actions) = drive(
        flow,
        vec![
            AuthEvent::UserLookup(None),
            AuthEvent::Prepared(prepared()),
            AuthEvent::Written,
            AuthEvent::Written,
            AuthEvent::Written,
            AuthEvent::Written,
            AuthEvent::TokenCreated("TOKEN".to_string()),
            AuthEvent::TokenStored,
        ],
    );
    assert!(flow.is_done());
    let expected = vec![
        AuthAction::Prepare { slug_of: Some("Acme Inc".to_string()), hash_of: Some("correct horse".to_string()) },
        AuthAction::Write(AuthWrite::CreateCompany(Company {
            id: 11,
            name: "Acme Inc".to_string(),
            slug: "acme-inc".to_string(),
            created_at: 1_000,
            updated_at: 1_000,
        })),
        AuthAction::Write(AuthWrite::CreateUser(User {
            id: 22,
            email: "ada@acme.test".to_string(),
            name: "Ada".to_string(),
            password_hash: "HASH".to_string(),
            created_at: 1_000,
        })),
        AuthAction::Write(AuthWrite::CreateMembership(CompanyMember {
            id: 33,
            company_id: 11,
            user_id: 22,
            role: "admin".to_string(),
            joined_at: 1_000,
        })),
        AuthAction::Write(AuthWrite::CreateDefaultConfig { company_id: 11, updated_at: 1_000 }),
        AuthAction::CreateToken { user_id: 22, company_id: 11, role: "admin".to_string(), ttl_seconds: 3600 },
        AuthAction::StoreToken(AuthToken {
            token: "TOKEN".to_string(),
            user_id: 22,
            company_id: 11,
            created_at: 1_000,
            expires_at: 1_000 + 3_600_000,
        }),
        AuthAction::Finish(AuthSession {
            user_id: 22,
            email: "ada@acme.test".to_string(),
            name: "Ada".to_string(),
            company_id: 11,
            company_name: "Acme Inc".to_string(),
            company_slug: "acme-inc".to_string(),
            role: "admin".to_string(),
            token: "TOKEN".to_string(),
        }),
    ];
    assert_eq!(actions, expected);
}

#[test]
fn admin_duplicate_email() {
    let (flow, _) = AuthService.register_admin(admin_req(), 60);
    let existing = User { id: 1, email: "ada@acme.test".to_string(), name: "A".to_string(), password_hash: "h".to_string(), created_at: 0 };
    let (flow, actions) = drive(flow, vec![AuthEvent::UserLookup(Some(existing))]);
    assert!(flow.is_done());
    assert_eq!(actions, vec![AuthAction::Fail(AuthError::EmailAlreadyRegistered)]);
}

#[test]
fn backend_failure_ends_flow() {
    let (flow, _) = AuthService.register_admin(admin_req(), 60);
    let (flow, actions) = drive(
        flow,
        vec![AuthEvent::UserLookup(None), AuthEvent::Prepared(prepared()), AuthEvent::Failed("db down".to_string())],
    );
    assert!(flow.is_done());
    assert_eq!(actions[2], AuthAction::Fail(AuthError::Backend("db down".to_string())));
    assert_eq!(AuthError::Backend("db down".to_string()).message(), "db down");
    assert!(!flow.accepts(&AuthEvent::Written));
    assert!(!flow.accepts(&AuthEvent::Failed("x".to_string())));
}

#[test]
fn flow_refuses_unexpected_events() {
    let (flow, _) = AuthService.register_admin(admin_req(), 60);
    assert!(!flow.accepts(&AuthEvent::Written));
    assert!(!flow.accepts(&AuthEvent::TokenStored));
    assert!(flow.accepts(&AuthEvent::UserLookup(None)));
}

#[test]
fn expiry_overflow_is_not_accepted() {
    assert!(expiry_in_range(1_000, 3_600));
    assert!(!expiry_in_range(i64::MAX, 1));
    assert!(!expiry_in_range(0, i64::MAX));
    let (flow, _) = AuthService.register_admin(admin_req(), i64::MAX / 100);
    let (flow, _) = flow.step(AuthEvent::UserLookup(None));
    assert!(!flow.accepts(&AuthEvent::Prepared(prepared())));
}

#[test]
fn member_validation_errors() {
    let mut r = member_req();
    r.email = "bob".to_string();
    assert_eq!(fail_of(&AuthService.register_member(r, 60).1), AuthError::InvalidEmail);
    let mut r = member_req();
    r.password = "short".to_string();
    assert_eq!(fail_of(&AuthService.register_member(r, 60).1), AuthError::PasswordTooShort);
}

#[test]
fn member_company_and_invite_missing() {
    let (flow, first) = AuthService.register_member(member_req(), 60);
    assert_eq!(first, AuthAction::FindCompanyBySlug("acme-inc".to_string()));
    let (_, a) = drive(flow, vec![AuthEvent::CompanyLookup(None)]);
    assert_eq!(a, vec![AuthAction::Fail(AuthError::CompanyNotFound)]);

    let company = Company { id: 11, name: "Acme".to_string(), slug: "acme-inc".to_string(), created_at: 0, updated_at: 0 };
    let (flow, _) = AuthService.register_member(member_req(), 60);
    let (_, a) = drive(flow, vec![AuthEvent::CompanyLookup(Some(company)), AuthEvent::InviteLookup(None)]);
    assert_eq!(a[0], AuthAction::FindInvite { email: "bob@acme.test".to_string(), company_id: 11 });
    assert_eq!(a[1], AuthAction::Fail(AuthError::NoInvitation));
}

#[test]
fn member_registration_full_run() {
    let company = Company { id: 11, name: "Acme".to_string(), slug: "acme-inc".to_string(), created_at: 0, updated_at: 0 };
    let invite = CompanyInvite { id: 44, company_id: 11, email: "bob@acme.test".to_string(), role: "member".to_string(), created_at: 0, used_at: None };
    let (flow, _) = AuthService.register_member(member_req(), 10);
    let (flow, a) = drive(
        flow,
        vec![
            AuthEvent::CompanyLookup(Some(company)),
            AuthEvent::InviteLookup(Some(invite)),
            AuthEvent::UserLookup(None),
            AuthEvent::Prepared(prepared()),
            AuthEvent::Written,
            AuthEvent::Written,
            AuthEvent::Written,
            AuthEvent::TokenCreated("T2".to_string()),
            AuthEvent::TokenStored,
        ],
    );
    assert!(flow.is_done());
    assert_eq!(a[2], AuthAction::Prepare { slug_of: None, hash_of: Some("12345678".to_string()) });
    assert_eq!(
        a[4],
        AuthAction::Write(AuthWrite::CreateMembership(CompanyMember { id: 33, company_id: 11, user_id: 22, role: "member".to_string(), joined_at: 1_000 }))
    );
    assert_eq!(a[5], AuthAction::Write(AuthWrite::MarkInviteUsed { invite_id: 44, used_at: 1_000 }));
    assert_eq!(a[6], AuthAction::CreateToken { user_id: 22, company_id: 11, role: "member".to_string(), ttl_seconds: 10 });
    assert_eq!(
        a[7],
        AuthAction::StoreToken(AuthToken { token: "T2".to_string(), user_id: 22, company_id: 11, created_at: 1_000, expires_at: 11_000 })
    );
    match &a[8] {
        AuthAction::Finish(s) => {
            assert_eq!(s.company_name, "Acme");
            assert_eq!(s.company_slug, "acme-inc");
            assert_eq!(s.role, "member");
            assert_eq!(s.token, "T2");
        }
        other => panic!("unexpected {:?}", other),
    }
}

#[test]
fn sign_in_refusals() {
    let req = SignInRequest { email: "x@y".to_string(), password: "pw".to_string() };
    let (flow, _) = AuthService.sign_in(req.clone(), 60);
    let (_, a) = drive(flow, vec![AuthEvent::UserLookup(None)]);
    assert_eq!(a, vec![AuthAction::Fail(AuthError::NoAccount)]);
    assert_eq!(AuthError::NoAccount.message(), "No account found");

    let user = User { id: 5, email: "x@y".to_string(), name: "X".to_string(), password_hash: "H".to_string(), created_at: 0 };
    let (flow, _) = AuthService.sign_in(req.clone(), 60);
    let (_, a) = drive(flow, vec![AuthEvent::UserLookup(Some(user.clone())), AuthEvent::PasswordChecked(false)]);
    assert_eq!(a[0], AuthAction::VerifyPassword { password: "pw".to_string(), password_hash: "H".to_string() });
    assert_eq!(a[1], AuthAction::Fail(AuthError::IncorrectPassword));

    let (flow, _) = AuthService.sign_in(req, 60);
    let (_, a) = drive(flow, vec![AuthEvent::UserLookup(Some(user)), AuthEvent::PasswordChecked(true), AuthEvent::MembershipLookup(None)]);
    assert_eq!(a[1], AuthAction::FindMembership(5));
    assert_eq!(a[2], AuthAction::Fail(AuthError::NoMembership));
}

#[test]
fn sign_in_full_run() {
    let req = SignInRequest { email: "x@y".to_string(), password: "pw".to_string() };
    let user = User { id: 5, email: "x@y".to_string(), name: "X".to_string(), password_hash: "H".to_string(), created_at: 0 };
    let membership = CompanyMember { id: 8, company_id: 9, user_id: 5, role: "owner".to_string(), joined_at: 0 };
    let company = Company { id: 9, name: "Nine".to_string(), slug: "nine".to_string(), created_at: 0, updated_at: 0 };
    let (flow, _) = AuthService.sign_in(req, 2);
    let (flow, a) = drive(
        flow,
        vec![
            AuthEvent::UserLookup(Some(user)),
            AuthEvent::PasswordChecked(true),
            AuthEvent::MembershipLookup(Some(membership)),
            AuthEvent::CompanyLoaded(company),
            AuthEvent::Prepared(prepared()),
            AuthEvent::TokenCreated("T3".to_string()),
            AuthEvent::TokenStored,
        ],
    );
    assert!(flow.is_done());
    assert_eq!(a[2], AuthAction::FindCompanyById(9));
    assert_eq!(a[3], AuthAction::Prepare { slug_of: None, hash_of: None });
    assert_eq!(a[4], AuthAction::CreateToken { user_id: 5, company_id: 9, role: "owner".to_string(), ttl_seconds: 2 });
    assert_eq!(a[5], AuthAction::StoreToken(AuthToken { token: "T3".to_string(), user_id: 5, company_id: 9, created_at: 1_000, expires_at: 3_000 }));
    assert_eq!(
        a[6],
        AuthAction::Finish(AuthSession {
            user_id: 5,
            email: "x@y".to_string(),
            name: "X".to_string(),
            company_id: 9,
            company_name: "Nine".to_string(),
            company_slug: "nine".to_string(),
            role: "owner".to_string(),
            token: "T3".to_string(),
        })
    );
}

#[test]
fn error_messages() {
    assert_eq!(AuthError::CompanyNameRequired.message(), "Company name is required");
    assert_eq!(AuthError::InvalidEmail.message(), "Valid email is required");
    assert_eq!(AuthError::PasswordTooShort.message(), "Password must be at least 8 characters");
    assert_eq!(AuthError::EmailAlreadyRegistered.message(), "Email already registered");
    assert_eq!(AuthError::CompanyNotFound.message(), "Company not found");
    assert_eq!(AuthError::NoInvitation.message(), "No invitation found");
    assert_eq!(AuthError::IncorrectPassword.message(), "Incorrect password");
    assert_eq!(AuthError::NoMembership.message(), "No company membership found");
}

#[test]
fn member_duplicate_email() {
    let company = Company { id: 11, name: "Acme".to_string(), slug: "acme-inc".to_string(), created_at: 0, updated_at: 0 };
    let invite = CompanyInvite { id: 44, company_id: 11, email: "bob@acme.test".to_string(), role: "member".to_string(), created_at: 0, used_at: None };
    let existing = User { id: 1, email: "bob@acme.test".to_string(), name: "B".to_string(), password_hash: "h".to_string(), created_at: 0 };
    let (flow, _) = AuthService.register_member(member_req(), 60);
    let (flow, a) = drive(
        flow,
        vec![AuthEvent::CompanyLookup(Some(company)), AuthEvent::InviteLookup(Some(invite)), AuthEvent::UserLookup(Some(existing))],
    );
    assert!(flow.is_done());
    assert_eq!(a[1], AuthAction::FindUserByEmail("bob@acme.test".to_string()));
    assert_eq!(a[2], AuthAction::Fail(AuthError::EmailAlreadyRegistered));
}
