use icp_backend::durable::ProfileMap;
use icp_backend::error::RegistryError;
use icp_backend::identity::anonymous_identity;
use icp_backend::profile::{AuthTokenResponse, UserProfile, UserUpdateRequest};
use icp_backend::registry::Registry;
use icp_backend::token::SESSION_NANOS;

const ALICE: &str = "rdmx6-jaaaa-aaaaa-aaadq-cai";
const BOB: &str = "ryjl3-tyaaa-aaaaa-aaaba-cai";

fn empty_registry() -> Registry {
    Registry::new(ProfileMap::init())
}

fn request(full_name: Option<&str>, email: Option<&str>) -> UserUpdateRequest {
    UserUpdateRequest {
        full_name: full_name.map(|s| s.to_string()),
        email: email.map(|s| s.to_string()),
    }
}

fn register(
    registry: &mut Registry,
    caller: &str,
    data: Option<UserUpdateRequest>,
    now: u64,
) -> Result<UserProfile, RegistryError> {
    assert!(registry.can_register(caller, &data));
    registry.register_user(caller, data, now)
}

fn update(
    registry: &mut Registry,
    caller: &str,
    data: UserUpdateRequest,
    now: u64,
) -> Result<UserProfile, RegistryError> {
    assert!(registry.can_update(caller, &data));
    registry.update_user_profile(caller, data, now)
}

fn login(
    registry: &mut Registry,
    caller: &str,
    at_login: u64,
    at_token: u64,
    at_expiry: u64,
) -> Result<AuthTokenResponse, RegistryError> {
    assert!(registry.can_login(caller, at_expiry));
    registry.login(caller, at_login, at_token, at_expiry)
}

fn current(registry: &Registry, caller: &str) -> Result<UserProfile, RegistryError> {
    assert!(registry.can_get_current_user(caller));
    registry.get_current_user(caller)
}

fn validate(registry: &Registry, identity: &str) -> Result<UserProfile, RegistryError> {
    assert!(registry.can_read(identity));
    registry.validate_principal(identity)
}

/// A registry that holds one deactivated profile, written straight into the
/// map: no operation of the registry deactivates.
fn registry_with_deactivated(identity: &str) -> (Registry, UserProfile) {
    let profile = UserProfile {
        principal_id: identity.to_string(),
        full_name: Some("Mallory".to_string()),
        email: None,
        role: "user".to_string(),
        created_at: 11,
        last_login: 12,
        is_active: false,
    };
    let mut map = ProfileMap::init();
    assert!(profile.fits());
    assert!(map.is_readable(identity));
    assert_eq!(map.insert(identity, &profile), None);
    (Registry::new(map), profile)
}

#[test]
fn a_new_registry_is_empty() {
    let registry = empty_registry();
    assert_eq!(registry.get_user_count(), 0);
    assert_eq!(current(&registry, ALICE), Err(RegistryError::NotFound));
}

#[test]
fn registering_creates_a_profile_with_the_defaults() {
    let mut registry = empty_registry();
    let profile = register(&mut registry, ALICE, None, 1_000).unwrap();
    assert_eq!(
        profile,
        UserProfile {
            principal_id: ALICE.to_string(),
            full_name: None,
            email: None,
            role: "user".to_string(),
            created_at: 1_000,
            last_login: 1_000,
            is_active: true,
        }
    );
    assert_eq!(registry.get_user_count(), 1);
}

#[test]
fn registering_takes_the_optional_fields() {
    let mut registry = empty_registry();
    let data = Some(request(Some("Ann"), Some("a@x.com")));
    let profile = register(&mut registry, ALICE, data, 5).unwrap();
    assert_eq!(profile.full_name, Some("Ann".to_string()));
    assert_eq!(profile.email, Some("a@x.com".to_string()));
    assert_eq!(profile.role, "user");
}

#[test]
fn a_registered_caller_finds_its_profile() {
    let mut registry = empty_registry();
    let registered = register(&mut registry, ALICE, Some(request(Some("Ann"), None)), 77).unwrap();
    let found = current(&registry, ALICE).unwrap();
    assert_eq!(found, registered);
    assert_eq!(found.created_at, found.last_login);
    assert_eq!(found.created_at, 77);
}

#[test]
fn registering_twice_is_a_conflict() {
    let mut registry = empty_registry();
    let first = register(&mut registry, ALICE, Some(request(Some("Ann"), None)), 100).unwrap();
    let second = register(&mut registry, ALICE, Some(request(Some("Other"), Some("o@x.com"))), 200);
    assert_eq!(second, Err(RegistryError::AlreadyRegistered));
    assert_eq!(second.unwrap_err().message(), "User already registered");
    let kept = current(&registry, ALICE).unwrap();
    assert_eq!(kept, first);
    assert_eq!(kept.created_at, 100);
    assert_eq!(registry.get_user_count(), 1);
}

#[test]
fn updating_sets_only_the_fields_given() {
    let mut registry = empty_registry();
    register(&mut registry, ALICE, Some(request(None, Some("a@x.com"))), 100).unwrap();
    let updated = update(&mut registry, ALICE, request(Some("A"), None), 250).unwrap();
    assert_eq!(updated.full_name, Some("A".to_string()));
    assert_eq!(updated.email, Some("a@x.com".to_string()));
    assert!(updated.last_login > 100);
    assert_eq!(updated.last_login, 250);
    assert_eq!(updated.created_at, 100);
    assert_eq!(updated.role, "user");
    assert!(updated.is_active);
    assert_eq!(current(&registry, ALICE).unwrap(), updated);
    assert_eq!(registry.get_user_count(), 1);
}

#[test]
fn updating_replaces_a_field_that_was_set() {
    let mut registry = empty_registry();
    register(&mut registry, ALICE, Some(request(Some("Ann"), Some("a@x.com"))), 1).unwrap();
    let updated = update(&mut registry, ALICE, request(None, Some("b@y.org")), 2).unwrap();
    assert_eq!(updated.full_name, Some("Ann".to_string()));
    assert_eq!(updated.email, Some("b@y.org".to_string()));
}

#[test]
fn an_empty_update_only_refreshes_the_last_login() {
    let mut registry = empty_registry();
    let before = register(&mut registry, ALICE, Some(request(Some("Ann"), None)), 1).unwrap();
    let after = update(&mut registry, ALICE, request(None, None), 9).unwrap();
    assert_eq!(after, UserProfile { last_login: 9, ..before });
}

#[test]
fn updating_without_a_profile_is_refused() {
    let mut registry = empty_registry();
    let result = update(&mut registry, ALICE, request(Some("A"), None), 3);
    assert_eq!(result, Err(RegistryError::NotRegistered));
    assert_eq!(result.unwrap_err().message(), "User not found. Please register first.");
    assert_eq!(registry.get_user_count(), 0);
}

#[test]
fn the_first_login_registers_the_caller() {
    let mut registry = empty_registry();
    register(&mut registry, BOB, None, 1).unwrap();
    let before = registry.get_user_count();
    let response = login(&mut registry, ALICE, 10, 20, 30).unwrap();
    assert_eq!(registry.get_user_count(), before + 1);
    assert_eq!(
        response,
        AuthTokenResponse {
            principal: ALICE.to_string(),
            token: format!("icp_token_{}_10_20", ALICE),
            expires_at: 30 + 86_400_000_000_000,
        }
    );
    assert_eq!(
        current(&registry, ALICE).unwrap(),
        UserProfile {
            principal_id: ALICE.to_string(),
            full_name: None,
            email: None,
            role: "user".to_string(),
            created_at: 10,
            last_login: 10,
            is_active: true,
        }
    );
}

#[test]
fn a_later_login_refreshes_the_last_login_only() {
    let mut registry = empty_registry();
    let data = Some(request(Some("Ann"), Some("a@x.com")));
    let registered = register(&mut registry, ALICE, data, 100).unwrap();
    let response = login(&mut registry, ALICE, 500, 501, 502).unwrap();
    assert_eq!(response.principal, ALICE);
    assert_eq!(response.token, format!("icp_token_{}_500_501", ALICE));
    assert_eq!(response.expires_at, 502 + SESSION_NANOS);
    assert_eq!(current(&registry, ALICE).unwrap(), UserProfile { last_login: 500, ..registered });
    assert_eq!(registry.get_user_count(), 1);
}

#[test]
fn a_deactivated_caller_cannot_log_in() {
    let (mut registry, stored) = registry_with_deactivated(ALICE);
    let result = login(&mut registry, ALICE, 500, 501, 502);
    assert_eq!(result, Err(RegistryError::AccountDisabled));
    assert_eq!(result.unwrap_err().message(), "User account is deactivated");
    assert_eq!(current(&registry, ALICE).unwrap(), stored);
    assert_eq!(registry.get_user_count(), 1);
}

#[test]
fn validation_answers_alike_for_missing_and_deactivated() {
    let (registry, _) = registry_with_deactivated(ALICE);
    let missing = validate(&registry, "nonexistent");
    let inactive = validate(&registry, ALICE);
    assert_eq!(missing, Err(RegistryError::InvalidOrInactive));
    assert_eq!(inactive, Err(RegistryError::InvalidOrInactive));
    assert_eq!(missing, inactive);
    assert_eq!(missing.unwrap_err().message(), inactive.unwrap_err().message());
    assert_eq!(RegistryError::InvalidOrInactive.message(), "Invalid or inactive user");
}

#[test]
fn validation_returns_an_active_profile() {
    let mut registry = empty_registry();
    let registered = register(&mut registry, ALICE, Some(request(Some("Ann"), None)), 4).unwrap();
    // Any caller may ask about any identity.
    assert_eq!(validate(&registry, ALICE), Ok(registered));
    assert_eq!(validate(&registry, BOB), Err(RegistryError::InvalidOrInactive));
}

#[test]
fn the_anonymous_caller_is_refused_everywhere() {
    let anonymous = anonymous_identity();
    let mut registry = empty_registry();
    register(&mut registry, ALICE, None, 1).unwrap();

    let refused = Err(RegistryError::AnonymousCaller);
    assert_eq!(register(&mut registry, &anonymous, Some(request(Some("x"), None)), 2), refused);
    assert_eq!(update(&mut registry, &anonymous, request(Some("x"), None), 3), refused);
    assert_eq!(login(&mut registry, &anonymous, 4, 5, 6), Err(RegistryError::AnonymousCaller));
    assert_eq!(current(&registry, &anonymous), refused);
    assert_eq!(RegistryError::AnonymousCaller.message(), "Anonymous principal not allowed");

    assert_eq!(registry.get_user_count(), 1);
    assert_eq!(validate(&registry, &anonymous), Err(RegistryError::InvalidOrInactive));
    assert_eq!(current(&registry, ALICE).unwrap().last_login, 1);
}

#[test]
fn the_anonymous_caller_is_refused_whatever_it_sends() {
    let anonymous = anonymous_identity();
    let mut registry = empty_registry();
    let huge = Some(request(Some(&"n".repeat(5_000)), None));
    assert_eq!(register(&mut registry, &anonymous, huge, 2), Err(RegistryError::AnonymousCaller));
    let late = login(&mut registry, &anonymous, 4, 5, u64::MAX);
    assert_eq!(late, Err(RegistryError::AnonymousCaller));
    assert_eq!(registry.get_user_count(), 0);
}

#[test]
fn register_then_update_then_look() {
    let mut registry = empty_registry();
    register(&mut registry, ALICE, Some(request(Some("Ann"), None)), 1).unwrap();
    update(&mut registry, ALICE, request(None, Some("a@x.com")), 2).unwrap();
    let found = current(&registry, ALICE).unwrap();
    assert_eq!(found.full_name, Some("Ann".to_string()));
    assert_eq!(found.email, Some("a@x.com".to_string()));
    assert_eq!(found.role, "user");
    assert!(found.is_active);
}

#[test]
fn the_count_is_the_number_of_identities() {
    let mut registry = empty_registry();
    assert_eq!(registry.get_user_count(), 0);
    register(&mut registry, ALICE, None, 1).unwrap();
    assert_eq!(registry.get_user_count(), 1);
    login(&mut registry, BOB, 2, 2, 2).unwrap();
    assert_eq!(registry.get_user_count(), 2);
    login(&mut registry, ALICE, 3, 3, 3).unwrap();
    update(&mut registry, BOB, request(Some("Bob"), None), 4).unwrap();
    assert!(register(&mut registry, BOB, None, 5).is_err());
    assert_eq!(registry.get_user_count(), 2);
    for i in 0..40u64 {
        login(&mut registry, &format!("user-{}", i), i, i, i).unwrap();
    }
    assert_eq!(registry.get_user_count(), 42);
    assert_eq!(current(&registry, "user-17").unwrap().created_at, 17);
}

#[test]
fn operations_of_one_caller_leave_the_others_alone() {
    let mut registry = empty_registry();
    let alice = register(&mut registry, ALICE, Some(request(Some("Ann"), None)), 1).unwrap();
    register(&mut registry, BOB, None, 2).unwrap();
    update(&mut registry, BOB, request(Some("Bob"), Some("b@x.com")), 3).unwrap();
    login(&mut registry, BOB, 4, 5, 6).unwrap();
    assert_eq!(current(&registry, ALICE).unwrap(), alice);
}

#[test]
fn a_registration_that_would_not_fit_is_not_admitted() {
    let registry = empty_registry();
    let fits = Some(request(Some(&"n".repeat(900)), None));
    let too_long = Some(request(Some(&"n".repeat(1_100)), None));
    assert!(registry.can_register(ALICE, &fits));
    assert!(!registry.can_register(ALICE, &too_long));
    assert!(!registry.can_register(&"k".repeat(2_000), &None));
}

#[test]
fn a_refused_registration_is_admitted_whatever_its_size() {
    let mut registry = empty_registry();
    register(&mut registry, ALICE, None, 1).unwrap();
    let too_long = Some(request(Some(&"n".repeat(1_100)), None));
    assert_eq!(register(&mut registry, ALICE, too_long, 2), Err(RegistryError::AlreadyRegistered));
}

#[test]
fn an_update_that_would_not_fit_is_not_admitted() {
    let mut registry = empty_registry();
    register(&mut registry, ALICE, Some(request(Some(&"n".repeat(600)), None)), 1).unwrap();
    assert!(registry.can_update(ALICE, &request(None, Some(&"e".repeat(300)))));
    assert!(!registry.can_update(ALICE, &request(None, Some(&"e".repeat(600)))));
    // Replacing the long name makes room.
    assert!(registry.can_update(ALICE, &request(Some("Ann"), Some(&"e".repeat(600)))));
    assert!(registry.can_update(BOB, &request(Some(&"n".repeat(5_000)), None)));
}

#[test]
fn a_login_whose_expiry_overflows_is_not_admitted() {
    let mut registry = empty_registry();
    assert!(registry.can_login(ALICE, u64::MAX - SESSION_NANOS));
    assert!(!registry.can_login(ALICE, u64::MAX - SESSION_NANOS + 1));
    let response = login(&mut registry, ALICE, 1, 2, u64::MAX - SESSION_NANOS).unwrap();
    assert_eq!(response.expires_at, u64::MAX);
}

#[test]
fn a_login_of_a_deactivated_caller_is_admitted_at_any_time() {
    let (mut registry, _) = registry_with_deactivated(ALICE);
    assert_eq!(login(&mut registry, ALICE, 1, 2, u64::MAX), Err(RegistryError::AccountDisabled));
}

#[test]
fn a_first_login_with_an_identity_too_long_to_store_is_not_admitted() {
    let registry = empty_registry();
    // A new profile takes 27 bytes beside its identity.
    assert!(registry.can_login(&"k".repeat(997), 0));
    assert!(!registry.can_login(&"k".repeat(998), 0));
}

#[test]
fn a_record_stored_under_another_identity_is_not_sound() {
    let (_, profile) = registry_with_deactivated(ALICE);
    let mut map = ProfileMap::init();
    map.insert(BOB, &profile);
    let registry = Registry::new(map);
    assert!(!registry.can_read(BOB));
    assert!(registry.can_read(ALICE));
    assert!(!registry.can_get_current_user(BOB));
    assert!(!registry.can_update(BOB, &request(None, None)));
    assert!(!registry.can_login(BOB, 0));
    assert!(registry.can_get_current_user(&anonymous_identity()));
}
