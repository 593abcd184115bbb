//! What holds of the registry's operations taken together. Each statement
//! is over the functions that specify the operations, so it holds of every
//! registry, every caller and every clock reading that meets its
//! preconditions.

use crate::codec::{fits, lemma_decoded_is_encoded, lemma_fits_by_texts, record_bytes};
use crate::durable::stored_profile;
use crate::error::RegistryError;
use crate::identity::is_anonymous;
use crate::profile::{default_role, ProfileView, TokenView, UpdateView};
use crate::registry::{
    admits_login, admits_registration, admits_update, consistent, current_user_outcome,
    lemma_store_keeps_consistency, login_outcome, login_profile, register_outcome, sound_at,
    stored_after, update_outcome, validate_outcome,
};
use crate::token::SESSION_NANOS;
use vstd::prelude::*;

verus! {

/// An identity that is not anonymous and has no record can register; its
/// profile is then what it finds as its own, created and last seen at the
/// same time, active and with the default role.
pub proof fn law_registered_profile_is_found(
    records: Map<Seq<char>, Seq<u8>>,
    caller: Seq<char>,
    request: Option<UpdateView>,
    now: u64,
)
    requires
        !is_anonymous(caller),
        !records.contains_key(caller),
        admits_registration(records, caller, request),
    ensures
        ({
            let registered = register_outcome(records, caller, request, now);
            let after = stored_after(records, caller, registered);
            &&& registered matches Ok(p)
            &&& current_user_outcome(after, caller) == registered
            &&& p.created_at == p.last_login
            &&& p.is_active
            &&& p.role == default_role()
            &&& p.principal_id == caller
        }),
{
    let p = ProfileView::created(caller, request, now);
    lemma_fits_by_texts(p);
    lemma_fits_by_texts(ProfileView::created(caller, request, 0));
    lemma_store_keeps_consistency(records, caller, p);
}

/// Who has registered cannot register again: the second attempt is refused
/// as a conflict, whatever it asks for, and the profile of the first stays
/// as it was, its creation time included.
pub proof fn law_second_registration_is_refused(
    records: Map<Seq<char>, Seq<u8>>,
    caller: Seq<char>,
    first: Option<UpdateView>,
    at_first: u64,
    second: Option<UpdateView>,
    at_second: u64,
)
    requires
        !is_anonymous(caller),
        !records.contains_key(caller),
        admits_registration(records, caller, first),
    ensures
        ({
            let registered = register_outcome(records, caller, first, at_first);
            let after = stored_after(records, caller, registered);
            let again = register_outcome(after, caller, second, at_second);
            &&& registered matches Ok(p)
            &&& again == Err::<ProfileView, RegistryError>(RegistryError::AlreadyRegistered)
            &&& stored_after(after, caller, again) == after
            &&& stored_profile(stored_after(after, caller, again), caller) == Some(p)
            &&& p.created_at == at_first
        }),
{
    let p = ProfileView::created(caller, first, at_first);
    lemma_fits_by_texts(p);
    lemma_fits_by_texts(ProfileView::created(caller, first, 0));
    lemma_store_keeps_consistency(records, caller, p);
}

/// An update changes the fields that it carries and no others: a field that
/// the request leaves out keeps its stored value, so do the identity, the
/// role, the creation time and the active flag, and the last login becomes
/// the time of the update. The updated profile is what is stored afterwards.
pub proof fn law_update_merges(
    records: Map<Seq<char>, Seq<u8>>,
    caller: Seq<char>,
    request: UpdateView,
    now: u64,
)
    requires
        !is_anonymous(caller),
        records.contains_key(caller),
        admits_update(records, caller, request),
    ensures
        ({
            let stored = stored_profile(records, caller);
            let updated = update_outcome(records, caller, request, now);
            let after = stored_after(records, caller, updated);
            &&& stored matches Some(p)
            &&& updated matches Ok(q)
            &&& q.full_name == (if request.full_name.is_some() {
                request.full_name
            } else {
                p.full_name
            })
            &&& q.email == (if request.email.is_some() {
                request.email
            } else {
                p.email
            })
            &&& q.last_login == now
            &&& q.principal_id == p.principal_id
            &&& q.role == p.role
            &&& q.created_at == p.created_at
            &&& q.is_active == p.is_active
            &&& stored_profile(after, caller) == Some(q)
        }),
{
    let p = stored_profile(records, caller).unwrap();
    let q = p.updated(request, now);
    lemma_fits_by_texts(q);
    lemma_fits_by_texts(p.updated(request, 0));
    lemma_store_keeps_consistency(records, caller, q);
}

/// An update that sets only the full name of a profile that had only an
/// email leaves a profile with both, and where the clock has advanced since
/// the last login, the last login is strictly later than it was.
pub proof fn law_update_adds_name_beside_email(
    records: Map<Seq<char>, Seq<u8>>,
    caller: Seq<char>,
    name: Seq<char>,
    now: u64,
)
    requires
        !is_anonymous(caller),
        records.contains_key(caller),
        admits_update(records, caller, UpdateView { full_name: Some(name), email: None }),
        stored_profile(records, caller).unwrap().last_login < now,
    ensures
        ({
            let stored = stored_profile(records, caller);
            let request = UpdateView { full_name: Some(name), email: None };
            &&& stored matches Some(p)
            &&& update_outcome(records, caller, request, now) matches Ok(q)
            &&& q.full_name == Some(name)
            &&& q.email == p.email
            &&& q.last_login > p.last_login
        }),
{
}

/// The first login of an identity without a record registers it, exactly as
/// a registration without optional fields would, and the registry then
/// holds one record more.
pub proof fn law_first_login_registers(
    records: Map<Seq<char>, Seq<u8>>,
    caller: Seq<char>,
    at_login: u64,
    at_token: u64,
    at_expiry: u64,
)
    requires
        records.dom().finite(),
        !is_anonymous(caller),
        !records.contains_key(caller),
        admits_login(records, caller, at_expiry),
    ensures
        ({
            let stored = login_profile(records, caller, at_login);
            let after = stored_after(records, caller, stored);
            &&& login_outcome(records, caller, at_login, at_token, at_expiry) matches Ok(response)
            &&& response.principal == caller
            &&& response.expires_at == at_expiry + SESSION_NANOS
            &&& stored == register_outcome(records, caller, None, at_login)
            &&& stored_profile(after, caller) == Some(ProfileView::created(caller, None, at_login))
            &&& after.dom().len() == records.dom().len() + 1
        }),
{
    let p = ProfileView::created(caller, None, at_login);
    lemma_fits_by_texts(p);
    lemma_fits_by_texts(ProfileView::created(caller, None, 0));
    lemma_store_keeps_consistency(records, caller, p);
}

/// A login by an identity with an active profile refreshes the last login
/// and nothing else, and adds no record.
pub proof fn law_login_refreshes(
    records: Map<Seq<char>, Seq<u8>>,
    caller: Seq<char>,
    at_login: u64,
    at_token: u64,
    at_expiry: u64,
)
    requires
        !is_anonymous(caller),
        admits_login(records, caller, at_expiry),
        stored_profile(records, caller) matches Some(p) && p.is_active,
    ensures
        ({
            let p = stored_profile(records, caller).unwrap();
            let after = stored_after(records, caller, login_profile(records, caller, at_login));
            &&& login_outcome(records, caller, at_login, at_token, at_expiry) is Ok
            &&& stored_profile(after, caller) == Some(ProfileView { last_login: at_login, ..p })
            &&& after.dom() == records.dom()
        }),
{
    let p = stored_profile(records, caller).unwrap();
    lemma_fits_by_texts(p.refreshed(0));
    lemma_fits_by_texts(p.refreshed(at_login));
    let q = p.refreshed(at_login);
    lemma_store_keeps_consistency(records, caller, q);
    assert(records.insert(caller, record_bytes(q)).dom() =~= records.dom());
}

/// A login by an identity whose profile is inactive is refused as disabled,
/// and nothing that is stored changes.
pub proof fn law_inactive_login_is_refused(
    records: Map<Seq<char>, Seq<u8>>,
    caller: Seq<char>,
    at_login: u64,
    at_token: u64,
    at_expiry: u64,
)
    requires
        !is_anonymous(caller),
        stored_profile(records, caller) matches Some(p) && !p.is_active,
    ensures
        login_outcome(records, caller, at_login, at_token, at_expiry) == Err::<
            TokenView,
            RegistryError,
        >(RegistryError::AccountDisabled),
        stored_after(records, caller, login_profile(records, caller, at_login)) == records,
{
}

/// A check of an identity without a record and a check of an identity whose
/// profile is inactive give the same answer: nothing in it tells the two
/// apart.
pub proof fn law_validation_hides_the_reason(
    records: Map<Seq<char>, Seq<u8>>,
    missing: Seq<char>,
    inactive: Seq<char>,
)
    requires
        !records.contains_key(missing),
        stored_profile(records, inactive) matches Some(p) && !p.is_active,
    ensures
        validate_outcome(records, missing) == validate_outcome(records, inactive),
        validate_outcome(records, missing) == Err::<ProfileView, RegistryError>(
            RegistryError::InvalidOrInactive,
        ),
{
}

/// A check of an identity answers with a profile exactly when an active one
/// is stored for it, and then with that profile.
pub proof fn law_validation_finds_active_profiles(
    records: Map<Seq<char>, Seq<u8>>,
    identity: Seq<char>,
)
    ensures
        validate_outcome(records, identity) is Ok <==> (stored_profile(records, identity)
            matches Some(p) && p.is_active),
        validate_outcome(records, identity) matches Ok(p) ==> stored_profile(records, identity)
            == Some(p),
{
}

/// The anonymous caller is refused by every operation that acts for a
/// caller, whatever else it asks for, and nothing that is stored changes.
pub proof fn law_anonymous_is_refused(
    records: Map<Seq<char>, Seq<u8>>,
    caller: Seq<char>,
    registration: Option<UpdateView>,
    update: UpdateView,
    now: u64,
    at_token: u64,
    at_expiry: u64,
)
    requires
        is_anonymous(caller),
    ensures
        register_outcome(records, caller, registration, now) == Err::<ProfileView, RegistryError>(
            RegistryError::AnonymousCaller,
        ),
        update_outcome(records, caller, update, now) == Err::<ProfileView, RegistryError>(
            RegistryError::AnonymousCaller,
        ),
        login_outcome(records, caller, now, at_token, at_expiry) == Err::<
            TokenView,
            RegistryError,
        >(RegistryError::AnonymousCaller),
        current_user_outcome(records, caller) == Err::<ProfileView, RegistryError>(
            RegistryError::AnonymousCaller,
        ),
        stored_after(records, caller, register_outcome(records, caller, registration, now))
            == records,
        stored_after(records, caller, update_outcome(records, caller, update, now)) == records,
        stored_after(records, caller, login_profile(records, caller, now)) == records,
        admits_registration(records, caller, registration),
        admits_update(records, caller, update),
        admits_login(records, caller, at_expiry),
{
}

/// No operation removes a record or touches the record of another identity:
/// whatever is stored after an operation by `caller` holds every identity
/// that was there before, and holds for every identity but the caller's
/// what it held before.
pub proof fn law_records_are_kept(
    records: Map<Seq<char>, Seq<u8>>,
    caller: Seq<char>,
    outcome: Result<ProfileView, RegistryError>,
    other: Seq<char>,
)
    ensures
        records.contains_key(other) ==> stored_after(records, caller, outcome).contains_key(other),
        other != caller ==> (stored_after(records, caller, outcome).contains_key(other)
            <==> records.contains_key(other)),
        other != caller && records.contains_key(other) ==> stored_after(
            records,
            caller,
            outcome,
        )[other] == records[other],
{
}

/// The number of records never goes down, and goes up by one exactly when an
/// operation stores a profile for an identity that had no record.
pub proof fn law_count_follows_new_identities(
    records: Map<Seq<char>, Seq<u8>>,
    caller: Seq<char>,
    outcome: Result<ProfileView, RegistryError>,
)
    requires
        records.dom().finite(),
    ensures
        stored_after(records, caller, outcome).dom().finite(),
        stored_after(records, caller, outcome).dom().len() == records.dom().len() + (if outcome
            is Ok && !records.contains_key(caller) {
            1nat
        } else {
            0nat
        }),
{
    if outcome is Ok && records.contains_key(caller) {
        assert(stored_after(records, caller, outcome).dom() =~= records.dom());
    }
}

/// The creation time of a profile is set once: neither an update nor a
/// login of an identity that has a profile changes it, nor the identity or
/// the role.
pub proof fn law_creation_is_kept(
    records: Map<Seq<char>, Seq<u8>>,
    caller: Seq<char>,
    request: UpdateView,
    now: u64,
)
    requires
        stored_profile(records, caller) is Some,
    ensures
        ({
            let p = stored_profile(records, caller).unwrap();
            &&& update_outcome(records, caller, request, now) matches Ok(q) ==> q.created_at
                == p.created_at && q.role == p.role && q.principal_id == p.principal_id
            &&& login_profile(records, caller, now) matches Ok(q) ==> q.created_at == p.created_at
                && q.role == p.role && q.principal_id == p.principal_id
        }),
{
}

/// Consistent records stay consistent under every operation on which the
/// operation is defined.
pub proof fn law_operations_keep_consistency(
    records: Map<Seq<char>, Seq<u8>>,
    caller: Seq<char>,
    registration: Option<UpdateView>,
    update: UpdateView,
    now: u64,
    at_expiry: u64,
)
    requires
        consistent(records),
    ensures
        admits_registration(records, caller, registration) ==> consistent(
            stored_after(records, caller, register_outcome(records, caller, registration, now)),
        ),
        admits_update(records, caller, update) ==> consistent(
            stored_after(records, caller, update_outcome(records, caller, update, now)),
        ),
        admits_login(records, caller, at_expiry) ==> consistent(
            stored_after(records, caller, login_profile(records, caller, now)),
        ),
{
    assert(sound_at(records, caller));
    if admits_registration(records, caller, registration) {
        if let Ok(p) = register_outcome(records, caller, registration, now) {
            lemma_fits_by_texts(p);
            lemma_fits_by_texts(ProfileView::created(caller, registration, 0));
            lemma_store_keeps_consistency(records, caller, p);
        }
    }
    if admits_update(records, caller, update) {
        if let Ok(p) = update_outcome(records, caller, update, now) {
            lemma_fits_by_texts(p);
            lemma_fits_by_texts(stored_profile(records, caller).unwrap().updated(update, 0));
            lemma_store_keeps_consistency(records, caller, p);
        }
    }
    if admits_login(records, caller, at_expiry) {
        if let Ok(p) = login_profile(records, caller, now) {
            lemma_fits_by_texts(p);
            lemma_fits_by_texts(login_profile(records, caller, 0).unwrap());
            lemma_store_keeps_consistency(records, caller, p);
        }
    }
}

/// In consistent records every stored profile can be read, fits the size
/// bound and carries the identity that it is stored under; so every
/// operation that only reads is defined on them.
pub proof fn law_consistent_records_are_sound(
    records: Map<Seq<char>, Seq<u8>>,
    identity: Seq<char>,
)
    requires
        consistent(records),
        records.contains_key(identity),
    ensures
        stored_profile(records, identity) matches Some(p) && p.principal_id == identity && fits(p)
            && record_bytes(p) == records[identity],
{
    assert(sound_at(records, identity));
    lemma_decoded_is_encoded(records[identity]);
}

} // verus!
