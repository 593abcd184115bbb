//! The registry: one profile per identity, kept in the durable map, and the
//! operations that callers invoke on it.
//!
//! Every operation is specified by a function of the stored records and the
//! arguments (`register_outcome`, `update_outcome`, ...) that says what is
//! answered, and by [`stored_after`], which says what is stored afterwards.
//! The caller's identity and the clock readings are arguments: the host
//! supplies them.
//!
//! Two things are faults rather than answers: a stored record that cannot be
//! read as a profile of its key, and a profile whose record would exceed the
//! size bound. The operations leave both out by their preconditions, and the
//! `can_*` functions test those preconditions. Whether a record fits does not
//! depend on its timestamps, so the preconditions are stated at time 0.

use crate::codec::{
    decode_record, fits, lemma_decode_inverts_encode, lemma_decoded_is_encoded,
    lemma_fits_by_texts, lemma_fitting_key_is_short, record_bytes, record_fits,
};
use crate::durable::{stored_profile, ProfileMap};
use crate::error::RegistryError;
use crate::identity::{is_anonymous, is_anonymous_caller};
use crate::profile::{
    request_of, AuthTokenResponse, ProfileView, TokenView, UpdateView, UserProfile,
    UserUpdateRequest,
};
use crate::token::{make_session_token, session_token, SESSION_NANOS};
use vstd::prelude::*;

verus! {

/// Whatever is stored under `identity` is the record of a profile of that
/// identity.
pub open spec fn sound_at(records: Map<Seq<char>, Seq<u8>>, identity: Seq<char>) -> bool {
    records.contains_key(identity) ==> (decode_record(records[identity]) matches Some(p)
        && p.principal_id == identity)
}

/// Every stored record is the record of a profile of its key.
pub open spec fn consistent(records: Map<Seq<char>, Seq<u8>>) -> bool {
    forall|identity: Seq<char>| #[trigger] sound_at(records, identity)
}

/// What a registration answers.
pub open spec fn register_outcome(
    records: Map<Seq<char>, Seq<u8>>,
    caller: Seq<char>,
    request: Option<UpdateView>,
    now: u64,
) -> Result<ProfileView, RegistryError> {
    if is_anonymous(caller) {
        Err(RegistryError::AnonymousCaller)
    } else if records.contains_key(caller) {
        Err(RegistryError::AlreadyRegistered)
    } else {
        Ok(ProfileView::created(caller, request, now))
    }
}

/// What an update answers.
pub open spec fn update_outcome(
    records: Map<Seq<char>, Seq<u8>>,
    caller: Seq<char>,
    request: UpdateView,
    now: u64,
) -> Result<ProfileView, RegistryError> {
    if is_anonymous(caller) {
        Err(RegistryError::AnonymousCaller)
    } else {
        match stored_profile(records, caller) {
            Some(p) => Ok(p.updated(request, now)),
            None => Err(RegistryError::NotRegistered),
        }
    }
}

/// The profile that a login stores: a new one for an identity without a
/// record, the stored one with its last login refreshed for an active
/// identity.
pub open spec fn login_profile(
    records: Map<Seq<char>, Seq<u8>>,
    caller: Seq<char>,
    at_login: u64,
) -> Result<ProfileView, RegistryError> {
    if is_anonymous(caller) {
        Err(RegistryError::AnonymousCaller)
    } else {
        match stored_profile(records, caller) {
            Some(p) => if p.is_active {
                Ok(p.refreshed(at_login))
            } else {
                Err(RegistryError::AccountDisabled)
            },
            None => Ok(ProfileView::created(caller, None, at_login)),
        }
    }
}

/// What a login answers. `at_login`, `at_token` and `at_expiry` are the
/// clock readings taken, in this order, for the last login, for the token
/// and for the expiry.
pub open spec fn login_outcome(
    records: Map<Seq<char>, Seq<u8>>,
    caller: Seq<char>,
    at_login: u64,
    at_token: u64,
    at_expiry: u64,
) -> Result<TokenView, RegistryError> {
    match login_profile(records, caller, at_login) {
        Ok(_) => Ok(
            TokenView {
                principal: caller,
                token: session_token(caller, at_login, at_token),
                expires_at: (at_expiry + SESSION_NANOS) as u64,
            },
        ),
        Err(e) => Err(e),
    }
}

/// What a caller's look at its own profile answers.
pub open spec fn current_user_outcome(
    records: Map<Seq<char>, Seq<u8>>,
    caller: Seq<char>,
) -> Result<ProfileView, RegistryError> {
    if is_anonymous(caller) {
        Err(RegistryError::AnonymousCaller)
    } else {
        match stored_profile(records, caller) {
            Some(p) => Ok(p),
            None => Err(RegistryError::NotFound),
        }
    }
}

/// What a check of an identity answers: its profile if one is stored and
/// active, and one and the same error otherwise.
pub open spec fn validate_outcome(
    records: Map<Seq<char>, Seq<u8>>,
    identity: Seq<char>,
) -> Result<ProfileView, RegistryError> {
    match stored_profile(records, identity) {
        Some(p) => if p.is_active {
            Ok(p)
        } else {
            Err(RegistryError::InvalidOrInactive)
        },
        None => Err(RegistryError::InvalidOrInactive),
    }
}

/// The records after an operation by `caller` whose profile outcome is
/// `outcome`: on success the profile's record replaces whatever was stored
/// under the caller's identity, and on failure nothing changes.
pub open spec fn stored_after(
    records: Map<Seq<char>, Seq<u8>>,
    caller: Seq<char>,
    outcome: Result<ProfileView, RegistryError>,
) -> Map<Seq<char>, Seq<u8>> {
    match outcome {
        Ok(p) => records.insert(caller, record_bytes(p)),
        Err(_) => records,
    }
}

/// The inputs on which a registration is defined: the record that it would
/// store is within the size bound.
pub open spec fn admits_registration(
    records: Map<Seq<char>, Seq<u8>>,
    caller: Seq<char>,
    request: Option<UpdateView>,
) -> bool {
    register_outcome(records, caller, request, 0) matches Ok(p) ==> fits(p)
}

/// The inputs on which an update is defined: what is stored for the caller
/// is sound, and the record that the update would store is within the size
/// bound.
pub open spec fn admits_update(
    records: Map<Seq<char>, Seq<u8>>,
    caller: Seq<char>,
    request: UpdateView,
) -> bool {
    !is_anonymous(caller) ==> sound_at(records, caller) && (update_outcome(
        records,
        caller,
        request,
        0,
    ) matches Ok(p) ==> fits(p))
}

/// The inputs on which a login is defined: what is stored for the caller is
/// sound, the record that the login would store is within the size bound,
/// and the expiry can be computed.
pub open spec fn admits_login(
    records: Map<Seq<char>, Seq<u8>>,
    caller: Seq<char>,
    at_expiry: u64,
) -> bool {
    !is_anonymous(caller) ==> sound_at(records, caller) && (login_profile(records, caller, 0)
        matches Ok(p) ==> fits(p) && at_expiry + SESSION_NANOS <= u64::MAX)
}

/// The inputs on which a caller's look at its own profile is defined.
pub open spec fn admits_current_user(records: Map<Seq<char>, Seq<u8>>, caller: Seq<char>) -> bool {
    !is_anonymous(caller) ==> sound_at(records, caller)
}

/// The answer of an operation that yields a profile, as a mathematical
/// value.
pub open spec fn profile_outcome(result: Result<UserProfile, RegistryError>) -> Result<
    ProfileView,
    RegistryError,
> {
    match result {
        Ok(profile) => Ok(profile@),
        Err(e) => Err(e),
    }
}

/// The answer of a login as a mathematical value.
pub open spec fn token_outcome(result: Result<AuthTokenResponse, RegistryError>) -> Result<
    TokenView,
    RegistryError,
> {
    match result {
        Ok(response) => Ok(response@),
        Err(e) => Err(e),
    }
}

/// Storing the record of a fitting profile under its own identity keeps the
/// records consistent, and keeps every other entry.
pub proof fn lemma_store_keeps_consistency(
    records: Map<Seq<char>, Seq<u8>>,
    caller: Seq<char>,
    p: ProfileView,
)
    requires
        fits(p),
        p.principal_id == caller,
    ensures
        stored_profile(records.insert(caller, record_bytes(p)), caller) == Some(p),
        sound_at(records.insert(caller, record_bytes(p)), caller),
        consistent(records) ==> consistent(records.insert(caller, record_bytes(p))),
{
    lemma_decode_inverts_encode(p);
    let after = records.insert(caller, record_bytes(p));
    if consistent(records) {
        assert forall|identity: Seq<char>| #[trigger] sound_at(after, identity) by {
            assert(sound_at(records, identity));
        }
    }
}

/// The user registry.
pub struct Registry {
    users: ProfileMap,
}

impl Registry {
    /// The encoded record stored under each identity.
    pub closed spec fn records(&self) -> Map<Seq<char>, Seq<u8>> {
        self.users.records()
    }

    /// The registry holds finitely many records.
    pub open spec fn wf(&self) -> bool {
        self.records().dom().finite()
    }

    /// The number of stored records.
    pub open spec fn count(&self) -> nat {
        self.records().dom().len()
    }

    /// A registry over the profiles that `users` holds.
    pub fn new(users: ProfileMap) -> (registry: Registry)
        ensures
            registry.records() == users.records(),
    {
        Registry { users }
    }

    /// Registers the caller, with the optional fields of `user_data`, at time
    /// `now`. An anonymous caller and one that has a profile are refused, and
    /// then nothing is stored.
    pub fn register_user(
        &mut self,
        caller: &str,
        user_data: Option<UserUpdateRequest>,
        now: u64,
    ) -> (result: Result<UserProfile, RegistryError>)
        requires
            old(self).wf(),
            admits_registration(old(self).records(), caller@, request_of(user_data)),
        ensures
            final(self).wf(),
            profile_outcome(result) == register_outcome(
                old(self).records(),
                caller@,
                request_of(user_data),
                now,
            ),
            final(self).records() == stored_after(
                old(self).records(),
                caller@,
                profile_outcome(result),
            ),
            result matches Ok(profile) ==> stored_profile(final(self).records(), caller@) == Some(
                profile@,
            ),
            consistent(old(self).records()) ==> consistent(final(self).records()),
    {
        if is_anonymous_caller(caller) {
            return Err(RegistryError::AnonymousCaller);
        }
        if self.users.contains_key(caller) {
            return Err(RegistryError::AlreadyRegistered);
        }
        let user = UserProfile::new(caller, user_data, now);
        proof {
            lemma_fits_by_texts(user@);
            lemma_fits_by_texts(ProfileView::created(caller@, request_of(user_data), 0));
            lemma_fitting_key_is_short(user@);
            lemma_store_keeps_consistency(old(self).records(), caller@, user@);
        }
        self.users.insert(caller, &user);
        Ok(user)
    }

    /// Merges `user_data` into the caller's profile at time `now`: the fields
    /// it carries replace the stored ones, the others stay, and the last
    /// login becomes `now`. An anonymous caller and one without a profile are
    /// refused, and then nothing is stored.
    pub fn update_user_profile(
        &mut self,
        caller: &str,
        user_data: UserUpdateRequest,
        now: u64,
    ) -> (result: Result<UserProfile, RegistryError>)
        requires
            old(self).wf(),
            admits_update(old(self).records(), caller@, user_data@),
        ensures
            final(self).wf(),
            profile_outcome(result) == update_outcome(
                old(self).records(),
                caller@,
                user_data@,
                now,
            ),
            final(self).records() == stored_after(
                old(self).records(),
                caller@,
                profile_outcome(result),
            ),
            result matches Ok(profile) ==> stored_profile(final(self).records(), caller@) == Some(
                profile@,
            ),
            consistent(old(self).records()) ==> consistent(final(self).records()),
    {
        if is_anonymous_caller(caller) {
            return Err(RegistryError::AnonymousCaller);
        }
        match self.users.get(caller) {
            Some(mut user) => {
                user.apply(user_data, now);
                proof {
                    lemma_fits_by_texts(user@);
                    lemma_fits_by_texts(
                        stored_profile(old(self).records(), caller@).unwrap().updated(
                            user_data@,
                            0,
                        ),
                    );
                    lemma_fitting_key_is_short(user@);
                    lemma_store_keeps_consistency(old(self).records(), caller@, user@);
                }
                self.users.insert(caller, &user);
                Ok(user)
            },
            None => Err(RegistryError::NotRegistered),
        }
    }

    /// Logs the caller in. A caller without a profile gets a new one, as a
    /// registration without optional fields would make it; a caller with an
    /// active profile gets its last login refreshed; both get a token and its
    /// expiry, 24 hours after `at_expiry`. An anonymous caller and one whose
    /// profile is inactive are refused, and then nothing is stored.
    ///
    /// `at_login`, `at_token` and `at_expiry` are three readings of the
    /// clock, in the order in which they are used.
    pub fn login(
        &mut self,
        caller: &str,
        at_login: u64,
        at_token: u64,
        at_expiry: u64,
    ) -> (result: Result<AuthTokenResponse, RegistryError>)
        requires
            old(self).wf(),
            admits_login(old(self).records(), caller@, at_expiry),
        ensures
            final(self).wf(),
            token_outcome(result) == login_outcome(
                old(self).records(),
                caller@,
                at_login,
                at_token,
                at_expiry,
            ),
            final(self).records() == stored_after(
                old(self).records(),
                caller@,
                login_profile(old(self).records(), caller@, at_login),
            ),
            result is Ok ==> stored_profile(final(self).records(), caller@) == Some(
                login_profile(old(self).records(), caller@, at_login).unwrap(),
            ),
            consistent(old(self).records()) ==> consistent(final(self).records()),
    {
        if is_anonymous_caller(caller) {
            return Err(RegistryError::AnonymousCaller);
        }
        let user = match self.users.get(caller) {
            Some(mut user) => {
                if !user.is_active {
                    return Err(RegistryError::AccountDisabled);
                }
                user.last_login = at_login;
                user
            },
            None => UserProfile::new(caller, None, at_login),
        };
        proof {
            lemma_fits_by_texts(user@);
            lemma_fits_by_texts(login_profile(old(self).records(), caller@, 0).unwrap());
            lemma_fitting_key_is_short(user@);
            lemma_store_keeps_consistency(old(self).records(), caller@, user@);
        }
        self.users.insert(caller, &user);
        let token = make_session_token(caller, at_login, at_token);
        Ok(
            AuthTokenResponse {
                principal: caller.to_owned(),
                token,
                expires_at: at_expiry + SESSION_NANOS,
            },
        )
    }

    /// The caller's own profile. An anonymous caller and one without a
    /// profile are refused.
    pub fn get_current_user(&self, caller: &str) -> (result: Result<UserProfile, RegistryError>)
        requires
            admits_current_user(self.records(), caller@),
        ensures
            profile_outcome(result) == current_user_outcome(self.records(), caller@),
    {
        if is_anonymous_caller(caller) {
            return Err(RegistryError::AnonymousCaller);
        }
        match self.users.get(caller) {
            Some(user) => Ok(user),
            None => Err(RegistryError::NotFound),
        }
    }

    /// The profile stored for `principal_text`, which need not be the
    /// caller's, if there is one and it is active. The error does not tell a
    /// missing profile from an inactive one.
    pub fn validate_principal(&self, principal_text: &str) -> (result: Result<
        UserProfile,
        RegistryError,
    >)
        requires
            sound_at(self.records(), principal_text@),
        ensures
            profile_outcome(result) == validate_outcome(self.records(), principal_text@),
    {
        match self.users.get(principal_text) {
            Some(user) => if user.is_active {
                Ok(user)
            } else {
                Err(RegistryError::InvalidOrInactive)
            },
            None => Err(RegistryError::InvalidOrInactive),
        }
    }

    /// The number of profiles in the registry.
    pub fn get_user_count(&self) -> (count: u64)
        ensures
            self.wf(),
            count == self.count(),
    {
        self.users.len()
    }

    /// Whether what is stored under `identity`, if anything, is the record
    /// of a profile of that identity.
    pub fn can_read(&self, identity: &str) -> (ok: bool)
        ensures
            ok == sound_at(self.records(), identity@),
    {
        if !self.users.is_readable(identity) {
            return false;
        }
        match self.users.get(identity) {
            Some(user) => user.principal_id == identity.to_owned(),
            None => true,
        }
    }

    /// Whether [`Registry::get_current_user`] is defined for this caller.
    pub fn can_get_current_user(&self, caller: &str) -> (ok: bool)
        ensures
            ok == admits_current_user(self.records(), caller@),
    {
        is_anonymous_caller(caller) || self.can_read(caller)
    }

    /// Whether [`Registry::register_user`] is defined on these arguments.
    pub fn can_register(&self, caller: &str, user_data: &Option<UserUpdateRequest>) -> (ok: bool)
        ensures
            ok == admits_registration(self.records(), caller@, request_of(*user_data)),
    {
        if is_anonymous_caller(caller) || self.users.contains_key(caller) {
            return true;
        }
        proof {
            lemma_fits_by_texts(ProfileView::created(caller@, request_of(*user_data), 0));
        }
        match user_data {
            Some(request) => record_fits(caller, &request.full_name, &request.email, "user"),
            None => record_fits(caller, &None, &None, "user"),
        }
    }

    /// Whether [`Registry::update_user_profile`] is defined on these
    /// arguments.
    pub fn can_update(&self, caller: &str, user_data: &UserUpdateRequest) -> (ok: bool)
        ensures
            ok == admits_update(self.records(), caller@, user_data@),
    {
        if is_anonymous_caller(caller) {
            return true;
        }
        if !self.can_read(caller) {
            return false;
        }
        match self.users.get(caller) {
            Some(user) => {
                proof {
                    lemma_fits_by_texts(user@.updated(user_data@, 0));
                }
                let full_name = if user_data.full_name.is_some() {
                    &user_data.full_name
                } else {
                    &user.full_name
                };
                let email = if user_data.email.is_some() {
                    &user_data.email
                } else {
                    &user.email
                };
                record_fits(user.principal_id.as_str(), full_name, email, user.role.as_str())
            },
            None => true,
        }
    }

    /// Whether [`Registry::login`] is defined on these arguments.
    pub fn can_login(&self, caller: &str, at_expiry: u64) -> (ok: bool)
        ensures
            ok == admits_login(self.records(), caller@, at_expiry),
    {
        if is_anonymous_caller(caller) {
            return true;
        }
        if !self.can_read(caller) {
            return false;
        }
        let in_time = at_expiry <= u64::MAX - SESSION_NANOS;
        match self.users.get(caller) {
            Some(user) => {
                proof {
                    lemma_decoded_is_encoded(self.records()[caller@]);
                    lemma_fits_by_texts(user@);
                    lemma_fits_by_texts(user@.refreshed(0));
                }
                !user.is_active || in_time
            },
            None => {
                proof {
                    lemma_fits_by_texts(ProfileView::created(caller@, None, 0));
                }
                record_fits(caller, &None, &None, "user") && in_time
            },
        }
    }
}

} // verus!
