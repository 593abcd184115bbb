//! The profile record, the request that updates it, and the answer to a
//! login, each with its mathematical view.

use vstd::prelude::*;

verus! {

/// The record kept for one identity.
#[derive(Clone, Debug, PartialEq, Eq)]
pub struct UserProfile {
    /// The identity that owns the record; always the key it is stored under.
    pub principal_id: String,
    pub full_name: Option<String>,
    pub email: Option<String>,
    /// A label such as `"user"` or `"admin"`; set at creation only.
    pub role: String,
    /// When the record was created, in nanoseconds; never rewritten.
    pub created_at: u64,
    /// When the owner last logged in or updated the record, in nanoseconds.
    pub last_login: u64,
    pub is_active: bool,
}

/// The fields that a caller may set; an absent field leaves the stored one
/// as it is.
#[derive(Clone, Debug, PartialEq, Eq)]
pub struct UserUpdateRequest {
    pub full_name: Option<String>,
    pub email: Option<String>,
}

/// What a successful login hands back. The token is a readable label, not a
/// credential: nothing ever verifies it.
#[derive(Clone, Debug, PartialEq, Eq)]
pub struct AuthTokenResponse {
    pub principal: String,
    pub token: String,
    pub expires_at: u64,
}

/// A profile as a mathematical value.
pub struct ProfileView {
    pub principal_id: Seq<char>,
    pub full_name: Option<Seq<char>>,
    pub email: Option<Seq<char>>,
    pub role: Seq<char>,
    pub created_at: u64,
    pub last_login: u64,
    pub is_active: bool,
}

/// An update request as a mathematical value.
pub struct UpdateView {
    pub full_name: Option<Seq<char>>,
    pub email: Option<Seq<char>>,
}

/// A login answer as a mathematical value.
pub struct TokenView {
    pub principal: Seq<char>,
    pub token: Seq<char>,
    pub expires_at: u64,
}

/// The characters of an optional string.
pub open spec fn text_of(field: Option<String>) -> Option<Seq<char>> {
    match field {
        Some(s) => Some(s@),
        None => None,
    }
}

/// The view of an optional update request.
pub open spec fn request_of(request: Option<UserUpdateRequest>) -> Option<UpdateView> {
    match request {
        Some(r) => Some(r@),
        None => None,
    }
}

/// The role that every new profile gets.
pub open spec fn default_role() -> Seq<char> {
    "user"@
}

impl View for UserProfile {
    type V = ProfileView;

    open spec fn view(&self) -> ProfileView {
        ProfileView {
            principal_id: self.principal_id@,
            full_name: text_of(self.full_name),
            email: text_of(self.email),
            role: self.role@,
            created_at: self.created_at,
            last_login: self.last_login,
            is_active: self.is_active,
        }
    }
}

impl View for UserUpdateRequest {
    type V = UpdateView;

    open spec fn view(&self) -> UpdateView {
        UpdateView { full_name: text_of(self.full_name), email: text_of(self.email) }
    }
}

impl View for AuthTokenResponse {
    type V = TokenView;

    open spec fn view(&self) -> TokenView {
        TokenView { principal: self.principal@, token: self.token@, expires_at: self.expires_at }
    }
}

impl ProfileView {
    /// The profile that a first registration or a first login creates at time
    /// `now`: active, with the default role, created and last seen at `now`,
    /// and with whatever optional fields the request carried.
    pub open spec fn created(
        identity: Seq<char>,
        request: Option<UpdateView>,
        now: u64,
    ) -> ProfileView {
        ProfileView {
            principal_id: identity,
            full_name: match request {
                Some(r) => r.full_name,
                None => None,
            },
            email: match request {
                Some(r) => r.email,
                None => None,
            },
            role: default_role(),
            created_at: now,
            last_login: now,
            is_active: true,
        }
    }

    /// This profile after an update at time `now`: each field that the
    /// request carries replaces the stored one, each absent field keeps it,
    /// and `last_login` becomes `now`.
    pub open spec fn updated(self, request: UpdateView, now: u64) -> ProfileView {
        ProfileView {
            full_name: match request.full_name {
                Some(name) => Some(name),
                None => self.full_name,
            },
            email: match request.email {
                Some(email) => Some(email),
                None => self.email,
            },
            last_login: now,
            ..self
        }
    }

    /// This profile after a login at time `now`.
    pub open spec fn refreshed(self, now: u64) -> ProfileView {
        ProfileView { last_login: now, ..self }
    }
}

impl UserProfile {
    /// Builds the profile of a new identity.
    pub fn new(identity: &str, request: Option<UserUpdateRequest>, now: u64) -> (profile:
        UserProfile)
        ensures
            profile@ == ProfileView::created(identity@, request_of(request), now),
    {
        let (full_name, email) = match request {
            Some(r) => (r.full_name, r.email),
            None => (None, None),
        };
        UserProfile {
            principal_id: identity.to_owned(),
            full_name,
            email,
            role: "user".to_owned(),
            created_at: now,
            last_login: now,
            is_active: true,
        }
    }

    /// Merges an update request into this profile.
    pub fn apply(&mut self, request: UserUpdateRequest, now: u64)
        ensures
            final(self)@ == old(self)@.updated(request@, now),
    {
        if let Some(name) = request.full_name {
            self.full_name = Some(name);
        }
        if let Some(email) = request.email {
            self.email = Some(email);
        }
        self.last_login = now;
    }
}

} // verus!
