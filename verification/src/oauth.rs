//! The data an authorization-code exchange hands back. The exchange itself
//! (the redirect, the token request) is the caller's; what it yields is
//! written into the store with [`crate::system::System::upsert`].

use vstd::prelude::*;

verus! {

/// The user-scoped part of a completed authorization: the account that
/// granted it and the credential to act as that account.
#[derive(Debug)]
pub struct SlackAuthedUser {
    pub id: String,
    pub scope: String,
    pub access_token: String,
    pub token_type: String,
}

/// The extra fields of the platform's token response.
#[derive(Debug)]
pub struct SlackTokenFields {
    pub authed_user: SlackAuthedUser,
}

/// What the authorization redirect carries back: the one-time code and the
/// anti-forgery state that must match the pending request.
#[derive(Debug)]
pub struct OauthCode {
    pub code: String,
    pub state: String,
}

} // verus!
