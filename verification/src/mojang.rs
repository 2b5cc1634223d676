//! Mojang API integration: where a profile is asked for and what to make
//! of the answer.

use crate::error::{ErrorView, OxideVaultError};
use vstd::prelude::*;
use vstd::string::*;

verus! {

/// Player profile information from Mojang API.
#[derive(Debug, Clone, PartialEq, Eq)]
pub struct MojangProfile {
    /// Player UUID (without dashes)
    pub id: String,
    /// Current player username
    pub name: String,
}

/// What the status of a response says of the profile that was asked for.
#[derive(Debug, Clone, Copy, PartialEq, Eq)]
pub enum ProfileAnswer {
    /// The profile is in the body of the response.
    Found,
    /// There is no player of that name.
    Missing,
}

/// The URL at which the profile of the player `name` is asked for.
pub open spec fn profile_url_of(name: Seq<char>) -> Seq<char> {
    "https://api.mojang.com/users/profiles/minecraft/"@ + name
}

/// What a status code says of the profile: any code from 200 to 299 that
/// the profile is in the body, 404 that the player does not exist, and
/// any other code that the request went wrong.
pub open spec fn profile_answer(status: u16) -> Option<ProfileAnswer> {
    if 200 <= status <= 299 {
        Some(ProfileAnswer::Found)
    } else if status == 404 {
        Some(ProfileAnswer::Missing)
    } else {
        None
    }
}

/// The URL at which the profile of the player `name` is asked for.
pub fn profile_url(name: &str) -> (r: String)
    ensures
        r@ == profile_url_of(name@),
{
    String::from_str("https://api.mojang.com/users/profiles/minecraft/").concat(name)
}

/// Reads the status of a response. `shown` is the status as it is shown to
/// a person, for the error message.
pub fn read_profile_status(status: u16, shown: &str) -> (r: Result<ProfileAnswer, OxideVaultError>)
    ensures
        match r {
            Ok(answer) => profile_answer(status) == Some(answer),
            Err(e) => profile_answer(status) is None && e@ == ErrorView::MojangApi(
                "API returned error: "@ + shown@,
            ),
        },
{
    if 200 <= status && status <= 299 {
        Ok(ProfileAnswer::Found)
    } else if status == 404 {
        Ok(ProfileAnswer::Missing)
    } else {
        Err(OxideVaultError::MojangApi(String::from_str("API returned error: ").concat(shown)))
    }
}

/// The error for a request that could not be made or answered.
pub fn request_failed(reason: &str) -> (r: OxideVaultError)
    ensures
        r@ == ErrorView::MojangApi("Request failed: "@ + reason@),
{
    OxideVaultError::MojangApi(String::from_str("Request failed: ").concat(reason))
}

/// The error for a response whose body is no profile.
pub fn invalid_response(reason: &str) -> (r: OxideVaultError)
    ensures
        r@ == ErrorView::MojangApi("Invalid response: "@ + reason@),
{
    OxideVaultError::MojangApi(String::from_str("Invalid response: ").concat(reason))
}

} // verus!
