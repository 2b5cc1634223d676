//! UUID lookup command: what a user is told about a profile.

use crate::error::{ErrorView, OxideVaultError};
use crate::mojang::MojangProfile;
use crate::utils::text::concat3;
use crate::utils::validation::{dashed_uuid, format_uuid, uuid_cuts};
use vstd::prelude::*;
use vstd::string::*;
use vstd::utf8::encode_utf8;

verus! {

/// What a user is told whose username is not valid.
pub open spec fn refusal(e: ErrorView) -> Seq<char> {
    "\u{274c} "@ + e.display()
}

/// What a user is told about the profile that was found: the name and the
/// UUID with dashes, or that the UUID has an unexpected form.
pub open spec fn profile_report(name: Seq<char>, id: Seq<char>) -> Seq<char> {
    if uuid_cuts(encode_utf8(id)) {
        "\u{2705} **Player:** "@ + name + "\n**UUID:** `"@ + dashed_uuid(encode_utf8(id)) + "`"@
    } else {
        "\u{274c} Unexpected UUID format returned from Mojang API."@
    }
}

/// What a user is told after a lookup: about the profile, that there is
/// no such player, or that the lookup failed and how.
pub open spec fn lookup_report(found: Result<Option<(Seq<char>, Seq<char>)>, ErrorView>) -> Seq<
    char,
> {
    match found {
        Ok(Some((name, id))) => profile_report(name, id),
        Ok(None) => "\u{274c} Player not found! Make sure the username is correct."@,
        Err(e) => "\u{274c} Failed to connect to Mojang API: "@ + e.display(),
    }
}

/// The reply to a user whose username is not valid.
pub fn refuse(e: &OxideVaultError) -> (r: String)
    ensures
        r@ == refusal(e@),
{
    String::from_str("\u{274c} ").concat(e.to_string().as_str())
}

/// The reply to a user after a lookup.
pub fn report_lookup(found: &Result<Option<MojangProfile>, OxideVaultError>) -> (r: String)
    ensures
        r@ == lookup_report(
            match found {
                Ok(Some(profile)) => Ok(Some((profile.name@, profile.id@))),
                Ok(None) => Ok(None),
                Err(e) => Err(e@),
            },
        ),
{
    match found {
        Ok(Some(profile)) => match format_uuid(profile.id.as_str()) {
            Some(formatted) => {
                let mut reply = concat3(
                    "\u{2705} **Player:** ",
                    profile.name.as_str(),
                    "\n**UUID:** `",
                );
                reply.append(formatted.as_str());
                reply.append("`");
                reply
            },
            None => String::from_str("\u{274c} Unexpected UUID format returned from Mojang API."),
        },
        Ok(None) => String::from_str(
            "\u{274c} Player not found! Make sure the username is correct.",
        ),
        Err(e) => String::from_str("\u{274c} Failed to connect to Mojang API: ").concat(
            e.to_string().as_str(),
        ),
    }
}

} // verus!
