use oxidevault::commands::uuid::{refuse, report_lookup};
use oxidevault::database::{MinecraftPlayer, PlayerRepository, PlayerStat};
use oxidevault::error::OxideVaultError;
use oxidevault::mojang::{
    invalid_response, profile_url, read_profile_status, request_failed, MojangProfile,
    ProfileAnswer,
};

#[test]
fn profile_url_of_a_name() {
    assert_eq!(profile_url("Notch"), "https://api.mojang.com/users/profiles/minecraft/Notch");
    assert_eq!(profile_url(""), "https://api.mojang.com/users/profiles/minecraft/");
}

#[test]
fn profile_status() {
    assert_eq!(read_profile_status(200, "200 OK"), Ok(ProfileAnswer::Found));
    assert_eq!(read_profile_status(204, "204 No Content"), Ok(ProfileAnswer::Found));
    assert_eq!(read_profile_status(299, "299"), Ok(ProfileAnswer::Found));
    assert_eq!(read_profile_status(404, "404 Not Found"), Ok(ProfileAnswer::Missing));
    for (code, shown) in [
        (199, "199"),
        (300, "300 Multiple Choices"),
        (403, "403 Forbidden"),
        (500, "500 Internal Server Error"),
    ] {
        assert_eq!(
            read_profile_status(code, shown),
            Err(OxideVaultError::MojangApi(format!("API returned error: {}", shown)))
        );
    }
}

#[test]
fn profile_errors() {
    assert_eq!(
        request_failed("timed out"),
        OxideVaultError::MojangApi("Request failed: timed out".to_string())
    );
    assert_eq!(
        invalid_response("expected value"),
        OxideVaultError::MojangApi("Invalid response: expected value".to_string())
    );
}

#[test]
fn reply_to_an_invalid_username() {
    assert_eq!(
        refuse(&OxideVaultError::Validation("Username cannot be empty".to_string())),
        "❌ Validation error: Username cannot be empty"
    );
}

#[test]
fn reply_after_a_lookup() {
    let found = Ok(Some(MojangProfile {
        id: "069a79f444e94726a5befca90e38aaf5".to_string(),
        name: "Notch".to_string(),
    }));
    assert_eq!(
        report_lookup(&found),
        "✅ **Player:** Notch\n**UUID:** `069a79f4-44e9-4726-a5be-fca90e38aaf5`"
    );
    let odd = Ok(Some(MojangProfile { id: "069a".to_string(), name: "Notch".to_string() }));
    assert_eq!(report_lookup(&odd), "❌ Unexpected UUID format returned from Mojang API.");
    assert_eq!(
        report_lookup(&Ok(None)),
        "❌ Player not found! Make sure the username is correct."
    );
    assert_eq!(
        report_lookup(&Err(request_failed("dns error"))),
        "❌ Failed to connect to Mojang API: Mojang API error: Request failed: dns error"
    );
}

#[test]
fn repository_keeps_its_path() {
    let repo = PlayerRepository::new("data/oxidevault.db".to_string());
    assert_eq!(repo.db_path(), "data/oxidevault.db");
}

#[test]
fn database_rows() {
    let player = MinecraftPlayer {
        uuid: "550e8400-e29b-41d4-a716-446655440000".to_string(),
        username: "TestPlayer".to_string(),
    };
    assert_eq!(player.clone(), player);
    let stat = PlayerStat {
        mc_uuid: player.uuid.clone(),
        stat_name: "deaths".to_string(),
        stat_value: -1,
        timestamp: 1_700_000_000,
    };
    assert_eq!(stat.clone().stat_value, -1);
}
