use oxidevault::commands::online::format_status;
use oxidevault::mc_server::{Description, PlayerSample, PlayersInfo, ServerStatus, VersionInfo};

fn status(sample: Vec<&str>, description: Description) -> ServerStatus {
    ServerStatus {
        version: VersionInfo { name: "1.20.4".to_string(), protocol: 765 },
        players: PlayersInfo {
            max: 20,
            online: sample.len() as u16,
            sample: sample
                .into_iter()
                .map(|n| PlayerSample { name: n.to_string(), id: "id".to_string() })
                .collect(),
        },
        description,
    }
}

#[test]
fn report_without_players() {
    assert_eq!(
        format_status(&status(vec![], Description::String("A Server".to_string()))),
        "**Minecraft Server Status** 🎮\n**Version:** 1.20.4\n**Players:** 0/20\n**Description:** A Server"
    );
}

#[test]
fn report_with_one_player() {
    assert_eq!(
        format_status(&status(vec!["Steve"], Description::Object { text: "Hi".to_string() })),
        "**Minecraft Server Status** 🎮\n**Version:** 1.20.4\n**Players:** 1/20\n**Description:** Hi\n**Players online:** Steve"
    );
}

#[test]
fn report_with_several_players() {
    assert_eq!(
        format_status(&status(
            vec!["Steve", "Alex", "Notch"],
            Description::String(String::new())
        )),
        "**Minecraft Server Status** 🎮\n**Version:** 1.20.4\n**Players:** 3/20\n**Description:** \n**Players online:** Steve, Alex, Notch"
    );
}

#[test]
fn report_with_large_counts() {
    let mut s = status(vec![], Description::String("x".to_string()));
    s.players.online = 65535;
    s.players.max = 1000;
    assert!(format_status(&s).contains("**Players:** 65535/1000\n"));
}
