//! Configuration of the application and the rules that its values must
//! meet.

use crate::error::{ErrorView, OxideVaultError};
use crate::utils::text::{
    concat3, last_index_of, lemma_last_index_of, lemma_text_of_bytes, parse_u16, parse_u16_text,
    rfind_byte, same_text, split_around,
};
use vstd::prelude::*;
use vstd::string::*;
use vstd::utf8::{decode_utf8, encode_utf8, encode_utf8_decode_utf8};

verus! {

/// Configuration for the application.
#[derive(Debug, Clone)]
pub struct Config {
    /// Discord bot token
    pub discord_token: String,
    /// Path to SQLite database file
    pub db_path: String,
    /// Minecraft server address (host:port)
    pub mc_server_address: String,
    /// Path to the directory containing backup files
    pub backup_folder: String,
    /// Directory where backups are published for download
    pub backup_publish_root: String,
    /// Public URL base where published backups are served
    pub backup_public_base_url: String,
}

/// What the file system says of a path.
#[derive(Debug, Clone, Copy, PartialEq, Eq)]
pub struct PathProbe {
    /// The path is absolute.
    pub is_absolute: bool,
    /// Something exists at the path.
    pub exists: bool,
    /// What exists at the path is a directory.
    pub is_dir: bool,
}

/// What is to be done with a publish root that passed the checks so far.
#[derive(Debug, Clone, Copy, PartialEq, Eq)]
pub enum PublishRoot {
    /// Nothing exists at the path yet: create the directory, then check again.
    Create,
    /// The directory is there.
    Ready,
}

/// Scheme and host of a URL.
#[derive(Debug, Clone, PartialEq, Eq)]
pub struct UrlParts {
    /// The scheme, in lower case, without the colon.
    pub scheme: String,
    /// The host, where the URL has one.
    pub host: Option<String>,
}

pub struct UrlPartsView {
    pub scheme: Seq<char>,
    pub host: Option<Seq<char>>,
}

impl View for UrlParts {
    type V = UrlPartsView;

    open spec fn view(&self) -> UrlPartsView {
        UrlPartsView {
            scheme: self.scheme@,
            host: match self.host {
                Some(h) => Some(h@),
                None => None,
            },
        }
    }
}

/// What parsing a text as an absolute URL gives: scheme and host, or the
/// words of the parser's refusal.
pub uninterp spec fn parsed_url(text: Seq<char>) -> Result<UrlPartsView, Seq<char>>;

/// `Url::parse` of the url crate, with `scheme` and `host_str` of the URL
/// it returns, or the text of its error. The result is only named.
#[verifier::external_body]
fn parse_url(text: &str) -> (r: Result<UrlParts, String>)
    ensures
        match r {
            Ok(parts) => parsed_url(text@) == Ok::<UrlPartsView, Seq<char>>(parts@),
            Err(e) => parsed_url(text@) == Err::<UrlPartsView, Seq<char>>(e@),
        },
{
    match url::Url::parse(text) {
        Ok(url) => Ok(
            UrlParts {
                scheme: url.scheme().to_string(),
                host: url.host_str().map(|h| h.to_string()),
            },
        ),
        Err(e) => Err(e.to_string()),
    }
}

/// What is wrong with a server address, if anything: it has no colon, or
/// what follows its last colon is not a port number.
pub open spec fn server_address_problem(address: Seq<char>) -> Option<Seq<char>> {
    let bytes = encode_utf8(address);
    let colon = last_index_of(bytes, 0x3A);
    let port = bytes.subrange(colon + 1, bytes.len() as int);
    if colon < 0 {
        Some("Invalid MC_SERVER_ADDRESS format: '"@ + address + "'. Expected 'host:port' format."@)
    } else if parse_u16(port) is None {
        Some("Invalid port in MC_SERVER_ADDRESS: '"@ + decode_utf8(port) + "'"@)
    } else {
        None
    }
}

/// What is wrong with a backup folder, if anything.
pub open spec fn backup_folder_problem(path: Seq<char>, probe: PathProbe) -> Option<Seq<char>> {
    if !probe.is_absolute {
        Some("BACKUP_FOLDER must be an absolute path, got: '"@ + path + "'"@)
    } else if !probe.exists {
        Some("BACKUP_FOLDER path does not exist: '"@ + path + "'"@)
    } else if !probe.is_dir {
        Some("BACKUP_FOLDER path is not a directory: '"@ + path + "'"@)
    } else {
        None
    }
}

/// What to make of a publish root: an error in words, or what to do next.
pub open spec fn publish_root_verdict(path: Seq<char>, probe: PathProbe) -> Result<
    PublishRoot,
    Seq<char>,
> {
    if !probe.is_absolute {
        Err("BACKUP_PUBLISH_ROOT must be an absolute path, got: '"@ + path + "'"@)
    } else if !probe.exists {
        Ok(PublishRoot::Create)
    } else if !probe.is_dir {
        Err("BACKUP_PUBLISH_ROOT is not a directory: '"@ + path + "'"@)
    } else {
        Ok(PublishRoot::Ready)
    }
}

/// What is wrong with a public base URL, given what parsing it gave: it
/// does not parse, its scheme is neither http nor https, or it has no host.
pub open spec fn public_base_url_problem(
    url: Seq<char>,
    parsed: Result<UrlPartsView, Seq<char>>,
) -> Option<Seq<char>> {
    match parsed {
        Err(e) => Some("Invalid BACKUP_PUBLIC_BASE_URL '"@ + url + "': "@ + e),
        Ok(parts) => if parts.scheme != "http"@ && parts.scheme != "https"@ {
            Some(
                "BACKUP_PUBLIC_BASE_URL must use http:// or https:// scheme, got: '"@
                    + parts.scheme + "'"@,
            )
        } else if parts.host is None {
            Some("BACKUP_PUBLIC_BASE_URL must contain a valid host: '"@ + url + "'"@)
        } else {
            None
        },
    }
}

/// Whether a result reports exactly the given problem as a configuration
/// error, or the absence of any.
pub open spec fn reports(r: std::result::Result<(), OxideVaultError>, problem: Option<Seq<char>>) -> bool {
    match r {
        Ok(()) => problem is None,
        Err(e) => problem == Some(e@.detail()) && e@ is Config,
    }
}

fn config_error(before: &str, subject: &str, after: &str) -> (r: OxideVaultError)
    ensures
        r@ == ErrorView::Config(before@ + subject@ + after@),
{
    OxideVaultError::Config(concat3(before, subject, after))
}

/// Where backups are looked for unless the settings say otherwise.
pub const DEFAULT_BACKUP_FOLDER: &'static str = "/backups";

/// Where backups are published unless the settings say otherwise.
pub const DEFAULT_PUBLISH_ROOT: &'static str = "/backups/public";

/// The URL under which published backups are served unless the settings
/// say otherwise.
pub const DEFAULT_PUBLIC_BASE_URL: &'static str = "http://localhost/backups";

impl Config {
    /// The Discord token of the settings, which must be there.
    pub fn require_discord_token(value: Option<String>) -> (r: std::result::Result<
        String,
        OxideVaultError,
    >)
        ensures
            match (value, r) {
                (Some(token), Ok(found)) => found@ == token@,
                (None, Err(e)) => e@ == ErrorView::Config(
                    "Missing DISCORD_TOKEN environment variable. Set it in your environment or create a .env file (never commit this file)."@,
                ),
                _ => false,
            },
    {
        match value {
            Some(token) => Ok(token),
            None => Err(
                OxideVaultError::Config(
                    String::from_str(
                        "Missing DISCORD_TOKEN environment variable. Set it in your environment or create a .env file (never commit this file).",
                    ),
                ),
            ),
        }
    }

    /// The server address of the settings, which must be there and have
    /// the form `host:port`.
    pub fn require_server_address(value: Option<String>) -> (r: std::result::Result<
        String,
        OxideVaultError,
    >)
        ensures
            match value {
                Some(address) => match r {
                    Ok(found) => found@ == address@ && server_address_problem(address@) is None,
                    Err(e) => e@ is Config && server_address_problem(address@) == Some(
                        e@.detail(),
                    ),
                },
                None => r matches Err(e) && e@ == ErrorView::Config(
                    "Missing MC_SERVER_ADDRESS environment variable. Set it in your environment or .env file (e.g., MC_SERVER_ADDRESS=localhost:25565)."@,
                ),
            },
    {
        match value {
            Some(address) => match Config::validate_server_address(address.as_str()) {
                Ok(()) => Ok(address),
                Err(e) => Err(e),
            },
            None => Err(
                OxideVaultError::Config(
                    String::from_str(
                        "Missing MC_SERVER_ADDRESS environment variable. Set it in your environment or .env file (e.g., MC_SERVER_ADDRESS=localhost:25565).",
                    ),
                ),
            ),
        }
    }

    /// Validate that the server address has the form `host:port`.
    pub fn validate_server_address(address: &str) -> (r: std::result::Result<(), OxideVaultError>)
        ensures
            reports(r, server_address_problem(address@)),
    {
        let bytes = address.as_bytes();
        proof {
            lemma_last_index_of(bytes@, 0x3A);
        }
        match rfind_byte(bytes, 0x3A) {
            None => Err(
                config_error(
                    "Invalid MC_SERVER_ADDRESS format: '",
                    address,
                    "'. Expected 'host:port' format.",
                ),
            ),
            Some(colon) => {
                let (_, port_text) = split_around(address, colon);
                proof {
                    lemma_text_of_bytes(port_text);
                }
                match parse_u16_text(port_text.as_bytes()) {
                    Some(_) => Ok(()),
                    None => Err(
                        config_error("Invalid port in MC_SERVER_ADDRESS: '", port_text, "'"),
                    ),
                }
            },
        }
    }

    /// Validate that the backup folder is an absolute path to a directory
    /// that exists, going by what the file system says of it.
    pub fn validate_backup_folder(path: &str, probe: PathProbe) -> (r: std::result::Result<
        (),
        OxideVaultError,
    >)
        ensures
            reports(r, backup_folder_problem(path@, probe)),
    {
        if !probe.is_absolute {
            return Err(config_error("BACKUP_FOLDER must be an absolute path, got: '", path, "'"));
        }
        if !probe.exists {
            return Err(config_error("BACKUP_FOLDER path does not exist: '", path, "'"));
        }
        if !probe.is_dir {
            return Err(config_error("BACKUP_FOLDER path is not a directory: '", path, "'"));
        }
        Ok(())
    }

    /// Validate the publish root, going by what the file system says of
    /// it: it must be absolute, and a directory unless nothing is there yet,
    /// in which case it is to be created and checked again.
    pub fn validate_publish_root(path: &str, probe: PathProbe) -> (r: std::result::Result<
        PublishRoot,
        OxideVaultError,
    >)
        ensures
            match r {
                Ok(next) => publish_root_verdict(path@, probe) == Ok::<PublishRoot, Seq<char>>(
                    next,
                ),
                Err(e) => e@ is Config && publish_root_verdict(path@, probe) == Err::<
                    PublishRoot,
                    Seq<char>,
                >(e@.detail()),
            },
    {
        if !probe.is_absolute {
            return Err(
                config_error("BACKUP_PUBLISH_ROOT must be an absolute path, got: '", path, "'"),
            );
        }
        if !probe.exists {
            return Ok(PublishRoot::Create);
        }
        if !probe.is_dir {
            return Err(config_error("BACKUP_PUBLISH_ROOT is not a directory: '", path, "'"));
        }
        Ok(PublishRoot::Ready)
    }

    /// The error for a publish root that could not be created.
    pub fn publish_root_not_created(path: &str, reason: &str) -> (r: OxideVaultError)
        ensures
            r@ == ErrorView::Config(
                "Failed to create BACKUP_PUBLISH_ROOT '"@ + path@ + "': "@ + reason@,
            ),
    {
        let mut message = concat3("Failed to create BACKUP_PUBLISH_ROOT '", path, "': ");
        message.append(reason);
        OxideVaultError::Config(message)
    }

    /// Judges a public base URL by what parsing it gave.
    pub fn check_public_base_url(url: &str, parsed: std::result::Result<UrlParts, String>) -> (r:
        std::result::Result<(), OxideVaultError>)
        ensures
            reports(
                r,
                public_base_url_problem(
                    url@,
                    match parsed {
                        Ok(parts) => Ok(parts@),
                        Err(e) => Err(e@),
                    },
                ),
            ),
    {
        match parsed {
            Err(e) => {
                let mut message = concat3("Invalid BACKUP_PUBLIC_BASE_URL '", url, "': ");
                message.append(e.as_str());
                Err(OxideVaultError::Config(message))
            },
            Ok(parts) => {
                if !same_text(parts.scheme.as_str(), "http") && !same_text(
                    parts.scheme.as_str(),
                    "https",
                ) {
                    return Err(
                        config_error(
                            "BACKUP_PUBLIC_BASE_URL must use http:// or https:// scheme, got: '",
                            parts.scheme.as_str(),
                            "'",
                        ),
                    );
                }
                if parts.host.is_none() {
                    return Err(
                        config_error(
                            "BACKUP_PUBLIC_BASE_URL must contain a valid host: '",
                            url,
                            "'",
                        ),
                    );
                }
                Ok(())
            },
        }
    }

    /// Validate the public base URL: it must parse as an absolute URL with
    /// the scheme http or https and a host.
    pub fn validate_public_base_url(url: &str) -> (r: std::result::Result<(), OxideVaultError>)
        ensures
            reports(r, public_base_url_problem(url@, parsed_url(url@))),
    {
        Config::check_public_base_url(url, parse_url(url))
    }
}

} // verus!
