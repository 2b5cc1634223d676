use oxidevault::error::{OxideVaultError, ProtocolError};
use oxidevault::utils::text::{
    concat3, count_byte, decimal_string, parse_i32_text, parse_u16_text, rfind_byte, same_text,
    signed_string,
};

#[test]
fn errors_as_shown() {
    let m = || "m".to_string();
    assert_eq!(OxideVaultError::Config(m()).to_string(), "Configuration error: m");
    assert_eq!(OxideVaultError::Database(m()).to_string(), "Database error: m");
    assert_eq!(OxideVaultError::ServerProtocol(m()).to_string(), "Server protocol error: m");
    assert_eq!(OxideVaultError::MojangApi(m()).to_string(), "Mojang API error: m");
    assert_eq!(OxideVaultError::Network(m()).to_string(), "Network error: m");
    assert_eq!(OxideVaultError::Discord(m()).to_string(), "Discord error: m");
    assert_eq!(OxideVaultError::Validation(m()).to_string(), "Validation error: m");
    assert_eq!(OxideVaultError::Io(m()).to_string(), "I/O error: m");
    assert_eq!(OxideVaultError::InvalidInput(m()).to_string(), "Invalid input: m");
}

#[test]
fn protocol_errors_as_library_errors() {
    let m = || "m".to_string();
    assert_eq!(
        OxideVaultError::from_protocol(ProtocolError::AddressResolutionFailed(m())),
        OxideVaultError::ServerProtocol(m())
    );
    assert_eq!(
        OxideVaultError::from_protocol(ProtocolError::ConnectionFailed(m())),
        OxideVaultError::ServerProtocol(m())
    );
    assert_eq!(
        OxideVaultError::from_protocol(ProtocolError::MalformedStatusPayload(m())),
        OxideVaultError::ServerProtocol(m())
    );
    assert_eq!(
        OxideVaultError::from_protocol(ProtocolError::IoError(m())),
        OxideVaultError::Io(m())
    );
    assert_eq!(
        OxideVaultError::from_protocol(ProtocolError::VarIntTooLarge),
        OxideVaultError::Io("VarInt is too big".to_string())
    );
    assert_eq!(
        OxideVaultError::from_protocol(ProtocolError::UnexpectedEndOfData),
        OxideVaultError::Io("Unexpected end of data while reading VarInt".to_string())
    );
    assert_eq!(
        OxideVaultError::from_protocol(ProtocolError::TruncatedString),
        OxideVaultError::Io("String length exceeds data size".to_string())
    );
}

#[test]
fn decimal_numbers_written() {
    assert_eq!(decimal_string(0), "0");
    assert_eq!(decimal_string(9), "9");
    assert_eq!(decimal_string(10), "10");
    assert_eq!(decimal_string(25565), "25565");
    assert_eq!(decimal_string(u64::MAX), "18446744073709551615");
    assert_eq!(signed_string(0), "0");
    assert_eq!(signed_string(-1), "-1");
    assert_eq!(signed_string(i32::MAX), "2147483647");
    assert_eq!(signed_string(i32::MIN), "-2147483648");
}

#[test]
fn decimal_numbers_read() {
    assert_eq!(parse_u16_text(b"0"), Some(0));
    assert_eq!(parse_u16_text(b"25565"), Some(25565));
    assert_eq!(parse_u16_text(b"65535"), Some(65535));
    assert_eq!(parse_u16_text(b"+65535"), Some(65535));
    assert_eq!(parse_u16_text(b"000000000000000000000000007"), Some(7));
    for bad in [&b""[..], b"+", b"-1", b"65536", b"99999999999999999999999", b"1a", b" 1", b"1 "] {
        assert_eq!(parse_u16_text(bad), None);
        assert_eq!(
            parse_u16_text(bad),
            std::str::from_utf8(bad).unwrap().parse::<u16>().ok()
        );
    }
    for text in ["0", "-0", "+0", "-2147483648", "2147483647", "2147483648", "-", "", "12x", "00012"] {
        assert_eq!(parse_i32_text(text.as_bytes()), text.parse::<i32>().ok());
    }
}

#[test]
fn searching_and_cutting() {
    assert_eq!(rfind_byte(b"a:b:c", b':'), Some(3));
    assert_eq!(rfind_byte(b":", b':'), Some(0));
    assert_eq!(rfind_byte(b"abc", b':'), None);
    assert_eq!(rfind_byte(b"", b':'), None);
    assert_eq!(count_byte(b"a,b,,c", b','), 3);
    assert_eq!(count_byte(b"", b','), 0);
    assert!(same_text("abc", "abc"));
    assert!(!same_text("abc", "abd"));
    assert!(!same_text("abc", "ab"));
    assert!(same_text("", ""));
    assert_eq!(concat3("a", "b", "c"), "abc");
}
