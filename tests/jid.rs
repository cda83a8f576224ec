use petri::jid::{hex_lower, JobDescription};
use petri::process::StartInfo;

fn plain_description() -> JobDescription {
    JobDescription {
        start_info: StartInfo {
            program: "p".to_string(),
            args: None,
            cwd: "/".to_string(),
            env: vec![],
            log_path: None,
        },
        auto_restart: false,
    }
}

#[test]
fn jid_of_plain_description() {
    let desc = plain_description();
    assert_eq!(desc.digest(0), "0fe25860967b979a5eacc0b96292be6a205ec943");
}

#[test]
fn jid_digest_input_layout() {
    let desc = plain_description();
    let mut expected = vec![0u8; 8];
    expected.extend_from_slice(b"p()/{}");
    expected.push(0);
    assert_eq!(desc.digest_input(0), expected);
}

#[test]
fn jid_with_everything_set() {
    let desc = JobDescription {
        start_info: StartInfo {
            program: "/bin/echo".to_string(),
            args: Some(vec!["hi".to_string()]),
            cwd: "/tmp".to_string(),
            env: vec![("A".to_string(), "1".to_string())],
            log_path: Some("/var/log".to_string()),
        },
        auto_restart: true,
    };
    let id = desc.digest(1_700_000_000_000);
    assert_eq!(id, "c9c874a8b6edb3366e6cce150e2b9ae7bb3ab669");
}

#[test]
fn jid_is_stable_and_hex() {
    let desc = plain_description();
    let a = desc.digest(42);
    let b = desc.digest(42);
    assert_eq!(a, b);
    assert_eq!(a.len(), 40);
    assert!(a.chars().all(|c| c.is_ascii_digit() || ('a'..='f').contains(&c)));
    assert_ne!(desc.digest(43), a);
}

#[test]
fn hex_rendering() {
    assert_eq!(hex_lower(&[0x00, 0x0f, 0xa0, 0xff]), "000fa0ff");
    assert_eq!(hex_lower(&[]), "");
}
