use punch::safety::{classify, extension_of, is_yes, session_fingerprint, AcceptanceRecord, RiskLevel, TransferConsent};
use punch::time::Timestamp;

#[test]
fn risk_texts() {
    assert_eq!(RiskLevel::High.icon(), "🔴");
    assert_eq!(RiskLevel::Medium.icon(), "🟡");
    assert_eq!(RiskLevel::Low.icon(), "🟢");
    assert_eq!(RiskLevel::High.label(), "HIGH RISK");
    assert_eq!(RiskLevel::Medium.label(), "MEDIUM RISK");
    assert_eq!(RiskLevel::Low.label(), "LOW RISK");
    assert_eq!(RiskLevel::High.description(), "Executable — can run code on your system");
    assert_eq!(RiskLevel::Medium.description(), "Archive — may contain executable files inside");
    assert_eq!(RiskLevel::Low.description(), "Document or media — generally safe");
}

#[test]
fn classification_by_extension() {
    assert_eq!(classify("setup.exe"), RiskLevel::High);
    assert_eq!(classify("SETUP.EXE"), RiskLevel::High);
    assert_eq!(classify("install.sh"), RiskLevel::High);
    assert_eq!(classify("script.ps1"), RiskLevel::High);
    assert_eq!(classify("archive.tar.gz"), RiskLevel::Medium);
    assert_eq!(classify("bundle.ZIP"), RiskLevel::Medium);
    assert_eq!(classify("app.apk"), RiskLevel::Medium);
    assert_eq!(classify("photo.jpg"), RiskLevel::Low);
    assert_eq!(classify("README"), RiskLevel::Low);
    assert_eq!(classify(".bashrc"), RiskLevel::Low);
    assert_eq!(classify("dir.exe/notes"), RiskLevel::Low);
    assert_eq!(classify(""), RiskLevel::Low);
}

#[test]
fn extensions_follow_path_rules() {
    assert_eq!(extension_of("a.tar.gz"), Some("gz".to_string()));
    assert_eq!(extension_of("notes"), None);
    assert_eq!(extension_of(".hidden"), None);
    assert_eq!(extension_of("file."), Some("".to_string()));
    assert_eq!(extension_of("dir/x.txt"), Some("txt".to_string()));
    assert_eq!(extension_of("x.txt/"), Some("txt".to_string()));
}

#[test]
fn fingerprint_groups_the_checksum() {
    assert_eq!(
        session_fingerprint("ba7816bf8f01cfea414140de5dae2223b00361a396177a9cb410ff61f20015ad"),
        "ba78-16bf-8f01"
    );
    assert_eq!(session_fingerprint("0123456789ab"), "0123-4567-89ab");
    // Groups are cut by bytes: a two-byte character fills two of the four.
    assert_eq!(session_fingerprint("ab\u{e9}cdefghijklmn"), "ab\u{e9}-cdef-ghij");
}

#[test]
fn only_yes_accepts() {
    assert!(is_yes("yes"));
    assert!(is_yes("  YES \n"));
    assert!(is_yes("Yes\r\n"));
    assert!(!is_yes("y"));
    assert!(!is_yes("no"));
    assert!(!is_yes(""));
    assert!(!is_yes("yes please"));
}

#[test]
fn consent_for_an_incoming_file() {
    let c = TransferConsent::build("setup.exe", 5, "ba7816bf8f01cfea414140de", "1.2.3.4:5");
    assert_eq!(c.extension, "exe");
    assert_eq!(c.risk, RiskLevel::High);
    assert_eq!(c.fingerprint, "ba78-16bf-8f01");
    assert_eq!(c.checksum, "ba7816bf8f01cfea414140de");
    assert_eq!(c.sender_addr, "1.2.3.4:5");
    assert_eq!(c.total_size, 5);
    let plain = TransferConsent::build("notes", 5, "ba7816bf8f01cfea414140de", "x");
    assert_eq!(plain.extension, "unknown");
    assert_eq!(plain.risk, RiskLevel::Low);
}

#[test]
fn acceptance_records() {
    let c = TransferConsent::build("a.zip", 77, "0123456789abcdef", "peer");
    let now = Timestamp { secs: 1_700_000_000, nanos: 5 };
    let r = AcceptanceRecord::from_decision(&c, 77, true, "/tmp/a.zip", now);
    assert_eq!(r.decision, "accepted");
    assert_eq!(r.risk_level, "MEDIUM RISK");
    assert_eq!(r.timestamp, now);
    assert_eq!(r.size_bytes, 77);
    assert_eq!(r.dest_path, "/tmp/a.zip");
    assert_eq!(r.fingerprint, "0123-4567-89ab");
    let rejected = AcceptanceRecord::from_decision(&c, 77, false, "", now);
    assert_eq!(rejected.decision, "rejected");
}
