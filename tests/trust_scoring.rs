use sentinel::startup::extract_executable_path;
use sentinel::trust::{
    assess_risk, get_signature_details, quick_trust_from_path, signature_from_json,
    signature_verdict, subject_cn, SignatureCheck,
};

#[test]
fn risk_unknown_without_path() {
    assert_eq!(assess_risk(None, None, false, Some("svch0st.exe")), "unknown");
    assert_eq!(assess_risk(None, Some("Acme"), true, None), "unknown");
}

#[test]
fn risk_suspicious_name_beats_everything() {
    let temp = "C:\\Users\\a\\AppData\\Local\\Temp\\svch0st.exe";
    assert_eq!(assess_risk(Some(temp), None, false, Some("svch0st.exe")), "suspicious");
    assert_eq!(assess_risk(Some("C:\\Windows\\x.exe"), Some("Acme"), true, Some("Exp1orer.exe")), "suspicious");
    assert_eq!(assess_risk(Some("/opt/1SASS"), None, true, None), "suspicious");
    assert_eq!(assess_risk(Some("/opt/a"), None, true, Some("csrsss")), "suspicious");
}

#[test]
fn risk_high_for_unsigned_in_temp() {
    assert_eq!(assess_risk(Some("C:\\TEMP\\a.exe"), None, false, Some("a.exe")), "high");
    assert_eq!(assess_risk(Some("C:\\x\\tmp\\a.exe"), None, false, Some("a.exe")), "high");
    assert_eq!(assess_risk(Some("/tmp/run.sh"), None, false, Some("run.sh")), "high");
    assert_eq!(
        assess_risk(Some("C:\\Users\\b\\AppData\\Local\\Temp\\x.exe"), None, false, Some("x.exe")),
        "high"
    );
}

#[test]
fn risk_medium_for_unsigned_elsewhere() {
    assert_eq!(assess_risk(Some("/home/u/app"), None, false, Some("app")), "medium");
}

#[test]
fn risk_low_for_signed_with_or_without_publisher() {
    assert_eq!(assess_risk(Some("/tmp/tool"), None, true, Some("tool")), "low");
    assert_eq!(assess_risk(Some("/usr/bin/ls"), Some("Debian"), true, Some("ls")), "low");
}

#[test]
fn risk_name_taken_from_path_when_absent() {
    assert_eq!(assess_risk(Some("C:\\x\\svch0st.exe"), None, true, None), "suspicious");
    assert_eq!(assess_risk(Some("C:\\x\\svchost.exe"), None, true, None), "low");
}

#[test]
fn risk_is_repeatable() {
    for _ in 0..3 {
        assert_eq!(assess_risk(Some("/tmp/a"), None, false, Some("a")), "high");
    }
}

#[test]
fn quick_trust_by_directory() {
    assert!(quick_trust_from_path(Some("C:\\WINDOWS\\System32\\svchost.exe")).signed);
    assert!(quick_trust_from_path(Some("C:\\Program Files\\App\\a.exe")).signed);
    assert!(quick_trust_from_path(Some("/usr/bin/ls")).signed);
    assert!(quick_trust_from_path(Some("/bin/sh")).signed);
    assert!(!quick_trust_from_path(Some("/home/u/bin2/x")).signed);
    let none = quick_trust_from_path(None);
    assert!(!none.signed);
    assert!(none.publisher.is_none());
    assert!(quick_trust_from_path(Some("/usr/bin/ls")).publisher.is_none());
}

#[test]
fn common_name_of_subject() {
    assert_eq!(
        subject_cn("CN=Microsoft Windows, O=Microsoft Corporation, C=US").as_deref(),
        Some("Microsoft Windows")
    );
    assert_eq!(subject_cn("O=Acme, CN=  Acme Signing  ").as_deref(), Some("Acme Signing"));
    assert_eq!(subject_cn("O=Acme"), None);
    assert_eq!(subject_cn("CN=").as_deref(), Some(""));
}

#[test]
fn verdict_from_status_and_subject() {
    let v = signature_verdict(Some("VALID"), Some("CN=Acme Inc, O=Acme"));
    assert!(v.signed);
    assert_eq!(v.publisher.as_deref(), Some("Acme Inc"));
    let u = signature_verdict(Some("NotSigned"), None);
    assert!(!u.signed);
    assert!(u.publisher.is_none());
}

#[test]
fn verdict_from_json_output() {
    let out = br#"{"Status":"Valid","SignerCertificate":{"Subject":"CN=Contoso, O=Contoso"}}"#;
    let v = signature_from_json(out).unwrap();
    assert!(v.signed);
    assert_eq!(v.publisher.as_deref(), Some("Contoso"));
    assert!(signature_from_json(b"not json").is_none());
}

#[test]
fn signature_details_fall_back_to_quick_verdict() {
    let path = "C:\\Windows\\notepad.exe";
    let failed = SignatureCheck { succeeded: false, output: Vec::new() };
    assert!(get_signature_details(path, true, Some(failed)).signed);
    assert!(get_signature_details(path, true, None).signed);
    let garbled = SignatureCheck { succeeded: true, output: b"<<<".to_vec() };
    let g = get_signature_details(path, true, Some(garbled));
    assert!(g.signed);
    assert!(g.publisher.is_none());
    let missing = get_signature_details(path, false, None);
    assert!(missing.signed);
    assert!(missing.publisher.is_none());
    assert!(!get_signature_details("/home/u/gone", false, None).signed);
    assert!(!get_signature_details("", true, None).signed);
    let ok = SignatureCheck {
        succeeded: true,
        output: br#"{"Status":"HashMismatch","SignerCertificate":null}"#.to_vec(),
    };
    let m = get_signature_details(path, true, Some(ok));
    assert!(!m.signed);
    assert!(m.publisher.is_none());
}

#[test]
fn signature_details_follow_a_successful_check() {
    let out = br#"{"Status":"valid","SignerCertificate":{"Subject":"CN=Tool Maker, O=TM"}}"#.to_vec();
    let check = SignatureCheck { succeeded: true, output: out };
    let v = get_signature_details("/home/u/tool", true, Some(check));
    assert!(v.signed);
    assert_eq!(v.publisher.as_deref(), Some("Tool Maker"));
    let array = SignatureCheck { succeeded: true, output: br#"[{"Status":"Valid"}]"#.to_vec() };
    let a = get_signature_details("/usr/bin/x", true, Some(array));
    assert!(!a.signed);
    assert!(a.publisher.is_none());
}

#[test]
fn executable_of_command_lines() {
    assert_eq!(
        extract_executable_path("\"C:\\Program Files\\App\\app.exe\" --start").as_deref(),
        Some("C:\\Program Files\\App\\app.exe")
    );
    assert_eq!(extract_executable_path("  C:\\app.exe -x  ").as_deref(), Some("C:\\app.exe"));
    assert_eq!(extract_executable_path("   "), None);
    assert_eq!(extract_executable_path(""), None);
    assert_eq!(extract_executable_path("\"C:\\unterminated.exe"), None);
    assert_eq!(extract_executable_path("\tapp\t-x").as_deref(), Some("app"));
}
