use rport::known_hosts::{acceptance_note, CheckResult, KnownHostEntry, KnownHosts};

fn entry(addr: &str, fingerprint: &str, accepted_at: &str) -> KnownHostEntry {
    KnownHostEntry {
        addr: addr.to_string(),
        fingerprint: fingerprint.to_string(),
        accepted_at: accepted_at.to_string(),
    }
}

#[test]
fn test_known_hosts_check() {
    let kh = KnownHosts::from_entries(
        "/tmp/test_kh".to_string(),
        vec![KnownHostEntry {
            addr: "192.168.1.5:4443".to_string(),
            fingerprint: "AA:BB:CC:DD".to_string(),
            accepted_at: String::new(),
        }],
    );

    match kh.check("192.168.1.5:4443", "AA:BB:CC:DD") {
        CheckResult::Match => {}
        _ => panic!("Expected Match"),
    }

    match kh.check("192.168.1.5:4443", "XX:YY:ZZ") {
        CheckResult::Mismatch { .. } => {}
        _ => panic!("Expected Mismatch"),
    }

    match kh.check("10.0.0.1:4443", "AA:BB:CC:DD") {
        CheckResult::Unknown => {}
        _ => panic!("Expected Unknown"),
    }
}

#[test]
fn test_add_and_check() {
    let mut kh = KnownHosts::from_entries("/tmp/test_kh2".to_string(), vec![]);

    assert!(matches!(kh.check("host:4443", "FP:123"), CheckResult::Unknown));

    kh.add("host:4443", "FP:123");
    assert!(matches!(kh.check("host:4443", "FP:123"), CheckResult::Match));

    // Updating should work
    kh.add("host:4443", "FP:456");
    assert!(matches!(kh.check("host:4443", "FP:456"), CheckResult::Match));
}

#[test]
fn a_mismatch_tells_both_fingerprints() {
    let kh = KnownHosts::from_entries("p".to_string(), vec![entry("a", "one", "")]);
    match kh.check("a", "two") {
        CheckResult::Mismatch { expected, actual } => {
            assert_eq!(expected, "one");
            assert_eq!(actual, "two");
        }
        _ => panic!("Expected Mismatch"),
    }
}

#[test]
fn the_first_entry_for_an_address_decides() {
    let kh = KnownHosts::from_entries(
        "p".to_string(),
        vec![entry("a", "one", ""), entry("a", "two", "")],
    );
    assert!(matches!(kh.check("a", "one"), CheckResult::Match));
    assert!(matches!(kh.check("a", "two"), CheckResult::Mismatch { .. }));
}

#[test]
fn adding_replaces_and_keeps_the_others() {
    let mut kh = KnownHosts::from_entries(
        "p".to_string(),
        vec![entry("a", "one", ""), entry("b", "bb", ""), entry("a", "two", "")],
    );
    kh.add_entry("a", "three", "note".to_string());
    assert_eq!(kh.save(), "b bb \na three note\n");
    assert!(matches!(kh.check("b", "bb"), CheckResult::Match));
}

#[test]
fn the_note_tells_when_a_host_was_accepted() {
    let mut kh = KnownHosts::from_entries("p".to_string(), vec![]);
    kh.add("a", "one");
    let text = kh.save();
    assert!(text.starts_with("a one (accepted on 2"));
    assert!(text.ends_with(" UTC)\n"));
    assert_eq!(text.len(), "a one (accepted on 2024-01-02 03:04:05 UTC)\n".len());
}

#[test]
fn a_file_is_read_line_by_line() {
    let text = "# comment\n\n  a one  \nb two (accepted on today UTC)\r\nlonely\n c three x y z\n";
    let kh = KnownHosts::load("p".to_string(), Some(text));
    assert_eq!(kh.path(), "p");
    assert!(matches!(kh.check("a", "one"), CheckResult::Match));
    assert!(matches!(kh.check("b", "two"), CheckResult::Match));
    assert!(matches!(kh.check("c", "three"), CheckResult::Match));
    assert!(matches!(kh.check("lonely", ""), CheckResult::Unknown));
    assert!(matches!(kh.check("#", "comment"), CheckResult::Unknown));
    assert_eq!(
        kh.save(),
        "a one \nb two (accepted on today UTC)\nc three x y z\n"
    );
}

#[test]
fn two_blanks_leave_the_fingerprint_empty() {
    let kh = KnownHosts::load("p".to_string(), Some("a  b"));
    assert!(matches!(kh.check("a", ""), CheckResult::Match));
}

#[test]
fn a_file_that_is_not_there_remembers_nothing() {
    let kh = KnownHosts::load("p".to_string(), None);
    assert!(matches!(kh.check("a", "one"), CheckResult::Unknown));
    assert_eq!(kh.save(), "\n");
}

#[test]
fn what_is_saved_is_loaded() {
    let mut kh = KnownHosts::load("p".to_string(), None);
    kh.add("host:1", "AA:BB");
    kh.add("host:2", "CC:DD");
    let text = kh.save();
    let again = KnownHosts::load("p".to_string(), Some(&text));
    assert_eq!(again.save(), text);
    assert!(matches!(again.check("host:1", "AA:BB"), CheckResult::Match));
    assert!(matches!(again.check("host:2", "CC:DD"), CheckResult::Match));
}

#[test]
fn the_prompt_names_the_host_and_its_fingerprint() {
    assert_eq!(
        KnownHosts::prompt("h:1", "AA"),
        "\nThe authenticity of host '[h:1]' can't be established.\nFingerprint: AA\nAre you sure you want to continue connecting? (yes/no)\n"
    );
}

#[test]
fn only_yes_confirms() {
    for yes in ["yes", "y", "YES\n", " Yes \r\n", "Y", "yEs"] {
        assert!(KnownHosts::is_confirmed(yes), "{:?}", yes);
        let lower = yes.trim().to_lowercase();
        assert!(lower == "yes" || lower == "y");
    }
    for no in ["", "\n", "no", "n", "yess", "ye", "yes yes", "ýes"] {
        assert!(!KnownHosts::is_confirmed(no), "{:?}", no);
        let lower = no.trim().to_lowercase();
        assert!(lower != "yes" && lower != "y");
    }
}

#[test]
fn a_copy_knows_the_same() {
    let kh = KnownHosts::from_entries("p".to_string(), vec![entry("a", "one", "")]);
    let copy = kh.clone();
    assert_eq!(copy.path(), "p");
    assert!(matches!(copy.check("a", "one"), CheckResult::Match));
}

#[test]
fn any_plain_note_reads_back() {
    for note in ["", "x", " by hand", "two  words", "\u{e4}"] {
        let kh = KnownHosts::from_entries("p".to_string(), vec![entry("h:1", "AA", note)]);
        let text = kh.save();
        let back = KnownHosts::load("p".to_string(), Some(text.as_str()));
        assert_eq!(back.save(), format!("h:1 AA {}\n", note));
    }
}

#[test]
fn a_note_tells_when_a_host_was_accepted() {
    assert_eq!(
        acceptance_note("2024-05-06 07:08:09"),
        "(accepted on 2024-05-06 07:08:09 UTC)"
    );
}
