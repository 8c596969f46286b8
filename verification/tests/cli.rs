//! The command line, and the texts everything else is made of.
use countercow::cli::{
    ambiguity, listing_heading, listing_row, resolve_by_assembly, resolve_target, sample_row,
    truncate, Candidate, Target,
};
use countercow::ipc::discovery::DotnetProcess;
use countercow::text::{
    contains_text, same_ignoring_case, same_text, text_at_most, to_decimal, trim,
};

fn process(pid: u32, name: &str) -> DotnetProcess {
    DotnetProcess {
        pid,
        socket: b"/tmp/s".to_vec(),
        name: name.into(),
        command: "cmd --flag".into(),
        start_key_verified: true,
    }
}

fn processes() -> Vec<DotnetProcess> {
    vec![process(10, "Orders.Api"), process(20, "dotnet"), process(30, "orders.worker")]
}

#[test]
fn no_target_is_asked_for() {
    assert!(matches!(resolve_target(&processes(), None, None), Target::Unasked));
}

#[test]
fn a_pid_is_looked_up() {
    assert!(matches!(resolve_target(&processes(), Some(20), None), Target::Found(1)));
    // The pid decides where both are given.
    assert!(matches!(resolve_target(&processes(), Some(20), Some("Orders")), Target::Found(1)));
    match resolve_target(&processes(), Some(99), None) {
        Target::Missing(words) => assert_eq!(
            words,
            "no attachable .NET process with pid 99. It may not be a .NET process, may have \
             exited, or may belong to another user."
        ),
        _ => panic!("there is no such process"),
    }
}

#[test]
fn names_match_anywhere_and_in_any_case() {
    assert!(matches!(resolve_target(&processes(), None, Some("API")), Target::Found(0)));
    assert!(matches!(resolve_target(&processes(), None, Some("wOrK")), Target::Found(2)));
    match resolve_target(&processes(), None, Some("ORDERS")) {
        Target::Ambiguous(places) => assert_eq!(places, vec![0, 2]),
        _ => panic!("two processes match"),
    }
    assert!(matches!(resolve_target(&processes(), None, Some("billing")), Target::AskAssemblies));
}

#[test]
fn assemblies_are_asked_for_once_names_fail() {
    let assemblies = vec![None, Some("Billing.Front".to_string()), Some(String::new())];
    assert!(matches!(resolve_by_assembly(&assemblies, "billing"), Target::Found(1)));
    match resolve_by_assembly(&assemblies, "A \"B\"") {
        Target::Missing(words) => assert_eq!(
            words,
            "no attachable .NET process whose name or entry assembly contains \"a \\\"b\\\"\". \
             Run `countercow ps` to see what is available."
        ),
        _ => panic!("nothing matches"),
    }
}

#[test]
fn ambiguity_leads_with_what_distinguishes() {
    let candidates = vec![
        Candidate { name: "dotnet".into(), assembly: Some("Shop".into()), pid: 1 },
        Candidate { name: "dotnet".into(), assembly: Some(String::new()), pid: 2 },
        Candidate { name: "dotnet".into(), assembly: Some("dotnet".into()), pid: 3 },
        Candidate { name: "dotnet".into(), assembly: None, pid: 4 },
    ];
    assert_eq!(
        ambiguity("DotNet", &candidates),
        "\"dotnet\" matches 4 processes: Shop (pid 1), dotnet (pid 2), dotnet (pid 3), \
         dotnet (pid 4). Use --pid to pick one."
    );
}

#[test]
fn long_names_are_cut_with_a_mark() {
    assert_eq!(truncate("short", 24), "short");
    assert_eq!(truncate("exactly-ten", 11), "exactly-ten");
    assert_eq!(truncate("exactly-ten", 10), "exactly-t…");
    assert_eq!(truncate("abc", 1), "…");
    assert_eq!(truncate("abc", 0), "…");
    assert_eq!(truncate("äöü", 3), "äöü");
}

#[test]
fn listings_line_up() {
    assert_eq!(listing_heading(), format!("{:>7}  {:<24}  COMMAND", "PID", "NAME"));
    let row = listing_row(&process(77686, "Orders.Api"));
    assert_eq!(row, format!("{:>7}  {:<24}  {}", 77686, "Orders.Api", "cmd --flag"));
    let long = listing_row(&process(1, "A.Name.That.Is.Longer.Than.Its.Column"));
    assert_eq!(long, format!("{:>7}  {:<24}  {}", 1, "A.Name.That.Is.Longer.T…", "cmd --flag"));
}

#[test]
fn samples_line_up() {
    let expected =
        format!("  {:<38} {:>16.4}{}", "System.Runtime/cpu-usage", 12.5f64, " %");
    assert_eq!(sample_row("System.Runtime", "cpu-usage", "12.5000", " %"), expected);
}

// Texts

#[test]
fn texts_are_found_in_others() {
    assert!(contains_text("xterm-direct", "direct"));
    assert!(contains_text("abc", ""));
    assert!(contains_text("", ""));
    assert!(contains_text("aab", "ab"));
    assert!(!contains_text("ab", "abc"));
    assert!(!contains_text("acb", "ab"));
}

#[test]
fn case_is_ignored_for_latin_letters_only() {
    assert!(same_ignoring_case("TrueColor", "truecolor"));
    assert!(!same_ignoring_case("Ä", "ä"));
    assert!(!same_ignoring_case("[", "{"));
    assert!(!same_ignoring_case("a", "ab"));
}

#[test]
fn white_space_is_trimmed_as_the_standard_does() {
    for text in ["", "  ", " a b ", "\t\u{3000}x\u{a0}\n", "plain"] {
        assert_eq!(trim(text), text.trim());
    }
}

#[test]
fn texts_compare_as_the_standard_does() {
    for a in ["", "a", "ab", "b", "ä", "\u{1F600}", "\u{FFFD}"] {
        for b in ["", "a", "ab", "b", "ä", "\u{1F600}", "\u{FFFD}"] {
            assert_eq!(text_at_most(a, b), a <= b, "{a:?} {b:?}");
            assert_eq!(same_text(a, b), a == b);
        }
    }
}

#[test]
fn numbers_are_written_out() {
    for n in [0i64, 7, -7, 1_000, i64::MAX, i64::MIN] {
        assert_eq!(to_decimal(n), n.to_string());
    }
}
