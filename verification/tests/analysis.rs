use ls_watch::catalog::is_no_value_option;
use ls_watch::catalog::is_value_option;
use ls_watch::classifier::analyze_short_args;
use ls_watch::combiner::combine_short_args;
use ls_watch::diagnostics::Diagnostic;
use ls_watch::observed::ObservedOptions;

fn strings(xs: &[&str]) -> Vec<String> {
    let mut v = Vec::new();
    for x in xs {
        v.push(String::from(*x));
    }
    v
}

fn entries(xs: &[(char, &str)]) -> Vec<(char, String)> {
    let mut v = Vec::new();
    for (c, s) in xs {
        v.push((*c, String::from(*s)));
    }
    v
}

#[test]
fn non_cluster_tokens_produce_nothing() {
    let args = strings(&["file.txt", "--all", "-", "", "x-y"]);
    let r = analyze_short_args(&args);
    assert_eq!(r.observed.entries, entries(&[]));
    assert_eq!(r.diagnostics, vec![]);
    assert_eq!(r.cluster_count, 0);
    assert_eq!(r.suggestion, None);
}

#[test]
fn cluster_records_boolean_options() {
    let args = strings(&["-la"]);
    let r = analyze_short_args(&args);
    assert_eq!(r.observed.entries, entries(&[('l', ""), ('a', "")]));
    assert_eq!(r.cluster_count, 1);
    assert_eq!(r.diagnostics, vec![]);
    assert_eq!(r.suggestion, None);
}

#[test]
fn separate_tokens_yield_suggestion() {
    let args = strings(&["-l", "-a"]);
    let r = analyze_short_args(&args);
    assert_eq!(r.observed.entries, entries(&[('l', ""), ('a', "")]));
    assert_eq!(r.cluster_count, 2);
    assert_eq!(r.diagnostics, vec![]);
    assert_eq!(r.suggestion, Some(String::from("-la")));
}

#[test]
fn value_from_next_token() {
    let args = strings(&["-I", "pattern"]);
    let r = analyze_short_args(&args);
    assert_eq!(r.observed.entries, entries(&[('I', "pattern")]));
    assert_eq!(r.cluster_count, 1);
    assert_eq!(r.diagnostics, vec![]);
}

#[test]
fn value_inline() {
    let args = strings(&["-Ipattern"]);
    let r = analyze_short_args(&args);
    assert_eq!(r.observed.entries, entries(&[('I', "pattern")]));
    assert_eq!(r.cluster_count, 1);
    assert_eq!(r.diagnostics, vec![]);
}

#[test]
fn unknown_option_reported() {
    let args = strings(&["-z"]);
    let r = analyze_short_args(&args);
    assert_eq!(r.observed.entries, entries(&[]));
    assert_eq!(r.diagnostics, vec![Diagnostic::UnknownArgument('z')]);
    assert_eq!(r.cluster_count, 0);
    assert_eq!(r.suggestion, None);
}

#[test]
fn duplicate_option_reported() {
    let args = strings(&["-l", "-l"]);
    let r = analyze_short_args(&args);
    assert_eq!(r.observed.entries, entries(&[('l', "")]));
    assert_eq!(r.diagnostics, vec![Diagnostic::DuplicateArgument('l')]);
    assert_eq!(r.cluster_count, 1);
    assert_eq!(r.suggestion, None);
}

#[test]
fn lone_value_option_minimal_count_is_zero() {
    let mut obs = ObservedOptions::new();
    obs.insert('I', String::from("pat"));
    let (combined, minimal) = combine_short_args(&obs);
    assert_eq!(combined, String::from("-Ipat"));
    assert_eq!(minimal, 0);
}

#[test]
fn missing_value_reported() {
    let args = strings(&["-I"]);
    let r = analyze_short_args(&args);
    assert_eq!(r.observed.entries, entries(&[]));
    assert_eq!(
        r.diagnostics,
        vec![Diagnostic::MissingValueForArgument('I')]
    );
    assert_eq!(r.cluster_count, 0);
    assert_eq!(r.suggestion, None);
}

#[test]
fn value_option_ends_cluster_scan() {
    let args = strings(&["-Ixl"]);
    let r = analyze_short_args(&args);
    assert_eq!(r.observed.entries, entries(&[('I', "xl")]));
    assert_eq!(r.diagnostics, vec![]);
    assert_eq!(r.cluster_count, 1);
}

#[test]
fn several_value_blocks_combined() {
    let args = strings(&["-l", "-Ia", "-w", "80", "-T4"]);
    let r = analyze_short_args(&args);
    assert_eq!(
        r.observed.entries,
        entries(&[('l', ""), ('I', "a"), ('w', "80"), ('T', "4")])
    );
    assert_eq!(r.cluster_count, 4);
    assert_eq!(r.diagnostics, vec![]);
    assert_eq!(r.suggestion, Some(String::from("-lIa -w80 -T4")));
}

#[test]
fn duplicate_value_option_stops_token() {
    let args = strings(&["-Ia", "-Ibl"]);
    let r = analyze_short_args(&args);
    assert_eq!(r.observed.entries, entries(&[('I', "a")]));
    assert_eq!(r.diagnostics, vec![Diagnostic::DuplicateArgument('I')]);
    assert_eq!(r.cluster_count, 1);
    assert_eq!(r.suggestion, Some(String::from("-Ia")));
}

#[test]
fn empty_next_token_value_counts_as_boolean() {
    let args = strings(&["-l", "-I", ""]);
    let r = analyze_short_args(&args);
    assert_eq!(r.observed.entries, entries(&[('l', ""), ('I', "")]));
    assert_eq!(r.cluster_count, 2);
    assert_eq!(r.diagnostics, vec![]);
    assert_eq!(r.suggestion, Some(String::from("-lI")));
}

#[test]
fn no_boolean_options_two_value_blocks() {
    let args = strings(&["-Ia", "-pb"]);
    let r = analyze_short_args(&args);
    assert_eq!(r.observed.entries, entries(&[('I', "a"), ('p', "b")]));
    assert_eq!(r.cluster_count, 2);
    assert_eq!(r.suggestion, Some(String::from("-Ia -pb")));
}

#[test]
fn combine_empty_observed() {
    let obs = ObservedOptions::new();
    let (combined, minimal) = combine_short_args(&obs);
    assert_eq!(combined, String::from("-"));
    assert_eq!(minimal, 0);
}

#[test]
fn empty_args_yield_nothing() {
    let args = strings(&[]);
    let r = analyze_short_args(&args);
    assert_eq!(r.observed.entries, entries(&[]));
    assert_eq!(r.cluster_count, 0);
    assert_eq!(r.diagnostics, vec![]);
    assert_eq!(r.suggestion, None);
}

#[test]
fn non_ascii_option_is_unknown() {
    let args = strings(&["-\u{e9}"]);
    let r = analyze_short_args(&args);
    assert_eq!(r.observed.entries, entries(&[]));
    assert_eq!(r.diagnostics, vec![Diagnostic::UnknownArgument('\u{e9}')]);
    assert_eq!(r.cluster_count, 0);
}

#[test]
fn catalog_membership() {
    assert!(is_no_value_option('l'));
    assert!(is_no_value_option('1'));
    assert!(is_no_value_option('Z'));
    assert!(!is_no_value_option('I'));
    assert!(!is_no_value_option('z'));
    assert!(is_value_option('I'));
    assert!(is_value_option('p'));
    assert!(is_value_option('w'));
    assert!(is_value_option('T'));
    assert!(!is_value_option('l'));
}
