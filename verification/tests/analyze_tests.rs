use netpulse::analyze::{
    analyze, analyze_check_type_set, display_group, fail_groups, flag_warnings, outages,
    success_ratio, AnalysisError, Outage,
};
use netpulse::records::{
    Check, FLAG_IPV4, FLAG_IPV6, FLAG_SUCCESS, FLAG_TYPE_HTTP, FLAG_TYPE_ICMP4,
};
use netpulse::store::Store;

fn barrier_line(title: &str) -> String {
    format!("{:=<10}{:=<90}\n", "", format!(" {} ", title))
}

fn kv(key: &str, value: &str) -> String {
    format!("{:<20}: {:<78}\n", key, value)
}

fn http_check(ts: u64, ok: bool) -> Check {
    let mut flags = FLAG_TYPE_HTTP | FLAG_IPV4;
    if ok {
        flags |= FLAG_SUCCESS;
    }
    Check::new(ts, flags, None, String::from("1.2.3.4"))
}

#[test]
fn empty_store_report_is_exact() {
    let store = Store::new();
    let file_bytes: Vec<u8> = vec![1, 2, 3];
    let out = analyze(&store, Some(&file_bytes)).expect("report must build");
    let mut expected = String::new();
    expected += &barrier_line("General");
    expected += "None\n\n";
    expected += &barrier_line("HTTP");
    expected += "None\n\n";
    expected += &barrier_line("ICMPv4");
    expected += "None\n\n";
    expected += &barrier_line("ICMPv6");
    expected += "None\n\n";
    expected += &barrier_line("IPv4");
    expected += "None\n\n";
    expected += &barrier_line("IPv6");
    expected += "None\n\n";
    expected += &barrier_line("Outages");
    expected += "None\n\n";
    expected += &barrier_line("Store Metadata");
    expected += &kv("Hash Datastructure", &store.display_hash());
    expected += &kv("Hash Store File", &Store::display_hash_of_bytes(&file_bytes));
    assert_eq!(out.report, expected);
    assert_eq!(out.warnings.len(), 0);
}

#[test]
fn analyze_without_file_bytes_aborts() {
    let store = Store::new();
    assert!(analyze(&store, None).is_err());
}

#[test]
fn stat_block_of_two_of_three_successes_is_exact() {
    let mut store = Store::new();
    store.add_check(http_check(0, true));
    store.add_check(http_check(30, false));
    store.add_check(http_check(90, true));
    let out = analyze(&store, Some(&vec![])).unwrap();
    let mut block = String::new();
    block += &kv("checks", "00000003");
    block += &kv("checks ok", "00000002");
    block += &kv("checks bad", "00000001");
    block += &kv("success ratio", "66.67%");
    block += &kv("first check at", "1970-01-01T00:00:00Z");
    block += &kv("last check at", "1970-01-01T00:01:30Z");
    block += "\n";
    // The same numbers stand in the general and in the HTTP section.
    let general_at = barrier_line("General");
    let http_at = barrier_line("HTTP");
    let after_general = out.report.split(&general_at).nth(1).unwrap();
    assert!(after_general.starts_with(&block));
    let after_http = out.report.split(&http_at).nth(1).unwrap();
    assert!(after_http.starts_with(&block));
}

#[test]
fn success_ratio_is_rounded_and_bounded() {
    assert_eq!(success_ratio(3, 2), 6667);
    assert_eq!(success_ratio(1, 1), 10000);
    assert_eq!(success_ratio(2, 1), 5000);
    assert_eq!(success_ratio(7, 0), 0);
    assert_eq!(success_ratio(3, 1), 3333);
    assert!(success_ratio(1000, 999) <= 10000);
}

#[test]
fn empty_sections_print_none() {
    let mut store = Store::new();
    store.add_check(http_check(5, true));
    let out = analyze(&store, Some(&vec![])).unwrap();
    let icmp4 = barrier_line("ICMPv4");
    let after = out.report.split(&icmp4).nth(1).unwrap();
    assert!(after.starts_with("None\n\n"));
}

#[test]
fn outage_grouping_merges_consecutive_failures() {
    // ok ok fail fail ok fail ok: two groups, of two and of one failure.
    let pattern = [true, true, false, false, true, false, true];
    let mut store = Store::new();
    for (i, ok) in pattern.iter().enumerate() {
        store.add_check(http_check(i as u64 + 1, *ok));
    }
    let out = analyze(&store, Some(&vec![])).unwrap();
    let outages_at = barrier_line("Outages");
    let meta_at = barrier_line("Store Metadata");
    let section = out
        .report
        .split(&outages_at)
        .nth(1)
        .unwrap()
        .split(&meta_at)
        .next()
        .unwrap();
    let range = "From 1970-01-01T00:00:01Z To 1970-01-01T00:00:07Z\n";
    let expected = format!(
        "{}Checks: 2\nType: HTTP\n\n{}Checks: 1\nType: HTTP\n\n",
        range, range
    );
    assert_eq!(section, expected);
}

#[test]
fn fail_groups_yields_maximal_runs() {
    let groups = fail_groups(&vec![2, 3, 5]);
    assert_eq!(groups, vec![(2, 3), (5, 5)]);
    let none: Vec<(usize, usize)> = Vec::new();
    assert_eq!(fail_groups(&Vec::new()), none);
    assert_eq!(fail_groups(&vec![0, 1, 2]), vec![(0, 2)]);
    assert_eq!(fail_groups(&vec![4]), vec![(4, 4)]);
}

#[test]
fn all_success_history_reports_no_outages() {
    let mut store = Store::new();
    store.add_check(http_check(1, true));
    store.add_check(http_check(2, true));
    let out = analyze(&store, Some(&vec![])).unwrap();
    let outages_at = barrier_line("Outages");
    let after = out.report.split(&outages_at).nth(1).unwrap();
    assert!(after.starts_with("None\n\n"));
}

#[test]
fn ambiguous_family_is_excluded_and_warned_once() {
    let mut store = Store::new();
    let both = FLAG_TYPE_HTTP | FLAG_IPV4 | FLAG_IPV6 | FLAG_SUCCESS;
    let check = Check::new(50, both, None, String::from("1.2.3.4"));
    let hash = check.get_hash();
    store.add_check(check);
    let out = analyze(&store, Some(&vec![])).unwrap();
    // In neither family section.
    for fam in ["IPv4", "IPv6"] {
        let after = out.report.split(&barrier_line(fam)).nth(1).unwrap();
        assert!(after.starts_with("None\n\n"));
    }
    // Exactly one warning, naming the check and the flag state.
    assert_eq!(out.warnings.len(), 1);
    assert_eq!(
        out.warnings[0],
        format!(
            "check '{:016x}' has bad flags: both IPv4 and IPv6 flags are set",
            hash
        )
    );
}

#[test]
fn absent_family_warns_too() {
    let mut store = Store::new();
    store.add_check(Check::new(1, FLAG_TYPE_HTTP, None, String::from("x")));
    let warnings = flag_warnings(&store);
    assert_eq!(warnings.len(), 1);
    assert!(warnings[0].ends_with("neither IPv4 nor IPv6 flag is set"));
}

#[test]
fn check_display_shows_timestamp_category_target_and_outcome() {
    let c = Check::new(
        0,
        FLAG_TYPE_HTTP | FLAG_IPV4 | FLAG_SUCCESS,
        Some(5),
        String::from("1.2.3.4"),
    );
    assert_eq!(c.display().unwrap(), "1970-01-01T00:00:00Z HTTP 1.2.3.4 ok 5ms");
    let f = Check::new(90, FLAG_TYPE_ICMP4 | FLAG_IPV4, None, String::from("::1"));
    assert_eq!(f.display().unwrap(), "1970-01-01T00:01:30Z ICMPv4 ::1 FAILED");
}

#[test]
fn timestamps_past_year_9999_are_a_formatting_error() {
    // The rendering bound: the first second of year 10000.
    let late = Check::new(
        253_402_300_800,
        FLAG_TYPE_HTTP | FLAG_IPV4 | FLAG_SUCCESS,
        None,
        String::from("1.2.3.4"),
    );
    assert!(late.display().is_none());
    let mut store = Store::new();
    store.add_check(Check::new(
        253_402_300_800,
        FLAG_TYPE_HTTP | FLAG_IPV4 | FLAG_SUCCESS,
        None,
        String::from("1.2.3.4"),
    ));
    let r = analyze(&store, Some(&vec![]));
    assert!(matches!(r, Err(AnalysisError::Format)));
    let mut f = String::new();
    let group: Vec<Check> = vec![Check::new(
        253_402_300_800,
        FLAG_TYPE_HTTP | FLAG_IPV4,
        None,
        String::from("1.2.3.4"),
    )];
    assert!(matches!(
        display_group(&group, &mut f),
        Err(AnalysisError::Format)
    ));
    assert_eq!(f, "");
}

#[test]
fn failure_free_outages_print_none_whatever_the_timestamps() {
    // The outages section renders no timestamp when no check fails, so a
    // history of successes past the rendering bound still prints None.
    let mut store = Store::new();
    store.add_check(Check::new(
        253_402_300_800,
        FLAG_TYPE_HTTP | FLAG_IPV4 | FLAG_SUCCESS,
        None,
        String::from("1.2.3.4"),
    ));
    let mut f = String::new();
    outages(&store, &mut f).unwrap();
    assert_eq!(f, "None\n\n");
}

#[test]
fn unrendered_timestamps_do_not_abort_the_report() {
    // A timestamp past the rendering bound that is strictly inside every
    // filtered view is never shown, so the report still builds.
    let mut store = Store::new();
    store.add_check(http_check(1, true));
    store.add_check(Check::new(
        253_402_300_800,
        FLAG_TYPE_HTTP | FLAG_IPV4 | FLAG_SUCCESS,
        None,
        String::from("1.2.3.4"),
    ));
    store.add_check(http_check(2, true));
    let out = analyze(&store, Some(&vec![])).expect("the report must build");
    assert!(out.report.contains(&kv("checks", "00000003")));
    assert!(out.report.contains(&kv("first check at", "1970-01-01T00:00:01Z")));
    assert!(out.report.contains(&kv("last check at", "1970-01-01T00:00:02Z")));
}

#[test]
fn display_group_numbers_and_indents() {
    let mut f = String::new();
    display_group(&Vec::new(), &mut f).unwrap();
    assert_eq!(f, "\t<Empty>\n");
    let mut f2 = String::new();
    let group = vec![http_check(0, true), http_check(1, false)];
    display_group(&group, &mut f2).unwrap();
    let expected = format!(
        "0:\n\t{}\n1:\n\t{}\n",
        "1970-01-01T00:00:00Z HTTP 1.2.3.4 ok", "1970-01-01T00:00:01Z HTTP 1.2.3.4 FAILED"
    );
    assert_eq!(f2, expected);
}

#[test]
fn outage_display_handles_open_and_closed_ranges() {
    let checks = vec![http_check(0, false), http_check(60, false)];
    let closed = Outage::new(0, Some(1), vec![0, 1]);
    assert_eq!(
        closed.display(&checks).unwrap(),
        "From 1970-01-01T00:00:00Z To 1970-01-01T00:01:00Z\nChecks: 2\nType: HTTP\n"
    );
    let open = Outage::new(0, None, vec![0]);
    assert_eq!(
        open.display(&checks).unwrap(),
        "From 1970-01-01T00:00:00Z STILL ONGOING\nChecks: 1\nType: HTTP\n"
    );
}

#[test]
fn stat_block_none_for_empty_selection() {
    let mut f = String::new();
    analyze_check_type_set(&mut f, None).unwrap();
    assert_eq!(f, "None\n\n");
}

#[test]
fn report_after_round_trip_matches() {
    let mut store = Store::new();
    store.add_check(http_check(10, true));
    store.add_check(http_check(20, false));
    let bytes = store.to_bytes();
    let reloaded = Store::from_bytes(&bytes).unwrap();
    let a = analyze(&store, Some(&bytes)).unwrap();
    let b = analyze(&reloaded, Some(&bytes)).unwrap();
    assert_eq!(a.report, b.report);
}
