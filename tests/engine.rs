use fistulosum::{
    plan, run_single, select_device, Arguments, Batch, ComputeError, DeviceError, Generator,
    Matcher, Options, OptionsError, Pattern, Search, SearchOutcome, DEFAULT_BATCH_SIZE,
    DEFAULT_NUM_MATCHES,
};

fn matcher(patterns: &[&str]) -> Matcher {
    let v: Vec<String> = patterns.iter().map(|p| p.to_string()).collect();
    Matcher::new(&v).unwrap()
}

fn decimal_hashes(start: u64, end: u64) -> Vec<String> {
    (start..end).map(|c| c.to_string()).collect()
}

fn hashes_of(batch: Batch) -> Vec<String> {
    (batch.start..batch.start + batch.len).map(|c| c.to_string()).collect()
}

fn candidates(outcome: &SearchOutcome) -> Vec<u64> {
    match outcome {
        SearchOutcome::Found(v) | SearchOutcome::Exhausted(v) => v.iter().map(|m| m.candidate).collect(),
    }
}

fn no_arguments() -> Arguments {
    Arguments {
        help: false,
        list: false,
        quiet: false,
        batch_size: None,
        device: None,
        group_size: None,
        num_matches: None,
        threads: None,
        free: Vec::new(),
    }
}

#[test]
fn batches_are_contiguous_and_short_at_the_end() {
    let mut g = Generator::new(10, 25);
    let a = g.next_batch(6);
    let b = g.next_batch(6);
    let c = g.next_batch(6);
    assert_eq!(a, Batch { start: 10, len: 6 });
    assert_eq!(b, Batch { start: 16, len: 6 });
    assert_eq!(c, Batch { start: 22, len: 3 });
    assert!(g.is_exhausted());
    assert_eq!(g.next_batch(6), Batch { start: 25, len: 0 });
}

#[test]
fn unbounded_generator_starts_at_offset() {
    let mut g = Generator::unbounded(7);
    assert!(!g.is_exhausted());
    assert_eq!(g.next_batch(3), Batch { start: 7, len: 3 });
    assert_eq!(g.cursor, 10);
}

#[test]
fn pattern_matches_and_keeps_source() {
    let p = Pattern::new("^ab+c").unwrap();
    assert_eq!(p.as_str(), "^ab+c");
    assert!(p.is_match("abbbc"));
    assert!(!p.is_match("xabc"));
}

#[test]
fn invalid_pattern_is_named() {
    let e = Pattern::new("a(b").unwrap_err();
    assert_eq!(e.pattern, "a(b");
}

#[test]
fn matcher_reports_first_matching_pattern() {
    let m = matcher(&["z", "b", "a"]);
    assert_eq!(m.len(), 3);
    assert_eq!(m.matches("abc"), Some(1));
    assert_eq!(m.matches("a"), Some(2));
    assert_eq!(m.matches("q"), None);
}

#[test]
fn matcher_fails_on_first_invalid_pattern() {
    let v = vec!["ok".to_string(), "[".to_string(), "(".to_string()];
    let e = Matcher::new(&v).unwrap_err();
    assert_eq!(e.pattern, "[");
}

#[test]
fn empty_matcher_matches_nothing() {
    let m = matcher(&[]);
    assert_eq!(m.matches(""), None);
}

#[test]
fn scenario_single_match_at_42() {
    let out = run_single(matcher(&["^42$"]), Generator::new(0, 1000), 64, 1, &decimal_hashes(0, 1000));
    match out {
        SearchOutcome::Found(v) => {
            assert_eq!(v.len(), 1);
            assert_eq!(v[0].candidate, 42);
            assert_eq!(v[0].hash, "42");
            assert_eq!(v[0].pattern, 0);
        }
        SearchOutcome::Exhausted(_) => panic!("expected a match"),
    }
}

#[test]
fn scenario_no_patterns_exhausts_space() {
    let out = run_single(matcher(&[]), Generator::new(0, 100), 16, 1, &decimal_hashes(0, 100));
    match out {
        SearchOutcome::Exhausted(v) => assert!(v.is_empty()),
        SearchOutcome::Found(_) => panic!("expected exhaustion"),
    }
}

#[test]
fn zero_target_returns_at_once() {
    let out = run_single(matcher(&["."]), Generator::new(0, 100), 10, 0, &decimal_hashes(0, 100));
    match out {
        SearchOutcome::Found(v) => assert!(v.is_empty()),
        SearchOutcome::Exhausted(_) => panic!("a target of zero is met at once"),
    }
    let mut s = Search::new(matcher(&["."]), Generator::new(0, 100), 10, 0);
    assert!(s.is_cancelled());
    assert_eq!(s.next_batch(), None);
    assert!(s.is_finished());
}

#[test]
fn rerun_gives_same_matches_for_any_batch_size() {
    let h = decimal_hashes(0, 500);
    let a = run_single(matcher(&["7$"]), Generator::new(0, 500), 3, 20, &h);
    let b = run_single(matcher(&["7$"]), Generator::new(0, 500), 128, 20, &h);
    let c = run_single(matcher(&["7$"]), Generator::new(0, 500), 3, 20, &h);
    assert_eq!(candidates(&a), candidates(&b));
    assert_eq!(candidates(&a), candidates(&c));
    let expected: Vec<u64> = (0..500u64).filter(|c| c % 10 == 7).take(20).collect();
    assert_eq!(candidates(&a), expected);
}

#[test]
fn fewer_matches_than_target_exhausts() {
    let out = run_single(matcher(&["^9"]), Generator::new(0, 20), 4, 5, &decimal_hashes(0, 20));
    match out {
        SearchOutcome::Exhausted(v) => {
            assert_eq!(v.iter().map(|m| m.candidate).collect::<Vec<_>>(), vec![9]);
        }
        SearchOutcome::Found(_) => panic!("only one candidate starts with 9"),
    }
}

#[test]
fn returned_matches_recheck() {
    let m = matcher(&["^1.$", "5"]);
    let out = run_single(matcher(&["^1.$", "5"]), Generator::new(0, 60), 7, 100, &decimal_hashes(0, 60));
    for found in match &out {
        SearchOutcome::Found(v) | SearchOutcome::Exhausted(v) => v,
    } {
        assert_eq!(m.matches(&found.hash), Some(found.pattern));
        assert_eq!(found.hash, found.candidate.to_string());
    }
}

#[test]
fn scenario_four_workers_three_matches() {
    // Candidates 5, 600 and 1234 are the only matches in a large space.
    let mut s = Search::new(matcher(&["^(5|600|1234)$"]), Generator::new(0, 1_000_000), 100, 3);
    let mut out: Vec<Batch> = Vec::new();
    for _ in 0..4 {
        out.push(s.next_batch().unwrap());
    }
    // Results come back out of order.
    assert!(s.submit(out[2], &hashes_of(out[2])));
    assert!(s.submit(out[0], &hashes_of(out[0])));
    assert!(!s.is_cancelled());
    let mut issued = 4;
    while !s.is_cancelled() {
        let b = s.next_batch().unwrap();
        issued += 1;
        assert!(s.submit(b, &hashes_of(b)));
    }
    assert_eq!(issued, 13);
    // Workers still holding a batch finish it; nothing more is handed out.
    assert_eq!(s.next_batch(), None);
    assert!(s.submit(out[1], &hashes_of(out[1])));
    assert!(s.submit(out[3], &hashes_of(out[3])));
    assert!(s.is_finished());
    match s.finish().unwrap() {
        SearchOutcome::Found(v) => {
            let mut c: Vec<u64> = v.iter().map(|m| m.candidate).collect();
            c.sort();
            assert_eq!(c, vec![5, 600, 1234]);
        }
        SearchOutcome::Exhausted(_) => panic!("three matches exist"),
    }
}

#[test]
fn extra_matches_after_target_are_dropped() {
    let mut s = Search::new(matcher(&["0$"]), Generator::new(0, 100), 50, 2);
    let a = s.next_batch().unwrap();
    let b = s.next_batch().unwrap();
    assert!(s.submit(b, &hashes_of(b)));
    assert!(s.is_cancelled());
    assert!(s.submit(a, &hashes_of(a)));
    match s.finish().unwrap() {
        SearchOutcome::Found(v) => {
            assert_eq!(v.iter().map(|m| m.candidate).collect::<Vec<_>>(), vec![50, 60]);
        }
        SearchOutcome::Exhausted(_) => panic!("target was reached"),
    }
}

#[test]
fn submit_rejects_unknown_batch_and_wrong_count() {
    let mut s = Search::new(matcher(&["1"]), Generator::new(0, 10), 5, 1);
    let b = s.next_batch().unwrap();
    assert!(!s.submit(Batch { start: 5, len: 5 }, &hashes_of(Batch { start: 5, len: 5 })));
    assert!(!s.submit(b, &vec!["1".to_string()]));
    assert!(s.submit(b, &hashes_of(b)));
    assert!(!s.submit(b, &hashes_of(b)));
}

#[test]
fn compute_failure_aborts_run() {
    let mut s = Search::new(matcher(&["3"]), Generator::new(0, 100), 10, 5);
    let a = s.next_batch().unwrap();
    let b = s.next_batch().unwrap();
    assert!(s.submit(a, &hashes_of(a)));
    s.abort(ComputeError { batch: b, device: Some(0), message: "launch failed".to_string() });
    s.abort(ComputeError { batch: b, device: Some(1), message: "second".to_string() });
    assert!(s.is_cancelled());
    assert_eq!(s.next_batch(), None);
    assert!(!s.is_finished());
    assert!(s.submit(b, &hashes_of(b)));
    assert!(s.is_finished());
    let e = s.finish().unwrap_err();
    assert_eq!(e.batch, b);
    assert_eq!(e.device, Some(0));
    assert_eq!(e.message, "launch failed");
}

#[test]
fn scenario_device_out_of_range() {
    assert_eq!(select_device(Some(99), 2), Err(DeviceError::InvalidIndex { index: 99, available: 2 }));
    assert_eq!(select_device(Some(1), 2), Ok(Some(1)));
    assert_eq!(select_device(None, 0), Ok(None));
}

#[test]
fn scenario_invalid_pattern_before_any_batch() {
    let mut args = no_arguments();
    args.free = vec!["good".to_string(), "(bad".to_string()];
    match Options::from_arguments(&args, "usage".to_string()) {
        Err(OptionsError::RegexError(e)) => assert_eq!(e.pattern, "(bad"),
        other => panic!("unexpected {:?}", other),
    }
}

#[test]
fn parse_flag_reads_counts() {
    assert_eq!(Options::parse_flag(&None, "B", "batch_size", true).unwrap(), None);
    assert_eq!(Options::parse_flag(&Some("42".to_string()), "B", "batch_size", true).unwrap(), Some(42));
    assert_eq!(Options::parse_flag(&Some("+7".to_string()), "B", "batch_size", true).unwrap(), Some(7));
    match Options::parse_flag(&Some("4x".to_string()), "n", "num_matches", false) {
        Err(OptionsError::ParseOptionError { short, long, error, value }) => {
            assert_eq!(short, "n");
            assert_eq!(long, "num_matches");
            assert_eq!(value, "4x");
            assert_eq!(error, "invalid digit found in string");
        }
        other => panic!("unexpected {:?}", other),
    }
    assert!(Options::parse_flag(&Some("-1".to_string()), "T", "threads", true).is_err());
    assert!(Options::parse_flag(&Some("".to_string()), "T", "threads", true).is_err());
}

#[test]
fn help_and_list_come_first() {
    let mut args = no_arguments();
    args.help = true;
    args.list = true;
    args.free = vec!["(".to_string()];
    match Options::from_arguments(&args, "Usage: x".to_string()) {
        Err(OptionsError::ShowUsage(u)) => assert_eq!(u, "Usage: x"),
        other => panic!("unexpected {:?}", other),
    }
    args.help = false;
    assert!(matches!(Options::from_arguments(&args, String::new()), Err(OptionsError::ListDevices)));
}

#[test]
fn options_resolve_and_plan() {
    let mut args = no_arguments();
    args.quiet = true;
    args.free = vec!["^00".to_string()];
    args.batch_size = Some("1024".to_string());
    args.device = Some("1".to_string());
    args.num_matches = Some("3".to_string());
    args.threads = Some("4".to_string());
    let o = Options::from_arguments(&args, String::new()).unwrap();
    assert!(o.quiet);
    assert_eq!(o.regexes.len(), 1);
    assert_eq!((o.batch_size, o.device, o.group_size, o.num_matches, o.threads), (Some(1024), Some(1), None, Some(3), Some(4)));
    let p = plan(&o, 2, 8).unwrap();
    assert_eq!((p.batch_size, p.target, p.device, p.workers), (1024, 3, Some(1), 5));
    assert_eq!(plan(&o, 1, 8), Err(DeviceError::InvalidIndex { index: 1, available: 1 }));
}

#[test]
fn plan_defaults() {
    let o = Options::from_arguments(&no_arguments(), String::new()).unwrap();
    let p = plan(&o, 0, 6).unwrap();
    assert_eq!((p.batch_size, p.target, p.device, p.workers), (DEFAULT_BATCH_SIZE, DEFAULT_NUM_MATCHES, None, 6));
}

#[test]
fn zero_refused_where_count_must_be_positive() {
    for (short, long) in [("B", "batch_size"), ("G", "group_size"), ("T", "threads")] {
        let mut args = no_arguments();
        match short {
            "B" => args.batch_size = Some("0".to_string()),
            "G" => args.group_size = Some("+0".to_string()),
            _ => args.threads = Some("00".to_string()),
        }
        match Options::from_arguments(&args, String::new()) {
            Err(OptionsError::ParseOptionError { short: s, long: l, error, .. }) => {
                assert_eq!((s.as_str(), l.as_str()), (short, long));
                assert_eq!(error, "must be at least 1");
            }
            other => panic!("unexpected {:?}", other),
        }
    }
    assert!(Options::parse_flag(&Some("0".to_string()), "D", "device", false).unwrap() == Some(0));
}

#[test]
fn zero_matches_and_device_zero_allowed() {
    let mut args = no_arguments();
    args.num_matches = Some("0".to_string());
    args.device = Some("0".to_string());
    let o = Options::from_arguments(&args, String::new()).unwrap();
    assert_eq!((o.num_matches, o.device), (Some(0), Some(0)));
    let p = plan(&o, 1, 3).unwrap();
    assert_eq!((p.target, p.workers), (0, 4));
}

#[test]
fn bad_count_is_reported_in_option_order() {
    let mut args = no_arguments();
    args.threads = Some("x".to_string());
    args.group_size = Some("y".to_string());
    match Options::from_arguments(&args, String::new()) {
        Err(OptionsError::ParseOptionError { short, long, error, value }) => {
            assert_eq!(short, "G");
            assert_eq!(long, "group_size");
            assert_eq!(value, "y");
            assert_eq!(error, "invalid digit found in string");
        }
        other => panic!("unexpected {:?}", other),
    }
    args.batch_size = Some("y".to_string());
    match Options::from_arguments(&args, String::new()) {
        Err(OptionsError::ParseOptionError { short, long, value, .. }) => {
            assert_eq!((short.as_str(), long.as_str(), value.as_str()), ("B", "batch_size", "y"));
        }
        other => panic!("unexpected {:?}", other),
    }
}

#[test]
fn hash_text_is_mixed_hex() {
    assert_eq!(fistulosum::mix(0), 0xe220a8397b1dcdaf);
    assert_eq!(fistulosum::hash_text(0), "e220a8397b1dcdaf");
    assert_eq!(fistulosum::hex(0xab), "00000000000000ab");
    let b = Batch { start: 0x9E3779B97F4A7C15, len: 1 };
    assert_eq!(fistulosum::hash_batch(b), vec!["6e789e6aa1b965f4".to_string()]);
}

#[test]
fn search_over_mixed_hashes() {
    let h: Vec<String> = (0..4096u64).map(fistulosum::hash_text).collect();
    let out = run_single(matcher(&["^000"]), Generator::new(0, 4096), 256, 1, &h);
    let expected: Vec<u64> = (0..4096u64).filter(|c| fistulosum::hash_text(*c).starts_with("000")).take(1).collect();
    assert_eq!(candidates(&out), expected);
}

#[test]
fn cpu_search_agrees_with_given_hashes_and_reruns() {
    let h: Vec<String> = (100..2100u64).map(fistulosum::hash_text).collect();
    let given = run_single(matcher(&["^0", "f$"]), Generator::new(100, 2100), 64, 7, &h);
    let a = fistulosum::search_cpu(matcher(&["^0", "f$"]), Generator::new(100, 2100), 64, 7);
    let b = fistulosum::search_cpu(matcher(&["^0", "f$"]), Generator::new(100, 2100), 5, 7);
    assert_eq!(candidates(&a), candidates(&given));
    assert_eq!(candidates(&a), candidates(&b));
    assert_eq!(candidates(&a).len(), 7);
    assert!(matches!(a, SearchOutcome::Found(_)));
}

#[test]
fn cpu_search_exhausts_small_space() {
    let out = fistulosum::search_cpu(matcher(&["^zz"]), Generator::new(0, 300), 32, 1);
    match out {
        SearchOutcome::Exhausted(v) => assert!(v.is_empty()),
        SearchOutcome::Found(_) => panic!("hex text never starts with z"),
    }
}
