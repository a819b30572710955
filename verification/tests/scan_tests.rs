use radar_ip::admission::AdmissionSemaphore;
use radar_ip::errors::RadarError;
use radar_ip::scanner::Scanner;
use radar_ip::scanner::MAX_CONCURRENT;
use radar_ip::session::ProbeReport;
use radar_ip::session::ScanAction;
use radar_ip::session::ScanPhase;
use radar_ip::session::ScanSession;
use radar_ip::ssh_client::AuthenticationMethod;
use radar_ip::ssh_client::DeviceIdentity;
use radar_ip::ssh_client::SshConfig;

const TARGET: &str = "Aa:bB:Cc:dD:Ee:fF";

fn config() -> SshConfig {
    SshConfig {
        user: String::from("root"),
        port: 22,
        auth: AuthenticationMethod::Password(String::from("secret")),
        timeout: 5,
    }
}

fn scanner() -> Scanner {
    Scanner::new(config(), String::from(TARGET))
}

fn listing_with(mac: &str) -> String {
    format!("2: eth0: <UP>\n    link/ether {} brd ff:ff:ff:ff:ff:ff\n", mac)
}

fn ten_hosts() -> Vec<u32> {
    (0..10u32).map(|i| 0x0a00_0001 + i).collect()
}

/// Launches as long as the session launches, and returns the places launched
/// and the action at which it stopped.
fn launch_all(session: &mut ScanSession) -> (Vec<usize>, ScanAction) {
    let mut launched = Vec::new();
    loop {
        match session.next_action() {
            ScanAction::Launch { index, .. } => launched.push(index),
            other => return (launched, other),
        }
    }
}

fn finished(action: ScanAction) -> Result<String, RadarError> {
    match action {
        ScanAction::Finish(outcome) => outcome,
        other => panic!("the scan is not over: {:?}", other),
    }
}

fn not_found_text(outcome: Result<String, RadarError>) -> String {
    match outcome {
        Err(RadarError::MacNotFound(text)) => text,
        other => panic!("{:?}", other),
    }
}

#[test]
fn a_new_scanner_has_the_default_bound() {
    let scanner = scanner();
    assert_eq!(MAX_CONCURRENT, 50);
    assert_eq!(scanner.max_concurrent(), 50);
    assert_eq!(scanner.target_mac(), TARGET);
    assert_eq!(scanner.config().user, "root");
    assert_eq!(scanner.config().port, 22);
    let narrow = scanner.with_max_concurrent(2);
    assert_eq!(narrow.max_concurrent(), 2);
    assert_eq!(narrow.target_mac(), TARGET);
}

#[test]
fn a_malformed_range_fails_before_any_probe() {
    let mut probes = 0;
    for cidr in ["", "garbage", "10.0.0.0/99", "10.0.0.0"] {
        match scanner().scan(cidr) {
            Err(RadarError::InvalidIpRange(text)) => assert_eq!(text, cidr),
            Err(other) => panic!("{:?}", other),
            Ok(mut session) => {
                let (launched, _) = launch_all(&mut session);
                probes += launched.len();
                panic!("{:?} was scanned", cidr);
            },
        }
    }
    assert_eq!(probes, 0);
}

#[test]
fn a_scan_starts_with_nothing_launched() {
    let session = scanner().scan("192.168.1.0/24").unwrap();
    assert_eq!(session.phase(), ScanPhase::Initialized);
    assert_eq!(session.host_count(), 254);
    assert_eq!(session.launched(), 0);
    assert_eq!(session.in_flight(), 0);
    assert_eq!(session.capacity(), 50);
}

#[test]
fn hosts_are_launched_in_ascending_order_up_to_the_bound() {
    let mut session = scanner().scan("192.168.1.0/24").unwrap();
    let mut expected_last = 0;
    for place in 0..50 {
        match session.next_action() {
            ScanAction::Launch { index, ip } => {
                assert_eq!(index, place);
                assert_eq!(ip, format!("192.168.1.{}", place + 1));
                expected_last = index;
            },
            other => panic!("{:?}", other),
        }
        assert_eq!(session.phase(), ScanPhase::Running);
    }
    assert_eq!(expected_last, 49);
    assert!(matches!(session.next_action(), ScanAction::Wait));
    assert_eq!(session.in_flight(), 50);
    assert_eq!(session.launched(), 50);
    assert!(session.record(10, ProbeReport::NoMatch));
    assert_eq!(session.in_flight(), 49);
    match session.next_action() {
        ScanAction::Launch { index, ip } => {
            assert_eq!(index, 50);
            assert_eq!(ip, "192.168.1.51");
        },
        other => panic!("{:?}", other),
    }
    assert!(matches!(session.next_action(), ScanAction::Wait));
}

#[test]
fn the_single_matching_host_is_found_whatever_the_others_do() {
    let scanner = scanner();
    let mut session = scanner.scan("10.0.0.0/28").unwrap();
    let (launched, stopped) = launch_all(&mut session);
    assert_eq!(launched.len(), 14);
    assert!(matches!(stopped, ScanAction::Wait));
    let matching = 9;
    for place in launched.iter().rev() {
        let ip = format!("10.0.0.{}", place + 1);
        let outcome = if *place == matching {
            Ok(listing_with("aA:Bb:cC:Dd:eE:Ff"))
        } else {
            match place % 5 {
                0 => Err(RadarError::SshConnection(ip.clone(), String::from("timed out"))),
                1 => Err(RadarError::Password(String::from("denied"))),
                2 => Err(RadarError::CommandExecution(ip.clone(), String::from("closed"))),
                3 => Ok(listing_with("00:11:22:33:44:55")),
                _ => Ok(String::from("no interfaces")),
            }
        };
        let report = scanner.judge(&ip, outcome);
        assert!(session.record(*place, report));
    }
    assert_eq!(finished(session.next_action()).unwrap(), "10.0.0.10");
    assert_eq!(session.phase(), ScanPhase::Succeeded);
}

#[test]
fn of_two_matching_hosts_the_first_in_launch_order_is_returned() {
    let mut session = ScanSession::new(String::from(TARGET), ten_hosts(), 50);
    let (launched, _) = launch_all(&mut session);
    assert_eq!(launched, (0..10).collect::<Vec<usize>>());
    assert!(session.record(7, ProbeReport::Match));
    assert!(matches!(session.next_action(), ScanAction::Wait));
    assert!(session.record(4, ProbeReport::Match));
    assert!(matches!(session.next_action(), ScanAction::Wait));
    for place in [9, 8, 6, 5, 3, 2, 1] {
        assert!(session.record(place, ProbeReport::NoMatch));
        assert!(matches!(session.next_action(), ScanAction::Wait));
    }
    assert!(session.record(0, ProbeReport::Failed(String::from("10.0.0.1: down"))));
    assert_eq!(finished(session.next_action()).unwrap(), "10.0.0.5");
}

#[test]
fn a_match_is_returned_without_waiting_for_later_hosts() {
    let mut session = ScanSession::new(String::from(TARGET), ten_hosts(), 50);
    launch_all(&mut session);
    assert!(session.record(1, ProbeReport::Match));
    assert!(matches!(session.next_action(), ScanAction::Wait));
    assert!(session.record(0, ProbeReport::NoMatch));
    assert_eq!(finished(session.next_action()).unwrap(), "10.0.0.2");
    assert_eq!(session.in_flight(), 8);
    assert!(session.record(5, ProbeReport::Match));
    assert_eq!(session.in_flight(), 7);
    assert_eq!(finished(session.next_action()).unwrap(), "10.0.0.2");
    assert_eq!(session.phase(), ScanPhase::Succeeded);
}

#[test]
fn a_match_behind_an_unfinished_host_has_to_wait() {
    let mut session = ScanSession::new(String::from(TARGET), ten_hosts(), 3);
    let (launched, stopped) = launch_all(&mut session);
    assert_eq!(launched, vec![0, 1, 2]);
    assert!(matches!(stopped, ScanAction::Wait));
    assert!(session.record(2, ProbeReport::Match));
    match session.next_action() {
        ScanAction::Launch { index, .. } => assert_eq!(index, 3),
        other => panic!("{:?}", other),
    }
    assert!(matches!(session.next_action(), ScanAction::Wait));
    assert!(session.record(0, ProbeReport::NoMatch));
    assert!(matches!(session.next_action(), ScanAction::Launch { index: 4, .. }));
    assert!(session.record(1, ProbeReport::NoMatch));
    assert_eq!(finished(session.next_action()).unwrap(), "10.0.0.3");
    assert_eq!(session.launched(), 5);
}

#[test]
fn not_found_carries_the_first_failure_in_launch_order() {
    let mut session = ScanSession::new(String::from(TARGET), ten_hosts(), 50);
    launch_all(&mut session);
    assert!(session.record(7, ProbeReport::Failed(String::from("10.0.0.8: later failure"))));
    assert!(session.record(3, ProbeReport::Failed(String::from("10.0.0.4: first failure"))));
    for place in [9, 8, 6, 5, 4, 2, 1, 0] {
        assert!(matches!(session.next_action(), ScanAction::Wait));
        assert!(session.record(place, ProbeReport::NoMatch));
    }
    let text = not_found_text(finished(session.next_action()));
    assert_eq!(text, format!("{}\n\nFirst error: 10.0.0.4: first failure", TARGET));
    assert_eq!(session.phase(), ScanPhase::Failed);
    assert_eq!(
        RadarError::MacNotFound(text).message(),
        format!(
            "MAC address '{}\n\nFirst error: 10.0.0.4: first failure' not found on any host in the scanned range",
            TARGET
        )
    );
}

#[test]
fn not_found_without_failures_names_the_target_alone() {
    let mut session = ScanSession::new(String::from(TARGET), ten_hosts(), 4);
    loop {
        match session.next_action() {
            ScanAction::Launch { index, .. } => assert!(session.record(index, ProbeReport::NoMatch)),
            ScanAction::Wait => panic!("nothing is in flight"),
            ScanAction::Finish(outcome) => {
                assert_eq!(not_found_text(outcome), TARGET);
                break;
            },
        }
    }
    assert_eq!(session.launched(), 10);
    assert_eq!(session.in_flight(), 0);
}

#[test]
fn a_range_without_hosts_is_simply_not_found() {
    let mut session = scanner().scan("10.0.0.0/31").unwrap();
    assert_eq!(session.host_count(), 0);
    assert_eq!(not_found_text(finished(session.next_action())), TARGET);
    assert_eq!(session.phase(), ScanPhase::Failed);
    assert_eq!(session.launched(), 0);
}

#[test]
fn never_more_probes_are_in_flight_than_the_bound() {
    let delay = 3;
    let mut session = ScanSession::new(String::from(TARGET), ten_hosts(), 2);
    let mut running: Vec<(usize, u32)> = Vec::new();
    let mut peak = 0;
    let mut ticks = 0;
    let mut launched_total = 0;
    let outcome = loop {
        match session.next_action() {
            ScanAction::Launch { index, .. } => {
                running.push((index, delay));
                launched_total += 1;
                assert!(running.len() <= 2);
                peak = peak.max(running.len());
                assert_eq!(session.in_flight(), running.len());
            },
            ScanAction::Wait => {
                assert!(!running.is_empty());
                ticks += 1;
                for probe in running.iter_mut() {
                    probe.1 -= 1;
                }
                let (done, still): (Vec<_>, Vec<_>) = running.iter().partition(|probe| probe.1 == 0);
                running = still;
                for (index, _) in done {
                    assert!(session.record(index, ProbeReport::NoMatch));
                }
                assert_eq!(session.in_flight(), running.len());
            },
            ScanAction::Finish(outcome) => break outcome,
        }
    };
    assert_eq!(peak, 2);
    assert_eq!(launched_total, 10);
    assert_eq!(ticks, 15);
    assert_eq!(not_found_text(outcome), TARGET);
}

#[test]
fn reports_that_are_not_due_are_refused() {
    let mut session = ScanSession::new(String::from(TARGET), ten_hosts(), 2);
    assert!(!session.record(0, ProbeReport::Match));
    let (launched, _) = launch_all(&mut session);
    assert_eq!(launched, vec![0, 1]);
    assert!(!session.record(2, ProbeReport::Match));
    assert!(!session.record(10, ProbeReport::Match));
    assert!(!session.record(usize::MAX, ProbeReport::Match));
    assert!(session.record(1, ProbeReport::NoMatch));
    assert!(!session.record(1, ProbeReport::Match));
    assert_eq!(session.in_flight(), 1);
    assert!(matches!(session.next_action(), ScanAction::Launch { index: 2, .. }));
}

#[test]
fn a_finished_scan_stays_finished() {
    let mut session = ScanSession::new(String::from(TARGET), vec![0x0a00_0001], 1);
    assert!(matches!(session.next_action(), ScanAction::Launch { index: 0, .. }));
    assert!(session.record(0, ProbeReport::Failed(String::from("10.0.0.1: down"))));
    let first = not_found_text(finished(session.next_action()));
    let second = not_found_text(finished(session.next_action()));
    assert_eq!(first, second);
    assert_eq!(first, format!("{}\n\nFirst error: 10.0.0.1: down", TARGET));
    assert_eq!(session.phase(), ScanPhase::Failed);
}

#[test]
fn a_bound_of_zero_is_taken_as_one_permit() {
    let mut session = ScanSession::new(String::from(TARGET), ten_hosts(), 0);
    assert_eq!(session.capacity(), 1);
    let mut launched = 0;
    let outcome = loop {
        match session.next_action() {
            ScanAction::Launch { index, .. } => {
                assert_eq!(index, launched);
                launched += 1;
                assert_eq!(session.in_flight(), 1);
                assert!(matches!(session.next_action(), ScanAction::Wait));
                assert!(session.record(index, ProbeReport::NoMatch));
            },
            ScanAction::Wait => panic!("the scan stalled"),
            ScanAction::Finish(outcome) => break outcome,
        }
    };
    assert_eq!(launched, 10);
    assert_eq!(not_found_text(outcome), TARGET);
    let scanner = scanner().with_max_concurrent(0);
    assert_eq!(scanner.max_concurrent(), 1);
    assert_eq!(scanner.scan("10.0.0.0/30").unwrap().capacity(), 1);
}

#[test]
fn a_copy_of_a_scanner_is_the_same_scanner() {
    let scanner = scanner().with_max_concurrent(7);
    let copy = scanner.clone();
    assert_eq!(copy.max_concurrent(), 7);
    assert_eq!(copy.target_mac(), TARGET);
    assert_eq!(copy.config().user, "root");
    assert_eq!(copy.config().port, 22);
    assert_eq!(copy.config().timeout, 5);
    assert!(matches!(&copy.config().auth, AuthenticationMethod::Password(p) if p == "secret"));
    let key = AuthenticationMethod::PrivateKeyMemory {
        key_data: String::from("k"),
        passphrase: Some(String::from("p")),
    };
    match key.clone() {
        AuthenticationMethod::PrivateKeyMemory { key_data, passphrase } => {
            assert_eq!(key_data, "k");
            assert_eq!(passphrase, Some(String::from("p")));
        },
        other => panic!("{:?}", other),
    }
    let file = AuthenticationMethod::PrivateKey { path: String::from("/k"), passphrase: None };
    match file.clone() {
        AuthenticationMethod::PrivateKey { path, passphrase } => {
            assert_eq!(path, "/k");
            assert_eq!(passphrase, None);
        },
        other => panic!("{:?}", other),
    }
}

#[test]
fn a_listing_that_holds_the_target_beside_other_addresses_is_a_match() {
    let scanner = scanner();
    let listing = "2: eth0:\n    link/ether 00:11:22:33:44:55 brd ff:ff:ff:ff:ff:ff\n3: eth1: HWaddr AA:BB:CC:DD:EE:FF\n";
    assert!(matches!(scanner.judge("10.0.0.1", Ok(String::from(listing))), ProbeReport::Match));
}

#[test]
fn the_target_matches_in_any_case() {
    let listed = DeviceIdentity {
        ip: String::from("10.0.0.1"),
        mac_list: vec![String::from("00:11:22:33:44:55"), String::from("aa:bb:cc:dd:ee:ff")],
    };
    for target in ["aa:bb:cc:dd:ee:ff", "AA:BB:CC:DD:EE:FF", "aA:bB:cC:dD:eE:fF"] {
        let scanner = Scanner::new(config(), String::from(target));
        assert!(matches!(scanner.examine(&listed), ProbeReport::Match));
    }
    let other = Scanner::new(config(), String::from("aa:bb:cc:dd:ee:fe"));
    assert!(matches!(other.examine(&listed), ProbeReport::NoMatch));
    let none = DeviceIdentity { ip: String::from("10.0.0.2"), mac_list: Vec::new() };
    assert!(matches!(scanner().examine(&none), ProbeReport::NoMatch));
}

#[test]
fn a_listing_is_judged_by_the_addresses_it_holds() {
    let scanner = scanner();
    assert!(matches!(
        scanner.judge("10.0.0.1", Ok(listing_with("AA:BB:CC:DD:EE:FF"))),
        ProbeReport::Match
    ));
    assert!(matches!(
        scanner.judge("10.0.0.1", Ok(listing_with("aa:bb:cc:dd:ee:00"))),
        ProbeReport::NoMatch
    ));
    assert!(matches!(scanner.judge("10.0.0.1", Ok(String::new())), ProbeReport::NoMatch));
}

#[test]
fn a_failed_probe_is_kept_as_a_note_on_its_host() {
    let scanner = scanner();
    let error = RadarError::SshConnection(String::from("10.0.0.1"), String::from("refused"));
    match scanner.judge("10.0.0.1", Err(error)) {
        ProbeReport::Failed(note) => {
            assert_eq!(note, "10.0.0.1: SSH connection error to 10.0.0.1: refused")
        },
        other => panic!("{:?}", other),
    }
    match Scanner::failure_report("10.0.0.2", &RadarError::Password(String::from("denied"))) {
        ProbeReport::Failed(note) => {
            assert_eq!(note, "10.0.0.2: Password authentication error: denied")
        },
        other => panic!("{:?}", other),
    }
}

#[test]
fn a_whole_scan_with_judged_probes_ends_with_the_first_failure() {
    let scanner = scanner().with_max_concurrent(2);
    let mut session = scanner.scan("10.0.0.0/29").unwrap();
    assert_eq!(session.capacity(), 2);
    let mut pending: Vec<(usize, String)> = Vec::new();
    let outcome = loop {
        match session.next_action() {
            ScanAction::Launch { index, ip } => pending.push((index, ip)),
            ScanAction::Wait => {
                let (index, ip) = pending.pop().unwrap();
                let outcome = if index >= 2 {
                    Err(RadarError::PrivateKey(format!("key refused by host {}", index)))
                } else {
                    Ok(listing_with("00:00:00:00:00:01"))
                };
                let report = scanner.judge(&ip, outcome);
                assert!(session.record(index, report));
            },
            ScanAction::Finish(outcome) => break outcome,
        }
    };
    assert_eq!(
        not_found_text(outcome),
        format!(
            "{}\n\nFirst error: 10.0.0.3: Private key authentication error: key refused by host 2",
            TARGET
        )
    );
}

#[test]
fn permits_are_handed_out_up_to_the_capacity() {
    let mut permits = AdmissionSemaphore::new(2);
    assert_eq!(permits.capacity(), 2);
    assert_eq!(permits.in_use(), 0);
    assert!(!permits.release());
    assert!(permits.try_acquire());
    assert!(permits.try_acquire());
    assert!(!permits.try_acquire());
    assert_eq!(permits.in_use(), 2);
    assert!(permits.release());
    assert_eq!(permits.in_use(), 1);
    assert!(permits.try_acquire());
    assert!(permits.release());
    assert!(permits.release());
    assert!(!permits.release());
    assert_eq!(permits.in_use(), 0);
    let mut none = AdmissionSemaphore::new(0);
    assert!(!none.try_acquire());
}

#[test]
fn a_lost_probe_counts_as_no_match() {
    assert!(matches!(ProbeReport::lost(), ProbeReport::NoMatch));
    let mut session = ScanSession::new(String::from(TARGET), vec![0x0a00_0001], 1);
    assert!(matches!(session.next_action(), ScanAction::Launch { index: 0, .. }));
    assert!(session.record(0, ProbeReport::lost()));
    assert_eq!(not_found_text(finished(session.next_action())), TARGET);
}
