use radar_ip::cli::CliArgs;
use radar_ip::errors::RadarError;
use radar_ip::gui::DeviceProfile;
use radar_ip::gui::RadarApp;
use radar_ip::gui::ScanState;
use radar_ip::ssh_client::AuthenticationMethod;

fn args(key_path: Option<&str>, password: Option<&str>) -> CliArgs {
    CliArgs {
        target_mac: String::from("aa:bb:cc:dd:ee:ff"),
        ip_range: String::from("192.168.1.0/24"),
        key_path: key_path.map(String::from),
        password: password.map(String::from),
        user: String::from("root"),
        timeout_sec: 5,
    }
}

#[test]
fn a_key_takes_precedence_and_the_password_is_its_passphrase() {
    let config = args(Some("/root/.ssh/id_rsa"), Some("pw")).ssh_config().unwrap();
    assert_eq!(config.user, "root");
    assert_eq!(config.port, 22);
    assert_eq!(config.timeout, 5);
    match config.auth {
        AuthenticationMethod::PrivateKey { path, passphrase } => {
            assert_eq!(path, "/root/.ssh/id_rsa");
            assert_eq!(passphrase, Some(String::from("pw")));
        },
        other => panic!("{:?}", other),
    }
    match args(Some("/k"), None).auth_method().unwrap() {
        AuthenticationMethod::PrivateKey { path, passphrase } => {
            assert_eq!(path, "/k");
            assert_eq!(passphrase, None);
        },
        other => panic!("{:?}", other),
    }
}

#[test]
fn a_password_alone_authenticates_by_password() {
    match args(None, Some("pw")).ssh_config().unwrap().auth {
        AuthenticationMethod::Password(password) => assert_eq!(password, "pw"),
        other => panic!("{:?}", other),
    }
}

#[test]
fn without_key_and_password_there_is_no_configuration() {
    assert!(args(None, None).auth_method().is_none());
    assert!(args(None, None).ssh_config().is_none());
    assert_eq!(
        radar_ip::cli::MISSING_CREDENTIALS,
        "Error: you must provide either --password or --key for SSH authentication."
    );
}

#[test]
fn profiles_have_their_defaults() {
    assert_eq!(DeviceProfile::HC.env_key_name(), "HC_PRIVATE_KEY");
    assert_eq!(DeviceProfile::AI2.env_key_name(), "AI3_PRIVATE_KEY");
    assert_eq!(DeviceProfile::AI3.env_key_name(), "AI3_PRIVATE_KEY");
    assert_eq!(DeviceProfile::HC.default_ip_range(), "10.8.0.0/24");
    assert_eq!(DeviceProfile::AI2.default_ip_range(), "10.8.0.0/24");
    assert_eq!(DeviceProfile::AI3.default_ip_range(), "192.168.255.0/24");
    assert_eq!(DeviceProfile::HC.default_user(), "root");
    assert_eq!(DeviceProfile::AI2.default_user(), "nano");
    assert_eq!(DeviceProfile::AI3.default_user(), "pi");
}

#[test]
fn the_form_opens_on_the_first_profile() {
    let app = RadarApp::new(String::from("pw"));
    assert_eq!(app.mac_input, "");
    assert_eq!(app.ip_range, "10.8.0.0/24");
    assert_eq!(app.profile, DeviceProfile::HC);
    assert_eq!(app.prev_profile, DeviceProfile::HC);
    assert_eq!(app.ssh_user, "root");
    assert_eq!(app.ssh_password, "pw");
    assert!(matches!(app.scan_state, ScanState::Idle));
}

#[test]
fn switching_the_profile_fills_in_range_and_user() {
    let mut app = RadarApp::new(String::new());
    app.ip_range = String::from("172.16.0.0/30");
    app.sync_profile();
    assert_eq!(app.ip_range, "172.16.0.0/30");
    app.profile = DeviceProfile::AI3;
    app.sync_profile();
    assert_eq!(app.ip_range, "192.168.255.0/24");
    assert_eq!(app.ssh_user, "pi");
    assert_eq!(app.prev_profile, DeviceProfile::AI3);
    app.ip_range = String::from("10.0.0.0/24");
    app.sync_profile();
    assert_eq!(app.ip_range, "10.0.0.0/24");
    app.profile = DeviceProfile::AI2;
    app.sync_profile();
    assert_eq!(app.ip_range, "10.8.0.0/24");
    assert_eq!(app.ssh_user, "nano");
}

#[test]
fn a_scan_is_requested_by_a_click_on_a_filled_idle_form() {
    let mut app = RadarApp::new(String::new());
    assert!(!app.scan_requested(true));
    app.mac_input = String::from(" \t\u{a0} ");
    assert!(!app.scan_requested(true));
    app.mac_input = String::from(" aa:bb:cc:dd:ee:ff\n");
    assert!(app.scan_requested(true));
    assert!(!app.scan_requested(false));
    app.scan_state = ScanState::Scanning;
    assert!(!app.scan_requested(true));
    app.scan_state = ScanState::Error(String::from("x"));
    assert!(app.scan_requested(true));
    app.scan_state = ScanState::Found(String::from("10.0.0.1"));
    assert!(app.scan_requested(true));
}

#[test]
fn starting_a_scan_hands_out_a_scanner_with_trimmed_input() {
    let mut app = RadarApp::new(String::from("passphrase"));
    app.profile = DeviceProfile::AI2;
    app.sync_profile();
    app.mac_input = String::from("  AA:BB:CC:DD:EE:FF \n");
    app.ip_range = String::from(" 10.8.0.0/28\t");
    let (scanner, range) = app.start_scan(Some(String::from("KEY\r\nDATA"))).unwrap();
    assert!(matches!(app.scan_state, ScanState::Scanning));
    assert_eq!(range, "10.8.0.0/28");
    assert_eq!(scanner.target_mac(), "AA:BB:CC:DD:EE:FF");
    assert_eq!(scanner.max_concurrent(), 50);
    assert_eq!(scanner.config().user, "nano");
    assert_eq!(scanner.config().port, 22);
    assert_eq!(scanner.config().timeout, 3);
    match &scanner.config().auth {
        AuthenticationMethod::PrivateKeyMemory { key_data, passphrase } => {
            assert_eq!(key_data, "KEY\r\nDATA");
            assert_eq!(passphrase, &Some(String::from("passphrase")));
        },
        other => panic!("{:?}", other),
    }
    assert_eq!(scanner.config().auth.staged_key(), Some(String::from("KEY\nDATA\n")));
    assert_eq!(app.mac_input, "  AA:BB:CC:DD:EE:FF \n");
}

#[test]
fn without_a_key_the_form_shows_which_variable_is_missing() {
    for key in [None, Some(String::new())] {
        let mut app = RadarApp::new(String::new());
        app.mac_input = String::from("aa:bb:cc:dd:ee:ff");
        assert!(app.start_scan(key).is_none());
        match &app.scan_state {
            ScanState::Error(message) => assert_eq!(
                message,
                "Private key not found in environment variable 'HC_PRIVATE_KEY'.\nMake sure .env is present and contains HC_PRIVATE_KEY."
            ),
            other => panic!("{:?}", other),
        }
    }
    let mut app = RadarApp::new(String::new());
    app.profile = DeviceProfile::AI2;
    assert!(app.start_scan(None).is_none());
    match &app.scan_state {
        ScanState::Error(message) => assert!(message.contains("'AI3_PRIVATE_KEY'")),
        other => panic!("{:?}", other),
    }
}

#[test]
fn the_form_shows_how_the_scan_ended() {
    let mut app = RadarApp::new(String::new());
    app.scan_state = ScanState::Scanning;
    app.finish_scan(Some(Ok(String::from("10.8.0.17"))));
    match &app.scan_state {
        ScanState::Found(ip) => assert_eq!(ip, "10.8.0.17"),
        other => panic!("{:?}", other),
    }
    app.finish_scan(Some(Err(RadarError::MacNotFound(String::from("aa:bb:cc:dd:ee:ff")))));
    match &app.scan_state {
        ScanState::Error(message) => assert_eq!(
            message,
            "MAC address 'aa:bb:cc:dd:ee:ff' not found on any host in the scanned range"
        ),
        other => panic!("{:?}", other),
    }
    app.finish_scan(Some(Err(RadarError::InvalidIpRange(String::from("x")))));
    match &app.scan_state {
        ScanState::Error(message) => assert_eq!(message, "Invalid IP range: 'x'"),
        other => panic!("{:?}", other),
    }
}

#[test]
fn a_scan_past_its_deadline_is_shown_as_timed_out_not_as_not_found() {
    let mut app = RadarApp::new(String::new());
    app.scan_state = ScanState::Scanning;
    app.finish_scan(None);
    match &app.scan_state {
        ScanState::Error(message) => {
            assert_eq!(message, "Scan timed out after 15 seconds");
            assert!(!message.contains("not found"));
        },
        other => panic!("{:?}", other),
    }
}

#[test]
fn a_scan_may_start_for_an_address_that_is_not_empty() {
    let mut app = RadarApp::new(String::new());
    assert!(app.may_scan(true, "aa:bb:cc:dd:ee:ff"));
    assert!(app.may_scan(true, " "));
    assert!(!app.may_scan(true, ""));
    assert!(!app.may_scan(false, "aa:bb:cc:dd:ee:ff"));
    app.scan_state = ScanState::Scanning;
    assert!(!app.may_scan(true, "aa:bb:cc:dd:ee:ff"));
}

#[test]
fn beginning_a_scan_takes_the_address_as_given() {
    let mut app = RadarApp::new(String::from("pw"));
    let scanner = app.begin_scan(Some(String::from("KEY")), String::from(" aa ")).unwrap();
    assert_eq!(scanner.target_mac(), " aa ");
    assert_eq!(scanner.config().user, "root");
    assert!(matches!(app.scan_state, ScanState::Scanning));
    assert!(app.begin_scan(Some(String::new()), String::from("aa")).is_none());
    assert!(matches!(app.scan_state, ScanState::Error(_)));
    assert!(app.begin_scan(None, String::from("aa")).is_none());
}
