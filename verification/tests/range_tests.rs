use radar_ip::errors::RadarError;
use radar_ip::range::expand_range;
use radar_ip::range::format_ipv4;
use radar_ip::range::Ipv4Subnet;
use radar_ip::text::push_decimal;
use radar_ip::text::to_lower;
use radar_ip::text::to_lower_char;

fn addr(a: u32, b: u32, c: u32, d: u32) -> u32 {
    (a << 24) | (b << 16) | (c << 8) | d
}

#[test]
fn parse_reads_address_and_prefix() {
    let net = Ipv4Subnet::parse("192.168.1.7/24").unwrap();
    assert_eq!(net.addr(), addr(192, 168, 1, 7));
    assert_eq!(net.prefix_len(), 24);
}

#[test]
fn network_and_broadcast_of_a_host_address() {
    let net = Ipv4Subnet::parse("192.168.1.7/24").unwrap();
    assert_eq!(net.network(), addr(192, 168, 1, 0));
    assert_eq!(net.broadcast(), addr(192, 168, 1, 255));
}

#[test]
fn network_and_broadcast_at_the_prefix_extremes() {
    let all = Ipv4Subnet::parse("10.1.2.3/0").unwrap();
    assert_eq!(all.network(), 0);
    assert_eq!(all.broadcast(), u32::MAX);
    let one = Ipv4Subnet::parse("10.1.2.3/32").unwrap();
    assert_eq!(one.network(), addr(10, 1, 2, 3));
    assert_eq!(one.broadcast(), addr(10, 1, 2, 3));
    let odd = Ipv4Subnet::parse("172.16.123.123/20").unwrap();
    assert_eq!(odd.network(), addr(172, 16, 112, 0));
    assert_eq!(odd.broadcast(), addr(172, 16, 127, 255));
}

#[test]
fn expansion_of_a_slash_24_has_254_hosts_in_order() {
    let hosts = expand_range("192.168.1.0/24").unwrap();
    assert_eq!(hosts.len(), 254);
    assert_eq!(hosts[0], addr(192, 168, 1, 1));
    assert_eq!(hosts[253], addr(192, 168, 1, 254));
    for pair in hosts.windows(2) {
        assert!(pair[0] < pair[1]);
    }
}

#[test]
fn expansion_excludes_network_and_broadcast() {
    for cidr in ["10.0.0.0/30", "10.0.0.9/29", "192.168.255.0/24", "172.16.0.0/22"] {
        let net = Ipv4Subnet::parse(cidr).unwrap();
        let hosts = expand_range(cidr).unwrap();
        assert!(!hosts.contains(&net.network()));
        assert!(!hosts.contains(&net.broadcast()));
        for host in &hosts {
            assert!(net.network() < *host && *host < net.broadcast());
        }
        for pair in hosts.windows(2) {
            assert_eq!(pair[0] + 1, pair[1]);
        }
    }
}

#[test]
fn expansion_of_a_slash_30_is_the_two_middle_addresses() {
    let hosts = expand_range("10.0.0.0/30").unwrap();
    assert_eq!(hosts, vec![addr(10, 0, 0, 1), addr(10, 0, 0, 2)]);
}

#[test]
fn expansion_starts_from_the_network_not_from_the_address_given() {
    let hosts = expand_range("10.0.0.6/29").unwrap();
    assert_eq!(hosts.len(), 6);
    assert_eq!(hosts[0], addr(10, 0, 0, 1));
    assert_eq!(hosts[5], addr(10, 0, 0, 6));
}

#[test]
fn degenerate_masks_have_no_usable_host() {
    assert_eq!(expand_range("10.0.0.0/31").unwrap(), Vec::<u32>::new());
    assert_eq!(expand_range("10.0.0.1/31").unwrap(), Vec::<u32>::new());
    assert_eq!(expand_range("10.0.0.1/32").unwrap(), Vec::<u32>::new());
    assert_eq!(Ipv4Subnet::parse("10.0.0.1/32").unwrap().hosts(), Vec::<u32>::new());
}

#[test]
fn expansion_of_a_slash_16_has_65534_hosts() {
    let hosts = expand_range("10.8.0.0/16").unwrap();
    assert_eq!(hosts.len(), 65534);
    assert_eq!(hosts[0], addr(10, 8, 0, 1));
    assert_eq!(hosts[65533], addr(10, 8, 255, 254));
}

#[test]
fn malformed_ranges_are_refused_with_the_text_given() {
    for cidr in [
        "",
        "not-a-range",
        "192.168.1.0",
        "192.168.1.0/33",
        "192.168.1/24",
        "192.168.1.256/24",
        "192.168.1.0/24 ",
        " 192.168.1.0/24",
        "192.168.1.0/",
        "::1/128",
        "192.168.1.0/024",
    ] {
        match expand_range(cidr) {
            Err(RadarError::InvalidIpRange(text)) => assert_eq!(text, cidr),
            other => panic!("{:?} was not refused: {:?}", cidr, other),
        }
        assert!(matches!(Ipv4Subnet::parse(cidr), Err(RadarError::InvalidIpRange(_))));
    }
}

#[test]
fn addresses_are_written_in_dotted_decimal() {
    assert_eq!(format_ipv4(0), "0.0.0.0");
    assert_eq!(format_ipv4(u32::MAX), "255.255.255.255");
    assert_eq!(format_ipv4(addr(192, 168, 1, 7)), "192.168.1.7");
    assert_eq!(format_ipv4(addr(10, 0, 100, 9)), "10.0.100.9");
    assert_eq!(format_ipv4(addr(1, 20, 3, 40)), "1.20.3.40");
}

#[test]
fn decimal_numerals_have_no_leading_zeros() {
    for (n, text) in [(0u32, "0"), (7, "7"), (10, "10"), (22, "22"), (255, "255"), (65535, "65535"), (u32::MAX, "4294967295")] {
        let mut out = String::from("n=");
        push_decimal(&mut out, n);
        assert_eq!(out, format!("n={}", text));
    }
}

#[test]
fn lowercase_folds_ascii_capitals_only() {
    assert_eq!(to_lower("AA:BB:CC:DD:EE:FF"), "aa:bb:cc:dd:ee:ff");
    assert_eq!(to_lower("aA:0b:Cc:9D"), "aa:0b:cc:9d");
    assert_eq!(to_lower(""), "");
    assert_eq!(to_lower("AZ@[`{az"), "az@[`{az");
    assert_eq!(to_lower_char('A'), 'a');
    assert_eq!(to_lower_char('Z'), 'z');
    assert_eq!(to_lower_char('@'), '@');
    assert_eq!(to_lower_char('['), '[');
    assert_eq!(to_lower_char('7'), '7');
}

#[test]
fn lowercase_is_idempotent_on_examples() {
    for text in ["AA:bb:CC", "Link/Ether", "0123456789abcdefABCDEF"] {
        let once = to_lower(text);
        assert_eq!(to_lower(&once), once);
    }
}

#[test]
fn a_subnet_takes_a_prefix_of_at_most_32_bits() {
    let net = Ipv4Subnet::new(addr(10, 0, 0, 5), 30).unwrap();
    assert_eq!(net.addr(), addr(10, 0, 0, 5));
    assert_eq!(net.prefix_len(), 30);
    assert_eq!(net.network(), addr(10, 0, 0, 4));
    assert_eq!(net.broadcast(), addr(10, 0, 0, 7));
    assert_eq!(net.hosts(), vec![addr(10, 0, 0, 5), addr(10, 0, 0, 6)]);
    assert!(Ipv4Subnet::new(0, 32).is_some());
    assert!(Ipv4Subnet::new(0, 0).is_some());
    assert!(Ipv4Subnet::new(0, 33).is_none());
    assert!(Ipv4Subnet::new(u32::MAX, 255).is_none());
}

#[test]
fn hosts_at_the_ends_of_the_address_space() {
    let low = Ipv4Subnet::new(0, 30).unwrap();
    assert_eq!(low.hosts(), vec![1, 2]);
    let high = Ipv4Subnet::new(u32::MAX, 30).unwrap();
    assert_eq!(high.network(), u32::MAX - 3);
    assert_eq!(high.broadcast(), u32::MAX);
    assert_eq!(high.hosts(), vec![u32::MAX - 2, u32::MAX - 1]);
    assert!(Ipv4Subnet::new(0, 31).unwrap().hosts().is_empty());
    assert!(Ipv4Subnet::new(u32::MAX, 32).unwrap().hosts().is_empty());
}

#[test]
fn parsing_and_building_a_subnet_agree() {
    let parsed = Ipv4Subnet::parse("172.16.5.4/22").unwrap();
    let built = Ipv4Subnet::new(parsed.addr(), parsed.prefix_len()).unwrap();
    assert_eq!(parsed.hosts(), built.hosts());
    assert_eq!(built.hosts().len(), 1022);
}
