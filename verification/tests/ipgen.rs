use naabu_tools::cli_ipgen::IpGenerator;
use naabu_tools::cli_targets::{inline_targets, list_file, require_targets, target_description};
use naabu_tools::gui_ip_generator::{reserved_ranges, IpGenerator as GuiIpGenerator, IpRange};
use naabu_tools::ipv4::{ipv4_string, parse_ipv4_str};
use naabu_tools::naabu_output::join_lines;
use naabu_tools::random::{add_draw, batch_step, candidate, draw_distinct, BatchEnd};
use std::collections::HashSet;

fn addr(a: u32, b: u32, c: u32, d: u32) -> u32 {
    (a << 24) | (b << 16) | (c << 8) | d
}

#[test]
fn test_batch() {
    let ips = IpGenerator::generate_batch(50);
    let unique: HashSet<_> = ips.iter().collect();
    assert_eq!(unique.len(), 50);
}

#[test]
fn test_cidr() {
    let ips = IpGenerator::from_cidr("8.8.8.0/30").unwrap();
    assert_eq!(ips.len(), 2);
}

#[test]
fn test_random_ip_not_reserved() {
    for _ in 0..1000 {
        let ip = GuiIpGenerator::random_public_ip().unwrap();
        assert!(!GuiIpGenerator::is_reserved(ip), "Got reserved: {}", ipv4_string(ip));
    }
}

#[test]
fn test_generate_batch_unique() {
    let ips = GuiIpGenerator::generate_batch(100);
    let unique: HashSet<_> = ips.iter().collect();
    assert_eq!(unique.len(), 100);
}

#[test]
fn ipgen_quick() {
    let ips = GuiIpGenerator::generate_batch(20);
    assert_eq!(ips.len(), 20);
}

#[test]
fn cidr_hosts_are_listed_in_order() {
    let ips = IpGenerator::from_cidr("8.8.8.0/30").unwrap();
    assert_eq!(ips, vec!["8.8.8.1".to_string(), "8.8.8.2".to_string()]);
    let ips = GuiIpGenerator::generate_from_cidr("8.8.8.8/29").unwrap();
    assert_eq!(
        ips,
        vec!["8.8.8.9", "8.8.8.10", "8.8.8.11", "8.8.8.12", "8.8.8.13", "8.8.8.14"]
    );
}

#[test]
fn cidr_edge_prefixes() {
    assert_eq!(IpGenerator::from_cidr("8.8.8.8/32").unwrap().len(), 0);
    assert_eq!(IpGenerator::from_cidr("8.8.8.8/31").unwrap().len(), 0);
    assert_eq!(IpGenerator::from_cidr("8.8.0.0/16").unwrap().len(), 65534);
    assert_eq!(IpGenerator::from_cidr("8.8.8.0/+30").unwrap().len(), 2);
    assert_eq!(IpGenerator::from_cidr("10.0.0.0/24").unwrap().len(), 0);
    assert_eq!(IpGenerator::from_cidr("192.168.1.0/30").unwrap().len(), 0);
}

#[test]
fn cidr_errors_cli() {
    assert_eq!(IpGenerator::from_cidr("8.8.8.0").unwrap_err(), "Invalid CIDR: 8.8.8.0");
    assert_eq!(IpGenerator::from_cidr("1/2/3").unwrap_err(), "Invalid CIDR: 1/2/3");
    assert_eq!(IpGenerator::from_cidr("8.8.8/24").unwrap_err(), "Invalid IP: 8.8.8");
    assert_eq!(IpGenerator::from_cidr("8.8.8.0/x").unwrap_err(), "Invalid prefix: x");
    assert_eq!(IpGenerator::from_cidr("8.8.8.0/-1").unwrap_err(), "Invalid prefix: -1");
    assert_eq!(IpGenerator::from_cidr("8.8.8.0/33").unwrap_err(), "Prefix must be <= 32");
    assert_eq!(IpGenerator::from_cidr("8.8.8.0/4294967296").unwrap_err(), "Invalid prefix: 4294967296");
    assert_eq!(IpGenerator::from_cidr("8.0.0.0/7").unwrap_err(), "Prefix too small (min /8)");
    assert_eq!(
        IpGenerator::from_cidr("8.8.0.0/15").unwrap_err(),
        "Too many IPs (>64k). Use a larger prefix."
    );
}

#[test]
fn cidr_errors_gui() {
    assert_eq!(
        GuiIpGenerator::generate_from_cidr("8.8.8.0").unwrap_err(),
        "Invalid CIDR format. Use x.x.x.x/n"
    );
    assert_eq!(GuiIpGenerator::generate_from_cidr("x/24").unwrap_err(), "Invalid IP: x");
    assert_eq!(GuiIpGenerator::generate_from_cidr("8.8.8.0/").unwrap_err(), "Invalid prefix: ");
    assert_eq!(
        GuiIpGenerator::generate_from_cidr("8.0.0.0/0").unwrap_err(),
        "Prefix too small (min /8) \u{2014} would generate too many IPs"
    );
}

#[test]
fn parse_list_reads_addresses_and_blocks() {
    let input = "8.8.8.8\n  1.1.1.1  \n\nnot an ip\n8.8.8.0/30\r\n10.0.0.1\n08.8.8.8\n8.8.8.0/33";
    let ips = IpGenerator::parse_list(input);
    assert_eq!(ips, vec!["8.8.8.8", "1.1.1.1", "8.8.8.1", "8.8.8.2", "10.0.0.1"]);
    assert_eq!(GuiIpGenerator::parse_ip_list(input), ips);
    assert!(IpGenerator::parse_list("").is_empty());
}

#[test]
fn address_text_parsing_follows_std() {
    assert_eq!(parse_ipv4_str("8.8.4.4"), Some(addr(8, 8, 4, 4)));
    assert_eq!(parse_ipv4_str("0.0.0.0"), Some(0));
    assert_eq!(parse_ipv4_str("255.255.255.255"), Some(u32::MAX));
    for bad in ["08.8.8.8", "256.1.1.1", "1.2.3", "1.2.3.4.5", " 1.2.3.4", "1.2.3.4 ", "1..2.3", "+1.2.3.4", "1.2.3.0004", ""] {
        assert_eq!(parse_ipv4_str(bad), None, "{bad}");
    }
    assert_eq!(parse_ipv4_str("10.20.30.40"), Some(addr(10, 20, 30, 40)));
    assert_eq!(parse_ipv4_str("0.255.0.255"), Some(addr(0, 255, 0, 255)));
}

#[test]
fn address_text_round_trip() {
    assert_eq!(ipv4_string(0x08080808), "8.8.8.8");
    assert_eq!(ipv4_string(0xC0A80001), "192.168.0.1");
    assert_eq!(ipv4_string(0), "0.0.0.0");
    for ip in [0u32, 1, 0x08080808, 0xC0A80001, 0xFFFFFFFF, 0x0A000001, 123456789] {
        let t = ipv4_string(ip);
        assert_eq!(parse_ipv4_str(&t), Some(ip));
    }
}

#[test]
fn reserved_range_boundaries() {
    assert!(IpGenerator::is_reserved(addr(10, 0, 0, 0)));
    assert!(!IpGenerator::is_reserved(addr(9, 255, 255, 255)));
    assert!(!IpGenerator::is_reserved(addr(100, 63, 255, 255)));
    assert!(IpGenerator::is_reserved(addr(100, 64, 0, 0)));
    assert!(IpGenerator::is_reserved(addr(100, 127, 255, 255)));
    assert!(!IpGenerator::is_reserved(addr(100, 128, 0, 0)));
    assert!(IpGenerator::is_reserved(addr(255, 255, 255, 255)));
    assert!(IpGenerator::is_reserved(addr(240, 0, 0, 1)));
    assert!(!IpGenerator::is_reserved(addr(8, 8, 8, 8)));
    assert!(!IpGenerator::is_reserved(addr(223, 255, 255, 254)));
    assert_eq!(GuiIpGenerator::is_reserved(addr(172, 16, 0, 1)), true);
    assert_eq!(GuiIpGenerator::is_reserved(addr(172, 32, 0, 1)), false);
}

#[test]
fn reserved_ranges_display_lists_all_ranges() {
    let d = GuiIpGenerator::reserved_ranges_display();
    assert_eq!(d.len(), 16);
    assert_eq!(d[0], ("0.0.0.0 - 0.255.255.255".to_string(), "Current Network".to_string()));
    assert_eq!(d[2], ("100.64.0.0 - 100.127.255.255".to_string(), "Carrier-Grade NAT".to_string()));
    assert_eq!(d[15], ("255.255.255.255 - 255.255.255.255".to_string(), "Broadcast".to_string()));
    let ranges: Vec<IpRange> = reserved_ranges();
    assert!(ranges[3].contains(addr(127, 0, 0, 1)));
    assert!(!ranges[3].contains(addr(128, 0, 0, 1)));
}

#[test]
fn candidates_exclude_reserved_addresses() {
    assert_eq!(candidate(10, 0, 0, 1), None);
    assert_eq!(candidate(8, 8, 8, 8), Some(addr(8, 8, 8, 8)));
    assert_eq!(candidate(192, 168, 1, 1), None);
}

#[test]
fn random_addresses_are_public_candidates() {
    for _ in 0..200 {
        let ip = IpGenerator::random_public_ip().unwrap();
        assert!(!IpGenerator::is_reserved(ip));
        let first = ip >> 24;
        let last = ip & 0xff;
        assert!((1..=223).contains(&first));
        assert!((1..=254).contains(&last));
    }
    for t in IpGenerator::generate_batch(30) {
        let ip = parse_ipv4_str(&t).unwrap();
        assert!(!IpGenerator::is_reserved(ip));
    }
    assert!(IpGenerator::generate_batch(0).is_empty());
}

#[test]
fn inline_and_file_targets() {
    assert_eq!(inline_targets("1.2.3.4,5.6.7.8, 8.8.8.0/30"), vec!["1.2.3.4", "5.6.7.8", "8.8.8.1", "8.8.8.2"]);
    assert_eq!(list_file("@targets.txt"), Some("targets.txt".to_string()));
    assert_eq!(list_file("1.2.3.4"), None);
    assert_eq!(require_targets(vec![]).unwrap_err(), "no target IPs (use --count, --ips, --cidr, or --stdin)");
    assert_eq!(require_targets(vec!["1.2.3.4".to_string()]).unwrap(), vec!["1.2.3.4"]);
    assert_eq!(target_description(Some(100), "80"), "top-100");
    assert_eq!(target_description(None, "80,443"), "80,443");
}

#[test]
fn draws_already_in_the_batch_are_skipped() {
    let mut out: Vec<u32> = Vec::new();
    let mut seen: HashSet<u32> = HashSet::new();
    assert!(add_draw(&mut out, &mut seen, addr(8, 8, 8, 8)));
    assert!(add_draw(&mut out, &mut seen, addr(1, 1, 1, 1)));
    assert!(!add_draw(&mut out, &mut seen, addr(8, 8, 8, 8)));
    assert_eq!(out, vec![addr(8, 8, 8, 8), addr(1, 1, 1, 1)]);
    assert_eq!(seen.len(), 2);
}

#[test]
fn generated_addresses_read_back_as_targets() {
    let ips = IpGenerator::generate_batch(20);
    let text = join_lines(&ips);
    assert_eq!(IpGenerator::parse_list(&text), ips);
    assert_eq!(GuiIpGenerator::parse_ip_list(&text), ips);
    let hosts = IpGenerator::from_cidr("8.8.8.0/29").unwrap();
    assert_eq!(IpGenerator::parse_list(&join_lines(&hosts)), hosts);
}

#[test]
fn batch_steps_follow_the_draws() {
    let mut out: Vec<u32> = Vec::new();
    let mut seen: HashSet<u32> = HashSet::new();
    assert!(batch_step(&mut out, &mut seen, 2, Some(addr(8, 8, 8, 8))));
    assert!(batch_step(&mut out, &mut seen, 2, Some(addr(8, 8, 8, 8))));
    assert!(!batch_step(&mut out, &mut seen, 2, Some(addr(1, 1, 1, 1))));
    assert_eq!(out, vec![addr(8, 8, 8, 8), addr(1, 1, 1, 1)]);
    let mut out2: Vec<u32> = Vec::new();
    let mut seen2: HashSet<u32> = HashSet::new();
    assert!(!batch_step(&mut out2, &mut seen2, 3, None));
    assert!(out2.is_empty());
}

#[test]
fn batches_are_full_unless_stopped() {
    let b = draw_distinct(30, 1000, u64::MAX);
    assert_eq!(b.end, BatchEnd::Full);
    assert_eq!(b.ips.len(), 30);
    let empty = draw_distinct(0, 1000, 5);
    assert_eq!(empty.end, BatchEnd::Full);
    assert_eq!(empty.draws, 0);
    let none = draw_distinct(5, 1000, 0);
    assert_eq!(none.end, BatchEnd::OutOfRounds);
    assert!(none.ips.is_empty());
    let gave_up = draw_distinct(5, 0, 10);
    assert_eq!(gave_up.end, BatchEnd::GaveUp);
    assert_eq!(gave_up.draws, 1);
}
