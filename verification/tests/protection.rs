use rust_gps_ntp::ntp::protection::{
    parse_ipv4_cidr, RateLimiter, ACL_MAX_ENTRIES, MIN_POLL_INTERVAL_US, RATE_TABLE_SIZE,
};
use rust_gps_ntp::ntp::Acl;

#[test]
fn parse_ipv4_cidr_accepts_slash24() {
    assert_eq!(parse_ipv4_cidr("192.168.1.0/24"), Some((192, 168, 1, 0, 24)));
}

#[test]
fn parse_ipv4_cidr_rejects_missing_prefix() {
    assert_eq!(parse_ipv4_cidr("192.168.1.0"), None);
}

#[test]
fn parse_ipv4_cidr_rejects_prefix_out_of_range() {
    assert_eq!(parse_ipv4_cidr("10.0.0.0/33"), None);
}

#[test]
fn from_config_empty_uses_private_lan() {
    let acl = Acl::from_config("");
    assert!(acl.allows(0xC0_A8_00_01));
    assert!(!acl.allows(0x08_08_08_08));
}

#[test]
fn from_config_cidr_restricts_to_subnet() {
    let acl = Acl::from_config("192.168.1.0/24");
    assert!(acl.allows(0xC0_A8_01_01));
    assert!(!acl.allows(0xC0_A8_02_01));
    assert!(!acl.allows(0x08_08_08_08));
}

#[test]
fn acl_allow_all_permits_any_ipv4() {
    let acl = Acl::allow_all();
    assert!(acl.allows(0x08_08_08_08));
    assert!(acl.allows(0xC0_A8_01_01));
    assert!(acl.allows(0x00_00_00_00));
}

#[test]
fn acl_deny_all_blocks_any_ipv4() {
    let acl = Acl::deny_all();
    assert!(!acl.allows(0x08_08_08_08));
    assert!(!acl.allows(0xC0_A8_01_01));
    assert!(!acl.allows(0x7F_00_00_01));
}

#[test]
fn acl_private_lan_allows_rfc1918_and_loopback() {
    let acl = Acl::private_lan();
    assert!(acl.allows(0x7F_00_00_01), "127.0.0.1 (loopback)");
    assert!(acl.allows(0x0A_00_00_01), "10.0.0.1 (RFC 1918 /8)");
    assert!(acl.allows(0x0A_FF_FF_FF), "10.255.255.255 (RFC 1918 /8 edge)");
    assert!(acl.allows(0xAC_10_00_01), "172.16.0.1 (RFC 1918 /12)");
    assert!(acl.allows(0xAC_1F_FF_FF), "172.31.255.255 (RFC 1918 /12 edge)");
    assert!(acl.allows(0xC0_A8_00_01), "192.168.0.1 (RFC 1918 /16)");
    assert!(acl.allows(0xC0_A8_FF_FF), "192.168.255.255 (RFC 1918 /16 edge)");
}

#[test]
fn acl_private_lan_blocks_public_internet() {
    let acl = Acl::private_lan();
    assert!(!acl.allows(0x08_08_08_08), "8.8.8.8 (Google DNS)");
    assert!(!acl.allows(0x01_01_01_01), "1.1.1.1 (Cloudflare)");
    assert!(!acl.allows(0xAC_0F_FF_FF), "172.15.255.255 (just below RFC 1918 /12)");
    assert!(!acl.allows(0xAC_20_00_00), "172.32.0.0 (just above RFC 1918 /12)");
}

#[test]
fn acl_add_ipv4_cidr_single_host() {
    let mut acl = Acl::deny_all();
    acl.add_ipv4_cidr(192, 168, 1, 100, 32);
    assert!(acl.allows(0xC0A8_0164_u32));
    assert!(!acl.allows(0xC0A8_0165_u32));
}

#[test]
fn acl_add_ipv4_cidr_slash24() {
    let mut acl = Acl::deny_all();
    acl.add_ipv4_cidr(10, 0, 1, 0, 24);
    assert!(acl.allows(0x0A_00_01_01));
    assert!(acl.allows(0x0A_00_01_FF));
    assert!(!acl.allows(0x0A_00_02_01));
}

#[test]
fn acl_table_full_returns_false() {
    let mut acl = Acl::deny_all();
    for i in 0..ACL_MAX_ENTRIES {
        assert!(acl.add_ipv4_cidr(10, 0, i as u8, 0, 24));
    }
    assert!(!acl.add_ipv4_cidr(172, 16, 0, 0, 16));
}

#[test]
fn rate_limiter_allows_first_request_from_new_client() {
    let mut rl = RateLimiter::new();
    assert!(rl.check(0xC0_A8_01_01, 1_000_000));
}

#[test]
fn rate_limiter_allows_request_after_sufficient_interval() {
    let mut rl = RateLimiter::new();
    let addr = 0xC0_A8_01_01_u32;
    rl.check(addr, 0);
    assert!(rl.check(addr, 3 * MIN_POLL_INTERVAL_US / 2 * 3));
}

#[test]
fn rate_limiter_denies_request_within_min_interval() {
    let mut rl = RateLimiter::new();
    let addr = 0xC0_A8_01_02_u32;
    rl.check(addr, 0);
    assert!(!rl.check(addr, MIN_POLL_INTERVAL_US / 4));
}

#[test]
fn rate_limiter_allows_after_previous_deny() {
    let mut rl = RateLimiter::new();
    let addr = 0xC0_A8_01_03_u32;
    rl.check(addr, 0);
    rl.check(addr, MIN_POLL_INTERVAL_US / 4);
    assert!(rl.check(addr, MIN_POLL_INTERVAL_US * 3));
}

#[test]
fn rate_limiter_evicts_oldest_when_full() {
    let mut rl = RateLimiter::new();
    for i in 0..RATE_TABLE_SIZE {
        rl.check(0x0A_00_00_00 + i as u32, i as i64 * 1_000);
    }
    assert!(rl.check(0xFF_FF_FF_FF, (RATE_TABLE_SIZE as i64) * 1_000));
}

#[test]
fn rate_limiter_forgets_only_the_oldest() {
    let mut rl = RateLimiter::new();
    for i in 0..RATE_TABLE_SIZE {
        rl.check(0x0A_00_00_00 + i as u32, i as i64 * 1_000);
    }
    rl.check(0xFF_FF_FF_FF, 40_000);
    assert!(!rl.check(0x0A_00_00_01, 50_000));
    assert!(rl.check(0x0A_00_00_00, 50_000));
}

#[test]
fn rate_limiter_interval_is_inclusive() {
    let mut rl = RateLimiter::new();
    rl.check(1, 0);
    assert!(!rl.check(1, MIN_POLL_INTERVAL_US - 1));
    assert!(rl.check(1, MIN_POLL_INTERVAL_US));
    assert!(rl.check(2, MIN_POLL_INTERVAL_US));
}

#[test]
fn block_of_no_bits_holds_every_address() {
    let mut acl = Acl::deny_all();
    acl.add_ipv4_cidr(1, 2, 3, 4, 0);
    assert!(acl.allows(0) && acl.allows(u32::MAX));
}

#[test]
fn default_decides_on_unlisted_addresses() {
    let mut open = Acl::allow_all();
    assert!(open.add_ipv4_cidr(10, 0, 0, 0, 8));
    assert!(open.allows(0x0808_0808));
    assert!(open.allows(0x0A00_0001));
    let mut strict = Acl::deny_all();
    assert!(strict.add_ipv4_cidr(10, 0, 0, 0, 8));
    assert!(!strict.allows(0x0808_0808));
    assert!(strict.allows(0x0A00_0001));
}

#[test]
fn limiter_tells_without_recording() {
    let mut rl = RateLimiter::new();
    assert!(rl.due(1, 0));
    assert!(rl.check(1, 0));
    assert!(!rl.due(1, MIN_POLL_INTERVAL_US - 1));
    assert!(rl.due(1, MIN_POLL_INTERVAL_US));
    assert!(rl.due(2, 0));
}

#[test]
fn cidr_text_in_odd_forms() {
    assert_eq!(parse_ipv4_cidr("  10.0.0.0/8 \n"), Some((10, 0, 0, 0, 8)));
    assert_eq!(parse_ipv4_cidr("+1.2.3.4/+5"), Some((1, 2, 3, 4, 5)));
    assert_eq!(parse_ipv4_cidr("1.2.3/8"), None);
    assert_eq!(parse_ipv4_cidr("1.2.3.4.5/8"), None);
    assert_eq!(parse_ipv4_cidr("1.2.3.256/8"), None);
    assert_eq!(parse_ipv4_cidr("1.2.3.4/8/9"), None);
    assert_eq!(parse_ipv4_cidr(""), None);
}
