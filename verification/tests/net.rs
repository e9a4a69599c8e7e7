use gvls::net::{ipv4_text, ipv6_text};

#[test]
fn ipv6_loopback_is_compressed() {
    assert_eq!(ipv6_text(1), "::1");
}

#[test]
fn ipv6_unspecified_is_two_colons() {
    assert_eq!(ipv6_text(0), "::");
}

#[test]
fn ipv6_documentation_prefix() {
    let a: u128 = 0x2001_0db8_0000_0000_0000_0000_0000_0001;
    assert_eq!(ipv6_text(a), "2001:db8::1");
}

#[test]
fn ipv6_first_longest_zero_run_is_compressed() {
    let a: u128 = 0x2001_0db8_0000_0000_0001_0000_0000_0001;
    assert_eq!(ipv6_text(a), "2001:db8::1:0:0:1");
}

#[test]
fn ipv6_single_zero_group_is_not_compressed() {
    let a: u128 = 0x2001_0db8_0000_0001_0001_0001_0001_0001;
    assert_eq!(ipv6_text(a), "2001:db8:0:1:1:1:1:1");
}

#[test]
fn ipv6_mapped_ipv4_is_dotted() {
    let a: u128 = 0x0000_0000_0000_0000_0000_ffff_c000_0280;
    assert_eq!(ipv6_text(a), "::ffff:192.0.2.128");
}

#[test]
fn ipv4_dotted_decimal() {
    assert_eq!(ipv4_text(0xac10_0001), "172.16.0.1");
}
