use dend_p2p::addr::{ip_string, next_ip, parse_cidr, parse_ip, CidrError, Ipv4Addr};

fn ip(a: u8, b: u8, c: u8, d: u8) -> Ipv4Addr {
    Ipv4Addr { a, b, c, d }
}

#[test]
fn next_ip_counts_on() {
    assert_eq!(next_ip(ip(10, 10, 0, 0), 1), ip(10, 10, 0, 1));
    assert_eq!(next_ip(ip(10, 10, 0, 250), 10), ip(10, 10, 1, 4));
    assert_eq!(next_ip(ip(10, 255, 255, 255), 1), ip(11, 0, 0, 0));
    assert_eq!(next_ip(ip(255, 255, 255, 255), 3), ip(0, 0, 0, 2));
}

#[test]
fn addresses_are_written_and_read() {
    assert_eq!(ip_string(ip(10, 10, 0, 2)), "10.10.0.2");
    assert_eq!(ip_string(ip(255, 100, 99, 0)), "255.100.99.0");
    assert_eq!(parse_ip("10.10.0.2"), Some(ip(10, 10, 0, 2)));
    assert_eq!(parse_ip("255.100.99.0"), Some(ip(255, 100, 99, 0)));
}

#[test]
fn other_texts_are_no_address() {
    for text in [
        "", "1", "1.2.3", "1.2.3.", ".1.2.3", "1.2.3.4.5", "1.2.3.4 ", " 1.2.3.4", "01.2.3.4",
        "1.2.3.00", "256.1.1.1", "1.1.1.1000", "1..2.3", "a.b.c.d", "1.2.3.+4",
    ] {
        assert_eq!(parse_ip(text), None, "{}", text);
    }
}

#[test]
fn networks_are_read() {
    assert_eq!(parse_cidr("10.10.0.0/24"), Ok((ip(10, 10, 0, 0), 24)));
    assert_eq!(parse_cidr("10.10.0.0/+024"), Ok((ip(10, 10, 0, 0), 24)));
    assert_eq!(parse_cidr("10.10.0.0/255"), Ok((ip(10, 10, 0, 0), 255)));
}

#[test]
fn each_fault_of_a_network_has_its_error() {
    assert_eq!(parse_cidr("10.10.0.0"), Err(CidrError::Format));
    assert_eq!(parse_cidr("10.10.0.0/24/1"), Err(CidrError::Format));
    assert_eq!(parse_cidr("10.10.0/24"), Err(CidrError::Address));
    assert_eq!(parse_cidr("10.10.0.0/"), Err(CidrError::Prefix));
    assert_eq!(parse_cidr("10.10.0.0/+"), Err(CidrError::Prefix));
    assert_eq!(parse_cidr("10.10.0.0/256"), Err(CidrError::Prefix));
    assert_eq!(parse_cidr("10.10.0.0/-1"), Err(CidrError::Prefix));
    assert_eq!(parse_cidr("/x"), Err(CidrError::Address));
}
