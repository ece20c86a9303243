//! Tests of the configuration model and the IPv4 parser.

use mmds::ipv4::{parse_ipv4, Ipv4Addr};
use mmds::mmds_config::{Error, MmdsConfig};

#[test]
fn test_error_messages() {
    assert_eq!(
        Error::SetMmdsConfigurationNotAllowedPostBoot.message(),
        "Setting MMDS configuration is not allowed after boot."
    );
}

#[test]
fn test_ipv4_addr_pool() {
    let mmds_config = MmdsConfig {
        ipv4_address_pool: vec!["1.1.1.1".to_string(), "2.2.2.2".to_string()],
    };
    assert!(mmds_config.ipv4_addr_pool().is_ok());

    let mmds_config = MmdsConfig {
        ipv4_address_pool: Vec::new(),
    };
    assert!(mmds_config.ipv4_addr_pool().is_ok());

    let wrong_mmds_config = MmdsConfig {
        ipv4_address_pool: vec!["1.1.1.1.1".to_string()],
    };
    assert!(wrong_mmds_config.ipv4_addr_pool().is_err());
}

#[test]
fn test_ipv4_addr_pool_values_in_order() {
    let mmds_config = MmdsConfig {
        ipv4_address_pool: vec!["10.0.255.1".to_string(), "0.0.0.0".to_string()],
    };
    let pool = mmds_config.ipv4_addr_pool().unwrap();
    assert_eq!(
        pool,
        vec![
            Ipv4Addr {
                a: 10,
                b: 0,
                c: 255,
                d: 1
            },
            Ipv4Addr {
                a: 0,
                b: 0,
                c: 0,
                d: 0
            }
        ]
    );
}

#[test]
fn test_ipv4_addr_pool_keeps_duplicates() {
    let mmds_config = MmdsConfig {
        ipv4_address_pool: vec!["1.1.1.1".to_string(), "1.1.1.1".to_string()],
    };
    let pool = mmds_config.ipv4_addr_pool().unwrap();
    assert_eq!(pool.len(), 2);
}

#[test]
fn test_ipv4_addr_pool_error_kind() {
    let wrong = MmdsConfig {
        ipv4_address_pool: vec!["not-an-address".to_string()],
    };
    match wrong.ipv4_addr_pool() {
        Err(Error::IPv4ParseError(_)) => {}
        _ => panic!("expected the IPv4 parse error"),
    }
}

#[test]
fn test_parse_ipv4_exact_octets() {
    assert_eq!(
        parse_ipv4("192.168.0.17"),
        Ok(Ipv4Addr {
            a: 192,
            b: 168,
            c: 0,
            d: 17
        })
    );
}

#[test]
fn test_parse_ipv4_rejects_bad_syntax() {
    assert!(parse_ipv4("").is_err());
    assert!(parse_ipv4("1.1.1").is_err());
    assert!(parse_ipv4("1.1.1.1.1").is_err());
    assert!(parse_ipv4("256.1.1.1").is_err());
    assert!(parse_ipv4("01.1.1.1").is_err());
    assert!(parse_ipv4("1..1.1").is_err());
    assert!(parse_ipv4("a.b.c.d").is_err());
    assert!(parse_ipv4("1.1.1.1 ").is_err());
    assert!(parse_ipv4("-1.1.1.1").is_err());
}

#[test]
fn test_parse_ipv4_accepts_bounds() {
    assert!(parse_ipv4("0.0.0.0").is_ok());
    assert!(parse_ipv4("255.255.255.255").is_ok());
}

#[test]
fn test_ipv4_parse_error_message() {
    let wrong = MmdsConfig {
        ipv4_address_pool: vec!["1.1.1.1.1".to_string()],
    };
    let err = wrong.ipv4_addr_pool().unwrap_err();
    assert_eq!(err.message(), "invalid IP address syntax");
}
