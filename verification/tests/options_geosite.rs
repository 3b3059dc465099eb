use leaf::geosite::{
    Domain, Domain_Attribute, Domain_Attribute_oneof_typed_value, Domain_Type, SiteGroup,
    SiteGroupList,
};
use leaf::options::{
    env_bool, env_u64, parse_u64, unspecified_bind_addr, DEFAULT_LINK_BUFFER_SIZE,
    DEFAULT_TCP_DOWNLINK_TIMEOUT, DEFAULT_TCP_UPLINK_TIMEOUT, DNS_TIMEOUT, MAX_DNS_RETRIES,
    UDP_SESSION_TIMEOUT, UDP_SESSION_TIMEOUT_CHECK_INTERVAL,
};

#[test]
fn parse_u64_accepts_plain_decimals() {
    assert_eq!(parse_u64("0"), Some(0));
    assert_eq!(parse_u64("42"), Some(42));
    assert_eq!(parse_u64("18446744073709551615"), Some(u64::MAX));
}

#[test]
fn parse_u64_rejects_non_numerals() {
    assert_eq!(parse_u64(""), None);
    assert_eq!(parse_u64("4x"), None);
    assert_eq!(parse_u64("-1"), None);
    assert_eq!(parse_u64(" 3"), None);
    assert_eq!(parse_u64("18446744073709551616"), None);
}

#[test]
fn env_u64_falls_back_to_default() {
    assert_eq!(env_u64(None, 2), 2);
    assert_eq!(env_u64(Some("7".to_string()), 2), 7);
    assert_eq!(env_u64(Some("junk".to_string()), 2), 2);
}

#[test]
fn env_bool_spelled_exactly() {
    assert!(env_bool(Some("true".to_string()), false));
    assert!(!env_bool(Some("false".to_string()), true));
    assert!(env_bool(Some("yes".to_string()), true));
    assert!(!env_bool(None, false));
}

#[test]
fn default_tunables() {
    assert_eq!(DEFAULT_TCP_UPLINK_TIMEOUT, 2);
    assert_eq!(DEFAULT_TCP_DOWNLINK_TIMEOUT, 4);
    assert_eq!(DEFAULT_LINK_BUFFER_SIZE, 2);
    assert_eq!(UDP_SESSION_TIMEOUT, 30);
    assert_eq!(UDP_SESSION_TIMEOUT_CHECK_INTERVAL, 10);
    assert_eq!(MAX_DNS_RETRIES, 4);
    assert_eq!(DNS_TIMEOUT, 4);
}

#[test]
fn bind_addr_follows_ipv6_switch() {
    assert_eq!(unspecified_bind_addr(false), "0.0.0.0:0");
    assert_eq!(unspecified_bind_addr(true), "[::]:0");
}

#[test]
fn domain_type_wire_numbers() {
    assert_eq!(Domain_Type::Plain.value(), 0);
    assert_eq!(Domain_Type::Regex.value(), 1);
    assert_eq!(Domain_Type::Domain.value(), 2);
    assert_eq!(Domain_Type::Full.value(), 3);
    assert_eq!(Domain_Type::from_i32(2), Some(Domain_Type::Domain));
    assert_eq!(Domain_Type::from_i32(4), None);
    assert_eq!(Domain_Type::from_i32(-1), None);
    assert_eq!(
        Domain_Type::values(),
        vec![Domain_Type::Plain, Domain_Type::Regex, Domain_Type::Domain, Domain_Type::Full]
    );
    assert_eq!(Domain_Type::default(), Domain_Type::Plain);
}

#[test]
fn domain_accessors() {
    let mut d = Domain::new();
    assert_eq!(d.get_field_type(), Domain_Type::Plain);
    assert_eq!(d.get_value(), "");
    assert!(d.get_attribute().is_empty());
    assert!(d.is_initialized());

    d.field_type = Domain_Type::Full;
    d.value = "example.com".to_string();
    let mut a = Domain_Attribute::new();
    a.key = "cn".to_string();
    a.typed_value = Some(Domain_Attribute_oneof_typed_value::bool_value(true));
    d.attribute.push(a);

    assert_eq!(d.get_field_type(), Domain_Type::Full);
    assert_eq!(d.get_value(), "example.com");
    assert_eq!(d.get_attribute().len(), 1);
    assert_eq!(d.get_attribute()[0].get_key(), "cn");
    assert!(d.is_initialized());

    d.clear();
    assert_eq!(d.get_field_type(), Domain_Type::Plain);
    assert_eq!(d.get_value(), "");
    assert!(d.get_attribute().is_empty());
}

#[test]
fn attribute_typed_values() {
    let mut a = Domain_Attribute::new();
    assert_eq!(a.get_key(), "");
    assert!(!a.get_bool_value());
    assert_eq!(a.get_int_value(), 0);

    a.typed_value = Some(Domain_Attribute_oneof_typed_value::bool_value(true));
    assert!(a.get_bool_value());
    assert_eq!(a.get_int_value(), 0);

    a.typed_value = Some(Domain_Attribute_oneof_typed_value::int_value(-7));
    assert!(!a.get_bool_value());
    assert_eq!(a.get_int_value(), -7);
    assert!(a.is_initialized());

    a.clear();
    assert!(a.typed_value.is_none());
}

#[test]
fn site_group_and_list() {
    let mut g = SiteGroup::new();
    assert_eq!(g.get_tag(), "");
    assert!(g.get_domain().is_empty());
    g.tag = "cn".to_string();
    let mut d = Domain::new();
    d.value = "example.cn".to_string();
    g.domain.push(d);
    assert_eq!(g.get_tag(), "cn");
    assert_eq!(g.get_domain().len(), 1);
    assert!(g.is_initialized());

    let mut l = SiteGroupList::new();
    assert!(l.get_site_group().is_empty());
    l.site_group.push(g);
    assert_eq!(l.get_site_group().len(), 1);
    assert_eq!(l.get_site_group()[0].get_tag(), "cn");
    assert!(l.is_initialized());

    l.clear();
    assert!(l.get_site_group().is_empty());
    assert_eq!(SiteGroupList::default().get_site_group().len(), 0);
    assert_eq!(SiteGroup::default().get_tag(), "");
    assert_eq!(Domain::default().get_value(), "");
    assert_eq!(Domain_Attribute::default().get_key(), "");
}
