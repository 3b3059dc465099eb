use leaf::geosite::{
    Domain, Domain_Attribute, Domain_Attribute_oneof_typed_value, Domain_Type, SiteGroup,
    SiteGroupList,
};
use leaf::geosite_wire::write_varint;

fn sample_domain() -> Domain {
    let mut a = Domain_Attribute::new();
    a.key = "cn".to_string();
    a.typed_value = Some(Domain_Attribute_oneof_typed_value::bool_value(true));
    let mut d = Domain::new();
    d.field_type = Domain_Type::Full;
    d.value = "example.com".to_string();
    d.attribute.push(a);
    d
}

#[test]
fn varint_encoding() {
    let mut out = Vec::new();
    write_varint(&mut out, 0);
    write_varint(&mut out, 127);
    write_varint(&mut out, 128);
    write_varint(&mut out, 300);
    assert_eq!(out, vec![0, 127, 0x80, 0x01, 0xAC, 0x02]);
}

#[test]
fn domain_encodes_exactly() {
    let d = sample_domain();
    let mut out = Vec::new();
    d.write_to_bytes(&mut out);
    let mut expected = vec![0x08, 3, 0x12, 11];
    expected.extend_from_slice(b"example.com");
    expected.extend_from_slice(&[0x1a, 6, 0x0a, 2, b'c', b'n', 0x10, 1]);
    assert_eq!(out, expected);
}

#[test]
fn compute_size_counts_the_encoding() {
    let mut d = sample_domain();
    let mut out = Vec::new();
    d.write_to_bytes(&mut out);
    assert_eq!(d.compute_size() as usize, out.len());
    assert_eq!(d.compute_size(), 23);

    let mut a = Domain_Attribute::new();
    assert_eq!(a.compute_size(), 0);

    let mut g = SiteGroup::new();
    g.tag = "cn".to_string();
    g.domain.push(sample_domain());
    let mut gout = Vec::new();
    g.write_to_bytes(&mut gout);
    assert_eq!(g.compute_size() as usize, gout.len());

    let mut l = SiteGroupList::new();
    l.site_group.push(g);
    let mut lout = Vec::new();
    l.write_to_bytes(&mut lout);
    assert_eq!(l.compute_size() as usize, lout.len());
}

#[test]
fn empty_messages_encode_to_nothing() {
    let d = Domain::new();
    let mut out = Vec::new();
    d.write_to_bytes(&mut out);
    assert!(out.is_empty());
    let mut l = SiteGroupList::new();
    let mut lout = Vec::new();
    l.write_to_bytes(&mut lout);
    assert!(lout.is_empty());
    assert_eq!(l.compute_size(), 0);
}

#[test]
fn domain_round_trips() {
    let d = sample_domain();
    let mut bytes = Vec::new();
    d.write_to_bytes(&mut bytes);

    let mut back = Domain::new();
    assert!(back.merge_from(&bytes).is_ok());
    assert_eq!(back.get_field_type(), Domain_Type::Full);
    assert_eq!(back.get_value(), "example.com");
    assert_eq!(back.get_attribute().len(), 1);
    assert_eq!(back.get_attribute()[0].get_key(), "cn");
    assert!(back.get_attribute()[0].get_bool_value());
    assert!(back.unknown_fields.is_empty());
}

#[test]
fn negative_int_attribute_round_trips() {
    let mut a = Domain_Attribute::new();
    a.key = "prio".to_string();
    a.typed_value = Some(Domain_Attribute_oneof_typed_value::int_value(-1));
    let mut bytes = Vec::new();
    a.write_to_bytes(&mut bytes);
    // A negative int64 is sign-extended: ten varint bytes.
    assert_eq!(bytes.len(), 2 + 4 + 1 + 10);

    let mut back = Domain_Attribute::new();
    assert!(back.merge_from(&bytes).is_ok());
    assert_eq!(back.get_int_value(), -1);
}

#[test]
fn false_bool_attribute_is_still_written() {
    // A oneof member is written even when it holds the default value.
    let mut a = Domain_Attribute::new();
    a.typed_value = Some(Domain_Attribute_oneof_typed_value::bool_value(false));
    let mut bytes = Vec::new();
    a.write_to_bytes(&mut bytes);
    assert_eq!(bytes, vec![0x10, 0]);
    let mut back = Domain_Attribute::new();
    assert!(back.merge_from(&bytes).is_ok());
    assert_eq!(
        back.typed_value,
        Some(Domain_Attribute_oneof_typed_value::bool_value(false))
    );
}

#[test]
fn list_round_trips() {
    let mut g = SiteGroup::new();
    g.tag = "geolocation-cn".to_string();
    g.domain.push(sample_domain());
    let mut l = SiteGroupList::new();
    l.site_group.push(g);
    let mut bytes = Vec::new();
    l.write_to_bytes(&mut bytes);

    let mut back = SiteGroupList::new();
    assert!(back.merge_from(&bytes).is_ok());
    assert_eq!(back.get_site_group().len(), 1);
    assert_eq!(back.get_site_group()[0].get_tag(), "geolocation-cn");
    let doms = back.get_site_group()[0].get_domain();
    assert_eq!(doms.len(), 1);
    assert_eq!(doms[0].get_value(), "example.com");
}

#[test]
fn unknown_fields_are_kept_and_reencoded() {
    // Field 15, varint 5: unknown to Domain; kept raw and written back out.
    let bytes = vec![0x78, 5];
    let mut d = Domain::new();
    assert!(d.merge_from(&bytes).is_ok());
    assert_eq!(d.unknown_fields, vec![0x78, 5]);
    let mut out = Vec::new();
    d.write_to_bytes(&mut out);
    assert_eq!(out, bytes);
}

#[test]
fn unknown_enum_value_becomes_unknown_field() {
    // Field 1 with an out-of-range enum value is kept as an unknown field.
    let bytes = vec![0x08, 9];
    let mut d = Domain::new();
    assert!(d.merge_from(&bytes).is_ok());
    assert_eq!(d.get_field_type(), Domain_Type::Plain);
    assert_eq!(d.unknown_fields, vec![0x08, 9]);
}

#[test]
fn malformed_records_are_rejected() {
    // A length running past the input.
    let mut d = Domain::new();
    assert!(d.merge_from(&[0x12, 200, 1, 2]).is_err());
    // A key varint cut short.
    let mut d2 = Domain::new();
    assert!(d2.merge_from(&[0x80]).is_err());
    // A known field with the wrong wire type.
    let mut d3 = Domain::new();
    assert!(d3.merge_from(&[0x10, 1]).is_err());
    // Invalid UTF-8 in a string field.
    let mut d4 = Domain::new();
    assert!(d4.merge_from(&[0x12, 1, 0xFF]).is_err());
}
