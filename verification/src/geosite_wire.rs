//! The wire form of the geosite messages: length-prefixed fields with
//! varint-coded tags, as the protobuf binary format lays them out.
//!
//! Encoding is specified byte for byte by `spec_encoded_*`; the executable
//! encoder produces exactly those bytes, and the size computation returns
//! exactly their count. Fields holding their default value are omitted;
//! unrecognized fields ride along raw behind the known ones.
use vstd::prelude::*;

use vstd::utf8::encode_utf8;

use crate::geosite::{
    Domain, Domain_Attribute, Domain_Attribute_oneof_typed_value, Domain_Type, SiteGroup,
    SiteGroupList,
};

verus! {

/// The varint form of a value: seven bits per byte, low group first, the
/// continuation bit on every byte but the last.
pub open spec fn spec_varint(n: nat) -> Seq<u8>
    decreases n,
{
    if n < 128 {
        seq![n as u8]
    } else {
        seq![(n % 128 + 128) as u8] + spec_varint(n / 128)
    }
}

/// The key of a field: its number and wire type, varint-coded.
pub open spec fn spec_key(field: nat, wire: nat) -> Seq<u8> {
    spec_varint(field * 8 + wire)
}

/// A length-delimited field: key, byte count, bytes.
pub open spec fn spec_len_delimited(field: nat, payload: Seq<u8>) -> Seq<u8> {
    spec_key(field, 2) + spec_varint(payload.len()) + payload
}

/// A string field, omitted when empty; the payload is the UTF-8 form.
pub open spec fn spec_string_field(field: nat, s: Seq<char>) -> Seq<u8> {
    if encode_utf8(s).len() == 0 {
        Seq::empty()
    } else {
        spec_len_delimited(field, encode_utf8(s))
    }
}

/// The wire form of an attribute: its key, then its typed value — a oneof
/// member is written even when it holds the default — then raw unknown
/// fields.
pub open spec fn spec_encoded_attribute(a: Domain_Attribute) -> Seq<u8> {
    spec_string_field(1, a.key@) + (match a.typed_value {
        Some(Domain_Attribute_oneof_typed_value::bool_value(v)) => spec_key(2, 0) + seq![
            if v {
                1u8
            } else {
                0u8
            },
        ],
        Some(Domain_Attribute_oneof_typed_value::int_value(v)) => spec_key(3, 0) + spec_varint(
            (v as u64) as nat,
        ),
        None => Seq::empty(),
    }) + a.unknown_fields@
}

/// The attributes of a rule, each a length-delimited message field.
pub open spec fn spec_encoded_attributes(s: Seq<Domain_Attribute>) -> Seq<u8>
    decreases s.len(),
{
    if s.len() == 0 {
        Seq::empty()
    } else {
        spec_len_delimited(3, spec_encoded_attribute(s[0])) + spec_encoded_attributes(s.skip(1))
    }
}

/// The wire form of a domain rule: match type (omitted when `Plain`),
/// value, attributes, raw unknown fields.
pub open spec fn spec_encoded_domain(d: Domain) -> Seq<u8> {
    (if d.field_type is Plain {
        Seq::<u8>::empty()
    } else {
        spec_key(1, 0) + spec_varint(d.field_type.spec_value() as nat)
    }) + spec_string_field(2, d.value@) + spec_encoded_attributes(d.attribute@)
        + d.unknown_fields@
}

/// The rules of a group, each a length-delimited message field.
pub open spec fn spec_encoded_domains(s: Seq<Domain>) -> Seq<u8>
    decreases s.len(),
{
    if s.len() == 0 {
        Seq::empty()
    } else {
        spec_len_delimited(2, spec_encoded_domain(s[0])) + spec_encoded_domains(s.skip(1))
    }
}

/// The wire form of a site group: tag, rules, raw unknown fields.
pub open spec fn spec_encoded_site_group(g: SiteGroup) -> Seq<u8> {
    spec_string_field(1, g.tag@) + spec_encoded_domains(g.domain@) + g.unknown_fields@
}

/// The groups of a list, each a length-delimited message field.
pub open spec fn spec_encoded_site_groups(s: Seq<SiteGroup>) -> Seq<u8>
    decreases s.len(),
{
    if s.len() == 0 {
        Seq::empty()
    } else {
        spec_len_delimited(1, spec_encoded_site_group(s[0])) + spec_encoded_site_groups(s.skip(1))
    }
}

/// The wire form of a site group list: groups, raw unknown fields.
pub open spec fn spec_encoded_site_group_list(l: SiteGroupList) -> Seq<u8> {
    spec_encoded_site_groups(l.site_group@) + l.unknown_fields@
}

/// Appends the varint form of a value.
pub fn write_varint(out: &mut Vec<u8>, n: u64)
    ensures
        final(out)@ =~= old(out)@ + spec_varint(n as nat),
    decreases n,
{
    if n < 128 {
        out.push(n as u8);
    } else {
        out.push((n % 128 + 128) as u8);
        write_varint(out, n / 128);
        proof {
            assert(out@ =~= old(out)@ + (seq![((n as nat) % 128 + 128) as u8] + spec_varint(
                (n as nat) / 128,
            )));
        }
    }
}

/// Appends a field key.
fn write_key(out: &mut Vec<u8>, field: u64, wire: u64)
    requires
        field < 1000,
        wire < 8,
    ensures
        final(out)@ =~= old(out)@ + spec_key(field as nat, wire as nat),
{
    write_varint(out, field * 8 + wire);
}

/// Appends a string field, omitting an empty string.
fn write_string_field(out: &mut Vec<u8>, field: u64, s: &str)
    requires
        field < 1000,
    ensures
        final(out)@ =~= old(out)@ + spec_string_field(field as nat, s@),
{
    let bytes = s.as_bytes();
    if bytes.len() == 0 {
        return ;
    }
    write_key(out, field, 2);
    write_varint(out, bytes.len() as u64);
    out.extend_from_slice(bytes);
}

impl Domain_Attribute {
    /// Appends the attribute's wire form.
    pub fn write_to_bytes(&self, out: &mut Vec<u8>)
        ensures
            final(out)@ =~= old(out)@ + spec_encoded_attribute(*self),
    {
        write_string_field(out, 1, self.key.as_str());
        match &self.typed_value {
            Some(Domain_Attribute_oneof_typed_value::bool_value(v)) => {
                write_key(out, 2, 0);
                out.push(if *v {
                    1
                } else {
                    0
                });
            },
            Some(Domain_Attribute_oneof_typed_value::int_value(v)) => {
                write_key(out, 3, 0);
                write_varint(out, *v as u64);
            },
            None => {},
        }
        out.extend_from_slice(self.unknown_fields.as_slice());
    }
}

impl Domain {
    /// Appends the rule's wire form.
    pub fn write_to_bytes(&self, out: &mut Vec<u8>)
        ensures
            final(out)@ =~= old(out)@ + spec_encoded_domain(*self),
    {
        match self.field_type {
            Domain_Type::Plain => {},
            _ => {
                write_key(out, 1, 0);
                write_varint(out, self.field_type.value() as u64);
            },
        }
        write_string_field(out, 2, self.value.as_str());
        let n = self.attribute.len();
        let mut i: usize = 0;
        while i < n
            invariant
                n == self.attribute@.len(),
                i <= n,
                out@ =~= old(out)@ + (if self.field_type is Plain {
                    Seq::<u8>::empty()
                } else {
                    spec_key(1, 0) + spec_varint(self.field_type.spec_value() as nat)
                }) + spec_string_field(2, self.value@) + spec_encoded_attributes(
                    self.attribute@.take(i as int),
                ),
            decreases n - i,
        {
            let mut payload: Vec<u8> = Vec::new();
            self.attribute[i].write_to_bytes(&mut payload);
            write_key(out, 3, 2);
            write_varint(out, payload.len() as u64);
            out.extend_from_slice(payload.as_slice());
            proof {
                lemma_encoded_attributes_snoc(self.attribute@.take(i + 1 as int));
                assert(self.attribute@.take(i + 1 as int).drop_last() =~= self.attribute@.take(
                    i as int,
                ));
                assert(self.attribute@.take(i + 1 as int).last() == self.attribute@[i as int]);
            }
            i += 1;
        }
        proof {
            assert(self.attribute@.take(n as int) =~= self.attribute@);
        }
        out.extend_from_slice(self.unknown_fields.as_slice());
    }
}

impl SiteGroup {
    /// Appends the group's wire form.
    pub fn write_to_bytes(&self, out: &mut Vec<u8>)
        ensures
            final(out)@ =~= old(out)@ + spec_encoded_site_group(*self),
    {
        write_string_field(out, 1, self.tag.as_str());
        let n = self.domain.len();
        let mut i: usize = 0;
        while i < n
            invariant
                n == self.domain@.len(),
                i <= n,
                out@ =~= old(out)@ + spec_string_field(1, self.tag@)
                    + spec_encoded_domains(self.domain@.take(i as int)),
            decreases n - i,
        {
            let mut payload: Vec<u8> = Vec::new();
            self.domain[i].write_to_bytes(&mut payload);
            write_key(out, 2, 2);
            write_varint(out, payload.len() as u64);
            out.extend_from_slice(payload.as_slice());
            proof {
                lemma_encoded_domains_snoc(self.domain@.take(i + 1 as int));
                assert(self.domain@.take(i + 1 as int).drop_last() =~= self.domain@.take(i as int));
                assert(self.domain@.take(i + 1 as int).last() == self.domain@[i as int]);
            }
            i += 1;
        }
        proof {
            assert(self.domain@.take(n as int) =~= self.domain@);
        }
        out.extend_from_slice(self.unknown_fields.as_slice());
    }
}

impl SiteGroupList {
    /// Appends the list's wire form.
    pub fn write_to_bytes(&self, out: &mut Vec<u8>)
        ensures
            final(out)@ =~= old(out)@ + spec_encoded_site_group_list(*self),
    {
        let n = self.site_group.len();
        let mut i: usize = 0;
        while i < n
            invariant
                n == self.site_group@.len(),
                i <= n,
                out@ =~= old(out)@ + spec_encoded_site_groups(self.site_group@.take(i as int)),
            decreases n - i,
        {
            let mut payload: Vec<u8> = Vec::new();
            self.site_group[i].write_to_bytes(&mut payload);
            write_key(out, 1, 2);
            write_varint(out, payload.len() as u64);
            out.extend_from_slice(payload.as_slice());
            proof {
                lemma_encoded_site_groups_snoc(self.site_group@.take(i + 1 as int));
                assert(self.site_group@.take(i + 1 as int).drop_last() =~= self.site_group@.take(
                    i as int,
                ));
                assert(self.site_group@.take(i + 1 as int).last() == self.site_group@[i as int]);
            }
            i += 1;
        }
        proof {
            assert(self.site_group@.take(n as int) =~= self.site_group@);
        }
        out.extend_from_slice(self.unknown_fields.as_slice());
    }
}

fn attribute_size(a: &Domain_Attribute) -> (r: u64)
    requires
        spec_encoded_attribute(*a).len() <= u32::MAX,
    ensures
        r as nat == spec_encoded_attribute(*a).len(),
{
    let key_part = string_field_size(1, a.key.as_str());
    let value_part: u64 = match &a.typed_value {
        Some(Domain_Attribute_oneof_typed_value::bool_value(_)) => {
            let k = key_size(2, 0);
            k + 1
        },
        Some(Domain_Attribute_oneof_typed_value::int_value(v)) => {
            let k = key_size(3, 0);
            k + varint_size(*v as u64)
        },
        None => 0,
    };
    key_part + value_part + a.unknown_fields.len() as u64
}

impl Domain_Attribute {
    /// The attribute's wire size; records it in `cached_size` and touches
    /// nothing else.
    pub fn compute_size(&mut self) -> (r: u32)
        requires
            spec_encoded_attribute(*old(self)).len() <= u32::MAX,
        ensures
            r as nat == spec_encoded_attribute(*old(self)).len(),
            final(self).cached_size == r,
            final(self).key == old(self).key,
            final(self).typed_value == old(self).typed_value,
            final(self).unknown_fields == old(self).unknown_fields,
    {
        let r = attribute_size(self) as u32;
        self.cached_size = r;
        r
    }
}

/// The number of bytes the varint form of a value occupies.
fn varint_size(n: u64) -> (r: u64)
    ensures
        r as nat == spec_varint(n as nat).len(),
        1 <= r <= 10,
    decreases n,
{
    if n < 128 {
        1
    } else {
        proof {
            lemma_varint_len_bound(n as nat);
        }
        1 + varint_size(n / 128)
    }
}

/// A 64-bit value's varint form never exceeds ten bytes.
proof fn lemma_varint_len_bound(n: nat)
    requires
        n <= u64::MAX,
    ensures
        spec_varint(n).len() <= 10,
{
    assert(vstd::arithmetic::power::pow(128, 10) == 1180591620717411303424) by {
        reveal_with_fuel(vstd::arithmetic::power::pow, 11);
    }
    lemma_varint_len_by_magnitude(n, 10);
}

/// A value below 128 to the k-th has a varint form of at most k bytes.
proof fn lemma_varint_len_by_magnitude(n: nat, k: nat)
    requires
        k >= 1,
        n < vstd::arithmetic::power::pow(128, k),
    ensures
        spec_varint(n).len() <= k,
    decreases k,
{
    vstd::arithmetic::power::lemma_pow1(128);
    if n < 128 {
    } else {
        let p = vstd::arithmetic::power::pow(128, (k - 1) as nat);
        vstd::arithmetic::power::lemma_pow_positive(128, (k - 1) as nat);
        vstd::arithmetic::power::lemma_pow_adds(128, 1, (k - 1) as nat);
        assert(vstd::arithmetic::power::pow(128, k) == 128 * p);
        assert(n / 128 < p) by (nonlinear_arith)
            requires
                n < 128 * p,
                p >= 1,
        ;
        lemma_varint_len_by_magnitude(n / 128, (k - 1) as nat);
    }
}

/// The size of a field key.
fn key_size(field: u64, wire: u64) -> (r: u64)
    requires
        field < 1000,
        wire < 8,
    ensures
        r as nat == spec_key(field as nat, wire as nat).len(),
        1 <= r <= 10,
{
    varint_size(field * 8 + wire)
}

/// The size of a string field.
fn string_field_size(field: u64, s: &str) -> (r: u64)
    requires
        field < 1000,
        spec_string_field(field as nat, s@).len() <= u32::MAX,
    ensures
        r as nat == spec_string_field(field as nat, s@).len(),
{
    let bytes = s.as_bytes();
    if bytes.len() == 0 {
        0
    } else {
        let k = key_size(field, 2);
        let v = varint_size(bytes.len() as u64);
        k + v + bytes.len() as u64
    }
}

/// Appending one message to a run of encoded attribute fields encodes the
/// extended run.
proof fn lemma_encoded_attributes_snoc(s: Seq<Domain_Attribute>)
    requires
        s.len() > 0,
    ensures
        spec_encoded_attributes(s) =~= spec_encoded_attributes(s.drop_last())
            + spec_len_delimited(3, spec_encoded_attribute(s.last())),
    decreases s.len(),
{
    if s.len() == 1 {
        assert(s.drop_last() =~= Seq::<Domain_Attribute>::empty());
        assert(s.skip(1) =~= Seq::<Domain_Attribute>::empty());
    } else {
        lemma_encoded_attributes_snoc(s.skip(1));
        assert(s.skip(1).drop_last() =~= s.drop_last().skip(1));
        assert(s.skip(1).last() == s.last());
        assert(s.drop_last()[0] == s[0]);
    }
}

/// Appending one message to a run of encoded rule fields encodes the
/// extended run.
proof fn lemma_encoded_domains_snoc(s: Seq<Domain>)
    requires
        s.len() > 0,
    ensures
        spec_encoded_domains(s) =~= spec_encoded_domains(s.drop_last()) + spec_len_delimited(
            2,
            spec_encoded_domain(s.last()),
        ),
    decreases s.len(),
{
    if s.len() == 1 {
        assert(s.drop_last() =~= Seq::<Domain>::empty());
        assert(s.skip(1) =~= Seq::<Domain>::empty());
    } else {
        lemma_encoded_domains_snoc(s.skip(1));
        assert(s.skip(1).drop_last() =~= s.drop_last().skip(1));
        assert(s.skip(1).last() == s.last());
        assert(s.drop_last()[0] == s[0]);
    }
}

/// Appending one message to a run of encoded group fields encodes the
/// extended run.
proof fn lemma_encoded_site_groups_snoc(s: Seq<SiteGroup>)
    requires
        s.len() > 0,
    ensures
        spec_encoded_site_groups(s) =~= spec_encoded_site_groups(s.drop_last())
            + spec_len_delimited(1, spec_encoded_site_group(s.last())),
    decreases s.len(),
{
    if s.len() == 1 {
        assert(s.drop_last() =~= Seq::<SiteGroup>::empty());
        assert(s.skip(1) =~= Seq::<SiteGroup>::empty());
    } else {
        lemma_encoded_site_groups_snoc(s.skip(1));
        assert(s.skip(1).drop_last() =~= s.drop_last().skip(1));
        assert(s.skip(1).last() == s.last());
        assert(s.drop_last()[0] == s[0]);
    }
}

/// A run of encoded attribute fields splits at any point.
proof fn lemma_attributes_split(s: Seq<Domain_Attribute>, i: int)
    requires
        0 <= i <= s.len(),
    ensures
        spec_encoded_attributes(s) =~= spec_encoded_attributes(s.take(i))
            + spec_encoded_attributes(s.skip(i)),
    decreases i,
{
    if i == 0 {
        assert(s.take(0) =~= Seq::<Domain_Attribute>::empty());
        assert(s.skip(0) =~= s);
    } else {
        lemma_attributes_split(s, i - 1);
        lemma_encoded_attributes_snoc(s.take(i));
        assert(s.take(i).drop_last() =~= s.take(i - 1));
        assert(s.take(i).last() == s[i - 1]);
        assert(s.skip(i - 1)[0] == s[i - 1]);
        assert(s.skip(i - 1).skip(1) =~= s.skip(i));
    }
}

/// A run of encoded rule fields splits at any point.
proof fn lemma_domains_split(s: Seq<Domain>, i: int)
    requires
        0 <= i <= s.len(),
    ensures
        spec_encoded_domains(s) =~= spec_encoded_domains(s.take(i)) + spec_encoded_domains(
            s.skip(i),
        ),
    decreases i,
{
    if i == 0 {
        assert(s.take(0) =~= Seq::<Domain>::empty());
        assert(s.skip(0) =~= s);
    } else {
        lemma_domains_split(s, i - 1);
        lemma_encoded_domains_snoc(s.take(i));
        assert(s.take(i).drop_last() =~= s.take(i - 1));
        assert(s.take(i).last() == s[i - 1]);
        assert(s.skip(i - 1)[0] == s[i - 1]);
        assert(s.skip(i - 1).skip(1) =~= s.skip(i));
    }
}

/// A run of encoded group fields splits at any point.
proof fn lemma_site_groups_split(s: Seq<SiteGroup>, i: int)
    requires
        0 <= i <= s.len(),
    ensures
        spec_encoded_site_groups(s) =~= spec_encoded_site_groups(s.take(i))
            + spec_encoded_site_groups(s.skip(i)),
    decreases i,
{
    if i == 0 {
        assert(s.take(0) =~= Seq::<SiteGroup>::empty());
        assert(s.skip(0) =~= s);
    } else {
        lemma_site_groups_split(s, i - 1);
        lemma_encoded_site_groups_snoc(s.take(i));
        assert(s.take(i).drop_last() =~= s.take(i - 1));
        assert(s.take(i).last() == s[i - 1]);
        assert(s.skip(i - 1)[0] == s[i - 1]);
        assert(s.skip(i - 1).skip(1) =~= s.skip(i));
    }
}

fn domain_size(d: &Domain) -> (r: u64)
    requires
        spec_encoded_domain(*d).len() <= u32::MAX,
    ensures
        r as nat == spec_encoded_domain(*d).len(),
{
    let head: u64 = match d.field_type {
        Domain_Type::Plain => 0,
        _ => {
            let k = key_size(1, 0);
            k + varint_size(d.field_type.value() as u64)
        },
    };
    let vs = string_field_size(2, d.value.as_str());
    let mut acc: u64 = head + vs;
    let ghost prefix: Seq<u8> = (if d.field_type is Plain {
        Seq::<u8>::empty()
    } else {
        spec_key(1, 0) + spec_varint(d.field_type.spec_value() as nat)
    }) + spec_string_field(2, d.value@);
    let n = d.attribute.len();
    let mut i: usize = 0;
    while i < n
        invariant
            n == d.attribute@.len(),
            i <= n,
            spec_encoded_domain(*d).len() <= u32::MAX,
            prefix == (if d.field_type is Plain {
                Seq::<u8>::empty()
            } else {
                spec_key(1, 0) + spec_varint(d.field_type.spec_value() as nat)
            }) + spec_string_field(2, d.value@),
            acc as nat == prefix.len() + spec_encoded_attributes(d.attribute@.take(i as int)).len(),
        decreases n - i,
    {
        proof {
            lemma_attributes_split(d.attribute@, i + 1);
            lemma_encoded_attributes_snoc(d.attribute@.take(i + 1 as int));
            assert(d.attribute@.take(i + 1 as int).drop_last() =~= d.attribute@.take(i as int));
            assert(d.attribute@.take(i + 1 as int).last() == d.attribute@[i as int]);
        }
        let pl = attribute_size(&d.attribute[i]);
        let ks = key_size(3, 2);
        let ls = varint_size(pl);
        acc = acc + ks + ls + pl;
        i += 1;
    }
    proof {
        assert(d.attribute@.take(n as int) =~= d.attribute@);
    }
    acc + d.unknown_fields.len() as u64
}

impl Domain {
    /// The rule's wire size; records it in `cached_size` and touches
    /// nothing else.
    pub fn compute_size(&mut self) -> (r: u32)
        requires
            spec_encoded_domain(*old(self)).len() <= u32::MAX,
        ensures
            r as nat == spec_encoded_domain(*old(self)).len(),
            final(self).cached_size == r,
            final(self).field_type == old(self).field_type,
            final(self).value == old(self).value,
            final(self).attribute == old(self).attribute,
            final(self).unknown_fields == old(self).unknown_fields,
    {
        let r = domain_size(self) as u32;
        self.cached_size = r;
        r
    }
}

fn site_group_size(g: &SiteGroup) -> (r: u64)
    requires
        spec_encoded_site_group(*g).len() <= u32::MAX,
    ensures
        r as nat == spec_encoded_site_group(*g).len(),
{
    let ts = string_field_size(1, g.tag.as_str());
    let mut acc: u64 = ts;
    let n = g.domain.len();
    let mut i: usize = 0;
    while i < n
        invariant
            n == g.domain@.len(),
            i <= n,
            spec_encoded_site_group(*g).len() <= u32::MAX,
            acc as nat == spec_string_field(1, g.tag@).len() + spec_encoded_domains(
                g.domain@.take(i as int),
            ).len(),
        decreases n - i,
    {
        proof {
            lemma_domains_split(g.domain@, i + 1);
            lemma_encoded_domains_snoc(g.domain@.take(i + 1 as int));
            assert(g.domain@.take(i + 1 as int).drop_last() =~= g.domain@.take(i as int));
            assert(g.domain@.take(i + 1 as int).last() == g.domain@[i as int]);
        }
        let pl = domain_size(&g.domain[i]);
        let ks = key_size(2, 2);
        let ls = varint_size(pl);
        acc = acc + ks + ls + pl;
        i += 1;
    }
    proof {
        assert(g.domain@.take(n as int) =~= g.domain@);
    }
    acc + g.unknown_fields.len() as u64
}

impl SiteGroup {
    /// The group's wire size; records it in `cached_size` and touches
    /// nothing else.
    pub fn compute_size(&mut self) -> (r: u32)
        requires
            spec_encoded_site_group(*old(self)).len() <= u32::MAX,
        ensures
            r as nat == spec_encoded_site_group(*old(self)).len(),
            final(self).cached_size == r,
            final(self).tag == old(self).tag,
            final(self).domain == old(self).domain,
            final(self).unknown_fields == old(self).unknown_fields,
    {
        let r = site_group_size(self) as u32;
        self.cached_size = r;
        r
    }
}

impl SiteGroupList {
    /// The list's wire size; records it in `cached_size` and touches
    /// nothing else.
    pub fn compute_size(&mut self) -> (r: u32)
        requires
            spec_encoded_site_group_list(*old(self)).len() <= u32::MAX,
        ensures
            r as nat == spec_encoded_site_group_list(*old(self)).len(),
            final(self).cached_size == r,
            final(self).site_group == old(self).site_group,
            final(self).unknown_fields == old(self).unknown_fields,
    {
        let mut acc: u64 = 0;
        let n = self.site_group.len();
        let mut i: usize = 0;
        while i < n
            invariant
                n == self.site_group@.len(),
                i <= n,
                self.site_group == old(self).site_group,
                self.unknown_fields == old(self).unknown_fields,
                self.cached_size == old(self).cached_size,
                spec_encoded_site_group_list(*old(self)).len() <= u32::MAX,
                acc as nat == spec_encoded_site_groups(
                    self.site_group@.take(i as int),
                ).len(),
            decreases n - i,
        {
            proof {
                lemma_site_groups_split(self.site_group@, i + 1);
                lemma_encoded_site_groups_snoc(self.site_group@.take(i + 1 as int));
                assert(self.site_group@.take(i + 1 as int).drop_last() =~= self.site_group@.take(
                    i as int,
                ));
                assert(self.site_group@.take(i + 1 as int).last() == self.site_group@[i as int]);
            }
            let pl = site_group_size(&self.site_group[i]);
            let ks = key_size(1, 2);
            let ls = varint_size(pl);
            acc = acc + ks + ls + pl;
            i += 1;
        }
        proof {
            assert(self.site_group@.take(n as int) =~= self.site_group@);
        }
        let r = (acc + self.unknown_fields.len() as u64) as u32;
        self.cached_size = r;
        r
    }
}

} // verus!
