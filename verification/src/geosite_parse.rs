//! Decoding of the geosite wire form: merging encoded bytes into a message.
//!
//! `spec_merge_*` defines the decode exactly, field by field: known fields
//! update the message, unrecognized field numbers are skipped by their wire
//! type and their raw bytes kept, and a record is malformed when a key or
//! length runs past the input, a wire type contradicts a known field, a
//! string is not UTF-8, or a varint value does not fit in 64 bits. The
//! executable `merge_from` returns exactly what the specification decodes;
//! on a malformed record it reports the error and, since fields merge as
//! they are read, may leave a partial merge behind.
use vstd::prelude::*;

use vstd::slice::slice_subrange;
use vstd::utf8::{decode_utf8, valid_utf8};

use crate::geosite::{
    Domain, Domain_Attribute, Domain_Attribute_oneof_typed_value, Domain_Type, SiteGroup,
    SiteGroupList,
};
use crate::geosite_wire::{
    spec_encoded_attribute, spec_encoded_attributes, spec_encoded_domain, spec_key,
    spec_len_delimited, spec_string_field, spec_varint,
};
use crate::text::utf8_to_string;
use vstd::utf8::{encode_utf8, encode_utf8_decode_utf8, encode_utf8_valid_utf8};

verus! {

/// A malformed wire record.
#[derive(Clone, Copy, PartialEq, Eq, Structural, Debug)]
pub struct WireError;

/// The mathematical content of an attribute.
#[verifier::ext_equal]
pub ghost struct AttributeModel {
    pub key: Seq<char>,
    pub typed_value: Option<Domain_Attribute_oneof_typed_value>,
    pub unknown_fields: Seq<u8>,
}

/// The mathematical content of a domain rule.
#[verifier::ext_equal]
pub ghost struct DomainModel {
    pub field_type: Domain_Type,
    pub value: Seq<char>,
    pub attribute: Seq<AttributeModel>,
    pub unknown_fields: Seq<u8>,
}

/// The mathematical content of a site group.
#[verifier::ext_equal]
pub ghost struct SiteGroupModel {
    pub tag: Seq<char>,
    pub domain: Seq<DomainModel>,
    pub unknown_fields: Seq<u8>,
}

/// The mathematical content of a site group list.
#[verifier::ext_equal]
pub ghost struct SiteGroupListModel {
    pub site_group: Seq<SiteGroupModel>,
    pub unknown_fields: Seq<u8>,
}

impl Domain_Attribute {
    /// The attribute's content. The cached size carries no content.
    pub open spec fn model(&self) -> AttributeModel {
        AttributeModel {
            key: self.key@,
            typed_value: self.typed_value,
            unknown_fields: self.unknown_fields@,
        }
    }
}

impl Domain {
    /// The rule's content.
    pub open spec fn model(&self) -> DomainModel {
        DomainModel {
            field_type: self.field_type,
            value: self.value@,
            attribute: self.attribute@.map(|_i: int, a: Domain_Attribute| a.model()),
            unknown_fields: self.unknown_fields@,
        }
    }
}

impl SiteGroup {
    /// The group's content.
    pub open spec fn model(&self) -> SiteGroupModel {
        SiteGroupModel {
            tag: self.tag@,
            domain: self.domain@.map(|_i: int, d: Domain| d.model()),
            unknown_fields: self.unknown_fields@,
        }
    }
}

impl SiteGroupList {
    /// The list's content.
    pub open spec fn model(&self) -> SiteGroupListModel {
        SiteGroupListModel {
            site_group: self.site_group@.map(|_i: int, g: SiteGroup| g.model()),
            unknown_fields: self.unknown_fields@,
        }
    }
}

/// Reads the varint starting at `i`: its value and the position after it.
pub open spec fn spec_read_varint(b: Seq<u8>, i: int) -> Option<(nat, int)>
    decreases b.len() - i,
{
    if i < 0 || i >= b.len() {
        None
    } else if b[i] < 128 {
        Some((b[i] as nat, i + 1))
    } else {
        match spec_read_varint(b, i + 1) {
            None => None,
            Some((v, j)) => Some(((b[i] - 128) as nat + 128 * v, j)),
        }
    }
}

/// A read varint ends after where it began and inside the input.
pub proof fn lemma_read_varint_advances(b: Seq<u8>, i: int)
    ensures
        spec_read_varint(b, i) matches Some((v, j)) ==> i < j <= b.len(),
    decreases b.len() - i,
{
    if 0 <= i < b.len() && b[i] >= 128 {
        lemma_read_varint_advances(b, i + 1);
    }
}

/// The position after an unrecognized field whose key ended at `j`, by its
/// wire type: a varint, eight bytes, a counted run, or four bytes. Groups
/// and unassigned wire types make the record malformed.
pub open spec fn spec_skip_field(b: Seq<u8>, j: int, wire: nat) -> Option<int> {
    if wire == 0 {
        match spec_read_varint(b, j) {
            None => None,
            Some((v, k)) => if v <= u64::MAX {
                Some(k)
            } else {
                None
            },
        }
    } else if wire == 1 {
        if j + 8 <= b.len() {
            Some(j + 8)
        } else {
            None
        }
    } else if wire == 2 {
        match spec_read_varint(b, j) {
            None => None,
            Some((len, k)) => if len <= u64::MAX && k + len <= b.len() {
                Some(k + len)
            } else {
                None
            },
        }
    } else if wire == 5 {
        if j + 4 <= b.len() {
            Some(j + 4)
        } else {
            None
        }
    } else {
        None
    }
}

/// A skipped field ends after its key and inside the input.
pub proof fn lemma_skip_field_advances(b: Seq<u8>, j: int, wire: nat)
    requires
        0 <= j,
    ensures
        spec_skip_field(b, j, wire) matches Some(k) ==> j < k <= b.len(),
{
    lemma_read_varint_advances(b, j);
}

/// Decodes attribute fields from position `i` on into the model.
pub open spec fn spec_merge_attribute(m: AttributeModel, b: Seq<u8>, i: int) -> Result<
    AttributeModel,
    (),
>
    decreases b.len() - i,
    via spec_merge_attribute_decreases
{
    if i == b.len() {
        Ok(m)
    } else if i < 0 || i > b.len() {
        Err(())
    } else {
        match spec_read_varint(b, i) {
            None => Err(()),
            Some((key, j)) => {
                if key > u64::MAX {
                    Err(())
                } else {
                    let field = key / 8;
                    let wire = key % 8;
                    if field == 1 {
                        if wire != 2 {
                            Err(())
                        } else {
                            match spec_read_varint(b, j) {
                                None => Err(()),
                                Some((len, k)) => {
                                    if len > u64::MAX || k + len > b.len() {
                                        Err(())
                                    } else if !valid_utf8(b.subrange(k, k + len)) {
                                        Err(())
                                    } else {
                                        spec_merge_attribute(
                                            AttributeModel {
                                                key: decode_utf8(b.subrange(k, k + len)),
                                                ..m
                                            },
                                            b,
                                            k + len,
                                        )
                                    }
                                },
                            }
                        }
                    } else if field == 2 {
                        if wire != 0 {
                            Err(())
                        } else {
                            match spec_read_varint(b, j) {
                                None => Err(()),
                                Some((v, k)) => {
                                    if v > u64::MAX {
                                        Err(())
                                    } else {
                                        spec_merge_attribute(
                                            AttributeModel {
                                                typed_value: Some(
                                                    Domain_Attribute_oneof_typed_value::bool_value(
                                                        v != 0,
                                                    ),
                                                ),
                                                ..m
                                            },
                                            b,
                                            k,
                                        )
                                    }
                                },
                            }
                        }
                    } else if field == 3 {
                        if wire != 0 {
                            Err(())
                        } else {
                            match spec_read_varint(b, j) {
                                None => Err(()),
                                Some((v, k)) => {
                                    if v > u64::MAX {
                                        Err(())
                                    } else {
                                        spec_merge_attribute(
                                            AttributeModel {
                                                typed_value: Some(
                                                    Domain_Attribute_oneof_typed_value::int_value(
                                                        (v as u64) as i64,
                                                    ),
                                                ),
                                                ..m
                                            },
                                            b,
                                            k,
                                        )
                                    }
                                },
                            }
                        }
                    } else if field == 0 {
                        Err(())
                    } else {
                        match spec_skip_field(b, j, wire) {
                            None => Err(()),
                            Some(end) => spec_merge_attribute(
                                AttributeModel {
                                    unknown_fields: m.unknown_fields + b.subrange(i, end),
                                    ..m
                                },
                                b,
                                end,
                            ),
                        }
                    }
                }
            },
        }
    }
}

#[via_fn]
proof fn spec_merge_attribute_decreases(m: AttributeModel, b: Seq<u8>, i: int) {
    lemma_read_varint_advances(b, i);
    if 0 <= i < b.len() {
        if let Some((key, j)) = spec_read_varint(b, i) {
            lemma_read_varint_advances(b, j);
            lemma_skip_field_advances(b, j, key % 8);
        }
    }
}

/// Reads the varint starting at `i`, when it fits 64 bits.
fn read_varint(b: &[u8], i: usize) -> (r: Option<(u64, usize)>)
    requires
        i <= b@.len(),
    ensures
        r matches Some((v, j)) ==> spec_read_varint(b@, i as int) == Some((v as nat, j as int)) && i
            < j <= b@.len(),
        r is None ==> (spec_read_varint(b@, i as int) is None || (spec_read_varint(
            b@,
            i as int,
        ) matches Some((v, _j)) && v > u64::MAX)),
    decreases b@.len() - i,
{
    if i == b.len() {
        return None;
    }
    let byte = *vstd::slice::slice_index_get(b, i);
    if byte < 128 {
        return Some((byte as u64, i + 1));
    }
    match read_varint(b, i + 1) {
        None => None,
        Some((v, j)) => {
            let d = (byte - 128) as u64;
            if v <= (u64::MAX - d) / 128 {
                Some((d + 128 * v, j))
            } else {
                None
            }
        },
    }
}

/// Skips an unrecognized field whose key ended at `j`.
fn skip_field(b: &[u8], j: usize, wire: u64) -> (r: Option<usize>)
    requires
        j <= b@.len(),
    ensures
        r matches Some(k) ==> spec_skip_field(b@, j as int, wire as nat) == Some(k as int) && j < k
            <= b@.len(),
        r is None ==> spec_skip_field(b@, j as int, wire as nat) is None,
{
    proof {
        lemma_read_varint_advances(b@, j as int);
    }
    if wire == 0 {
        match read_varint(b, j) {
            Some((_v, k)) => Some(k),
            None => None,
        }
    } else if wire == 1 {
        if b.len() - j >= 8 {
            Some(j + 8)
        } else {
            None
        }
    } else if wire == 2 {
        match read_varint(b, j) {
            Some((len, k)) => {
                if len <= (b.len() - k) as u64 {
                    Some(k + len as usize)
                } else {
                    None
                }
            },
            None => None,
        }
    } else if wire == 5 {
        if b.len() - j >= 4 {
            Some(j + 4)
        } else {
            None
        }
    } else {
        None
    }
}

impl Domain_Attribute {
    /// Merges the wire form in `b` into the attribute. Decodes exactly what
    /// `spec_merge_attribute` says; a malformed record reports the error
    /// and may leave a partial merge behind.
    pub fn merge_from(&mut self, b: &[u8]) -> (r: Result<(), WireError>)
        ensures
            r is Ok ==> spec_merge_attribute(old(self).model(), b@, 0) == Ok::<AttributeModel, ()>(
                final(self).model(),
            ),
            (r is Err) <==> (spec_merge_attribute(old(self).model(), b@, 0) is Err),
    {
        let n = b.len();
        let mut i: usize = 0;
        while i < n
            invariant
                n == b@.len(),
                i <= n,
                spec_merge_attribute(old(self).model(), b@, 0) == spec_merge_attribute(
                    self.model(),
                    b@,
                    i as int,
                ),
            decreases n - i,
        {
            let ghost m_pre = self.model();
            let ghost i_pre = i as int;
            let (key, j) = match read_varint(b, i) {
                Some(kj) => kj,
                None => {
                    proof {
                        assert(spec_merge_attribute(m_pre, b@, i_pre) is Err);
                    }
                    return Err(WireError);
                },
            };
            let field = key / 8;
            let wire = key % 8;
            if field == 1 {
                if wire != 2 {
                    proof {
                        assert(spec_merge_attribute(m_pre, b@, i_pre) is Err);
                    }
                    return Err(WireError);
                }
                let (len, k) = match read_varint(b, j) {
                    Some(x) => x,
                    None => {
                        proof {
                            assert(spec_merge_attribute(m_pre, b@, i_pre) is Err);
                        }
                        return Err(WireError);
                    },
                };
                if len > (n - k) as u64 {
                    proof {
                        assert(spec_merge_attribute(m_pre, b@, i_pre) is Err);
                    }
                    return Err(WireError);
                }
                let len_us = len as usize;
                let payload = slice_subrange(b, k, k + len_us);
                match utf8_to_string(payload) {
                    Some(s) => {
                        self.key = s;
                        i = k + len_us;
                        proof {
                            assert(spec_merge_attribute(m_pre, b@, i_pre) == spec_merge_attribute(
                                self.model(),
                                b@,
                                i as int,
                            ));
                        }
                    },
                    None => {
                        proof {
                            assert(spec_merge_attribute(m_pre, b@, i_pre) is Err);
                        }
                        return Err(WireError);
                    },
                }
            } else if field == 2 {
                if wire != 0 {
                    proof {
                        assert(spec_merge_attribute(m_pre, b@, i_pre) is Err);
                    }
                    return Err(WireError);
                }
                let (v, k) = match read_varint(b, j) {
                    Some(x) => x,
                    None => {
                        proof {
                            assert(spec_merge_attribute(m_pre, b@, i_pre) is Err);
                        }
                        return Err(WireError);
                    },
                };
                self.typed_value = Some(Domain_Attribute_oneof_typed_value::bool_value(v != 0));
                i = k;
                proof {
                    assert(spec_merge_attribute(m_pre, b@, i_pre) == spec_merge_attribute(
                        self.model(),
                        b@,
                        i as int,
                    ));
                }
            } else if field == 3 {
                if wire != 0 {
                    proof {
                        assert(spec_merge_attribute(m_pre, b@, i_pre) is Err);
                    }
                    return Err(WireError);
                }
                let (v, k) = match read_varint(b, j) {
                    Some(x) => x,
                    None => {
                        proof {
                            assert(spec_merge_attribute(m_pre, b@, i_pre) is Err);
                        }
                        return Err(WireError);
                    },
                };
                self.typed_value = Some(
                    Domain_Attribute_oneof_typed_value::int_value(#[verifier::truncate] (v as i64)),
                );
                i = k;
                proof {
                    assert(spec_merge_attribute(m_pre, b@, i_pre) == spec_merge_attribute(
                        self.model(),
                        b@,
                        i as int,
                    ));
                }
            } else if field == 0 {
                proof {
                    assert(spec_merge_attribute(m_pre, b@, i_pre) is Err);
                }
                return Err(WireError);
            } else {
                let end = match skip_field(b, j, wire) {
                    Some(e) => e,
                    None => {
                        proof {
                            assert(spec_merge_attribute(m_pre, b@, i_pre) is Err);
                        }
                        return Err(WireError);
                    },
                };
                let raw = slice_subrange(b, i, end);
                self.unknown_fields.extend_from_slice(raw);
                i = end;
                proof {
                    assert(self.model().unknown_fields =~= m_pre.unknown_fields + b@.subrange(
                        i_pre,
                        i as int,
                    ));
                    assert(spec_merge_attribute(m_pre, b@, i_pre) == spec_merge_attribute(
                        self.model(),
                        b@,
                        i as int,
                    ));
                }
            }
        }
        Ok(())
    }
}

/// The content of a fresh attribute, which a nested decode starts from.
pub open spec fn empty_attribute_model() -> AttributeModel {
    AttributeModel { key: Seq::empty(), typed_value: None, unknown_fields: Seq::empty() }
}

/// The content of a fresh rule, which a nested decode starts from.
pub open spec fn empty_domain_model() -> DomainModel {
    DomainModel {
        field_type: Domain_Type::Plain,
        value: Seq::empty(),
        attribute: Seq::empty(),
        unknown_fields: Seq::empty(),
    }
}

/// The content of a fresh group, which a nested decode starts from.
pub open spec fn empty_site_group_model() -> SiteGroupModel {
    SiteGroupModel { tag: Seq::empty(), domain: Seq::empty(), unknown_fields: Seq::empty() }
}

/// Decodes domain-rule fields from position `i` on into the model. An enum
/// value outside the known range is kept as an unknown field.
pub open spec fn spec_merge_domain(m: DomainModel, b: Seq<u8>, i: int) -> Result<DomainModel, ()>
    decreases b.len() - i,
    via spec_merge_domain_decreases
{
    if i == b.len() {
        Ok(m)
    } else if i < 0 || i > b.len() {
        Err(())
    } else {
        match spec_read_varint(b, i) {
            None => Err(()),
            Some((key, j)) => {
                if key > u64::MAX {
                    Err(())
                } else {
                    let field = key / 8;
                    let wire = key % 8;
                    if field == 1 {
                        if wire != 0 {
                            Err(())
                        } else {
                            match spec_read_varint(b, j) {
                                None => Err(()),
                                Some((v, k)) => {
                                    if v > u64::MAX {
                                        Err(())
                                    } else {
                                        match Domain_Type::spec_from_i32(
                                            ((v as u64) as u32) as i32,
                                        ) {
                                            Some(t) => spec_merge_domain(
                                                DomainModel { field_type: t, ..m },
                                                b,
                                                k,
                                            ),
                                            None => spec_merge_domain(
                                                DomainModel {
                                                    unknown_fields: m.unknown_fields + b.subrange(
                                                        i,
                                                        k,
                                                    ),
                                                    ..m
                                                },
                                                b,
                                                k,
                                            ),
                                        }
                                    }
                                },
                            }
                        }
                    } else if field == 2 {
                        if wire != 2 {
                            Err(())
                        } else {
                            match spec_read_varint(b, j) {
                                None => Err(()),
                                Some((len, k)) => {
                                    if len > u64::MAX || k + len > b.len() {
                                        Err(())
                                    } else if !valid_utf8(b.subrange(k, k + len)) {
                                        Err(())
                                    } else {
                                        spec_merge_domain(
                                            DomainModel {
                                                value: decode_utf8(b.subrange(k, k + len)),
                                                ..m
                                            },
                                            b,
                                            k + len,
                                        )
                                    }
                                },
                            }
                        }
                    } else if field == 3 {
                        if wire != 2 {
                            Err(())
                        } else {
                            match spec_read_varint(b, j) {
                                None => Err(()),
                                Some((len, k)) => {
                                    if len > u64::MAX || k + len > b.len() {
                                        Err(())
                                    } else {
                                        match spec_merge_attribute(
                                            empty_attribute_model(),
                                            b.subrange(k, k + len),
                                            0,
                                        ) {
                                            Err(_) => Err(()),
                                            Ok(am) => spec_merge_domain(
                                                DomainModel {
                                                    attribute: m.attribute.push(am),
                                                    ..m
                                                },
                                                b,
                                                k + len,
                                            ),
                                        }
                                    }
                                },
                            }
                        }
                    } else if field == 0 {
                        Err(())
                    } else {
                        match spec_skip_field(b, j, wire) {
                            None => Err(()),
                            Some(end) => spec_merge_domain(
                                DomainModel {
                                    unknown_fields: m.unknown_fields + b.subrange(i, end),
                                    ..m
                                },
                                b,
                                end,
                            ),
                        }
                    }
                }
            },
        }
    }
}

#[via_fn]
proof fn spec_merge_domain_decreases(m: DomainModel, b: Seq<u8>, i: int) {
    lemma_read_varint_advances(b, i);
    if 0 <= i < b.len() {
        if let Some((key, j)) = spec_read_varint(b, i) {
            lemma_read_varint_advances(b, j);
            lemma_skip_field_advances(b, j, key % 8);
        }
    }
}

/// Decodes site-group fields from position `i` on into the model.
pub open spec fn spec_merge_site_group(m: SiteGroupModel, b: Seq<u8>, i: int) -> Result<
    SiteGroupModel,
    (),
>
    decreases b.len() - i,
    via spec_merge_site_group_decreases
{
    if i == b.len() {
        Ok(m)
    } else if i < 0 || i > b.len() {
        Err(())
    } else {
        match spec_read_varint(b, i) {
            None => Err(()),
            Some((key, j)) => {
                if key > u64::MAX {
                    Err(())
                } else {
                    let field = key / 8;
                    let wire = key % 8;
                    if field == 1 {
                        if wire != 2 {
                            Err(())
                        } else {
                            match spec_read_varint(b, j) {
                                None => Err(()),
                                Some((len, k)) => {
                                    if len > u64::MAX || k + len > b.len() {
                                        Err(())
                                    } else if !valid_utf8(b.subrange(k, k + len)) {
                                        Err(())
                                    } else {
                                        spec_merge_site_group(
                                            SiteGroupModel {
                                                tag: decode_utf8(b.subrange(k, k + len)),
                                                ..m
                                            },
                                            b,
                                            k + len,
                                        )
                                    }
                                },
                            }
                        }
                    } else if field == 2 {
                        if wire != 2 {
                            Err(())
                        } else {
                            match spec_read_varint(b, j) {
                                None => Err(()),
                                Some((len, k)) => {
                                    if len > u64::MAX || k + len > b.len() {
                                        Err(())
                                    } else {
                                        match spec_merge_domain(
                                            empty_domain_model(),
                                            b.subrange(k, k + len),
                                            0,
                                        ) {
                                            Err(_) => Err(()),
                                            Ok(dm) => spec_merge_site_group(
                                                SiteGroupModel { domain: m.domain.push(dm), ..m },
                                                b,
                                                k + len,
                                            ),
                                        }
                                    }
                                },
                            }
                        }
                    } else if field == 0 {
                        Err(())
                    } else {
                        match spec_skip_field(b, j, wire) {
                            None => Err(()),
                            Some(end) => spec_merge_site_group(
                                SiteGroupModel {
                                    unknown_fields: m.unknown_fields + b.subrange(i, end),
                                    ..m
                                },
                                b,
                                end,
                            ),
                        }
                    }
                }
            },
        }
    }
}

#[via_fn]
proof fn spec_merge_site_group_decreases(m: SiteGroupModel, b: Seq<u8>, i: int) {
    lemma_read_varint_advances(b, i);
    if 0 <= i < b.len() {
        if let Some((key, j)) = spec_read_varint(b, i) {
            lemma_read_varint_advances(b, j);
            lemma_skip_field_advances(b, j, key % 8);
        }
    }
}

/// Decodes site-group-list fields from position `i` on into the model.
pub open spec fn spec_merge_site_group_list(m: SiteGroupListModel, b: Seq<u8>, i: int) -> Result<
    SiteGroupListModel,
    (),
>
    decreases b.len() - i,
    via spec_merge_site_group_list_decreases
{
    if i == b.len() {
        Ok(m)
    } else if i < 0 || i > b.len() {
        Err(())
    } else {
        match spec_read_varint(b, i) {
            None => Err(()),
            Some((key, j)) => {
                if key > u64::MAX {
                    Err(())
                } else {
                    let field = key / 8;
                    let wire = key % 8;
                    if field == 1 {
                        if wire != 2 {
                            Err(())
                        } else {
                            match spec_read_varint(b, j) {
                                None => Err(()),
                                Some((len, k)) => {
                                    if len > u64::MAX || k + len > b.len() {
                                        Err(())
                                    } else {
                                        match spec_merge_site_group(
                                            empty_site_group_model(),
                                            b.subrange(k, k + len),
                                            0,
                                        ) {
                                            Err(_) => Err(()),
                                            Ok(gm) => spec_merge_site_group_list(
                                                SiteGroupListModel {
                                                    site_group: m.site_group.push(gm),
                                                    ..m
                                                },
                                                b,
                                                k + len,
                                            ),
                                        }
                                    }
                                },
                            }
                        }
                    } else if field == 0 {
                        Err(())
                    } else {
                        match spec_skip_field(b, j, wire) {
                            None => Err(()),
                            Some(end) => spec_merge_site_group_list(
                                SiteGroupListModel {
                                    unknown_fields: m.unknown_fields + b.subrange(i, end),
                                    ..m
                                },
                                b,
                                end,
                            ),
                        }
                    }
                }
            },
        }
    }
}

#[via_fn]
proof fn spec_merge_site_group_list_decreases(m: SiteGroupListModel, b: Seq<u8>, i: int) {
    lemma_read_varint_advances(b, i);
    if 0 <= i < b.len() {
        if let Some((key, j)) = spec_read_varint(b, i) {
            lemma_read_varint_advances(b, j);
            lemma_skip_field_advances(b, j, key % 8);
        }
    }
}

/// Reading back a varint its writer laid down yields the value and ends
/// right after it.
proof fn lemma_varint_roundtrip(b: Seq<u8>, i: int, n: nat)
    requires
        0 <= i,
        i + spec_varint(n).len() <= b.len(),
        b.subrange(i, i + spec_varint(n).len()) =~= spec_varint(n),
    ensures
        spec_read_varint(b, i) == Some((n, i + spec_varint(n).len())),
    decreases n,
{
    if n < 128 {
        assert(b[i] == spec_varint(n)[0]);
    } else {
        let tail = spec_varint(n / 128);
        assert(spec_varint(n) =~= seq![(n % 128 + 128) as u8] + tail);
        assert(b.subrange(i, i + spec_varint(n).len())[0] == spec_varint(n)[0]);
        assert(b[i] == (n % 128 + 128) as u8);
        assert(b.subrange(i + 1, i + 1 + tail.len()) =~= tail) by {
            assert forall|k: int| 0 <= k < tail.len() implies b.subrange(
                i + 1,
                i + 1 + tail.len(),
            )[k] == tail[k] by {
                assert(b.subrange(i, i + spec_varint(n).len())[k + 1] == spec_varint(n)[k + 1]);
            }
        }
        lemma_varint_roundtrip(b, i + 1, n / 128);
        assert((n % 128) + 128 * (n / 128) == n);
    }
}

/// Decoding inverts encoding for one attribute: the bytes its writer lays
/// down for an attribute without unknown fields decode, from a fresh
/// attribute, to exactly its content.
#[verifier::rlimit(50)]
pub proof fn lemma_attribute_wire_round_trip(a: Domain_Attribute, b: Seq<u8>, i: int)
    requires
        0 <= i <= b.len(),
        a.unknown_fields@ =~= Seq::<u8>::empty(),
        encode_utf8(a.key@).len() <= u64::MAX,
        b.subrange(i, b.len() as int) =~= spec_encoded_attribute(a),
    ensures
        spec_merge_attribute(empty_attribute_model(), b, i) == Ok::<AttributeModel, ()>(a.model()),
{
    let m0 = empty_attribute_model();
    let enc = spec_encoded_attribute(a);
    let strf = spec_string_field(1, a.key@);
    let kb = encode_utf8(a.key@);
    let typedf = match a.typed_value {
        Some(Domain_Attribute_oneof_typed_value::bool_value(v)) => spec_key(2, 0) + seq![
            if v {
                1u8
            } else {
                0u8
            },
        ],
        Some(Domain_Attribute_oneof_typed_value::int_value(v)) => spec_key(3, 0) + spec_varint(
            (v as u64) as nat,
        ),
        None => Seq::<u8>::empty(),
    };
    assert(enc =~= strf + typedf);
    let i2 = i + strf.len();
    let m1 = AttributeModel { key: a.key@, ..m0 };

    // The key field, when the key is not empty, decodes back to the key.
    if kb.len() == 0 {
        assert(a.key@.len() == 0) by {
            if a.key@.len() > 0 {
                encode_utf8_valid_utf8(a.key@);
                assert(encode_utf8(a.key@) =~= vstd::utf8::encode_scalar(a.key@[0] as u32)
                    + encode_utf8(a.key@.drop_first()));
                assert(vstd::utf8::encode_scalar(a.key@[0] as u32).len() >= 1);
            }
        }
        assert(strf =~= Seq::<u8>::empty());
        assert(m0 =~= m1);
    } else {
        assert(strf =~= spec_key(1, 2) + spec_varint(kb.len()) + kb);
        assert(spec_key(1, 2) =~= seq![10u8]);
        assert(b.subrange(i, i + 1) =~= spec_varint(10));
        lemma_varint_roundtrip(b, i, 10);
        let j = i + 1;
        assert(b.subrange(j, j + spec_varint(kb.len()).len()) =~= spec_varint(kb.len())) by {
            assert forall|k: int| 0 <= k < spec_varint(kb.len()).len() implies b.subrange(
                j,
                j + spec_varint(kb.len()).len(),
            )[k] == spec_varint(kb.len())[k] by {
                assert(b.subrange(i, b.len() as int)[k + 1] == enc[k + 1]);
            }
        }
        lemma_varint_roundtrip(b, j, kb.len());
        let k2 = j + spec_varint(kb.len()).len();
        assert(b.subrange(k2, k2 + kb.len()) =~= kb) by {
            assert forall|k: int| 0 <= k < kb.len() implies b.subrange(k2, k2 + kb.len())[k]
                == kb[k] by {
                assert(b.subrange(i, b.len() as int)[k2 - i + k] == enc[k2 - i + k]);
            }
        }
        encode_utf8_valid_utf8(a.key@);
        encode_utf8_decode_utf8(a.key@);
        assert(spec_merge_attribute(m0, b, i) == spec_merge_attribute(m1, b, i2));
    }

    // The typed value, when present, decodes back to the value.
    match a.typed_value {
        None => {
            assert(i2 == b.len());
            assert(m1 =~= a.model());
        },
        Some(Domain_Attribute_oneof_typed_value::bool_value(v)) => {
            assert(spec_key(2, 0) =~= seq![16u8]);
            assert(b.subrange(i2, i2 + 1) =~= spec_varint(16)) by {
                assert(b.subrange(i, b.len() as int)[i2 - i] == enc[i2 - i]);
            }
            lemma_varint_roundtrip(b, i2, 16);
            let vb: u8 = if v {
                1u8
            } else {
                0u8
            };
            assert(b.subrange(i2 + 1, i2 + 2) =~= spec_varint(vb as nat)) by {
                assert(b.subrange(i, b.len() as int)[i2 + 1 - i] == enc[i2 + 1 - i]);
            }
            lemma_varint_roundtrip(b, i2 + 1, vb as nat);
            assert(i2 + 2 == b.len());
            assert(spec_merge_attribute(m1, b, i2) == spec_merge_attribute(
                AttributeModel {
                    typed_value: Some(Domain_Attribute_oneof_typed_value::bool_value(vb != 0)),
                    ..m1
                },
                b,
                i2 + 2,
            ));
            assert(AttributeModel {
                typed_value: Some(Domain_Attribute_oneof_typed_value::bool_value(vb != 0)),
                ..m1
            } =~= a.model());
        },
        Some(Domain_Attribute_oneof_typed_value::int_value(v)) => {
            let n = (v as u64) as nat;
            assert(spec_key(3, 0) =~= seq![24u8]);
            assert(b.subrange(i2, i2 + 1) =~= spec_varint(24)) by {
                assert(b.subrange(i, b.len() as int)[i2 - i] == enc[i2 - i]);
            }
            lemma_varint_roundtrip(b, i2, 24);
            assert(b.subrange(i2 + 1, i2 + 1 + spec_varint(n).len()) =~= spec_varint(n)) by {
                assert forall|k: int| 0 <= k < spec_varint(n).len() implies b.subrange(
                    i2 + 1,
                    i2 + 1 + spec_varint(n).len(),
                )[k] == spec_varint(n)[k] by {
                    assert(b.subrange(i, b.len() as int)[i2 + 1 - i + k] == enc[i2 + 1 - i + k]);
                }
            }
            lemma_varint_roundtrip(b, i2 + 1, n);
            assert(i2 + 1 + spec_varint(n).len() == b.len());
            assert(((n as u64) as i64) == v) by {
                assert((v as u64) as i64 == v) by (bit_vector);
            }
            assert(spec_merge_attribute(m1, b, i2) == spec_merge_attribute(
                AttributeModel {
                    typed_value: Some(
                        Domain_Attribute_oneof_typed_value::int_value((n as u64) as i64),
                    ),
                    ..m1
                },
                b,
                b.len() as int,
            ));
            assert(AttributeModel {
                typed_value: Some(Domain_Attribute_oneof_typed_value::int_value((n as u64) as i64)),
                ..m1
            } =~= a.model());
        },
    }
}

/// A chunk sitting at offset `off` of a byte run laid down at `i` sits at
/// `i + off` of the buffer.
proof fn lemma_subrange_chunk(b: Seq<u8>, i: int, whole: Seq<u8>, off: int, part: Seq<u8>)
    requires
        0 <= i,
        i + whole.len() <= b.len(),
        b.subrange(i, i + whole.len()) =~= whole,
        0 <= off,
        off + part.len() <= whole.len(),
        whole.subrange(off, off + part.len()) =~= part,
    ensures
        b.subrange(i + off, i + off + part.len()) =~= part,
{
    assert forall|k: int| 0 <= k < part.len() implies b.subrange(
        i + off,
        i + off + part.len(),
    )[k] == part[k] by {
        assert(b.subrange(i, i + whole.len())[off + k] == whole[off + k]);
        assert(whole.subrange(off, off + part.len())[k] == part[k]);
    }
}

/// Every attribute of the run is clean and small enough to lay down and
/// read back: no unknown fields, and its texts and encoding fit the wire's
/// counters.
pub open spec fn attribute_run_clean(s: Seq<Domain_Attribute>) -> bool {
    forall|j: int|
        0 <= j < s.len() ==> (#[trigger] s[j]).unknown_fields@ =~= Seq::<u8>::empty()
            && encode_utf8(s[j].key@).len() <= u64::MAX && spec_encoded_attribute(s[j]).len()
            <= u64::MAX
}

/// Decoding a run of encoded attribute fields appends their contents, in
/// order, to the rule under construction.
#[verifier::rlimit(50)]
proof fn lemma_parse_attribute_run(m: DomainModel, s: Seq<Domain_Attribute>, b: Seq<u8>, i: int)
    requires
        0 <= i <= b.len(),
        b.subrange(i, b.len() as int) =~= spec_encoded_attributes(s),
        attribute_run_clean(s),
    ensures
        spec_merge_domain(m, b, i) == Ok::<DomainModel, ()>(
            DomainModel {
                attribute: m.attribute + s.map(|_j: int, a: Domain_Attribute| a.model()),
                ..m
            },
        ),
    decreases s.len(),
{
    let f = |_j: int, a: Domain_Attribute| a.model();
    if s.len() == 0 {
        assert(i == b.len());
        assert(DomainModel { attribute: m.attribute + s.map(f), ..m } =~= m);
    } else {
        let a0 = s[0];
        let payload = spec_encoded_attribute(a0);
        let lv = spec_varint(payload.len());
        let delim = spec_len_delimited(3, payload);
        let whole = spec_encoded_attributes(s);
        assert(spec_key(3, 2) =~= seq![26u8]);
        assert(whole =~= delim + spec_encoded_attributes(s.skip(1)));
        assert(delim =~= seq![26u8] + lv + payload);

        lemma_subrange_chunk(b, i, whole, 0, spec_varint(26));
        lemma_varint_roundtrip(b, i, 26);
        lemma_subrange_chunk(b, i, whole, 1, lv);
        lemma_varint_roundtrip(b, i + 1, payload.len());
        let k = i + 1 + lv.len();
        lemma_subrange_chunk(b, i, whole, 1 + lv.len() as int, payload);
        let sub = b.subrange(k, k + payload.len());
        assert(sub.subrange(0, sub.len() as int) =~= sub);
        lemma_attribute_wire_round_trip(a0, sub, 0);

        let m1 = DomainModel { attribute: m.attribute.push(a0.model()), ..m };
        assert(spec_merge_domain(m, b, i) == spec_merge_domain(m1, b, k + payload.len()));

        let rest = spec_encoded_attributes(s.skip(1));
        assert(b.subrange(k + payload.len(), b.len() as int) =~= rest) by {
            assert forall|t: int| 0 <= t < rest.len() implies b.subrange(
                k + payload.len(),
                b.len() as int,
            )[t] == rest[t] by {
                assert(b.subrange(i, b.len() as int)[delim.len() + t] == whole[delim.len() + t]);
            }
        }
        assert(attribute_run_clean(s.skip(1)));
        lemma_parse_attribute_run(m1, s.skip(1), b, k + payload.len());
        assert(m1.attribute + s.skip(1).map(f) =~= m.attribute + s.map(f));
        assert(DomainModel { attribute: m1.attribute + s.skip(1).map(f), ..m1 } =~= DomainModel {
            attribute: m.attribute + s.map(f),
            ..m
        });
    }
}

/// Decoding inverts encoding for one domain rule: the bytes its writer
/// lays down for a rule without unknown fields decode, from a fresh rule,
/// to exactly its content.
#[verifier::rlimit(50)]
pub proof fn lemma_domain_wire_round_trip(d: Domain, b: Seq<u8>, i: int)
    requires
        0 <= i <= b.len(),
        d.unknown_fields@ =~= Seq::<u8>::empty(),
        encode_utf8(d.value@).len() <= u64::MAX,
        attribute_run_clean(d.attribute@),
        b.subrange(i, b.len() as int) =~= spec_encoded_domain(d),
    ensures
        spec_merge_domain(empty_domain_model(), b, i) == Ok::<DomainModel, ()>(d.model()),
{
    let m0 = empty_domain_model();
    let enc = spec_encoded_domain(d);
    let head = if d.field_type is Plain {
        Seq::<u8>::empty()
    } else {
        spec_key(1, 0) + spec_varint(d.field_type.spec_value() as nat)
    };
    let strf = spec_string_field(2, d.value@);
    let vb = encode_utf8(d.value@);
    let attrs = spec_encoded_attributes(d.attribute@);
    assert(enc =~= head + strf + attrs);

    // The match type, when it is not the default, decodes back.
    let m1 = DomainModel { field_type: d.field_type, ..m0 };
    if d.field_type is Plain {
        assert(m0 =~= m1);
    } else {
        let val = d.field_type.spec_value() as nat;
        assert(spec_key(1, 0) =~= seq![8u8]);
        assert(head =~= seq![8u8] + spec_varint(val));
        lemma_subrange_chunk(b, i, enc, 0, spec_varint(8));
        lemma_varint_roundtrip(b, i, 8);
        lemma_subrange_chunk(b, i, enc, 1, spec_varint(val));
        lemma_varint_roundtrip(b, i + 1, val);
        assert(Domain_Type::spec_from_i32(((val as u64) as u32) as i32) == Some(d.field_type));
        assert(spec_merge_domain(m0, b, i) == spec_merge_domain(m1, b, i + head.len()));
    }
    let i2 = i + head.len();

    // The value, when it is not empty, decodes back.
    let m2 = DomainModel { value: d.value@, ..m1 };
    if vb.len() == 0 {
        assert(d.value@.len() == 0) by {
            if d.value@.len() > 0 {
                assert(encode_utf8(d.value@) =~= vstd::utf8::encode_scalar(d.value@[0] as u32)
                    + encode_utf8(d.value@.drop_first()));
                assert(vstd::utf8::encode_scalar(d.value@[0] as u32).len() >= 1);
            }
        }
        assert(strf =~= Seq::<u8>::empty());
        assert(m1 =~= m2);
    } else {
        assert(spec_key(2, 2) =~= seq![18u8]);
        assert(strf =~= seq![18u8] + spec_varint(vb.len()) + vb);
        lemma_subrange_chunk(b, i, enc, head.len() as int, spec_varint(18));
        lemma_varint_roundtrip(b, i2, 18);
        lemma_subrange_chunk(b, i, enc, head.len() as int + 1, spec_varint(vb.len()));
        lemma_varint_roundtrip(b, i2 + 1, vb.len());
        let k2 = i2 + 1 + spec_varint(vb.len()).len();
        lemma_subrange_chunk(b, i, enc, head.len() as int + 1 + spec_varint(vb.len()).len() as int, vb);
        encode_utf8_valid_utf8(d.value@);
        encode_utf8_decode_utf8(d.value@);
        assert(spec_merge_domain(m1, b, i2) == spec_merge_domain(m2, b, i2 + strf.len()));
    }
    let i3 = i2 + strf.len();

    // The attributes decode back, in order.
    assert(b.subrange(i3, b.len() as int) =~= attrs) by {
        assert forall|t: int| 0 <= t < attrs.len() implies b.subrange(i3, b.len() as int)[t]
            == attrs[t] by {
            assert(b.subrange(i, b.len() as int)[head.len() + strf.len() + t] == enc[head.len()
                + strf.len() + t]);
        }
    }
    lemma_parse_attribute_run(m2, d.attribute@, b, i3);
    assert(DomainModel {
        attribute: m2.attribute + d.attribute@.map(|_j: int, a: Domain_Attribute| a.model()),
        ..m2
    } =~= d.model());
}

impl Domain {
    /// Merges the wire form in `b` into the rule. Decodes exactly what
    /// `spec_merge_domain` says; a malformed record reports the error and
    /// may leave a partial merge behind.
    pub fn merge_from(&mut self, b: &[u8]) -> (r: Result<(), WireError>)
        ensures
            r is Ok ==> spec_merge_domain(old(self).model(), b@, 0) == Ok::<DomainModel, ()>(
                final(self).model(),
            ),
            (r is Err) <==> (spec_merge_domain(old(self).model(), b@, 0) is Err),
    {
        let n = b.len();
        let mut i: usize = 0;
        while i < n
            invariant
                n == b@.len(),
                i <= n,
                spec_merge_domain(old(self).model(), b@, 0) == spec_merge_domain(
                    self.model(),
                    b@,
                    i as int,
                ),
            decreases n - i,
        {
            let ghost m_pre = self.model();
            let ghost i_pre = i as int;
            let (key, j) = match read_varint(b, i) {
                Some(kj) => kj,
                None => {
                    proof {
                        assert(spec_merge_domain(m_pre, b@, i_pre) is Err);
                    }
                    return Err(WireError);
                },
            };
            let field = key / 8;
            let wire = key % 8;
            if field == 1 {
                if wire != 0 {
                    proof {
                        assert(spec_merge_domain(m_pre, b@, i_pre) is Err);
                    }
                    return Err(WireError);
                }
                let (v, k) = match read_varint(b, j) {
                    Some(x) => x,
                    None => {
                        proof {
                            assert(spec_merge_domain(m_pre, b@, i_pre) is Err);
                        }
                        return Err(WireError);
                    },
                };
                let ev = #[verifier::truncate] (v as u32);
                match Domain_Type::from_i32(#[verifier::truncate] (ev as i32)) {
                    Some(t) => {
                        self.field_type = t;
                        i = k;
                    },
                    None => {
                        let raw = slice_subrange(b, i, k);
                        self.unknown_fields.extend_from_slice(raw);
                        i = k;
                        proof {
                            assert(self.model().unknown_fields =~= m_pre.unknown_fields
                                + b@.subrange(i_pre, i as int));
                        }
                    },
                }
                proof {
                    assert(spec_merge_domain(m_pre, b@, i_pre) == spec_merge_domain(
                        self.model(),
                        b@,
                        i as int,
                    ));
                }
            } else if field == 2 {
                if wire != 2 {
                    proof {
                        assert(spec_merge_domain(m_pre, b@, i_pre) is Err);
                    }
                    return Err(WireError);
                }
                let (len, k) = match read_varint(b, j) {
                    Some(x) => x,
                    None => {
                        proof {
                            assert(spec_merge_domain(m_pre, b@, i_pre) is Err);
                        }
                        return Err(WireError);
                    },
                };
                if len > (n - k) as u64 {
                    proof {
                        assert(spec_merge_domain(m_pre, b@, i_pre) is Err);
                    }
                    return Err(WireError);
                }
                let len_us = len as usize;
                let payload = slice_subrange(b, k, k + len_us);
                match utf8_to_string(payload) {
                    Some(s) => {
                        self.value = s;
                        i = k + len_us;
                        proof {
                            assert(spec_merge_domain(m_pre, b@, i_pre) == spec_merge_domain(
                                self.model(),
                                b@,
                                i as int,
                            ));
                        }
                    },
                    None => {
                        proof {
                            assert(spec_merge_domain(m_pre, b@, i_pre) is Err);
                        }
                        return Err(WireError);
                    },
                }
            } else if field == 3 {
                if wire != 2 {
                    proof {
                        assert(spec_merge_domain(m_pre, b@, i_pre) is Err);
                    }
                    return Err(WireError);
                }
                let (len, k) = match read_varint(b, j) {
                    Some(x) => x,
                    None => {
                        proof {
                            assert(spec_merge_domain(m_pre, b@, i_pre) is Err);
                        }
                        return Err(WireError);
                    },
                };
                if len > (n - k) as u64 {
                    proof {
                        assert(spec_merge_domain(m_pre, b@, i_pre) is Err);
                    }
                    return Err(WireError);
                }
                let len_us = len as usize;
                let payload = slice_subrange(b, k, k + len_us);
                let mut a = Domain_Attribute::new();
                proof {
                    assert(a.model() =~= empty_attribute_model());
                }
                match a.merge_from(payload) {
                    Ok(()) => {
                        let ghost am = a.model();
                        self.attribute.push(a);
                        i = k + len_us;
                        proof {
                            assert(self.model().attribute =~= m_pre.attribute.push(am));
                            assert(spec_merge_domain(m_pre, b@, i_pre) == spec_merge_domain(
                                self.model(),
                                b@,
                                i as int,
                            ));
                        }
                    },
                    Err(_) => {
                        proof {
                            assert(spec_merge_domain(m_pre, b@, i_pre) is Err);
                        }
                        return Err(WireError);
                    },
                }
            } else if field == 0 {
                proof {
                    assert(spec_merge_domain(m_pre, b@, i_pre) is Err);
                }
                return Err(WireError);
            } else {
                let end = match skip_field(b, j, wire) {
                    Some(e) => e,
                    None => {
                        proof {
                            assert(spec_merge_domain(m_pre, b@, i_pre) is Err);
                        }
                        return Err(WireError);
                    },
                };
                let raw = slice_subrange(b, i, end);
                self.unknown_fields.extend_from_slice(raw);
                i = end;
                proof {
                    assert(self.model().unknown_fields =~= m_pre.unknown_fields + b@.subrange(
                        i_pre,
                        i as int,
                    ));
                    assert(spec_merge_domain(m_pre, b@, i_pre) == spec_merge_domain(
                        self.model(),
                        b@,
                        i as int,
                    ));
                }
            }
        }
        Ok(())
    }
}

/// Every rule of the run is clean and small enough to lay down and read
/// back.
pub open spec fn domain_run_clean(s: Seq<Domain>) -> bool {
    forall|j: int|
        0 <= j < s.len() ==> (#[trigger] s[j]).unknown_fields@ =~= Seq::<u8>::empty()
            && encode_utf8(s[j].value@).len() <= u64::MAX && attribute_run_clean(s[j].attribute@)
            && spec_encoded_domain(s[j]).len() <= u64::MAX
}

/// Decoding a run of encoded rule fields appends their contents, in order,
/// to the group under construction.
#[verifier::rlimit(50)]
proof fn lemma_parse_domain_run(m: SiteGroupModel, s: Seq<Domain>, b: Seq<u8>, i: int)
    requires
        0 <= i <= b.len(),
        b.subrange(i, b.len() as int) =~= crate::geosite_wire::spec_encoded_domains(s),
        domain_run_clean(s),
    ensures
        spec_merge_site_group(m, b, i) == Ok::<SiteGroupModel, ()>(
            SiteGroupModel { domain: m.domain + s.map(|_j: int, d: Domain| d.model()), ..m },
        ),
    decreases s.len(),
{
    let f = |_j: int, d: Domain| d.model();
    if s.len() == 0 {
        assert(i == b.len());
        assert(SiteGroupModel { domain: m.domain + s.map(f), ..m } =~= m);
    } else {
        let d0 = s[0];
        let payload = spec_encoded_domain(d0);
        let lv = spec_varint(payload.len());
        let delim = spec_len_delimited(2, payload);
        let whole = crate::geosite_wire::spec_encoded_domains(s);
        assert(spec_key(2, 2) =~= seq![18u8]);
        assert(whole =~= delim + crate::geosite_wire::spec_encoded_domains(s.skip(1)));
        assert(delim =~= seq![18u8] + lv + payload);

        lemma_subrange_chunk(b, i, whole, 0, spec_varint(18));
        lemma_varint_roundtrip(b, i, 18);
        lemma_subrange_chunk(b, i, whole, 1, lv);
        lemma_varint_roundtrip(b, i + 1, payload.len());
        let k = i + 1 + lv.len();
        lemma_subrange_chunk(b, i, whole, 1 + lv.len() as int, payload);
        let sub = b.subrange(k, k + payload.len());
        assert(sub.subrange(0, sub.len() as int) =~= sub);
        lemma_domain_wire_round_trip(d0, sub, 0);

        let m1 = SiteGroupModel { domain: m.domain.push(d0.model()), ..m };
        assert(spec_merge_site_group(m, b, i) == spec_merge_site_group(m1, b, k + payload.len()));

        let rest = crate::geosite_wire::spec_encoded_domains(s.skip(1));
        assert(b.subrange(k + payload.len(), b.len() as int) =~= rest) by {
            assert forall|t: int| 0 <= t < rest.len() implies b.subrange(
                k + payload.len(),
                b.len() as int,
            )[t] == rest[t] by {
                assert(b.subrange(i, b.len() as int)[delim.len() + t] == whole[delim.len() + t]);
            }
        }
        assert(domain_run_clean(s.skip(1)));
        lemma_parse_domain_run(m1, s.skip(1), b, k + payload.len());
        assert(m1.domain + s.skip(1).map(f) =~= m.domain + s.map(f));
        assert(SiteGroupModel { domain: m1.domain + s.skip(1).map(f), ..m1 } =~= SiteGroupModel {
            domain: m.domain + s.map(f),
            ..m
        });
    }
}

/// Decoding inverts encoding for one site group: the bytes its writer lays
/// down for a group without unknown fields decode, from a fresh group, to
/// exactly its content.
#[verifier::rlimit(50)]
pub proof fn lemma_site_group_wire_round_trip(g: SiteGroup, b: Seq<u8>, i: int)
    requires
        0 <= i <= b.len(),
        g.unknown_fields@ =~= Seq::<u8>::empty(),
        encode_utf8(g.tag@).len() <= u64::MAX,
        domain_run_clean(g.domain@),
        b.subrange(i, b.len() as int) =~= crate::geosite_wire::spec_encoded_site_group(g),
    ensures
        spec_merge_site_group(empty_site_group_model(), b, i) == Ok::<SiteGroupModel, ()>(
            g.model(),
        ),
{
    let m0 = empty_site_group_model();
    let enc = crate::geosite_wire::spec_encoded_site_group(g);
    let strf = spec_string_field(1, g.tag@);
    let tb = encode_utf8(g.tag@);
    let doms = crate::geosite_wire::spec_encoded_domains(g.domain@);
    assert(enc =~= strf + doms);

    // The tag, when it is not empty, decodes back.
    let m1 = SiteGroupModel { tag: g.tag@, ..m0 };
    if tb.len() == 0 {
        assert(g.tag@.len() == 0) by {
            if g.tag@.len() > 0 {
                assert(encode_utf8(g.tag@) =~= vstd::utf8::encode_scalar(g.tag@[0] as u32)
                    + encode_utf8(g.tag@.drop_first()));
                assert(vstd::utf8::encode_scalar(g.tag@[0] as u32).len() >= 1);
            }
        }
        assert(strf =~= Seq::<u8>::empty());
        assert(m0 =~= m1);
    } else {
        assert(spec_key(1, 2) =~= seq![10u8]);
        assert(strf =~= seq![10u8] + spec_varint(tb.len()) + tb);
        lemma_subrange_chunk(b, i, enc, 0, spec_varint(10));
        lemma_varint_roundtrip(b, i, 10);
        lemma_subrange_chunk(b, i, enc, 1, spec_varint(tb.len()));
        lemma_varint_roundtrip(b, i + 1, tb.len());
        lemma_subrange_chunk(b, i, enc, 1 + spec_varint(tb.len()).len() as int, tb);
        encode_utf8_valid_utf8(g.tag@);
        encode_utf8_decode_utf8(g.tag@);
        assert(spec_merge_site_group(m0, b, i) == spec_merge_site_group(m1, b, i + strf.len()));
    }
    let i2 = i + strf.len();

    // The rules decode back, in order.
    assert(b.subrange(i2, b.len() as int) =~= doms) by {
        assert forall|t: int| 0 <= t < doms.len() implies b.subrange(i2, b.len() as int)[t]
            == doms[t] by {
            assert(b.subrange(i, b.len() as int)[strf.len() + t] == enc[strf.len() + t]);
        }
    }
    lemma_parse_domain_run(m1, g.domain@, b, i2);
    assert(SiteGroupModel {
        domain: m1.domain + g.domain@.map(|_j: int, d: Domain| d.model()),
        ..m1
    } =~= g.model());
}

/// Every group of the run is clean and small enough to lay down and read
/// back.
pub open spec fn site_group_run_clean(s: Seq<SiteGroup>) -> bool {
    forall|j: int|
        0 <= j < s.len() ==> (#[trigger] s[j]).unknown_fields@ =~= Seq::<u8>::empty()
            && encode_utf8(s[j].tag@).len() <= u64::MAX && domain_run_clean(s[j].domain@)
            && crate::geosite_wire::spec_encoded_site_group(s[j]).len() <= u64::MAX
}

/// Decoding a run of encoded group fields appends their contents, in
/// order, to the list under construction.
#[verifier::rlimit(50)]
proof fn lemma_parse_site_group_run(m: SiteGroupListModel, s: Seq<SiteGroup>, b: Seq<u8>, i: int)
    requires
        0 <= i <= b.len(),
        b.subrange(i, b.len() as int) =~= crate::geosite_wire::spec_encoded_site_groups(s),
        site_group_run_clean(s),
    ensures
        spec_merge_site_group_list(m, b, i) == Ok::<SiteGroupListModel, ()>(
            SiteGroupListModel {
                site_group: m.site_group + s.map(|_j: int, g: SiteGroup| g.model()),
                ..m
            },
        ),
    decreases s.len(),
{
    let f = |_j: int, g: SiteGroup| g.model();
    if s.len() == 0 {
        assert(i == b.len());
        assert(SiteGroupListModel { site_group: m.site_group + s.map(f), ..m } =~= m);
    } else {
        let g0 = s[0];
        let payload = crate::geosite_wire::spec_encoded_site_group(g0);
        let lv = spec_varint(payload.len());
        let delim = spec_len_delimited(1, payload);
        let whole = crate::geosite_wire::spec_encoded_site_groups(s);
        assert(spec_key(1, 2) =~= seq![10u8]);
        assert(whole =~= delim + crate::geosite_wire::spec_encoded_site_groups(s.skip(1)));
        assert(delim =~= seq![10u8] + lv + payload);

        lemma_subrange_chunk(b, i, whole, 0, spec_varint(10));
        lemma_varint_roundtrip(b, i, 10);
        lemma_subrange_chunk(b, i, whole, 1, lv);
        lemma_varint_roundtrip(b, i + 1, payload.len());
        let k = i + 1 + lv.len();
        lemma_subrange_chunk(b, i, whole, 1 + lv.len() as int, payload);
        let sub = b.subrange(k, k + payload.len());
        assert(sub.subrange(0, sub.len() as int) =~= sub);
        lemma_site_group_wire_round_trip(g0, sub, 0);

        let m1 = SiteGroupListModel { site_group: m.site_group.push(g0.model()), ..m };
        assert(spec_merge_site_group_list(m, b, i) == spec_merge_site_group_list(
            m1,
            b,
            k + payload.len(),
        ));

        let rest = crate::geosite_wire::spec_encoded_site_groups(s.skip(1));
        assert(b.subrange(k + payload.len(), b.len() as int) =~= rest) by {
            assert forall|t: int| 0 <= t < rest.len() implies b.subrange(
                k + payload.len(),
                b.len() as int,
            )[t] == rest[t] by {
                assert(b.subrange(i, b.len() as int)[delim.len() + t] == whole[delim.len() + t]);
            }
        }
        assert(site_group_run_clean(s.skip(1)));
        lemma_parse_site_group_run(m1, s.skip(1), b, k + payload.len());
        assert(m1.site_group + s.skip(1).map(f) =~= m.site_group + s.map(f));
        assert(SiteGroupListModel { site_group: m1.site_group + s.skip(1).map(f), ..m1 }
            =~= SiteGroupListModel { site_group: m.site_group + s.map(f), ..m });
    }
}

/// Decoding inverts encoding for a whole site group list: the bytes its
/// writer lays down for a list without unknown fields decode, from a fresh
/// list, to exactly its content.
pub proof fn lemma_site_group_list_wire_round_trip(l: SiteGroupList, b: Seq<u8>)
    requires
        l.unknown_fields@ =~= Seq::<u8>::empty(),
        site_group_run_clean(l.site_group@),
        b =~= crate::geosite_wire::spec_encoded_site_group_list(l),
    ensures
        spec_merge_site_group_list(
            SiteGroupListModel { site_group: Seq::empty(), unknown_fields: Seq::empty() },
            b,
            0,
        ) == Ok::<SiteGroupListModel, ()>(l.model()),
{
    let m0 = SiteGroupListModel { site_group: Seq::empty(), unknown_fields: Seq::empty() };
    assert(b.subrange(0, b.len() as int) =~= crate::geosite_wire::spec_encoded_site_groups(
        l.site_group@,
    ));
    lemma_parse_site_group_run(m0, l.site_group@, b, 0);
    assert(SiteGroupListModel {
        site_group: m0.site_group + l.site_group@.map(|_j: int, g: SiteGroup| g.model()),
        ..m0
    } =~= l.model());
}

impl SiteGroup {
    /// Merges the wire form in `b` into the group. Decodes exactly what
    /// `spec_merge_site_group` says; a malformed record reports the error
    /// and may leave a partial merge behind.
    pub fn merge_from(&mut self, b: &[u8]) -> (r: Result<(), WireError>)
        ensures
            r is Ok ==> spec_merge_site_group(old(self).model(), b@, 0) == Ok::<
                SiteGroupModel,
                (),
            >(final(self).model()),
            (r is Err) <==> (spec_merge_site_group(old(self).model(), b@, 0) is Err),
    {
        let n = b.len();
        let mut i: usize = 0;
        while i < n
            invariant
                n == b@.len(),
                i <= n,
                spec_merge_site_group(old(self).model(), b@, 0) == spec_merge_site_group(
                    self.model(),
                    b@,
                    i as int,
                ),
            decreases n - i,
        {
            let ghost m_pre = self.model();
            let ghost i_pre = i as int;
            let (key, j) = match read_varint(b, i) {
                Some(kj) => kj,
                None => {
                    proof {
                        assert(spec_merge_site_group(m_pre, b@, i_pre) is Err);
                    }
                    return Err(WireError);
                },
            };
            let field = key / 8;
            let wire = key % 8;
            if field == 1 {
                if wire != 2 {
                    proof {
                        assert(spec_merge_site_group(m_pre, b@, i_pre) is Err);
                    }
                    return Err(WireError);
                }
                let (len, k) = match read_varint(b, j) {
                    Some(x) => x,
                    None => {
                        proof {
                            assert(spec_merge_site_group(m_pre, b@, i_pre) is Err);
                        }
                        return Err(WireError);
                    },
                };
                if len > (n - k) as u64 {
                    proof {
                        assert(spec_merge_site_group(m_pre, b@, i_pre) is Err);
                    }
                    return Err(WireError);
                }
                let len_us = len as usize;
                let payload = slice_subrange(b, k, k + len_us);
                match utf8_to_string(payload) {
                    Some(s) => {
                        self.tag = s;
                        i = k + len_us;
                        proof {
                            assert(spec_merge_site_group(m_pre, b@, i_pre)
                                == spec_merge_site_group(self.model(), b@, i as int));
                        }
                    },
                    None => {
                        proof {
                            assert(spec_merge_site_group(m_pre, b@, i_pre) is Err);
                        }
                        return Err(WireError);
                    },
                }
            } else if field == 2 {
                if wire != 2 {
                    proof {
                        assert(spec_merge_site_group(m_pre, b@, i_pre) is Err);
                    }
                    return Err(WireError);
                }
                let (len, k) = match read_varint(b, j) {
                    Some(x) => x,
                    None => {
                        proof {
                            assert(spec_merge_site_group(m_pre, b@, i_pre) is Err);
                        }
                        return Err(WireError);
                    },
                };
                if len > (n - k) as u64 {
                    proof {
                        assert(spec_merge_site_group(m_pre, b@, i_pre) is Err);
                    }
                    return Err(WireError);
                }
                let len_us = len as usize;
                let payload = slice_subrange(b, k, k + len_us);
                let mut d = Domain::new();
                proof {
                    assert(d.model() =~= empty_domain_model());
                }
                match d.merge_from(payload) {
                    Ok(()) => {
                        let ghost dm = d.model();
                        self.domain.push(d);
                        i = k + len_us;
                        proof {
                            assert(self.model().domain =~= m_pre.domain.push(dm));
                            assert(spec_merge_site_group(m_pre, b@, i_pre)
                                == spec_merge_site_group(self.model(), b@, i as int));
                        }
                    },
                    Err(_) => {
                        proof {
                            assert(spec_merge_site_group(m_pre, b@, i_pre) is Err);
                        }
                        return Err(WireError);
                    },
                }
            } else if field == 0 {
                proof {
                    assert(spec_merge_site_group(m_pre, b@, i_pre) is Err);
                }
                return Err(WireError);
            } else {
                let end = match skip_field(b, j, wire) {
                    Some(e) => e,
                    None => {
                        proof {
                            assert(spec_merge_site_group(m_pre, b@, i_pre) is Err);
                        }
                        return Err(WireError);
                    },
                };
                let raw = slice_subrange(b, i, end);
                self.unknown_fields.extend_from_slice(raw);
                i = end;
                proof {
                    assert(self.model().unknown_fields =~= m_pre.unknown_fields + b@.subrange(
                        i_pre,
                        i as int,
                    ));
                    assert(spec_merge_site_group(m_pre, b@, i_pre) == spec_merge_site_group(
                        self.model(),
                        b@,
                        i as int,
                    ));
                }
            }
        }
        Ok(())
    }
}

impl SiteGroupList {
    /// Merges the wire form in `b` into the list. Decodes exactly what
    /// `spec_merge_site_group_list` says; a malformed record reports the
    /// error and may leave a partial merge behind.
    pub fn merge_from(&mut self, b: &[u8]) -> (r: Result<(), WireError>)
        ensures
            r is Ok ==> spec_merge_site_group_list(old(self).model(), b@, 0) == Ok::<
                SiteGroupListModel,
                (),
            >(final(self).model()),
            (r is Err) <==> (spec_merge_site_group_list(old(self).model(), b@, 0) is Err),
    {
        let n = b.len();
        let mut i: usize = 0;
        while i < n
            invariant
                n == b@.len(),
                i <= n,
                spec_merge_site_group_list(old(self).model(), b@, 0) == spec_merge_site_group_list(
                    self.model(),
                    b@,
                    i as int,
                ),
            decreases n - i,
        {
            let ghost m_pre = self.model();
            let ghost i_pre = i as int;
            let (key, j) = match read_varint(b, i) {
                Some(kj) => kj,
                None => {
                    proof {
                        assert(spec_merge_site_group_list(m_pre, b@, i_pre) is Err);
                    }
                    return Err(WireError);
                },
            };
            let field = key / 8;
            let wire = key % 8;
            if field == 1 {
                if wire != 2 {
                    proof {
                        assert(spec_merge_site_group_list(m_pre, b@, i_pre) is Err);
                    }
                    return Err(WireError);
                }
                let (len, k) = match read_varint(b, j) {
                    Some(x) => x,
                    None => {
                        proof {
                            assert(spec_merge_site_group_list(m_pre, b@, i_pre) is Err);
                        }
                        return Err(WireError);
                    },
                };
                if len > (n - k) as u64 {
                    proof {
                        assert(spec_merge_site_group_list(m_pre, b@, i_pre) is Err);
                    }
                    return Err(WireError);
                }
                let len_us = len as usize;
                let payload = slice_subrange(b, k, k + len_us);
                let mut g = SiteGroup::new();
                proof {
                    assert(g.model() =~= empty_site_group_model());
                }
                match g.merge_from(payload) {
                    Ok(()) => {
                        let ghost gm = g.model();
                        self.site_group.push(g);
                        i = k + len_us;
                        proof {
                            assert(self.model().site_group =~= m_pre.site_group.push(gm));
                            assert(spec_merge_site_group_list(m_pre, b@, i_pre)
                                == spec_merge_site_group_list(self.model(), b@, i as int));
                        }
                    },
                    Err(_) => {
                        proof {
                            assert(spec_merge_site_group_list(m_pre, b@, i_pre) is Err);
                        }
                        return Err(WireError);
                    },
                }
            } else if field == 0 {
                proof {
                    assert(spec_merge_site_group_list(m_pre, b@, i_pre) is Err);
                }
                return Err(WireError);
            } else {
                let end = match skip_field(b, j, wire) {
                    Some(e) => e,
                    None => {
                        proof {
                            assert(spec_merge_site_group_list(m_pre, b@, i_pre) is Err);
                        }
                        return Err(WireError);
                    },
                };
                let raw = slice_subrange(b, i, end);
                self.unknown_fields.extend_from_slice(raw);
                i = end;
                proof {
                    assert(self.model().unknown_fields =~= m_pre.unknown_fields + b@.subrange(
                        i_pre,
                        i as int,
                    ));
                    assert(spec_merge_site_group_list(m_pre, b@, i_pre)
                        == spec_merge_site_group_list(self.model(), b@, i as int));
                }
            }
        }
        Ok(())
    }
}

} // verus!
