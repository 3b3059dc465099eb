//! The geosite configuration data model: domain rules grouped under tags,
//! as plain values. A domain rule has a match type, a value, and typed
//! attributes; groups carry a tag and their rules; a list carries the
//! groups. Unrecognized wire fields ride along as raw bytes.
#![allow(non_camel_case_types)]
use vstd::prelude::*;

use vstd::string::StringExecFns;

verus! {

/// How a domain rule matches: as a plain substring, a regular expression,
/// a domain suffix, or the full name.
#[derive(Clone, Copy, PartialEq, Eq, Structural, Debug, Hash)]
pub enum Domain_Type {
    Plain,
    Regex,
    Domain,
    Full,
}

impl Domain_Type {
    /// The wire number of the match type.
    pub open spec fn spec_value(&self) -> i32 {
        match self {
            Domain_Type::Plain => 0,
            Domain_Type::Regex => 1,
            Domain_Type::Domain => 2,
            Domain_Type::Full => 3,
        }
    }

    /// The wire number of the match type.
    pub fn value(&self) -> (r: i32)
        ensures
            r == self.spec_value(),
    {
        match self {
            Domain_Type::Plain => 0,
            Domain_Type::Regex => 1,
            Domain_Type::Domain => 2,
            Domain_Type::Full => 3,
        }
    }

    /// The match type with the given wire number, if any.
    pub open spec fn spec_from_i32(value: i32) -> Option<Domain_Type> {
        if value == 0 {
            Some(Domain_Type::Plain)
        } else if value == 1 {
            Some(Domain_Type::Regex)
        } else if value == 2 {
            Some(Domain_Type::Domain)
        } else if value == 3 {
            Some(Domain_Type::Full)
        } else {
            None
        }
    }

    /// The match type with the given wire number, if any.
    pub fn from_i32(value: i32) -> (r: Option<Domain_Type>)
        ensures
            r == Domain_Type::spec_from_i32(value),
            !(0 <= value <= 3) ==> r is None,
            r matches Some(t) ==> t.spec_value() == value,
    {
        match value {
            0 => Some(Domain_Type::Plain),
            1 => Some(Domain_Type::Regex),
            2 => Some(Domain_Type::Domain),
            3 => Some(Domain_Type::Full),
            _ => None,
        }
    }

    /// Every match type, in wire order.
    pub fn values() -> (r: Vec<Domain_Type>)
        ensures
            r@ =~= seq![
                Domain_Type::Plain,
                Domain_Type::Regex,
                Domain_Type::Domain,
                Domain_Type::Full,
            ],
    {
        let mut v: Vec<Domain_Type> = Vec::new();
        v.push(Domain_Type::Plain);
        v.push(Domain_Type::Regex);
        v.push(Domain_Type::Domain);
        v.push(Domain_Type::Full);
        v
    }
}

impl Default for Domain_Type {
    /// The default match type is `Plain`, the wire zero.
    fn default() -> (r: Self)
        ensures
            r == Domain_Type::Plain,
    {
        Domain_Type::Plain
    }
}

/// The typed value of a domain attribute: a boolean or an integer.
#[derive(Clone, PartialEq, Debug)]
pub enum Domain_Attribute_oneof_typed_value {
    bool_value(bool),
    int_value(i64),
}

/// A named attribute of a domain rule.
#[derive(Clone, PartialEq, Debug)]
pub struct Domain_Attribute {
    pub key: String,
    pub typed_value: Option<Domain_Attribute_oneof_typed_value>,
    pub unknown_fields: Vec<u8>,
    pub cached_size: u32,
}

impl Domain_Attribute {
    /// An empty attribute.
    pub fn new() -> (r: Domain_Attribute)
        ensures
            r.key@ =~= Seq::<char>::empty(),
            r.typed_value is None,
            r.unknown_fields@ =~= Seq::<u8>::empty(),
            r.cached_size == 0,
    {
        Domain_Attribute {
            key: String::new(),
            typed_value: None,
            unknown_fields: Vec::new(),
            cached_size: 0,
        }
    }

    /// The attribute's name.
    pub fn get_key(&self) -> (r: &str)
        ensures
            r@ == self.key@,
    {
        self.key.as_str()
    }

    /// The boolean value; `false` when the attribute holds none.
    pub fn get_bool_value(&self) -> (r: bool)
        ensures
            r == (match self.typed_value {
                Some(Domain_Attribute_oneof_typed_value::bool_value(v)) => v,
                _ => false,
            }),
    {
        match &self.typed_value {
            Some(Domain_Attribute_oneof_typed_value::bool_value(v)) => *v,
            _ => false,
        }
    }

    /// The integer value; zero when the attribute holds none.
    pub fn get_int_value(&self) -> (r: i64)
        ensures
            r == (match self.typed_value {
                Some(Domain_Attribute_oneof_typed_value::int_value(v)) => v,
                _ => 0,
            }),
    {
        match &self.typed_value {
            Some(Domain_Attribute_oneof_typed_value::int_value(v)) => *v,
            _ => 0,
        }
    }

    /// An attribute carries no required fields, so any value is complete.
    pub fn is_initialized(&self) -> (r: bool)
        ensures
            r,
    {
        true
    }

    /// Resets the attribute to its empty value.
    pub fn clear(&mut self)
        ensures
            final(self).key@ =~= Seq::<char>::empty(),
            final(self).typed_value is None,
            final(self).unknown_fields@ =~= Seq::<u8>::empty(),
    {
        self.key = String::new();
        self.typed_value = None;
        self.unknown_fields = Vec::new();
    }
}

impl Default for Domain_Attribute {
    /// The default attribute is the empty one.
    fn default() -> (r: Self)
        ensures
            r.key@ =~= Seq::<char>::empty(),
            r.typed_value is None,
            r.unknown_fields@ =~= Seq::<u8>::empty(),
            r.cached_size == 0,
    {
        Domain_Attribute::new()
    }
}

/// One domain rule: its match type, its value, and its attributes.
#[derive(Clone, PartialEq, Debug)]
pub struct Domain {
    pub field_type: Domain_Type,
    pub value: String,
    pub attribute: Vec<Domain_Attribute>,
    pub unknown_fields: Vec<u8>,
    pub cached_size: u32,
}

impl Domain {
    /// An empty rule: plain match of the empty value, no attributes.
    pub fn new() -> (r: Domain)
        ensures
            r.field_type == Domain_Type::Plain,
            r.value@ =~= Seq::<char>::empty(),
            r.attribute@ =~= Seq::<Domain_Attribute>::empty(),
            r.unknown_fields@ =~= Seq::<u8>::empty(),
            r.cached_size == 0,
    {
        Domain {
            field_type: Domain_Type::Plain,
            value: String::new(),
            attribute: Vec::new(),
            unknown_fields: Vec::new(),
            cached_size: 0,
        }
    }

    /// The rule's match type.
    pub fn get_field_type(&self) -> (r: Domain_Type)
        ensures
            r == self.field_type,
    {
        self.field_type
    }

    /// The rule's value.
    pub fn get_value(&self) -> (r: &str)
        ensures
            r@ == self.value@,
    {
        self.value.as_str()
    }

    /// The rule's attributes.
    pub fn get_attribute(&self) -> (r: &[Domain_Attribute])
        ensures
            r@ == self.attribute@,
    {
        self.attribute.as_slice()
    }

    /// A rule is complete when each of its attributes is; attributes carry
    /// no required fields, so every rule is.
    pub fn is_initialized(&self) -> (r: bool)
        ensures
            r,
    {
        let n = self.attribute.len();
        let mut i: usize = 0;
        while i < n
            invariant
                n == self.attribute@.len(),
                i <= n,
            decreases n - i,
        {
            if !self.attribute[i].is_initialized() {
                return false;
            }
            i += 1;
        }
        true
    }

    /// Resets the rule to its empty value.
    pub fn clear(&mut self)
        ensures
            final(self).field_type == Domain_Type::Plain,
            final(self).value@ =~= Seq::<char>::empty(),
            final(self).attribute@ =~= Seq::<Domain_Attribute>::empty(),
            final(self).unknown_fields@ =~= Seq::<u8>::empty(),
    {
        self.field_type = Domain_Type::Plain;
        self.value = String::new();
        self.attribute = Vec::new();
        self.unknown_fields = Vec::new();
    }
}

impl Default for Domain {
    /// The default rule is the empty one.
    fn default() -> (r: Self)
        ensures
            r.field_type == Domain_Type::Plain,
            r.value@ =~= Seq::<char>::empty(),
            r.attribute@ =~= Seq::<Domain_Attribute>::empty(),
            r.unknown_fields@ =~= Seq::<u8>::empty(),
            r.cached_size == 0,
    {
        Domain::new()
    }
}

/// A tagged group of domain rules.
#[derive(Clone, PartialEq, Debug)]
pub struct SiteGroup {
    pub tag: String,
    pub domain: Vec<Domain>,
    pub unknown_fields: Vec<u8>,
    pub cached_size: u32,
}

impl SiteGroup {
    /// An empty group.
    pub fn new() -> (r: SiteGroup)
        ensures
            r.tag@ =~= Seq::<char>::empty(),
            r.domain@ =~= Seq::<Domain>::empty(),
            r.unknown_fields@ =~= Seq::<u8>::empty(),
            r.cached_size == 0,
    {
        SiteGroup { tag: String::new(), domain: Vec::new(), unknown_fields: Vec::new(), cached_size: 0 }
    }

    /// The group's tag.
    pub fn get_tag(&self) -> (r: &str)
        ensures
            r@ == self.tag@,
    {
        self.tag.as_str()
    }

    /// The group's domain rules.
    pub fn get_domain(&self) -> (r: &[Domain])
        ensures
            r@ == self.domain@,
    {
        self.domain.as_slice()
    }

    /// A group is complete when each of its rules is; every rule is.
    pub fn is_initialized(&self) -> (r: bool)
        ensures
            r,
    {
        let n = self.domain.len();
        let mut i: usize = 0;
        while i < n
            invariant
                n == self.domain@.len(),
                i <= n,
            decreases n - i,
        {
            if !self.domain[i].is_initialized() {
                return false;
            }
            i += 1;
        }
        true
    }

    /// Resets the group to its empty value.
    pub fn clear(&mut self)
        ensures
            final(self).tag@ =~= Seq::<char>::empty(),
            final(self).domain@ =~= Seq::<Domain>::empty(),
            final(self).unknown_fields@ =~= Seq::<u8>::empty(),
    {
        self.tag = String::new();
        self.domain = Vec::new();
        self.unknown_fields = Vec::new();
    }
}

impl Default for SiteGroup {
    /// The default group is the empty one.
    fn default() -> (r: Self)
        ensures
            r.tag@ =~= Seq::<char>::empty(),
            r.domain@ =~= Seq::<Domain>::empty(),
            r.unknown_fields@ =~= Seq::<u8>::empty(),
            r.cached_size == 0,
    {
        SiteGroup::new()
    }
}

/// The list of site groups a geosite file carries.
#[derive(Clone, PartialEq, Debug)]
pub struct SiteGroupList {
    pub site_group: Vec<SiteGroup>,
    pub unknown_fields: Vec<u8>,
    pub cached_size: u32,
}

impl SiteGroupList {
    /// An empty list.
    pub fn new() -> (r: SiteGroupList)
        ensures
            r.site_group@ =~= Seq::<SiteGroup>::empty(),
            r.unknown_fields@ =~= Seq::<u8>::empty(),
            r.cached_size == 0,
    {
        SiteGroupList { site_group: Vec::new(), unknown_fields: Vec::new(), cached_size: 0 }
    }

    /// The groups of the list.
    pub fn get_site_group(&self) -> (r: &[SiteGroup])
        ensures
            r@ == self.site_group@,
    {
        self.site_group.as_slice()
    }

    /// A list is complete when each of its groups is; every group is.
    pub fn is_initialized(&self) -> (r: bool)
        ensures
            r,
    {
        let n = self.site_group.len();
        let mut i: usize = 0;
        while i < n
            invariant
                n == self.site_group@.len(),
                i <= n,
            decreases n - i,
        {
            if !self.site_group[i].is_initialized() {
                return false;
            }
            i += 1;
        }
        true
    }

    /// Resets the list to its empty value.
    pub fn clear(&mut self)
        ensures
            final(self).site_group@ =~= Seq::<SiteGroup>::empty(),
            final(self).unknown_fields@ =~= Seq::<u8>::empty(),
    {
        self.site_group = Vec::new();
        self.unknown_fields = Vec::new();
    }
}

impl Default for SiteGroupList {
    /// The default list is the empty one.
    fn default() -> (r: Self)
        ensures
            r.site_group@ =~= Seq::<SiteGroup>::empty(),
            r.unknown_fields@ =~= Seq::<u8>::empty(),
            r.cached_size == 0,
    {
        SiteGroupList::new()
    }
}

} // verus!
