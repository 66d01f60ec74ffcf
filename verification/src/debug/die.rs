//! Debugging information entries (DIEs) as plain values: what the type
//! graph reads of each entry of a DWARF unit.
use vstd::prelude::*;

verus! {

/// `DW_TAG_array_type`.
pub const DW_TAG_ARRAY_TYPE: u16 = 0x01;

/// `DW_TAG_class_type`.
pub const DW_TAG_CLASS_TYPE: u16 = 0x02;

/// `DW_TAG_member`.
pub const DW_TAG_MEMBER: u16 = 0x0d;

/// `DW_TAG_pointer_type`.
pub const DW_TAG_POINTER_TYPE: u16 = 0x0f;

/// `DW_TAG_reference_type`.
pub const DW_TAG_REFERENCE_TYPE: u16 = 0x10;

/// `DW_TAG_structure_type`.
pub const DW_TAG_STRUCTURE_TYPE: u16 = 0x13;

/// `DW_TAG_typedef`.
pub const DW_TAG_TYPEDEF: u16 = 0x16;

/// `DW_TAG_union_type`.
pub const DW_TAG_UNION_TYPE: u16 = 0x17;

/// `DW_TAG_subrange_type`.
pub const DW_TAG_SUBRANGE_TYPE: u16 = 0x21;

/// `DW_TAG_base_type`.
pub const DW_TAG_BASE_TYPE: u16 = 0x24;

/// `DW_TAG_const_type`.
pub const DW_TAG_CONST_TYPE: u16 = 0x26;

/// `DW_TAG_volatile_type`.
pub const DW_TAG_VOLATILE_TYPE: u16 = 0x35;

/// `DW_TAG_restrict_type`.
pub const DW_TAG_RESTRICT_TYPE: u16 = 0x37;

/// `DW_TAG_rvalue_reference_type`.
pub const DW_TAG_RVALUE_REFERENCE_TYPE: u16 = 0x42;

/// `DW_TAG_atomic_type`.
pub const DW_TAG_ATOMIC_TYPE: u16 = 0x47;

/// `DW_AT_byte_size`.
pub const DW_AT_BYTE_SIZE: u16 = 0x0b;

/// `DW_AT_lower_bound`.
pub const DW_AT_LOWER_BOUND: u16 = 0x22;

/// `DW_AT_upper_bound`.
pub const DW_AT_UPPER_BOUND: u16 = 0x2f;

/// `DW_AT_count`.
pub const DW_AT_COUNT: u16 = 0x37;

/// `DW_AT_data_member_location`.
pub const DW_AT_DATA_MEMBER_LOCATION: u16 = 0x38;

/// `DW_AT_encoding`.
pub const DW_AT_ENCODING: u16 = 0x3e;

/// The value of an attribute, in the forms the type graph reads.
#[derive(Debug)]
pub enum AttrValue {
    Udata(u64),
    Sdata(i64),
    /// A location expression, by its bytes.
    Exprloc(Vec<u8>),
    /// A `DW_ATE_*` base type encoding.
    Encoding(u8),
    /// Any other form.
    Other,
}

/// An [`AttrValue`] as a mathematical value.
pub enum AttrView {
    Udata(u64),
    Sdata(i64),
    Exprloc(Seq<u8>),
    Encoding(u8),
    Other,
}

impl View for AttrValue {
    type V = AttrView;

    open spec fn view(&self) -> AttrView {
        match self {
            AttrValue::Udata(u) => AttrView::Udata(*u),
            AttrValue::Sdata(s) => AttrView::Sdata(*s),
            AttrValue::Exprloc(e) => AttrView::Exprloc(e@),
            AttrValue::Encoding(e) => AttrView::Encoding(*e),
            AttrValue::Other => AttrView::Other,
        }
    }
}

/// One debugging information entry, with its children.
#[derive(Debug)]
pub struct Die {
    /// The reference by which the entry is found again.
    pub die_ref: u64,
    pub tag: u16,
    pub name: Option<String>,
    /// The entry its `DW_AT_type` refers to.
    pub type_ref: Option<u64>,
    /// The attributes, in order.
    pub attrs: Vec<(u16, AttrValue)>,
    pub children: Vec<Die>,
}

/// A [`Die`] as a mathematical value.
pub struct DieView {
    pub die_ref: u64,
    pub tag: u16,
    pub name: Option<Seq<char>>,
    pub type_ref: Option<u64>,
    pub attrs: Seq<(u16, AttrView)>,
    pub children: Seq<DieView>,
}

/// The view of an entry, children included.
pub open spec fn die_view(d: Die) -> DieView
    decreases d,
{
    DieView {
        die_ref: d.die_ref,
        tag: d.tag,
        name: match d.name {
            Some(n) => Some(n@),
            None => None,
        },
        type_ref: d.type_ref,
        attrs: Seq::new(d.attrs@.len(), |i: int| (d.attrs@[i].0, d.attrs@[i].1@)),
        children: Seq::new(
            d.children@.len(),
            |i: int|
                if 0 <= i < d.children@.len() {
                    die_view(d.children@[i])
                } else {
                    arbitrary()
                },
        ),
    }
}

impl View for Die {
    type V = DieView;

    open spec fn view(&self) -> DieView {
        die_view(*self)
    }
}

/// The value of the first attribute `at`, if any.
pub open spec fn attr_of(attrs: Seq<(u16, AttrView)>, at: u16) -> Option<AttrView>
    decreases attrs.len(),
{
    if attrs.len() == 0 {
        None
    } else if attrs[0].0 == at {
        Some(attrs[0].1)
    } else {
        attr_of(attrs.drop_first(), at)
    }
}

impl Die {
    /// The value of attribute `at`, if the entry has it.
    pub fn attr_value(&self, at: u16) -> (r: Option<&AttrValue>)
        ensures
            match r {
                Some(v) => attr_of(self@.attrs, at) == Some(v@),
                None => attr_of(self@.attrs, at) is None,
            },
    {
        let ghost attrs = self@.attrs;
        let mut i: usize = 0;
        assert(attrs.skip(0) =~= attrs);
        while i < self.attrs.len()
            invariant
                attrs == self@.attrs,
                i <= attrs.len(),
                attr_of(attrs, at) == attr_of(attrs.skip(i as int), at),
            decreases self.attrs.len() - i,
        {
            assert(attrs.skip(i as int).drop_first() =~= attrs.skip(i + 1));
            if self.attrs[i].0 == at {
                assert(attrs.skip(i as int)[0] == attrs[i as int]);
                return Some(&self.attrs[i].1);
            }
            i = i + 1;
        }
        assert(attrs.skip(i as int).len() == 0);
        None
    }
}

} // verus!
