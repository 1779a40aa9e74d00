//! The attribute mask: which facts about a file are asked for or present.
//!
//! A mask is a set over two attributes, `content` and `aux_data`, with the
//! usual set operators. Auxiliary data can be computed from content, which
//! `with_computable` expresses.

use core::ops::{BitAnd, BitOr, Not, Sub};
use vstd::prelude::*;
use vstd::std_specs::ops::{BitAndSpecImpl, BitOrSpecImpl, NotSpecImpl, SubSpecImpl};

verus! {

/// A set over the two attributes a file can carry: its content and its
/// auxiliary data.
#[derive(Copy, Clone, Debug, PartialEq, Eq, Hash, Structural)]
pub struct FileAttributes {
    pub content: bool,
    pub aux_data: bool,
}

impl FileAttributes {
    /// The empty mask.
    pub open spec fn spec_empty() -> FileAttributes {
        FileAttributes { content: false, aux_data: false }
    }

    /// The mask that holds only `content`.
    pub open spec fn spec_only_content() -> FileAttributes {
        FileAttributes { content: true, aux_data: false }
    }

    /// The mask that holds only `aux_data`.
    pub open spec fn spec_only_aux() -> FileAttributes {
        FileAttributes { content: false, aux_data: true }
    }

    /// The empty mask.
    #[verifier::when_used_as_spec(spec_empty)]
    pub fn empty() -> (r: FileAttributes)
        ensures
            r == Self::spec_empty(),
    {
        FileAttributes { content: false, aux_data: false }
    }

    /// The mask that holds only `content`.
    #[verifier::when_used_as_spec(spec_only_content)]
    pub fn only_content() -> (r: FileAttributes)
        ensures
            r == Self::spec_only_content(),
    {
        FileAttributes { content: true, aux_data: false }
    }

    /// The mask that holds only `aux_data`.
    #[verifier::when_used_as_spec(spec_only_aux)]
    pub fn only_aux() -> (r: FileAttributes)
        ensures
            r == Self::spec_only_aux(),
    {
        FileAttributes { content: false, aux_data: true }
    }

    /// The attributes of `self` that are also in `other`.
    pub open spec fn intersect(self, other: FileAttributes) -> FileAttributes {
        FileAttributes {
            content: self.content && other.content,
            aux_data: self.aux_data && other.aux_data,
        }
    }

    /// The attributes in `self` or in `other`.
    pub open spec fn union(self, other: FileAttributes) -> FileAttributes {
        FileAttributes {
            content: self.content || other.content,
            aux_data: self.aux_data || other.aux_data,
        }
    }

    /// The attributes that are not in `self`.
    pub open spec fn complement(self) -> FileAttributes {
        FileAttributes { content: !self.content, aux_data: !self.aux_data }
    }

    /// The attributes of `self` that are not in `other`.
    pub open spec fn difference(self, other: FileAttributes) -> FileAttributes {
        self.intersect(other.complement())
    }

    /// `self` is a subset of `other`.
    pub open spec fn subset_of(self, other: FileAttributes) -> bool {
        (self.content ==> other.content) && (self.aux_data ==> other.aux_data)
    }

    /// No attribute is set.
    pub open spec fn spec_none(&self) -> bool {
        !self.content && !self.aux_data
    }

    /// At least one attribute is set.
    pub open spec fn spec_any(&self) -> bool {
        self.content || self.aux_data
    }

    /// Every attribute is set.
    pub open spec fn spec_all(&self) -> bool {
        self.content && self.aux_data
    }

    /// Every attribute of `attrs` is set in `self`.
    pub open spec fn spec_has(&self, attrs: FileAttributes) -> bool {
        attrs.subset_of(*self)
    }

    /// The mask together with what can be computed from it: auxiliary data
    /// is computable from content.
    pub open spec fn spec_with_computable(&self) -> FileAttributes {
        FileAttributes { content: self.content, aux_data: self.aux_data || self.content }
    }

    /// Returns all the attributes which are present or can be computed from
    /// present attributes.
    #[verifier::when_used_as_spec(spec_with_computable)]
    pub fn with_computable(&self) -> (r: FileAttributes)
        ensures
            r == self.spec_with_computable(),
    {
        if self.content {
            *self | FileAttributes::only_aux()
        } else {
            *self
        }
    }

    /// Returns true if all the specified attributes are set, otherwise false.
    #[verifier::when_used_as_spec(spec_has)]
    pub fn has(&self, attrs: FileAttributes) -> (r: bool)
        ensures
            r == self.spec_has(attrs),
    {
        (attrs - *self).none()
    }

    /// Returns true if no attributes are set, otherwise false.
    #[verifier::when_used_as_spec(spec_none)]
    pub fn none(&self) -> (r: bool)
        ensures
            r == self.spec_none(),
    {
        *self == FileAttributes::empty()
    }

    /// Returns true if at least one attribute is set, otherwise false.
    #[verifier::when_used_as_spec(spec_any)]
    pub fn any(&self) -> (r: bool)
        ensures
            r == self.spec_any(),
    {
        *self != FileAttributes::empty()
    }

    /// Returns true if all attributes are set, otherwise false.
    #[verifier::when_used_as_spec(spec_all)]
    pub fn all(&self) -> (r: bool)
        ensures
            r == self.spec_all(),
    {
        self.not() == FileAttributes::empty()
    }
}

impl Not for FileAttributes {
    type Output = FileAttributes;

    fn not(self) -> (r: FileAttributes) {
        FileAttributes { content: !self.content, aux_data: !self.aux_data }
    }
}

impl NotSpecImpl for FileAttributes {
    open spec fn obeys_not_spec() -> bool {
        true
    }

    open spec fn not_req(self) -> bool {
        true
    }

    open spec fn not_spec(self) -> FileAttributes {
        self.complement()
    }
}

impl BitAnd for FileAttributes {
    type Output = FileAttributes;

    fn bitand(self, rhs: FileAttributes) -> (r: FileAttributes) {
        FileAttributes {
            content: self.content && rhs.content,
            aux_data: self.aux_data && rhs.aux_data,
        }
    }
}

impl BitAndSpecImpl for FileAttributes {
    open spec fn obeys_bitand_spec() -> bool {
        true
    }

    open spec fn bitand_req(self, rhs: FileAttributes) -> bool {
        true
    }

    open spec fn bitand_spec(self, rhs: FileAttributes) -> FileAttributes {
        self.intersect(rhs)
    }
}

impl BitOr for FileAttributes {
    type Output = FileAttributes;

    fn bitor(self, rhs: FileAttributes) -> (r: FileAttributes) {
        FileAttributes {
            content: self.content || rhs.content,
            aux_data: self.aux_data || rhs.aux_data,
        }
    }
}

impl BitOrSpecImpl for FileAttributes {
    open spec fn obeys_bitor_spec() -> bool {
        true
    }

    open spec fn bitor_req(self, rhs: FileAttributes) -> bool {
        true
    }

    open spec fn bitor_spec(self, rhs: FileAttributes) -> FileAttributes {
        self.union(rhs)
    }
}

/// Subtraction is set difference: the attributes of the left operand that
/// the right operand lacks.
impl Sub for FileAttributes {
    type Output = FileAttributes;

    fn sub(self, rhs: FileAttributes) -> (r: FileAttributes) {
        self & rhs.not()
    }
}

impl SubSpecImpl for FileAttributes {
    open spec fn obeys_sub_spec() -> bool {
        true
    }

    open spec fn sub_req(self, rhs: FileAttributes) -> bool {
        true
    }

    open spec fn sub_spec(self, rhs: FileAttributes) -> FileAttributes {
        self.difference(rhs)
    }
}

} // verus!
