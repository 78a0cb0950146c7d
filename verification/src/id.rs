//! CAN identifiers: 11-bit standard and 29-bit extended.
//!
//! The range of each kind is the one that the `embedded-can` crate enforces;
//! every raw value is passed through that crate's constructor before it is
//! accepted here.

use vstd::prelude::*;

verus! {

/// Largest standard identifier.
pub const STANDARD_ID_MAX: u16 = 0x7FF;

/// Largest extended identifier.
pub const EXTENDED_ID_MAX: u32 = 0x1FFF_FFFF;

/// Runs `raw` through `embedded_can::StandardId::new` and reads the result back
/// with `as_raw`.
///
/// Trusted: the outside constructor accepts exactly the values up to `0x7FF`,
/// and `as_raw` returns the accepted value unchanged.
#[verifier::external_body]
fn checked_standard_raw(raw: u16) -> (r: Option<u16>)
    ensures
        r == (if raw <= STANDARD_ID_MAX { Some(raw) } else { None::<u16> }),
{
    match embedded_can::StandardId::new(raw) {
        Some(id) => Some(id.as_raw()),
        None => None,
    }
}

/// Runs `raw` through `embedded_can::ExtendedId::new` and reads the result back
/// with `as_raw`.
///
/// Trusted: the outside constructor accepts exactly the values up to
/// `0x1FFF_FFFF`, and `as_raw` returns the accepted value unchanged.
#[verifier::external_body]
fn checked_extended_raw(raw: u32) -> (r: Option<u32>)
    ensures
        r == (if raw <= EXTENDED_ID_MAX { Some(raw) } else { None::<u32> }),
{
    match embedded_can::ExtendedId::new(raw) {
        Some(id) => Some(id.as_raw()),
        None => None,
    }
}

/// Standard 11-bit CAN identifier (`0..=0x7FF`).
#[derive(Debug, Clone, Copy, PartialEq, Eq, Hash)]
pub struct StandardId {
    raw: u16,
}

impl View for StandardId {
    type V = nat;

    closed spec fn view(&self) -> nat {
        self.raw as nat
    }
}

impl StandardId {
    /// The identifier fits in 11 bits. Every value of the type does.
    #[verifier::type_invariant]
    pub open spec fn wf(self) -> bool {
        self@ <= STANDARD_ID_MAX
    }

    /// Makes an identifier from a raw value, or `None` if it needs more than 11 bits.
    pub fn new(raw: u16) -> (r: Option<Self>)
        ensures
            match r {
                Some(id) => raw <= STANDARD_ID_MAX && id@ == raw && id.wf(),
                None => raw > STANDARD_ID_MAX,
            },
    {
        match checked_standard_raw(raw) {
            Some(raw) => Some(StandardId { raw }),
            None => None,
        }
    }

    /// The identifier as a raw integer.
    pub fn as_raw(&self) -> (r: u16)
        ensures
            r == self@,
            self.wf(),
    {
        proof {
            use_type_invariant(self);
        }
        self.raw
    }

    /// Two identifiers with the same value are the same identifier.
    pub proof fn lemma_view_injective(a: Self, b: Self)
        requires
            a@ == b@,
        ensures
            a == b,
    {
    }
}

/// Extended 29-bit CAN identifier (`0..=0x1FFF_FFFF`).
#[derive(Debug, Clone, Copy, PartialEq, Eq, Hash)]
pub struct ExtendedId {
    raw: u32,
}

impl View for ExtendedId {
    type V = nat;

    closed spec fn view(&self) -> nat {
        self.raw as nat
    }
}

impl ExtendedId {
    /// The identifier fits in 29 bits. Every value of the type does.
    #[verifier::type_invariant]
    pub open spec fn wf(self) -> bool {
        self@ <= EXTENDED_ID_MAX
    }

    /// Makes an identifier from a raw value, or `None` if it needs more than 29 bits.
    pub fn new(raw: u32) -> (r: Option<Self>)
        ensures
            match r {
                Some(id) => raw <= EXTENDED_ID_MAX && id@ == raw && id.wf(),
                None => raw > EXTENDED_ID_MAX,
            },
    {
        match checked_extended_raw(raw) {
            Some(raw) => Some(ExtendedId { raw }),
            None => None,
        }
    }

    /// The identifier as a raw integer.
    pub fn as_raw(&self) -> (r: u32)
        ensures
            r == self@,
            self.wf(),
    {
        proof {
            use_type_invariant(self);
        }
        self.raw
    }

    /// Two identifiers with the same value are the same identifier.
    pub proof fn lemma_view_injective(a: Self, b: Self)
        requires
            a@ == b@,
        ensures
            a == b,
    {
    }
}

/// What an identifier is, as a number with its kind.
pub enum IdView {
    Standard(nat),
    Extended(nat),
}

impl IdView {
    /// The number, whatever the kind.
    pub open spec fn raw(self) -> nat {
        match self {
            IdView::Standard(v) => v,
            IdView::Extended(v) => v,
        }
    }

    /// The largest number that the kind allows.
    pub open spec fn max(self) -> nat {
        match self {
            IdView::Standard(_) => STANDARD_ID_MAX as nat,
            IdView::Extended(_) => EXTENDED_ID_MAX as nat,
        }
    }

    /// The number fits the kind.
    pub open spec fn wf(self) -> bool {
        self.raw() <= self.max()
    }
}

/// A CAN identifier, standard or extended.
#[derive(Debug, Clone, Copy, PartialEq, Eq, Hash)]
pub enum Id {
    /// Standard 11-bit identifier.
    Standard(StandardId),
    /// Extended 29-bit identifier.
    Extended(ExtendedId),
}

impl View for Id {
    type V = IdView;

    open spec fn view(&self) -> IdView {
        match self {
            Id::Standard(id) => IdView::Standard(id@),
            Id::Extended(id) => IdView::Extended(id@),
        }
    }
}

impl From<StandardId> for Id {
    fn from(id: StandardId) -> (r: Id) {
        Id::Standard(id)
    }
}

impl vstd::std_specs::convert::FromSpecImpl<StandardId> for Id {
    open spec fn obeys_from_spec() -> bool {
        true
    }

    open spec fn from_spec(id: StandardId) -> Id {
        Id::Standard(id)
    }
}

impl From<ExtendedId> for Id {
    fn from(id: ExtendedId) -> (r: Id) {
        Id::Extended(id)
    }
}

impl vstd::std_specs::convert::FromSpecImpl<ExtendedId> for Id {
    open spec fn obeys_from_spec() -> bool {
        true
    }

    open spec fn from_spec(id: ExtendedId) -> Id {
        Id::Extended(id)
    }
}

impl Id {
    /// Whether this is an extended identifier.
    pub fn is_extended(&self) -> (r: bool)
        ensures
            r == (self@ is Extended),
    {
        match self {
            Id::Standard(_) => false,
            Id::Extended(_) => true,
        }
    }

    /// The identifier as a raw integer, whatever its kind.
    pub fn as_raw(&self) -> (r: u32)
        ensures
            r == self@.raw(),
            self@.wf(),
    {
        match self {
            Id::Standard(id) => id.as_raw() as u32,
            Id::Extended(id) => id.as_raw(),
        }
    }

    /// Brings into a proof what every identifier satisfies: it fits its kind.
    /// Does nothing when run.
    pub(crate) fn recall_range(&self)
        ensures
            self@.wf(),
    {
        match self {
            Id::Standard(id) => {
                proof {
                    use_type_invariant(id);
                }
            },
            Id::Extended(id) => {
                proof {
                    use_type_invariant(id);
                }
            },
        }
    }

    /// Two identifiers with the same kind and value are the same identifier.
    pub proof fn lemma_view_injective(a: Self, b: Self)
        requires
            a@ == b@,
        ensures
            a == b,
    {
        match (a, b) {
            (Id::Standard(x), Id::Standard(y)) => StandardId::lemma_view_injective(x, y),
            (Id::Extended(x), Id::Extended(y)) => ExtendedId::lemma_view_injective(x, y),
            _ => {},
        }
    }
}

} // verus!
