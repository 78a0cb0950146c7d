//! The nine bus speeds that an adapter can be set to.

use vstd::prelude::*;

verus! {

/// Bitrate options.
#[derive(Debug, PartialEq, Eq, Copy, Clone)]
pub enum Bitrate {
    Rate10kbit,
    Rate20kbit,
    Rate50kbit,
    Rate100kbit,
    Rate125kbit,
    Rate250kbit,
    Rate500kbit,
    Rate800kbit,
    Rate1000kbit,
}

impl Bitrate {
    /// The number that names the bitrate on the wire.
    pub open spec fn spec_code(self) -> u8 {
        match self {
            Bitrate::Rate10kbit => 0,
            Bitrate::Rate20kbit => 1,
            Bitrate::Rate50kbit => 2,
            Bitrate::Rate100kbit => 3,
            Bitrate::Rate125kbit => 4,
            Bitrate::Rate250kbit => 5,
            Bitrate::Rate500kbit => 6,
            Bitrate::Rate800kbit => 7,
            Bitrate::Rate1000kbit => 8,
        }
    }

    /// The bitrate that `code` names, if it names one.
    pub open spec fn spec_from_code(code: int) -> Option<Bitrate> {
        if code == 0 {
            Some(Bitrate::Rate10kbit)
        } else if code == 1 {
            Some(Bitrate::Rate20kbit)
        } else if code == 2 {
            Some(Bitrate::Rate50kbit)
        } else if code == 3 {
            Some(Bitrate::Rate100kbit)
        } else if code == 4 {
            Some(Bitrate::Rate125kbit)
        } else if code == 5 {
            Some(Bitrate::Rate250kbit)
        } else if code == 6 {
            Some(Bitrate::Rate500kbit)
        } else if code == 7 {
            Some(Bitrate::Rate800kbit)
        } else if code == 8 {
            Some(Bitrate::Rate1000kbit)
        } else {
            None
        }
    }

    /// The number that names the bitrate on the wire, from 0 to 8.
    #[verifier::when_used_as_spec(spec_code)]
    pub fn code(self) -> (r: u8)
        ensures
            r == self.spec_code(),
            r <= 8,
    {
        match self {
            Bitrate::Rate10kbit => 0,
            Bitrate::Rate20kbit => 1,
            Bitrate::Rate50kbit => 2,
            Bitrate::Rate100kbit => 3,
            Bitrate::Rate125kbit => 4,
            Bitrate::Rate250kbit => 5,
            Bitrate::Rate500kbit => 6,
            Bitrate::Rate800kbit => 7,
            Bitrate::Rate1000kbit => 8,
        }
    }

    /// The bitrate that `code` names, or `None` if it names none.
    pub fn from_code(code: u8) -> (r: Option<Bitrate>)
        ensures
            r == Bitrate::spec_from_code(code as int),
    {
        match code {
            0 => Some(Bitrate::Rate10kbit),
            1 => Some(Bitrate::Rate20kbit),
            2 => Some(Bitrate::Rate50kbit),
            3 => Some(Bitrate::Rate100kbit),
            4 => Some(Bitrate::Rate125kbit),
            5 => Some(Bitrate::Rate250kbit),
            6 => Some(Bitrate::Rate500kbit),
            7 => Some(Bitrate::Rate800kbit),
            8 => Some(Bitrate::Rate1000kbit),
            _ => None,
        }
    }

    /// A code names the bitrate whose code it is, and no number above 8 names
    /// one.
    pub proof fn lemma_code_names_bitrate(self)
        ensures
            self.spec_code() <= 8,
            Bitrate::spec_from_code(self.spec_code() as int) == Some(self),
            forall|code: int| Bitrate::spec_from_code(code) is Some <==> 0 <= code <= 8,
    {
    }
}

} // verus!
