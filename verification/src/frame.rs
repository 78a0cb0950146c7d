//! The CAN frame: identifier, frame kind, declared length and up to eight
//! payload bytes.

use vstd::prelude::*;
use crate::id::{Id, IdView};

verus! {

/// Most payload bytes that a frame carries.
pub const MAX_DLC: usize = 8;

/// What a frame is: its identifier, its kind, its declared length and the
/// bytes that its payload accessor yields.
pub struct FrameView {
    pub id: IdView,
    pub remote: bool,
    pub dlc: nat,
    pub payload: Seq<u8>,
}

impl FrameView {
    /// The identifier fits its kind, the length is at most eight, the payload
    /// has the declared length, and a remote frame's payload is all zero.
    pub open spec fn wf(self) -> bool {
        &&& self.id.wf()
        &&& self.dlc <= MAX_DLC
        &&& self.payload.len() == self.dlc
        &&& self.remote ==> self.payload == zeros(self.dlc)
    }
}

/// `n` zero bytes.
pub open spec fn zeros(n: nat) -> Seq<u8> {
    Seq::new(n, |i: int| 0u8)
}

/// Serial CAN frame.
#[derive(Debug, Clone, Copy, PartialEq, Eq)]
pub struct Frame {
    id: Id,
    remote: bool,
    dlc: u8,
    data: [u8; 8],
}

impl View for Frame {
    type V = FrameView;

    closed spec fn view(&self) -> FrameView {
        FrameView {
            id: self.id@,
            remote: self.remote,
            dlc: self.dlc as nat,
            payload: self.data@.take(self.dlc as int),
        }
    }
}

impl Frame {
    /// The declared length is at most eight, the identifier fits its kind, and
    /// every storage slot that is not part of a data frame's payload is zero.
    /// Every value of the type satisfies this.
    #[verifier::type_invariant]
    pub closed spec fn wf(self) -> bool {
        &&& self.dlc <= MAX_DLC
        &&& self.id@.wf()
        &&& forall|i: int| (if self.remote { 0 } else { self.dlc as int }) <= i < 8 ==> self.data@[i] == 0
    }

    /// A well-formed frame has a well-formed view.
    pub proof fn lemma_view_wf(self)
        requires
            self.wf(),
        ensures
            self@.wf(),
    {
        assert(self.remote ==> self@.payload =~= zeros(self@.dlc));
    }

    /// Two well-formed frames with the same view are the same frame.
    pub proof fn lemma_view_injective(a: Self, b: Self)
        requires
            a.wf(),
            b.wf(),
            a@ == b@,
        ensures
            a == b,
    {
        Id::lemma_view_injective(a.id, b.id);
        assert forall|i: int| 0 <= i < 8 implies a.data@[i] == b.data@[i] by {
            if i < a.dlc {
                assert(a.data@[i] == a@.payload[i]);
                assert(b.data@[i] == b@.payload[i]);
            }
        }
        assert(a.data =~= b.data);
    }

    /// Makes a data frame that carries `data`, or `None` if `data` is longer
    /// than eight bytes.
    pub fn new(id: Id, data: &[u8]) -> (r: Option<Self>)
        ensures
            match r {
                Some(f) => data@.len() <= MAX_DLC && f.wf() && f@ == (FrameView {
                    id: id@,
                    remote: false,
                    dlc: data@.len(),
                    payload: data@,
                }),
                None => data@.len() > MAX_DLC,
            },
    {
        let n = data.len();
        if n > MAX_DLC {
            return None;
        }
        let mut all = [0u8; 8];
        let mut i: usize = 0;
        while i < n
            invariant
                n == data@.len(),
                n <= 8,
                i <= n,
                forall|k: int| 0 <= k < i ==> all@[k] == data@[k],
                forall|k: int| i <= k < 8 ==> all@[k] == 0,
            decreases n - i,
        {
            all[i] = data[i];
            i += 1;
        }
        id.recall_range();
        let f = Frame { id, remote: false, dlc: n as u8, data: all };
        assert(f@.payload =~= data@);
        Some(f)
    }

    /// Makes a remote frame that asks for `dlc` bytes, or `None` if `dlc` is
    /// more than eight.
    pub fn new_remote(id: Id, dlc: usize) -> (r: Option<Self>)
        ensures
            match r {
                Some(f) => dlc <= MAX_DLC && f.wf() && f@ == (FrameView {
                    id: id@,
                    remote: true,
                    dlc: dlc as nat,
                    payload: zeros(dlc as nat),
                }),
                None => dlc > MAX_DLC,
            },
    {
        if dlc > MAX_DLC {
            return None;
        }
        id.recall_range();
        let f = Frame { id, remote: true, dlc: dlc as u8, data: [0u8; 8] };
        assert(f@.payload =~= zeros(dlc as nat));
        Some(f)
    }

    /// The frame identifier.
    pub fn id(&self) -> (r: Id)
        ensures
            r@ == self@.id,
            r@.wf(),
    {
        proof {
            use_type_invariant(self);
        }
        self.id
    }

    /// The declared length, from 0 to 8.
    pub fn dlc(&self) -> (r: usize)
        ensures
            r == self@.dlc,
            r <= MAX_DLC,
    {
        proof {
            use_type_invariant(self);
        }
        self.dlc as usize
    }

    /// The payload: as many bytes as the declared length says. Those of a
    /// remote frame are zero and carry no meaning.
    pub fn data(&self) -> (r: &[u8])
        ensures
            r@ == self@.payload,
    {
        proof {
            use_type_invariant(self);
        }
        let all = self.data.as_slice();
        vstd::slice::slice_subrange(all, 0, self.dlc as usize)
    }

    /// Whether the identifier is an extended one.
    pub fn is_extended(&self) -> (r: bool)
        ensures
            r == (self@.id is Extended),
    {
        self.id.is_extended()
    }

    /// Whether the identifier is a standard one.
    pub fn is_standard(&self) -> (r: bool)
        ensures
            r == (self@.id is Standard),
    {
        !self.id.is_extended()
    }

    /// Whether this is a remote frame.
    pub fn is_remote_frame(&self) -> (r: bool)
        ensures
            r == self@.remote,
    {
        self.remote
    }

    /// Whether this is a data frame.
    pub fn is_data_frame(&self) -> (r: bool)
        ensures
            r == !self@.remote,
    {
        !self.remote
    }
}

} // verus!
