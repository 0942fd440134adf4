//! The listing record itself, its mathematical view, and the error
//! taxonomy shared by the codec and the creation transition.

use vstd::prelude::*;

use crate::layout::{DESC_CAP, FILE_CAP, IDENTITY_SIZE, NAME_CAP};

verus! {

/// One purchasable AI model listing.
///
/// `name` and `description` are short byte texts (at most `NAME_CAP` and
/// `DESC_CAP` bytes); `owner` is a 32-byte identity handle; `model_file`
/// is the artifact content, at most `FILE_CAP` bytes. Shorter fields are
/// zero padded by the codec, not by the record itself.
#[derive(Clone, Debug, PartialEq, Eq)]
pub struct AIModel {
    pub is_initialized: bool,
    pub name: Vec<u8>,
    pub description: Vec<u8>,
    pub owner: Vec<u8>,
    pub price: u64,
    pub model_file: Vec<u8>,
}

/// The mathematical value of a listing: the same fields as sequences.
#[verifier::ext_equal]
pub ghost struct AIModelView {
    pub is_initialized: bool,
    pub name: Seq<u8>,
    pub description: Seq<u8>,
    pub owner: Seq<u8>,
    pub price: u64,
    pub model_file: Seq<u8>,
}

impl View for AIModel {
    type V = AIModelView;

    open spec fn view(&self) -> AIModelView {
        AIModelView {
            is_initialized: self.is_initialized,
            name: self.name@,
            description: self.description@,
            owner: self.owner@,
            price: self.price,
            model_file: self.model_file@,
        }
    }
}

impl AIModelView {
    /// Every variable-width field fits its reserved span and the identity
    /// has its one true width: exactly what the codec can encode.
    pub open spec fn fits(self) -> bool {
        &&& self.name.len() <= NAME_CAP
        &&& self.description.len() <= DESC_CAP
        &&& self.owner.len() == IDENTITY_SIZE
        &&& self.model_file.len() <= FILE_CAP
    }
}

impl AIModel {
    /// Whether this record has been written by a creation transition.
    pub fn is_initialized(&self) -> (r: bool)
        ensures
            r == self.is_initialized,
    {
        self.is_initialized
    }
}

impl Default for AIModel {
    /// A never-written listing: uninitialized, empty texts and payload, a
    /// zeroed identity, price zero.
    fn default() -> (r: AIModel)
        ensures
            !r.is_initialized,
            r.name@ == Seq::<u8>::empty(),
            r.description@ == Seq::<u8>::empty(),
            r.owner@ == Seq::new(IDENTITY_SIZE as nat, |i: int| 0u8),
            r.price == 0,
            r.model_file@ == Seq::<u8>::empty(),
            r@.fits(),
    {
        let mut owner: Vec<u8> = Vec::new();
        let mut i: usize = 0;
        while i < IDENTITY_SIZE
            invariant
                i <= IDENTITY_SIZE,
                owner@ =~= Seq::new(i as nat, |j: int| 0u8),
            decreases IDENTITY_SIZE - i,
        {
            owner.push(0u8);
            i = i + 1;
        }
        AIModel {
            is_initialized: false,
            name: Vec::new(),
            description: Vec::new(),
            owner,
            price: 0,
            model_file: Vec::new(),
        }
    }
}

/// Every way the codec or the creation transition can fail.
///
/// The first five are the transition's precondition failures, detected in
/// this order before any mutation. `CapacityExceeded` rejects a record
/// whose fields do not fit their reserved spans before a byte is written.
/// `MalformedRecord` is decode-time only: a truncated buffer or a text
/// span whose padding is broken.
#[derive(Clone, Copy, Debug, PartialEq, Eq)]
pub enum ListingError {
    WrongOwnerProgram,
    BadStorageSize,
    AlreadyInitialized,
    NotRentExempt,
    InsufficientFunds,
    CapacityExceeded,
    MalformedRecord,
}

} // verus!
