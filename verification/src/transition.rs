//! The listing creation transition: validates its preconditions in order
//! against a caller-supplied storage slot and a paying account, then
//! encodes a new listing into the slot and moves the rent-exemption
//! minimum from the payer to the slot — or fails without mutating either.

use vstd::prelude::*;

use crate::codec::{lemma_packed_record_stays_initialized, spec_pack};
use crate::layout::{IDENTITY_SIZE, RECORD_SIZE};
use crate::model::{AIModel, AIModelView, ListingError};

verus! {

/// One unit of host-managed storage, lent to the transition for exactly
/// one call: its controlling program, its own identity, its balance, and
/// its raw byte buffer.
#[derive(Clone, Debug, PartialEq, Eq)]
pub struct Slot {
    pub owner_program: Vec<u8>,
    pub key: Vec<u8>,
    pub lamports: u64,
    pub data: Vec<u8>,
}

impl Slot {
    /// Nothing about this slot is observably different from `other`.
    pub open spec fn same_as(self, other: Slot) -> bool {
        &&& self.owner_program@ == other.owner_program@
        &&& self.key@ == other.key@
        &&& self.lamports == other.lamports
        &&& self.data@ == other.data@
    }

    /// The raw initialized flag of the slot's storage is clear.
    pub open spec fn flag_clear(self) -> bool {
        self.data@.len() > 0 && self.data@[0] == 0
    }
}

/// The listing a successful creation writes: initialized, the supplied
/// fields, and the payer's identity as the recorded owner.
pub open spec fn created_listing(
    name: Seq<u8>,
    description: Seq<u8>,
    payer_key: Seq<u8>,
    price: u64,
    model_file: Seq<u8>,
) -> AIModelView {
    AIModelView {
        is_initialized: true,
        name,
        description,
        owner: payer_key,
        price,
        model_file,
    }
}

/// The transition's decision: the five preconditions in their fixed order,
/// then the capacity check the codec makes, each with its own failure.
pub open spec fn spec_create_outcome(
    listing_slot: Slot,
    payer_slot: Slot,
    program_id: Seq<u8>,
    rent_minimum: u64,
    record: AIModelView,
) -> Result<(), ListingError> {
    if listing_slot.owner_program@ != program_id {
        Err(ListingError::WrongOwnerProgram)
    } else if listing_slot.data@.len() != RECORD_SIZE {
        Err(ListingError::BadStorageSize)
    } else if !listing_slot.flag_clear() {
        Err(ListingError::AlreadyInitialized)
    } else if listing_slot.lamports < rent_minimum {
        Err(ListingError::NotRentExempt)
    } else if payer_slot.lamports < rent_minimum {
        Err(ListingError::InsufficientFunds)
    } else if !record.fits() {
        Err(ListingError::CapacityExceeded)
    } else {
        Ok(())
    }
}

/// Whether two byte strings hold the same bytes.
fn bytes_eq(a: &Vec<u8>, b: &Vec<u8>) -> (r: bool)
    ensures
        r == (a@ == b@),
{
    if a.len() != b.len() {
        return false;
    }
    let mut i: usize = 0;
    while i < a.len()
        invariant
            a@.len() == b@.len(),
            i <= a@.len(),
            forall|j: int| 0 <= j < i ==> a@[j] == b@[j],
        decreases a@.len() - i,
    {
        if a[i] != b[i] {
            return false;
        }
        i = i + 1;
    }
    proof {
        assert(a@ =~= b@);
    }
    true
}

/// Copies a byte string.
fn copy_bytes(v: &Vec<u8>) -> (r: Vec<u8>)
    ensures
        r@ == v@,
{
    let mut out: Vec<u8> = Vec::new();
    let mut i: usize = 0;
    while i < v.len()
        invariant
            i <= v@.len(),
            out@ == v@.subrange(0, i as int),
        decreases v@.len() - i,
    {
        out.push(v[i]);
        assert(out@ =~= v@.subrange(0, i + 1));
        i = i + 1;
    }
    proof {
        assert(out@ =~= v@);
    }
    out
}

/// Creates one listing in `listing_slot`, paid for by `payer_slot`.
///
/// `rent_minimum` is the rent oracle's minimum balance for `RECORD_SIZE`
/// bytes. The five preconditions are checked in order, each with its own
/// failure; a record whose fields overflow their reserved spans is
/// rejected at encoding time, before any mutation. On success the slot
/// holds the encoded listing with the payer as recorded owner, and the
/// rent minimum has moved from the payer's balance to the slot's.
/// Any failure leaves both slots exactly as they were.
pub fn create_ai_model(
    program_id: &Vec<u8>,
    listing_slot: &mut Slot,
    payer_slot: &mut Slot,
    rent_minimum: u64,
    name: Vec<u8>,
    description: Vec<u8>,
    price: u64,
    model_file: Vec<u8>,
) -> (r: Result<(), ListingError>)
    requires
        old(payer_slot).key@.len() == IDENTITY_SIZE,
        old(listing_slot).lamports + rent_minimum <= u64::MAX,
    ensures
        ({
            let ls = *old(listing_slot);
            let ps = *old(payer_slot);
            &&& r == spec_create_outcome(
                ls,
                ps,
                program_id@,
                rent_minimum,
                created_listing(name@, description@, ps.key@, price, model_file@),
            )
            &&& (r is Err ==> final(listing_slot).same_as(ls) && final(payer_slot).same_as(ps))
            &&& (r is Ok ==> {
                &&& final(listing_slot).data@ == spec_pack(
                    created_listing(name@, description@, ps.key@, price, model_file@),
                )
                &&& final(listing_slot).lamports == ls.lamports + rent_minimum
                &&& final(listing_slot).owner_program@ == ls.owner_program@
                &&& final(listing_slot).key@ == ls.key@
                &&& final(payer_slot).lamports == ps.lamports - rent_minimum
                &&& final(payer_slot).owner_program@ == ps.owner_program@
                &&& final(payer_slot).key@ == ps.key@
                &&& final(payer_slot).data@ == ps.data@
            })
        }),
{
    if !bytes_eq(&listing_slot.owner_program, program_id) {
        return Err(ListingError::WrongOwnerProgram);
    }
    if listing_slot.data.len() != RECORD_SIZE {
        return Err(ListingError::BadStorageSize);
    }
    if listing_slot.data[0] != 0 {
        return Err(ListingError::AlreadyInitialized);
    }
    if listing_slot.lamports < rent_minimum {
        return Err(ListingError::NotRentExempt);
    }
    if payer_slot.lamports < rent_minimum {
        return Err(ListingError::InsufficientFunds);
    }
    let record = AIModel {
        is_initialized: true,
        name,
        description,
        owner: copy_bytes(&payer_slot.key),
        price,
        model_file,
    };
    match record.pack_into_slice(&mut listing_slot.data) {
        Ok(()) => {},
        Err(e) => {
            return Err(e);
        },
    }
    payer_slot.lamports = payer_slot.lamports - rent_minimum;
    listing_slot.lamports = listing_slot.lamports + rent_minimum;
    Ok(())
}

/// Precondition-ordering law: against a slot with the wrong controlling
/// program, the wrong storage size, and a set initialized flag all at once,
/// the reported failure is the first check's, `WrongOwnerProgram`.
pub proof fn lemma_first_failed_check_wins(
    listing_slot: Slot,
    payer_slot: Slot,
    program_id: Seq<u8>,
    rent_minimum: u64,
    record: AIModelView,
)
    requires
        listing_slot.owner_program@ != program_id,
        listing_slot.data@.len() != RECORD_SIZE,
        !listing_slot.flag_clear(),
    ensures
        spec_create_outcome(listing_slot, payer_slot, program_id, rent_minimum, record)
            == Err::<(), ListingError>(ListingError::WrongOwnerProgram),
{
}

/// Re-invocation law: once a slot holds the encoding of an initialized
/// listing — as every successful creation leaves it — any further creation
/// against it fails with `AlreadyInitialized`, whatever the payer, the rent
/// figure, or the new fields.
pub proof fn lemma_reinvocation_fails(
    listing_slot: Slot,
    payer_slot: Slot,
    program_id: Seq<u8>,
    rent_minimum: u64,
    written: AIModelView,
    next: AIModelView,
)
    requires
        written.is_initialized,
        written.fits(),
        listing_slot.data@ == spec_pack(written),
        listing_slot.owner_program@ == program_id,
    ensures
        spec_create_outcome(listing_slot, payer_slot, program_id, rent_minimum, next)
            == Err::<(), ListingError>(ListingError::AlreadyInitialized),
{
    lemma_packed_record_stays_initialized(written);
    assert(listing_slot.data@.len() == RECORD_SIZE);
    assert(!listing_slot.flag_clear());
}

} // verus!
