//! The record codec: a total, deterministic, fixed-width binary mapping
//! between a listing and a `RECORD_SIZE`-byte buffer.
//!
//! `spec_pack` and `spec_unpack` are the mathematical layout; the
//! executable `pack_into_slice` and `unpack_from_slice` are proved against
//! them. The round-trip and field-isolation laws close the module.

use vstd::prelude::*;

use vstd::bytes::{
    lemma_auto_spec_u64_to_from_le_bytes, spec_u64_from_le_bytes, spec_u64_to_le_bytes,
    u64_from_le_bytes, u64_to_le_bytes,
};
use vstd::slice::{slice_subrange, slice_to_vec};

use crate::layout::{
    lemma_not_well_padded, lemma_well_padded_of_split, lemma_zero_pad_round_trip, span_content,
    well_padded, zero_free, zero_pad, DESC_CAP, DESC_OFFSET, FILE_CAP, FILE_OFFSET, FLAG_OFFSET,
    IDENTITY_SIZE, NAME_CAP, NAME_OFFSET, OWNER_OFFSET, PRICE_OFFSET, PRICE_SIZE, RECORD_SIZE,
};
use crate::model::{AIModel, AIModelView, ListingError};

verus! {

/// The byte that encodes the initialized flag.
pub open spec fn flag_byte(initialized: bool) -> u8 {
    if initialized {
        1u8
    } else {
        0u8
    }
}

/// The encoded form of a listing: the fields at their fixed offsets, in
/// layout order, each padded to its reserved capacity.
pub open spec fn spec_pack(m: AIModelView) -> Seq<u8>
    recommends
        m.fits(),
{
    seq![flag_byte(m.is_initialized)] + zero_pad(m.name, NAME_CAP as nat) + zero_pad(
        m.description,
        DESC_CAP as nat,
    ) + m.owner + spec_u64_to_le_bytes(m.price) + zero_pad(m.model_file, FILE_CAP as nat)
}

/// The listing a buffer decodes to, or `None` when the buffer is shorter
/// than `RECORD_SIZE` or a text span's zero padding is broken.
pub open spec fn spec_unpack(buffer: Seq<u8>) -> Option<AIModelView> {
    if buffer.len() < RECORD_SIZE {
        None
    } else {
        let name_span = buffer.subrange(NAME_OFFSET as int, NAME_OFFSET + NAME_CAP);
        let desc_span = buffer.subrange(DESC_OFFSET as int, DESC_OFFSET + DESC_CAP);
        if well_padded(name_span) && well_padded(desc_span) {
            Some(
                AIModelView {
                    is_initialized: buffer[FLAG_OFFSET as int] != 0,
                    name: span_content(name_span),
                    description: span_content(desc_span),
                    owner: buffer.subrange(OWNER_OFFSET as int, OWNER_OFFSET + IDENTITY_SIZE),
                    price: spec_u64_from_le_bytes(
                        buffer.subrange(PRICE_OFFSET as int, PRICE_OFFSET + PRICE_SIZE),
                    ),
                    model_file: buffer.subrange(FILE_OFFSET as int, FILE_OFFSET + FILE_CAP),
                },
            )
        } else {
            None
        }
    }
}

/// Appends `field` to `buf`, zero padded to exactly `cap` bytes.
fn push_padded_field(buf: &mut Vec<u8>, field: &Vec<u8>, cap: usize)
    requires
        field@.len() <= cap,
        old(buf)@.len() + cap <= usize::MAX,
    ensures
        final(buf)@ == old(buf)@ + zero_pad(field@, cap as nat),
{
    let mut i: usize = 0;
    while i < field.len()
        invariant
            i <= field@.len(),
            field@.len() <= cap,
            old(buf)@.len() + cap <= usize::MAX,
            buf@ == old(buf)@ + field@.subrange(0, i as int),
        decreases field@.len() - i,
    {
        let b = field[i];
        buf.push(b);
        assert(buf@ =~= old(buf)@ + field@.subrange(0, i + 1));
        i = i + 1;
    }
    assert(buf@ =~= old(buf)@ + field@);
    let mut j: usize = field.len();
    while j < cap
        invariant
            field@.len() <= j <= cap,
            old(buf)@.len() + cap <= usize::MAX,
            buf@ == old(buf)@ + field@ + Seq::new((j - field@.len()) as nat, |t: int| 0u8),
        decreases cap - j,
    {
        buf.push(0u8);
        assert(buf@ =~= old(buf)@ + field@ + Seq::new((j + 1 - field@.len()) as nat, |t: int| 0u8));
        j = j + 1;
    }
    assert(buf@ =~= old(buf)@ + zero_pad(field@, cap as nat));
}

/// Appends `field` to `buf` unchanged.
fn push_bytes(buf: &mut Vec<u8>, field: &Vec<u8>)
    requires
        old(buf)@.len() + field@.len() <= usize::MAX,
    ensures
        final(buf)@ == old(buf)@ + field@,
{
    push_padded_field(buf, field, field.len());
    assert(zero_pad(field@, field@.len()) =~= field@);
}

/// Reads the `cap`-byte span of `data` at `off` as zero-padded text:
/// its content when the span is well padded, `None` when a nonzero byte
/// follows a zero byte.
fn read_text_span(data: &Vec<u8>, off: usize, cap: usize) -> (r: Option<Vec<u8>>)
    requires
        off + cap <= data.len(),
    ensures
        ({
            let span = data@.subrange(off as int, off + cap);
            match r {
                Some(v) => well_padded(span) && v@ == span_content(span) && v@.len() <= cap,
                None => !well_padded(span),
            }
        }),
{
    let ghost span = data@.subrange(off as int, off + cap);
    let mut k: usize = 0;
    while k < cap && data[off + k] != 0
        invariant
            off + cap <= data.len(),
            k <= cap,
            span == data@.subrange(off as int, off + cap),
            forall|j: int| 0 <= j < k ==> span[j] != 0,
        decreases cap - k,
    {
        k = k + 1;
    }
    assert(k == cap || span[k as int] == 0);
    let mut j: usize = k;
    while j < cap
        invariant
            off + cap <= data.len(),
            k <= j <= cap,
            span == data@.subrange(off as int, off + cap),
            forall|t: int| 0 <= t < k ==> span[t] != 0,
            k == cap || span[k as int] == 0,
            forall|t: int| k <= t < j ==> span[t] == 0,
        decreases cap - j,
    {
        if data[off + j] != 0 {
            proof {
                lemma_not_well_padded(span, k as int, j as int);
            }
            return None;
        }
        j = j + 1;
    }
    proof {
        lemma_well_padded_of_split(span, k as int);
    }
    let content = slice_to_vec(slice_subrange(data.as_slice(), off, off + k));
    assert(content@ =~= span.subrange(0, k as int));
    Some(content)
}

impl AIModel {
    /// Encodes this listing into `output` in place.
    ///
    /// The destination must already be exactly `RECORD_SIZE` bytes, and
    /// every field must fit its reserved span; otherwise the record is
    /// rejected before any byte is written and `output` is untouched.
    pub fn pack_into_slice(&self, output: &mut Vec<u8>) -> (r: Result<(), ListingError>)
        ensures
            r is Ok <==> (old(output)@.len() == RECORD_SIZE && self@.fits()),
            r is Ok ==> final(output)@ == spec_pack(self@) && final(output)@.len() == RECORD_SIZE,
            r is Err ==> final(output)@ == old(output)@,
            r == Err::<(), ListingError>(ListingError::BadStorageSize) <==> old(output)@.len()
                != RECORD_SIZE,
            r == Err::<(), ListingError>(ListingError::CapacityExceeded) <==> (old(output)@.len()
                == RECORD_SIZE && !self@.fits()),
    {
        if output.len() != RECORD_SIZE {
            return Err(ListingError::BadStorageSize);
        }
        if self.name.len() > NAME_CAP || self.description.len() > DESC_CAP || self.owner.len()
            != IDENTITY_SIZE || self.model_file.len() > FILE_CAP {
            return Err(ListingError::CapacityExceeded);
        }
        let mut buf: Vec<u8> = Vec::new();
        if self.is_initialized {
            buf.push(1u8);
        } else {
            buf.push(0u8);
        }
        assert(buf@ =~= seq![flag_byte(self.is_initialized)]);
        push_padded_field(&mut buf, &self.name, NAME_CAP);
        push_padded_field(&mut buf, &self.description, DESC_CAP);
        push_bytes(&mut buf, &self.owner);
        let price_bytes = u64_to_le_bytes(self.price);
        push_bytes(&mut buf, &price_bytes);
        push_padded_field(&mut buf, &self.model_file, FILE_CAP);
        assert(buf@ =~= spec_pack(self@));
        *output = buf;
        Ok(())
    }

    /// Decodes a listing from the first `RECORD_SIZE` bytes of `input`.
    ///
    /// Fails with `MalformedRecord` exactly when the buffer is shorter
    /// than `RECORD_SIZE` or a text span's zero padding is broken.
    pub fn unpack_from_slice(input: &Vec<u8>) -> (r: Result<AIModel, ListingError>)
        ensures
            match r {
                Ok(m) => spec_unpack(input@) == Some(m@) && m@.fits(),
                Err(e) => e == ListingError::MalformedRecord && spec_unpack(input@) is None,
            },
    {
        if input.len() < RECORD_SIZE {
            return Err(ListingError::MalformedRecord);
        }
        let name = match read_text_span(input, NAME_OFFSET, NAME_CAP) {
            Some(v) => v,
            None => {
                return Err(ListingError::MalformedRecord);
            },
        };
        let description = match read_text_span(input, DESC_OFFSET, DESC_CAP) {
            Some(v) => v,
            None => {
                return Err(ListingError::MalformedRecord);
            },
        };
        let is_initialized = input[FLAG_OFFSET] != 0;
        let owner = slice_to_vec(slice_subrange(input.as_slice(), OWNER_OFFSET, OWNER_OFFSET
            + IDENTITY_SIZE));
        let price = u64_from_le_bytes(slice_subrange(input.as_slice(), PRICE_OFFSET, PRICE_OFFSET
            + PRICE_SIZE));
        let model_file = slice_to_vec(slice_subrange(input.as_slice(), FILE_OFFSET, FILE_OFFSET
            + FILE_CAP));
        let record = AIModel { is_initialized, name, description, owner, price, model_file };
        proof {
            assert(spec_unpack(input@) == Some(record@)) by {
                assert(spec_unpack(input@)->Some_0 =~= record@);
            }
        }
        Ok(record)
    }
}

/// The listings the codec maps back to themselves: texts are zero free and
/// within capacity, the identity has its true width, and the file payload
/// fills its whole span (a shorter payload decodes to its padded form).
pub open spec fn round_trippable(m: AIModelView) -> bool {
    &&& zero_free(m.name)
    &&& m.name.len() <= NAME_CAP
    &&& zero_free(m.description)
    &&& m.description.len() <= DESC_CAP
    &&& m.owner.len() == IDENTITY_SIZE
    &&& m.model_file.len() == FILE_CAP
}

/// Round-trip law: decoding an encoded listing gives the listing back.
pub proof fn lemma_pack_unpack_round_trip(m: AIModelView)
    requires
        round_trippable(m),
    ensures
        spec_unpack(spec_pack(m)) == Some(m),
{
    lemma_auto_spec_u64_to_from_le_bytes();
    let s = spec_pack(m);
    assert(zero_pad(m.name, NAME_CAP as nat).len() == NAME_CAP);
    assert(zero_pad(m.description, DESC_CAP as nat).len() == DESC_CAP);
    assert(zero_pad(m.model_file, FILE_CAP as nat).len() == FILE_CAP);
    assert(s.len() == RECORD_SIZE);
    let name_span = s.subrange(NAME_OFFSET as int, NAME_OFFSET + NAME_CAP);
    let desc_span = s.subrange(DESC_OFFSET as int, DESC_OFFSET + DESC_CAP);
    assert(name_span =~= zero_pad(m.name, NAME_CAP as nat));
    assert(desc_span =~= zero_pad(m.description, DESC_CAP as nat));
    lemma_zero_pad_round_trip(m.name, NAME_CAP as nat);
    lemma_zero_pad_round_trip(m.description, DESC_CAP as nat);
    assert(s.subrange(OWNER_OFFSET as int, OWNER_OFFSET + IDENTITY_SIZE) =~= m.owner);
    assert(s.subrange(PRICE_OFFSET as int, PRICE_OFFSET + PRICE_SIZE) =~= spec_u64_to_le_bytes(
        m.price,
    ));
    assert(s.subrange(FILE_OFFSET as int, FILE_OFFSET + FILE_CAP) =~= zero_pad(
        m.model_file,
        FILE_CAP as nat,
    ));
    assert(zero_pad(m.model_file, FILE_CAP as nat) =~= m.model_file);
    assert(s[FLAG_OFFSET as int] == flag_byte(m.is_initialized));
    assert(spec_unpack(s)->Some_0 =~= m);
}

/// Field-isolation law: two listings that differ only in `price` encode to
/// buffers identical outside the price span.
pub proof fn lemma_price_field_isolation(a: AIModelView, b: AIModelView)
    requires
        a.fits(),
        b.is_initialized == a.is_initialized,
        b.name == a.name,
        b.description == a.description,
        b.owner == a.owner,
        b.model_file == a.model_file,
    ensures
        spec_pack(a).len() == spec_pack(b).len(),
        forall|i: int|
            0 <= i < spec_pack(a).len() && !(PRICE_OFFSET <= i < PRICE_OFFSET + PRICE_SIZE)
                ==> spec_pack(a)[i] == spec_pack(b)[i],
{
    lemma_auto_spec_u64_to_from_le_bytes();
    let sa = spec_pack(a);
    let sb = spec_pack(b);
    assert(sa.len() == sb.len());
    assert forall|i: int|
        0 <= i < sa.len() && !(PRICE_OFFSET <= i < PRICE_OFFSET + PRICE_SIZE) implies sa[i]
        == sb[i] by {
        assert(zero_pad(a.name, NAME_CAP as nat).len() == NAME_CAP);
        assert(zero_pad(a.description, DESC_CAP as nat).len() == DESC_CAP);
    }
}

/// Re-invocation law: a record packed by a creation transition carries
/// `initialized = true`, so its flag byte is nonzero and its size is
/// `RECORD_SIZE`; the transition's already-initialized check therefore
/// rejects any further creation against the same slot.
pub proof fn lemma_packed_record_stays_initialized(m: AIModelView)
    requires
        m.is_initialized,
        m.fits(),
    ensures
        spec_pack(m).len() == RECORD_SIZE,
        spec_pack(m)[FLAG_OFFSET as int] != 0,
{
    lemma_auto_spec_u64_to_from_le_bytes();
    assert(zero_pad(m.name, NAME_CAP as nat).len() == NAME_CAP);
    assert(zero_pad(m.description, DESC_CAP as nat).len() == DESC_CAP);
    assert(zero_pad(m.model_file, FILE_CAP as nat).len() == FILE_CAP);
    assert(spec_pack(m)[FLAG_OFFSET as int] == flag_byte(true));
}

} // verus!
