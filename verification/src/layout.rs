//! The fixed binary layout of a listing record: field capacities, field
//! offsets, and the zero-padding discipline used for the variable-length
//! fields (texts and the file payload).
//!
//! A record is `RECORD_SIZE` bytes: one flag byte, the name span, the
//! description span, the owner identity, the price (little endian), and the
//! file payload span. Every offset is derived from the capacity constants,
//! so the cursor for a field can never drift from the declared widths.

use vstd::prelude::*;

verus! {

/// Capacity of the name field in bytes.
pub const NAME_CAP: usize = 32;

/// Capacity of the description field in bytes.
pub const DESC_CAP: usize = 32;

/// Byte width of an identity handle (an account key).
pub const IDENTITY_SIZE: usize = 32;

/// Byte width of the price field (a little-endian unsigned 64-bit integer).
pub const PRICE_SIZE: usize = 8;

/// Capacity of the model file payload in bytes.
pub const FILE_CAP: usize = 1024;

/// Offset of the initialized flag byte.
pub const FLAG_OFFSET: usize = 0;

/// Offset of the name span.
pub const NAME_OFFSET: usize = 1;

/// Offset of the description span.
pub const DESC_OFFSET: usize = NAME_OFFSET + NAME_CAP;

/// Offset of the owner identity span.
pub const OWNER_OFFSET: usize = DESC_OFFSET + DESC_CAP;

/// Offset of the price span.
pub const PRICE_OFFSET: usize = OWNER_OFFSET + IDENTITY_SIZE;

/// Offset of the file payload span.
pub const FILE_OFFSET: usize = PRICE_OFFSET + PRICE_SIZE;

/// Total encoded size of one record; the single source of truth for how
/// much storage a listing requires.
pub const RECORD_SIZE: usize = FILE_OFFSET + FILE_CAP;

/// `content` extended with zero bytes up to `cap`.
pub open spec fn zero_pad(content: Seq<u8>, cap: nat) -> Seq<u8>
    recommends
        content.len() <= cap,
{
    content + Seq::new((cap - content.len()) as nat, |i: int| 0u8)
}

/// The bytes of a fixed-width span that precede its first zero byte: the
/// content that the span carries, with the zero padding removed.
pub open spec fn span_content(span: Seq<u8>) -> Seq<u8>
    decreases span.len(),
{
    if span.len() == 0 {
        Seq::empty()
    } else if span[0] == 0 {
        Seq::empty()
    } else {
        seq![span[0]] + span_content(span.drop_first())
    }
}

/// No byte of `s` is zero, so `s` survives zero padding intact.
pub open spec fn zero_free(s: Seq<u8>) -> bool {
    forall|i: int| 0 <= i < s.len() ==> s[i] != 0
}

/// A fixed-width span is well formed when it is exactly its content
/// followed by zero padding: no nonzero byte may follow a zero byte.
pub open spec fn well_padded(span: Seq<u8>) -> bool {
    span == zero_pad(span_content(span), span.len())
}

/// The content of a span whose first `k` bytes are nonzero and which is
/// zero from position `k` on (if `k` is inside the span) is exactly the
/// prefix of length `k`.
pub proof fn lemma_span_content_prefix(span: Seq<u8>, k: int)
    requires
        0 <= k <= span.len(),
        forall|j: int| 0 <= j < k ==> span[j] != 0,
        k == span.len() || span[k] == 0,
    ensures
        span_content(span) == span.subrange(0, k),
    decreases span.len(),
{
    if span.len() == 0 {
        assert(span.subrange(0, 0) =~= Seq::<u8>::empty());
    } else if k == 0 {
        assert(span.subrange(0, 0) =~= Seq::<u8>::empty());
    } else {
        let rest = span.drop_first();
        assert(forall|j: int| 0 <= j < k - 1 ==> rest[j] != 0);
        lemma_span_content_prefix(rest, k - 1);
        assert(span_content(span) =~= span.subrange(0, k)) by {
            assert(span_content(span) == seq![span[0]] + rest.subrange(0, k - 1));
        }
    }
}

/// A span whose first `k` bytes are nonzero and whose remaining bytes are
/// all zero is well padded.
pub proof fn lemma_well_padded_of_split(span: Seq<u8>, k: int)
    requires
        0 <= k <= span.len(),
        forall|j: int| 0 <= j < k ==> span[j] != 0,
        forall|j: int| k <= j < span.len() ==> span[j] == 0,
    ensures
        well_padded(span),
        span_content(span) == span.subrange(0, k),
{
    lemma_span_content_prefix(span, k);
    assert(zero_pad(span_content(span), span.len()) =~= span);
}

/// Zero padding a zero-free content to any capacity that holds it gives a
/// well-padded span, and stripping the padding gives the content back.
pub proof fn lemma_zero_pad_round_trip(content: Seq<u8>, cap: nat)
    requires
        zero_free(content),
        content.len() <= cap,
    ensures
        zero_pad(content, cap).len() == cap,
        well_padded(zero_pad(content, cap)),
        span_content(zero_pad(content, cap)) == content,
{
    let span = zero_pad(content, cap);
    assert(forall|j: int| 0 <= j < content.len() ==> span[j] != 0);
    lemma_well_padded_of_split(span, content.len() as int);
    assert(span.subrange(0, content.len() as int) =~= content);
}

/// A span with a nonzero byte after a zero byte is not well padded.
pub proof fn lemma_not_well_padded(span: Seq<u8>, k: int, i: int)
    requires
        0 <= k < i < span.len(),
        forall|j: int| 0 <= j < k ==> span[j] != 0,
        span[k] == 0,
        span[i] != 0,
    ensures
        !well_padded(span),
{
    lemma_span_content_prefix(span, k);
    let padded = zero_pad(span_content(span), span.len());
    assert(padded[i] == 0);
}

} // verus!
