//! The liveness tag ("discriminator") of a stored record: the fixed leading
//! bytes that identify a record as an open lottery entry or as a closed
//! account.  The closed sentinel is the ledger framework's system-wide
//! closed-account discriminator; the open tag is this record type's own.

use vstd::prelude::*;

use crate::errors::MintError;

verus! {

/// Width of a liveness tag in bytes.
pub const TAG_LEN: usize = 8;

/// The system-wide closed-account sentinel: eight 0xFF bytes.
pub open spec fn spec_closed_tag() -> Seq<u8> {
    seq![255u8, 255u8, 255u8, 255u8, 255u8, 255u8, 255u8, 255u8]
}

/// The open-record tag of a lottery entry (a fixed eight-byte constant of
/// this record type; its first byte differs from 0 and from 0xFF, so an open
/// record can never be mistaken for a blank slot or a closed one).
pub open spec fn spec_open_tag() -> Seq<u8> {
    seq![76u8, 79u8, 84u8, 84u8, 69u8, 82u8, 89u8, 33u8]
}

/// Relies on `anchor_lang::__private::CLOSED_ACCOUNT_DISCRIMINATOR`: the
/// runtime's closed-account sentinel is eight 0xFF bytes.
#[verifier::external_body]
pub fn closed_tag() -> (r: Vec<u8>)
    ensures
        r@ == spec_closed_tag(),
{
    anchor_lang::__private::CLOSED_ACCOUNT_DISCRIMINATOR.to_vec()
}

/// The open-record tag as bytes.
pub fn open_tag() -> (r: Vec<u8>)
    ensures
        r@ == spec_open_tag(),
{
    let mut v: Vec<u8> = Vec::new();
    v.push(76);
    v.push(79);
    v.push(84);
    v.push(84);
    v.push(69);
    v.push(82);
    v.push(89);
    v.push(33);
    proof {
        assert(v@ =~= spec_open_tag());
    }
    v
}

/// Whether stored bytes are recognized as a closed account: strictly longer
/// than the tag, and the leading bytes equal the closed sentinel.
pub open spec fn spec_is_closed(d: Seq<u8>) -> bool {
    d.len() > TAG_LEN && d.subrange(0, TAG_LEN as int) == spec_closed_tag()
}

/// The closed-tag check used by the drain path: it inspects bytes only and
/// asks nothing about who owns the record or who is calling.
pub fn check_closed(data: &Vec<u8>) -> (r: Result<(), MintError>)
    ensures
        r is Ok <==> spec_is_closed(data@),
{
    if data.len() <= TAG_LEN {
        return Err(MintError::InvalidDiscriminator);
    }
    let tag = closed_tag();
    let mut i: usize = 0;
    while i < TAG_LEN
        invariant
            0 <= i <= TAG_LEN,
            data@.len() > TAG_LEN,
            tag@ == spec_closed_tag(),
            forall|j: int| 0 <= j < i ==> data@[j] == spec_closed_tag()[j],
        decreases TAG_LEN - i,
    {
        if data[i] != tag[i] {
            proof {
                assert(data@.subrange(0, TAG_LEN as int)[i as int] != spec_closed_tag()[i as int]);
            }
            return Err(MintError::InvalidDiscriminator);
        }
        i += 1;
    }
    proof {
        assert(data@.subrange(0, TAG_LEN as int) =~= spec_closed_tag());
    }
    Ok(())
}

} // verus!
