//! The identity-announcement message: one public identity certificate,
//! framed under a tag reserved for this message kind.
use vstd::prelude::*;
use crate::codec::CodecError;
use crate::types::PublicPmid;

verus! {

/// The envelope tag reserved for `PutPublicPmid`.
pub const PUT_PUBLIC_PMID_TAG: u64 = 5483001;

/// Announces a node's public identity certificate.
#[derive(Clone, Copy, Debug)]
pub struct PutPublicPmid {
    pub public_pmid: PublicPmid,
}

/// The message that an envelope with tag `tag` around `payload` decodes to:
/// the payload, when the tag is the one of this message kind.
pub open spec fn put_public_pmid_from_envelope(tag: u64, payload: PublicPmid) -> Result<
    PutPublicPmid,
    CodecError,
> {
    if tag == PUT_PUBLIC_PMID_TAG {
        Ok(PutPublicPmid { public_pmid: payload })
    } else {
        Err(CodecError::MalformedInput)
    }
}

impl PutPublicPmid {
    /// The tag that frames this message on the wire.
    pub fn tag(&self) -> (r: u64)
        ensures
            r == PUT_PUBLIC_PMID_TAG,
    {
        PUT_PUBLIC_PMID_TAG
    }

    /// The payload that follows the tag on the wire.
    pub fn payload(&self) -> (r: PublicPmid)
        ensures
            r == self.public_pmid,
    {
        self.public_pmid
    }

    /// Rebuilds a message from the tag and payload read off the wire,
    /// refusing a tag that belongs to another message kind.
    pub fn from_envelope(tag: u64, payload: PublicPmid) -> (r: Result<PutPublicPmid, CodecError>)
        ensures
            r == put_public_pmid_from_envelope(tag, payload),
    {
        if tag == PUT_PUBLIC_PMID_TAG {
            Ok(PutPublicPmid { public_pmid: payload })
        } else {
            Err(CodecError::MalformedInput)
        }
    }
}

/// Reading back the tag and payload that a message is framed with gives the
/// same message; any other tag is refused as malformed.
pub proof fn lemma_envelope_round_trip(m: PutPublicPmid, tag: u64)
    ensures
        put_public_pmid_from_envelope(PUT_PUBLIC_PMID_TAG, m.public_pmid) == Ok::<
            PutPublicPmid,
            CodecError,
        >(m),
        tag != PUT_PUBLIC_PMID_TAG ==> put_public_pmid_from_envelope(tag, m.public_pmid) == Err::<
            PutPublicPmid,
            CodecError,
        >(CodecError::MalformedInput),
{
}

impl PartialEq for PutPublicPmid {
    fn eq(&self, other: &PutPublicPmid) -> (r: bool) {
        self.public_pmid == other.public_pmid
    }
}

impl vstd::std_specs::cmp::PartialEqSpecImpl for PutPublicPmid {
    open spec fn obeys_eq_spec() -> bool {
        true
    }

    open spec fn eq_spec(&self, other: &PutPublicPmid) -> bool {
        self.public_pmid.same_as(&other.public_pmid)
    }
}

impl Eq for PutPublicPmid {
}

} // verus!
