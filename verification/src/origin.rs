//! Where a memory comes from: who observed it, in which session, under which
//! scope and with how much confidence.

use crate::scope::ScopePath;
use vstd::prelude::*;

verus! {

/// How a memory came about.
#[derive(Debug, Clone, Copy, PartialEq, Eq, Hash, Structural)]
#[non_exhaustive]
pub enum SourceKind {
    AgentObservation,
    HumanInput,
    DocumentExtract,
    SystemEvent,
    Inferred,
    External,
}

/// Why an origin was refused.
#[derive(Debug, Clone, Copy, PartialEq, Eq, Structural)]
pub enum OriginError {
    EmptyAgentId,
    EmptySessionId,
    InvalidConfidence,
}

/// The bits of the double-precision number one.
pub const ONE_BITS: u64 = 0x3ff0_0000_0000_0000;

/// The bits of the double-precision number minus zero.
pub const MINUS_ZERO_BITS: u64 = 0x8000_0000_0000_0000;

/// Whether the double-precision number with these bits is finite and lies from
/// zero to one. The bits of the numbers from zero to one are those up to the
/// bits of one, in order; minus zero counts as zero.
pub open spec fn is_unit_bits(bits: u64) -> bool {
    bits <= ONE_BITS || bits == MINUS_ZERO_BITS
}

/// A confidence from zero to one, held as the bits of a double-precision
/// number.
#[derive(Debug, Clone, Copy, PartialEq, Eq, Structural)]
pub struct Confidence {
    bits: u64,
}

impl View for Confidence {
    type V = u64;

    closed spec fn view(&self) -> u64 {
        self.bits
    }
}

impl Confidence {
    #[verifier::type_invariant]
    spec fn in_unit_range(self) -> bool {
        is_unit_bits(self.bits)
    }

    /// The confidence with the given bits; refused unless the number is finite
    /// and lies from zero to one.
    pub fn new(bits: u64) -> (r: Result<Self, OriginError>)
        ensures
            r is Ok <==> is_unit_bits(bits),
            r matches Ok(c) ==> c@ == bits,
            r matches Err(e) ==> e == OriginError::InvalidConfidence,
    {
        if bits <= ONE_BITS || bits == MINUS_ZERO_BITS {
            Ok(Confidence { bits })
        } else {
            Err(OriginError::InvalidConfidence)
        }
    }

    /// The bits of the number.
    pub fn get(self) -> (r: u64)
        ensures
            r == self@,
            is_unit_bits(r),
    {
        proof {
            use_type_invariant(&self);
        }
        self.bits
    }
}

/// A checked origin.
#[derive(Debug, PartialEq)]
pub struct Origin {
    agent_id: String,
    source_kind: SourceKind,
    session_id: String,
    scope: ScopePath,
    confidence: Confidence,
}

/// What an origin is made from; the confidence is given by its bits.
#[derive(Debug, Clone, PartialEq)]
pub struct OriginInput {
    pub agent_id: String,
    pub source_kind: SourceKind,
    pub session_id: String,
    pub scope: ScopePath,
    pub confidence: u64,
}

impl Clone for Origin {
    fn clone(&self) -> (r: Self)
        ensures
            r.fields().agent_id@ == self.fields().agent_id@,
            r.fields().source_kind == self.fields().source_kind,
            r.fields().session_id@ == self.fields().session_id@,
            r.fields().scope@ == self.fields().scope@,
            r.fields().confidence == self.fields().confidence,
    {
        proof {
            use_type_invariant(self);
        }
        Origin {
            agent_id: self.agent_id.clone(),
            source_kind: self.source_kind,
            session_id: self.session_id.clone(),
            scope: self.scope.clone(),
            confidence: self.confidence,
        }
    }
}

/// The first fault of an origin: its agent, its session, then its confidence.
pub open spec fn origin_fault(input: OriginInput) -> Option<OriginError> {
    if input.agent_id@.len() == 0 {
        Some(OriginError::EmptyAgentId)
    } else if input.session_id@.len() == 0 {
        Some(OriginError::EmptySessionId)
    } else if !is_unit_bits(input.confidence) {
        Some(OriginError::InvalidConfidence)
    } else {
        None
    }
}

impl Origin {
    #[verifier::type_invariant]
    spec fn faultless(self) -> bool {
        origin_fault(self.fields()) is None
    }

    /// The fields of the origin, the confidence by its bits.
    pub closed spec fn fields(&self) -> OriginInput {
        OriginInput {
            agent_id: self.agent_id,
            source_kind: self.source_kind,
            session_id: self.session_id,
            scope: self.scope,
            confidence: self.confidence@,
        }
    }

    /// The origin with the given fields; refused where one of them has a fault.
    pub fn new(input: OriginInput) -> (r: Result<Self, OriginError>)
        ensures
            match origin_fault(input) {
                Some(e) => r == Err::<Self, OriginError>(e),
                None => r is Ok && r->Ok_0.fields() == input,
            },
    {
        let agent_id = match non_empty(input.agent_id, OriginError::EmptyAgentId) {
            Ok(v) => v,
            Err(e) => return Err(e),
        };
        let session_id = match non_empty(input.session_id, OriginError::EmptySessionId) {
            Ok(v) => v,
            Err(e) => return Err(e),
        };
        let confidence = match Confidence::new(input.confidence) {
            Ok(v) => v,
            Err(e) => return Err(e),
        };
        Ok(
            Origin {
                agent_id,
                source_kind: input.source_kind,
                session_id,
                scope: input.scope,
                confidence,
            },
        )
    }

    /// The agent that observed it.
    pub fn agent_id(&self) -> (r: &str)
        ensures
            r@ == self.fields().agent_id@,
            r@.len() > 0,
    {
        proof {
            use_type_invariant(self);
        }
        self.agent_id.as_str()
    }

    /// How it came about.
    pub fn source_kind(&self) -> (r: SourceKind)
        ensures
            r == self.fields().source_kind,
    {
        self.source_kind
    }

    /// The session it belongs to.
    pub fn session_id(&self) -> (r: &str)
        ensures
            r@ == self.fields().session_id@,
            r@.len() > 0,
    {
        proof {
            use_type_invariant(self);
        }
        self.session_id.as_str()
    }

    /// The scope it is visible in.
    pub fn scope(&self) -> (r: &ScopePath)
        ensures
            *r == self.fields().scope,
    {
        &self.scope
    }

    /// How much it is to be trusted.
    pub fn confidence(&self) -> (r: Confidence)
        ensures
            r@ == self.fields().confidence,
    {
        self.confidence
    }
}

/// `value`, or `error` where it is empty.
pub fn non_empty(value: String, error: OriginError) -> (r: Result<String, OriginError>)
    ensures
        r == (if value@.len() == 0 {
            Err::<String, OriginError>(error)
        } else {
            Ok::<String, OriginError>(value)
        }),
{
    if value.as_str().is_empty() {
        return Err(error);
    }
    Ok(value)
}

/// An origin is refused where its agent or its session has no name or its
/// confidence does not lie from zero to one, for the first of these reasons.
pub proof fn origins_are_refused_for_their_first_fault(input: OriginInput)
    ensures
        origin_fault(input) == Some(OriginError::EmptyAgentId) <==> input.agent_id@.len() == 0,
        origin_fault(input) == Some(OriginError::EmptySessionId) <==> input.agent_id@.len() > 0
            && input.session_id@.len() == 0,
        origin_fault(input) == Some(OriginError::InvalidConfidence) <==> input.agent_id@.len() > 0
            && input.session_id@.len() > 0 && input.confidence > 0x3ff0_0000_0000_0000
            && input.confidence != 0x8000_0000_0000_0000,
        is_unit_bits(input.confidence) <==> input.confidence <= 0x3ff0_0000_0000_0000
            || input.confidence == 0x8000_0000_0000_0000,
{
}

}
