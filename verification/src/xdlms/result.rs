//! What a request came to, and why one was refused.

use vstd::prelude::*;

use super::list::{read_u32, Wire};
use crate::codec::{Decode, Encode, Reader, Result, Writer};
#[allow(unused_imports)]
use super::list::p_u32;
#[allow(unused_imports)]
use crate::bytes::be_bytes;
#[allow(unused_imports)]
use crate::codec::{decoded, p_u8, Cursor};

verus! {

/// What reading or writing an attribute came to.
#[derive(Debug, Clone, Copy, PartialEq, Eq, Structural)]
pub enum DataAccessResult {
    /// The request was carried out.
    Success,
    /// A hardware fault.
    HardwareFault,
    /// A failure that may not last.
    TemporaryFailure,
    /// The association may not do this.
    ReadWriteDenied,
    /// There is no such object.
    ObjectUndefined,
    /// The object is not of that class.
    ObjectClassInconsistent,
    /// The object cannot be reached.
    ObjectUnavailable,
    /// The value is of the wrong type.
    TypeUnmatched,
    /// Outside the scope of access.
    ScopeOfAccessViolated,
    /// The block cannot be delivered.
    DataBlockUnavailable,
    /// A blocked read was given up.
    LongGetAborted,
    /// No blocked read is in progress.
    NoLongGetInProgress,
    /// A blocked write was given up.
    LongSetAborted,
    /// No blocked write is in progress.
    NoLongSetInProgress,
    /// Not the block that was expected.
    DataBlockNumberInvalid,
    /// Some other reason.
    OtherReason,
    /// A value this crate does not name.
    Other(u8),
}

impl DataAccessResult {
    /// The wire value.
    #[must_use]
    #[verifier::allow_in_spec]
    pub fn as_u8(self) -> u8
        returns
            (match self {
                Self::Success => 0,
                Self::HardwareFault => 1,
                Self::TemporaryFailure => 2,
                Self::ReadWriteDenied => 3,
                Self::ObjectUndefined => 4,
                Self::ObjectClassInconsistent => 9,
                Self::ObjectUnavailable => 11,
                Self::TypeUnmatched => 12,
                Self::ScopeOfAccessViolated => 13,
                Self::DataBlockUnavailable => 14,
                Self::LongGetAborted => 15,
                Self::NoLongGetInProgress => 16,
                Self::LongSetAborted => 17,
                Self::NoLongSetInProgress => 18,
                Self::DataBlockNumberInvalid => 19,
                Self::OtherReason => 250,
                Self::Other(v) => v,
            }),
    {
        match self {
            Self::Success => 0,
            Self::HardwareFault => 1,
            Self::TemporaryFailure => 2,
            Self::ReadWriteDenied => 3,
            Self::ObjectUndefined => 4,
            Self::ObjectClassInconsistent => 9,
            Self::ObjectUnavailable => 11,
            Self::TypeUnmatched => 12,
            Self::ScopeOfAccessViolated => 13,
            Self::DataBlockUnavailable => 14,
            Self::LongGetAborted => 15,
            Self::NoLongGetInProgress => 16,
            Self::LongSetAborted => 17,
            Self::NoLongSetInProgress => 18,
            Self::DataBlockNumberInvalid => 19,
            Self::OtherReason => 250,
            Self::Other(v) => v,
        }
    }

    /// From the wire value.
    #[must_use]
    #[verifier::allow_in_spec]
    pub fn from_u8(v: u8) -> Self
        returns
            (match v {
                0 => Self::Success,
                1 => Self::HardwareFault,
                2 => Self::TemporaryFailure,
                3 => Self::ReadWriteDenied,
                4 => Self::ObjectUndefined,
                9 => Self::ObjectClassInconsistent,
                11 => Self::ObjectUnavailable,
                12 => Self::TypeUnmatched,
                13 => Self::ScopeOfAccessViolated,
                14 => Self::DataBlockUnavailable,
                15 => Self::LongGetAborted,
                16 => Self::NoLongGetInProgress,
                17 => Self::LongSetAborted,
                18 => Self::NoLongSetInProgress,
                19 => Self::DataBlockNumberInvalid,
                250 => Self::OtherReason,
                other => Self::Other(other),
            }),
    {
        match v {
            0 => Self::Success,
            1 => Self::HardwareFault,
            2 => Self::TemporaryFailure,
            3 => Self::ReadWriteDenied,
            4 => Self::ObjectUndefined,
            9 => Self::ObjectClassInconsistent,
            11 => Self::ObjectUnavailable,
            12 => Self::TypeUnmatched,
            13 => Self::ScopeOfAccessViolated,
            14 => Self::DataBlockUnavailable,
            15 => Self::LongGetAborted,
            16 => Self::NoLongGetInProgress,
            17 => Self::LongSetAborted,
            18 => Self::NoLongSetInProgress,
            19 => Self::DataBlockNumberInvalid,
            250 => Self::OtherReason,
            other => Self::Other(other),
        }
    }

    /// What stands at a cursor.
    pub open spec fn p(c: Cursor) -> Result<(DataAccessResult, Cursor)> {
        match p_u8(c) {
            Ok((v, d)) => Ok((DataAccessResult::from_u8(v), d)),
            Err(e) => Err(e),
        }
    }

    /// Read one.
    pub(crate) fn read(r: &mut Reader<'_>) -> (res: Result<Self>)
        ensures
            decoded(DataAccessResult::p(old(r)@), old(r)@, final(r)@, res),
    {
        Ok(DataAccessResult::from_u8(r.u8()?))
    }

    /// True when the request was carried out.
    #[must_use]
    #[verifier::allow_in_spec]
    pub fn is_success(self) -> bool
        returns
            self is Success,
    {
        matches!(self, Self::Success)
    }
}

impl View for DataAccessResult {
    type V = DataAccessResult;

    open spec fn view(&self) -> DataAccessResult {
        *self
    }
}

impl Encode for DataAccessResult {
    open spec fn enc(&self) -> Seq<u8> {
        seq![self.as_u8()]
    }

    open spec fn encodable(&self) -> bool {
        true
    }

    fn encode<W: Writer>(&self, w: &mut W) -> (r: Result<()>) {
        w.write_u8(self.as_u8())
    }
}

impl<'a> Decode<'a> for DataAccessResult {
    open spec fn parse(c: Cursor) -> Result<(DataAccessResult, Cursor)> {
        DataAccessResult::p(c)
    }

    fn decode(r: &mut Reader<'a>) -> (res: Result<Self>) {
        DataAccessResult::read(r)
    }
}

impl<'a> Wire<'a> for DataAccessResult {
    open spec fn enc_of(v: DataAccessResult) -> Seq<u8> {
        seq![v.as_u8()]
    }

    open spec fn fits_of(v: DataAccessResult) -> bool {
        true
    }

    proof fn lemma_enc(&self) {
    }
}

/// What invoking a method came to.
#[derive(Debug, Clone, Copy, PartialEq, Eq, Structural)]
pub enum ActionResult {
    /// The method ran.
    Success,
    /// A hardware fault.
    HardwareFault,
    /// A failure that may not last.
    TemporaryFailure,
    /// The association may not do this.
    ReadWriteDenied,
    /// There is no such object or method.
    ObjectUndefined,
    /// The object is not of that class.
    ObjectClassInconsistent,
    /// The object cannot be reached.
    ObjectUnavailable,
    /// The parameter is of the wrong type.
    TypeUnmatched,
    /// Outside the scope of access.
    ScopeOfAccessViolated,
    /// The block cannot be delivered.
    DataBlockUnavailable,
    /// A blocked invocation was given up.
    LongActionAborted,
    /// No blocked invocation is in progress.
    NoLongActionInProgress,
    /// Some other reason.
    OtherReason,
    /// A value this crate does not name.
    Other(u8),
}

impl ActionResult {
    /// The wire value.
    #[must_use]
    #[verifier::allow_in_spec]
    pub fn as_u8(self) -> u8
        returns
            (match self {
                Self::Success => 0,
                Self::HardwareFault => 1,
                Self::TemporaryFailure => 2,
                Self::ReadWriteDenied => 3,
                Self::ObjectUndefined => 4,
                Self::ObjectClassInconsistent => 9,
                Self::ObjectUnavailable => 11,
                Self::TypeUnmatched => 12,
                Self::ScopeOfAccessViolated => 13,
                Self::DataBlockUnavailable => 14,
                Self::LongActionAborted => 15,
                Self::NoLongActionInProgress => 16,
                Self::OtherReason => 250,
                Self::Other(v) => v,
            }),
    {
        match self {
            Self::Success => 0,
            Self::HardwareFault => 1,
            Self::TemporaryFailure => 2,
            Self::ReadWriteDenied => 3,
            Self::ObjectUndefined => 4,
            Self::ObjectClassInconsistent => 9,
            Self::ObjectUnavailable => 11,
            Self::TypeUnmatched => 12,
            Self::ScopeOfAccessViolated => 13,
            Self::DataBlockUnavailable => 14,
            Self::LongActionAborted => 15,
            Self::NoLongActionInProgress => 16,
            Self::OtherReason => 250,
            Self::Other(v) => v,
        }
    }

    /// From the wire value.
    #[must_use]
    #[verifier::allow_in_spec]
    pub fn from_u8(v: u8) -> Self
        returns
            (match v {
                0 => Self::Success,
                1 => Self::HardwareFault,
                2 => Self::TemporaryFailure,
                3 => Self::ReadWriteDenied,
                4 => Self::ObjectUndefined,
                9 => Self::ObjectClassInconsistent,
                11 => Self::ObjectUnavailable,
                12 => Self::TypeUnmatched,
                13 => Self::ScopeOfAccessViolated,
                14 => Self::DataBlockUnavailable,
                15 => Self::LongActionAborted,
                16 => Self::NoLongActionInProgress,
                250 => Self::OtherReason,
                other => Self::Other(other),
            }),
    {
        match v {
            0 => Self::Success,
            1 => Self::HardwareFault,
            2 => Self::TemporaryFailure,
            3 => Self::ReadWriteDenied,
            4 => Self::ObjectUndefined,
            9 => Self::ObjectClassInconsistent,
            11 => Self::ObjectUnavailable,
            12 => Self::TypeUnmatched,
            13 => Self::ScopeOfAccessViolated,
            14 => Self::DataBlockUnavailable,
            15 => Self::LongActionAborted,
            16 => Self::NoLongActionInProgress,
            250 => Self::OtherReason,
            other => Self::Other(other),
        }
    }

    /// What stands at a cursor.
    pub open spec fn p(c: Cursor) -> Result<(ActionResult, Cursor)> {
        match p_u8(c) {
            Ok((v, d)) => Ok((ActionResult::from_u8(v), d)),
            Err(e) => Err(e),
        }
    }

    /// Read one.
    pub(crate) fn read(r: &mut Reader<'_>) -> (res: Result<Self>)
        ensures
            decoded(ActionResult::p(old(r)@), old(r)@, final(r)@, res),
    {
        Ok(ActionResult::from_u8(r.u8()?))
    }

    /// True when the request was carried out.
    #[must_use]
    #[verifier::allow_in_spec]
    pub fn is_success(self) -> bool
        returns
            self is Success,
    {
        matches!(self, Self::Success)
    }
}

/// What was wrong with the state that a request arrived in.
#[derive(Debug, Clone, Copy, PartialEq, Eq, Structural)]
pub enum StateError {
    /// The service is not allowed now.
    ServiceNotAllowed,
    /// The service is not known.
    ServiceUnknown,
    /// A value this crate does not name.
    Other(u8),
}

impl StateError {
    /// The wire value.
    #[must_use]
    #[verifier::allow_in_spec]
    pub fn as_u8(self) -> u8
        returns
            (match self {
                Self::ServiceNotAllowed => 1,
                Self::ServiceUnknown => 2,
                Self::Other(v) => v,
            }),
    {
        match self {
            Self::ServiceNotAllowed => 1,
            Self::ServiceUnknown => 2,
            Self::Other(v) => v,
        }
    }

    /// From the wire value.
    #[must_use]
    #[verifier::allow_in_spec]
    pub fn from_u8(v: u8) -> Self
        returns
            (match v {
                1 => Self::ServiceNotAllowed,
                2 => Self::ServiceUnknown,
                other => Self::Other(other),
            }),
    {
        match v {
            1 => Self::ServiceNotAllowed,
            2 => Self::ServiceUnknown,
            other => Self::Other(other),
        }
    }

    /// What stands at a cursor.
    pub open spec fn p(c: Cursor) -> Result<(StateError, Cursor)> {
        match p_u8(c) {
            Ok((v, d)) => Ok((StateError::from_u8(v), d)),
            Err(e) => Err(e),
        }
    }

    /// Read one.
    pub(crate) fn read(r: &mut Reader<'_>) -> (res: Result<Self>)
        ensures
            decoded(StateError::p(old(r)@), old(r)@, final(r)@, res),
    {
        Ok(StateError::from_u8(r.u8()?))
    }
}

/// What was wrong with the service that was asked for.
#[derive(Debug, Clone, Copy, PartialEq, Eq, Structural)]
pub enum ServiceError {
    /// It cannot be done now.
    OperationNotPossible,
    /// It is not supported.
    ServiceNotSupported,
    /// Some other reason.
    OtherReason,
    /// The APDU is longer than was agreed.
    PduTooLong,
    /// The protection could not be removed.
    DecipheringError,
    /// The invocation counter is not acceptable; the one expected next follows.
    InvocationCounterError,
    /// A value this crate does not name.
    Other(u8),
}

impl ServiceError {
    /// The wire value.
    #[must_use]
    #[verifier::allow_in_spec]
    pub fn as_u8(self) -> u8
        returns
            (match self {
                Self::OperationNotPossible => 1,
                Self::ServiceNotSupported => 2,
                Self::OtherReason => 3,
                Self::PduTooLong => 4,
                Self::DecipheringError => 5,
                Self::InvocationCounterError => 6,
                Self::Other(v) => v,
            }),
    {
        match self {
            Self::OperationNotPossible => 1,
            Self::ServiceNotSupported => 2,
            Self::OtherReason => 3,
            Self::PduTooLong => 4,
            Self::DecipheringError => 5,
            Self::InvocationCounterError => 6,
            Self::Other(v) => v,
        }
    }

    /// From the wire value.
    #[must_use]
    #[verifier::allow_in_spec]
    pub fn from_u8(v: u8) -> Self
        returns
            (match v {
                1 => Self::OperationNotPossible,
                2 => Self::ServiceNotSupported,
                3 => Self::OtherReason,
                4 => Self::PduTooLong,
                5 => Self::DecipheringError,
                6 => Self::InvocationCounterError,
                other => Self::Other(other),
            }),
    {
        match v {
            1 => Self::OperationNotPossible,
            2 => Self::ServiceNotSupported,
            3 => Self::OtherReason,
            4 => Self::PduTooLong,
            5 => Self::DecipheringError,
            6 => Self::InvocationCounterError,
            other => Self::Other(other),
        }
    }

    /// What stands at a cursor.
    pub open spec fn p(c: Cursor) -> Result<(ServiceError, Cursor)> {
        match p_u8(c) {
            Ok((v, d)) => Ok((ServiceError::from_u8(v), d)),
            Err(e) => Err(e),
        }
    }

    /// Read one.
    pub(crate) fn read(r: &mut Reader<'_>) -> (res: Result<Self>)
        ensures
            decoded(ServiceError::p(old(r)@), old(r)@, final(r)@, res),
    {
        Ok(ServiceError::from_u8(r.u8()?))
    }
}

/// The refusal of an APDU.
#[derive(Debug, Clone, Copy, PartialEq, Eq, Structural)]
pub struct ExceptionResponse {
    /// What was wrong with the state.
    pub state_error: StateError,
    /// What was wrong with the service.
    pub service_error: ServiceError,
    /// The invocation counter expected next, where that is what was wrong.
    pub expected_invocation_counter: Option<u32>,
}

impl View for ExceptionResponse {
    type V = ExceptionResponse;

    open spec fn view(&self) -> ExceptionResponse {
        *self
    }
}

impl ExceptionResponse {
    /// What stands at a cursor: the two errors, and a counter where the second is about
    /// the counter.
    pub open spec fn p(c: Cursor) -> Result<(ExceptionResponse, Cursor)> {
        match StateError::p(c) {
            Err(e) => Err(e),
            Ok((state_error, d)) => match ServiceError::p(d) {
                Err(e) => Err(e),
                Ok((service_error, f)) => if service_error is InvocationCounterError {
                    match p_u32(f) {
                        Err(e) => Err(e),
                        Ok((v, g)) => Ok(
                            (
                                ExceptionResponse {
                                    state_error,
                                    service_error,
                                    expected_invocation_counter: Some(v),
                                },
                                g,
                            ),
                        ),
                    }
                } else {
                    Ok(
                        (
                            ExceptionResponse {
                                state_error,
                                service_error,
                                expected_invocation_counter: None,
                            },
                            f,
                        ),
                    )
                },
            },
        }
    }
}

impl Encode for ExceptionResponse {
    open spec fn enc(&self) -> Seq<u8> {
        seq![self.state_error.as_u8(), self.service_error.as_u8()] + (
        match self.expected_invocation_counter {
            Some(v) => be_bytes(v as nat, 4),
            None => Seq::empty(),
        })
    }

    open spec fn encodable(&self) -> bool {
        true
    }

    fn encode<W: Writer>(&self, w: &mut W) -> (r: Result<()>) {
        let ghost w0 = w.sink().bytes;
        w.write_u8(self.state_error.as_u8())?;
        w.write_u8(self.service_error.as_u8())?;
        if let Some(v) = self.expected_invocation_counter {
            w.write_u32(v)?;
        }
        assert(w.sink().bytes =~= w0 + self.enc());
        Ok(())
    }
}

impl<'a> Decode<'a> for ExceptionResponse {
    open spec fn parse(c: Cursor) -> Result<(ExceptionResponse, Cursor)> {
        ExceptionResponse::p(c)
    }

    fn decode(r: &mut Reader<'a>) -> (res: Result<Self>) {
        assert(Self::parse(r@) == ExceptionResponse::p(r@));
        let state_error = StateError::read(r)?;
        let service_error = ServiceError::read(r)?;
        let expected_invocation_counter = if matches!(
            service_error,
            ServiceError::InvocationCounterError,
        ) {
            Some(read_u32(r)?)
        } else {
            None
        };
        Ok(ExceptionResponse { state_error, service_error, expected_invocation_counter })
    }
}

} // verus!
