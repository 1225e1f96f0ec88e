//! A borrowed `qubit_budget` decode session, charged with the raw and the
//! normalized input sizes of one decode, together with a record of every
//! charge made through it.

use qubit_budget::json::JsonDecodeSession;
use vstd::prelude::*;

verus! {

/// A mutable borrow of a decode session.
///
/// The session is opaque here: which charges it admits, and which limits it
/// reports, depend on how it was built and on what was charged to it before.
#[verifier::external_body]
pub struct DecodeSessionBorrow<'s, 'b> {
    /// The borrowed session.
    pub session: &'s mut JsonDecodeSession<'b>,
}

/// One charge made to a decode session: which budget, how many bytes, and
/// whether the session admitted them.
#[derive(Debug, Clone, Copy, PartialEq, Eq, Structural)]
pub enum SessionCharge {
    /// Raw input bytes.
    Raw {
        /// The bytes charged.
        bytes: usize,
        /// Whether the session admitted the charge.
        admitted: bool,
    },
    /// Normalized input bytes.
    Normalized {
        /// The bytes charged.
        bytes: usize,
        /// Whether the session admitted the charge.
        admitted: bool,
    },
}

/// A decode session lent to the normalizer, with the charges made through
/// it so far, in order.
pub struct DecodeSessionRef<'s, 'b> {
    /// The borrowed session.
    borrow: DecodeSessionBorrow<'s, 'b>,
    /// The charges made through this reference.
    charges: Ghost<Seq<SessionCharge>>,
}

impl<'s, 'b> DecodeSessionRef<'s, 'b> {
    /// The charges made through this reference, in order.
    pub closed spec fn spec_charges(self) -> Seq<SessionCharge> {
        self.charges@
    }

    /// Lends `borrow` to the normalizer, with no charge made yet.
    pub fn new(borrow: DecodeSessionBorrow<'s, 'b>) -> (session: Self)
        ensures
            session.spec_charges() == Seq::<SessionCharge>::empty(),
    {
        DecodeSessionRef { borrow, charges: Ghost(Seq::empty()) }
    }
}

/// Charges `bytes` raw input bytes through `JsonDecodeSession::begin_value`
/// and `JsonDecodeAttempt::try_consume_input_bytes`, reporting whether the
/// session admitted them; the record of charges gains that charge.
///
/// The charge takes effect at once and stays when the attempt is dropped; a
/// session without a raw-input budget admits every charge. Whether a charge
/// is admitted depends on the session's state, so nothing more is stated of
/// the result.
#[verifier::external_body]
pub(crate) fn try_charge_input_bytes(session: &mut DecodeSessionRef<'_, '_>, bytes: usize) -> (admitted: bool)
    ensures
        final(session).spec_charges() == old(session).spec_charges().push(
            SessionCharge::Raw { bytes, admitted },
        ),
{
    session.borrow.session.begin_value().try_consume_input_bytes(bytes).is_ok()
}

/// Charges `bytes` normalized input bytes through
/// `JsonDecodeSession::begin_value` and
/// `JsonDecodeAttempt::try_consume_normalized_input_bytes`, reporting whether
/// the session admitted them; the record of charges gains that charge.
///
/// As for raw bytes, the charge stays, a session without a normalized-input
/// budget admits it, and nothing more is stated of the result.
#[verifier::external_body]
pub(crate) fn try_charge_normalized_bytes(session: &mut DecodeSessionRef<'_, '_>, bytes: usize) -> (admitted: bool)
    ensures
        final(session).spec_charges() == old(session).spec_charges().push(
            SessionCharge::Normalized { bytes, admitted },
        ),
{
    session.borrow.session.begin_value().try_consume_normalized_input_bytes(bytes).is_ok()
}

/// The raw input limit that `JsonDecodeSession::max_input_bytes` reports,
/// `None` when the session has no raw-input budget. It depends on how the
/// session was built, so nothing is stated of it.
#[verifier::external_body]
pub(crate) fn session_max_input_bytes(session: &DecodeSessionRef<'_, '_>) -> (limit: Option<usize>) {
    session.borrow.session.max_input_bytes()
}

/// The normalized input limit that
/// `JsonDecodeSession::max_normalized_input_bytes` reports, `None` when the
/// session has no normalized-input budget; nothing is stated of it.
#[verifier::external_body]
pub(crate) fn session_max_normalized_input_bytes(session: &DecodeSessionRef<'_, '_>) -> (limit: Option<usize>) {
    session.borrow.session.max_normalized_input_bytes()
}

} // verus!
