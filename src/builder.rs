//! The two-phase TZE builder: accumulate inputs and outputs, then resolve
//! each input's deferred witness against the finished transaction.

use vstd::prelude::*;
use vstd::string::StringExecFns;
use crate::amount::{in_range, Amount};
use crate::bundle::{
    copy_outputs, outputs_model, AuthData, Bundle, OutPoint, OutputModel, Precondition,
    TzeIn, TzeOut, Witness,
};

verus! {

/// Why an operation of the builder failed.
#[derive(Clone, Copy, Debug, PartialEq, Eq, Structural)]
pub enum Error {
    /// An output was given a negative value.
    InvalidAmount,
    /// A resolved witness reported a mode (second field) other than the one
    /// declared for its input (first field).
    WitnessModeMismatch(u32, u32),
}

/// The opening of the message for a witness mode mismatch.
pub const MISMATCH_MESSAGE: &'static str =
    "TZE witness builder returned a mode that did not match the mode with which the input was initially constructed: expected = ";

impl Error {
    /// A description of this error for people.
    pub fn message(&self) -> (r: String)
        ensures
            *self == Error::InvalidAmount ==> r@ == "Invalid amount"@,
            self is WitnessModeMismatch ==> exists|expected: Seq<char>, actual: Seq<char>|
                r@ == MISMATCH_MESSAGE@ + expected + ", actual = "@ + actual,
    {
        match self {
            Error::InvalidAmount => String::from_str("Invalid amount"),
            Error::WitnessModeMismatch(expected, actual) => {
                let mut s = String::from_str(MISMATCH_MESSAGE);
                let e = expected.to_string();
                s.append(e.as_str());
                s.append(", actual = ");
                let a = actual.to_string();
                s.append(a.as_str());
                assert(s@ == MISMATCH_MESSAGE@ + e@ + ", actual = "@ + a@);
                s
            },
        }
    }
}

/// A value that encodes as an extension mode and payload.
pub trait ToPayload {
    /// The mode and payload bytes this value encodes as.
    fn to_payload(&self) -> (u32, Vec<u8>);
}

/// A one-shot computation that produces an input's witness once the
/// finished transaction context `Ctx` is known.
pub trait WitnessBuilder<Ctx>: Sized {
    /// The witness this computation produces.
    type Witness: ToPayload;

    /// Computes the witness against `ctx`, consuming the computation.
    fn build_witness(self, ctx: &Ctx) -> Result<Self::Witness, Error>;
}

/// What one deferred witness computation handed back: a mode and a payload,
/// or an error.
pub type ResolvedWitness = Result<(u32, Seq<u8>), Error>;

/// The authorizing payload for an input declared with `declared_mode` whose
/// witness resolved to `resolved`.
pub open spec fn witness_step(declared_mode: u32, resolved: ResolvedWitness) -> Result<Seq<u8>, Error> {
    match resolved {
        Err(e) => Err(e),
        Ok((mode, payload)) => if mode == declared_mode {
            Ok(payload)
        } else {
            Err(Error::WitnessModeMismatch(declared_mode, mode))
        },
    }
}

/// Whether `resolved` authorizes an input declared with `declared_mode`.
pub open spec fn step_succeeds(declared_mode: u32, resolved: ResolvedWitness) -> bool {
    witness_step(declared_mode, resolved) is Ok
}

/// The payloads for inputs declared with `modes` whose witnesses resolved,
/// in order, to `resolved`; or the first failure among them.
pub open spec fn witness_outcome(modes: Seq<u32>, resolved: Seq<ResolvedWitness>) -> Result<
    Seq<Seq<u8>>,
    Error,
>
    decreases resolved.len(),
{
    if resolved.len() == 0 {
        Ok(Seq::empty())
    } else {
        match witness_outcome(modes, resolved.drop_last()) {
            Err(e) => Err(e),
            Ok(payloads) => match witness_step(modes[resolved.len() - 1], resolved.last()) {
                Ok(p) => Ok(payloads.push(p)),
                Err(e) => Err(e),
            },
        }
    }
}

/// Whether `resolved` can be what the witness computations of inputs
/// declared with `modes` handed back when run in input order and stopped at
/// the first failure: every result but the last succeeded, and the run ended
/// early only on a failure.
pub open spec fn resolution_trace(modes: Seq<u32>, resolved: Seq<ResolvedWitness>) -> bool {
    &&& resolved.len() <= modes.len()
    &&& forall|j: int| 0 <= j < resolved.len() - 1 ==> step_succeeds(modes[j], #[trigger] resolved[j])
    &&& resolved.len() < modes.len() ==> resolved.len() > 0 && !step_succeeds(
        modes[resolved.len() - 1],
        resolved.last(),
    )
}

/// The payload of each item of `auth`, in order.
pub open spec fn auth_model(auth: Seq<AuthData>) -> Seq<Seq<u8>> {
    auth.map_values(|a: AuthData| a.0@)
}

/// Whether `r` reports `outcome`.
pub open spec fn reports_outcome(
    r: Result<Option<Vec<AuthData>>, Error>,
    outcome: Result<Seq<Seq<u8>>, Error>,
) -> bool {
    match outcome {
        Ok(payloads) => r matches Ok(Some(v)) && auth_model(v@) == payloads,
        Err(e) => r == Err::<Option<Vec<AuthData>>, Error>(e),
    }
}

/// The sum of `s`, added from the front with every partial sum checked to
/// lie in the amount range; `None` once one does not.
pub open spec fn checked_sum(s: Seq<int>) -> Option<int>
    decreases s.len(),
{
    if s.len() == 0 {
        Some(0)
    } else {
        match checked_sum(s.drop_last()) {
            Some(acc) => if in_range(acc + s.last()) {
                Some(acc + s.last())
            } else {
                None
            },
            None => None,
        }
    }
}

/// The plain sum of `s`.
pub open spec fn total(s: Seq<int>) -> int
    decreases s.len(),
{
    if s.len() == 0 {
        0
    } else {
        total(s.drop_last()) + s.last()
    }
}

/// Consumed value minus created value, each summed with `checked_sum`, or
/// `None` when a sum or the difference leaves the amount range.
pub open spec fn balance(consumed: Seq<int>, created: Seq<int>) -> Option<int> {
    match (checked_sum(consumed), checked_sum(created)) {
        (Some(c), Some(o)) => if in_range(c - o) {
            Some(c - o)
        } else {
            None
        },
        _ => None,
    }
}

/// The value of each output in `outs`, in order.
pub open spec fn output_values(outs: Seq<OutputModel>) -> Seq<int> {
    outs.map_values(|o: OutputModel| o.value)
}

/// The content of an optional amount.
pub open spec fn amount_model(a: Option<Amount>) -> Option<int> {
    match a {
        Some(v) => Some(v@),
        None => None,
    }
}

/// An input waiting for its witness: the declared input, the output it
/// consumes, and the computation that will authorize it.
struct PendingInput<B> {
    input: TzeIn,
    prevout: TzeOut,
    builder: B,
}

/// Accumulates TZE inputs and outputs, and later resolves the witnesses of
/// the inputs. `B` is the type of the deferred witness computations.
pub struct TzeBuilder<B> {
    pending: Vec<PendingInput<B>>,
    vout: Vec<TzeOut>,
}

impl<B> TzeBuilder<B> {
    /// The declared inputs, in the order they were added.
    pub closed spec fn inputs(self) -> Seq<TzeIn> {
        self.pending@.map_values(|p: PendingInput<B>| p.input)
    }

    /// The outputs each input consumes, in input order.
    pub closed spec fn consumed(self) -> Seq<OutputModel> {
        self.pending@.map_values(|p: PendingInput<B>| p.prevout@)
    }

    /// The deferred witness computations, in input order.
    pub closed spec fn witness_builders(self) -> Seq<B> {
        self.pending@.map_values(|p: PendingInput<B>| p.builder)
    }

    /// The new outputs, in the order they were added.
    pub closed spec fn outputs(self) -> Seq<OutputModel> {
        outputs_model(self.vout@)
    }

    /// The mode declared for each input, in order.
    pub open spec fn declared_modes(self) -> Seq<u32> {
        self.inputs().map_values(|i: TzeIn| i.witness.mode)
    }

    /// Whether nothing has been added.
    pub open spec fn is_empty(self) -> bool {
        self.inputs().len() == 0 && self.outputs().len() == 0
    }

    /// Whether `r` is the bundle of this builder's inputs and outputs, or
    /// `None` exactly when there are none.
    pub open spec fn builds(self, r: Option<Bundle>) -> bool {
        match r {
            None => self.is_empty(),
            Some(b) => !self.is_empty() && b.vin@ == self.inputs() && outputs_model(b.vout@)
                == self.outputs(),
        }
    }

    /// A builder with no inputs and no outputs.
    pub fn empty() -> (r: Self)
        ensures
            r.inputs() == Seq::<TzeIn>::empty(),
            r.consumed() == Seq::<OutputModel>::empty(),
            r.witness_builders() == Seq::<B>::empty(),
            r.outputs() == Seq::<OutputModel>::empty(),
    {
        let r = TzeBuilder { pending: Vec::new(), vout: Vec::new() };
        assert(r.inputs() =~= Seq::<TzeIn>::empty());
        assert(r.consumed() =~= Seq::<OutputModel>::empty());
        assert(r.witness_builders() =~= Seq::<B>::empty());
        assert(r.outputs() =~= Seq::<OutputModel>::empty());
        r
    }
}

impl<B> TzeBuilder<B> {
    /// Adds an input spending `consumed.0`, whose previous output is
    /// `consumed.1`, declared under `extension_id` and `mode`; its witness is
    /// computed later by `witness_builder`.
    pub fn add_input(
        &mut self,
        extension_id: u32,
        mode: u32,
        consumed: (OutPoint, TzeOut),
        witness_builder: B,
    )
        ensures
            final(self).inputs() == old(self).inputs().push(
                TzeIn { prevout: consumed.0, witness: Witness { extension_id, mode } },
            ),
            final(self).consumed() == old(self).consumed().push(consumed.1@),
            final(self).witness_builders() == old(self).witness_builders().push(witness_builder),
            final(self).outputs() == old(self).outputs(),
    {
        let (outpoint, prevout) = consumed;
        let input = TzeIn::new(outpoint, extension_id, mode);
        self.pending.push(PendingInput { input, prevout, builder: witness_builder });
        assert(self.inputs() =~= old(self).inputs().push(input));
        assert(self.consumed() =~= old(self).consumed().push(prevout@));
        assert(self.witness_builders() =~= old(self).witness_builders().push(witness_builder));
    }

    /// Adds an output of `value` guarded by `extension_id`, `mode` and
    /// `payload`; a negative value is refused and nothing is added.
    pub fn add_output_with_payload(
        &mut self,
        extension_id: u32,
        value: Amount,
        mode: u32,
        payload: Vec<u8>,
    ) -> (r: Result<(), Error>)
        ensures
            value@ < 0 ==> r == Err::<(), Error>(Error::InvalidAmount) && final(self).outputs()
                == old(self).outputs(),
            value@ >= 0 ==> r is Ok && final(self).outputs() == old(self).outputs().push(
                OutputModel { value: value@, extension_id, mode, payload: payload@ },
            ),
            final(self).inputs() == old(self).inputs(),
            final(self).consumed() == old(self).consumed(),
            final(self).witness_builders() == old(self).witness_builders(),
    {
        if value.is_negative() {
            return Err(Error::InvalidAmount);
        }
        let out = TzeOut { value, precondition: Precondition { extension_id, mode, payload } };
        self.vout.push(out);
        assert(self.outputs() =~= old(self).outputs().push(out@));
        Ok(())
    }

    /// Adds an output of `value` guarded by `extension_id` and by the mode
    /// and payload that `guarded_by` encodes as; a negative value is refused
    /// and nothing is added.
    pub fn add_output<G: ToPayload>(&mut self, extension_id: u32, value: Amount, guarded_by: &G) -> (r:
        Result<(), Error>)
        ensures
            value@ < 0 ==> r == Err::<(), Error>(Error::InvalidAmount) && final(self).outputs()
                == old(self).outputs(),
            value@ >= 0 ==> r is Ok && final(self).outputs().len() == old(self).outputs().len() + 1
                && final(self).outputs().drop_last() == old(self).outputs()
                && final(self).outputs().last().value == value@
                && final(self).outputs().last().extension_id == extension_id,
            final(self).inputs() == old(self).inputs(),
            final(self).consumed() == old(self).consumed(),
            final(self).witness_builders() == old(self).witness_builders(),
    {
        if value.is_negative() {
            return Err(Error::InvalidAmount);
        }
        let (mode, payload) = guarded_by.to_payload();
        let r = self.add_output_with_payload(extension_id, value, mode, payload);
        assert(self.outputs().drop_last() =~= old(self).outputs());
        r
    }

    /// The value the inputs consume minus the value the outputs create, each
    /// summed in order with checked arithmetic; `None` when a sum or the
    /// difference leaves the amount range.
    pub fn value_balance(&self) -> (r: Option<Amount>)
        ensures
            amount_model(r) == balance(output_values(self.consumed()), output_values(self.outputs())),
    {
        let ghost consumed = output_values(self.consumed());
        let ghost created = output_values(self.outputs());
        let mut sum_in = Amount::zero();
        let mut i: usize = 0;
        while i < self.pending.len()
            invariant
                i <= self.pending@.len(),
                consumed.len() == self.pending@.len(),
                consumed == output_values(self.consumed()),
                checked_sum(consumed.take(i as int)) == Some(sum_in@),
            decreases self.pending@.len() - i,
        {
            assert(consumed.take(i + 1).drop_last() =~= consumed.take(i as int));
            assert(consumed[i as int] == self.pending@[i as int].prevout.value@);
            match sum_in.checked_add(&self.pending[i].prevout.value) {
                Some(s) => sum_in = s,
                None => {
                    proof {
                        lemma_checked_sum_stays_none(consumed, i + 1);
                    }
                    return None;
                },
            }
            i = i + 1;
        }
        assert(consumed.take(i as int) =~= consumed);
        let mut sum_out = Amount::zero();
        let mut j: usize = 0;
        while j < self.vout.len()
            invariant
                j <= self.vout@.len(),
                created.len() == self.vout@.len(),
                created == output_values(self.outputs()),
                checked_sum(created.take(j as int)) == Some(sum_out@),
            decreases self.vout@.len() - j,
        {
            assert(created.take(j + 1).drop_last() =~= created.take(j as int));
            assert(created[j as int] == self.vout@[j as int].value@);
            match sum_out.checked_add(&self.vout[j].value) {
                Some(s) => sum_out = s,
                None => {
                    proof {
                        lemma_checked_sum_stays_none(created, j + 1);
                    }
                    return None;
                },
            }
            j = j + 1;
        }
        assert(created.take(j as int) =~= created);
        sum_in.checked_sub(&sum_out)
    }

    /// The unauthorized bundle of the inputs and outputs added so far, or
    /// `None` when nothing has been added.
    pub fn build(&self) -> (r: Option<Bundle>)
        ensures
            self.builds(r),
    {
        if self.pending.len() == 0 && self.vout.len() == 0 {
            None
        } else {
            let mut vin: Vec<TzeIn> = Vec::new();
            let mut i: usize = 0;
            while i < self.pending.len()
                invariant
                    i <= self.pending@.len(),
                    vin@ == self.inputs().take(i as int),
                decreases self.pending@.len() - i,
            {
                vin.push(self.pending[i].input);
                i = i + 1;
                assert(vin@ =~= self.inputs().take(i as int));
            }
            assert(self.inputs().take(i as int) =~= self.inputs());
            Some(Bundle { vin, vout: copy_outputs(&self.vout) })
        }
    }
}

/// Once a prefix of `s` has no checked sum, neither has `s`.
proof fn lemma_checked_sum_stays_none(s: Seq<int>, k: int)
    requires
        0 <= k <= s.len(),
        checked_sum(s.take(k)) is None,
    ensures
        checked_sum(s) is None,
    decreases s.len() - k,
{
    if k < s.len() {
        assert(s.take(k + 1).drop_last() =~= s.take(k));
        lemma_checked_sum_stays_none(s, k + 1);
    } else {
        assert(s.take(k) =~= s);
    }
}

/// The content of what a witness computation handed back.
pub open spec fn resolved_model(r: Result<(u32, Vec<u8>), Error>) -> ResolvedWitness {
    match r {
        Ok((mode, payload)) => Ok((mode, payload@)),
        Err(e) => Err(e),
    }
}

/// Checks a resolved witness against the mode declared for its input: its
/// payload when the modes agree, else the mismatch or the computation's own
/// error.
pub fn check_witness(declared_mode: u32, resolved: Result<(u32, Vec<u8>), Error>) -> (r: Result<
    AuthData,
    Error,
>)
    ensures
        match witness_step(declared_mode, resolved_model(resolved)) {
            Ok(p) => r matches Ok(a) && a.0@ == p,
            Err(e) => r == Err::<AuthData, Error>(e),
        },
{
    match resolved {
        Err(e) => Err(e),
        Ok((mode, payload)) => {
            if mode != declared_mode {
                Err(Error::WitnessModeMismatch(declared_mode, mode))
            } else {
                Ok(AuthData(payload))
            }
        },
    }
}

impl<B> TzeBuilder<B> {
    /// Resolves the witness of every input against `ctx`, in input order,
    /// consuming the builder. `Ok(None)` when nothing was added; otherwise the
    /// payload of each input in order, or the first failure, at which
    /// resolution stops.
    pub fn create_witnesses<Ctx>(self, ctx: &Ctx) -> (r: Result<Option<Vec<AuthData>>, Error>) where
        B: WitnessBuilder<Ctx>,

        ensures
            self.is_empty() ==> r == Ok::<Option<Vec<AuthData>>, Error>(None),
            !self.is_empty() ==> exists|resolved: Seq<ResolvedWitness>|
                #[trigger] resolution_trace(self.declared_modes(), resolved) && reports_outcome(
                    r,
                    witness_outcome(self.declared_modes(), resolved),
                ),
    {
        if self.pending.len() == 0 && self.vout.len() == 0 {
            return Ok(None);
        }
        let ghost modes = self.declared_modes();
        let ghost n = self.pending@.len();
        let ghost all = self.pending@;
        let TzeBuilder { mut pending, vout: _ } = self;
        let mut auth: Vec<AuthData> = Vec::new();
        let ghost mut trace: Seq<ResolvedWitness> = Seq::empty();
        assert(auth_model(auth@) =~= Seq::<Seq<u8>>::empty());
        while pending.len() > 0
            invariant
                !self.is_empty(),
                modes == self.declared_modes(),
                modes.len() == n,
                all.len() == n,
                forall|j: int| 0 <= j < n ==> #[trigger] modes[j] == all[j].input.witness.mode,
                trace.len() + pending@.len() == n,
                pending@ == all.subrange(trace.len() as int, n as int),
                forall|j: int| 0 <= j < trace.len() ==> step_succeeds(modes[j], #[trigger] trace[j]),
                witness_outcome(modes, trace) == Ok::<Seq<Seq<u8>>, Error>(auth_model(auth@)),
            decreases pending@.len(),
        {
            let p = pending.remove(0);
            assert(p == all[trace.len() as int]);
            assert(pending@ =~= all.subrange(trace.len() as int + 1, n as int));
            let ghost prev_auth = auth@;
            let PendingInput { input, prevout: _, builder } = p;
            let resolved = match builder.build_witness(ctx) {
                Ok(w) => Ok(w.to_payload()),
                Err(e) => Err(e),
            };
            let ghost prev = trace;
            proof {
                trace = trace.push(resolved_model(resolved));
                assert(trace.drop_last() =~= prev);
            }
            match check_witness(input.witness.mode, resolved) {
                Ok(a) => {
                    auth.push(a);
                    assert(auth_model(auth@) =~= auth_model(prev_auth).push(a.0@));
                },
                Err(e) => {
                    assert(resolution_trace(modes, trace));
                    return Err(e);
                },
            }
        }
        assert(resolution_trace(modes, trace));
        Ok(Some(auth))
    }
}

} // verus!
