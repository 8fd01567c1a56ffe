//! Inputs, outputs and bundles of transparent-extension components.

use vstd::prelude::*;
use crate::amount::Amount;

verus! {

/// A reference to an output of an earlier transaction.
#[derive(Clone, Copy, Debug, PartialEq, Eq)]
pub struct OutPoint {
    pub txid: [u8; 32],
    pub n: u32,
}

/// The witness declared for an input before it is authorized: the extension
/// and mode whose rules govern the spend.
#[derive(Clone, Copy, Debug, PartialEq, Eq)]
pub struct Witness {
    pub extension_id: u32,
    pub mode: u32,
}

/// An unauthorized input: the output it spends and its declared witness.
#[derive(Clone, Copy, Debug, PartialEq, Eq)]
pub struct TzeIn {
    pub prevout: OutPoint,
    pub witness: Witness,
}

impl TzeIn {
    /// The input spending `prevout` under the given extension and mode.
    pub fn new(prevout: OutPoint, extension_id: u32, mode: u32) -> (r: TzeIn)
        ensures
            r == (TzeIn { prevout, witness: Witness { extension_id, mode } }),
    {
        TzeIn { prevout, witness: Witness { extension_id, mode } }
    }
}

/// The guard of an output: which extension, mode and payload must be
/// satisfied to spend it.
#[derive(Clone, Debug, PartialEq, Eq)]
pub struct Precondition {
    pub extension_id: u32,
    pub mode: u32,
    pub payload: Vec<u8>,
}

/// An output: a value guarded by a precondition.
#[derive(Clone, Debug, PartialEq, Eq)]
pub struct TzeOut {
    pub value: Amount,
    pub precondition: Precondition,
}

/// The mathematical content of a [`TzeOut`].
pub ghost struct OutputModel {
    pub value: int,
    pub extension_id: u32,
    pub mode: u32,
    pub payload: Seq<u8>,
}

impl View for TzeOut {
    type V = OutputModel;

    open spec fn view(&self) -> OutputModel {
        OutputModel {
            value: self.value@,
            extension_id: self.precondition.extension_id,
            mode: self.precondition.mode,
            payload: self.precondition.payload@,
        }
    }
}

impl TzeOut {
    /// A copy of this output with the same content.
    pub fn duplicate(&self) -> (r: TzeOut)
        ensures
            r@ == self@,
    {
        let payload = self.precondition.payload.clone();
        assert(payload@ =~= self.precondition.payload@);
        TzeOut {
            value: self.value,
            precondition: Precondition {
                extension_id: self.precondition.extension_id,
                mode: self.precondition.mode,
                payload,
            },
        }
    }
}

/// The content of each output of `outs`, in order.
pub open spec fn outputs_model(outs: Seq<TzeOut>) -> Seq<OutputModel> {
    outs.map_values(|o: TzeOut| o@)
}

/// The authorizing payload produced for one input.
#[derive(Clone, Debug, PartialEq, Eq)]
pub struct AuthData(pub Vec<u8>);

/// The unauthorized inputs and outputs of one transaction.
#[derive(Clone, Debug, PartialEq, Eq)]
pub struct Bundle {
    pub vin: Vec<TzeIn>,
    pub vout: Vec<TzeOut>,
}

/// A copy of `outs` with outputs of the same content in the same order.
pub fn copy_outputs(outs: &Vec<TzeOut>) -> (r: Vec<TzeOut>)
    ensures
        outputs_model(r@) == outputs_model(outs@),
{
    let mut r: Vec<TzeOut> = Vec::new();
    let mut i: usize = 0;
    while i < outs.len()
        invariant
            i <= outs.len(),
            r@.len() == i,
            forall|j: int| 0 <= j < i ==> (#[trigger] r@[j])@ == outs@[j]@,
        decreases outs.len() - i,
    {
        let o = outs[i].duplicate();
        r.push(o);
        i = i + 1;
    }
    assert(outputs_model(r@) =~= outputs_model(outs@));
    r
}

} // verus!
