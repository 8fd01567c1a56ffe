use std::cell::RefCell;
use std::rc::Rc;

use tze_builder::amount::{Amount, MAX_MONEY};
use tze_builder::builder::{check_witness, Error, ToPayload, TzeBuilder, WitnessBuilder};
use tze_builder::bundle::{AuthData, OutPoint, Precondition, TzeIn, TzeOut, Witness};

struct Tx {
    tag: u8,
}

struct Guard {
    mode: u32,
    payload: Vec<u8>,
}

impl ToPayload for Guard {
    fn to_payload(&self) -> (u32, Vec<u8>) {
        (self.mode, self.payload.clone())
    }
}

/// Resolves to `mode` with a payload of `byte` followed by the context's tag,
/// or to `error`, recording its index when run.
struct Signer {
    index: usize,
    mode: u32,
    byte: u8,
    error: Option<Error>,
    log: Rc<RefCell<Vec<usize>>>,
}

impl WitnessBuilder<Tx> for Signer {
    type Witness = Guard;

    fn build_witness(self, ctx: &Tx) -> Result<Guard, Error> {
        self.log.borrow_mut().push(self.index);
        match self.error {
            Some(e) => Err(e),
            None => Ok(Guard { mode: self.mode, payload: vec![self.byte, ctx.tag] }),
        }
    }
}

fn amount(v: i64) -> Amount {
    Amount::from_i64(v).unwrap()
}

fn outpoint(n: u32) -> OutPoint {
    OutPoint { txid: [n as u8; 32], n }
}

fn prevout(v: i64) -> TzeOut {
    TzeOut {
        value: amount(v),
        precondition: Precondition { extension_id: 0, mode: 0, payload: vec![] },
    }
}

fn signer(log: &Rc<RefCell<Vec<usize>>>, index: usize, mode: u32) -> Signer {
    Signer { index, mode, byte: index as u8 + 10, error: None, log: log.clone() }
}

#[test]
fn empty_builder_builds_nothing() {
    let b: TzeBuilder<Signer> = TzeBuilder::empty();
    assert!(b.build().is_none());
    assert_eq!(b.value_balance(), Some(Amount::zero()));
}

#[test]
fn build_matches_declarations_in_order() {
    let log = Rc::new(RefCell::new(vec![]));
    let mut b = TzeBuilder::empty();
    b.add_input(7, 1, (outpoint(1), prevout(5)), signer(&log, 0, 1));
    b.add_output(8, amount(3), &Guard { mode: 2, payload: vec![9, 9] }).unwrap();
    b.add_input(9, 4, (outpoint(2), prevout(6)), signer(&log, 1, 4));
    let bundle = b.build().unwrap();
    assert_eq!(
        bundle.vin,
        vec![
            TzeIn { prevout: outpoint(1), witness: Witness { extension_id: 7, mode: 1 } },
            TzeIn { prevout: outpoint(2), witness: Witness { extension_id: 9, mode: 4 } },
        ]
    );
    assert_eq!(
        bundle.vout,
        vec![TzeOut {
            value: amount(3),
            precondition: Precondition { extension_id: 8, mode: 2, payload: vec![9, 9] },
        }]
    );
    assert!(log.borrow().is_empty());
}

#[test]
fn build_with_outputs_only() {
    let mut b: TzeBuilder<Signer> = TzeBuilder::empty();
    b.add_output_with_payload(3, amount(0), 5, vec![1]).unwrap();
    let bundle = b.build().unwrap();
    assert!(bundle.vin.is_empty());
    assert_eq!(bundle.vout.len(), 1);
    assert_eq!(bundle.vout[0].precondition.payload, vec![1]);
}

#[test]
fn build_twice_gives_equal_bundles() {
    let log = Rc::new(RefCell::new(vec![]));
    let mut b = TzeBuilder::empty();
    b.add_input(1, 2, (outpoint(3), prevout(4)), signer(&log, 0, 2));
    b.add_output(1, amount(2), &Guard { mode: 2, payload: vec![1, 2, 3] }).unwrap();
    let first = b.build().unwrap();
    let second = b.build().unwrap();
    assert_eq!(first, second);
}

#[test]
fn negative_output_is_refused() {
    let mut b: TzeBuilder<Signer> = TzeBuilder::empty();
    assert_eq!(b.add_output(1, amount(-1), &Guard { mode: 0, payload: vec![] }), Err(Error::InvalidAmount));
    assert!(b.build().is_none());
    b.add_output(1, amount(1), &Guard { mode: 0, payload: vec![] }).unwrap();
    assert_eq!(b.add_output_with_payload(1, amount(-5), 0, vec![]), Err(Error::InvalidAmount));
    assert_eq!(b.build().unwrap().vout.len(), 1);
}

#[test]
fn balance_example() {
    let log = Rc::new(RefCell::new(vec![]));
    let mut b = TzeBuilder::empty();
    b.add_input(0, 0, (outpoint(1), prevout(50)), signer(&log, 0, 0));
    b.add_input(0, 0, (outpoint(2), prevout(50)), signer(&log, 1, 0));
    b.add_output(0, amount(30), &Guard { mode: 0, payload: vec![] }).unwrap();
    assert_eq!(b.value_balance(), Some(amount(70)));
    assert_eq!(b.value_balance().unwrap().to_i64(), 70);
}

#[test]
fn balance_can_be_negative() {
    let mut b: TzeBuilder<Signer> = TzeBuilder::empty();
    b.add_output(0, amount(30), &Guard { mode: 0, payload: vec![] }).unwrap();
    assert_eq!(b.value_balance().map(|a| a.to_i64()), Some(-30));
}

#[test]
fn balance_absent_when_consumed_sum_overflows() {
    let log = Rc::new(RefCell::new(vec![]));
    let mut b = TzeBuilder::empty();
    b.add_input(0, 0, (outpoint(1), prevout(MAX_MONEY)), signer(&log, 0, 0));
    b.add_input(0, 0, (outpoint(2), prevout(1)), signer(&log, 1, 0));
    assert_eq!(b.value_balance(), None);
}

#[test]
fn balance_absent_when_output_sum_overflows() {
    let mut b: TzeBuilder<Signer> = TzeBuilder::empty();
    b.add_output(0, amount(MAX_MONEY), &Guard { mode: 0, payload: vec![] }).unwrap();
    b.add_output(0, amount(1), &Guard { mode: 0, payload: vec![] }).unwrap();
    assert_eq!(b.value_balance(), None);
}

#[test]
fn balance_absent_when_difference_overflows() {
    let log = Rc::new(RefCell::new(vec![]));
    let mut b = TzeBuilder::empty();
    b.add_input(0, 0, (outpoint(1), prevout(-MAX_MONEY)), signer(&log, 0, 0));
    b.add_output(0, amount(1), &Guard { mode: 0, payload: vec![] }).unwrap();
    assert_eq!(b.value_balance(), None);
}

#[test]
fn balance_at_the_largest_amount() {
    let log = Rc::new(RefCell::new(vec![]));
    let mut b = TzeBuilder::empty();
    b.add_input(0, 0, (outpoint(1), prevout(MAX_MONEY)), signer(&log, 0, 0));
    assert_eq!(b.value_balance(), Some(amount(MAX_MONEY)));
}

#[test]
fn witnesses_of_empty_builder_are_absent() {
    let b: TzeBuilder<Signer> = TzeBuilder::empty();
    assert_eq!(b.create_witnesses(&Tx { tag: 1 }), Ok(None));
}

#[test]
fn witnesses_of_outputs_only_are_present_and_empty() {
    let mut b: TzeBuilder<Signer> = TzeBuilder::empty();
    b.add_output(0, amount(1), &Guard { mode: 0, payload: vec![] }).unwrap();
    assert_eq!(b.create_witnesses(&Tx { tag: 1 }), Ok(Some(vec![])));
}

#[test]
fn witnesses_come_in_input_order() {
    let log = Rc::new(RefCell::new(vec![]));
    let mut b = TzeBuilder::empty();
    b.add_input(0, 3, (outpoint(1), prevout(1)), signer(&log, 0, 3));
    b.add_input(0, 5, (outpoint(2), prevout(1)), signer(&log, 1, 5));
    b.add_input(0, 7, (outpoint(3), prevout(1)), signer(&log, 2, 7));
    b.add_output(0, amount(1), &Guard { mode: 0, payload: vec![] }).unwrap();
    b.add_output(0, amount(1), &Guard { mode: 0, payload: vec![] }).unwrap();
    let r = b.create_witnesses(&Tx { tag: 42 });
    assert_eq!(
        r,
        Ok(Some(vec![AuthData(vec![10, 42]), AuthData(vec![11, 42]), AuthData(vec![12, 42])]))
    );
    assert_eq!(*log.borrow(), vec![0, 1, 2]);
}

#[test]
fn mode_mismatch_aborts_and_stops() {
    let log = Rc::new(RefCell::new(vec![]));
    let mut b = TzeBuilder::empty();
    b.add_input(0, 3, (outpoint(1), prevout(1)), signer(&log, 0, 3));
    b.add_input(0, 5, (outpoint(2), prevout(1)), signer(&log, 1, 6));
    b.add_input(0, 7, (outpoint(3), prevout(1)), signer(&log, 2, 7));
    assert_eq!(b.create_witnesses(&Tx { tag: 0 }), Err(Error::WitnessModeMismatch(5, 6)));
    assert_eq!(*log.borrow(), vec![0, 1]);
}

#[test]
fn mismatch_at_first_input() {
    let log = Rc::new(RefCell::new(vec![]));
    let mut b = TzeBuilder::empty();
    b.add_input(0, 1, (outpoint(1), prevout(1)), signer(&log, 0, 2));
    b.add_input(0, 1, (outpoint(2), prevout(1)), signer(&log, 1, 1));
    assert_eq!(b.create_witnesses(&Tx { tag: 0 }), Err(Error::WitnessModeMismatch(1, 2)));
    assert_eq!(*log.borrow(), vec![0]);
}

#[test]
fn computation_error_propagates_and_stops() {
    let log = Rc::new(RefCell::new(vec![]));
    let mut b = TzeBuilder::empty();
    b.add_input(0, 1, (outpoint(1), prevout(1)), signer(&log, 0, 1));
    let mut failing = signer(&log, 1, 1);
    failing.error = Some(Error::InvalidAmount);
    b.add_input(0, 1, (outpoint(2), prevout(1)), failing);
    b.add_input(0, 1, (outpoint(3), prevout(1)), signer(&log, 2, 1));
    assert_eq!(b.create_witnesses(&Tx { tag: 0 }), Err(Error::InvalidAmount));
    assert_eq!(*log.borrow(), vec![0, 1]);
}

#[test]
fn check_witness_cases() {
    assert_eq!(check_witness(4, Ok((4, vec![1, 2]))), Ok(AuthData(vec![1, 2])));
    assert_eq!(check_witness(4, Ok((5, vec![1, 2]))), Err(Error::WitnessModeMismatch(4, 5)));
    assert_eq!(check_witness(4, Err(Error::InvalidAmount)), Err(Error::InvalidAmount));
}

#[test]
fn error_messages() {
    assert_eq!(Error::InvalidAmount.message(), "Invalid amount");
    assert_eq!(
        Error::WitnessModeMismatch(1, 2).message(),
        "TZE witness builder returned a mode that did not match the mode with which the input was initially constructed: expected = 1, actual = 2"
    );
}

#[test]
fn amount_bounds_and_arithmetic() {
    assert!(Amount::from_i64(MAX_MONEY).is_some());
    assert!(Amount::from_i64(-MAX_MONEY).is_some());
    assert!(Amount::from_i64(MAX_MONEY + 1).is_none());
    assert!(Amount::from_i64(-MAX_MONEY - 1).is_none());
    assert_eq!(amount(2).checked_add(&amount(3)), Some(amount(5)));
    assert_eq!(amount(MAX_MONEY).checked_add(&amount(1)), None);
    assert_eq!(amount(2).checked_sub(&amount(3)), Some(amount(-1)));
    assert_eq!(amount(-MAX_MONEY).checked_sub(&amount(1)), None);
    assert!(amount(-1).is_negative());
    assert!(!amount(0).is_negative());
}

#[test]
fn new_input_holds_its_declaration() {
    let i = TzeIn::new(outpoint(9), 3, 4);
    assert_eq!(i.prevout, outpoint(9));
    assert_eq!(i.witness, Witness { extension_id: 3, mode: 4 });
}

