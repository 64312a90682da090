//! The bus that carries commands and data to the controller, modelled as the sequence of
//! transfers it has been handed, and the bookkeeping that relates a planned sequence of transfers
//! to what an operation actually handed over.

use vstd::prelude::*;

verus! {

/// One transfer on the bus: a command word (D/C low) or a run of data words (D/C high).
pub enum Transfer {
    Command(u8),
    Data(Seq<u8>),
}

/// The errors of every fallible operation of the driver.
#[derive(Debug, PartialEq, Eq)]
pub enum Error<E> {
    /// An argument lies outside the range that the controller accepts. Detected before anything
    /// of the offending command is sent.
    InvalidArgument,
    /// The bus reported a failure; the rest of the operation was abandoned.
    Transport(E),
}

/// A bus able to reach the controller. `sent` is the sequence of transfers handed to the bus so
/// far; each method appends the transfer it was asked to make, whether or not the bus then
/// reports success.
pub trait DisplayInterface {
    type Error;

    /// The transfers handed to the bus so far. A verified implementation defines it from its
    /// state; the default lets implementations outside verified code (hardware buses) compile,
    /// and their methods' contracts are then taken on trust.
    closed spec fn sent(&self) -> Seq<Transfer> {
        Seq::empty()
    }

    /// Send one command word.
    fn send_command(&mut self, cmd: u8) -> (r: Result<(), Self::Error>)
        ensures
            final(self).sent() == old(self).sent().push(Transfer::Command(cmd)),
    ;

    /// Send a run of data words.
    fn send_data(&mut self, buf: &[u8]) -> (r: Result<(), Self::Error>)
        ensures
            final(self).sent() == old(self).sent().push(Transfer::Data(buf@)),
    ;
}

/// What an operation means to do on the bus: the transfers it makes when the bus never fails,
/// and whether it then ends well (`valid`) or stops on an invalid argument.
pub struct Plan {
    pub transfers: Seq<Transfer>,
    pub valid: bool,
}

/// The plan of an operation that sends nothing and fails on an invalid argument.
pub open spec fn rejected_plan() -> Plan {
    Plan { transfers: Seq::empty(), valid: false }
}

/// `first`, then `second` if `first` ended well.
pub open spec fn followed_by(first: Plan, second: Plan) -> Plan {
    if first.valid {
        Plan { transfers: first.transfers + second.transfers, valid: second.valid }
    } else {
        first
    }
}

/// The transfers of one command: its word, followed by its arguments when it has any.
pub open spec fn command_transfers(opcode: u8, args: Seq<u8>) -> Seq<Transfer> {
    if args.len() == 0 {
        seq![Transfer::Command(opcode)]
    } else {
        seq![Transfer::Command(opcode), Transfer::Data(args)]
    }
}

/// The bus went from `before` to `after` while carrying out `plan`, and `r` reports how it
/// ended: all of the plan and success; all of the plan and the invalid argument it ends on; or a
/// transport failure on one of the plan's transfers, after which nothing more was sent.
pub open spec fn performed<E>(
    before: Seq<Transfer>,
    after: Seq<Transfer>,
    plan: Plan,
    r: Result<(), Error<E>>,
) -> bool {
    match r {
        Ok(_) => plan.valid && after == before + plan.transfers,
        Err(Error::InvalidArgument) => !plan.valid && after == before + plan.transfers,
        Err(Error::Transport(_)) => exists|k: int|
            0 < k <= plan.transfers.len() && after == before + #[trigger] plan.transfers.take(k),
    }
}

/// Carrying out `first` to the end and then `second` is carrying out their sequence.
pub proof fn lemma_followed_by_ok<E>(
    before: Seq<Transfer>,
    middle: Seq<Transfer>,
    after: Seq<Transfer>,
    first: Plan,
    second: Plan,
    r: Result<(), Error<E>>,
)
    requires
        performed(before, middle, first, Ok::<(), Error<E>>(())),
        performed(middle, after, second, r),
    ensures
        performed(before, after, followed_by(first, second), r),
{
    let both = followed_by(first, second);
    assert(both.transfers == first.transfers + second.transfers);
    match r {
        Ok(_) => {
            assert(after =~= before + both.transfers);
        },
        Err(Error::InvalidArgument) => {
            assert(after =~= before + both.transfers);
        },
        Err(Error::Transport(_)) => {
            let k = choose|k: int|
                0 < k <= second.transfers.len() && after == middle
                    + #[trigger] second.transfers.take(k);
            let j = first.transfers.len() + k;
            assert(both.transfers.take(j) =~= first.transfers + second.transfers.take(k));
            assert(after =~= before + both.transfers.take(j));
        },
    }
}

/// An operation that failed part-way through `first` failed part-way through any sequence that
/// starts with `first`.
pub proof fn lemma_followed_by_err<E>(
    before: Seq<Transfer>,
    after: Seq<Transfer>,
    first: Plan,
    second: Plan,
    r: Result<(), Error<E>>,
)
    requires
        performed(before, after, first, r),
        r is Err,
    ensures
        performed(before, after, followed_by(first, second), r),
{
    if first.valid {
        let both = followed_by(first, second);
        match r {
            Err(Error::Transport(_)) => {
                let k = choose|k: int|
                    0 < k <= first.transfers.len() && after == before
                        + #[trigger] first.transfers.take(k);
                assert(both.transfers.take(k) =~= first.transfers.take(k));
            },
            _ => {},
        }
    }
}

/// What the test bus records of one transfer.
#[derive(Clone, Debug, PartialEq, Eq)]
pub enum Sent {
    Cmd(u8),
    Data(Vec<u8>),
}

impl Sent {
    pub open spec fn view(&self) -> Transfer {
        match self {
            Sent::Cmd(c) => Transfer::Command(*c),
            Sent::Data(d) => Transfer::Data(d@),
        }
    }
}


/// A bus that records every transfer it is handed. It can be told to fail every transfer from a
/// given one on, to exercise the driver's handling of bus faults.
pub struct TestSpyInterface {
    log: Vec<Sent>,
    fail_from: Option<usize>,
}

/// The fault reported by a `TestSpyInterface` told to fail.
#[derive(Clone, Copy, Debug, PartialEq, Eq)]
pub struct SpyFault;

impl TestSpyInterface {
    pub closed spec fn log(&self) -> Seq<Sent> {
        self.log@
    }

    /// A bus that records every transfer and never fails.
    pub fn new() -> (r: Self)
        ensures
            r.sent() == Seq::<Transfer>::empty(),
    {
        let r = TestSpyInterface { log: Vec::new(), fail_from: None };
        assert(r.sent() =~= Seq::<Transfer>::empty());
        r
    }

    /// A bus that records every transfer and fails each one once `count` transfers have been
    /// recorded before it.
    pub fn failing_after(count: usize) -> (r: Self)
        ensures
            r.sent() == Seq::<Transfer>::empty(),
    {
        let r = TestSpyInterface { log: Vec::new(), fail_from: Some(count) };
        assert(r.sent() =~= Seq::<Transfer>::empty());
        r
    }

    /// Everything recorded so far, oldest first.
    pub fn sent_log(&self) -> (r: &Vec<Sent>)
        ensures
            r@ == self.log(),
    {
        &self.log
    }

    /// Forget everything recorded so far.
    pub fn clear(&mut self)
        ensures
            final(self).sent() == Seq::<Transfer>::empty(),
    {
        self.log = Vec::new();
        assert(self.sent() =~= Seq::<Transfer>::empty());
    }

    fn outcome(&self) -> (r: Result<(), SpyFault>) {
        match self.fail_from {
            Some(n) => if self.log.len() >= n {
                Err(SpyFault)
            } else {
                Ok(())
            },
            None => Ok(()),
        }
    }
}

impl DisplayInterface for TestSpyInterface {
    type Error = SpyFault;

    closed spec fn sent(&self) -> Seq<Transfer> {
        self.log@.map_values(|s: Sent| s.view())
    }

    fn send_command(&mut self, cmd: u8) -> (r: Result<(), SpyFault>) {
        let r = self.outcome();
        self.log.push(Sent::Cmd(cmd));
        assert(self.sent() =~= old(self).sent().push(Transfer::Command(cmd)));
        r
    }

    fn send_data(&mut self, buf: &[u8]) -> (r: Result<(), SpyFault>) {
        let r = self.outcome();
        let data = vstd::slice::slice_to_vec(buf);
        self.log.push(Sent::Data(data));
        assert(self.sent() =~= old(self).sent().push(Transfer::Data(buf@)));
        r
    }
}

} // verus!
