//! The Crazyflie parameters that choose what the estimator listens to.
use crate::system::SystemKind;
use vstd::prelude::*;

verus! {

/// Timeout applied to individual Crazyflie protocol round-trips (param set,
/// log block create/start), in seconds. The link has no timeout of its own, so a
/// single dropped packet would otherwise hang forever.
pub const CF_OP_TIMEOUT_SECS: u64 = 5;

/// A protocol round-trip.
#[derive(Clone, Copy, Debug, PartialEq, Eq, Structural)]
pub enum Operation {
    /// Setting whether a system is forwarded to the estimator.
    SetForwarding(SystemKind),
    /// Reading whether a system is forwarded to the estimator.
    ReadForwarding(SystemKind),
    /// Raising (`true`) or lowering the estimator's reset flag.
    SetReset(bool),
    CreateLogBlock,
    StartLogBlock,
}

/// A parameter to be written: by which operation, and the value.
#[derive(Clone, Copy, Debug, PartialEq, Eq, Structural)]
pub struct ParamWrite {
    pub operation: Operation,
    pub value: u8,
}

pub open spec fn spec_forwarding_param(kind: SystemKind) -> Seq<char> {
    match kind {
        SystemKind::Lighthouse => "lighthouse.fwdToEstimator"@,
        SystemKind::Loco => "loco.fwdToEstimator"@,
    }
}

/// The parameter that forwards a system to the estimator.
pub fn forwarding_param(kind: SystemKind) -> (r: &'static str)
    ensures
        r@ == spec_forwarding_param(kind),
{
    match kind {
        SystemKind::Lighthouse => "lighthouse.fwdToEstimator",
        SystemKind::Loco => "loco.fwdToEstimator",
    }
}

impl Operation {
    /// The parameter that the operation sets or reads, if any.
    pub open spec fn spec_param(self) -> Option<Seq<char>> {
        match self {
            Operation::SetForwarding(kind) => Some(spec_forwarding_param(kind)),
            Operation::ReadForwarding(kind) => Some(spec_forwarding_param(kind)),
            Operation::SetReset(_) => Some("kalman.resetEstimation"@),
            Operation::CreateLogBlock => None,
            Operation::StartLogBlock => None,
        }
    }

    /// The parameter that the operation sets or reads, if any.
    pub fn param(self) -> (r: Option<&'static str>)
        ensures
            match r {
                Some(name) => self.spec_param() == Some(name@),
                None => self.spec_param() is None,
            },
    {
        match self {
            Operation::SetForwarding(kind) => Some(forwarding_param(kind)),
            Operation::ReadForwarding(kind) => Some(forwarding_param(kind)),
            Operation::SetReset(_) => Some("kalman.resetEstimation"),
            Operation::CreateLogBlock => None,
            Operation::StartLogBlock => None,
        }
    }

    /// What the operation does, in words.
    pub open spec fn spec_describe(self) -> Seq<char> {
        match self {
            Operation::SetForwarding(kind) => "setting "@ + spec_forwarding_param(kind),
            Operation::ReadForwarding(kind) => "reading "@ + spec_forwarding_param(kind),
            Operation::SetReset(true) => "setting kalman.resetEstimation=1"@,
            Operation::SetReset(false) => "setting kalman.resetEstimation=0"@,
            Operation::CreateLogBlock => "creating live log block"@,
            Operation::StartLogBlock => "starting live log block"@,
        }
    }

    /// What the operation does, in words.
    pub fn describe(self) -> (r: String)
        ensures
            r@ == self.spec_describe(),
    {
        match self {
            Operation::SetForwarding(kind) => {
                let mut s = "setting ".to_owned();
                s.append(forwarding_param(kind));
                s
            },
            Operation::ReadForwarding(kind) => {
                let mut s = "reading ".to_owned();
                s.append(forwarding_param(kind));
                s
            },
            Operation::SetReset(true) => "setting kalman.resetEstimation=1".to_owned(),
            Operation::SetReset(false) => "setting kalman.resetEstimation=0".to_owned(),
            Operation::CreateLogBlock => "creating live log block".to_owned(),
            Operation::StartLogBlock => "starting live log block".to_owned(),
        }
    }
}

pub open spec fn timeout_message(operation: Operation) -> Seq<char> {
    "Timed out waiting for the Crazyflie to respond to: "@ + operation.spec_describe()
}

/// The outcome of a round-trip that was given [`CF_OP_TIMEOUT_SECS`]: what came
/// back, or, where nothing did in time, an error that names the operation.
pub fn with_timeout<T>(operation: Operation, outcome: Option<Result<T, String>>) -> (r: Result<
    T,
    String,
>)
    ensures
        match outcome {
            Some(result) => r == result,
            None => r is Err && r->Err_0@ == timeout_message(operation),
        },
{
    match outcome {
        Some(result) => result,
        None => {
            let mut s = "Timed out waiting for the Crazyflie to respond to: ".to_owned();
            s.append(operation.describe().as_str());
            Err(s)
        },
    }
}

pub open spec fn spec_set_estimator_sources(lighthouse: u8, loco: u8) -> Seq<ParamWrite> {
    seq![
        ParamWrite {
            operation: Operation::SetForwarding(SystemKind::Lighthouse),
            value: lighthouse,
        },
        ParamWrite { operation: Operation::SetForwarding(SystemKind::Loco), value: loco },
    ]
}

/// The writes that set what is forwarded to the estimator, in order.
pub fn set_estimator_sources(lighthouse: u8, loco: u8) -> (r: Vec<ParamWrite>)
    ensures
        r@ == spec_set_estimator_sources(lighthouse, loco),
{
    let mut writes: Vec<ParamWrite> = Vec::new();
    writes.push(
        ParamWrite {
            operation: Operation::SetForwarding(SystemKind::Lighthouse),
            value: lighthouse,
        },
    );
    writes.push(
        ParamWrite { operation: Operation::SetForwarding(SystemKind::Loco), value: loco },
    );
    writes
}

/// The writes that forward both systems to the estimator again, in order.
pub fn restore_estimator_sources() -> (r: Vec<ParamWrite>)
    ensures
        r@ == spec_set_estimator_sources(1, 1),
{
    set_estimator_sources(1, 1)
}

pub open spec fn spec_set_fwd_to_estimator(kind: SystemKind, enabled: bool) -> ParamWrite {
    ParamWrite {
        operation: Operation::SetForwarding(kind),
        value: if enabled {
            1
        } else {
            0
        },
    }
}

/// The write that switches the forwarding of the Lighthouse system.
pub fn set_lighthouse_fwd_to_estimator(enabled: bool) -> (r: ParamWrite)
    ensures
        r == spec_set_fwd_to_estimator(SystemKind::Lighthouse, enabled),
{
    ParamWrite {
        operation: Operation::SetForwarding(SystemKind::Lighthouse),
        value: if enabled {
            1
        } else {
            0
        },
    }
}

/// The write that switches the forwarding of the Loco system.
pub fn set_loco_fwd_to_estimator(enabled: bool) -> (r: ParamWrite)
    ensures
        r == spec_set_fwd_to_estimator(SystemKind::Loco, enabled),
{
    ParamWrite {
        operation: Operation::SetForwarding(SystemKind::Loco),
        value: if enabled {
            1
        } else {
            0
        },
    }
}

/// The reads that tell what is forwarded to the estimator, in order.
pub fn estimator_source_reads() -> (r: Vec<Operation>)
    ensures
        r@ == seq![
            Operation::ReadForwarding(SystemKind::Lighthouse),
            Operation::ReadForwarding(SystemKind::Loco),
        ],
{
    let mut reads: Vec<Operation> = Vec::new();
    reads.push(Operation::ReadForwarding(SystemKind::Lighthouse));
    reads.push(Operation::ReadForwarding(SystemKind::Loco));
    reads
}

/// The item of a list that is next: the one at place `done`, as long as the one
/// before it succeeded.
pub open spec fn spec_next<A>(items: Seq<A>, done: int, ok: bool) -> Option<A> {
    if ok && 0 <= done < items.len() {
        Some(items[done])
    } else {
        None
    }
}

/// The write that is next where `done` writes were tried; `ok` tells whether the
/// last of those succeeded. After a write that failed none is tried.
pub fn next_write(writes: &Vec<ParamWrite>, done: usize, ok: bool) -> (r: Option<ParamWrite>)
    ensures
        r == spec_next(writes@, done as int, ok),
{
    if ok && done < writes.len() {
        Some(writes[done])
    } else {
        None
    }
}

/// The read that is next where `done` reads were tried; `ok` tells whether the
/// last of those succeeded. After a read that failed none is tried.
pub fn next_read(reads: &Vec<Operation>, done: usize, ok: bool) -> (r: Option<Operation>)
    ensures
        r == spec_next(reads@, done as int, ok),
{
    if ok && done < reads.len() {
        Some(reads[done])
    } else {
        None
    }
}

/// The forwarding parameters (lighthouse, loco) out of the values that the reads
/// of [`estimator_source_reads`] gave, in order: known only if both succeeded.
pub fn sources_read(values: &Vec<u8>) -> (r: Option<(u8, u8)>)
    ensures
        r == (if values@.len() == 2 {
            Some((values@[0], values@[1]))
        } else {
            None
        }),
{
    if values.len() == 2 {
        Some((values[0], values[1]))
    } else {
        None
    }
}

/// The items of a list that are tried from place `done` on; `outcomes` tells of
/// each item whether it succeeds.
pub open spec fn tried<A>(items: Seq<A>, outcomes: Seq<bool>, done: int) -> Seq<A>
    decreases items.len() - done,
{
    match spec_next(items, done, done == 0 || outcomes[done - 1]) {
        Some(item) => seq![item] + tried(items, outcomes, done + 1),
        None => seq![],
    }
}

proof fn lemma_tried_from<A>(items: Seq<A>, outcomes: Seq<bool>, done: int, k: int)
    requires
        0 <= done <= k <= items.len(),
        k <= outcomes.len(),
        forall|i: int| 0 <= i < k - 1 ==> #[trigger] outcomes[i],
        k == items.len() || (0 < k && !outcomes[k - 1]),
    ensures
        tried(items, outcomes, done) == items.subrange(done, k),
    decreases k - done,
{
    if done < k {
        assert(done > 0 ==> outcomes[done - 1]);
        lemma_tried_from(items, outcomes, done + 1, k);
    }
    assert(tried(items, outcomes, done) =~= items.subrange(done, k));
}

/// A list of writes, or of reads, is tried in order up to the first that fails,
/// and no further.
pub proof fn nothing_is_tried_after_a_failure<A>(items: Seq<A>, outcomes: Seq<bool>, failed: int)
    requires
        0 <= failed < items.len(),
        outcomes.len() == items.len(),
        forall|i: int| 0 <= i < failed ==> #[trigger] outcomes[i],
        !outcomes[failed],
    ensures
        tried(items, outcomes, 0) == items.take(failed + 1),
{
    lemma_tried_from(items, outcomes, 0, failed + 1);
}

/// A list of writes, or of reads, of which none fails is tried whole.
pub proof fn everything_is_tried_without_a_failure<A>(items: Seq<A>, outcomes: Seq<bool>)
    requires
        outcomes.len() == items.len(),
        forall|i: int| 0 <= i < items.len() ==> #[trigger] outcomes[i],
    ensures
        tried(items, outcomes, 0) == items,
{
    lemma_tried_from(items, outcomes, 0, items.len() as int);
    assert(items.subrange(0, items.len() as int) =~= items);
}

/// What the lighthouse/loco `fwdToEstimator` parameters that were read say: any
/// value but zero forwards.
pub fn get_estimator_sources(lighthouse: u8, loco: u8) -> (r: (bool, bool))
    ensures
        r == (lighthouse != 0, loco != 0),
{
    (lighthouse != 0, loco != 0)
}

pub open spec fn spec_reset_estimator() -> Seq<ParamWrite> {
    seq![
        ParamWrite { operation: Operation::SetReset(true), value: 1 },
        ParamWrite { operation: Operation::SetReset(false), value: 0 },
    ]
}

/// The writes that reset the estimator, in order.
pub fn reset_estimator() -> (r: Vec<ParamWrite>)
    ensures
        r@ == spec_reset_estimator(),
{
    let mut writes: Vec<ParamWrite> = Vec::new();
    writes.push(ParamWrite { operation: Operation::SetReset(true), value: 1 });
    writes.push(ParamWrite { operation: Operation::SetReset(false), value: 0 });
    writes
}

/// The value that the last write for a system in a list gives its forwarding
/// parameter, if there is one.
pub open spec fn forwarded(writes: Seq<ParamWrite>, kind: SystemKind) -> Option<u8>
    decreases writes.len(),
{
    if writes.len() == 0 {
        None
    } else if writes.last().operation == Operation::SetForwarding(kind) {
        Some(writes.last().value)
    } else {
        forwarded(writes.drop_last(), kind)
    }
}

/// Setting the sources writes each system's parameter once, with the value given
/// for that system, and nothing else.
pub proof fn sources_are_written_as_given(lighthouse: u8, loco: u8, r: Vec<ParamWrite>)
    requires
        call_ensures(set_estimator_sources, (lighthouse, loco), r),
    ensures
        r@.len() == 2,
        forwarded(r@, SystemKind::Lighthouse) == Some(lighthouse),
        forwarded(r@, SystemKind::Loco) == Some(loco),
{
    lemma_forwarded_of_two(r@, lighthouse, loco);
}

proof fn lemma_forwarded_of_two(writes: Seq<ParamWrite>, lighthouse: u8, loco: u8)
    requires
        writes == spec_set_estimator_sources(lighthouse, loco),
    ensures
        forwarded(writes, SystemKind::Lighthouse) == Some(lighthouse),
        forwarded(writes, SystemKind::Loco) == Some(loco),
{
    reveal_with_fuel(forwarded, 3);
}

/// Restoring the sources forwards both systems.
pub proof fn restoring_forwards_both_systems(r: Vec<ParamWrite>, kind: SystemKind)
    requires
        call_ensures(restore_estimator_sources, (), r),
    ensures
        r@.len() == 2,
        forwarded(r@, kind) == Some(1u8),
{
    lemma_forwarded_of_two(r@, 1, 1);
}

/// What is switched on reads back as on, and what is switched off as off; any
/// value but zero reads as on.
pub proof fn switched_sources_read_back(
    lighthouse: bool,
    loco: bool,
    first: ParamWrite,
    second: ParamWrite,
    read: (bool, bool),
    value: u8,
    other: (bool, bool),
)
    requires
        call_ensures(set_lighthouse_fwd_to_estimator, (lighthouse,), first),
        call_ensures(set_loco_fwd_to_estimator, (loco,), second),
        call_ensures(get_estimator_sources, (first.value, second.value), read),
        call_ensures(get_estimator_sources, (value, 0), other),
    ensures
        first.operation == Operation::SetForwarding(SystemKind::Lighthouse),
        second.operation == Operation::SetForwarding(SystemKind::Loco),
        read == (lighthouse, loco),
        other == (value != 0, false),
{
}

/// An answer in time is handed on as it is; silence is an error that ends with
/// the words for the operation.
pub proof fn silence_names_the_operation<T>(
    operation: Operation,
    outcome: Option<Result<T, String>>,
    r: Result<T, String>,
    words: String,
)
    requires
        call_ensures(with_timeout::<T>, (operation, outcome), r),
        call_ensures(Operation::describe, (operation,), words),
    ensures
        outcome is Some ==> r == outcome.unwrap(),
        outcome is None ==> r is Err && r->Err_0@
            == "Timed out waiting for the Crazyflie to respond to: "@ + words@,
{
}

/// The words for an operation on a parameter tell what is done to which
/// parameter.
pub proof fn words_name_the_parameter(operation: Operation, words: String, name: &'static str)
    requires
        call_ensures(Operation::describe, (operation,), words),
        call_ensures(Operation::param, (operation,), Some(name)),
    ensures
        words@ == (match operation {
            Operation::SetForwarding(_) => "setting "@ + name@,
            Operation::ReadForwarding(_) => "reading "@ + name@,
            Operation::SetReset(on) => "setting "@ + name@ + (if on {
                "=1"@
            } else {
                "=0"@
            }),
            _ => words@,
        }),
{
    reveal_strlit("setting kalman.resetEstimation=1");
    reveal_strlit("setting kalman.resetEstimation=0");
    reveal_strlit("setting ");
    reveal_strlit("kalman.resetEstimation");
    reveal_strlit("=1");
    reveal_strlit("=0");
    assert("setting "@ + "kalman.resetEstimation"@ + "=1"@
        =~= "setting kalman.resetEstimation=1"@);
    assert("setting "@ + "kalman.resetEstimation"@ + "=0"@
        =~= "setting kalman.resetEstimation=0"@);
}

/// Each system's parameter begins with the name of that system.
pub proof fn parameter_is_of_the_system(kind: SystemKind, r: &'static str)
    requires
        call_ensures(forwarding_param, (kind,), r),
    ensures
        r@ == (match kind {
            SystemKind::Lighthouse => "lighthouse"@,
            SystemKind::Loco => "loco"@,
        }) + ".fwdToEstimator"@,
{
    reveal_strlit("lighthouse");
    reveal_strlit("loco");
    reveal_strlit(".fwdToEstimator");
    reveal_strlit("lighthouse.fwdToEstimator");
    reveal_strlit("loco.fwdToEstimator");
    assert("lighthouse"@ + ".fwdToEstimator"@ =~= "lighthouse.fwdToEstimator"@);
    assert("loco"@ + ".fwdToEstimator"@ =~= "loco.fwdToEstimator"@);
}

/// Resetting the estimator raises its reset flag and then lowers it.
pub proof fn reset_flag_is_raised_and_lowered(r: Vec<ParamWrite>)
    requires
        call_ensures(reset_estimator, (), r),
    ensures
        r@.len() == 2,
        r@[0].operation == Operation::SetReset(true) && r@[0].value == 1,
        r@[1].operation == Operation::SetReset(false) && r@[1].value == 0,
{
}

/// The values of the two reads are handed on in the order of the reads, and only
/// if there are two.
pub proof fn sources_are_those_that_were_read(
    lighthouse: u8,
    loco: u8,
    values: &Vec<u8>,
    r: Option<(u8, u8)>,
    reads: Vec<Operation>,
)
    requires
        call_ensures(sources_read, (values,), r),
        call_ensures(estimator_source_reads, (), reads),
    ensures
        reads@.len() == 2,
        reads@[0] == Operation::ReadForwarding(SystemKind::Lighthouse),
        reads@[1] == Operation::ReadForwarding(SystemKind::Loco),
        r is Some <==> values@.len() == reads@.len(),
        values@ == seq![lighthouse, loco] ==> r == Some((lighthouse, loco)),
{
}

/// Setting and reading a system's forwarding are on the same parameter, raising
/// and lowering the reset flag too, and the log block has none.
pub proof fn operations_are_on_their_parameter(
    kind: SystemKind,
    name: &'static str,
    set: Option<&'static str>,
    read: Option<&'static str>,
    raise: Option<&'static str>,
    lower: Option<&'static str>,
    create: Option<&'static str>,
    begin: Option<&'static str>,
)
    requires
        call_ensures(forwarding_param, (kind,), name),
        call_ensures(Operation::param, (Operation::SetForwarding(kind),), set),
        call_ensures(Operation::param, (Operation::ReadForwarding(kind),), read),
        call_ensures(Operation::param, (Operation::SetReset(true),), raise),
        call_ensures(Operation::param, (Operation::SetReset(false),), lower),
        call_ensures(Operation::param, (Operation::CreateLogBlock,), create),
        call_ensures(Operation::param, (Operation::StartLogBlock,), begin),
    ensures
        set is Some && set.unwrap()@ == name@,
        read is Some && read.unwrap()@ == name@,
        raise is Some && raise.unwrap()@ == "kalman.resetEstimation"@,
        lower is Some && lower.unwrap()@ == "kalman.resetEstimation"@,
        create is None,
        begin is None,
{
}

/// The next write, or read, of a list is the first that was not tried, and only
/// while none failed.
pub proof fn next_is_the_first_untried(
    writes: &Vec<ParamWrite>,
    reads: &Vec<Operation>,
    done: usize,
    write: Option<ParamWrite>,
    read: Option<Operation>,
    after_failed_write: Option<ParamWrite>,
    after_failed_read: Option<Operation>,
)
    requires
        call_ensures(next_write, (writes, done, true), write),
        call_ensures(next_read, (reads, done, true), read),
        call_ensures(next_write, (writes, done, false), after_failed_write),
        call_ensures(next_read, (reads, done, false), after_failed_read),
    ensures
        write is Some <==> done < writes@.len(),
        write is Some ==> write.unwrap() == writes@[done as int],
        read is Some <==> done < reads@.len(),
        read is Some ==> read.unwrap() == reads@[done as int],
        after_failed_write is None,
        after_failed_read is None,
{
}

} // verus!
