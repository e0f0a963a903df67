//! Carries a plan out, one request at a time.
//!
//! A [`Transfer`] holds the requests of one operation. The host asks it for
//! the request that is due, performs it and reports how it went; the
//! transfer decides what comes next. A request that fails ends the transfer
//! with the first error, and nothing that follows it in the plan is asked
//! for. The one request still made after a failure is the release of
//! chip-select, where that line is wired and the failure lay within a
//! transmission; how the release itself goes is never held against the
//! transfer.

use vstd::prelude::*;

use crate::addressing::Addressing;
use crate::enums::{Error, SpiError};
use crate::signal::{
    frame, selected, tidy, views, within_frame, Action, ActionView, Level, Line,
};

verus! {

/// How a request went, as the host reports it.
#[derive(Debug, PartialEq, Eq)]
pub enum Outcome<PinE> {
    /// The request was carried out.
    Done,
    /// An output line could not be driven; the line's own error is enclosed.
    PinFailed(PinE),
    /// The bus refused the write.
    BusFailed,
}

/// The first failure a transfer met.
#[derive(Debug, PartialEq, Eq)]
pub enum Fault<PinE> {
    /// The reset or the backlight line failed with the enclosed error.
    Pin(PinE),
    /// The transmission failed.
    Bus(SpiError),
}

/// How far a transfer has come.
pub struct Progress {
    /// How many requests of the plan are behind it.
    pub cursor: nat,
    /// Whether a failure has ended the plan.
    pub stopped: bool,
    /// Whether the release of chip-select after a failure is still due.
    pub releasing: bool,
}

/// The request that releases chip-select.
pub open spec fn release_action() -> ActionView {
    ActionView::Drive { line: Line::ChipSelect, level: Level::High }
}

/// Whether a failure of `action` ends the transfer. A delay cannot fail, and
/// a failed release of chip-select is passed over.
pub open spec fn fallible(action: ActionView) -> bool {
    match action {
        ActionView::Delay { .. } => false,
        ActionView::Drive { line, level } => !(line == Line::ChipSelect && level == Level::High),
        ActionView::Write { .. } => true,
    }
}

/// The state a transfer is in before its first request.
pub open spec fn fresh() -> Progress {
    Progress { cursor: 0, stopped: false, releasing: false }
}

/// The request that is due, if any.
pub open spec fn due(plan: Seq<ActionView>, at: Progress) -> Option<ActionView> {
    if at.stopped {
        if at.releasing {
            Some(release_action())
        } else {
            None
        }
    } else if at.cursor < plan.len() {
        Some(plan[at.cursor as int])
    } else {
        None
    }
}

/// The state after the host has reported on the request that was due; `ok`
/// says whether it was carried out. `cs` says whether chip-select is wired.
pub open spec fn advanced(plan: Seq<ActionView>, cs: bool, at: Progress, ok: bool) -> Progress {
    if at.stopped {
        Progress { releasing: false, ..at }
    } else if at.cursor >= plan.len() {
        at
    } else if ok || !fallible(plan[at.cursor as int]) {
        Progress { cursor: at.cursor + 1, ..at }
    } else {
        Progress { stopped: true, releasing: cs && within_frame(plan[at.cursor as int]), ..at }
    }
}

/// What a failure of `action`, reported as `outcome`, is recorded as. The
/// request decides: on the reset and the backlight line the line's own error
/// is kept, where the host gives one; on the two framing lines and on the
/// bus the failure is one of the transmission, named after the request.
pub open spec fn fault_of<PinE>(action: ActionView, outcome: Outcome<PinE>) -> Fault<PinE> {
    match action {
        ActionView::Drive { line: Line::ChipSelect, .. } => Fault::Bus(SpiError::CSError),
        ActionView::Drive { line: Line::DataCommand, .. } => Fault::Bus(SpiError::DCError),
        ActionView::Drive { .. } => match outcome {
            Outcome::PinFailed(e) => Fault::Pin(e),
            _ => Fault::Bus(SpiError::BusWriteError),
        },
        _ => Fault::Bus(SpiError::BusWriteError),
    }
}

/// The failure on record after the host has reported `outcome`: the first
/// one stays.
pub open spec fn fault_after<PinE>(
    plan: Seq<ActionView>,
    at: Progress,
    fault: Option<Fault<PinE>>,
    outcome: Outcome<PinE>,
) -> Option<Fault<PinE>> {
    if !at.stopped && at.cursor < plan.len() && !(outcome is Done) && fallible(
        plan[at.cursor as int],
    ) {
        Some(fault_of(plan[at.cursor as int], outcome))
    } else {
        fault
    }
}

/// The requests of one operation, and how far the host has come with them.
pub struct Transfer<PinE> {
    plan: Vec<Action>,
    chip_select: bool,
    addressing: Option<Addressing>,
    cursor: usize,
    fault: Option<Fault<PinE>>,
    releasing: bool,
    release: Action,
}

impl<PinE> Transfer<PinE> {
    #[verifier::type_invariant]
    spec fn well_formed(&self) -> bool {
        &&& self.cursor <= self.plan@.len()
        &&& self.releasing ==> self.fault is Some
        &&& self.release@ == release_action()
    }

    /// The requests of the operation, in order.
    pub closed spec fn plan(&self) -> Seq<ActionView> {
        views(self.plan@)
    }

    /// Whether chip-select is wired.
    pub closed spec fn chip_select(&self) -> bool {
        self.chip_select
    }

    /// What the driver is to record once the transfer has succeeded.
    pub closed spec fn addressing(&self) -> Option<Addressing> {
        self.addressing
    }

    /// How far the transfer has come.
    pub closed spec fn progress(&self) -> Progress {
        Progress {
            cursor: self.cursor as nat,
            stopped: self.fault is Some,
            releasing: self.releasing,
        }
    }

    /// The first failure the transfer met.
    pub closed spec fn fault(&self) -> Option<Fault<PinE>> {
        self.fault
    }

    /// Whether the transfer has `plan` before it, on a driver whose
    /// chip-select line is wired as `chip_select` says, with nothing
    /// performed yet and nothing for the driver to record.
    pub open spec fn begins(&self, plan: Seq<ActionView>, chip_select: bool) -> bool {
        &&& self.plan() == plan
        &&& self.chip_select() == chip_select
        &&& self.addressing() is None
        &&& self.progress() == fresh()
        &&& self.fault() is None
    }

    /// Whether nothing is left to do.
    pub open spec fn finished(&self) -> bool {
        due(self.plan(), self.progress()) is None
    }

    /// How the operation ended, once it has: well, or with its first
    /// failure. A failed transmission is reported without its kind.
    pub open spec fn verdict(&self) -> Option<Result<(), Error<PinE>>> {
        if !self.finished() {
            None
        } else {
            match self.fault() {
                None => Some(Ok(())),
                Some(Fault::Pin(e)) => Some(Err(Error::Pin(e))),
                Some(Fault::Bus(_)) => Some(Err(Error::DisplayError)),
            }
        }
    }

    /// A transfer that has `plan` before it. `chip_select` says whether that
    /// line is wired.
    pub fn new(plan: Vec<Action>, chip_select: bool) -> (transfer: Self)
        ensures
            transfer.begins(views(plan@), chip_select),
    {
        Transfer {
            plan,
            chip_select,
            addressing: None,
            cursor: 0,
            fault: None,
            releasing: false,
            release: Action::Drive { line: Line::ChipSelect, level: Level::High },
        }
    }

    /// A transfer that has `plan` before it and, once it has succeeded, has
    /// the driver record `addressing`.
    pub(crate) fn recording(plan: Vec<Action>, chip_select: bool, addressing: Addressing) -> (transfer:
        Self)
        ensures
            transfer.plan() == views(plan@),
            transfer.chip_select() == chip_select,
            transfer.addressing() == Some(addressing),
            transfer.progress() == fresh(),
            transfer.fault() is None,
    {
        Transfer {
            plan,
            chip_select,
            addressing: Some(addressing),
            cursor: 0,
            fault: None,
            releasing: false,
            release: Action::Drive { line: Line::ChipSelect, level: Level::High },
        }
    }

    /// The request the host is to perform now; none when the transfer has
    /// ended.
    pub fn pending(&self) -> (action: Option<&Action>)
        ensures
            match action {
                Some(a) => due(self.plan(), self.progress()) == Some(a@),
                None => self.finished(),
            },
    {
        proof {
            use_type_invariant(self);
        }
        if self.fault.is_some() {
            if self.releasing {
                Some(&self.release)
            } else {
                None
            }
        } else if self.cursor < self.plan.len() {
            Some(&self.plan[self.cursor])
        } else {
            None
        }
    }

    /// Whether nothing is left to do.
    pub fn is_finished(&self) -> (done: bool)
        ensures
            done == self.finished(),
    {
        proof {
            use_type_invariant(self);
        }
        if self.fault.is_some() {
            !self.releasing
        } else {
            self.cursor >= self.plan.len()
        }
    }

    /// The kind of the failed transmission, where the transfer met one.
    pub fn bus_fault(&self) -> (kind: Option<SpiError>)
        ensures
            kind == match self.fault() {
                Some(Fault::Bus(k)) => Some(k),
                _ => None::<SpiError>,
            },
    {
        match &self.fault {
            Some(Fault::Bus(k)) => Some(*k),
            _ => None,
        }
    }

    /// Takes the host's report on the request that was due.
    ///
    /// A request that was carried out makes the next one due. A failure of a
    /// delay or of the release of chip-select counts as carried out. Any
    /// other failure ends the plan and is recorded; where chip-select is
    /// wired and the request was part of a transmission, the release of
    /// chip-select becomes due as the last request. A report on a transfer
    /// that has ended changes nothing.
    pub fn advance(&mut self, outcome: Outcome<PinE>)
        ensures
            final(self).plan() == old(self).plan(),
            final(self).chip_select() == old(self).chip_select(),
            final(self).addressing() == old(self).addressing(),
            final(self).progress() == advanced(
                old(self).plan(),
                old(self).chip_select(),
                old(self).progress(),
                outcome is Done,
            ),
            final(self).fault() == fault_after(
                old(self).plan(),
                old(self).progress(),
                old(self).fault(),
                outcome,
            ),
    {
        proof {
            use_type_invariant(&*self);
        }
        if self.fault.is_some() {
            self.releasing = false;
        } else if self.cursor < self.plan.len() {
            let grade: Grade = grade(&self.plan[self.cursor]);
            match outcome {
                Outcome::Done => {
                    self.cursor = self.cursor + 1;
                },
                Outcome::PinFailed(e) => match grade {
                    Grade::Harmless => {
                        self.cursor = self.cursor + 1;
                    },
                    Grade::Select => {
                        self.fault = Some(Fault::Bus(SpiError::CSError));
                        self.releasing = self.chip_select;
                    },
                    Grade::Mode => {
                        self.fault = Some(Fault::Bus(SpiError::DCError));
                        self.releasing = self.chip_select;
                    },
                    Grade::Signal => {
                        self.fault = Some(Fault::Pin(e));
                    },
                    Grade::Write => {
                        self.fault = Some(Fault::Bus(SpiError::BusWriteError));
                        self.releasing = self.chip_select;
                    },
                },
                Outcome::BusFailed => match grade {
                    Grade::Harmless => {
                        self.cursor = self.cursor + 1;
                    },
                    Grade::Select => {
                        self.fault = Some(Fault::Bus(SpiError::CSError));
                        self.releasing = self.chip_select;
                    },
                    Grade::Mode => {
                        self.fault = Some(Fault::Bus(SpiError::DCError));
                        self.releasing = self.chip_select;
                    },
                    Grade::Signal => {
                        self.fault = Some(Fault::Bus(SpiError::BusWriteError));
                    },
                    Grade::Write => {
                        self.fault = Some(Fault::Bus(SpiError::BusWriteError));
                        self.releasing = self.chip_select;
                    },
                },
            }
        }
    }

    /// How the operation ended: well, or with its first failure. None while
    /// requests are still due.
    pub fn result(self) -> (verdict: Option<Result<(), Error<PinE>>>)
        ensures
            verdict == self.verdict(),
    {
        proof {
            use_type_invariant(&self);
        }
        if self.is_finished() {
            match self.fault {
                None => Some(Ok(())),
                Some(Fault::Pin(e)) => Some(Err(Error::Pin(e))),
                Some(Fault::Bus(_)) => Some(Err(Error::DisplayError)),
            }
        } else {
            None
        }
    }

    /// What the driver is to record once the transfer has succeeded.
    pub(crate) fn recorded(&self) -> (addressing: Option<Addressing>)
        ensures
            addressing == self.addressing(),
    {
        self.addressing
    }
}

/// What a failure of a request amounts to.
enum Grade {
    /// Nothing: the request cannot fail, or its failure is passed over.
    Harmless,
    /// Chip-select could not be asserted.
    Select,
    /// The data/command line could not be driven.
    Mode,
    /// The reset or the backlight line could not be driven.
    Signal,
    /// The bus refused a write.
    Write,
}

/// What a failure of `action` amounts to.
fn grade(action: &Action) -> (g: Grade)
    ensures
        (g is Harmless) == !fallible(action@),
        !(g is Harmless) ==> (g is Signal) == !within_frame(action@),
        g is Select ==> action@ matches ActionView::Drive { line: Line::ChipSelect, .. },
        g is Mode ==> action@ matches ActionView::Drive { line: Line::DataCommand, .. },
        g is Signal ==> action@ is Drive,
        g is Write ==> action@ is Write,
{
    match action {
        Action::Delay { .. } => Grade::Harmless,
        Action::Write { .. } => Grade::Write,
        Action::Drive { line, level } => match line {
            Line::ChipSelect => match level {
                Level::High => Grade::Harmless,
                Level::Low => Grade::Select,
            },
            Line::DataCommand => Grade::Mode,
            Line::Reset => Grade::Signal,
            Line::Backlight => Grade::Signal,
        },
    }
}

/// The state after the host has reported on one request after the other;
/// `oks` says of each report whether the request was carried out.
pub open spec fn run(plan: Seq<ActionView>, cs: bool, at: Progress, oks: Seq<bool>) -> Progress
    decreases oks.len(),
{
    if oks.len() == 0 {
        at
    } else {
        run(plan, cs, advanced(plan, cs, at, oks[0]), oks.drop_first())
    }
}

/// The requests the host has performed by the time it has made the reports
/// `oks`: each was due when the report before it had been taken.
pub open spec fn performed(plan: Seq<ActionView>, cs: bool, at: Progress, oks: Seq<bool>) -> Seq<
    ActionView,
>
    decreases oks.len(),
{
    if oks.len() == 0 {
        seq![]
    } else {
        match due(plan, at) {
            Some(action) => seq![action] + performed(
                plan,
                cs,
                advanced(plan, cs, at, oks[0]),
                oks.drop_first(),
            ),
            None => seq![],
        }
    }
}

/// How often `action` occurs in `trace`.
pub open spec fn count(trace: Seq<ActionView>, action: ActionView) -> nat
    decreases trace.len(),
{
    if trace.len() == 0 {
        0
    } else {
        count(trace.drop_first(), action) + if trace.first() == action {
            1nat
        } else {
            0nat
        }
    }
}

/// A transfer is stopped exactly when it has a failure on record.
pub proof fn lemma_stopped_by_fault<PinE>(transfer: &Transfer<PinE>)
    ensures
        transfer.progress().stopped == (transfer.fault() is Some),
{
}

/// Once nothing is due, reports change nothing and nothing more is
/// performed.
pub proof fn lemma_ended(plan: Seq<ActionView>, cs: bool, at: Progress, oks: Seq<bool>)
    requires
        due(plan, at) is None,
    ensures
        run(plan, cs, at, oks) == at,
        performed(plan, cs, at, oks) == Seq::<ActionView>::empty(),
    decreases oks.len(),
{
    if oks.len() > 0 {
        assert(advanced(plan, cs, at, oks[0]) == at);
        lemma_ended(plan, cs, at, oks.drop_first());
    }
}

/// Where the hardware never fails, every request of the plan is performed,
/// in order and once, and the transfer ends without a failure. That holds
/// whatever lines are wired.
pub proof fn lemma_unfailing(plan: Seq<ActionView>, cs: bool, oks: Seq<bool>)
    requires
        oks.len() >= plan.len(),
        forall|i: int| 0 <= i < oks.len() ==> oks[i],
    ensures
        due(plan, run(plan, cs, fresh(), oks)) is None,
        !run(plan, cs, fresh(), oks).stopped,
        performed(plan, cs, fresh(), oks) == plan,
{
    lemma_unfailing_from(plan, cs, 0, oks);
    assert(plan.skip(0) =~= plan);
}

proof fn lemma_unfailing_from(plan: Seq<ActionView>, cs: bool, cursor: nat, oks: Seq<bool>)
    requires
        cursor <= plan.len(),
        oks.len() >= plan.len() - cursor,
        forall|i: int| 0 <= i < oks.len() ==> oks[i],
    ensures
        run(plan, cs, Progress { cursor, stopped: false, releasing: false }, oks) == (Progress {
            cursor: plan.len(),
            stopped: false,
            releasing: false,
        }),
        performed(plan, cs, Progress { cursor, stopped: false, releasing: false }, oks)
            == plan.skip(cursor as int),
    decreases oks.len(),
{
    let at = Progress { cursor, stopped: false, releasing: false };
    if cursor == plan.len() {
        lemma_ended(plan, cs, at, oks);
        assert(plan.skip(cursor as int) =~= Seq::<ActionView>::empty());
    } else {
        assert(oks[0]);
        let next = Progress { cursor: cursor + 1, stopped: false, releasing: false };
        assert(advanced(plan, cs, at, oks[0]) == next);
        lemma_unfailing_from(plan, cs, cursor + 1, oks.drop_first());
        assert(seq![plan[cursor as int]] + plan.skip(cursor as int + 1) =~= plan.skip(cursor as int));
    }
}

/// A count over a trace with one more request in front.
proof fn lemma_count_step(head: ActionView, tail: Seq<ActionView>, action: ActionView)
    ensures
        count(seq![head] + tail, action) == count(tail, action) + if head == action {
            1nat
        } else {
            0nat
        },
{
    let trace = seq![head] + tail;
    assert(trace.first() == head);
    assert(trace.drop_first() =~= tail);
}

/// Whether `plan` has the shape of one transmission with chip-select
/// wired: it ends with the release of chip-select, and everything before is
/// part of the transmission and not the release.
spec fn one_frame(plan: Seq<ActionView>) -> bool {
    &&& plan.len() > 0
    &&& plan.last() == release_action()
    &&& forall|i: int|
        0 <= i < plan.len() - 1 ==> within_frame(#[trigger] plan[i]) && plan[i] != release_action()
}

proof fn lemma_one_frame_from(plan: Seq<ActionView>, cursor: nat, oks: Seq<bool>)
    requires
        one_frame(plan),
        cursor < plan.len(),
        due(plan, run(plan, true, Progress { cursor, stopped: false, releasing: false }, oks))
            is None,
    ensures
        ({
            let trace = performed(
                plan,
                true,
                Progress { cursor, stopped: false, releasing: false },
                oks,
            );
            &&& trace.len() > 0
            &&& trace.last() == release_action()
            &&& count(trace, release_action()) == 1
        }),
    decreases oks.len(),
{
    let at = Progress { cursor, stopped: false, releasing: false };
    let rel = release_action();
    let none = Seq::<ActionView>::empty();
    assert(due(plan, at) == Some(plan[cursor as int]));
    if oks.len() == 0 {
        assert(run(plan, true, at, oks) == at);
    } else {
        let rest = oks.drop_first();
        let next = advanced(plan, true, at, oks[0]);
        let trace = performed(plan, true, at, oks);
        assert(trace == seq![plan[cursor as int]] + performed(plan, true, next, rest));
        if cursor == plan.len() - 1 {
            assert(plan[cursor as int] == rel);
            assert(next == Progress { cursor: cursor + 1, stopped: false, releasing: false });
            lemma_ended(plan, true, next, rest);
            lemma_count_step(rel, none, rel);
            assert(count(none, rel) == 0);
            assert(trace =~= seq![rel]);
        } else if oks[0] {
            assert(next == Progress { cursor: cursor + 1, stopped: false, releasing: false });
            lemma_one_frame_from(plan, cursor + 1, rest);
            lemma_count_step(plan[cursor as int], performed(plan, true, next, rest), rel);
        } else {
            assert(within_frame(plan[cursor as int]) && plan[cursor as int] != rel);
            assert(fallible(plan[cursor as int]));
            assert(next == Progress { cursor, stopped: true, releasing: true });
            if rest.len() == 0 {
                assert(run(plan, true, next, rest) == next);
            } else {
                let last = advanced(plan, true, next, rest[0]);
                assert(last == Progress { cursor, stopped: true, releasing: false });
                lemma_ended(plan, true, last, rest.drop_first());
                assert(performed(plan, true, next, rest) =~= seq![rel]);
                lemma_count_step(rel, none, rel);
                assert(count(none, rel) == 0);
                assert(seq![rel] + none =~= seq![rel]);
                lemma_count_step(plan[cursor as int], seq![rel], rel);
                assert(trace =~= seq![plan[cursor as int]] + seq![rel]);
            }
        }
    }
}

/// Where chip-select is wired, a transmission that has come to its end has
/// released chip-select exactly once, as the last thing it did, whether it
/// went well or failed, and wherever it failed.
pub proof fn lemma_released_once(dc: bool, level: Level, writes: Seq<Seq<u8>>, oks: Seq<bool>)
    requires
        due(
            frame(true, dc, level, writes),
            run(frame(true, dc, level, writes), true, fresh(), oks),
        ) is None,
    ensures
        ({
            let trace = performed(frame(true, dc, level, writes), true, fresh(), oks);
            &&& trace.len() > 0
            &&& trace.last() == release_action()
            &&& count(trace, release_action()) == 1
        }),
{
    let plan = frame(true, dc, level, writes);
    assert(one_frame(plan)) by {
        assert(plan.last() == release_action());
        assert forall|i: int| 0 <= i < plan.len() - 1 implies within_frame(#[trigger] plan[i]) && plan[i]
            != release_action() by {
            if i == 0 {
            } else if dc && i == 1 {
            } else {
            }
        }
    }
    lemma_one_frame_from(plan, 0, oks);
}

/// The place of the first request, from `from` on, that fails: the first
/// that can fail and that the host reports as not carried out. None where
/// the plan or the reports end before one does.
pub open spec fn first_failure(plan: Seq<ActionView>, oks: Seq<bool>, from: nat) -> Option<nat>
    decreases plan.len() - from,
{
    if from >= plan.len() || from >= oks.len() {
        None
    } else if !oks[from as int] && fallible(plan[from as int]) {
        Some(from)
    } else {
        first_failure(plan, oks, from + 1)
    }
}

/// What the host has performed after the reports `oks`, said at once:
/// without a failure, as much of the plan as there were reports for; with
/// one, the plan up to the failed request and, where chip-select is wired and
/// the request was part of a transmission, the release of chip-select, as
/// soon as it has been reported on.
pub open spec fn fail_fast(plan: Seq<ActionView>, cs: bool, oks: Seq<bool>, from: nat) -> Seq<
    ActionView,
> {
    match first_failure(plan, oks, from) {
        None => plan.subrange(
            from as int,
            if plan.len() <= oks.len() {
                plan.len() as int
            } else {
                oks.len() as int
            },
        ),
        Some(k) => if cs && within_frame(plan[k as int]) && oks.len() > k + 1 {
            plan.subrange(from as int, k as int + 1).push(release_action())
        } else {
            plan.subrange(from as int, k as int + 1)
        },
    }
}

/// Where the transfer stands after the reports `oks`, said at once:
/// without a failure, as far into the plan as there were reports; with one,
/// stopped at the failed request, the release of chip-select still due
/// where it is owed and has not been reported on.
pub open spec fn fail_fast_state(plan: Seq<ActionView>, cs: bool, oks: Seq<bool>, from: nat)
    -> Progress {
    match first_failure(plan, oks, from) {
        None => Progress {
            cursor: if plan.len() <= oks.len() {
                plan.len()
            } else {
                oks.len()
            },
            stopped: false,
            releasing: false,
        },
        Some(k) => Progress {
            cursor: k,
            stopped: true,
            releasing: cs && within_frame(plan[k as int]) && oks.len() == k + 1,
        },
    }
}

/// The first failure, if there is one, lies at or after the place the search
/// began at, within the plan and within the reports, and is a failure.
proof fn lemma_first_failure(plan: Seq<ActionView>, oks: Seq<bool>, from: nat)
    ensures
        first_failure(plan, oks, from) matches Some(k) ==> from <= k < plan.len() && k < oks.len()
            && !oks[k as int] && fallible(plan[k as int]),
    decreases plan.len() - from,
{
    if from < plan.len() && from < oks.len() && !(!oks[from as int] && fallible(plan[from as int])) {
        lemma_first_failure(plan, oks, from + 1);
    }
}

proof fn lemma_fail_fast_from(plan: Seq<ActionView>, cs: bool, oks: Seq<bool>, from: nat)
    requires
        from <= plan.len(),
        from <= oks.len(),
    ensures
        performed(
            plan,
            cs,
            Progress { cursor: from, stopped: false, releasing: false },
            oks.skip(from as int),
        ) == fail_fast(plan, cs, oks, from),
        run(
            plan,
            cs,
            Progress { cursor: from, stopped: false, releasing: false },
            oks.skip(from as int),
        ) == fail_fast_state(plan, cs, oks, from),
    decreases plan.len() - from,
{
    let at = Progress { cursor: from, stopped: false, releasing: false };
    let reports = oks.skip(from as int);
    let rel = release_action();
    let none = Seq::<ActionView>::empty();
    if from == oks.len() {
        assert(plan.subrange(from as int, from as int) =~= none);
    } else if from == plan.len() {
        lemma_ended(plan, cs, at, reports);
        assert(plan.subrange(from as int, from as int) =~= none);
    } else {
        let rest = reports.drop_first();
        assert(rest =~= oks.skip(from as int + 1));
        assert(reports[0] == oks[from as int]);
        let next = advanced(plan, cs, at, reports[0]);
        let head = plan[from as int];
        assert(performed(plan, cs, at, reports) == seq![head] + performed(plan, cs, next, rest));
        assert(run(plan, cs, at, reports) == run(plan, cs, next, rest));
        if !oks[from as int] && fallible(head) {
            assert(plan.subrange(from as int, from as int + 1) =~= seq![head]);
            assert(first_failure(plan, oks, from) == Some(from));
            if cs && within_frame(head) {
                if rest.len() == 0 {
                    assert(seq![head] + none =~= seq![head]);
                    assert(run(plan, cs, next, rest) == next);
                } else {
                    let last = advanced(plan, cs, next, rest[0]);
                    assert(run(plan, cs, next, rest) == run(plan, cs, last, rest.drop_first()));
                    lemma_ended(plan, cs, last, rest.drop_first());
                    assert(performed(plan, cs, next, rest) =~= seq![rel]);
                    assert(seq![head] + seq![rel] =~= seq![head].push(rel));
                }
            } else {
                lemma_ended(plan, cs, next, rest);
                assert(seq![head] + none =~= seq![head]);
            }
        } else {
            assert(next == Progress { cursor: from + 1, stopped: false, releasing: false });
            lemma_fail_fast_from(plan, cs, oks, from + 1);
            lemma_first_failure(plan, oks, from + 1);
            match first_failure(plan, oks, from + 1) {
                None => {
                    let end: int = if plan.len() <= oks.len() {
                        plan.len() as int
                    } else {
                        oks.len() as int
                    };
                    assert(seq![head] + plan.subrange(from as int + 1, end) =~= plan.subrange(
                        from as int,
                        end,
                    ));
                },
                Some(k) => {
                    assert(seq![head] + plan.subrange(from as int + 1, k as int + 1) =~= plan.subrange(
                        from as int,
                        k as int + 1,
                    ));
                    assert(seq![head] + plan.subrange(from as int + 1, k as int + 1).push(rel)
                        =~= plan.subrange(from as int, k as int + 1).push(rel));
                },
            }
        }
    }
}

/// Requests are performed in the order of the plan, and the first failure
/// ends it: whatever the host reports, what it has performed is the plan up
/// to the first request that failed, followed by nothing but the release of
/// chip-select.
pub proof fn lemma_fail_fast(plan: Seq<ActionView>, cs: bool, oks: Seq<bool>)
    ensures
        performed(plan, cs, fresh(), oks) == fail_fast(plan, cs, oks, 0),
        run(plan, cs, fresh(), oks) == fail_fast_state(plan, cs, oks, 0),
{
    assert(oks.skip(0) =~= oks);
    lemma_fail_fast_from(plan, cs, oks, 0);
}

/// A transfer that has come to its end never leaves chip-select asserted,
/// whether it went well or failed, and wherever it failed. This holds of
/// every plan that keeps chip-select in order, as the plans of the driver's
/// operations do.
pub proof fn lemma_never_left_selected(plan: Seq<ActionView>, oks: Seq<bool>)
    requires
        tidy(plan),
        due(plan, run(plan, true, fresh(), oks)) is None,
    ensures
        !selected(performed(plan, true, fresh(), oks)),
{
    lemma_fail_fast(plan, true, oks);
    lemma_first_failure(plan, oks, 0);
    let trace = performed(plan, true, fresh(), oks);
    match first_failure(plan, oks, 0) {
        None => {
            assert(plan.len() <= oks.len());
            assert(plan.subrange(0, plan.len() as int) =~= plan);
        },
        Some(k) => {
            let upto = plan.subrange(0, k as int + 1);
            assert(upto =~= plan.take(k as int + 1));
            if within_frame(plan[k as int]) {
                assert(trace == upto.push(release_action()));
                assert(trace.last() == release_action());
            } else {
                assert(trace == upto);
                assert(upto.last() == plan[k as int]);
                assert(upto.drop_last() =~= plan.take(k as int));
                assert(!selected(plan.take(k as int)));
            }
        },
    }
}

} // verus!
