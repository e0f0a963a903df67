//! What the driver asks of the hardware.
//!
//! The driver never touches a bus or a pin. It lists the requests that an
//! operation consists of, in order, and the host carries them out one by one.
//! A request is an [`Action`]; the contracts of the crate speak of its view,
//! an [`ActionView`], and of sequences of those.

use vstd::prelude::*;

verus! {

/// The output lines that accompany the bus.
#[derive(Clone, Copy, Debug, PartialEq, Eq, Structural)]
pub enum Line {
    /// Hard reset of the controller.
    Reset,
    /// The backlight of the panel.
    Backlight,
    /// Tells the controller whether the bytes on the bus are a command (low)
    /// or data (high).
    DataCommand,
    /// Selects the controller on a shared bus while low.
    ChipSelect,
}

/// The level an output line is driven to.
#[derive(Clone, Copy, Debug, PartialEq, Eq, Structural)]
pub enum Level {
    Low,
    High,
}

/// Which of the four output lines are wired. A line that is not wired is
/// never driven.
#[derive(Clone, Copy, Debug, PartialEq, Eq, Structural)]
pub struct Wiring {
    pub reset: bool,
    pub backlight: bool,
    pub data_command: bool,
    pub chip_select: bool,
}

impl Wiring {
    /// Whether `line` is wired.
    pub open spec fn has(self, line: Line) -> bool {
        match line {
            Line::Reset => self.reset,
            Line::Backlight => self.backlight,
            Line::DataCommand => self.data_command,
            Line::ChipSelect => self.chip_select,
        }
    }
}

/// One request to the hardware.
#[derive(Debug, PartialEq, Eq)]
pub enum Action {
    /// Drive `line` to `level`.
    Drive { line: Line, level: Level },
    /// Hand `bytes` to the bus as one write.
    Write { bytes: Vec<u8> },
    /// Let `us` microseconds pass.
    Delay { us: u32 },
}

/// What an [`Action`] stands for in contracts.
pub enum ActionView {
    Drive { line: Line, level: Level },
    Write { bytes: Seq<u8> },
    Delay { us: u32 },
}

impl View for Action {
    type V = ActionView;

    open spec fn view(&self) -> ActionView {
        match *self {
            Action::Drive { line, level } => ActionView::Drive { line, level },
            Action::Write { bytes } => ActionView::Write { bytes: bytes@ },
            Action::Delay { us } => ActionView::Delay { us },
        }
    }
}

/// The requests in `actions`, each by its view.
pub open spec fn views(actions: Seq<Action>) -> Seq<ActionView> {
    Seq::new(actions.len(), |i: int| actions[i]@)
}

/// One bus write for each element of `writes`, in order.
pub open spec fn bus_writes(writes: Seq<Seq<u8>>) -> Seq<ActionView> {
    Seq::new(writes.len(), |i: int| ActionView::Write { bytes: writes[i] })
}

/// The request that asserts chip-select, if the line is wired.
pub open spec fn select(cs: bool) -> Seq<ActionView> {
    if cs {
        seq![ActionView::Drive { line: Line::ChipSelect, level: Level::Low }]
    } else {
        seq![]
    }
}

/// The request that releases chip-select, if the line is wired.
pub open spec fn release(cs: bool) -> Seq<ActionView> {
    if cs {
        seq![ActionView::Drive { line: Line::ChipSelect, level: Level::High }]
    } else {
        seq![]
    }
}

/// The request that drives the data/command line to `level`, if the line is
/// wired.
pub open spec fn mode(dc: bool, level: Level) -> Seq<ActionView> {
    if dc {
        seq![ActionView::Drive { line: Line::DataCommand, level }]
    } else {
        seq![]
    }
}

/// One transmission: chip-select asserted, the data/command line driven to
/// `level`, the bus writes, chip-select released. A line that is not wired
/// is left out.
pub open spec fn frame(cs: bool, dc: bool, level: Level, writes: Seq<Seq<u8>>) -> Seq<ActionView> {
    select(cs) + mode(dc, level) + bus_writes(writes) + release(cs)
}

/// Adds `action` to the end of `plan`.
pub fn record(plan: &mut Vec<Action>, action: Action)
    ensures
        views(final(plan)@) == views(old(plan)@).push(action@),
{
    plan.push(action);
    assert(views(plan@) =~= views(old(plan)@).push(action@));
}

/// Adding the parts of a transmission to a plan one after the other is
/// adding the transmission.
pub proof fn lemma_frame_appended(
    plan: Seq<ActionView>,
    cs: bool,
    dc: bool,
    level: Level,
    writes: Seq<Seq<u8>>,
)
    ensures
        plan + select(cs) + mode(dc, level) + bus_writes(writes) + release(cs) == plan + frame(
            cs,
            dc,
            level,
            writes,
        ),
{
    assert(plan + select(cs) + mode(dc, level) + bus_writes(writes) + release(cs) =~= plan + frame(
        cs,
        dc,
        level,
        writes,
    ));
}

/// How a transmission is laid out: chip-select, where wired, is asserted
/// first and released last; the data/command line, where wired, is driven to
/// the level of the transmission right before the first bus write; the bus
/// writes follow one another in order, and nothing else is asked for.
pub proof fn lemma_frame_layout(cs: bool, dc: bool, level: Level, writes: Seq<Seq<u8>>)
    ensures
        ({
            let f = frame(cs, dc, level, writes);
            let s: int = if cs {
                1
            } else {
                0
            };
            let m: int = if dc {
                1
            } else {
                0
            };
            &&& f.len() == s + m + writes.len() + s
            &&& cs ==> f[0] == (ActionView::Drive { line: Line::ChipSelect, level: Level::Low })
            &&& cs ==> f[f.len() - 1] == (ActionView::Drive {
                line: Line::ChipSelect,
                level: Level::High,
            })
            &&& dc ==> f[s] == (ActionView::Drive { line: Line::DataCommand, level })
            &&& forall|k: int|
                0 <= k < writes.len() ==> #[trigger] f[s + m + k] == (ActionView::Write {
                    bytes: writes[k],
                })
        }),
{
}

/// Whether `plan` asks nothing of a line that is not wired.
pub open spec fn respects(plan: Seq<ActionView>, wiring: Wiring) -> bool {
    forall|i: int|
        0 <= i < plan.len() ==> (#[trigger] plan[i] matches ActionView::Drive { line, .. }
            ==> wiring.has(line))
}

/// Two plans that respect a wiring still do so one after the other.
pub proof fn lemma_respects_both(first: Seq<ActionView>, second: Seq<ActionView>, wiring: Wiring)
    requires
        respects(first, wiring),
        respects(second, wiring),
    ensures
        respects(first + second, wiring),
{
    let both = first + second;
    assert forall|i: int| 0 <= i < both.len() implies (#[trigger] both[i] matches ActionView::Drive {
        line,
        ..
    } ==> wiring.has(line)) by {
        if i < first.len() {
            assert(both[i] == first[i]);
        } else {
            assert(both[i] == second[i - first.len()]);
        }
    }
}

/// A transmission asks nothing of the framing lines that are not wired.
pub proof fn lemma_frame_respects(wiring: Wiring, level: Level, writes: Seq<Seq<u8>>)
    ensures
        respects(frame(wiring.chip_select, wiring.data_command, level, writes), wiring),
{
    lemma_frame_layout(wiring.chip_select, wiring.data_command, level, writes);
    let f = frame(wiring.chip_select, wiring.data_command, level, writes);
    let s: int = if wiring.chip_select {
        1
    } else {
        0
    };
    let m: int = if wiring.data_command {
        1
    } else {
        0
    };
    assert forall|i: int| 0 <= i < f.len() implies (#[trigger] f[i] matches ActionView::Drive {
        line,
        ..
    } ==> wiring.has(line)) by {
        if s + m <= i < s + m + writes.len() {
            assert(f[s + m + (i - s - m)] == (ActionView::Write { bytes: writes[i - s - m] }));
        }
    }
}

/// Whether chip-select is left asserted once the requests of `trace` have
/// been performed: the last request on that line drove it low.
pub open spec fn selected(trace: Seq<ActionView>) -> bool
    decreases trace.len(),
{
    if trace.len() == 0 {
        false
    } else {
        match trace.last() {
            ActionView::Drive { line: Line::ChipSelect, level } => level == Level::Low,
            _ => selected(trace.drop_last()),
        }
    }
}

/// Whether `plan` keeps chip-select in order: while the line is asserted
/// nothing is asked for but what belongs to a transmission, and at the end
/// the line is released.
pub open spec fn tidy(plan: Seq<ActionView>) -> bool {
    &&& !selected(plan)
    &&& forall|i: int|
        0 <= i < plan.len() && selected(#[trigger] plan.take(i)) ==> within_frame(plan[i])
}

/// Whether `action` may stand between the assertion of chip-select and its
/// release: a bus write, or a request on one of the two framing lines.
pub open spec fn within_frame(action: ActionView) -> bool {
    match action {
        ActionView::Delay { .. } => false,
        ActionView::Drive { line, .. } => line == Line::ChipSelect || line == Line::DataCommand,
        ActionView::Write { .. } => true,
    }
}

/// After a plan that leaves chip-select released, what a second plan leaves
/// it as is what it would leave it as alone.
pub proof fn lemma_selected_after(first: Seq<ActionView>, second: Seq<ActionView>)
    requires
        !selected(first),
    ensures
        selected(first + second) == selected(second),
    decreases second.len(),
{
    let both = first + second;
    if second.len() == 0 {
        assert(both =~= first);
    } else {
        assert(both.last() == second.last());
        assert(both.drop_last() =~= first + second.drop_last());
        lemma_selected_after(first, second.drop_last());
    }
}

/// Two plans that keep chip-select in order still do so one after the
/// other.
pub proof fn lemma_tidy_both(first: Seq<ActionView>, second: Seq<ActionView>)
    requires
        tidy(first),
        tidy(second),
    ensures
        tidy(first + second),
{
    let both = first + second;
    lemma_selected_after(first, second);
    assert forall|i: int| 0 <= i < both.len() && selected(#[trigger] both.take(i)) implies within_frame(
        both[i],
    ) by {
        if i < first.len() {
            assert(both.take(i) =~= first.take(i));
            assert(both[i] == first[i]);
        } else {
            let j = i - first.len();
            assert(both.take(i) =~= first + second.take(j));
            lemma_selected_after(first, second.take(j));
            assert(both[i] == second[j]);
        }
    }
}

/// A plan that asks nothing of chip-select leaves it released throughout.
pub proof fn lemma_unselected(plan: Seq<ActionView>)
    requires
        forall|i: int|
            0 <= i < plan.len() ==> !(#[trigger] plan[i] matches ActionView::Drive {
                line: Line::ChipSelect,
                ..
            }),
    ensures
        !selected(plan),
        tidy(plan),
    decreases plan.len(),
{
    if plan.len() > 0 {
        assert(plan.last() == plan[plan.len() - 1]);
        lemma_unselected(plan.drop_last());
    }
    assert forall|i: int| 0 <= i < plan.len() implies !selected(#[trigger] plan.take(i)) by {
        lemma_unselected_prefix(plan, i);
    }
}

proof fn lemma_unselected_prefix(plan: Seq<ActionView>, n: int)
    requires
        0 <= n <= plan.len(),
        forall|i: int|
            0 <= i < plan.len() ==> !(#[trigger] plan[i] matches ActionView::Drive {
                line: Line::ChipSelect,
                ..
            }),
    ensures
        !selected(plan.take(n)),
    decreases n,
{
    let prefix = plan.take(n);
    if n > 0 {
        assert(prefix.last() == plan[n - 1]);
        assert(prefix.drop_last() =~= plan.take(n - 1));
        lemma_unselected_prefix(plan, n - 1);
    }
}

/// A transmission keeps chip-select in order.
pub proof fn lemma_frame_tidy(cs: bool, dc: bool, level: Level, writes: Seq<Seq<u8>>)
    ensures
        tidy(frame(cs, dc, level, writes)),
{
    let f = frame(cs, dc, level, writes);
    lemma_frame_layout(cs, dc, level, writes);
    let m: int = if dc {
        1
    } else {
        0
    };
    if cs {
        assert(f.last() == f[f.len() - 1]);
        assert forall|i: int| 0 <= i < f.len() implies within_frame(#[trigger] f[i]) by {
            if 1 + m <= i < 1 + m + writes.len() {
                assert(f[1 + m + (i - 1 - m)] == (ActionView::Write { bytes: writes[i - 1 - m] }));
            }
        }
        assert forall|i: int| 0 <= i < f.len() && selected(#[trigger] f.take(i)) implies within_frame(
            f[i],
        ) by {
            assert(within_frame(f[i]));
        }
    } else {
        assert forall|i: int| 0 <= i < f.len() implies !(#[trigger] f[i] matches ActionView::Drive {
            line: Line::ChipSelect,
            ..
        }) by {
            if m <= i < m + writes.len() {
                assert(f[m + (i - m)] == (ActionView::Write { bytes: writes[i - m] }));
            }
        }
        lemma_unselected(f);
    }
}

} // verus!
