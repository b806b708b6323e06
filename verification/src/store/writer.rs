//! The writer actor: the sole owner of write access to a day's shard.
//!
//! Producers reach the writer through a bounded queue of commands. The
//! writer takes one command at a time and commits each batch in one
//! transaction. After a shutdown command it drains what is already queued,
//! without waiting for more, and stops. The states and transitions are
//! decided here; the caller owns the queue and the connection.

use crate::point::{batch_view, rows_view, MetricDataPoint, PointView, ProbeDataPoint};
use vstd::prelude::*;

verus! {

/// Capacity of the queue between producers and the writer. A full queue
/// makes the producer wait.
pub const CHANNEL_BUFFER_SIZE: usize = 1000;

/// Command sent to the writer task.
pub enum WriteCommand {
    /// Store the points in one transaction.
    InsertBatch(Vec<ProbeDataPoint>),
    /// Finish what is queued and stop.
    Shutdown,
}

/// A command in mathematical terms.
pub enum CommandView {
    InsertBatch(Seq<PointView>),
    Shutdown,
}

impl View for WriteCommand {
    type V = CommandView;

    open spec fn view(&self) -> CommandView {
        match self {
            WriteCommand::InsertBatch(points) => CommandView::InsertBatch(batch_view(points@)),
            WriteCommand::Shutdown => CommandView::Shutdown,
        }
    }
}

/// What taking from the queue gave.
pub enum QueueEvent {
    /// The next command, in queue order.
    Command(WriteCommand),
    /// Nothing is queued at the moment.
    Empty,
    /// Nothing is queued and every producer is gone.
    Closed,
}

/// A queue event in mathematical terms.
pub enum EventView {
    Command(CommandView),
    Empty,
    Closed,
}

impl View for QueueEvent {
    type V = EventView;

    open spec fn view(&self) -> EventView {
        match self {
            QueueEvent::Command(command) => EventView::Command(command@),
            QueueEvent::Empty => EventView::Empty,
            QueueEvent::Closed => EventView::Closed,
        }
    }
}

/// Where the writer stands.
#[derive(Debug, Clone, Copy, PartialEq, Eq, Structural)]
pub enum WriterPhase {
    /// Waits for the next command.
    Running,
    /// Shutdown was seen: takes what is already queued, without waiting.
    Draining,
    /// The connection is closed and the task has ended.
    Stopped,
}

/// What the writer does with an event.
pub enum WriterStep {
    /// Insert the batch, all of it or none, in one transaction.
    Commit(Vec<ProbeDataPoint>),
    /// Nothing to write.
    Idle,
    /// Close the connection and end the task.
    Close,
}

/// A step in mathematical terms.
pub enum StepView {
    Commit(Seq<PointView>),
    Idle,
    Close,
}

impl View for WriterStep {
    type V = StepView;

    open spec fn view(&self) -> StepView {
        match self {
            WriterStep::Commit(points) => StepView::Commit(batch_view(points@)),
            WriterStep::Idle => StepView::Idle,
            WriterStep::Close => StepView::Close,
        }
    }
}

/// The step for a batch: an empty one needs no transaction.
pub open spec fn batch_step(batch: Seq<PointView>) -> StepView {
    if batch.len() == 0 {
        StepView::Idle
    } else {
        StepView::Commit(batch)
    }
}

/// The phase that follows `phase` on `event`.
pub open spec fn next_phase(phase: WriterPhase, event: EventView) -> WriterPhase {
    match phase {
        WriterPhase::Running => match event {
            EventView::Command(CommandView::InsertBatch(_)) => WriterPhase::Running,
            EventView::Command(CommandView::Shutdown) => WriterPhase::Draining,
            EventView::Empty => WriterPhase::Running,
            EventView::Closed => WriterPhase::Stopped,
        },
        WriterPhase::Draining => match event {
            EventView::Command(CommandView::InsertBatch(_)) => WriterPhase::Draining,
            _ => WriterPhase::Stopped,
        },
        WriterPhase::Stopped => WriterPhase::Stopped,
    }
}

/// What the writer does in `phase` on `event`.
pub open spec fn step_for(phase: WriterPhase, event: EventView) -> StepView {
    match phase {
        WriterPhase::Running => match event {
            EventView::Command(CommandView::InsertBatch(batch)) => batch_step(batch),
            EventView::Command(CommandView::Shutdown) => StepView::Idle,
            EventView::Empty => StepView::Idle,
            EventView::Closed => StepView::Close,
        },
        WriterPhase::Draining => match event {
            EventView::Command(CommandView::InsertBatch(batch)) => batch_step(batch),
            _ => StepView::Close,
        },
        WriterPhase::Stopped => StepView::Idle,
    }
}

/// The points that a step writes, when its transaction commits.
pub open spec fn step_rows(step: StepView) -> Seq<PointView> {
    match step {
        StepView::Commit(batch) => batch,
        _ => Seq::empty(),
    }
}

/// The phase of a writer that started in `phase` and has handled `events`.
pub open spec fn phase_after(phase: WriterPhase, events: Seq<EventView>) -> WriterPhase
    decreases events.len(),
{
    if events.len() == 0 {
        phase
    } else {
        phase_after(next_phase(phase, events[0]), events.drop_first())
    }
}

/// The points that a writer, started in `phase`, has written after `events`,
/// in the order written, when every transaction commits.
pub open spec fn written(phase: WriterPhase, events: Seq<EventView>) -> Seq<PointView>
    decreases events.len(),
{
    if events.len() == 0 {
        Seq::empty()
    } else {
        step_rows(step_for(phase, events[0])) + written(
            next_phase(phase, events[0]),
            events.drop_first(),
        )
    }
}

/// The rows of a shard after a batch was committed to it: the table only
/// grows, and nothing is compared with what it holds.
pub open spec fn stored(rows: Seq<PointView>, batch: Seq<PointView>) -> Seq<PointView> {
    rows + batch
}

/// The rows of a shard after a step of the writer. A batch is written in
/// one transaction: where it commits, the batch is added whole; where it
/// fails, the shard is as it was, and the writer goes on all the same.
pub open spec fn after_step(rows: Seq<PointView>, step: StepView, committed: bool) -> Seq<
    PointView,
> {
    if committed {
        stored(rows, step_rows(step))
    } else {
        rows
    }
}

/// The state of the writer task.
pub struct WriterState {
    phase: WriterPhase,
}

impl WriterState {
    /// Where the writer stands.
    pub closed spec fn phase(&self) -> WriterPhase {
        self.phase
    }

    /// A writer that waits for its first command.
    pub fn new() -> (state: WriterState)
        ensures
            state.phase() == WriterPhase::Running,
    {
        WriterState { phase: WriterPhase::Running }
    }

    /// Where the writer stands.
    pub fn current_phase(&self) -> (phase: WriterPhase)
        ensures
            phase == self.phase(),
    {
        self.phase
    }

    /// Whether the task has ended.
    pub fn is_stopped(&self) -> (stopped: bool)
        ensures
            stopped == (self.phase() == WriterPhase::Stopped),
    {
        match self.phase {
            WriterPhase::Stopped => true,
            _ => false,
        }
    }

    /// Handles what the queue gave and says what to do with it. While
    /// running the caller waits for the next command; while draining it
    /// takes only what is already queued.
    pub fn on_event(&mut self, event: QueueEvent) -> (step: WriterStep)
        ensures
            final(self).phase() == next_phase(old(self).phase(), event@),
            step@ == step_for(old(self).phase(), event@),
    {
        match self.phase {
            WriterPhase::Running => match event {
                QueueEvent::Command(WriteCommand::InsertBatch(points)) => batch_step_of(points),
                QueueEvent::Command(WriteCommand::Shutdown) => {
                    self.phase = WriterPhase::Draining;
                    WriterStep::Idle
                },
                QueueEvent::Empty => WriterStep::Idle,
                QueueEvent::Closed => {
                    self.phase = WriterPhase::Stopped;
                    WriterStep::Close
                },
            },
            WriterPhase::Draining => match event {
                QueueEvent::Command(WriteCommand::InsertBatch(points)) => batch_step_of(points),
                _ => {
                    self.phase = WriterPhase::Stopped;
                    WriterStep::Close
                },
            },
            WriterPhase::Stopped => WriterStep::Idle,
        }
    }
}

/// The step for a batch.
fn batch_step_of(points: Vec<ProbeDataPoint>) -> (step: WriterStep)
    ensures
        step@ == batch_step(batch_view(points@)),
{
    if points.len() == 0 {
        WriterStep::Idle
    } else {
        WriterStep::Commit(points)
    }
}

/// Appends the points of a batch to the rows of a shard, as one committed
/// transaction does, and returns how many rows were added.
pub fn insert_batch(rows: &mut Vec<MetricDataPoint>, data_points: &Vec<ProbeDataPoint>) -> (count:
    u64)
    ensures
        rows_view(final(rows)@) == stored(rows_view(old(rows)@), batch_view(data_points@)),
        count == data_points@.len(),
{
    let ghost before = rows_view(rows@);
    let mut count: u64 = 0;
    let mut i: usize = 0;
    while i < data_points.len()
        invariant
            0 <= i <= data_points@.len(),
            count == i,
            rows_view(rows@) == before + batch_view(data_points@).subrange(0, i as int),
        decreases data_points@.len() - i,
    {
        let row = data_points[i].to_row();
        proof {
            assert(rows_view(rows@.push(row)) =~= rows_view(rows@).push(row@));
            assert(batch_view(data_points@).subrange(0, i + 1) =~= batch_view(
                data_points@,
            ).subrange(0, i as int).push(data_points@[i as int]@));
        }
        rows.push(row);
        count = count + 1;
        i = i + 1;
    }
    assert(batch_view(data_points@).subrange(0, i as int) =~= batch_view(data_points@));
    count
}

/// What is written after a run of events is what is written after its
/// first `at` events, and then what the rest adds from the phase reached.
proof fn lemma_written_split(phase: WriterPhase, events: Seq<EventView>, at: int)
    requires
        0 <= at <= events.len(),
    ensures
        written(phase, events) == written(phase, events.take(at)) + written(
            phase_after(phase, events.take(at)),
            events.skip(at),
        ),
    decreases at,
{
    if at == 0 {
        assert(events.take(0) =~= Seq::<EventView>::empty());
        assert(events.skip(0) =~= events);
        assert(written(phase, events.take(0)) =~= Seq::<PointView>::empty());
    } else {
        let next = next_phase(phase, events[0]);
        let rest = events.drop_first();
        lemma_written_split(next, rest, at - 1);
        assert(events.take(at).drop_first() =~= rest.take(at - 1));
        assert(rest.skip(at - 1) =~= events.skip(at));
        assert(events.take(at)[0] == events[0]);
        assert(written(phase, events) =~= written(phase, events.take(at)) + written(
            phase_after(phase, events.take(at)),
            events.skip(at),
        ));
    }
}

/// Everything written is kept: a batch that reaches a writer which has not
/// stopped is written whole, after what was written before it.
pub proof fn lemma_batch_written(events: Seq<EventView>, at: int, batch: Seq<PointView>)
    requires
        0 <= at < events.len(),
        events[at] == EventView::Command(CommandView::InsertBatch(batch)),
        phase_after(WriterPhase::Running, events.take(at)) != WriterPhase::Stopped,
    ensures
        ({
            let before = written(WriterPhase::Running, events.take(at)).len() as int;
            &&& before + batch.len() <= written(WriterPhase::Running, events).len()
            &&& written(WriterPhase::Running, events).subrange(before, before + batch.len())
                == batch
        }),
{
    let phase = phase_after(WriterPhase::Running, events.take(at));
    let tail = events.skip(at);
    lemma_written_split(WriterPhase::Running, events, at);
    assert(tail[0] == events[at]);
    assert(step_rows(step_for(phase, tail[0])) =~= batch);
    let head = written(WriterPhase::Running, events.take(at));
    let after = written(next_phase(phase, tail[0]), tail.drop_first());
    assert(written(WriterPhase::Running, events) =~= head + (batch + after));
    assert((head + (batch + after)).subrange(
        head.len() as int,
        (head.len() + batch.len()) as int,
    ) =~= batch);
}

/// A writer that has stopped stays stopped.
proof fn lemma_stopped_stays(events: Seq<EventView>)
    ensures
        phase_after(WriterPhase::Stopped, events) == WriterPhase::Stopped,
    decreases events.len(),
{
    if events.len() > 0 {
        lemma_stopped_stays(events.drop_first());
    }
}

/// The phase after a run of events is the phase that the rest of the run
/// leads to from the phase after its first `at` events.
proof fn lemma_phase_after_split(phase: WriterPhase, events: Seq<EventView>, at: int)
    requires
        0 <= at <= events.len(),
    ensures
        phase_after(phase, events) == phase_after(
            phase_after(phase, events.take(at)),
            events.skip(at),
        ),
    decreases at,
{
    if at == 0 {
        assert(events.take(0) =~= Seq::<EventView>::empty());
        assert(events.skip(0) =~= events);
    } else {
        lemma_phase_after_split(next_phase(phase, events[0]), events.drop_first(), at - 1);
        assert(events.take(at).drop_first() =~= events.drop_first().take(at - 1));
        assert(events.drop_first().skip(at - 1) =~= events.skip(at));
        assert(events.take(at)[0] == events[0]);
    }
}

/// The queue is handled first in, first out: of two batches that reach a
/// writer which has not stopped, the rows of the one that was queued first
/// are written before the rows of the other, and no row of another batch
/// stands among them.
pub proof fn lemma_writes_in_queue_order(
    events: Seq<EventView>,
    first_at: int,
    second_at: int,
    batch: Seq<PointView>,
)
    requires
        0 <= first_at < second_at < events.len(),
        events[first_at] == EventView::Command(CommandView::InsertBatch(batch)),
        phase_after(WriterPhase::Running, events.take(second_at)) != WriterPhase::Stopped,
    ensures
        ({
            let before = written(WriterPhase::Running, events.take(first_at)).len() as int;
            let later = written(WriterPhase::Running, events.take(second_at));
            &&& before + batch.len() <= later.len()
            &&& later.subrange(before, before + batch.len()) == batch
        }),
{
    let prefix = events.take(second_at);
    assert(prefix.take(first_at) =~= events.take(first_at));
    assert(prefix[first_at] == events[first_at]);
    lemma_phase_after_split(WriterPhase::Running, prefix, first_at);
    if phase_after(WriterPhase::Running, prefix.take(first_at)) == WriterPhase::Stopped {
        lemma_stopped_stays(prefix.skip(first_at));
    }
    lemma_batch_written(prefix, first_at, batch);
}

/// No command before `at` is a shutdown, and the queue has not closed.
pub open spec fn no_shutdown_before(events: Seq<EventView>, at: int) -> bool {
    forall|k: int|
        0 <= k < at ==> #[trigger] events[k] != EventView::Command(CommandView::Shutdown)
            && events[k] != EventView::Closed
}

proof fn lemma_still_running(events: Seq<EventView>, at: int)
    requires
        0 <= at <= events.len(),
        no_shutdown_before(events, at),
    ensures
        phase_after(WriterPhase::Running, events.take(at)) == WriterPhase::Running,
    decreases at,
{
    if at == 0 {
        assert(events.take(0) =~= Seq::<EventView>::empty());
    } else {
        lemma_still_running(events, at - 1);
        lemma_phase_after_push(WriterPhase::Running, events.take(at - 1), events[at - 1]);
        assert(events.take(at - 1).push(events[at - 1]) =~= events.take(at));
    }
}

proof fn lemma_phase_after_push(phase: WriterPhase, events: Seq<EventView>, event: EventView)
    ensures
        phase_after(phase, events.push(event)) == next_phase(phase_after(phase, events), event),
    decreases events.len(),
{
    let pushed = events.push(event);
    if events.len() == 0 {
        assert(pushed.drop_first() =~= Seq::<EventView>::empty());
        assert(phase_after(next_phase(phase, pushed[0]), pushed.drop_first()) == next_phase(
            phase,
            event,
        ));
    } else {
        assert(pushed.drop_first() =~= events.drop_first().push(event));
        assert(pushed[0] == events[0]);
        lemma_phase_after_push(next_phase(phase, events[0]), events.drop_first(), event);
    }
}

/// Every point of a non-empty batch that was submitted before the writer
/// saw a shutdown is in the store once the writer has handled its queue,
/// provided its transaction committed: the drain loses nothing.
pub proof fn lemma_no_loss_before_shutdown(
    rows: Seq<PointView>,
    events: Seq<EventView>,
    at: int,
    batch: Seq<PointView>,
    point: PointView,
)
    requires
        0 <= at < events.len(),
        events[at] == EventView::Command(CommandView::InsertBatch(batch)),
        no_shutdown_before(events, at),
        batch.contains(point),
    ensures
        stored(rows, written(WriterPhase::Running, events)).contains(point),
{
    lemma_still_running(events, at);
    lemma_batch_written(events, at, batch);
    let all = written(WriterPhase::Running, events);
    let before = written(WriterPhase::Running, events.take(at)).len() as int;
    let i = choose|i: int| 0 <= i < batch.len() && batch[i] == point;
    assert(all.subrange(before, before + batch.len())[i] == all[before + i]);
    assert(stored(rows, all)[rows.len() + before + i] == point);
}

/// The commands of a list, in mathematical terms.
pub open spec fn commands_view(commands: Seq<WriteCommand>) -> Seq<CommandView> {
    commands.map_values(|c: WriteCommand| c@)
}

/// What a queue gives that holds `commands` and is closed behind them:
/// each command in turn, then its end.
pub open spec fn queue_events(commands: Seq<CommandView>) -> Seq<EventView> {
    commands.map_values(|c: CommandView| EventView::Command(c)).push(EventView::Closed)
}

proof fn lemma_written_push(phase: WriterPhase, events: Seq<EventView>, event: EventView)
    ensures
        written(phase, events.push(event)) == written(phase, events) + step_rows(
            step_for(phase_after(phase, events), event),
        ),
    decreases events.len(),
{
    let pushed = events.push(event);
    if events.len() == 0 {
        assert(pushed.drop_first() =~= Seq::<EventView>::empty());
        assert(written(next_phase(phase, event), Seq::<EventView>::empty())
            =~= Seq::<PointView>::empty());
        assert(written(phase, pushed) =~= step_rows(step_for(phase, event)));
        assert(written(phase, events) + step_rows(step_for(phase, event)) =~= step_rows(
            step_for(phase, event),
        ));
    } else {
        assert(pushed.drop_first() =~= events.drop_first().push(event));
        assert(pushed[0] == events[0]);
        lemma_written_push(next_phase(phase, events[0]), events.drop_first(), event);
        assert(written(phase, pushed) =~= written(phase, events) + step_rows(
            step_for(phase_after(phase, events), event),
        ));
    }
}

/// A copy of a command.
fn copy_command(command: &WriteCommand) -> (copy: WriteCommand)
    ensures
        copy@ == command@,
{
    match command {
        WriteCommand::Shutdown => WriteCommand::Shutdown,
        WriteCommand::InsertBatch(points) => {
            let mut copies: Vec<ProbeDataPoint> = Vec::new();
            let mut i: usize = 0;
            while i < points.len()
                invariant
                    0 <= i <= points@.len(),
                    batch_view(copies@) == batch_view(points@).take(i as int),
                decreases points@.len() - i,
            {
                let copy = points[i].duplicate();
                proof {
                    assert(batch_view(copies@.push(copy)) =~= batch_view(copies@).push(copy@));
                    assert(batch_view(points@).take(i + 1) =~= batch_view(points@).take(
                        i as int,
                    ).push(points@[i as int]@));
                }
                copies.push(copy);
                i += 1;
            }
            assert(batch_view(points@).take(i as int) =~= batch_view(points@));
            WriteCommand::InsertBatch(copies)
        },
    }
}

/// Runs a writer, from its start to its stop, on a queue that holds
/// `commands` and is closed behind them, and commits each batch to `rows`.
/// Every batch up to the second shutdown is in `rows` afterwards, in queue
/// order.
pub fn replay(commands: &Vec<WriteCommand>, rows: &mut Vec<MetricDataPoint>)
    ensures
        rows_view(final(rows)@) == stored(
            rows_view(old(rows)@),
            written(WriterPhase::Running, queue_events(commands_view(commands@))),
        ),
{
    let ghost before = rows_view(rows@);
    let ghost all = commands_view(commands@).map_values(|c: CommandView| EventView::Command(c));
    let mut state = WriterState::new();
    let mut i: usize = 0;
    proof {
        assert(all.take(0) =~= Seq::<EventView>::empty());
        assert(before + written(WriterPhase::Running, all.take(0)) =~= before);
    }
    while i < commands.len()
        invariant
            0 <= i <= commands@.len(),
            all == commands_view(commands@).map_values(|c: CommandView| EventView::Command(c)),
            state.phase() == phase_after(WriterPhase::Running, all.take(i as int)),
            rows_view(rows@) == before + written(WriterPhase::Running, all.take(i as int)),
        decreases commands@.len() - i,
    {
        let event = QueueEvent::Command(copy_command(&commands[i]));
        proof {
            assert(all.take(i + 1) =~= all.take(i as int).push(event@));
            lemma_phase_after_push(WriterPhase::Running, all.take(i as int), event@);
            lemma_written_push(WriterPhase::Running, all.take(i as int), event@);
        }
        let ghost so_far = rows_view(rows@);
        let step = state.on_event(event);
        match step {
            WriterStep::Commit(points) => {
                insert_batch(rows, &points);
            },
            WriterStep::Idle => {
                assert(so_far + Seq::<PointView>::empty() =~= so_far);
            },
            WriterStep::Close => {
                assert(so_far + Seq::<PointView>::empty() =~= so_far);
            },
        }
        proof {
            let added = step_rows(step@);
            assert(rows_view(rows@) == so_far + added);
            assert(before + written(WriterPhase::Running, all.take(i as int)) + added =~= before
                + (written(WriterPhase::Running, all.take(i as int)) + added));
        }
        i += 1;
    }
    let _last = state.on_event(QueueEvent::Closed);
    proof {
        assert(all.take(i as int) =~= all);
        lemma_written_push(WriterPhase::Running, all, EventView::Closed);
        assert(step_rows(step_for(phase_after(WriterPhase::Running, all), EventView::Closed))
            =~= Seq::<PointView>::empty());
        assert(written(WriterPhase::Running, all) + Seq::<PointView>::empty() =~= written(
            WriterPhase::Running,
            all,
        ));
    }
}

/// A step never touches what the shard holds already: the rows before the
/// step are the first rows after it, whether its transaction commits or
/// fails, and a failed transaction adds none.
pub proof fn lemma_step_keeps_rows(rows: Seq<PointView>, step: StepView, committed: bool)
    ensures
        after_step(rows, step, committed).len() >= rows.len(),
        after_step(rows, step, committed).take(rows.len() as int) == rows,
        after_step(rows, step, false) == rows,
        after_step(rows, step, true) == rows + step_rows(step),
{
    assert(after_step(rows, step, committed).take(rows.len() as int) =~= rows);
}

/// Nothing is deduplicated: a batch submitted twice is stored twice, so on
/// an empty shard the row count doubles.
pub proof fn lemma_resubmission_duplicates(rows: Seq<PointView>, batch: Seq<PointView>)
    ensures
        written(
            WriterPhase::Running,
            seq![
                EventView::Command(CommandView::InsertBatch(batch)),
                EventView::Command(CommandView::InsertBatch(batch)),
            ],
        ) == batch + batch,
        stored(stored(rows, batch), batch) == rows + batch + batch,
        stored(stored(rows, batch), batch).len() == rows.len() + 2 * batch.len(),
{
    let first = EventView::Command(CommandView::InsertBatch(batch));
    let events = seq![first, first];
    assert(events.drop_first() =~= seq![first]);
    assert(seq![first].drop_first() =~= Seq::<EventView>::empty());
    assert(step_rows(step_for(WriterPhase::Running, first)) =~= batch);
    assert(written(WriterPhase::Running, Seq::<EventView>::empty()) =~= Seq::<PointView>::empty());
    assert(written(WriterPhase::Running, seq![first]) =~= batch);
    assert(written(WriterPhase::Running, events) =~= batch + batch);
}

} // verus!
