//! The writer that drains the channel to the datastore in batches: when it waits, when it hands
//! a batch over, and what it reports in the end.

use vstd::prelude::*;

verus! {

/// How many messages make a batch full.
pub const BATCH_SIZE: usize = 32 * 1024;

/// How many milliseconds a batch that is not full waits at most while the channel is empty.
pub const COMMIT_INTERVAL_MS: u64 = 2000;

/// How many milliseconds the writer sleeps when the channel is empty.
pub const IDLE_SLEEP_MS: u64 = 1;

/// What the writer is told.
pub enum WriterEvent<T> {
    /// The channel had a message.
    Message(T),
    /// The channel was empty; so many milliseconds have passed since the last batch was recorded.
    Empty(u64),
    /// Every sender is gone and the channel is drained.
    Disconnected,
    /// The datastore has recorded a batch and added so many matches.
    Recorded(usize),
}

/// What the writer wants done.
pub enum WriterAction<T> {
    /// Try the channel.
    Receive,
    /// Sleep that many milliseconds, then try the channel.
    Sleep(u64),
    /// Have the datastore record these messages, dropping duplicates where the flag says so.
    Record(Vec<T>, bool),
    /// Nothing more: the writer is done.
    Finish,
}

/// What the writer is waiting for.
#[derive(PartialEq, Eq, Structural, Clone, Copy, Debug)]
pub enum WriterPhase {
    /// News from the channel.
    Receiving,
    /// A batch to be recorded, with more to come.
    Recording,
    /// The last batch to be recorded.
    Closing,
    /// Nothing.
    Closed,
}

/// `WriterAction` by what its batch holds.
pub enum ActionModel<T> {
    Receive,
    Sleep(u64),
    Record(Seq<T>, bool),
    Finish,
}

impl<T> View for WriterAction<T> {
    type V = ActionModel<T>;

    open spec fn view(&self) -> ActionModel<T> {
        match self {
            WriterAction::Receive => ActionModel::Receive,
            WriterAction::Sleep(ms) => ActionModel::Sleep(*ms),
            WriterAction::Record(batch, dedup) => ActionModel::Record(batch@, *dedup),
            WriterAction::Finish => ActionModel::Finish,
        }
    }
}

/// A writer: what it waits for, the messages it holds, and how many matches were added so far.
pub struct WriterModel<T> {
    pub phase: WriterPhase,
    pub dedup: bool,
    pub batch: Seq<T>,
    pub added: nat,
}

impl<T> WriterModel<T> {
    /// A writer that has seen nothing.
    pub open spec fn start(dedup: bool) -> WriterModel<T> {
        WriterModel { phase: WriterPhase::Receiving, dedup, batch: Seq::empty(), added: 0 }
    }

    /// Whether an event is one that the writer is waiting for.
    pub open spec fn awaits(self, event: WriterEvent<T>) -> bool {
        match self.phase {
            WriterPhase::Receiving => event !is Recorded,
            WriterPhase::Recording => event is Recorded,
            WriterPhase::Closing => event is Recorded,
            WriterPhase::Closed => false,
        }
    }

    /// What an event makes of the writer, and what the writer then wants done.
    pub open spec fn step(self, event: WriterEvent<T>) -> (WriterModel<T>, ActionModel<T>) {
        match event {
            WriterEvent::Message(message) => {
                let held = self.batch.push(message);
                if held.len() < BATCH_SIZE {
                    (WriterModel { batch: held, ..self }, ActionModel::Receive)
                } else {
                    WriterModel { batch: held, ..self }.hand_over(WriterPhase::Recording)
                }
            },
            WriterEvent::Empty(waited_ms) => if self.batch.len() > 0 && waited_ms
                >= COMMIT_INTERVAL_MS {
                self.hand_over(WriterPhase::Recording)
            } else {
                (self, ActionModel::Sleep(IDLE_SLEEP_MS))
            },
            WriterEvent::Disconnected => if self.batch.len() > 0 {
                self.hand_over(WriterPhase::Closing)
            } else {
                (WriterModel { phase: WriterPhase::Closed, ..self }, ActionModel::Finish)
            },
            WriterEvent::Recorded(num_added) => {
                let counted = WriterModel { added: self.added + num_added as nat, ..self };
                if self.phase == WriterPhase::Closing {
                    (WriterModel { phase: WriterPhase::Closed, ..counted }, ActionModel::Finish)
                } else {
                    (WriterModel { phase: WriterPhase::Receiving, ..counted }, ActionModel::Receive)
                }
            },
        }
    }

    /// The batch goes to the datastore, and the writer begins an empty one.
    pub open spec fn hand_over(self, phase: WriterPhase) -> (WriterModel<T>, ActionModel<T>) {
        (
            WriterModel { phase, batch: Seq::empty(), ..self },
            ActionModel::Record(self.batch, self.dedup),
        )
    }
}

/// A writer that drains the channel to the datastore.
pub struct DatastoreWriter<T> {
    phase: WriterPhase,
    dedup: bool,
    batch: Vec<T>,
    added: usize,
}

impl<T> View for DatastoreWriter<T> {
    type V = WriterModel<T>;

    closed spec fn view(&self) -> WriterModel<T> {
        WriterModel {
            phase: self.phase,
            dedup: self.dedup,
            batch: self.batch@,
            added: self.added as nat,
        }
    }
}

/// Starts a writer; `dedup` is handed to the datastore with every batch.
pub fn spawn_datastore_writer_thread<T>(dedup: bool) -> (writer: DatastoreWriter<T>)
    ensures
        writer@ == WriterModel::<T>::start(dedup),
{
    DatastoreWriter { phase: WriterPhase::Receiving, dedup, batch: Vec::new(), added: 0 }
}

impl<T> DatastoreWriter<T> {
    fn take_batch(&mut self) -> (batch: Vec<T>)
        ensures
            batch@ == old(self).batch@,
            final(self).batch@ == Seq::<T>::empty(),
            final(self).phase == old(self).phase,
            final(self).dedup == old(self).dedup,
            final(self).added == old(self).added,
    {
        let mut batch: Vec<T> = Vec::new();
        std::mem::swap(&mut batch, &mut self.batch);
        batch
    }

    /// Takes up an event and says what is to be done next.
    pub fn step(&mut self, event: WriterEvent<T>) -> (action: WriterAction<T>)
        requires
            old(self)@.awaits(event),
            event matches WriterEvent::Recorded(n) ==> old(self)@.added + n <= usize::MAX,
        ensures
            (final(self)@, action@) == old(self)@.step(event),
    {
        match event {
            WriterEvent::Message(message) => {
                self.batch.push(message);
                if self.batch.len() < BATCH_SIZE {
                    WriterAction::Receive
                } else {
                    let batch: Vec<T> = self.take_batch();
                    self.phase = WriterPhase::Recording;
                    WriterAction::Record(batch, self.dedup)
                }
            },
            WriterEvent::Empty(waited_ms) => {
                if self.batch.len() > 0 && waited_ms >= COMMIT_INTERVAL_MS {
                    let batch: Vec<T> = self.take_batch();
                    self.phase = WriterPhase::Recording;
                    WriterAction::Record(batch, self.dedup)
                } else {
                    WriterAction::Sleep(IDLE_SLEEP_MS)
                }
            },
            WriterEvent::Disconnected => {
                if self.batch.len() > 0 {
                    let batch: Vec<T> = self.take_batch();
                    self.phase = WriterPhase::Closing;
                    WriterAction::Record(batch, self.dedup)
                } else {
                    self.phase = WriterPhase::Closed;
                    WriterAction::Finish
                }
            },
            WriterEvent::Recorded(num_added) => {
                self.added = self.added + num_added;
                if self.phase == WriterPhase::Closing {
                    self.phase = WriterPhase::Closed;
                    WriterAction::Finish
                } else {
                    self.phase = WriterPhase::Receiving;
                    WriterAction::Receive
                }
            },
        }
    }

    /// What a writer that is done reports: how many matches the datastore holds, and how many of
    /// them were added by this writer.
    pub fn report(&self, num_matches: usize) -> (report: (usize, usize))
        requires
            self@.phase == WriterPhase::Closed,
        ensures
            report.0 == num_matches,
            report.1 == self@.added,
    {
        (num_matches, self.added)
    }
}

/// The messages among events, in the order in which they came.
pub open spec fn messages_in<T>(events: Seq<WriterEvent<T>>) -> Seq<T>
    decreases events.len(),
{
    if events.len() == 0 {
        Seq::empty()
    } else {
        let earlier = messages_in(events.drop_last());
        match events.last() {
            WriterEvent::Message(message) => earlier.push(message),
            _ => earlier,
        }
    }
}

/// The matches that the datastore added, over all events.
pub open spec fn added_in<T>(events: Seq<WriterEvent<T>>) -> nat
    decreases events.len(),
{
    if events.len() == 0 {
        0
    } else {
        let earlier = added_in(events.drop_last());
        match events.last() {
            WriterEvent::Recorded(num_added) => earlier + num_added as nat,
            _ => earlier,
        }
    }
}

/// A new writer after a run of events.
pub open spec fn writer_after<T>(dedup: bool, events: Seq<WriterEvent<T>>) -> WriterModel<T>
    decreases events.len(),
{
    if events.len() == 0 {
        WriterModel::start(dedup)
    } else {
        writer_after(dedup, events.drop_last()).step(events.last()).0
    }
}

/// Whether each of a run of events came when a new writer was waiting for it.
pub open spec fn is_run<T>(dedup: bool, events: Seq<WriterEvent<T>>) -> bool
    decreases events.len(),
{
    events.len() == 0 || {
        &&& is_run(dedup, events.drop_last())
        &&& writer_after(dedup, events.drop_last()).awaits(events.last())
    }
}

/// The batches that a new writer hands over in the course of a run of events.
pub open spec fn batches_in<T>(dedup: bool, events: Seq<WriterEvent<T>>) -> Seq<Seq<T>>
    decreases events.len(),
{
    if events.len() == 0 {
        Seq::empty()
    } else {
        let earlier = batches_in(dedup, events.drop_last());
        match writer_after(dedup, events.drop_last()).step(events.last()).1 {
            ActionModel::Record(batch, _) => earlier.push(batch),
            _ => earlier,
        }
    }
}

/// Batches laid end to end.
pub open spec fn laid_end_to_end<T>(batches: Seq<Seq<T>>) -> Seq<T>
    decreases batches.len(),
{
    if batches.len() == 0 {
        Seq::empty()
    } else {
        laid_end_to_end(batches.drop_last()) + batches.last()
    }
}

/// No message is lost, repeated or moved: the batches handed over, laid end to end, and then the
/// messages still held are the messages received, in order. A writer never holds a full batch,
/// and outside of receiving it holds none.
pub proof fn law_writer_keeps_every_message<T>(dedup: bool, events: Seq<WriterEvent<T>>)
    requires
        is_run(dedup, events),
    ensures
        laid_end_to_end(batches_in(dedup, events)) + writer_after(dedup, events).batch
            == messages_in(events),
        writer_after(dedup, events).batch.len() < BATCH_SIZE,
        writer_after(dedup, events).phase != WriterPhase::Receiving ==> writer_after(
            dedup,
            events,
        ).batch.len() == 0,
    decreases events.len(),
{
    if events.len() == 0 {
        assert(laid_end_to_end(batches_in(dedup, events)) + writer_after(dedup, events).batch
            == messages_in(events));
    } else {
        let earlier = events.drop_last();
        law_writer_keeps_every_message(dedup, earlier);
        let before = writer_after(dedup, earlier);
        let (after, action) = before.step(events.last());
        let batches = batches_in(dedup, events);
        match action {
            ActionModel::Record(batch, _) => {
                assert(batches.drop_last() == batches_in(dedup, earlier));
                assert(batches.last() == batch);
                match events.last() {
                    WriterEvent::Message(message) => {
                        assert(laid_end_to_end(batches_in(dedup, earlier)) + before.batch.push(
                            message,
                        ) == (laid_end_to_end(batches_in(dedup, earlier)) + before.batch).push(
                            message,
                        ));
                    },
                    _ => {},
                }
                assert(laid_end_to_end(batches) + Seq::<T>::empty() == laid_end_to_end(batches));
            },
            _ => {
                match events.last() {
                    WriterEvent::Message(message) => {
                        assert(laid_end_to_end(batches) + before.batch.push(message) == (
                        laid_end_to_end(batches) + before.batch).push(message));
                    },
                    _ => {},
                }
            },
        }
    }
}

/// A writer that is done has handed over every message that it received, in order.
pub proof fn law_closed_writer_has_handed_over_everything<T>(
    dedup: bool,
    events: Seq<WriterEvent<T>>,
)
    requires
        is_run(dedup, events),
        writer_after(dedup, events).phase == WriterPhase::Closed,
    ensures
        laid_end_to_end(batches_in(dedup, events)) == messages_in(events),
{
    law_writer_keeps_every_message(dedup, events);
    let laid = laid_end_to_end(batches_in(dedup, events));
    assert(laid + writer_after(dedup, events).batch == laid);
}

/// Every batch handed over holds a message, and none holds more than a full batch.
pub proof fn law_batches_are_bounded<T>(dedup: bool, events: Seq<WriterEvent<T>>)
    requires
        is_run(dedup, events),
    ensures
        forall|i: int|
            0 <= i < batches_in(dedup, events).len() ==> 0 < (#[trigger] batches_in(
                dedup,
                events,
            )[i]).len() <= BATCH_SIZE,
    decreases events.len(),
{
    if events.len() > 0 {
        law_batches_are_bounded(dedup, events.drop_last());
        law_writer_keeps_every_message(dedup, events.drop_last());
    }
}

/// The matches that a writer reports as added are those that the datastore reported, together;
/// the setting on duplicates is the one that the writer was started with.
pub proof fn law_writer_counts_what_was_added<T>(dedup: bool, events: Seq<WriterEvent<T>>)
    ensures
        writer_after(dedup, events).added == added_in(events),
        writer_after(dedup, events).dedup == dedup,
    decreases events.len(),
{
    if events.len() > 0 {
        law_writer_counts_what_was_added(dedup, events.drop_last());
    }
}

/// Once every sender is gone a writer hands over what it holds, if it holds anything, and is done
/// when that has been recorded.
pub proof fn law_disconnected_writer_closes<T>(writer: WriterModel<T>, num_added: usize)
    requires
        writer.phase == WriterPhase::Receiving,
    ensures
        ({
            let (closing, action) = writer.step(WriterEvent::Disconnected);
            let (closed, last) = closing.step(WriterEvent::Recorded(num_added));
            if writer.batch.len() == 0 {
                closing.phase == WriterPhase::Closed && action is Finish
            } else {
                &&& action == ActionModel::Record(writer.batch, writer.dedup)
                &&& closed.phase == WriterPhase::Closed
                &&& last is Finish
            }
        }),
{
}

/// Every batch that a writer hands over in a run goes with the setting on duplicates that the writer
/// was started with, whether a full batch, the passage of time or the end of the channel brought it
/// about.
pub proof fn law_every_batch_goes_with_the_setting<T>(
    dedup: bool,
    events: Seq<WriterEvent<T>>,
    at: int,
    batch: Seq<T>,
    flag: bool,
)
    requires
        0 <= at < events.len(),
        writer_after(dedup, events.take(at)).step(events[at]).1 == ActionModel::Record(batch, flag),
    ensures
        flag == dedup,
{
    law_writer_counts_what_was_added(dedup, events.take(at));
}

/// A message joins those that are held, at their end. A batch that it makes full goes to the
/// datastore at once, whole, and none is held any more; until then the writer asks for more.
pub proof fn law_messages_fill_a_batch<T>(writer: WriterModel<T>, message: T)
    requires
        writer.phase == WriterPhase::Receiving,
    ensures
        ({
            let (after, action) = writer.step(WriterEvent::Message(message));
            &&& after.added == writer.added
            &&& after.dedup == writer.dedup
            &&& writer.batch.len() + 1 < 32_768 ==> action is Receive && after.batch
                == writer.batch + seq![message] && after.phase == WriterPhase::Receiving
            &&& writer.batch.len() + 1 >= 32_768 ==> action == ActionModel::Record(
                writer.batch + seq![message],
                writer.dedup,
            ) && after.batch.len() == 0 && after.phase == WriterPhase::Recording
        }),
{
    assert(writer.batch.push(message) == writer.batch + seq![message]);
}

/// While the channel is empty, what is held goes to the datastore just when anything is held and two
/// seconds have passed since the last batch; else the writer sleeps for a millisecond and is as it
/// was.
pub proof fn law_held_messages_wait_two_seconds<T>(writer: WriterModel<T>, waited_ms: u64)
    requires
        writer.phase == WriterPhase::Receiving,
    ensures
        ({
            let (after, action) = writer.step(WriterEvent::Empty(waited_ms));
            if writer.batch.len() > 0 && waited_ms >= 2000 {
                &&& action == ActionModel::Record(writer.batch, writer.dedup)
                &&& after.batch.len() == 0
                &&& after.phase == WriterPhase::Recording
                &&& after.added == writer.added
            } else {
                action == ActionModel::<T>::Sleep(1) && after == writer
            }
        }),
{
}

/// What the datastore reports as added is counted, and nothing else changes but what the writer
/// waits for: more from the channel, or nothing once the last batch has been recorded.
pub proof fn law_recorded_batches_are_counted<T>(writer: WriterModel<T>, num_added: usize)
    requires
        writer.phase == WriterPhase::Recording || writer.phase == WriterPhase::Closing,
    ensures
        ({
            let (after, action) = writer.step(WriterEvent::Recorded(num_added));
            &&& after.added == writer.added + num_added
            &&& after.batch == writer.batch
            &&& after.dedup == writer.dedup
            &&& writer.phase == WriterPhase::Recording ==> after.phase == WriterPhase::Receiving
                && action is Receive
            &&& writer.phase == WriterPhase::Closing ==> after.phase == WriterPhase::Closed
                && action is Finish
        }),
{
}

/// A writer that receives takes whatever the channel gives, and one that has a batch recorded takes
/// the report on it; a new writer receives and holds nothing.
pub proof fn law_writers_take_what_they_asked_for<T>(
    writer: WriterModel<T>,
    message: T,
    waited_ms: u64,
    num_added: usize,
    dedup: bool,
)
    ensures
        writer.phase == WriterPhase::Receiving ==> writer.awaits(WriterEvent::Message(message))
            && writer.awaits(WriterEvent::Empty(waited_ms)) && writer.awaits(
            WriterEvent::Disconnected,
        ),
        writer.phase == WriterPhase::Recording || writer.phase == WriterPhase::Closing
            ==> writer.awaits(WriterEvent::Recorded(num_added)),
        WriterModel::<T>::start(dedup).phase == WriterPhase::Receiving,
        WriterModel::<T>::start(dedup).batch.len() == 0,
        WriterModel::<T>::start(dedup).added == 0,
        WriterModel::<T>::start(dedup).dedup == dedup,
{
}

/// What is said of an action is said of all that it holds.
pub proof fn law_writer_actions_are_seen_in_full<T>(action: WriterAction<T>)
    ensures
        action is Receive <==> action@ is Receive,
        action matches WriterAction::Sleep(ms) ==> action@ == ActionModel::<T>::Sleep(ms),
        action matches WriterAction::Record(batch, dedup) ==> action@ == ActionModel::Record(
            batch@,
            dedup,
        ),
        action is Finish <==> action@ is Finish,
{
}

} // verus!
