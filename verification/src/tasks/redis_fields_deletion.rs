use crate::tasks::error::{Task1Error, Task1Failure};
use vstd::prelude::*;

verus! {

/// A key type that can produce the reserved placeholder the reaper fills
/// its batch buffer with before any real key is known.
pub trait EmptyGeneratable: Sized {
    /// Whether this value is the placeholder.
    spec fn is_placeholder(&self) -> bool;

    fn generate_empty() -> (e: Self)
        ensures
            e.is_placeholder(),
    ;
}

/// A record that carries the Unix time, in seconds, at which it was made.
pub trait Timestampable {
    /// The creation time the record carries.
    spec fn created_at(&self) -> i64;

    fn get_timestamp(&self) -> (t: i64)
        ensures
            t == self.created_at(),
    ;
}

/// An entry is expired once the clock has passed its creation time by more
/// than the dataset's time-to-live.
pub open spec fn is_expired(now: int, expiry_time: int, created: int) -> bool {
    now > expiry_time + created
}

/// The parameters of one dataset's reaper, together with the handle `C`
/// through which the caller reaches the store.
pub struct Task1Config<C> {
    redis_conn: C,
    hash_name: String,
    expiry_time: u64,
    deletion_bulk_count: usize,
}

impl<C> Task1Config<C> {
    pub closed spec fn conn(&self) -> C {
        self.redis_conn
    }

    pub closed spec fn name(&self) -> Seq<char> {
        self.hash_name@
    }

    pub closed spec fn expiry(&self) -> u64 {
        self.expiry_time
    }

    pub closed spec fn bulk(&self) -> usize {
        self.deletion_bulk_count
    }

    /// Bundles the parameters of a dataset. A batch size of zero could never
    /// be reached by a filling buffer, so it is not a configuration.
    pub fn new(redis_conn: C, hash_name: &str, expiry_time: u64, deletion_bulk_count: usize) -> (cfg:
        Self)
        requires
            deletion_bulk_count >= 1,
        ensures
            cfg.conn() == redis_conn,
            cfg.name() == hash_name@,
            cfg.expiry() == expiry_time,
            cfg.bulk() == deletion_bulk_count,
    {
        Task1Config {
            redis_conn,
            hash_name: hash_name.to_owned(),
            expiry_time,
            deletion_bulk_count,
        }
    }

    /// The name of the dataset.
    pub fn hash_name(&self) -> (name: &str)
        ensures
            name@ == self.name(),
    {
        self.hash_name.as_str()
    }

    /// How long an entry lives, in seconds.
    pub fn expiry_time(&self) -> (seconds: u64)
        ensures
            seconds == self.expiry(),
    {
        self.expiry_time
    }

    /// How many keys one deletion takes.
    pub fn deletion_bulk_count(&self) -> (count: usize)
        ensures
            count == self.bulk(),
    {
        self.deletion_bulk_count
    }
}

/// Where a reaper stands in its pass over the dataset.
#[derive(Clone, Copy, Debug, PartialEq, Eq, Structural)]
pub enum ReaperPhase {
    /// Between passes: waiting for the clock reading that starts the next one.
    Idle,
    /// Waiting for the store to open the scan.
    Opening,
    /// Waiting for the next entry of the scan.
    Scanning,
    /// Waiting for the store to delete a full batch in the middle of a scan.
    FlushingBatch,
    /// Waiting for the store to delete what was left when the scan ended.
    FlushingTail,
    /// Stopped by a failure; nothing is accepted any more.
    Dead,
}

/// What the outside world reports to the reaper.
pub enum ReaperEvent<T> {
    /// A pass begins; `now` is the one clock reading the whole pass goes by.
    PassStarted { now: i64 },
    /// The scan is open.
    ScanOpened,
    /// The scan could not be opened.
    ScanFailed { err: String },
    /// The scan yielded a key and the creation time of its record.
    Entry { id: T, timestamp: i64 },
    /// The scan has no more entries.
    ScanFinished,
    /// The store deleted `count` of the keys it was given.
    Deleted { count: usize },
    /// The store failed while deleting.
    DeleteFailed { err: String },
}

/// What the reaper asks the outside world to do next.
#[derive(Debug)]
pub enum ReaperAction {
    /// Open a scan over the whole dataset.
    OpenScan,
    /// Fetch the next entry of the scan.
    NextEntry,
    /// Delete the first `count` keys of the batch buffer in one call.
    Delete { count: usize },
    /// Sleep for `seconds`, then start the next pass.
    Sleep { seconds: u64 },
    /// Stop the task with this error.
    Abort(Task1Error),
    /// The event does not fit the phase; nothing has changed.
    Rejected,
}

/// The mathematical value of a [`ReaperAction`].
pub enum ReaperReply {
    OpenScan,
    NextEntry,
    Delete { count: nat },
    Sleep { seconds: nat },
    Abort(Task1Failure),
    Rejected,
}

impl View for ReaperAction {
    type V = ReaperReply;

    open spec fn view(&self) -> ReaperReply {
        match *self {
            ReaperAction::OpenScan => ReaperReply::OpenScan,
            ReaperAction::NextEntry => ReaperReply::NextEntry,
            ReaperAction::Delete { count } => ReaperReply::Delete { count: count as nat },
            ReaperAction::Sleep { seconds } => ReaperReply::Sleep { seconds: seconds as nat },
            ReaperAction::Abort(e) => ReaperReply::Abort(e@),
            ReaperAction::Rejected => ReaperReply::Rejected,
        }
    }
}

/// The mathematical value of a [`Reaper`]: its parameters, the clock reading
/// of the current pass, and the expired keys gathered since the last
/// deletion, in the order the scan yielded them.
pub struct ReaperState<T> {
    pub hash_name: Seq<char>,
    pub expiry_time: nat,
    pub deletion_bulk_count: nat,
    pub phase: ReaperPhase,
    pub now: int,
    pub pending: Seq<T>,
}

impl<T> ReaperState<T> {
    /// What the phase allows the batch to hold.
    pub open spec fn consistent(self) -> bool {
        &&& self.deletion_bulk_count >= 1
        &&& match self.phase {
            ReaperPhase::Idle | ReaperPhase::Opening => self.pending.len() == 0,
            ReaperPhase::Scanning => self.pending.len() < self.deletion_bulk_count,
            ReaperPhase::FlushingBatch => self.pending.len() == self.deletion_bulk_count,
            ReaperPhase::FlushingTail => 0 < self.pending.len() < self.deletion_bulk_count,
            ReaperPhase::Dead => self.pending.len() <= self.deletion_bulk_count,
        }
    }

    pub open spec fn with_phase(self, phase: ReaperPhase) -> Self {
        ReaperState { phase, ..self }
    }

    pub open spec fn flushed(self, phase: ReaperPhase) -> Self {
        ReaperState { phase, pending: Seq::empty(), ..self }
    }

    /// The batch after the scan has yielded `id` with creation time `timestamp`.
    pub open spec fn gathered(self, id: T, timestamp: i64) -> Seq<T> {
        if is_expired(self.now, self.expiry_time as int, timestamp as int) {
            self.pending.push(id)
        } else {
            self.pending
        }
    }

    /// The state that follows `self` on `event`.
    pub open spec fn next(self, event: ReaperEvent<T>) -> Self {
        match (self.phase, event) {
            (ReaperPhase::Idle, ReaperEvent::PassStarted { now }) => ReaperState {
                phase: ReaperPhase::Opening,
                now: now as int,
                ..self
            },
            (ReaperPhase::Opening, ReaperEvent::ScanOpened) => self.with_phase(
                ReaperPhase::Scanning,
            ),
            (ReaperPhase::Opening, ReaperEvent::ScanFailed { err }) => self.with_phase(
                ReaperPhase::Dead,
            ),
            (ReaperPhase::Scanning, ReaperEvent::Entry { id, timestamp }) => {
                let pending = self.gathered(id, timestamp);
                ReaperState {
                    phase: if pending.len() == self.deletion_bulk_count {
                        ReaperPhase::FlushingBatch
                    } else {
                        ReaperPhase::Scanning
                    },
                    pending,
                    ..self
                }
            },
            (ReaperPhase::Scanning, ReaperEvent::ScanFinished) => if self.pending.len() != 0 {
                self.with_phase(ReaperPhase::FlushingTail)
            } else {
                self.with_phase(ReaperPhase::Idle)
            },
            (ReaperPhase::FlushingBatch, ReaperEvent::Deleted { count }) => if count
                == self.pending.len() {
                self.flushed(ReaperPhase::Scanning)
            } else {
                self.with_phase(ReaperPhase::Dead)
            },
            (ReaperPhase::FlushingTail, ReaperEvent::Deleted { count }) => if count
                == self.pending.len() {
                self.flushed(ReaperPhase::Idle)
            } else {
                self.with_phase(ReaperPhase::Dead)
            },
            (ReaperPhase::FlushingBatch, ReaperEvent::DeleteFailed { err }) => self.with_phase(
                ReaperPhase::Dead,
            ),
            (ReaperPhase::FlushingTail, ReaperEvent::DeleteFailed { err }) => self.with_phase(
                ReaperPhase::Dead,
            ),
            _ => self,
        }
    }

    /// What the reaper asks for when it meets `event` in state `self`.
    pub open spec fn reply(self, event: ReaperEvent<T>) -> ReaperReply {
        match (self.phase, event) {
            (ReaperPhase::Idle, ReaperEvent::PassStarted { now }) => ReaperReply::OpenScan,
            (ReaperPhase::Opening, ReaperEvent::ScanOpened) => ReaperReply::NextEntry,
            (ReaperPhase::Opening, ReaperEvent::ScanFailed { err }) => ReaperReply::Abort(
                Task1Failure::RedisIterError { err: err@, hash_name: self.hash_name },
            ),
            (ReaperPhase::Scanning, ReaperEvent::Entry { id, timestamp }) => if self.gathered(
                id,
                timestamp,
            ).len() == self.deletion_bulk_count {
                ReaperReply::Delete { count: self.deletion_bulk_count }
            } else {
                ReaperReply::NextEntry
            },
            (ReaperPhase::Scanning, ReaperEvent::ScanFinished) => if self.pending.len() != 0 {
                ReaperReply::Delete { count: self.pending.len() }
            } else {
                ReaperReply::Sleep { seconds: self.expiry_time }
            },
            (ReaperPhase::FlushingBatch, ReaperEvent::Deleted { count }) => if count
                == self.pending.len() {
                ReaperReply::NextEntry
            } else {
                ReaperReply::Abort(Task1Failure::Removal { hash_name: self.hash_name })
            },
            (ReaperPhase::FlushingTail, ReaperEvent::Deleted { count }) => if count
                == self.pending.len() {
                ReaperReply::Sleep { seconds: self.expiry_time }
            } else {
                ReaperReply::Abort(Task1Failure::Removal { hash_name: self.hash_name })
            },
            (ReaperPhase::FlushingBatch, ReaperEvent::DeleteFailed { err }) => ReaperReply::Abort(
                Task1Failure::RedisRemovalError { err: err@, hash_name: self.hash_name },
            ),
            (ReaperPhase::FlushingTail, ReaperEvent::DeleteFailed { err }) => ReaperReply::Abort(
                Task1Failure::RedisRemovalError { err: err@, hash_name: self.hash_name },
            ),
            _ => ReaperReply::Rejected,
        }
    }
}

/// Whatever the event, the batch never outgrows the configured size and
/// the phase keeps agreeing with how full it is.
pub proof fn lemma_next_keeps_consistent<T>(state: ReaperState<T>, event: ReaperEvent<T>)
    requires
        state.consistent(),
    ensures
        state.next(event).consistent(),
        state.next(event).pending.len() <= state.deletion_bulk_count,
        state.next(event).hash_name == state.hash_name,
        state.next(event).expiry_time == state.expiry_time,
        state.next(event).deletion_bulk_count == state.deletion_bulk_count,
{
}

/// The expiry reaper of one dataset, as a machine that is told what the
/// store did and answers with what to do next. It owns the batch buffer;
/// the caller owns the store and the clock.
pub struct Reaper<T> {
    hash_name: String,
    expiry_time: u64,
    deletion_bulk_count: usize,
    phase: ReaperPhase,
    timestamp: i64,
    id_vec: Vec<T>,
    id_index: usize,
}

impl<T> View for Reaper<T> {
    type V = ReaperState<T>;

    closed spec fn view(&self) -> ReaperState<T> {
        ReaperState {
            hash_name: self.hash_name@,
            expiry_time: self.expiry_time as nat,
            deletion_bulk_count: self.deletion_bulk_count as nat,
            phase: self.phase,
            now: self.timestamp as int,
            pending: self.id_vec@.take(self.id_index as int),
        }
    }
}

impl<T> Reaper<T> {
    /// The whole batch buffer, filled or not.
    pub closed spec fn buffer(&self) -> Seq<T> {
        self.id_vec@
    }

    /// The buffer has the configured size, the gathered keys are its first
    /// entries, and the phase agrees with how many there are.
    pub closed spec fn wf(&self) -> bool {
        &&& self.id_vec@.len() == self.deletion_bulk_count
        &&& self.id_index <= self.deletion_bulk_count
        &&& self@.consistent()
    }

    /// In a well-formed reaper the gathered keys are the front of the buffer.
    pub proof fn lemma_pending_is_buffer_front(&self)
        requires
            self.wf(),
        ensures
            self@.consistent(),
            self.buffer().len() == self@.deletion_bulk_count,
            self@.pending.len() <= self.buffer().len(),
            self@.pending == self.buffer().take(self@.pending.len() as int),
    {
    }

    /// A reaper at rest, with a buffer of `deletion_bulk_count` placeholders,
    /// and the store handle that the configuration carried.
    pub fn new<C>(cfg: Task1Config<C>) -> (made: (Self, C)) where T: EmptyGeneratable
        requires
            cfg.bulk() >= 1,
        ensures
            made.0.wf(),
            made.0@ == (ReaperState::<T> {
                hash_name: cfg.name(),
                expiry_time: cfg.expiry() as nat,
                deletion_bulk_count: cfg.bulk() as nat,
                phase: ReaperPhase::Idle,
                now: 0,
                pending: Seq::empty(),
            }),
            forall|i: int| 0 <= i < made.0.buffer().len() ==> (#[trigger] made.0.buffer()[i]).is_placeholder(),
            made.1 == cfg.conn(),
    {
        let Task1Config { redis_conn, hash_name, expiry_time, deletion_bulk_count } = cfg;
        let mut id_vec: Vec<T> = Vec::new();
        while id_vec.len() < deletion_bulk_count
            invariant
                id_vec@.len() <= deletion_bulk_count,
                forall|i: int| 0 <= i < id_vec@.len() ==> (#[trigger] id_vec@[i]).is_placeholder(),
            decreases deletion_bulk_count - id_vec@.len(),
        {
            id_vec.push(T::generate_empty());
        }
        let reaper = Reaper {
            hash_name,
            expiry_time,
            deletion_bulk_count,
            phase: ReaperPhase::Idle,
            timestamp: 0,
            id_vec,
            id_index: 0,
        };
        assert(reaper@.pending =~= Seq::<T>::empty());
        (reaper, redis_conn)
    }

    /// The batch buffer. After a `Delete { count }` its first `count` keys
    /// are the ones to delete.
    pub fn batch(&self) -> (keys: &Vec<T>)
        ensures
            keys@ == self.buffer(),
    {
        &self.id_vec
    }

    pub fn phase(&self) -> (phase: ReaperPhase)
        ensures
            phase == self@.phase,
    {
        self.phase
    }

    /// The name of the dataset the reaper works on.
    pub fn hash_name(&self) -> (name: &str)
        ensures
            name@ == self@.hash_name,
    {
        self.hash_name.as_str()
    }

    /// Takes one event and answers with the next action, as
    /// [`ReaperState::next`] and [`ReaperState::reply`] lay down.
    pub fn step(&mut self, event: ReaperEvent<T>) -> (action: ReaperAction)
        requires
            old(self).wf(),
        ensures
            final(self).wf(),
            final(self)@ == old(self)@.next(event),
            action@ == old(self)@.reply(event),
    {
        match self.phase {
            ReaperPhase::Idle => match event {
                ReaperEvent::PassStarted { now } => {
                    self.timestamp = now;
                    self.phase = ReaperPhase::Opening;
                    ReaperAction::OpenScan
                },
                _ => ReaperAction::Rejected,
            },
            ReaperPhase::Opening => match event {
                ReaperEvent::ScanOpened => {
                    self.phase = ReaperPhase::Scanning;
                    ReaperAction::NextEntry
                },
                ReaperEvent::ScanFailed { err } => {
                    self.phase = ReaperPhase::Dead;
                    ReaperAction::Abort(
                        Task1Error::RedisIterError { err, hash_name: self.hash_name.clone() },
                    )
                },
                _ => ReaperAction::Rejected,
            },
            ReaperPhase::Scanning => match event {
                ReaperEvent::Entry { id, timestamp } => {
                    if self.timestamp as i128 > self.expiry_time as i128 + timestamp as i128 {
                        let ghost before = self.id_vec@;
                        self.id_vec.set(self.id_index, id);
                        self.id_index = self.id_index + 1;
                        assert(self.id_vec@.take(self.id_index as int) =~= before.take(
                            self.id_index - 1,
                        ).push(id));
                    }
                    // Remove fields by bulk for efficiency purpose
                    if self.id_index == self.deletion_bulk_count {
                        self.phase = ReaperPhase::FlushingBatch;
                        ReaperAction::Delete { count: self.deletion_bulk_count }
                    } else {
                        ReaperAction::NextEntry
                    }
                },
                ReaperEvent::ScanFinished => {
                    // Remove remaining fields whose id are in the vector
                    if self.id_index != 0 {
                        self.phase = ReaperPhase::FlushingTail;
                        ReaperAction::Delete { count: self.id_index }
                    } else {
                        self.phase = ReaperPhase::Idle;
                        ReaperAction::Sleep { seconds: self.expiry_time }
                    }
                },
                _ => ReaperAction::Rejected,
            },
            ReaperPhase::FlushingBatch => match event {
                ReaperEvent::Deleted { count } => {
                    if count != self.deletion_bulk_count {
                        self.phase = ReaperPhase::Dead;
                        ReaperAction::Abort(
                            Task1Error::Removal { hash_name: self.hash_name.clone() },
                        )
                    } else {
                        self.id_index = 0;
                        self.phase = ReaperPhase::Scanning;
                        assert(self.id_vec@.take(0) =~= Seq::<T>::empty());
                        ReaperAction::NextEntry
                    }
                },
                ReaperEvent::DeleteFailed { err } => {
                    self.phase = ReaperPhase::Dead;
                    ReaperAction::Abort(
                        Task1Error::RedisRemovalError { err, hash_name: self.hash_name.clone() },
                    )
                },
                _ => ReaperAction::Rejected,
            },
            ReaperPhase::FlushingTail => match event {
                ReaperEvent::Deleted { count } => {
                    if count != self.id_index {
                        self.phase = ReaperPhase::Dead;
                        ReaperAction::Abort(
                            Task1Error::Removal { hash_name: self.hash_name.clone() },
                        )
                    } else {
                        self.id_index = 0;
                        self.phase = ReaperPhase::Idle;
                        assert(self.id_vec@.take(0) =~= Seq::<T>::empty());
                        ReaperAction::Sleep { seconds: self.expiry_time }
                    }
                },
                ReaperEvent::DeleteFailed { err } => {
                    self.phase = ReaperPhase::Dead;
                    ReaperAction::Abort(
                        Task1Error::RedisRemovalError { err, hash_name: self.hash_name.clone() },
                    )
                },
                _ => ReaperAction::Rejected,
            },
            ReaperPhase::Dead => ReaperAction::Rejected,
        }
    }
}

impl<T> ReaperEvent<T> {
    /// The event for a scanned entry: its key and the creation time its
    /// record carries.
    pub fn entry<F: Timestampable>(id: T, fields: &F) -> (event: Self)
        ensures
            event == (ReaperEvent::Entry { id, timestamp: fields.created_at() }),
    {
        ReaperEvent::Entry { id, timestamp: fields.get_timestamp() }
    }
}

} // verus!
