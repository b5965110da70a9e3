use vstd::prelude::*;
use crate::fault::Fault;
use crate::library::texts;
use crate::queue::{Entry, TrackQueue, head, is_shuffle_of, removed};

verus! {

/// How long the motion loop sleeps after a reading without motion.
pub const MOTION_POLL_MS: u64 = 1000;

/// How long the diagnostic loop sleeps after reporting a reading.
pub const DIAGNOSTIC_POLL_MS: u64 = 100;

/// What the process runs, chosen on the command line.
#[derive(Clone, Copy, Debug, PartialEq, Eq, Structural)]
pub enum Mode {
    /// Wait for motion, then play one track; repeat.
    Motion,
    /// Only report each raw sensor reading (hardware bring-up).
    Diagnostic,
    /// Play tracks back to back without the sensor.
    Rehearsal,
}

/// The mode that the options after the program name select: none selects
/// the motion loop, `-q` the diagnostic loop, `-d` the rehearsal loop; any
/// other first option is a usage fault. Options after the first are ignored.
pub open spec fn mode_for(args: Seq<Seq<char>>) -> Result<Mode, Fault> {
    if args.len() == 0 {
        Ok(Mode::Motion)
    } else if args[0] == seq!['-', 'q'] {
        Ok(Mode::Diagnostic)
    } else if args[0] == seq!['-', 'd'] {
        Ok(Mode::Rehearsal)
    } else {
        Err(Fault::Usage)
    }
}

/// Whether two texts are the same, character by character.
fn same_text(a: &str, b: &str) -> (r: bool)
    ensures
        r == (a@ == b@),
{
    let n = a.unicode_len();
    if n != b.unicode_len() {
        return false;
    }
    let mut i: usize = 0;
    while i < n
        invariant
            n == a@.len() == b@.len(),
            i <= n,
            a@.take(i as int) == b@.take(i as int),
        decreases n - i,
    {
        if a.get_char(i) != b.get_char(i) {
            return false;
        }
        assert(a@.take(i + 1) =~= a@.take(i as int).push(a@[i as int]));
        assert(b@.take(i + 1) =~= b@.take(i as int).push(b@[i as int]));
        i = i + 1;
    }
    assert(a@ =~= a@.take(n as int));
    assert(b@ =~= b@.take(n as int));
    true
}

/// Chooses the mode from the options that follow the program name.
pub fn parse_mode(args: &Vec<String>) -> (r: Result<Mode, Fault>)
    ensures
        r == mode_for(texts(args@)),
{
    proof {
        reveal_strlit("-q");
        reveal_strlit("-d");
    }
    if args.len() == 0 {
        return Ok(Mode::Motion);
    }
    let first = args[0].as_str();
    assert(texts(args@)[0] == first@);
    if same_text(first, "-q") {
        Ok(Mode::Diagnostic)
    } else if same_text(first, "-d") {
        Ok(Mode::Rehearsal)
    } else {
        assert("-q"@ =~= seq!['-', 'q']);
        assert("-d"@ =~= seq!['-', 'd']);
        Err(Fault::Usage)
    }
}

/// A sensor reading signals motion when it is high (non-zero).
pub open spec fn is_motion(value: u8) -> bool {
    value != 0
}

/// Whether the loop waits for the sensor or a track is playing.
#[derive(Clone, Copy, Debug, PartialEq, Eq, Structural)]
pub enum LoopState {
    /// Polling the sensor; nothing plays.
    Idle,
    /// The entry at `position` is playing; it leaves the queue once the
    /// player has exited.
    Playing { position: u64 },
}

/// What the caller is to do next.
pub enum Action {
    /// Sleep for `millis`, then read the sensor again.
    Wait { millis: u64 },
    /// Show whether the reading was high, sleep for `millis`, read again.
    Report { motion: bool, millis: u64 },
    /// The queue is empty: scan the library and hand its playable files to
    /// `on_library`.
    Scan,
    /// Play the file of `entry`, wait for the player to exit, then call
    /// `on_track_finished`.
    Play { entry: Entry },
}

/// The control loop's decisions: the queue, the mode and the loop state.
pub struct Player {
    mode: Mode,
    queue: TrackQueue,
    state: LoopState,
}

impl Player {
    pub closed spec fn mode_of(&self) -> Mode {
        self.mode
    }

    pub closed spec fn queue_of(&self) -> Seq<(u64, Seq<char>)> {
        self.queue@
    }

    pub closed spec fn state_of(&self) -> LoopState {
        self.state
    }

    /// Well-formed: the queue is.
    pub closed spec fn wf(&self) -> bool {
        self.queue.wf()
    }

    /// A player in `mode` over a queue loaded from the store, waiting.
    pub fn new(mode: Mode, queue: TrackQueue) -> (r: Player)
        requires
            queue.wf(),
        ensures
            r.wf(),
            r.mode_of() == mode,
            r.queue_of() == queue@,
            r.state_of() == LoopState::Idle,
    {
        Player { mode, queue, state: LoopState::Idle }
    }

    pub fn mode(&self) -> (r: Mode)
        ensures
            r == self.mode_of(),
    {
        self.mode
    }

    pub fn state(&self) -> (r: LoopState)
        ensures
            r == self.state_of(),
    {
        self.state
    }

    /// The queue, for the caller to persist.
    pub fn queue(&self) -> (r: &TrackQueue)
        ensures
            r@ == self.queue_of(),
            self.wf() ==> r.wf(),
    {
        &self.queue
    }

    /// Starts the next track: plays the head of the queue, or asks for a
    /// library scan when the queue is empty.
    pub fn start_track(&mut self) -> (r: Action)
        requires
            old(self).wf(),
            old(self).state_of() == LoopState::Idle,
        ensures
            final(self).wf(),
            final(self).mode_of() == old(self).mode_of(),
            final(self).queue_of() == old(self).queue_of(),
            head(old(self).queue_of()) is None ==> r is Scan && final(self).state_of()
                == LoopState::Idle,
            head(old(self).queue_of()) matches Some(h) ==> (r matches Action::Play { entry }
                && entry@ == h && final(self).state_of() == (LoopState::Playing {
                position: h.0,
            })),
    {
        match self.queue.next_track() {
            None => Action::Scan,
            Some(entry) => {
                self.state = LoopState::Playing { position: entry.position };
                Action::Play { entry }
            },
        }
    }

    /// Handles one sensor reading while idle. The diagnostic loop reports it;
    /// the motion loop starts a track on a high reading and otherwise waits;
    /// the rehearsal loop starts a track whatever was read.
    pub fn on_reading(&mut self, value: u8) -> (r: Action)
        requires
            old(self).wf(),
            old(self).state_of() == LoopState::Idle,
        ensures
            final(self).wf(),
            final(self).mode_of() == old(self).mode_of(),
            final(self).queue_of() == old(self).queue_of(),
            old(self).mode_of() == Mode::Diagnostic ==> (r matches Action::Report { motion, millis }
                && motion == is_motion(value) && millis == DIAGNOSTIC_POLL_MS)
                && final(self).state_of() == LoopState::Idle,
            old(self).mode_of() == Mode::Motion && !is_motion(value) ==> (r matches Action::Wait {
                millis,
            } && millis == MOTION_POLL_MS) && final(self).state_of() == LoopState::Idle,
            (old(self).mode_of() == Mode::Rehearsal || (old(self).mode_of() == Mode::Motion
                && is_motion(value))) ==> {
                &&& head(old(self).queue_of()) is None ==> r is Scan && final(self).state_of()
                    == LoopState::Idle
                &&& head(old(self).queue_of()) matches Some(h) ==> (r matches Action::Play {
                    entry,
                } && entry@ == h && final(self).state_of() == (LoopState::Playing {
                    position: h.0,
                }))
            },
    {
        match self.mode {
            Mode::Diagnostic => Action::Report { motion: value != 0, millis: DIAGNOSTIC_POLL_MS },
            Mode::Motion => {
                if value == 0 {
                    Action::Wait { millis: MOTION_POLL_MS }
                } else {
                    self.start_track()
                }
            },
            Mode::Rehearsal => self.start_track(),
        }
    }

    /// Takes the playable files that a library scan found, shuffles them
    /// into a new queue and starts its first track; the library-empty fault
    /// when there are none.
    pub fn on_library(&mut self, songs: Vec<String>) -> (r: Result<Entry, Fault>)
        requires
            old(self).wf(),
            old(self).state_of() == LoopState::Idle,
        ensures
            final(self).wf(),
            final(self).mode_of() == old(self).mode_of(),
            r is Err <==> songs@.len() == 0,
            r matches Err(f) ==> f == Fault::LibraryEmpty && final(self).queue_of() == old(
                self,
            ).queue_of() && final(self).state_of() == LoopState::Idle,
            r matches Ok(e) ==> is_shuffle_of(final(self).queue_of(), texts(songs@)) && head(
                final(self).queue_of(),
            ) == Some(e@) && final(self).state_of() == (LoopState::Playing {
                position: e.position,
            }),
    {
        let r = self.queue.populate(songs);
        if let Ok(e) = &r {
            self.state = LoopState::Playing { position: e.position };
        }
        r
    }

    /// The player has exited, whatever its status: the entry that played
    /// leaves the queue and the loop goes back to waiting. Returns the
    /// position deleted, for the caller to persist; `None` when nothing was
    /// playing.
    pub fn on_track_finished(&mut self) -> (r: Option<u64>)
        requires
            old(self).wf(),
        ensures
            final(self).wf(),
            final(self).mode_of() == old(self).mode_of(),
            final(self).state_of() == LoopState::Idle,
            old(self).state_of() == LoopState::Idle ==> r is None && final(self).queue_of() == old(
                self,
            ).queue_of(),
            old(self).state_of() matches LoopState::Playing { position } ==> (r == Some(position)
                && final(self).queue_of() == removed(old(self).queue_of(), position)),
    {
        match self.state {
            LoopState::Idle => None,
            LoopState::Playing { position } => {
                self.queue.remove(position);
                self.state = LoopState::Idle;
                Some(position)
            },
        }
    }
}

} // verus!
