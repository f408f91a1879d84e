//! The playback state machine. For each operator command, and for the
//! auto-advance check made before each command, it decides what the audio
//! sink must do. The program around the library carries out those actions
//! and reports whether the sink is empty.
//!
//! Decisions that move the current track to another one are returned as a
//! [`Step`] and take effect only through [`Controller::commit`], which the
//! program calls once the sink has accepted the new track: a track that
//! fails to open or decode leaves the state as it was.
use vstd::prelude::*;
use crate::playlist::{
    current_after_removal, has_id, index_of, next_index, unique_ids, Playlist,
};
use crate::track::AudioTrack;

verus! {

/// What the audio sink is asked to do.
#[derive(Clone, Copy, Debug, PartialEq, Eq, Structural)]
pub enum SinkAction {
    /// Resume playback.
    Play,
    /// Pause playback.
    Pause,
    /// Stop and drop whatever is queued.
    Stop,
    /// Open a fresh handle on the playlist's track at this position, decode
    /// it from its first byte and append it to the sink.
    Enqueue(usize),
}

/// The ways a command or a resource can fail.
#[derive(Clone, Copy, Debug, PartialEq, Eq, Structural)]
pub enum PlayerError {
    /// A file is missing or cannot be opened when it is loaded.
    ResourceUnreadable,
    /// A loaded track's file can no longer be opened.
    HandleUnavailable,
    /// The input is no command.
    UnknownCommand,
    /// The command needs a current track and there is none.
    NoCurrentTrack,
    /// No track of the playlist goes by the given name.
    NotFound,
    /// The decoder does not read the track's format.
    UnsupportedFormat,
    /// No audio output is available.
    SinkUnavailable,
}

/// A decision to play another track: the sink actions, and the position of
/// the track that becomes current once they have been carried out.
pub struct Step {
    pub actions: Vec<SinkAction>,
    pub select: Option<usize>,
}

/// The sequence of actions of a result.
pub open spec fn actions_of(r: Result<Vec<SinkAction>, PlayerError>) -> Result<
    Seq<SinkAction>,
    PlayerError,
> {
    match r {
        Ok(v) => Ok(v@),
        Err(e) => Err(e),
    }
}

/// Position `i` holds the first track of `ts` shown under `name`.
pub open spec fn first_named_at(ts: Seq<AudioTrack>, name: Seq<char>, i: int) -> bool {
    &&& 0 <= i < ts.len()
    &&& ts[i].name() == name
    &&& forall|j: int| 0 <= j < i ==> ts[j].name() != name
}

/// Some track of `ts` is shown under `name`.
pub open spec fn has_name(ts: Seq<AudioTrack>, name: Seq<char>) -> bool {
    exists|i: int| 0 <= i < ts.len() && ts[i].name() == name
}

/// The position of the first track of `ts` shown under `name`.
pub open spec fn first_named(ts: Seq<AudioTrack>, name: Seq<char>) -> int {
    choose|i: int| first_named_at(ts, name, i)
}

pub proof fn lemma_first_named(ts: Seq<AudioTrack>, name: Seq<char>, i: int)
    requires
        first_named_at(ts, name, i),
    ensures
        has_name(ts, name),
        first_named(ts, name) == i,
{
    let k = first_named(ts, name);
    assert(first_named_at(ts, name, k));
    if k < i {
        assert(ts[k].name() != name);
    }
    if i < k {
        assert(ts[i].name() != name);
    }
}

/// Where auto-advance moves: to the track after the current one, when there
/// is a current track, looping is off and the sink has run empty.
pub open spec fn advance_target(
    ts: Seq<AudioTrack>,
    current: Option<Seq<char>>,
    looping: bool,
    sink_empty: bool,
) -> Option<int> {
    match current {
        Some(c) => if !looping && ts.len() > 0 && sink_empty {
            Some(next_index(ts, c))
        } else {
            None
        },
        None => None,
    }
}

/// The actions of an auto-advance check: one enqueue of the target, if any.
pub open spec fn advance_actions(target: Option<int>) -> Seq<SinkAction> {
    match target {
        Some(n) => seq![SinkAction::Enqueue(n as usize)],
        None => Seq::<SinkAction>::empty(),
    }
}

/// The current identity once a step selecting `select` has been committed.
pub open spec fn committed_current(
    ts: Seq<AudioTrack>,
    current: Option<Seq<char>>,
    select: Option<usize>,
) -> Option<Seq<char>> {
    match select {
        Some(i) => if i < ts.len() {
            Some(ts[i as int].id())
        } else {
            current
        },
        None => current,
    }
}

/// The reply to `start`: resume a sink that holds audio, else enqueue the
/// current track and play.
pub open spec fn start_outcome(
    ts: Seq<AudioTrack>,
    current: Option<Seq<char>>,
    sink_empty: bool,
) -> Result<Seq<SinkAction>, PlayerError> {
    match current {
        None => Err(PlayerError::NoCurrentTrack),
        Some(c) => if sink_empty {
            Ok(seq![SinkAction::Enqueue(index_of(ts, c) as usize), SinkAction::Play])
        } else {
            Ok(seq![SinkAction::Play])
        },
    }
}

/// The reply to `startover`: stop, enqueue the current track from its first
/// byte, and play.
pub open spec fn start_over_outcome(ts: Seq<AudioTrack>, current: Option<Seq<char>>) -> Result<
    Seq<SinkAction>,
    PlayerError,
> {
    match current {
        None => Err(PlayerError::NoCurrentTrack),
        Some(c) => Ok(
            seq![SinkAction::Stop, SinkAction::Enqueue(index_of(ts, c) as usize), SinkAction::Play],
        ),
    }
}

/// The playlist, the loop flag, and the decisions made on them.
pub struct Controller {
    playlist: Playlist,
    loop_enabled: bool,
}

impl Controller {
    pub closed spec fn tracks(&self) -> Seq<AudioTrack> {
        self.playlist.tracks()
    }

    /// The identity of the current track.
    pub closed spec fn current(&self) -> Option<Seq<char>> {
        self.playlist.current()
    }

    pub closed spec fn looping(&self) -> bool {
        self.loop_enabled
    }

    pub closed spec fn wf(&self) -> bool {
        self.playlist.wf()
    }

    /// What the controller's state says of its parts.
    pub proof fn lemma_wf(&self)
        requires
            self.wf(),
        ensures
            unique_ids(self.tracks()),
            self.current() is Some <==> self.tracks().len() > 0,
            self.current() matches Some(c) ==> has_id(self.tracks(), c),
            forall|i: int| 0 <= i < self.tracks().len() ==> (#[trigger] self.tracks()[i]).wf(),
            self.tracks().len() <= usize::MAX,
    {
    }

    /// No tracks, no current track, looping off.
    pub fn new() -> (r: Controller)
        ensures
            r.wf(),
            r.tracks() == Seq::<AudioTrack>::empty(),
            r.current() is None,
            !r.looping(),
    {
        Controller { playlist: Playlist::new(), loop_enabled: false }
    }

    /// The playlist.
    pub fn playlist(&self) -> (r: &Playlist)
        requires
            self.wf(),
        ensures
            r.wf(),
            r.tracks() == self.tracks(),
            r.current() == self.current(),
    {
        &self.playlist
    }

    pub fn is_looping(&self) -> (r: bool)
        ensures
            r == self.looping(),
    {
        self.loop_enabled
    }

    /// The position of the current track, if there is one.
    pub fn current_index(&self) -> (r: Option<usize>)
        requires
            self.wf(),
        ensures
            r is Some <==> self.current() is Some,
            r matches Some(i) ==> i < self.tracks().len() && self.current() == Some(
                self.tracks()[i as int].id(),
            ) && i == index_of(self.tracks(), self.current()->0),
    {
        match self.playlist.current_id() {
            Some(c) => {
                let r = self.playlist.position(c.as_str());
                proof {
                    if let Some(i) = r {
                        crate::playlist::lemma_index_of(self.tracks(), i as int);
                    }
                }
                r
            },
            None => None,
        }
    }

    /// The current track, if there is one.
    pub fn current_track(&self) -> (r: Option<&AudioTrack>)
        requires
            self.wf(),
        ensures
            r is Some <==> self.current() is Some,
            r matches Some(t) ==> self.current() == Some(t.id()) && self.tracks().contains(*t),
    {
        match self.current_index() {
            Some(i) => Some(self.playlist.get(i)),
            None => None,
        }
    }
    /// Adds a loaded track unless one with its identity is already there, and
    /// reports whether it did. The first track loaded becomes current.
    pub fn load(&mut self, track: AudioTrack) -> (r: bool)
        requires
            old(self).wf(),
            track.wf(),
        ensures
            final(self).wf(),
            final(self).looping() == old(self).looping(),
            r == !has_id(old(self).tracks(), track.id()),
            r ==> final(self).tracks() == old(self).tracks().push(track),
            !r ==> final(self).tracks() == old(self).tracks(),
            !r ==> final(self).tracks().len() == old(self).tracks().len(),
            final(self).current() == (if r && old(self).tracks().len() == 0 {
                Some(track.id())
            } else {
                old(self).current()
            }),
            old(self).tracks().len() == 0 ==> final(self).current() == Some(track.id())
                && final(self).tracks().len() == 1,
    {
        self.playlist.insert(track)
    }

    /// Removes the first track shown under `name`. The sink is stopped when
    /// that track was current and audio is queued; the current track then
    /// moves on as the playlist's removal says.
    pub fn remove(&mut self, name: &str, sink_empty: bool) -> (r: Result<
        Vec<SinkAction>,
        PlayerError,
    >)
        requires
            old(self).wf(),
        ensures
            final(self).wf(),
            final(self).looping() == old(self).looping(),
            !has_name(old(self).tracks(), name@) ==> r == Err::<Vec<SinkAction>, PlayerError>(
                PlayerError::NotFound,
            ) && final(self).tracks() == old(self).tracks() && final(self).current() == old(
                self,
            ).current(),
            has_name(old(self).tracks(), name@) ==> ({
                let ts = old(self).tracks();
                let i = first_named(ts, name@);
                let id = ts[i].id();
                &&& final(self).tracks() == ts.remove(i)
                &&& final(self).current() == current_after_removal(ts, old(self).current(), id)
                &&& actions_of(r) == Ok::<Seq<SinkAction>, PlayerError>(
                    if old(self).current() == Some(id) && !sink_empty {
                        seq![SinkAction::Stop]
                    } else {
                        Seq::<SinkAction>::empty()
                    },
                )
            }),
    {
        let i = match self.playlist.position_by_name(name) {
            Some(i) => i,
            None => {
                return Err(PlayerError::NotFound);
            },
        };
        proof {
            lemma_first_named(self.tracks(), name@, i as int);
            crate::playlist::lemma_index_of(self.tracks(), i as int);
        }
        let id = self.playlist.get(i).get_full_path().clone();
        let was_current = match self.playlist.current_id() {
            Some(c) => *c == id,
            None => false,
        };
        self.playlist.remove(id.as_str());
        let mut actions: Vec<SinkAction> = Vec::new();
        if was_current && !sink_empty {
            actions.push(SinkAction::Stop);
        }
        Ok(actions)
    }

    /// Pauses the sink when there is a current track.
    pub fn pause(&self) -> (r: Vec<SinkAction>)
        requires
            self.wf(),
        ensures
            r@ == (if self.current() is Some {
                seq![SinkAction::Pause]
            } else {
                Seq::<SinkAction>::empty()
            }),
    {
        let mut actions: Vec<SinkAction> = Vec::new();
        if self.playlist.current_id().is_some() {
            actions.push(SinkAction::Pause);
        }
        actions
    }

    /// Turns looping on or off.
    pub fn set_loop(&mut self, enabled: bool)
        requires
            old(self).wf(),
        ensures
            final(self).wf(),
            final(self).looping() == enabled,
            final(self).tracks() == old(self).tracks(),
            final(self).current() == old(self).current(),
    {
        self.loop_enabled = enabled;
    }

    /// Starts playback: resumes a sink that holds audio, else enqueues the
    /// current track and plays. Fails without a current track.
    pub fn start(&self, sink_empty: bool) -> (r: Result<Vec<SinkAction>, PlayerError>)
        requires
            self.wf(),
        ensures
            actions_of(r) == start_outcome(self.tracks(), self.current(), sink_empty),
            r == Err::<Vec<SinkAction>, PlayerError>(PlayerError::NoCurrentTrack) <==> self.current() is None,
    {
        let i = match self.current_index() {
            Some(i) => i,
            None => {
                return Err(PlayerError::NoCurrentTrack);
            },
        };
        let mut actions: Vec<SinkAction> = Vec::new();
        if sink_empty {
            actions.push(SinkAction::Enqueue(i));
        }
        actions.push(SinkAction::Play);
        proof {
            if sink_empty {
                assert(actions@ =~= seq![SinkAction::Enqueue(i), SinkAction::Play]);
            } else {
                assert(actions@ =~= seq![SinkAction::Play]);
            }
        }
        Ok(actions)
    }

    /// Plays the current track again from its first byte: stop, enqueue,
    /// play. Fails without a current track.
    pub fn start_over(&self) -> (r: Result<Vec<SinkAction>, PlayerError>)
        requires
            self.wf(),
        ensures
            actions_of(r) == start_over_outcome(self.tracks(), self.current()),
            r == Err::<Vec<SinkAction>, PlayerError>(PlayerError::NoCurrentTrack) <==> self.current() is None,
    {
        let i = match self.current_index() {
            Some(i) => i,
            None => {
                return Err(PlayerError::NoCurrentTrack);
            },
        };
        let mut actions: Vec<SinkAction> = Vec::new();
        actions.push(SinkAction::Stop);
        actions.push(SinkAction::Enqueue(i));
        actions.push(SinkAction::Play);
        assert(actions@ =~= seq![SinkAction::Stop, SinkAction::Enqueue(i), SinkAction::Play]);
        Ok(actions)
    }

    /// Skips to the first track shown under `name`: stop, enqueue it, play,
    /// and make it current.
    pub fn skip(&self, name: &str) -> (r: Result<Step, PlayerError>)
        requires
            self.wf(),
        ensures
            r is Err <==> !has_name(self.tracks(), name@),
            r matches Err(e) ==> e == PlayerError::NotFound,
            r matches Ok(step) ==> ({
                let i = first_named(self.tracks(), name@);
                &&& step.select == Some(i as usize)
                &&& step.actions@ == seq![
                    SinkAction::Stop,
                    SinkAction::Enqueue(i as usize),
                    SinkAction::Play,
                ]
            }),
    {
        let i = match self.playlist.position_by_name(name) {
            Some(i) => i,
            None => {
                return Err(PlayerError::NotFound);
            },
        };
        proof {
            lemma_first_named(self.tracks(), name@, i as int);
        }
        let mut actions: Vec<SinkAction> = Vec::new();
        actions.push(SinkAction::Stop);
        actions.push(SinkAction::Enqueue(i));
        actions.push(SinkAction::Play);
        assert(actions@ =~= seq![SinkAction::Stop, SinkAction::Enqueue(i), SinkAction::Play]);
        Ok(Step { actions, select: Some(i) })
    }

    /// The auto-advance check, made once before each command with the sink's
    /// state: with a current track, looping off and the sink run empty, it
    /// enqueues the next track (the first after the last) and selects it.
    /// Otherwise it does nothing. Looping only holds the current track: when
    /// it ends, nothing is enqueued until the operator starts it again.
    pub fn auto_advance(&self, sink_empty: bool) -> (r: Step)
        requires
            self.wf(),
        ensures
            r.select == (match advance_target(
                self.tracks(),
                self.current(),
                self.looping(),
                sink_empty,
            ) {
                Some(n) => Some(n as usize),
                None => None::<usize>,
            }),
            r.actions@ == advance_actions(
                advance_target(self.tracks(), self.current(), self.looping(), sink_empty),
            ),
    {
        let none = Step { actions: Vec::new(), select: None };
        if self.loop_enabled || !sink_empty {
            assert(none.actions@ =~= Seq::<SinkAction>::empty());
            return none;
        }
        match self.playlist.current_id() {
            Some(c) => {
                let next = self.playlist.next_after(c.as_str());
                let n = match self.playlist.position(next.get_full_path().as_str()) {
                    Some(n) => n,
                    None => {
                        proof {
                            assert(false);
                        }
                        0
                    },
                };
                proof {
                    let ts = self.tracks();
                    let k = next_index(ts, self.current()->0);
                    assert(0 <= k < ts.len()) by {
                        assert(ts.len() > 0);
                    }
                    crate::playlist::lemma_index_of(ts, k);
                    crate::playlist::lemma_index_of(ts, n as int);
                }
                let mut actions: Vec<SinkAction> = Vec::new();
                actions.push(SinkAction::Enqueue(n));
                assert(actions@ =~= seq![SinkAction::Enqueue(n)]);
                Step { actions, select: Some(n) }
            },
            None => {
                assert(none.actions@ =~= Seq::<SinkAction>::empty());
                none
            },
        }
    }

    /// Carries out the move of a step whose actions the sink has accepted:
    /// the selected track, if it is a position of the playlist, becomes
    /// current.
    pub fn commit(&mut self, step: &Step)
        requires
            old(self).wf(),
        ensures
            final(self).wf(),
            final(self).tracks() == old(self).tracks(),
            final(self).looping() == old(self).looping(),
            final(self).current() == committed_current(
                old(self).tracks(),
                old(self).current(),
                step.select,
            ),
    {
        if let Some(i) = step.select {
            if i < self.playlist.len() {
                let id = self.playlist.get(i).get_full_path().clone();
                proof {
                    assert(has_id(self.tracks(), id@));
                }
                self.playlist.set_current(id.as_str());
            }
        }
    }
}

/// With looping off and the sink run empty, one auto-advance check on a
/// controller with a current track enqueues exactly one track, the one after
/// the current track (the first after the last), and committing the step
/// makes that track current.
pub proof fn lemma_auto_advance_cycle(c: Controller)
    requires
        c.wf(),
        !c.looping(),
        c.current() is Some,
    ensures
        ({
            let ts = c.tracks();
            let n = next_index(ts, c.current()->0);
            let target = advance_target(ts, c.current(), c.looping(), true);
            &&& 0 <= n < ts.len()
            &&& target == Some(n)
            &&& advance_actions(target) == seq![SinkAction::Enqueue(n as usize)]
            &&& committed_current(ts, c.current(), Some(n as usize)) == Some(ts[n].id())
        }),
{
    c.lemma_wf();
    let ts = c.tracks();
    let cur = c.current()->0;
    crate::playlist::lemma_index_of(ts, index_of(ts, cur));
    let i = index_of(ts, cur);
    assert(0 <= i < ts.len() && ts[i].id() == cur);
    vstd::arithmetic::div_mod::lemma_mod_pos_bound(i + 1, ts.len() as int);
}

/// With looping on, the auto-advance check neither enqueues anything nor
/// changes the current track, whatever the sink reports.
pub proof fn lemma_loop_suppresses_advance(c: Controller, sink_empty: bool)
    requires
        c.wf(),
        c.looping(),
    ensures
        advance_target(c.tracks(), c.current(), c.looping(), sink_empty) is None,
        advance_actions(advance_target(c.tracks(), c.current(), c.looping(), sink_empty)).len()
            == 0,
        committed_current(
            c.tracks(),
            c.current(),
            None,
        ) == c.current(),
{
}

/// Starting over leaves the state as it was (it reads the controller only),
/// so two calls in a row give the same reply: each stops the sink, then
/// enqueues the current track from its first byte, then plays.
pub proof fn lemma_start_over_repeats(c: Controller)
    requires
        c.wf(),
        c.current() is Some,
    ensures
        ({
            let i = index_of(c.tracks(), c.current()->0);
            &&& 0 <= i < c.tracks().len()
            &&& c.tracks()[i].id() == c.current()->0
            &&& start_over_outcome(c.tracks(), c.current()) == Ok::<
                Seq<SinkAction>,
                PlayerError,
            >(seq![SinkAction::Stop, SinkAction::Enqueue(i as usize), SinkAction::Play])
        }),
{
    c.lemma_wf();
    let ts = c.tracks();
    let cur = c.current()->0;
    let i = index_of(ts, cur);
    assert(0 <= i < ts.len() && ts[i].id() == cur);
}

/// Without a current track, `start` and `startover` fail with
/// `NoCurrentTrack` (and, reading the controller only, change nothing).
pub proof fn lemma_no_track_errors(c: Controller, sink_empty: bool)
    requires
        c.wf(),
        c.current() is None,
    ensures
        start_outcome(c.tracks(), c.current(), sink_empty) == Err::<Seq<SinkAction>, PlayerError>(
            PlayerError::NoCurrentTrack,
        ),
        start_over_outcome(c.tracks(), c.current()) == Err::<Seq<SinkAction>, PlayerError>(
            PlayerError::NoCurrentTrack,
        ),
{
}

} // verus!
