//! The playlist: tracks in insertion order, at most one per identity, and the
//! identity of the current track.
use vstd::prelude::*;
use crate::track::AudioTrack;

verus! {

/// Whether some track of `ts` has identity `id`.
pub open spec fn has_id(ts: Seq<AudioTrack>, id: Seq<char>) -> bool {
    exists|i: int| 0 <= i < ts.len() && ts[i].id() == id
}

/// No two tracks of `ts` share an identity.
pub open spec fn unique_ids(ts: Seq<AudioTrack>) -> bool {
    forall|i: int, j: int|
        0 <= i < ts.len() && 0 <= j < ts.len() && ts[i].id() == ts[j].id() ==> i == j
}

/// The position of the track with identity `id`.
pub open spec fn index_of(ts: Seq<AudioTrack>, id: Seq<char>) -> int
    recommends
        has_id(ts, id),
{
    choose|i: int| 0 <= i < ts.len() && ts[i].id() == id
}

/// The position that follows the track with identity `id`, the first after the last.
pub open spec fn next_index(ts: Seq<AudioTrack>, id: Seq<char>) -> int
    recommends
        has_id(ts, id),
{
    (index_of(ts, id) + 1) % (ts.len() as int)
}

/// The current identity once the track `id` has left `ts`: unchanged unless it
/// was current; then the track that followed it, the first if it was last, or
/// none if nothing is left.
pub open spec fn current_after_removal(
    ts: Seq<AudioTrack>,
    current: Option<Seq<char>>,
    id: Seq<char>,
) -> Option<Seq<char>> {
    let i = index_of(ts, id);
    let rest = ts.remove(i);
    if current != Some(id) {
        current
    } else if rest.len() == 0 {
        None
    } else if i < rest.len() {
        Some(rest[i].id())
    } else {
        Some(rest[0].id())
    }
}

/// In `ts` with unique identities, position `i` holds `id` exactly when
/// `index_of` names `i`.
pub proof fn lemma_index_of(ts: Seq<AudioTrack>, i: int)
    requires
        unique_ids(ts),
        0 <= i < ts.len(),
    ensures
        has_id(ts, ts[i].id()),
        index_of(ts, ts[i].id()) == i,
{
    let id = ts[i].id();
    assert(has_id(ts, id));
    let j = index_of(ts, id);
    assert(ts[j].id() == id);
}

/// The track after the last one is the first: for a member `id` at the last
/// position, the next position is 0.
pub proof fn lemma_wraparound(ts: Seq<AudioTrack>, id: Seq<char>)
    requires
        unique_ids(ts),
        has_id(ts, id),
        index_of(ts, id) == ts.len() - 1,
    ensures
        next_index(ts, id) == 0,
{
    vstd::arithmetic::div_mod::lemma_mod_self_0(ts.len() as int);
}

pub struct Playlist {
    tracks: Vec<AudioTrack>,
    current: Option<String>,
}

impl Playlist {
    /// The tracks, in order.
    pub closed spec fn tracks(&self) -> Seq<AudioTrack> {
        self.tracks@
    }

    /// The identity of the current track.
    pub closed spec fn current(&self) -> Option<Seq<char>> {
        match self.current {
            Some(c) => Some(c@),
            None => None,
        }
    }

    /// Tracks are well formed and unique by identity; there is a current
    /// track exactly when the playlist is non-empty, and it is a member.
    pub open spec fn wf(&self) -> bool {
        &&& forall|i: int| 0 <= i < self.tracks().len() ==> (#[trigger] self.tracks()[i]).wf()
        &&& unique_ids(self.tracks())
        &&& self.tracks().len() <= usize::MAX
        &&& (self.current() is Some <==> self.tracks().len() > 0)
        &&& (self.current() matches Some(c) ==> has_id(self.tracks(), c))
    }

    /// An empty playlist with no current track.
    pub fn new() -> (r: Playlist)
        ensures
            r.wf(),
            r.tracks() == Seq::<AudioTrack>::empty(),
            r.current() is None,
    {
        Playlist { tracks: Vec::new(), current: None }
    }

    pub fn len(&self) -> (r: usize)
        ensures
            r == self.tracks().len(),
    {
        self.tracks.len()
    }

    pub fn is_empty(&self) -> (r: bool)
        ensures
            r == (self.tracks().len() == 0),
    {
        self.tracks.len() == 0
    }

    /// The track at position `i`.
    pub fn get(&self, i: usize) -> (r: &AudioTrack)
        requires
            i < self.tracks().len(),
        ensures
            *r == self.tracks()[i as int],
    {
        &self.tracks[i]
    }

    /// The identity of the current track.
    pub fn current_id(&self) -> (r: Option<&String>)
        ensures
            r matches Some(c) ==> self.current() == Some(c@),
            r is None ==> self.current() is None,
    {
        match &self.current {
            Some(c) => Some(c),
            None => None,
        }
    }

    /// The position of the track with identity `id`, if it is a member.
    pub fn position(&self, id: &str) -> (r: Option<usize>)
        ensures
            r is Some <==> has_id(self.tracks(), id@),
            r matches Some(i) ==> i < self.tracks().len() && self.tracks()[i as int].id() == id@,
    {
        let key = String::from_str(id);
        let mut i: usize = 0;
        while i < self.tracks.len()
            invariant
                i <= self.tracks@.len(),
                key@ == id@,
                forall|j: int| 0 <= j < i ==> self.tracks@[j].id() != id@,
            decreases self.tracks@.len() - i,
        {
            if self.tracks[i].has_id(&key) {
                return Some(i);
            }
            i = i + 1;
        }
        None
    }

    /// The position of the first track shown under `name`, if any.
    pub fn position_by_name(&self, name: &str) -> (r: Option<usize>)
        ensures
            r matches Some(i) ==> i < self.tracks().len() && self.tracks()[i as int].name()
                == name@ && forall|j: int| 0 <= j < i ==> self.tracks()[j].name() != name@,
            r is None ==> forall|j: int|
                0 <= j < self.tracks().len() ==> self.tracks()[j].name() != name@,
    {
        let key = String::from_str(name);
        let mut i: usize = 0;
        while i < self.tracks.len()
            invariant
                i <= self.tracks@.len(),
                key@ == name@,
                forall|j: int| 0 <= j < i ==> self.tracks@[j].name() != name@,
            decreases self.tracks@.len() - i,
        {
            if self.tracks[i].has_name(&key) {
                return Some(i);
            }
            i = i + 1;
        }
        None
    }

    /// Whether a track with identity `id` is a member.
    pub fn contains(&self, id: &str) -> (r: bool)
        ensures
            r == has_id(self.tracks(), id@),
    {
        self.position(id).is_some()
    }

    /// The member with identity `id`, if any.
    pub fn find(&self, id: &str) -> (r: Option<&AudioTrack>)
        ensures
            r is Some <==> has_id(self.tracks(), id@),
            r matches Some(t) ==> t.id() == id@ && self.tracks().contains(*t),
    {
        match self.position(id) {
            Some(i) => Some(&self.tracks[i]),
            None => None,
        }
    }
    /// Appends `track` unless a track with its identity is already a member,
    /// and reports whether it did. A track added to an empty playlist becomes
    /// current.
    pub fn insert(&mut self, track: AudioTrack) -> (r: bool)
        requires
            old(self).wf(),
            track.wf(),
        ensures
            final(self).wf(),
            r == !has_id(old(self).tracks(), track.id()),
            r ==> final(self).tracks() == old(self).tracks().push(track),
            !r ==> final(self).tracks() == old(self).tracks(),
            has_id(old(self).tracks(), track.id()) ==> final(self).tracks().len() == old(
                self,
            ).tracks().len(),
            final(self).current() == (if r && old(self).tracks().len() == 0 {
                Some(track.id())
            } else {
                old(self).current()
            }),
    {
        let key = track.get_full_path().clone();
        if self.contains(key.as_str()) {
            return false;
        }
        let ghost before = self.tracks@;
        if self.tracks.len() == 0 {
            self.current = Some(key);
        }
        self.tracks.push(track);
        // the length of a `Vec` fits a `usize`
        let _ = self.tracks.len();
        proof {
            let ts = self.tracks@;
            assert(ts[before.len() as int] == track);
            assert forall|i: int, j: int|
                0 <= i < ts.len() && 0 <= j < ts.len() && ts[i].id() == ts[j].id() implies i
                == j by {
                if i < before.len() && j == before.len() {
                    assert(before[i] == ts[i]);
                }
                if j < before.len() && i == before.len() {
                    assert(before[j] == ts[j]);
                }
                if i < before.len() && j < before.len() {
                    assert(before[i] == ts[i] && before[j] == ts[j]);
                }
            }
            assert forall|i: int| 0 <= i < ts.len() implies (#[trigger] ts[i]).wf() by {
                if i < before.len() {
                    assert(before[i] == ts[i]);
                }
            }
            if let Some(c) = self.current() {
                if before.len() == 0 {
                    assert(ts[0].id() == c);
                } else {
                    let k = choose|k: int| 0 <= k < before.len() && before[k].id() == c;
                    assert(ts[k] == before[k]);
                }
            }
        }
        true
    }

    /// Makes the member with identity `id` current, and reports whether there
    /// was one; otherwise nothing changes.
    pub fn set_current(&mut self, id: &str) -> (r: bool)
        requires
            old(self).wf(),
        ensures
            final(self).wf(),
            r == has_id(old(self).tracks(), id@),
            final(self).tracks() == old(self).tracks(),
            final(self).current() == (if r {
                Some(id@)
            } else {
                old(self).current()
            }),
    {
        if self.contains(id) {
            self.current = Some(String::from_str(id));
            true
        } else {
            false
        }
    }

    /// The track that follows the member `id`, the first after the last.
    pub fn next_after(&self, id: &str) -> (r: &AudioTrack)
        requires
            self.wf(),
            has_id(self.tracks(), id@),
        ensures
            *r == self.tracks()[next_index(self.tracks(), id@)],
            index_of(self.tracks(), id@) == self.tracks().len() - 1 ==> *r == self.tracks()[0],
            index_of(self.tracks(), id@) < self.tracks().len() - 1 ==> *r == self.tracks()[index_of(
                self.tracks(),
                id@,
            ) + 1],
    {
        let i = match self.position(id) {
            Some(i) => i,
            None => {
                proof {
                    assert(false);
                }
                0
            },
        };
        let len = self.tracks.len();
        proof {
            lemma_index_of(self.tracks(), i as int);
            if i + 1 < len {
                vstd::arithmetic::div_mod::lemma_small_mod((i + 1) as nat, len as nat);
            } else {
                vstd::arithmetic::div_mod::lemma_mod_self_0(len as int);
            }
        }
        if i + 1 < len {
            &self.tracks[i + 1]
        } else {
            &self.tracks[0]
        }
    }

    /// Removes the member with identity `id`, and reports whether there was
    /// one. If it was current, the track that followed it becomes current (the
    /// first if it was last), or none if the playlist is left empty.
    pub fn remove(&mut self, id: &str) -> (r: bool)
        requires
            old(self).wf(),
        ensures
            final(self).wf(),
            r == has_id(old(self).tracks(), id@),
            !r ==> final(self).tracks() == old(self).tracks() && final(self).current() == old(
                self,
            ).current(),
            r ==> final(self).tracks() == old(self).tracks().remove(
                index_of(old(self).tracks(), id@),
            ),
            r ==> final(self).current() == current_after_removal(
                old(self).tracks(),
                old(self).current(),
                id@,
            ),
    {
        let p = match self.position(id) {
            Some(p) => p,
            None => {
                return false;
            },
        };
        let ghost before = self.tracks@;
        proof {
            lemma_index_of(before, p as int);
        }
        let key = String::from_str(id);
        let was_current = match &self.current {
            Some(c) => *c == key,
            None => false,
        };
        self.tracks.remove(p);
        let ghost ts = self.tracks@;
        assert(ts == before.remove(p as int));
        assert forall|i: int| 0 <= i < ts.len() implies ts[i] == before[if i < p {
            i
        } else {
            i + 1
        }] by {}
        if was_current {
            if self.tracks.len() == 0 {
                self.current = None;
            } else if p < self.tracks.len() {
                self.current = Some(self.tracks[p].get_full_path().clone());
            } else {
                self.current = Some(self.tracks[0].get_full_path().clone());
            }
        }
        proof {
            assert forall|i: int, j: int|
                0 <= i < ts.len() && 0 <= j < ts.len() && ts[i].id() == ts[j].id() implies i
                == j by {
                let bi = if i < p { i } else { i + 1 };
                let bj = if j < p { j } else { j + 1 };
                assert(ts[i] == before[bi] && ts[j] == before[bj]);
            }
            assert forall|i: int| 0 <= i < ts.len() implies (#[trigger] ts[i]).wf() by {
                let bi = if i < p { i } else { i + 1 };
                assert(ts[i] == before[bi]);
            }
            if !was_current {
                if let Some(c) = self.current() {
                    let k = choose|k: int| 0 <= k < before.len() && before[k].id() == c;
                    assert(k != p);
                    let nk = if k < p { k } else { k - 1 };
                    assert(ts[nk] == before[k]);
                }
            } else {
                if ts.len() > 0 {
                    let q = if p < ts.len() { p as int } else { 0 };
                    assert(has_id(ts, ts[q].id()));
                }
            }
        }
        true
    }
}

} // verus!
