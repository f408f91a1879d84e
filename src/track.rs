//! A track: one loadable audio resource, identified by its path.
//!
//! The open read handle of a track is I/O and is held by the program around
//! this library; here a track is its identity and its display name.
use vstd::prelude::*;

verus! {

/// What `std::path::Path::file_name` returns for a path: its final component,
/// if it has one.
pub uninterp spec fn file_name_of(path: Seq<char>) -> Option<Seq<char>>;

/// The view of an optional string.
pub open spec fn opt_view(o: Option<String>) -> Option<Seq<char>> {
    match o {
        Some(s) => Some(s@),
        None => None,
    }
}

/// Relies on `std::path::Path::file_name`: the final component of `path`, or
/// none when the path has none (it ends in `..`, or is a root or empty). The
/// component of a `&str` is valid UTF-8, so the conversion back is lossless.
#[verifier::external_body]
fn path_file_name(path: &str) -> (r: Option<String>)
    ensures
        opt_view(r) == file_name_of(path@),
{
    std::path::Path::new(path).file_name().map(|n| n.to_string_lossy().into_owned())
}

/// Whether a path has a final component to display.
pub open spec fn has_base_name(path: Seq<char>) -> bool {
    file_name_of(path) is Some
}

/// The final component of a path that has one.
pub open spec fn base_name_of(path: Seq<char>) -> Seq<char>
    recommends
        has_base_name(path),
{
    file_name_of(path)->0
}

/// The final component of `path`. A path without one is a caller error.
pub fn get_base_name(path: &str) -> (r: String)
    requires
        has_base_name(path@),
    ensures
        r@ == base_name_of(path@),
{
    match path_file_name(path) {
        Some(name) => name,
        None => {
            proof {
                assert(false);
            }
            String::new()
        },
    }
}

/// A track of the playlist. Two tracks are equal when their paths are.
pub struct AudioTrack {
    full_path: String,
    basename: String,
}

impl AudioTrack {
    /// The identity of the track: its path.
    pub closed spec fn id(&self) -> Seq<char> {
        self.full_path@
    }

    /// The name shown to the operator.
    pub closed spec fn name(&self) -> Seq<char> {
        self.basename@
    }

    /// The name is the final component of the path.
    pub open spec fn wf(&self) -> bool {
        has_base_name(self.id()) && self.name() == base_name_of(self.id())
    }

    /// A track for `path`, which must have a final component.
    pub fn new(path: &str) -> (r: AudioTrack)
        requires
            has_base_name(path@),
        ensures
            r.id() == path@,
            r.name() == base_name_of(path@),
            r.wf(),
    {
        AudioTrack { full_path: String::from_str(path), basename: get_base_name(path) }
    }

    /// A track for `path`, or `None` when the path has no final component.
    pub fn from_path(path: &str) -> (r: Option<AudioTrack>)
        ensures
            r is Some <==> has_base_name(path@),
            r matches Some(t) ==> t.id() == path@ && t.name() == base_name_of(path@) && t.wf(),
    {
        match path_file_name(path) {
            Some(_) => Some(AudioTrack::new(path)),
            None => None,
        }
    }

    /// The path that identifies the track.
    pub fn get_full_path(&self) -> (r: &String)
        ensures
            r@ == self.id(),
    {
        &self.full_path
    }

    /// Whether the track is the one identified by `id`.
    pub fn has_id(&self, id: &String) -> (r: bool)
        ensures
            r == (self.id() == id@),
    {
        self.full_path == *id
    }

    /// Whether the track is shown under `name`.
    pub fn has_name(&self, name: &String) -> (r: bool)
        ensures
            r == (self.name() == name@),
    {
        self.basename == *name
    }

    /// The name shown to the operator.
    pub fn get_base_name(&self) -> (r: String)
        ensures
            r@ == self.name(),
    {
        self.basename.clone()
    }

    /// A second track with the same identity and name.
    pub fn clone(&self) -> (r: AudioTrack)
        ensures
            r.id() == self.id(),
            r.name() == self.name(),
    {
        AudioTrack { full_path: self.full_path.clone(), basename: self.basename.clone() }
    }
}

impl PartialEq for AudioTrack {
    fn eq(&self, other: &AudioTrack) -> (r: bool) {
        self.full_path == other.full_path
    }
}

impl vstd::std_specs::cmp::PartialEqSpecImpl for AudioTrack {
    open spec fn obeys_eq_spec() -> bool {
        true
    }

    open spec fn eq_spec(&self, other: &AudioTrack) -> bool {
        self.id() == other.id()
    }
}

} // verus!
