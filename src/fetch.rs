//! Fetching one package's archive into its vendor directory: download,
//! unpack into a temporary directory beside the destination, replace the
//! destination by a rename, then mark it with an empty checksum manifest.
use crate::manifest::{vendor_dir_of, PackageId};
use crate::version::version_text_of;
use vstd::prelude::*;

verus! {

/// Where a fetch stands.
#[derive(Clone, Copy, Debug, PartialEq, Eq, Structural)]
pub enum FetchState {
    Downloading,
    /// The archive is being unpacked into a fresh temporary directory.
    Unpacking,
    /// The old destination directory is being removed.
    Clearing,
    /// The unpacked `{name}-{version}` directory is being renamed onto the
    /// destination.
    Moving,
    /// The checksum manifest is being written.
    Marking,
    Done,
    Failed(FetchError),
}

/// Why a fetch failed.
#[derive(Clone, Copy, Debug, PartialEq, Eq, Structural)]
pub enum FetchError {
    /// The registry answered with a status other than 200.
    Status(u16),
    /// The request or the reading of the body failed.
    Transport,
    /// The archive could not be unpacked, or lacked `{name}-{version}`.
    Archive,
    /// A filesystem operation on the destination failed.
    Filesystem,
}

/// What the caller does next.
#[derive(Clone, Copy, Debug, PartialEq, Eq, Structural)]
pub enum FetchAction {
    /// Request the archive and read the whole body.
    Download,
    /// Unpack the body (gzip, then tar) into a temporary directory made
    /// under the vendor root.
    Unpack,
    /// Remove the destination directory; its absence is no failure.
    RemoveDest,
    /// Rename the unpacked `{name}-{version}` directory onto the destination.
    MoveIntoDest,
    /// Write the checksum manifest into the destination.
    WriteChecksum,
    Finish,
    Fail(FetchError),
}

/// The outcome of the last action.
#[derive(Clone, Copy, Debug, PartialEq, Eq, Structural)]
pub enum FetchEvent {
    /// The registry answered with this status.
    Status(u16),
    Succeeded,
    /// The target of a removal did not exist.
    NotFound,
    Failed,
}

pub open spec fn fetch_next_spec(s: FetchState, e: FetchEvent) -> (FetchState, FetchAction) {
    match s {
        FetchState::Downloading => match e {
            FetchEvent::Status(code) => if code == 200 {
                (FetchState::Unpacking, FetchAction::Unpack)
            } else {
                (FetchState::Failed(FetchError::Status(code)), FetchAction::Fail(FetchError::Status(code)))
            },
            _ => (FetchState::Failed(FetchError::Transport), FetchAction::Fail(FetchError::Transport)),
        },
        FetchState::Unpacking => match e {
            FetchEvent::Succeeded => (FetchState::Clearing, FetchAction::RemoveDest),
            _ => (FetchState::Failed(FetchError::Archive), FetchAction::Fail(FetchError::Archive)),
        },
        FetchState::Clearing => match e {
            FetchEvent::Succeeded | FetchEvent::NotFound => (FetchState::Moving, FetchAction::MoveIntoDest),
            _ => (FetchState::Failed(FetchError::Filesystem), FetchAction::Fail(FetchError::Filesystem)),
        },
        FetchState::Moving => match e {
            FetchEvent::Succeeded => (FetchState::Marking, FetchAction::WriteChecksum),
            _ => (FetchState::Failed(FetchError::Archive), FetchAction::Fail(FetchError::Archive)),
        },
        FetchState::Marking => match e {
            FetchEvent::Succeeded => (FetchState::Done, FetchAction::Finish),
            _ => (FetchState::Failed(FetchError::Filesystem), FetchAction::Fail(FetchError::Filesystem)),
        },
        FetchState::Done => (FetchState::Done, FetchAction::Finish),
        FetchState::Failed(err) => (s, FetchAction::Fail(err)),
    }
}

/// The first state and action of a fetch.
pub fn fetch_start() -> (r: (FetchState, FetchAction))
    ensures
        r == (FetchState::Downloading, FetchAction::Download),
{
    (FetchState::Downloading, FetchAction::Download)
}

/// Advances a fetch by the outcome of its last action.
pub fn fetch_next(s: FetchState, e: FetchEvent) -> (r: (FetchState, FetchAction))
    ensures
        r == fetch_next_spec(s, e),
{
    match s {
        FetchState::Downloading => match e {
            FetchEvent::Status(code) => if code == 200 {
                (FetchState::Unpacking, FetchAction::Unpack)
            } else {
                (FetchState::Failed(FetchError::Status(code)), FetchAction::Fail(FetchError::Status(code)))
            },
            _ => (FetchState::Failed(FetchError::Transport), FetchAction::Fail(FetchError::Transport)),
        },
        FetchState::Unpacking => match e {
            FetchEvent::Succeeded => (FetchState::Clearing, FetchAction::RemoveDest),
            _ => (FetchState::Failed(FetchError::Archive), FetchAction::Fail(FetchError::Archive)),
        },
        FetchState::Clearing => match e {
            FetchEvent::Succeeded | FetchEvent::NotFound => (FetchState::Moving, FetchAction::MoveIntoDest),
            _ => (FetchState::Failed(FetchError::Filesystem), FetchAction::Fail(FetchError::Filesystem)),
        },
        FetchState::Moving => match e {
            FetchEvent::Succeeded => (FetchState::Marking, FetchAction::WriteChecksum),
            _ => (FetchState::Failed(FetchError::Archive), FetchAction::Fail(FetchError::Archive)),
        },
        FetchState::Marking => match e {
            FetchEvent::Succeeded => (FetchState::Done, FetchAction::Finish),
            _ => (FetchState::Failed(FetchError::Filesystem), FetchAction::Fail(FetchError::Filesystem)),
        },
        FetchState::Done => (FetchState::Done, FetchAction::Finish),
        FetchState::Failed(err) => (s, FetchAction::Fail(err)),
    }
}

/// The state of the destination directory, as the actions leave it.
#[derive(Clone, Copy, Debug, PartialEq, Eq, Structural)]
pub enum DestState {
    /// What was there before the fetch, if anything.
    Old,
    /// Nothing.
    Absent,
    /// The whole unpacked package.
    New,
}

/// What the completion of the action pending in state `s` does to the
/// destination: only a removal or a rename that succeeded touches it, each
/// whole; the unpacking writes into the temporary directory alone.
pub open spec fn dest_after(s: FetchState, d: DestState, e: FetchEvent) -> DestState {
    match s {
        FetchState::Clearing => if e == FetchEvent::Succeeded || e == FetchEvent::NotFound {
            DestState::Absent
        } else {
            d
        },
        FetchState::Moving => if e == FetchEvent::Succeeded {
            DestState::New
        } else {
            d
        },
        _ => d,
    }
}

/// The destination along a run of a fetch, from state `s` with
/// destination `d`, through the outcomes `events`.
pub open spec fn run_fetch(s: FetchState, d: DestState, events: Seq<FetchEvent>) -> (FetchState, DestState)
    decreases events.len(),
{
    if events.len() == 0 {
        (s, d)
    } else {
        run_fetch(fetch_next_spec(s, events[0]).0, dest_after(s, d, events[0]), events.drop_first())
    }
}

/// Whatever the outcomes, and wherever a run is cut off, the destination
/// is the old content, nothing, or the whole new package, never a partly
/// unpacked one; and it holds the new package only once the unpacking
/// into the temporary directory has succeeded.
pub proof fn lemma_fetch_replaces_whole(events: Seq<FetchEvent>)
    ensures
        ({
            let (s, d) = run_fetch(FetchState::Downloading, DestState::Old, events);
            d == DestState::New ==> (s == FetchState::Marking || s == FetchState::Done || s
                == FetchState::Failed(FetchError::Filesystem))
        }),
        ({
            let (s, d) = run_fetch(FetchState::Downloading, DestState::Old, events);
            (s == FetchState::Downloading || s == FetchState::Unpacking || s == FetchState::Clearing) ==> d
                == DestState::Old
        }),
{
    lemma_fetch_run_inv(FetchState::Downloading, DestState::Old, events);
}

/// The pairs of state and destination that a fetch can reach.
pub open spec fn fetch_inv(s: FetchState, d: DestState) -> bool {
    match s {
        FetchState::Downloading | FetchState::Unpacking | FetchState::Clearing => d == DestState::Old,
        FetchState::Moving => d == DestState::Absent,
        FetchState::Marking | FetchState::Done => d == DestState::New,
        FetchState::Failed(FetchError::Filesystem) => d == DestState::Old || d == DestState::New,
        FetchState::Failed(FetchError::Archive) => d == DestState::Old || d == DestState::Absent,
        FetchState::Failed(_) => d == DestState::Old,
    }
}

proof fn lemma_fetch_run_inv(s: FetchState, d: DestState, events: Seq<FetchEvent>)
    requires
        fetch_inv(s, d),
    ensures
        fetch_inv(run_fetch(s, d, events).0, run_fetch(s, d, events).1),
    decreases events.len(),
{
    if events.len() > 0 {
        lemma_fetch_run_inv(fetch_next_spec(s, events[0]).0, dest_after(s, d, events[0]), events.drop_first());
    }
}

/// The registry address of a package's archive.
pub open spec fn download_url_of(id: crate::manifest::PackageIdModel) -> Seq<char> {
    "https://crates.io/api/v1/crates/"@ + id.name + seq!['/'] + version_text_of(id.version) + "/download"@
}

/// The registry address of a package's archive.
pub fn download_url(id: &PackageId) -> (r: String)
    ensures
        r@ == download_url_of(id@),
{
    proof {
        reveal_strlit("/");
    }
    let mut r = String::from_str("https://crates.io/api/v1/crates/");
    r.append(id.name.as_str());
    r.append("/");
    let v = id.version.text();
    r.append(v.as_str());
    r.append("/download");
    r
}

/// The name of the one top-level directory that a package's archive holds.
pub fn archived_dir_name(id: &PackageId) -> (r: String)
    ensures
        r@ == vendor_dir_of(id@),
{
    id.vendor_dir()
}

/// The checksum manifest that records no per-file checksums.
pub fn checksum_stub() -> (r: String)
    ensures
        r@ == "{\"files\":{}}\n"@,
{
    String::from_str("{\"files\":{}}\n")
}

} // verus!
