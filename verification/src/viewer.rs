//! The viewer's shared state and every decision taken under its lock: what
//! opening a catalog or failing to open a path publishes, where navigation
//! goes, which job the decode worker runs next, and whether a finished decode
//! is still the one the user is looking at.
//!
//! The caller performs the outside work (opening the source file, asking the
//! decoder to cancel, running the decode, notifying the interface) and hands
//! the outcome back. `S` is the opened source handle.
use vstd::prelude::*;

use crate::error::ViewerError;
use crate::format::display_name;
use crate::model::{DecodedRender, MAX_DECODE_BYTES};
use crate::render_cache::{held_bytes, random_u64, token_for_draw, RenderCache, MAX_SAFE_RENDER_ID};
use crate::snapshot::{
    option_string_view, spec_empty_snapshot, spec_loading_snapshot, spec_open_error_snapshot,
    ErrorView, NavigationDirection, RenderDescriptor, RenderView, SnapshotView, ViewerSnapshot,
    ViewerStatus, PROTOCOL_VERSION,
};
use crate::text::{display_name_of, file_name, file_name_of};

verus! {

/// The successor of a generation or revision counter: it never returns to 0.
pub open spec fn next_counter(c: u64) -> u64 {
    if c == u64::MAX {
        1
    } else {
        (c + 1) as u64
    }
}

/// A counter advances by one, wraps past its maximum to 1, and never yields 0.
pub proof fn lemma_counter_advances(c: u64)
    ensures
        next_counter(c) != 0,
        c < u64::MAX ==> next_counter(c) == c + 1,
        c == u64::MAX ==> next_counter(c) == 1,
{
}

/// One navigation step from position `i` in a catalog of `len` images:
/// never past either end, never wrapping.
pub open spec fn spec_step(i: usize, len: nat, direction: NavigationDirection) -> Option<usize> {
    match direction {
        NavigationDirection::Previous => if i > 0 {
            Some((i - 1) as usize)
        } else {
            None
        },
        NavigationDirection::Next => if i + 1 < len {
            Some((i + 1) as usize)
        } else {
            None
        },
    }
}

/// Navigation stays inside the catalog, stops only at its ends, and a step
/// in one direction is undone by a step in the other.
pub proof fn lemma_navigation_steps_are_inverse(i: usize, len: nat)
    requires
        i < len <= usize::MAX,
    ensures
        spec_step(i, len, NavigationDirection::Next) matches Some(j) ==> j < len && spec_step(
            j,
            len,
            NavigationDirection::Previous,
        ) == Some(i),
        spec_step(i, len, NavigationDirection::Previous) matches Some(j) ==> j < len && spec_step(
            j,
            len,
            NavigationDirection::Next,
        ) == Some(i),
        spec_step(i, len, NavigationDirection::Previous) is None <==> i == 0,
        spec_step(i, len, NavigationDirection::Next) is None <==> i + 1 == len,
{
}

pub fn advance_counter(c: u64) -> (r: u64)
    ensures
        r == next_counter(c),
{
    let n = c.wrapping_add(1);
    if n == 0 {
        1
    } else {
        n
    }
}

/// A decode scheduled for one generation: the catalog path and the source
/// opened when it was scheduled (or why it could not be opened).
#[derive(Debug)]
pub struct DecodeJob<S> {
    pub generation: u64,
    pub path: String,
    pub source: Result<S, ViewerError>,
}

/// What the decode worker does next.
#[derive(Debug)]
pub enum WorkerStep<S> {
    /// Shutdown was requested: leave the loop.
    Stop,
    /// Nothing is pending: wait for a wake-up.
    Wait,
    /// Decode this job.
    Run(DecodeJob<S>),
}

/// What became of a finished decode.
#[derive(Debug)]
pub enum Publication {
    /// Shutdown was requested meanwhile: nothing is published.
    Stopped,
    /// A newer selection won the race: the result is dropped unseen.
    Superseded,
    /// The result became the current snapshot.
    Published(ViewerSnapshot),
}

/// The snapshot after a finished decode: the same image, a new revision and
/// the decode's outcome.
pub open spec fn spec_settled(s: SnapshotView, revision: u64, status: ViewerStatus, render: Option<RenderView>, error: Option<ErrorView>) -> SnapshotView {
    SnapshotView { revision, status, render, error, ..s }
}

/// The error the render cache gives when a render would exceed its limit.
pub open spec fn spec_cache_limit_error() -> ErrorView {
    ErrorView {
        code: crate::code::CACHE_LIMIT_EXCEEDED@,
        message: "轉譯快取超過 512 MiB 上限。"@,
        parameters: map!["maxBytes"@ => MAX_DECODE_BYTES],
    }
}

/// The error published when no random render token could be drawn.
pub open spec fn spec_token_source_error() -> ErrorView {
    ErrorView {
        code: crate::code::IO_ERROR@,
        message: crate::render_cache::TOKEN_SOURCE_MESSAGE@,
        parameters: Map::<Seq<char>, u64>::empty(),
    }
}

#[derive(Debug)]
pub struct ViewerState<S> {
    generation: u64,
    revision: u64,
    files: Vec<String>,
    index: Option<usize>,
    snapshot: ViewerSnapshot,
    pending: Option<DecodeJob<S>>,
    renders: RenderCache,
    shutdown_requested: bool,
}

impl<S> ViewerState<S> {
    /// The generation: advanced whenever the selection changes.
    pub closed spec fn generation(&self) -> u64 {
        self.generation
    }

    /// The revision: advanced whenever a new snapshot is published.
    pub closed spec fn revision(&self) -> u64 {
        self.revision
    }

    /// The catalog, in display order.
    pub closed spec fn files(&self) -> Seq<Seq<char>> {
        self.files@.map_values(|f: String| f@)
    }

    /// The position of the selected image in the catalog.
    pub closed spec fn index(&self) -> Option<usize> {
        self.index
    }

    /// The current snapshot.
    pub closed spec fn snapshot(&self) -> SnapshotView {
        self.snapshot@
    }

    /// The job waiting for the decode worker.
    pub closed spec fn pending(&self) -> Option<DecodeJob<S>> {
        self.pending
    }

    /// The unread renders, by token.
    pub closed spec fn renders(&self) -> Map<u64, Seq<u8>> {
        self.renders.spec_entries()
    }

    /// The bytes held by unread renders.
    pub closed spec fn render_bytes(&self) -> u64 {
        self.renders.spec_used()
    }

    pub closed spec fn shutdown_requested(&self) -> bool {
        self.shutdown_requested
    }

    /// The render cache keeps its own invariant and the viewer's byte limit.
    pub closed spec fn cache_wf(&self) -> bool {
        &&& self.renders.wf()
        &&& self.renders.spec_limit() == MAX_DECODE_BYTES
    }

    /// The state's invariant: the accounted render bytes are exactly the
    /// bytes of the unread renders, the selection lies inside the catalog, the
    /// snapshot describes the current generation, revision and selection,
    /// and a pending job always belongs to the current generation and the
    /// selected file.
    pub open spec fn inv(&self) -> bool {
        &&& self.cache_wf()
        &&& self.render_bytes() == held_bytes(self.renders())
        &&& self.index() matches Some(i) ==> i < self.files().len()
        &&& self.snapshot().protocol_version == PROTOCOL_VERSION
        &&& self.snapshot().generation == self.generation()
        &&& self.snapshot().revision == self.revision()
        &&& self.snapshot().index == self.index()
        &&& self.snapshot().total == self.files().len()
        &&& self.snapshot().can_previous == (self.index() matches Some(i) && i > 0)
        &&& self.snapshot().can_next == (self.index() matches Some(i) && i + 1 < self.files().len())
        &&& self.index() matches Some(i) ==> self.snapshot().file_name == Some(
            display_name_of(self.files()[i as int]),
        )
        &&& self.pending() matches Some(job) ==> {
            &&& job.generation == self.generation()
            &&& self.index() matches Some(i) && job.path@ == self.files()[i as int]
        }
    }

    /// The path of the selected image, if any.
    pub open spec fn selected(&self) -> Option<Seq<char>> {
        match self.index() {
            Some(i) => Some(self.files()[i as int]),
            None => None,
        }
    }

    /// Where a navigation step goes, if anywhere: one step within the
    /// catalog, never wrapping, and nowhere once shutdown was requested.
    pub open spec fn navigation_target(&self, direction: NavigationDirection) -> Option<usize> {
        if self.shutdown_requested() {
            None
        } else {
            match self.index() {
                None => None,
                Some(i) => spec_step(i, self.files().len(), direction),
            }
        }
    }

    /// Whether a finished decode of `path` for `generation` still shows.
    pub open spec fn spec_is_current(&self, generation: u64, path: Seq<char>) -> bool {
        &&& !self.shutdown_requested()
        &&& self.generation() == generation
        &&& self.selected() == Some(path)
    }

    /// A state with an empty catalog and an empty snapshot.
    pub fn new() -> (s: Self)
        ensures
            s.inv(),
            s.generation() == 0,
            s.revision() == 0,
            s.files() == Seq::<Seq<char>>::empty(),
            s.index() is None,
            s.snapshot() == spec_empty_snapshot(),
            s.pending() is None,
            s.renders() == Map::<u64, Seq<u8>>::empty(),
            !s.shutdown_requested(),
    {
        let s = ViewerState {
            generation: 0,
            revision: 0,
            files: Vec::new(),
            index: None,
            snapshot: ViewerSnapshot::empty(),
            pending: None,
            renders: RenderCache::new(MAX_DECODE_BYTES),
            shutdown_requested: false,
        };
        assert(s.files() =~= Seq::<Seq<char>>::empty());
        s
    }

    fn next_generation(&mut self) -> (g: u64)
        ensures
            g == next_counter(old(self).generation),
            *final(self) == (ViewerState { generation: g, ..*old(self) }),
    {
        self.generation = advance_counter(self.generation);
        self.generation
    }

    fn next_revision(&mut self) -> (r: u64)
        ensures
            r == next_counter(old(self).revision),
            *final(self) == (ViewerState { revision: r, ..*old(self) }),
    {
        self.revision = advance_counter(self.revision);
        self.revision
    }

    /// Starts decoding the selected image: a new generation and revision, no
    /// unread renders, a loading snapshot, and `source` as the one pending
    /// job (replacing any job not yet started).
    fn schedule_current(&mut self, source: Result<S, ViewerError>) -> (snapshot: ViewerSnapshot)
        requires
            old(self).inv(),
            old(self).index() is Some,
        ensures
            final(self).inv(),
            final(self).generation() == next_counter(old(self).generation()),
            final(self).revision() == next_counter(old(self).revision()),
            final(self).files() == old(self).files(),
            final(self).index() == old(self).index(),
            final(self).renders() == Map::<u64, Seq<u8>>::empty(),
            final(self).render_bytes() == 0,
            final(self).snapshot() == spec_loading_snapshot(
                final(self).generation(),
                final(self).revision(),
                old(self).index().unwrap(),
                old(self).files().len() as usize,
                display_name_of(old(self).files()[old(self).index().unwrap() as int]),
            ),
            final(self).pending() matches Some(job) && job.generation == final(self).generation()
                && job.path@ == old(self).files()[old(self).index().unwrap() as int] && job.source == source,
            final(self).shutdown_requested() == old(self).shutdown_requested(),
            snapshot@ == final(self).snapshot(),
    {
        let index = match self.index {
            Some(i) => i,
            None => 0,
        };
        let path = self.files[index].clone();
        let generation = self.next_generation();
        let revision = self.next_revision();
        self.renders.clear();
        self.snapshot = ViewerSnapshot::loading(generation, revision, index, self.files.len(), display_name(&path));
        self.pending = Some(DecodeJob { generation, path, source });
        self.snapshot.copy()
    }

    /// The path of the selected image.
    pub fn selected_path(&self) -> (r: Option<&str>)
        requires
            self.inv(),
        ensures
            match r {
                Some(p) => self.selected() == Some(p@),
                None => self.selected() is None,
            },
    {
        match self.index {
            Some(i) => Some(self.files[i].as_str()),
            None => None,
        }
    }

    /// The catalog entry at `index`, if there is one.
    pub fn file_at(&self, index: usize) -> (r: Option<&str>)
        ensures
            match r {
                Some(p) => index < self.files().len() && p@ == self.files()[index as int],
                None => index >= self.files().len(),
            },
    {
        if index < self.files.len() {
            Some(self.files[index].as_str())
        } else {
            None
        }
    }

    /// Opens a new catalog with `index` selected and schedules its decode;
    /// after shutdown the state stays as it is.
    pub fn open_catalog(&mut self, files: Vec<String>, index: usize, source: Result<S, ViewerError>) -> (snapshot: ViewerSnapshot)
        requires
            old(self).inv(),
            index < files@.len(),
        ensures
            final(self).inv(),
            old(self).shutdown_requested() ==> *final(self) == *old(self) && snapshot@ == old(self).snapshot(),
            !old(self).shutdown_requested() ==> {
                &&& final(self).files() == files@.map_values(|f: String| f@)
                &&& final(self).index() == Some(index)
                &&& final(self).generation() == next_counter(old(self).generation())
                &&& final(self).revision() == next_counter(old(self).revision())
                &&& final(self).renders() == Map::<u64, Seq<u8>>::empty()
                &&& final(self).snapshot() == spec_loading_snapshot(
                    final(self).generation(),
                    final(self).revision(),
                    index,
                    files@.len() as usize,
                    display_name_of(files@[index as int]@),
                )
                &&& final(self).pending() matches Some(job) && job.generation == final(self).generation()
                    && job.path@ == files@[index as int]@ && job.source == source
                &&& final(self).snapshot().status == ViewerStatus::Loading
                &&& final(self).snapshot().render is None
                &&& final(self).snapshot().error is None
                &&& !final(self).shutdown_requested()
                &&& snapshot@ == final(self).snapshot()
            },
    {
        if self.shutdown_requested {
            return self.snapshot.copy();
        }
        let ghost before = *self;
        self.files = files;
        self.index = Some(index);
        proof {
            assert(self.files() =~= files@.map_values(|f: String| f@));
        }
        // The snapshot still describes the previous catalog until the
        // schedule below replaces it; only the fields it reads matter here.
        self.snapshot = ViewerSnapshot::loading(
            self.generation,
            self.revision,
            index,
            self.files.len(),
            display_name(self.files[index].as_str()),
        );
        self.pending = None;
        self.schedule_current(source)
    }

    /// Publishes that `path` could not be opened: a new generation and
    /// revision, no catalog, no pending job and no unread renders. After
    /// shutdown the state stays as it is.
    pub fn open_failed(&mut self, path: &str, error: ViewerError) -> (snapshot: ViewerSnapshot)
        requires
            old(self).inv(),
        ensures
            final(self).inv(),
            old(self).shutdown_requested() ==> *final(self) == *old(self) && snapshot@ == old(self).snapshot(),
            !old(self).shutdown_requested() ==> {
                &&& final(self).generation() == next_counter(old(self).generation())
                &&& final(self).revision() == next_counter(old(self).revision())
                &&& final(self).files() == Seq::<Seq<char>>::empty()
                &&& final(self).index() is None
                &&& final(self).pending() is None
                &&& final(self).renders() == Map::<u64, Seq<u8>>::empty()
                &&& final(self).snapshot() == spec_open_error_snapshot(
                    final(self).generation(),
                    final(self).revision(),
                    file_name_of(path@),
                    error@,
                )
                &&& !final(self).shutdown_requested()
                &&& snapshot@ == final(self).snapshot()
            },
    {
        if self.shutdown_requested {
            return self.snapshot.copy();
        }
        let generation = self.next_generation();
        let revision = self.next_revision();
        self.files.clear();
        self.index = None;
        self.pending = None;
        self.renders.clear();
        self.snapshot = ViewerSnapshot::open_error(generation, revision, file_name(path), error);
        proof {
            assert(self.files() =~= Seq::<Seq<char>>::empty());
        }
        self.snapshot.copy()
    }

    /// Where a navigation step would go; `None` leaves everything as it is.
    pub fn plan_navigation(&self, direction: NavigationDirection) -> (r: Option<usize>)
        requires
            self.inv(),
        ensures
            r == self.navigation_target(direction),
    {
        if self.shutdown_requested {
            return None;
        }
        match self.index {
            None => None,
            Some(current) => match direction {
                NavigationDirection::Previous => if current > 0 {
                    Some(current - 1)
                } else {
                    None
                },
                NavigationDirection::Next => if current + 1 < self.files.len() {
                    Some(current + 1)
                } else {
                    None
                },
            },
        }
    }

    /// Selects catalog entry `target` and schedules its decode from `source`.
    pub fn navigate_to(&mut self, target: usize, source: Result<S, ViewerError>) -> (snapshot: ViewerSnapshot)
        requires
            old(self).inv(),
            target < old(self).files().len(),
        ensures
            final(self).inv(),
            final(self).index() == Some(target),
            final(self).files() == old(self).files(),
            final(self).generation() == next_counter(old(self).generation()),
            final(self).revision() == next_counter(old(self).revision()),
            final(self).renders() == Map::<u64, Seq<u8>>::empty(),
            final(self).snapshot() == spec_loading_snapshot(
                final(self).generation(),
                final(self).revision(),
                target,
                old(self).files().len() as usize,
                display_name_of(old(self).files()[target as int]),
            ),
            final(self).pending() matches Some(job) && job.generation == final(self).generation()
                && job.path@ == old(self).files()[target as int] && job.source == source,
            final(self).snapshot().status == ViewerStatus::Loading,
            final(self).snapshot().render is None,
            final(self).snapshot().error is None,
            final(self).shutdown_requested() == old(self).shutdown_requested(),
            snapshot@ == final(self).snapshot(),
    {
        self.index = Some(target);
        self.snapshot = ViewerSnapshot::loading(
            self.generation,
            self.revision,
            target,
            self.files.len(),
            display_name(self.files[target].as_str()),
        );
        self.pending = None;
        self.schedule_current(source)
    }

    /// The worker's next step: stop after shutdown, wait while nothing is
    /// pending, otherwise take the pending job out of the state.
    pub fn take_pending(&mut self) -> (step: WorkerStep<S>)
        requires
            old(self).inv(),
        ensures
            final(self).inv(),
            old(self).shutdown_requested() ==> step is Stop && *final(self) == *old(self),
            !old(self).shutdown_requested() && old(self).pending() is None ==> step is Wait && *final(self)
                == *old(self),
            !old(self).shutdown_requested() && old(self).pending() is Some ==> {
                &&& step matches WorkerStep::Run(job) && old(self).pending() == Some(job)
                &&& final(self).pending() is None
                &&& final(self).generation() == old(self).generation()
                &&& final(self).revision() == old(self).revision()
                &&& final(self).files() == old(self).files()
                &&& final(self).index() == old(self).index()
                &&& final(self).snapshot() == old(self).snapshot()
                &&& final(self).renders() == old(self).renders()
                &&& final(self).render_bytes() == old(self).render_bytes()
                &&& final(self).shutdown_requested() == old(self).shutdown_requested()
            },
    {
        if self.shutdown_requested {
            return WorkerStep::Stop;
        }
        match self.pending.take() {
            None => WorkerStep::Wait,
            Some(job) => WorkerStep::Run(job),
        }
    }

    /// Whether a decode of `path` for `generation` still belongs to the
    /// current selection.
    pub fn is_current(&self, generation: u64, path: &str) -> (b: bool)
        requires
            self.inv(),
        ensures
            b == self.spec_is_current(generation, path@),
    {
        if self.shutdown_requested || self.generation != generation {
            return false;
        }
        match self.selected_path() {
            Some(selected) => crate::text::str_eq(selected, path),
            None => false,
        }
    }

    /// Publishes a finished decode of `path` for `generation` with the
    /// random draw `draw` for its render token, unless shutdown was requested
    /// or the selection moved on meanwhile; then the state stays exactly as
    /// it was. Without a draw a decoded image is published as an error.
    pub fn publish_drawn(
        &mut self,
        generation: u64,
        path: &str,
        result: Result<DecodedRender, ViewerError>,
        draw: Option<u64>,
    ) -> (p: Publication)
        requires
            old(self).inv(),
            old(self).renders().len() + 1 < MAX_SAFE_RENDER_ID,
        ensures
            final(self).inv(),
            old(self).shutdown_requested() ==> p is Stopped && *final(self) == *old(self),
            !old(self).shutdown_requested() && !old(self).spec_is_current(generation, path@) ==> p is Superseded
                && *final(self) == *old(self),
            old(self).spec_is_current(generation, path@) ==> {
                &&& final(self).generation() == old(self).generation()
                &&& final(self).revision() == next_counter(old(self).revision())
                &&& final(self).files() == old(self).files()
                &&& final(self).index() == old(self).index()
                &&& final(self).pending() == old(self).pending()
                &&& !final(self).shutdown_requested()
                &&& p matches Publication::Published(s) && s@ == final(self).snapshot()
                &&& match result {
                    Ok(decoded) => if old(self).render_bytes() + decoded.bytes@.len() <= MAX_DECODE_BYTES {
                        match draw {
                        None => {
                        &&& final(self).renders() == old(self).renders()
                        &&& final(self).render_bytes() == old(self).render_bytes()
                        &&& final(self).snapshot() == spec_settled(
                            old(self).snapshot(),
                            final(self).revision(),
                            ViewerStatus::Error,
                            None,
                            Some(spec_token_source_error()),
                        )
                        },
                        Some(raw) => {
                        &&& final(self).snapshot().render matches Some(render)
                        &&& token_for_draw(old(self).renders(), raw, render.render_id)
                        &&& final(self).renders() == old(self).renders().insert(render.render_id, decoded.bytes@)
                        &&& final(self).render_bytes() == old(self).render_bytes() + decoded.bytes@.len()
                        &&& final(self).snapshot() == spec_settled(
                            old(self).snapshot(),
                            final(self).revision(),
                            ViewerStatus::Ready,
                            Some(
                                RenderView {
                                    render_id: render.render_id,
                                    mime_type: decoded.mime_type@,
                                    width: decoded.width,
                                    height: decoded.height,
                                    animated: decoded.animated,
                                },
                            ),
                            None,
                        )
                        },
                        }
                    } else {
                        &&& final(self).renders() == old(self).renders()
                        &&& final(self).render_bytes() == old(self).render_bytes()
                        &&& final(self).snapshot() == spec_settled(
                            old(self).snapshot(),
                            final(self).revision(),
                            ViewerStatus::Error,
                            None,
                            Some(spec_cache_limit_error()),
                        )
                    },
                    Err(error) => {
                        &&& final(self).renders() == Map::<u64, Seq<u8>>::empty()
                        &&& final(self).render_bytes() == 0
                        &&& final(self).snapshot() == spec_settled(
                            old(self).snapshot(),
                            final(self).revision(),
                            ViewerStatus::Error,
                            None,
                            Some(error@),
                        )
                    },
                }
            },
    {
        if self.shutdown_requested {
            return Publication::Stopped;
        }
        if !self.is_current(generation, path) {
            return Publication::Superseded;
        }
        let revision = self.next_revision();
        self.snapshot.revision = revision;
        match result {
            Ok(decoded) => {
                let DecodedRender { bytes, mime_type, width, height, animated } = decoded;
                match self.renders.insert_drawn(bytes, draw) {
                    Ok(render_id) => {
                        self.snapshot.status = ViewerStatus::Ready;
                        self.snapshot.render = Some(
                            RenderDescriptor { render_id, mime_type: mime_type.to_owned(), width, height, animated },
                        );
                        self.snapshot.error = None;
                    },
                    Err(error) => {
                        self.snapshot.status = ViewerStatus::Error;
                        self.snapshot.render = None;
                        self.snapshot.error = Some(error);
                    },
                }
            },
            Err(error) => {
                self.renders.clear();
                self.snapshot.status = ViewerStatus::Error;
                self.snapshot.render = None;
                self.snapshot.error = Some(error);
            },
        }
        Publication::Published(self.snapshot.copy())
    }

    /// Publishes a finished decode of `path` for `generation`, unless
    /// shutdown was requested or the selection moved on meanwhile; then the
    /// state stays exactly as it was.
    pub fn publish_result(&mut self, generation: u64, path: &str, result: Result<DecodedRender, ViewerError>) -> (p: Publication)
        requires
            old(self).inv(),
            old(self).renders().len() + 1 < MAX_SAFE_RENDER_ID,
        ensures
            final(self).inv(),
            old(self).shutdown_requested() ==> p is Stopped && *final(self) == *old(self),
            !old(self).shutdown_requested() && !old(self).spec_is_current(generation, path@) ==> p is Superseded
                && *final(self) == *old(self),
            old(self).spec_is_current(generation, path@) ==> {
                &&& final(self).generation() == old(self).generation()
                &&& final(self).revision() == next_counter(old(self).revision())
                &&& final(self).files() == old(self).files()
                &&& final(self).index() == old(self).index()
                &&& final(self).pending() == old(self).pending()
                &&& !final(self).shutdown_requested()
                &&& p matches Publication::Published(s) && s@ == final(self).snapshot()
                &&& match result {
                    Ok(decoded) => if old(self).render_bytes() + decoded.bytes@.len() <= MAX_DECODE_BYTES {
                        ||| {
                        &&& final(self).renders() == old(self).renders()
                        &&& final(self).render_bytes() == old(self).render_bytes()
                        &&& final(self).snapshot() == spec_settled(
                            old(self).snapshot(),
                            final(self).revision(),
                            ViewerStatus::Error,
                            None,
                            Some(spec_token_source_error()),
                        )
                        }
                        ||| {
                        &&& final(self).snapshot().render matches Some(render)
                        &&& 1 <= render.render_id <= MAX_SAFE_RENDER_ID
                        &&& !old(self).renders().contains_key(render.render_id)
                        &&& final(self).renders() == old(self).renders().insert(render.render_id, decoded.bytes@)
                        &&& final(self).render_bytes() == old(self).render_bytes() + decoded.bytes@.len()
                        &&& final(self).snapshot() == spec_settled(
                            old(self).snapshot(),
                            final(self).revision(),
                            ViewerStatus::Ready,
                            Some(
                                RenderView {
                                    render_id: render.render_id,
                                    mime_type: decoded.mime_type@,
                                    width: decoded.width,
                                    height: decoded.height,
                                    animated: decoded.animated,
                                },
                            ),
                            None,
                        )
                        }
                    } else {
                        &&& final(self).renders() == old(self).renders()
                        &&& final(self).render_bytes() == old(self).render_bytes()
                        &&& final(self).snapshot() == spec_settled(
                            old(self).snapshot(),
                            final(self).revision(),
                            ViewerStatus::Error,
                            None,
                            Some(spec_cache_limit_error()),
                        )
                    },
                    Err(error) => {
                        &&& final(self).renders() == Map::<u64, Seq<u8>>::empty()
                        &&& final(self).render_bytes() == 0
                        &&& final(self).snapshot() == spec_settled(
                            old(self).snapshot(),
                            final(self).revision(),
                            ViewerStatus::Error,
                            None,
                            Some(error@),
                        )
                    },
                }
            },
    {
        let draw = if result.is_ok() && self.is_current(generation, path) {
            random_u64()
        } else {
            None
        };
        self.publish_drawn(generation, path, result, draw)
    }

    /// A copy of the current snapshot.
    pub fn current_snapshot(&self) -> (s: ViewerSnapshot)
        ensures
            s@ == self.snapshot(),
    {
        self.snapshot.copy()
    }

    /// Hands out the unread render of a token once.
    pub fn take_render(&mut self, render_id: u64) -> (r: Option<Vec<u8>>)
        requires
            old(self).inv(),
        ensures
            final(self).inv(),
            match r {
                Some(bytes) => {
                    &&& old(self).renders().contains_key(render_id)
                    &&& bytes@ == old(self).renders()[render_id]
                    &&& final(self).renders() == old(self).renders().remove(render_id)
                    &&& final(self).render_bytes() == old(self).render_bytes() - bytes@.len()
                },
                None => {
                    &&& !old(self).renders().contains_key(render_id)
                    &&& final(self).renders() == old(self).renders()
                    &&& final(self).render_bytes() == old(self).render_bytes()
                },
            },
            final(self).generation() == old(self).generation(),
            final(self).revision() == old(self).revision(),
            final(self).files() == old(self).files(),
            final(self).index() == old(self).index(),
            final(self).snapshot() == old(self).snapshot(),
            final(self).pending() == old(self).pending(),
            final(self).shutdown_requested() == old(self).shutdown_requested(),
    {
        self.renders.take(render_id)
    }

    /// Marks shutdown: the pending job and every unread render are dropped.
    /// Tells whether this was the first request, the one that stops the
    /// decoder.
    pub fn request_shutdown(&mut self) -> (first: bool)
        requires
            old(self).inv(),
        ensures
            first == !old(self).shutdown_requested(),
            final(self).inv(),
            final(self).shutdown_requested(),
            final(self).pending() is None,
            final(self).renders() == Map::<u64, Seq<u8>>::empty(),
            final(self).generation() == old(self).generation(),
            final(self).revision() == old(self).revision(),
            final(self).files() == old(self).files(),
            final(self).index() == old(self).index(),
            final(self).snapshot() == old(self).snapshot(),
    {
        let first = !self.shutdown_requested;
        self.shutdown_requested = true;
        self.pending = None;
        self.renders.clear();
        first
    }

    pub fn is_shutdown_requested(&self) -> (b: bool)
        ensures
            b == self.shutdown_requested(),
    {
        self.shutdown_requested
    }

    /// The number of unread renders.
    pub fn render_count(&self) -> (n: usize)
        ensures
            n == self.renders().len(),
    {
        self.renders.len()
    }

    /// The bytes held by unread renders.
    pub fn render_bytes_used(&self) -> (n: u64)
        ensures
            n == self.render_bytes(),
    {
        self.renders.used()
    }
}

} // verus!
