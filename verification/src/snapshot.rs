//! The versioned snapshot the viewer publishes to its user interface.
use vstd::prelude::*;

use crate::error::ViewerError;

verus! {

/// The version of the snapshot wire contract.
pub const PROTOCOL_VERSION: u32 = 1;

#[derive(Clone, Copy, Debug, PartialEq, Eq, Structural)]
pub enum NavigationDirection {
    Previous,
    Next,
}

#[derive(Clone, Copy, Debug, PartialEq, Eq, Structural)]
pub enum ViewerStatus {
    Empty,
    Loading,
    Ready,
    Error,
}

/// The content of an error: code, message and parameter map.
pub struct ErrorView {
    pub code: Seq<char>,
    pub message: Seq<char>,
    pub parameters: Map<Seq<char>, u64>,
}

impl View for ViewerError {
    type V = ErrorView;

    open spec fn view(&self) -> ErrorView {
        ErrorView { code: self.code@, message: self.message@, parameters: self.parameters_view() }
    }
}

/// A copy of an error with the same code, message and parameters.
pub fn copy_error(error: &ViewerError) -> (r: ViewerError)
    ensures
        r@ == error@,
        r.parameters@.len() == error.parameters@.len(),
{
    let mut parameters: Vec<(String, u64)> = Vec::new();
    let mut i: usize = 0;
    while i < error.parameters.len()
        invariant
            i <= error.parameters@.len(),
            parameters@.len() == i,
            forall|j: int| 0 <= j < i ==> #[trigger] parameters@[j].0@ == error.parameters@[j].0@
                && parameters@[j].1 == error.parameters@[j].1,
        decreases error.parameters.len() - i,
    {
        let key = error.parameters[i].0.clone();
        parameters.push((key, error.parameters[i].1));
        i = i + 1;
    }
    proof {
        lemma_parameter_map_congruent(parameters@, error.parameters@);
    }
    ViewerError { code: error.code.clone(), message: error.message.clone(), parameters }
}

/// Entry lists with the same keys and values describe the same map.
proof fn lemma_parameter_map_congruent(a: Seq<(String, u64)>, b: Seq<(String, u64)>)
    requires
        a.len() == b.len(),
        forall|j: int| 0 <= j < a.len() ==> #[trigger] a[j].0@ == b[j].0@ && a[j].1 == b[j].1,
    ensures
        crate::error::parameter_map(a) == crate::error::parameter_map(b),
    decreases a.len(),
{
    if a.len() > 0 {
        lemma_parameter_map_congruent(a.drop_last(), b.drop_last());
    }
}

#[derive(Debug)]
pub struct RenderDescriptor {
    pub render_id: u64,
    pub mime_type: String,
    pub width: u32,
    pub height: u32,
    pub animated: bool,
}

pub struct RenderView {
    pub render_id: u64,
    pub mime_type: Seq<char>,
    pub width: u32,
    pub height: u32,
    pub animated: bool,
}

impl View for RenderDescriptor {
    type V = RenderView;

    open spec fn view(&self) -> RenderView {
        RenderView {
            render_id: self.render_id,
            mime_type: self.mime_type@,
            width: self.width,
            height: self.height,
            animated: self.animated,
        }
    }
}

impl RenderDescriptor {
    pub fn copy(&self) -> (r: Self)
        ensures
            r@ == self@,
    {
        RenderDescriptor {
            render_id: self.render_id,
            mime_type: self.mime_type.clone(),
            width: self.width,
            height: self.height,
            animated: self.animated,
        }
    }
}

/// Everything the interface shows: which image of how many, whether it is
/// loading, ready (with a one-time render token) or failed.
#[derive(Debug)]
pub struct ViewerSnapshot {
    pub protocol_version: u32,
    pub revision: u64,
    pub generation: u64,
    pub status: ViewerStatus,
    pub index: Option<usize>,
    pub total: usize,
    pub file_name: Option<String>,
    pub can_previous: bool,
    pub can_next: bool,
    pub render: Option<RenderDescriptor>,
    pub error: Option<ViewerError>,
}

pub struct SnapshotView {
    pub protocol_version: u32,
    pub revision: u64,
    pub generation: u64,
    pub status: ViewerStatus,
    pub index: Option<usize>,
    pub total: usize,
    pub file_name: Option<Seq<char>>,
    pub can_previous: bool,
    pub can_next: bool,
    pub render: Option<RenderView>,
    pub error: Option<ErrorView>,
}

pub open spec fn option_string_view(s: Option<String>) -> Option<Seq<char>> {
    match s {
        Some(s) => Some(s@),
        None => None,
    }
}

impl View for ViewerSnapshot {
    type V = SnapshotView;

    open spec fn view(&self) -> SnapshotView {
        SnapshotView {
            protocol_version: self.protocol_version,
            revision: self.revision,
            generation: self.generation,
            status: self.status,
            index: self.index,
            total: self.total,
            file_name: option_string_view(self.file_name),
            can_previous: self.can_previous,
            can_next: self.can_next,
            render: match self.render {
                Some(r) => Some(r@),
                None => None,
            },
            error: match self.error {
                Some(e) => Some(e@),
                None => None,
            },
        }
    }
}

fn copy_option_string(s: &Option<String>) -> (r: Option<String>)
    ensures
        option_string_view(r) == option_string_view(*s),
{
    match s {
        Some(s) => Some(s.clone()),
        None => None,
    }
}

/// The snapshot before anything was opened.
pub open spec fn spec_empty_snapshot() -> SnapshotView {
    SnapshotView {
        protocol_version: PROTOCOL_VERSION,
        revision: 0,
        generation: 0,
        status: ViewerStatus::Empty,
        index: None,
        total: 0,
        file_name: None,
        can_previous: false,
        can_next: false,
        render: None,
        error: None,
    }
}

/// The snapshot of image `index` of `total` while it decodes.
pub open spec fn spec_loading_snapshot(generation: u64, revision: u64, index: usize, total: usize, file_name: Seq<char>) -> SnapshotView {
    SnapshotView {
        protocol_version: PROTOCOL_VERSION,
        revision,
        generation,
        status: ViewerStatus::Loading,
        index: Some(index),
        total,
        file_name: Some(file_name),
        can_previous: index > 0,
        can_next: index + 1 < total,
        render: None,
        error: None,
    }
}

/// While a selection decodes, its snapshot says Loading and holds neither a
/// render nor an error, at the selected position of the catalog.
pub proof fn lemma_decoding_selection_is_loading(generation: u64, revision: u64, index: usize, total: usize, file_name: Seq<char>)
    ensures
        spec_loading_snapshot(generation, revision, index, total, file_name).status == ViewerStatus::Loading,
        spec_loading_snapshot(generation, revision, index, total, file_name).render is None,
        spec_loading_snapshot(generation, revision, index, total, file_name).error is None,
        spec_loading_snapshot(generation, revision, index, total, file_name).index == Some(index),
        spec_loading_snapshot(generation, revision, index, total, file_name).generation == generation,
{
}

/// The snapshot of a path that could not be opened: no catalog, no position.
pub open spec fn spec_open_error_snapshot(generation: u64, revision: u64, file_name: Option<Seq<char>>, error: ErrorView) -> SnapshotView {
    SnapshotView {
        protocol_version: PROTOCOL_VERSION,
        revision,
        generation,
        status: ViewerStatus::Error,
        index: None,
        total: 0,
        file_name,
        can_previous: false,
        can_next: false,
        render: None,
        error: Some(error),
    }
}

impl ViewerSnapshot {
    /// An equal snapshot, for publishing while the state keeps its own.
    pub fn copy(&self) -> (r: Self)
        ensures
            r@ == self@,
    {
        ViewerSnapshot {
            protocol_version: self.protocol_version,
            revision: self.revision,
            generation: self.generation,
            status: self.status,
            index: self.index,
            total: self.total,
            file_name: copy_option_string(&self.file_name),
            can_previous: self.can_previous,
            can_next: self.can_next,
            render: match &self.render {
                Some(render) => Some(render.copy()),
                None => None,
            },
            error: match &self.error {
                Some(error) => Some(copy_error(error)),
                None => None,
            },
        }
    }

    pub fn empty() -> (s: Self)
        ensures
            s@ == spec_empty_snapshot(),
    {
        ViewerSnapshot {
            protocol_version: PROTOCOL_VERSION,
            revision: 0,
            generation: 0,
            status: ViewerStatus::Empty,
            index: None,
            total: 0,
            file_name: None,
            can_previous: false,
            can_next: false,
            render: None,
            error: None,
        }
    }

    pub fn loading(generation: u64, revision: u64, index: usize, total: usize, file_name: String) -> (s: Self)
        requires
            index < usize::MAX,
        ensures
            s@ == spec_loading_snapshot(generation, revision, index, total, file_name@),
            s.status == ViewerStatus::Loading,
            s.render is None,
            s.error is None,
    {
        ViewerSnapshot {
            protocol_version: PROTOCOL_VERSION,
            revision,
            generation,
            status: ViewerStatus::Loading,
            index: Some(index),
            total,
            file_name: Some(file_name),
            can_previous: index > 0,
            can_next: index + 1 < total,
            render: None,
            error: None,
        }
    }

    pub fn open_error(generation: u64, revision: u64, file_name: Option<String>, error: ViewerError) -> (s: Self)
        ensures
            s@ == spec_open_error_snapshot(generation, revision, option_string_view(file_name), error@),
    {
        ViewerSnapshot {
            protocol_version: PROTOCOL_VERSION,
            revision,
            generation,
            status: ViewerStatus::Error,
            index: None,
            total: 0,
            file_name,
            can_previous: false,
            can_next: false,
            render: None,
            error: Some(error),
        }
    }
}

} // verus!
