//! What passes between the controller and the tasks around it.

use vstd::prelude::*;
use crate::item::{item_views, ItemView, SearchItem};
use crate::scope::{string_views, IndexBackend, SearchScope};
use crate::search_worker::SearchWorkerMessage;

verus! {

/// The phase of an index job.
#[derive(Debug, Clone, Copy, PartialEq, Eq, Structural)]
pub enum IndexPhase {
    Snapshot,
    Index,
    Write,
    Live,
    Done,
}

impl IndexPhase {
    pub open spec fn label_text(self) -> Seq<char> {
        match self {
            IndexPhase::Snapshot => "snapshot"@,
            IndexPhase::Index => "index"@,
            IndexPhase::Write => "write"@,
            IndexPhase::Live => "live"@,
            IndexPhase::Done => "done"@,
        }
    }

    pub fn label(self) -> (r: &'static str)
        ensures
            r@ == self.label_text(),
    {
        match self {
            IndexPhase::Snapshot => "snapshot",
            IndexPhase::Index => "index",
            IndexPhase::Write => "write",
            IndexPhase::Live => "live",
            IndexPhase::Done => "done",
        }
    }
}

/// What an index job reports.
pub enum IndexEvent {
    SnapshotLoaded { job_id: u64, items: Vec<SearchItem> },
    Progress { job_id: u64, current: usize, total: usize, phase: IndexPhase },
    Done { job_id: u64, items: Vec<SearchItem>, backend: IndexBackend },
    Delta { job_id: u64, upserts: Vec<SearchItem>, deleted_paths: Vec<String> },
}

impl IndexEvent {
    /// The job that reports.
    pub open spec fn job(&self) -> u64 {
        match self {
            IndexEvent::SnapshotLoaded { job_id, .. } => *job_id,
            IndexEvent::Progress { job_id, .. } => *job_id,
            IndexEvent::Done { job_id, .. } => *job_id,
            IndexEvent::Delta { job_id, .. } => *job_id,
        }
    }

    pub fn job_id(&self) -> (r: u64)
        ensures
            r == self.job(),
    {
        match self {
            IndexEvent::SnapshotLoaded { job_id, .. } => *job_id,
            IndexEvent::Progress { job_id, .. } => *job_id,
            IndexEvent::Done { job_id, .. } => *job_id,
            IndexEvent::Delta { job_id, .. } => *job_id,
        }
    }
}

/// Where the index job of the controller stands.
#[derive(Debug, Clone, Copy, PartialEq, Eq, Structural)]
pub enum JobState {
    Idle,
    Building,
    Live,
}

/// A change of the window's mode that the user asked for.
#[derive(Debug, Clone, Copy, PartialEq, Eq, Structural)]
pub enum WindowModeRequest {
    ToggleFullscreen,
    ToggleFullHeight,
}

/// The renderer that the user asked for.
#[derive(Debug, Clone, Copy, PartialEq, Eq, Structural)]
pub enum RendererModeRequest {
    Gpu,
    Soft,
}

/// The mode of the window: whether it fills the screen, whether it has the
/// height of the screen, and whether it had that height when it began to
/// fill the screen.
#[derive(Debug, Clone, Copy, PartialEq, Eq, Structural)]
pub struct WindowMode {
    pub fullscreen_enabled: bool,
    pub fullheight_enabled: bool,
    pub fullheight_before_fullscreen: bool,
}

impl WindowMode {
    /// What the user sees of the mode.
    pub open spec fn shown(self) -> (bool, bool) {
        (self.fullscreen_enabled, self.fullheight_enabled)
    }

    /// While the window fills the screen, its height setting is the one it
    /// had before.
    pub open spec fn wf(self) -> bool {
        self.fullscreen_enabled ==> self.fullheight_enabled == self.fullheight_before_fullscreen
    }

    /// The mode after a request. Leaving the full screen brings back the
    /// height setting from before. Asking for another height changes the
    /// height setting and nothing else: a window that fills the screen goes
    /// on filling it, and comes back from it with the new height.
    pub open spec fn after(self, request: WindowModeRequest) -> WindowMode {
        match request {
            WindowModeRequest::ToggleFullscreen => if !self.fullscreen_enabled {
                WindowMode {
                    fullscreen_enabled: true,
                    fullheight_enabled: self.fullheight_enabled,
                    fullheight_before_fullscreen: self.fullheight_enabled,
                }
            } else {
                WindowMode {
                    fullscreen_enabled: false,
                    fullheight_enabled: self.fullheight_before_fullscreen,
                    fullheight_before_fullscreen: self.fullheight_before_fullscreen,
                }
            },
            WindowModeRequest::ToggleFullHeight => WindowMode {
                fullscreen_enabled: self.fullscreen_enabled,
                fullheight_enabled: !self.fullheight_enabled,
                fullheight_before_fullscreen: if self.fullscreen_enabled {
                    !self.fullheight_enabled
                } else {
                    self.fullheight_before_fullscreen
                },
            },
        }
    }

    /// The mode of a window that has just been opened: it neither fills
    /// the screen nor has the height of the screen, and has no height
    /// setting to come back to.
    pub fn new() -> (r: Self)
        ensures
            r == (WindowMode {
                fullscreen_enabled: false,
                fullheight_enabled: false,
                fullheight_before_fullscreen: false,
            }),
            r.wf(),
            r.shown() == (false, false),
    {
        WindowMode {
            fullscreen_enabled: false,
            fullheight_enabled: false,
            fullheight_before_fullscreen: false,
        }
    }

    pub fn apply(&mut self, request: WindowModeRequest)
        requires
            old(self).wf(),
        ensures
            *final(self) == old(self).after(request),
            final(self).wf(),
    {
        match request {
            WindowModeRequest::ToggleFullscreen => {
                if !self.fullscreen_enabled {
                    self.fullheight_before_fullscreen = self.fullheight_enabled;
                    self.fullscreen_enabled = true;
                } else {
                    self.fullscreen_enabled = false;
                    self.fullheight_enabled = self.fullheight_before_fullscreen;
                }
            },
            WindowModeRequest::ToggleFullHeight => {
                self.fullheight_enabled = !self.fullheight_enabled;
                if self.fullscreen_enabled {
                    self.fullheight_before_fullscreen = self.fullheight_enabled;
                }
            },
        }
    }

    /// Asking twice for the full screen shows the window as it was. A
    /// window that filled the screen is in every respect as before; one
    /// that did not has, besides, the height it shows as the height to come
    /// back to.
    pub proof fn lemma_double_fullscreen(self)
        requires
            self.wf(),
        ensures
            self.after(WindowModeRequest::ToggleFullscreen).wf(),
            self.after(WindowModeRequest::ToggleFullscreen).after(
                WindowModeRequest::ToggleFullscreen,
            ).shown() == self.shown(),
            self.after(WindowModeRequest::ToggleFullscreen).after(
                WindowModeRequest::ToggleFullscreen,
            ).wf(),
            self.fullscreen_enabled ==> self.after(WindowModeRequest::ToggleFullscreen).after(
                WindowModeRequest::ToggleFullscreen,
            ) == self,
            !self.fullscreen_enabled ==> self.after(WindowModeRequest::ToggleFullscreen).after(
                WindowModeRequest::ToggleFullscreen,
            ) == (WindowMode { fullheight_before_fullscreen: self.fullheight_enabled, ..self }),
    {
    }

    /// Asking twice for the full height gives the mode that was there
    /// before, whether or not the window fills the screen.
    pub proof fn lemma_double_fullheight(self)
        requires
            self.wf(),
        ensures
            self.after(WindowModeRequest::ToggleFullHeight).wf(),
            self.after(WindowModeRequest::ToggleFullHeight).after(
                WindowModeRequest::ToggleFullHeight,
            ) == self,
    {
    }
}

/// What the controller asks the application to do.
pub enum Effect {
    Search(SearchWorkerMessage),
    StartIndexJob { job_id: u64, scope: SearchScope, allow_dirwalk_fallback: bool },
    PersistScope(SearchScope),
    PersistQuickHelpDismissed(bool),
    OpenPath(String),
    RevealPath(String),
    RequestElevation(SearchScope),
    /// Put the keyboard focus into the search field.
    FocusSearch,
}

} // verus!
