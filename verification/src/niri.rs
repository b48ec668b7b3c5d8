//! The compositor's windows and workspaces, kept up to date from its events.

use vstd::prelude::*;

use crate::icon::IconName;
use crate::matcher::{search_texts, MAX_QUERY, MAX_TERM};
use crate::text::same;

verus! {

/// A window, as far as it matters here.
#[derive(Debug)]
pub struct NiriWindow {
    pub id: u64,
    pub title: Option<String>,
    pub app_id: Option<String>,
    pub is_focused: bool,
    /// When it was last focused: seconds and nanoseconds of a running clock.
    pub focus_timestamp: Option<(u64, u32)>,
}

/// A [`NiriWindow`] as a value.
pub struct WindowView {
    pub id: u64,
    pub title: Option<Seq<char>>,
    pub app_id: Option<Seq<char>>,
    pub is_focused: bool,
    pub focus_timestamp: Option<(u64, u32)>,
}

impl View for NiriWindow {
    type V = WindowView;

    open spec fn view(&self) -> WindowView {
        WindowView {
            id: self.id,
            title: crate::text::opt_view(self.title),
            app_id: crate::text::opt_view(self.app_id),
            is_focused: self.is_focused,
            focus_timestamp: self.focus_timestamp,
        }
    }
}

/// A workspace, as far as it matters here.
#[derive(Debug)]
pub struct NiriWorkspace {
    pub id: u64,
    pub output: Option<String>,
    pub is_active: bool,
    pub is_focused: bool,
    pub is_urgent: bool,
    pub active_window_id: Option<u64>,
}

/// A [`NiriWorkspace`] as a value.
pub struct WorkspaceView {
    pub id: u64,
    pub output: Option<Seq<char>>,
    pub is_active: bool,
    pub is_focused: bool,
    pub is_urgent: bool,
    pub active_window_id: Option<u64>,
}

impl View for NiriWorkspace {
    type V = WorkspaceView;

    open spec fn view(&self) -> WorkspaceView {
        WorkspaceView {
            id: self.id,
            output: crate::text::opt_view(self.output),
            is_active: self.is_active,
            is_focused: self.is_focused,
            is_urgent: self.is_urgent,
            active_window_id: self.active_window_id,
        }
    }
}

/// Windows as values.
pub open spec fn window_views(windows: Seq<NiriWindow>) -> Seq<WindowView> {
    windows.map_values(|w: NiriWindow| w@)
}

/// Workspaces as values.
pub open spec fn workspace_views(workspaces: Seq<NiriWorkspace>) -> Seq<WorkspaceView> {
    workspaces.map_values(|w: NiriWorkspace| w@)
}

/// What the compositor tells.
#[derive(Debug)]
pub enum CompositorEvent {
    WindowsChanged { windows: Vec<NiriWindow> },
    WindowOpenedOrChanged { window: NiriWindow },
    WindowClosed { id: u64 },
    WindowFocusChanged { window_id: Option<u64> },
    WindowFocusTimestampChanged { id: u64, focus_timestamp: Option<(u64, u32)> },
    WorkspacesChanged { workspaces: Vec<NiriWorkspace> },
    WorkspaceActivated { id: u64, focused: bool },
    WorkspaceUrgencyChanged { id: u64, urgent: bool },
    WorkspaceActiveWindowChanged { workspace_id: u64, active_window_id: Option<u64> },
    /// Anything else.
    Other,
}

/// What has changed, for those who follow along.
#[derive(Clone, Copy, Debug, PartialEq, Eq, Structural)]
pub enum NiriEvent {
    WindowsChanged,
    WorkspacesChanged,
    WorkspaceActivated { id: u64 },
    WorkspaceUrgencyChanged { id: u64, urgent: bool },
}

/// The position at or after `from` of the window that goes by an id.
pub open spec fn window_from(windows: Seq<WindowView>, from: int, id: u64) -> Option<int>
    decreases windows.len() - from,
{
    if from >= windows.len() {
        None
    } else if windows[from].id == id {
        Some(from)
    } else {
        window_from(windows, from + 1, id)
    }
}

/// The position at or after `from` of the workspace that goes by an id.
pub open spec fn workspace_from(workspaces: Seq<WorkspaceView>, from: int, id: u64) -> Option<int>
    decreases workspaces.len() - from,
{
    if from >= workspaces.len() {
        None
    } else if workspaces[from].id == id {
        Some(from)
    } else {
        workspace_from(workspaces, from + 1, id)
    }
}

/// The windows once one of them is opened or has changed: it takes the place of
/// the one with its id, or comes last.
pub open spec fn with_window(windows: Seq<WindowView>, window: WindowView) -> Seq<WindowView> {
    match window_from(windows, 0, window.id) {
        Some(i) => windows.update(i, window),
        None => windows.push(window),
    }
}

/// A workspace once another, on `output`, is activated. Of the workspaces on that
/// output only the activated one stays active. Focus is global, so when it moves
/// there it is gone everywhere else.
pub open spec fn after_activation(
    workspace: WorkspaceView,
    id: u64,
    output: Option<Option<Seq<char>>>,
    focused: bool,
) -> WorkspaceView {
    WorkspaceView {
        is_active: if output == Some(workspace.output) {
            workspace.id == id
        } else {
            workspace.is_active
        },
        is_focused: if focused {
            workspace.id == id
        } else {
            workspace.is_focused
        },
        ..workspace
    }
}

/// The output of the workspace that goes by an id, if there is one: nothing where
/// there is no such workspace.
pub open spec fn output_of(workspaces: Seq<WorkspaceView>, id: u64) -> Option<Option<Seq<char>>> {
    match workspace_from(workspaces, 0, id) {
        Some(i) => Some(workspaces[i].output),
        None => None,
    }
}

/// The workspaces once one of them is activated.
pub open spec fn activated(
    workspaces: Seq<WorkspaceView>,
    id: u64,
    focused: bool,
) -> Seq<WorkspaceView> {
    let output = output_of(workspaces, id);
    workspaces.map_values(|w: WorkspaceView| after_activation(w, id, output, focused))
}

/// Whether activating a workspace changes which one is active on its output. If
/// it was active already, only focus has moved.
pub open spec fn activation_shows(workspaces: Seq<WorkspaceView>, id: u64) -> bool {
    match workspace_from(workspaces, 0, id) {
        Some(i) => !workspaces[i].is_active,
        None => false,
    }
}

/// The compositor's windows and workspaces.
#[derive(Debug)]
pub struct NiriState {
    windows: Vec<NiriWindow>,
    workspaces: Vec<NiriWorkspace>,
}

/// Whether two optional texts are the same.
fn same_optional(a: &Option<String>, b: &Option<String>) -> (r: bool)
    ensures
        r == (crate::text::opt_view(*a) == crate::text::opt_view(*b)),
{
    match (a, b) {
        (Some(x), Some(y)) => same(x, y),
        (None, None) => true,
        _ => false,
    }
}

impl NiriState {
    /// The windows.
    pub closed spec fn window_list(&self) -> Seq<WindowView> {
        window_views(self.windows@)
    }

    /// The workspaces.
    pub closed spec fn workspace_list(&self) -> Seq<WorkspaceView> {
        workspace_views(self.workspaces@)
    }

    pub fn new() -> (r: Self)
        ensures
            r.window_list().len() == 0,
            r.workspace_list().len() == 0,
    {
        NiriState { windows: Vec::new(), workspaces: Vec::new() }
    }

    pub fn windows(&self) -> (r: &Vec<NiriWindow>)
        ensures
            window_views(r@) == self.window_list(),
    {
        &self.windows
    }

    pub fn workspaces(&self) -> (r: &Vec<NiriWorkspace>)
        ensures
            workspace_views(r@) == self.workspace_list(),
    {
        &self.workspaces
    }

    fn find_window(&self, id: u64) -> (r: Option<usize>)
        ensures
            match r {
                Some(i) => i < self.windows@.len() && window_from(self.window_list(), 0, id)
                    == Some(i as int),
                None => window_from(self.window_list(), 0, id) is None,
            },
    {
        let mut i: usize = 0;
        while i < self.windows.len()
            invariant
                i <= self.windows@.len(),
                window_from(self.window_list(), 0, id) == window_from(
                    self.window_list(),
                    i as int,
                    id,
                ),
            decreases self.windows@.len() - i,
        {
            if self.windows[i].id == id {
                return Some(i);
            }
            i = i + 1;
        }
        None
    }

    fn find_workspace(&self, id: u64) -> (r: Option<usize>)
        ensures
            match r {
                Some(i) => i < self.workspaces@.len() && workspace_from(
                    self.workspace_list(),
                    0,
                    id,
                ) == Some(i as int),
                None => workspace_from(self.workspace_list(), 0, id) is None,
            },
    {
        let mut i: usize = 0;
        while i < self.workspaces.len()
            invariant
                i <= self.workspaces@.len(),
                workspace_from(self.workspace_list(), 0, id) == workspace_from(
                    self.workspace_list(),
                    i as int,
                    id,
                ),
            decreases self.workspaces@.len() - i,
        {
            if self.workspaces[i].id == id {
                return Some(i);
            }
            i = i + 1;
        }
        None
    }

    /// The output that a workspace is on.
    pub fn workspace_output(&self, id: u64) -> (r: Option<&String>)
        ensures
            match r {
                Some(output) => output_of(self.workspace_list(), id) == Some(Some(output@)),
                None => output_of(self.workspace_list(), id) is None || output_of(
                    self.workspace_list(),
                    id,
                ) == Some(None::<Seq<char>>),
            },
    {
        match self.find_workspace(id) {
            Some(i) => match &self.workspaces[i].output {
                Some(output) => Some(output),
                None => None,
            },
            None => None,
        }
    }

    fn open_or_change(&mut self, window: NiriWindow)
        ensures
            final(self).window_list() == with_window(old(self).window_list(), window@),
            final(self).workspace_list() == old(self).workspace_list(),
    {
        match self.find_window(window.id) {
            Some(i) => {
                self.windows.set(i, window);
                assert(self.window_list() =~= old(self).window_list().update(i as int, window@));
            },
            None => {
                self.windows.push(window);
                assert(self.window_list() =~= old(self).window_list().push(window@));
            },
        }
    }

    fn close_window(&mut self, id: u64)
        ensures
            final(self).window_list() == old(self).window_list().filter(
                |w: WindowView| w.id != id,
            ),
            final(self).workspace_list() == old(self).workspace_list(),
    {
        let ghost before = self.window_list();
        let ghost keep = |w: WindowView| w.id != id;
        let mut left: Vec<NiriWindow> = Vec::new();
        let mut rest: Vec<NiriWindow> = Vec::new();
        rest.append(&mut self.windows);
        let n: usize = rest.len();
        assert(before.skip(0) =~= before);
        assert(window_views(left@) + before.filter(keep) =~= before.filter(keep));
        let mut i: usize = 0;
        while i < n
            invariant
                i <= n,
                n == before.len(),
                rest@.len() == n - i,
                window_views(rest@) == before.skip(i as int),
                keep == (|w: WindowView| w.id != id),
                window_views(left@) + before.skip(i as int).filter(keep) == before.filter(keep),
            decreases n - i,
        {
            let ghost here = before.skip(i as int);
            let ghost was = window_views(left@);
            proof {
                crate::names::lemma_filter_first(here, keep);
                assert(here.skip(1) =~= before.skip(i + 1));
                assert(here[0] == rest@[0]@);
            }
            let window = rest.remove(0);
            assert(window_views(rest@) =~= before.skip(i + 1));
            if window.id != id {
                left.push(window);
                assert(window_views(left@) =~= was.push(window@));
                assert(was.push(window@) + here.skip(1).filter(keep) =~= was + (seq![window@]
                    + here.skip(1).filter(keep)));
            }
            i = i + 1;
        }
        proof {
            reveal(Seq::filter);
            assert(before.skip(i as int) =~= Seq::<WindowView>::empty());
            assert(window_views(left@) + Seq::<WindowView>::empty() =~= window_views(left@));
        }
        self.windows = left;
    }

    fn focus_window(&mut self, id: Option<u64>)
        ensures
            final(self).window_list() == old(self).window_list().map_values(
                |w: WindowView| WindowView { is_focused: id == Some(w.id), ..w },
            ),
            final(self).workspace_list() == old(self).workspace_list(),
    {
        let ghost before = self.window_list();
        let ghost change = |w: WindowView| WindowView { is_focused: id == Some(w.id), ..w };
        let n: usize = self.windows.len();
        let mut i: usize = 0;
        while i < n
            invariant
                i <= n,
                n == self.windows@.len(),
                n == before.len(),
                change == (|w: WindowView| WindowView { is_focused: id == Some(w.id), ..w }),
                self.workspace_list() == old(self).workspace_list(),
                forall|j: int| 0 <= j < i ==> (#[trigger] self.windows@[j])@ == change(before[j]),
                forall|j: int| i <= j < n ==> (#[trigger] self.windows@[j])@ == before[j],
            decreases n - i,
        {
            let focused: bool = match id {
                Some(id) => id == self.windows[i].id,
                None => false,
            };
            self.windows[i].is_focused = focused;
            i = i + 1;
        }
        assert(self.window_list() =~= before.map_values(change));
    }

    fn stamp_window(&mut self, id: u64, focus_timestamp: Option<(u64, u32)>)
        ensures
            final(self).window_list() == (match window_from(old(self).window_list(), 0, id) {
                Some(i) => old(self).window_list().update(
                    i,
                    WindowView { focus_timestamp, ..old(self).window_list()[i] },
                ),
                None => old(self).window_list(),
            }),
            final(self).workspace_list() == old(self).workspace_list(),
    {
        if let Some(i) = self.find_window(id) {
            self.windows[i].focus_timestamp = focus_timestamp;
            assert(self.window_list() =~= old(self).window_list().update(
                i as int,
                WindowView { focus_timestamp, ..old(self).window_list()[i as int] },
            ));
        }
    }

    fn activate(&mut self, id: u64, focused: bool) -> (r: bool)
        ensures
            r == activation_shows(old(self).workspace_list(), id),
            final(self).workspace_list() == activated(old(self).workspace_list(), id, focused),
            final(self).window_list() == old(self).window_list(),
    {
        let ghost before = self.workspace_list();
        let ghost output = output_of(before, id);
        let found = self.find_workspace(id);
        let shows: bool = match found {
            Some(i) => !self.workspaces[i].is_active,
            None => false,
        };
        let target: Option<Option<String>> = match found {
            Some(i) => match &self.workspaces[i].output {
                Some(name) => Some(Some(name.clone())),
                None => Some(None),
            },
            None => None,
        };
        let n: usize = self.workspaces.len();
        let mut i: usize = 0;
        while i < n
            invariant
                i <= n,
                n == self.workspaces@.len(),
                n == before.len(),
                self.window_list() == old(self).window_list(),
                output == (match target {
                    Some(name) => Some(crate::text::opt_view(name)),
                    None => None,
                }),
                forall|j: int|
                    0 <= j < i ==> (#[trigger] self.workspaces@[j])@ == after_activation(
                        before[j],
                        id,
                        output,
                        focused,
                    ),
                forall|j: int| i <= j < n ==> (#[trigger] self.workspaces@[j])@ == before[j],
            decreases n - i,
        {
            let chosen: bool = self.workspaces[i].id == id;
            let shares: bool = match &target {
                Some(name) => same_optional(&self.workspaces[i].output, name),
                None => false,
            };
            if shares {
                self.workspaces[i].is_active = chosen;
            }
            if focused {
                self.workspaces[i].is_focused = chosen;
            }
            i = i + 1;
        }
        assert(self.workspace_list() =~= activated(before, id, focused));
        shows
    }

    fn mark_urgent(&mut self, id: u64, urgent: bool)
        ensures
            final(self).workspace_list() == (match workspace_from(
                old(self).workspace_list(),
                0,
                id,
            ) {
                Some(i) => old(self).workspace_list().update(
                    i,
                    WorkspaceView { is_urgent: urgent, ..old(self).workspace_list()[i] },
                ),
                None => old(self).workspace_list(),
            }),
            final(self).window_list() == old(self).window_list(),
    {
        if let Some(i) = self.find_workspace(id) {
            self.workspaces[i].is_urgent = urgent;
            assert(self.workspace_list() =~= old(self).workspace_list().update(
                i as int,
                WorkspaceView { is_urgent: urgent, ..old(self).workspace_list()[i as int] },
            ));
        }
    }

    fn set_active_window(&mut self, id: u64, active_window_id: Option<u64>)
        ensures
            final(self).workspace_list() == (match workspace_from(
                old(self).workspace_list(),
                0,
                id,
            ) {
                Some(i) => old(self).workspace_list().update(
                    i,
                    WorkspaceView { active_window_id, ..old(self).workspace_list()[i] },
                ),
                None => old(self).workspace_list(),
            }),
            final(self).window_list() == old(self).window_list(),
    {
        if let Some(i) = self.find_workspace(id) {
            self.workspaces[i].active_window_id = active_window_id;
            assert(self.workspace_list() =~= old(self).workspace_list().update(
                i as int,
                WorkspaceView { active_window_id, ..old(self).workspace_list()[i as int] },
            ));
        }
    }

    /// Folds one thing the compositor tells into the state. Gives back what has
    /// changed, where that is worth telling.
    pub fn apply_event(&mut self, event: CompositorEvent) -> (r: Option<NiriEvent>)
        ensures
            ({
                let windows = old(self).window_list();
                let workspaces = old(self).workspace_list();
                let windows_after = final(self).window_list();
                let workspaces_after = final(self).workspace_list();
                match event {
                    CompositorEvent::WindowsChanged { windows: list } => {
                        &&& windows_after == window_views(list@)
                        &&& workspaces_after == workspaces
                        &&& r == Some(NiriEvent::WindowsChanged)
                    },
                    CompositorEvent::WindowOpenedOrChanged { window } => {
                        &&& windows_after == with_window(windows, window@)
                        &&& workspaces_after == workspaces
                        &&& r == Some(NiriEvent::WindowsChanged)
                    },
                    CompositorEvent::WindowClosed { id } => {
                        &&& windows_after == windows.filter(|w: WindowView| w.id != id)
                        &&& workspaces_after == workspaces
                        &&& r == Some(NiriEvent::WindowsChanged)
                    },
                    CompositorEvent::WindowFocusChanged { window_id } => {
                        &&& windows_after == windows.map_values(
                            |w: WindowView|
                                WindowView { is_focused: window_id == Some(w.id), ..w },
                        )
                        &&& workspaces_after == workspaces
                        &&& r == Some(NiriEvent::WindowsChanged)
                    },
                    CompositorEvent::WindowFocusTimestampChanged { id, focus_timestamp } => {
                        &&& windows_after == (match window_from(windows, 0, id) {
                            Some(i) => windows.update(
                                i,
                                WindowView { focus_timestamp, ..windows[i] },
                            ),
                            None => windows,
                        })
                        &&& workspaces_after == workspaces
                        &&& r == Some(NiriEvent::WindowsChanged)
                    },
                    CompositorEvent::WorkspacesChanged { workspaces: list } => {
                        &&& windows_after == windows
                        &&& workspaces_after == workspace_views(list@)
                        &&& r == Some(NiriEvent::WorkspacesChanged)
                    },
                    CompositorEvent::WorkspaceActivated { id, focused } => {
                        &&& windows_after == windows
                        &&& workspaces_after == activated(workspaces, id, focused)
                        &&& r == (if activation_shows(workspaces, id) {
                            Some(NiriEvent::WorkspaceActivated { id })
                        } else {
                            None
                        })
                    },
                    CompositorEvent::WorkspaceUrgencyChanged { id, urgent } => {
                        &&& windows_after == windows
                        &&& workspaces_after == (match workspace_from(workspaces, 0, id) {
                            Some(i) => workspaces.update(
                                i,
                                WorkspaceView { is_urgent: urgent, ..workspaces[i] },
                            ),
                            None => workspaces,
                        })
                        &&& r == Some(NiriEvent::WorkspaceUrgencyChanged { id, urgent })
                    },
                    CompositorEvent::WorkspaceActiveWindowChanged {
                        workspace_id,
                        active_window_id,
                    } => {
                        &&& windows_after == windows
                        &&& workspaces_after == (match workspace_from(
                            workspaces,
                            0,
                            workspace_id,
                        ) {
                            Some(i) => workspaces.update(
                                i,
                                WorkspaceView { active_window_id, ..workspaces[i] },
                            ),
                            None => workspaces,
                        })
                        &&& r is None
                    },
                    CompositorEvent::Other => {
                        &&& windows_after == windows
                        &&& workspaces_after == workspaces
                        &&& r is None
                    },
                }
            }),
    {
        match event {
            CompositorEvent::WindowsChanged { windows } => {
                self.windows = windows;
                Some(NiriEvent::WindowsChanged)
            },
            CompositorEvent::WindowOpenedOrChanged { window } => {
                self.open_or_change(window);
                Some(NiriEvent::WindowsChanged)
            },
            CompositorEvent::WindowClosed { id } => {
                self.close_window(id);
                Some(NiriEvent::WindowsChanged)
            },
            CompositorEvent::WindowFocusChanged { window_id } => {
                self.focus_window(window_id);
                Some(NiriEvent::WindowsChanged)
            },
            CompositorEvent::WindowFocusTimestampChanged { id, focus_timestamp } => {
                self.stamp_window(id, focus_timestamp);
                Some(NiriEvent::WindowsChanged)
            },
            CompositorEvent::WorkspacesChanged { workspaces } => {
                self.workspaces = workspaces;
                Some(NiriEvent::WorkspacesChanged)
            },
            CompositorEvent::WorkspaceActivated { id, focused } => {
                if self.activate(id, focused) {
                    Some(NiriEvent::WorkspaceActivated { id })
                } else {
                    None
                }
            },
            CompositorEvent::WorkspaceUrgencyChanged { id, urgent } => {
                self.mark_urgent(id, urgent);
                Some(NiriEvent::WorkspaceUrgencyChanged { id, urgent })
            },
            CompositorEvent::WorkspaceActiveWindowChanged { workspace_id, active_window_id } => {
                self.set_active_window(workspace_id, active_window_id);
                None
            },
            CompositorEvent::Other => None,
        }
    }
}

/// Once a workspace has been activated, it is the one that is active on its
/// output, whatever was before.
pub proof fn law_one_active_per_output(
    workspaces: Seq<WorkspaceView>,
    id: u64,
    focused: bool,
    i: int,
)
    requires
        output_of(workspaces, id) is Some,
        0 <= i < workspaces.len(),
        output_of(workspaces, id) == Some(workspaces[i].output),
    ensures
        activated(workspaces, id, focused)[i].is_active == (workspaces[i].id == id),
{
}

/// Focus is in one place: when it moves to a workspace it is gone from every other.
pub proof fn law_focus_is_global(workspaces: Seq<WorkspaceView>, id: u64, i: int)
    requires
        0 <= i < workspaces.len(),
    ensures
        activated(workspaces, id, true)[i].is_focused == (workspaces[i].id == id),
{
}

proof fn lemma_workspace_from(workspaces: Seq<WorkspaceView>, from: int, id: u64)
    requires
        0 <= from,
    ensures
        match workspace_from(workspaces, from, id) {
            Some(i) => from <= i < workspaces.len() && workspaces[i].id == id,
            None => true,
        },
    decreases workspaces.len() - from,
{
    if from < workspaces.len() {
        lemma_workspace_from(workspaces, from + 1, id);
    }
}

proof fn lemma_workspace_kept(before: Seq<WorkspaceView>, after: Seq<WorkspaceView>, from: int, id: u64)
    requires
        0 <= from,
        before.len() == after.len(),
        forall|i: int| 0 <= i < before.len() ==> (#[trigger] before[i]).id == after[i].id,
    ensures
        workspace_from(after, from, id) == workspace_from(before, from, id),
    decreases before.len() - from,
{
    if from < before.len() {
        assert(before[from].id == after[from].id);
        lemma_workspace_kept(before, after, from + 1, id);
    }
}

/// Activating a workspace that is active already shows nothing: only a switch is
/// worth telling.
pub proof fn law_second_activation_is_silent(workspaces: Seq<WorkspaceView>, id: u64, focused: bool)
    ensures
        !activation_shows(activated(workspaces, id, focused), id),
{
    let after = activated(workspaces, id, focused);
    lemma_workspace_kept(workspaces, after, 0, id);
    lemma_workspace_from(workspaces, 0, id);
}

/// A window, as the switcher lists it.
#[derive(Debug)]
pub struct WindowItem {
    pub id: u64,
    pub title: String,
    pub app_id: String,
    pub is_focused: bool,
    /// What the window is found under.
    pub search_string: String,
}

/// What a window without a title is called.
pub open spec fn shown_title(title: Option<Seq<char>>) -> Seq<char> {
    match title {
        Some(title) => if title.len() > 0 {
            title
        } else {
            "(untitled)"@
        },
        None => "(untitled)"@,
    }
}

/// An app id, empty where there is none.
pub open spec fn shown_app_id(app_id: Option<Seq<char>>) -> Seq<char> {
    match app_id {
        Some(app_id) => app_id,
        None => Seq::empty(),
    }
}

/// Whether an entry of the switcher shows a window.
pub open spec fn shows_window(item: WindowItem, window: WindowView) -> bool {
    let title = shown_title(window.title);
    let app_id = shown_app_id(window.app_id);
    &&& item.id == window.id
    &&& item.title@ == title
    &&& item.app_id@ == app_id
    &&& item.is_focused == window.is_focused
    &&& item.search_string@ == title + seq![' '] + app_id
}

/// Lists windows for the switcher.
pub fn windows_to_items(windows: &Vec<NiriWindow>) -> (r: Vec<WindowItem>)
    ensures
        r@.len() == windows@.len(),
        forall|i: int|
            0 <= i < r@.len() ==> shows_window(#[trigger] r@[i], windows@[i]@),
{
    let mut out: Vec<WindowItem> = Vec::new();
    for i in 0..windows.len()
        invariant
            out@.len() == i,
            forall|j: int| 0 <= j < i ==> shows_window(#[trigger] out@[j], windows@[j]@),
    {
        let window = &windows[i];
        let title: String = match &window.title {
            Some(title) => {
                if title.as_str().is_empty() {
                    "(untitled)".to_owned()
                } else {
                    title.clone()
                }
            },
            None => "(untitled)".to_owned(),
        };
        let app_id: String = match &window.app_id {
            Some(app_id) => app_id.clone(),
            None => String::new(),
        };
        let mut search_string = title.clone();
        search_string.push(' ');
        search_string.append(&app_id);
        assert(search_string@ =~= title@ + seq![' '] + app_id@);
        let item = WindowItem {
            id: window.id,
            title,
            app_id,
            is_focused: window.is_focused,
            search_string,
        };
        assert(shown_app_id(window@.app_id) =~= item.app_id@);
        assert(shows_window(item, windows@[i as int]@));
        out.push(item);
    }
    out
}

/// What windows are found under.
pub open spec fn search_strings(items: Seq<WindowItem>) -> Seq<Seq<char>> {
    items.map_values(|item: WindowItem| item.search_string@)
}

/// Finds the windows that match what was typed, with their scores; see
/// [`search_texts`].
pub fn find_windows(query: &str, items: &Vec<WindowItem>) -> (r: Option<Vec<(usize, u32)>>)
    requires
        query@.len() <= MAX_QUERY,
        forall|i: int|
            0 <= i < items@.len() ==> (#[trigger] items@[i]).search_string@.len() <= MAX_TERM,
    ensures
        match r {
            Some(found) => query@.len() > 0 && found@ == crate::matcher::scored(
                crate::matcher::text_scores(query@, search_strings(items@)),
                items@.len() as int,
            ),
            None => query@.len() == 0,
        },
{
    let mut texts: Vec<String> = Vec::new();
    for i in 0..items.len()
        invariant
            texts@.len() == i,
            forall|j: int| 0 <= j < i ==> (#[trigger] texts@[j])@ == items@[j].search_string@,
    {
        texts.push(items[i].search_string.clone());
    }
    assert(crate::text::views(texts@) =~= search_strings(items@));
    search_texts(query, &texts)
}

/// The entry under which the launcher offers the switcher.
pub fn windows_panel() -> (r: crate::launcher::RootItem)
    ensures
        r matches crate::launcher::RootItem::Panel { id, icon, name, description, terms } && id@
            == "windows"@ && icon == IconName::AppWindow && name@ == "Windows"@
            && crate::text::opt_view(description) == Some("Switch between open windows"@) && crate::text::views(terms@) == seq![
            "windows"@,
            "switch"@,
            "focus"@,
        ],
{
    let mut terms: Vec<String> = Vec::new();
    terms.push("windows".to_owned());
    terms.push("switch".to_owned());
    terms.push("focus".to_owned());
    assert(crate::text::views(terms@) =~= seq!["windows"@, "switch"@, "focus"@]);
    crate::launcher::RootItem::Panel {
        id: "windows".to_owned(),
        icon: IconName::AppWindow,
        name: "Windows".to_owned(),
        description: Some("Switch between open windows".to_owned()),
        terms,
    }
}

proof fn lemma_window_from(windows: Seq<WindowView>, from: int, id: u64)
    requires
        0 <= from,
    ensures
        match window_from(windows, from, id) {
            Some(i) => from <= i < windows.len() && windows[i].id == id && forall|j: int|
                from <= j < i ==> (#[trigger] windows[j]).id != id,
            None => forall|j: int| from <= j < windows.len() ==> (#[trigger] windows[j]).id != id,
        },
    decreases windows.len() - from,
{
    if from < windows.len() && windows[from].id != id {
        lemma_window_from(windows, from + 1, id);
    }
}

proof fn lemma_workspace_place(workspaces: Seq<WorkspaceView>, from: int, id: u64)
    requires
        0 <= from,
    ensures
        match workspace_from(workspaces, from, id) {
            Some(i) => from <= i < workspaces.len() && workspaces[i].id == id && forall|j: int|
                from <= j < i ==> (#[trigger] workspaces[j]).id != id,
            None => forall|j: int|
                from <= j < workspaces.len() ==> (#[trigger] workspaces[j]).id != id,
        },
    decreases workspaces.len() - from,
{
    if from < workspaces.len() && workspaces[from].id != id {
        lemma_workspace_place(workspaces, from + 1, id);
    }
}

/// A window is found by its id if it is there, and so is a workspace.
pub proof fn law_windows_and_workspaces_are_found(
    windows: Seq<WindowView>,
    workspaces: Seq<WorkspaceView>,
    id: u64,
)
    ensures
        window_from(windows, 0, id) is Some <==> exists|i: int|
            0 <= i < windows.len() && (#[trigger] windows[i]).id == id,
        window_from(windows, 0, id) matches Some(i) ==> 0 <= i < windows.len() && windows[i].id
            == id,
        workspace_from(workspaces, 0, id) is Some <==> exists|i: int|
            0 <= i < workspaces.len() && (#[trigger] workspaces[i]).id == id,
        workspace_from(workspaces, 0, id) matches Some(i) ==> 0 <= i < workspaces.len()
            && workspaces[i].id == id,
{
    lemma_window_from(windows, 0, id);
    lemma_workspace_place(workspaces, 0, id);
}

/// A window that is opened comes last; one that changes stays where it is, as it is now; all
/// others stay as they are.
pub proof fn law_windows_open_last_and_change_in_place(
    windows: Seq<WindowView>,
    window: WindowView,
    j: int,
)
    requires
        0 <= j < windows.len(),
    ensures
        with_window(windows, window).contains(window),
        windows[j].id != window.id ==> with_window(windows, window)[j] == windows[j],
        (forall|i: int| 0 <= i < windows.len() ==> (#[trigger] windows[i]).id != window.id)
            ==> with_window(windows, window) == windows.push(window),
        windows[j].id == window.id ==> with_window(windows, window).len() == windows.len(),
{
    lemma_window_from(windows, 0, window.id);
    let then = with_window(windows, window);
    match window_from(windows, 0, window.id) {
        Some(i) => {
            assert(then[i] == window);
        },
        None => {
            assert(then[windows.len() as int] == window);
        },
    }
}

/// Activating a workspace makes it the active one of its output, leaves other outputs alone, and
/// moves the focus only if it is said to; all else of every workspace stays.
pub proof fn law_activation_is_for_one_output(
    workspaces: Seq<WorkspaceView>,
    id: u64,
    focused: bool,
    i: int,
)
    requires
        0 <= i < workspaces.len(),
    ensures
        ({
            let then = activated(workspaces, id, focused);
            &&& then.len() == workspaces.len()
            &&& output_of(workspaces, id) != Some(workspaces[i].output) ==> then[i].is_active
                == workspaces[i].is_active
            &&& !focused ==> then[i].is_focused == workspaces[i].is_focused
            &&& then[i].id == workspaces[i].id && then[i].output == workspaces[i].output
                && then[i].is_urgent == workspaces[i].is_urgent && then[i].active_window_id
                == workspaces[i].active_window_id
            &&& (forall|j: int| 0 <= j < i ==> (#[trigger] workspaces[j]).id != workspaces[i].id)
                ==> output_of(workspaces, workspaces[i].id) == Some(workspaces[i].output)
        }),
{
    lemma_workspace_place(workspaces, 0, workspaces[i].id);
}

/// Activating a workspace shows exactly if it is there and was not active.
pub proof fn law_activation_shows_what_is_new(workspaces: Seq<WorkspaceView>, i: int, id: u64)
    requires
        0 <= i < workspaces.len(),
        forall|j: int| 0 <= j < i ==> (#[trigger] workspaces[j]).id != workspaces[i].id,
    ensures
        activation_shows(workspaces, workspaces[i].id) <==> !workspaces[i].is_active,
        (forall|j: int| 0 <= j < workspaces.len() ==> (#[trigger] workspaces[j]).id != id)
            ==> !activation_shows(workspaces, id),
{
    lemma_workspace_place(workspaces, 0, workspaces[i].id);
    lemma_workspace_place(workspaces, 0, id);
}

/// A window is shown with its own title, and with a stand-in only where it has none.
pub proof fn law_windows_show_their_title(title: Seq<char>, app_id: Seq<char>)
    ensures
        title.len() > 0 ==> shown_title(Some(title)) == title,
        shown_title(Some(Seq::empty())) == "(untitled)"@,
        shown_title(None) == "(untitled)"@,
        shown_app_id(Some(app_id)) == app_id,
        shown_app_id(None).len() == 0,
{
}

/// A window is found under its title and under the name of its application, and told by its own
/// id.
pub proof fn law_windows_are_found_under_title_and_app(item: WindowItem, window: WindowView)
    requires
        shows_window(item, window),
    ensures
        item.id == window.id,
        item.is_focused == window.is_focused,
        item.title@ == shown_title(window.title),
        item.app_id@ == shown_app_id(window.app_id),
        item.search_string@ == item.title@ + seq![' '] + item.app_id@,
{
}

} // verus!
