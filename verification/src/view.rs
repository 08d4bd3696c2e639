//! The view/input state machine: which resource is charted, whether graphs
//! are shown, and whether the dashboard should quit.

use vstd::prelude::*;

verus! {

/// The resource whose history the dashboard currently charts.
#[derive(Clone, Copy, PartialEq, Eq, Debug, Structural)]
pub enum ResourceView {
    Cpu,
    Memory,
    Gpu,
}

/// A discrete input event, as the terminal layer reports it.
#[derive(Clone, Copy, PartialEq, Eq, Debug, Structural)]
pub enum InputEvent {
    /// The quit key was pressed.
    Quit,
    /// The graph-visibility toggle key was pressed.
    ToggleGraphs,
    /// Cycle the resource view one step to the left.
    ViewLeft,
    /// Cycle the resource view one step to the right.
    ViewRight,
    /// Any other input; it changes nothing.
    Other,
}

/// One step of the view cycle to the left.
pub open spec fn view_left(v: ResourceView) -> ResourceView {
    match v {
        ResourceView::Cpu => ResourceView::Gpu,
        ResourceView::Memory => ResourceView::Cpu,
        ResourceView::Gpu => ResourceView::Memory,
    }
}

/// One step of the view cycle to the right.
pub open spec fn view_right(v: ResourceView) -> ResourceView {
    match v {
        ResourceView::Cpu => ResourceView::Memory,
        ResourceView::Memory => ResourceView::Gpu,
        ResourceView::Gpu => ResourceView::Cpu,
    }
}

/// The current view selection plus the two independent flags.
#[derive(Clone, Copy, PartialEq, Eq, Debug, Structural)]
pub struct ViewState {
    pub current_view: ResourceView,
    pub show_graphs: bool,
    pub should_quit: bool,
}

/// The state after one input event.
pub open spec fn event_step(s: ViewState, event: InputEvent) -> ViewState {
    match event {
        InputEvent::Quit => ViewState { should_quit: true, ..s },
        InputEvent::ToggleGraphs => ViewState { show_graphs: !s.show_graphs, ..s },
        InputEvent::ViewLeft => ViewState { current_view: view_left(s.current_view), ..s },
        InputEvent::ViewRight => ViewState { current_view: view_right(s.current_view), ..s },
        InputEvent::Other => s,
    }
}

impl ViewState {
    /// The initial state: CPU view, graphs shown, not quitting.
    pub fn new() -> (s: Self)
        ensures
            s == (ViewState {
                current_view: ResourceView::Cpu,
                show_graphs: true,
                should_quit: false,
            }),
    {
        ViewState { current_view: ResourceView::Cpu, show_graphs: true, should_quit: false }
    }

    /// Apply one input event and report whether the dashboard should quit
    /// after the current frame.
    pub fn handle_event(&mut self, event: InputEvent) -> (quit: bool)
        ensures
            *final(self) == event_step(*old(self), event),
            quit == final(self).should_quit,
    {
        match event {
            InputEvent::Quit => {
                self.should_quit = true;
            },
            InputEvent::ToggleGraphs => {
                self.show_graphs = !self.show_graphs;
            },
            InputEvent::ViewLeft => {
                self.current_view = match self.current_view {
                    ResourceView::Cpu => ResourceView::Gpu,
                    ResourceView::Memory => ResourceView::Cpu,
                    ResourceView::Gpu => ResourceView::Memory,
                };
            },
            InputEvent::ViewRight => {
                self.current_view = match self.current_view {
                    ResourceView::Cpu => ResourceView::Memory,
                    ResourceView::Memory => ResourceView::Gpu,
                    ResourceView::Gpu => ResourceView::Cpu,
                };
            },
            InputEvent::Other => {},
        }
        self.should_quit
    }
}

/// Law: cycling the view left and right are mutual inverses, so each is a
/// bijection on the three resource views.  Stepping left then right, or right
/// then left, returns to the starting view; two views with equal images are
/// equal.
pub proof fn lemma_view_cycle_bijective(a: ResourceView, b: ResourceView)
    ensures
        view_right(view_left(a)) == a,
        view_left(view_right(a)) == a,
        view_left(a) == view_left(b) ==> a == b,
        view_right(a) == view_right(b) ==> a == b,
{
}

} // verus!
