use vstd::prelude::*;

use crate::geometry::{sat_sub, PaneGeometry, PanePathStep, SplitDirection};
use crate::keys::{digit_tab, tab_digit_index, KeyCode};
use crate::pane::Divider;
use crate::tab::{Tab, TabView};
use crate::text::{decimal, push_decimal, push_str, string_of};
use crate::SessionId;

verus! {

/// How many tabs a window has.
pub const TAB_COUNT: usize = 9;

/// How many rows the status bar takes.
pub const STATUS_BAR_ROWS: u16 = 1;

/// The views of the tab slots.
pub open spec fn tab_views(tabs: Seq<Option<Tab>>) -> Seq<Option<TabView>> {
    tabs.map_values(|t: Option<Tab>| match t {
        Some(t) => Some(t@),
        None => None,
    })
}

/// What a window's tabs are, as a value: the nine tab slots, the current
/// tab, the sessions detached from every tab, the size of the window in
/// cells and whether the status bar is hidden.
pub struct WorkspaceView {
    pub tabs: Seq<Option<TabView>>,
    pub current: nat,
    pub detached: Seq<SessionId>,
    pub rows: u16,
    pub cols: u16,
    pub status_bar_hidden: bool,
}

impl WorkspaceView {
    /// Nine tab slots, a current tab among them, every tab well formed.
    pub open spec fn wf(self) -> bool {
        &&& self.tabs.len() == TAB_COUNT
        &&& self.current < TAB_COUNT
        &&& forall|i: int| 0 <= i < self.tabs.len() && #[trigger] self.tabs[i] is Some ==> self.tabs[i]->0.wf()
    }

    /// The rows left for panes: one fewer than the window has when the
    /// status bar is shown and there is more than one row.
    pub open spec fn terminal_rows(self) -> u16 {
        if self.rows > STATUS_BAR_ROWS && !self.status_bar_hidden {
            (self.rows - STATUS_BAR_ROWS) as u16
        } else {
            self.rows
        }
    }

    /// The area that a tab's panes share.
    pub open spec fn area(self) -> PaneGeometry {
        PaneGeometry { x: 0, y: 0, cols: self.cols, rows: self.terminal_rows() }
    }

    /// The focused session of the current tab.
    pub open spec fn active(self) -> Option<SessionId> {
        match self.tabs[self.current as int] {
            Some(t) => t.active,
            None => None,
        }
    }

    /// The panes of the current tab, laid out in the window.
    pub open spec fn layouts(self) -> Seq<(SessionId, PaneGeometry)> {
        match self.tabs[self.current as int] {
            Some(t) => match t.root {
                Some(root) => root.layout_panes(self.area()),
                None => Seq::empty(),
            },
            None => Seq::empty(),
        }
    }

    /// The sessions of tab `i` (none for an empty slot).
    pub open spec fn sessions_of(self, i: int) -> Seq<SessionId> {
        match self.tabs[i] {
            Some(t) => t.sessions(),
            None => Seq::empty(),
        }
    }
}

/// The first slot at or after `from` (other than `skip`) whose tab shows
/// `session`.
pub open spec fn first_holder_from(
    tabs: Seq<Option<TabView>>,
    session: SessionId,
    skip: int,
    from: int,
) -> Option<int>
    decreases tabs.len() - from,
{
    if from >= tabs.len() || from < 0 {
        None
    } else if from != skip && tabs[from] is Some && tabs[from]->0.sessions().contains(session) {
        Some(from)
    } else {
        first_holder_from(tabs, session, skip, from + 1)
    }
}

/// The slot, searched from the first, that the previous-tab search after
/// closing `closed` lands on: the nearest tab before it (wrapping around,
/// the closed slot itself last) that is not empty.
pub open spec fn previous_live_from(tabs: Seq<Option<TabView>>, closed: int, offset: int) -> Option<
    int,
>
    decreases TAB_COUNT - offset,
{
    if offset >= TAB_COUNT || offset < 0 {
        None
    } else {
        let t = (closed + TAB_COUNT - 1 - offset) % (TAB_COUNT as int);
        if tabs[t] is Some {
            Some(t)
        } else {
            previous_live_from(tabs, closed, offset + 1)
        }
    }
}

/// The first empty tab slot at or after `from`.
pub open spec fn first_free_from(tabs: Seq<Option<TabView>>, from: int) -> Option<int>
    decreases tabs.len() - from,
{
    if from >= tabs.len() || from < 0 {
        None
    } else if tabs[from] is None {
        Some(from)
    } else {
        first_free_from(tabs, from + 1)
    }
}

/// The slot after `i`, wrapping around.
pub open spec fn next_index(i: nat) -> nat {
    (i + 1) % (TAB_COUNT as nat)
}

/// The slot before `i`, wrapping around.
pub open spec fn previous_index(i: nat) -> nat {
    if i == 0 {
        (TAB_COUNT - 1) as nat
    } else {
        (i - 1) as nat
    }
}

/// The slot that becomes current once the tab in slot `closed` has gone:
/// the nearest tab before it, wrapping around, or `closed` itself when no
/// slot holds a tab.
pub open spec fn previous_live_or_stay(tabs: Seq<Option<TabView>>, closed: int) -> int {
    match previous_live_from(tabs, closed, 0) {
        Some(t) => t,
        None => closed,
    }
}

/// The first pane in `panes` that shows `session`.
pub open spec fn pane_of(panes: Seq<(SessionId, PaneGeometry)>, session: SessionId, from: int) -> Option<
    PaneGeometry,
>
    decreases panes.len() - from,
{
    if from < 0 || from >= panes.len() {
        None
    } else if panes[from].0 == session {
        Some(panes[from].1)
    } else {
        pane_of(panes, session, from + 1)
    }
}

/// The size (rows, columns) of the session that splitting a pane of area
/// `g` along `direction` makes room for; `None` when the pane is too small
/// to split.
pub open spec fn split_size(g: PaneGeometry, direction: SplitDirection) -> Option<(u16, u16)> {
    match direction {
        SplitDirection::Horizontal => if g.rows >= 2 {
            Some(((g.rows / 2) as u16, if g.cols == 0 { 1 } else { g.cols }))
        } else {
            None
        },
        SplitDirection::Vertical => if g.cols >= 2 {
            Some((if g.rows == 0 { 1 } else { g.rows }, (g.cols / 2) as u16))
        } else {
            None
        },
    }
}

/// A slot after the session `id` has closed: its panes showing `id` are gone,
/// and a tab left without panes by that is gone too.
pub open spec fn slot_after_close(slot: Option<TabView>, id: SessionId) -> Option<TabView> {
    match slot {
        Some(t) => if t.sessions().contains(id) {
            let u = t.after_remove(id);
            if u.root is None {
                None
            } else {
                Some(u)
            }
        } else {
            Some(t)
        },
        None => None,
    }
}

/// `sessions` without `session`.
pub open spec fn without_session(sessions: Seq<SessionId>, session: SessionId) -> Seq<SessionId> {
    sessions.filter(|d: SessionId| d != session)
}

impl WorkspaceView {
    /// The view with slot `i` replaced by `t`.
    pub open spec fn with_slot(self, i: int, t: Option<TabView>) -> WorkspaceView {
        WorkspaceView { tabs: self.tabs.update(i, t), ..self }
    }

    /// The current tab.
    pub open spec fn current_slot(self) -> Option<TabView> {
        self.tabs[self.current as int]
    }

    /// The size of the session that a split of the focused pane along
    /// `direction` makes room for; `None` when there is no focused pane or
    /// it is too small.
    pub open spec fn split_plan(self, direction: SplitDirection) -> Option<(u16, u16)> {
        match self.active() {
            Some(a) => match pane_of(self.layouts(), a, 0) {
                Some(g) => split_size(g, direction),
                None => None,
            },
            None => None,
        }
    }

    /// The size of the session that switching to the empty slot `i` starts;
    /// `None` when the slot holds a tab already.
    pub open spec fn new_tab_size(self, i: int) -> Option<(u16, u16)> {
        if self.tabs[i] is Some {
            None
        } else {
            Some((
                if self.terminal_rows() == 0 { 1 } else { self.terminal_rows() },
                if self.cols == 0 { 1 } else { self.cols },
            ))
        }
    }

    /// The view after switching to slot `i`; an empty slot gets a tab for
    /// `created`. `None` (no change) when the slot is empty and no session
    /// was created for it.
    pub open spec fn after_switch(self, i: int, created: Option<SessionId>) -> Option<WorkspaceView> {
        if self.tabs[i] is Some {
            Some(WorkspaceView { current: i as nat, ..self })
        } else {
            match created {
                Some(id) => Some(
                    WorkspaceView { current: i as nat, ..self.with_slot(i, Some(TabView::single(id))) },
                ),
                None => None,
            }
        }
    }

    /// The view after putting `session` into slot `target`, as the tab's
    /// new focused pane split off vertically, or as a new tab in an empty
    /// slot, and making that slot current. `None` when the slot holds a tab
    /// without panes.
    pub open spec fn placed(self, session: SessionId, target: int) -> Option<WorkspaceView> {
        match self.tabs[target] {
            Some(t) => if t.active is Some {
                Some(
                    WorkspaceView {
                        current: target as nat,
                        ..self.with_slot(target, Some(t.after_split(SplitDirection::Vertical, session)))
                    },
                )
            } else {
                None
            },
            None => Some(
                WorkspaceView {
                    current: target as nat,
                    ..self.with_slot(target, Some(TabView::single(session)))
                },
            ),
        }
    }

    /// The view after moving `session` from the first other tab that shows
    /// it into slot `target`; `None` (no change) when `target` is out of
    /// range or current, or no other tab shows `session`. When the target
    /// holds a tab without panes the session ends up detached.
    pub open spec fn after_move(self, session: SessionId, target: int) -> Option<WorkspaceView> {
        if target < 0 || target >= TAB_COUNT || target == self.current {
            None
        } else {
            match first_holder_from(self.tabs, session, target, 0) {
                None => None,
                Some(src) => {
                    let removed = WorkspaceView {
                        detached: without_session(self.detached, session),
                        ..self.with_slot(src, Some(self.tabs[src]->0.after_remove(session)))
                    };
                    match removed.placed(session, target) {
                        Some(v) => Some(v),
                        None => Some(
                            WorkspaceView {
                                current: target as nat,
                                detached: removed.detached.push(session),
                                ..removed
                            },
                        ),
                    }
                },
            }
        }
    }

    /// The view after detaching the focused session of the current tab;
    /// `None` when it has none. A tab left without panes goes, and the
    /// nearest tab before it becomes current.
    pub open spec fn after_detach(self) -> Option<WorkspaceView> {
        match self.active() {
            None => None,
            Some(a) => {
                let t = self.current_slot()->0.after_remove(a);
                let detached = self.detached.push(a);
                if t.root is None {
                    let tabs = self.tabs.update(self.current as int, None);
                    Some(
                        WorkspaceView {
                            tabs,
                            detached,
                            current: previous_live_or_stay(tabs, self.current as int) as nat,
                            ..self
                        },
                    )
                } else {
                    Some(WorkspaceView { detached, ..self.with_slot(self.current as int, Some(t)) })
                }
            },
        }
    }

    /// The view after bringing the detached `session` back into slot
    /// `target`. With `None` nothing changes except, when `target` holds a
    /// tab without panes, that `session` moves to the end of the detached
    /// sessions.
    pub open spec fn after_reattach(self, session: SessionId, target: int) -> Option<WorkspaceView> {
        if target < 0 || target >= TAB_COUNT || !self.detached.contains(session) {
            None
        } else {
            let removed = WorkspaceView {
                detached: without_session(self.detached, session),
                ..self
            };
            removed.placed(session, target)
        }
    }

    /// The view after the session `id` has closed: it is no longer
    /// detached, its panes are gone, tabs left without panes are gone, and
    /// when the current tab went the nearest tab before it becomes current.
    pub open spec fn after_close(self, id: SessionId) -> WorkspaceView {
        let tabs = Seq::new(TAB_COUNT as nat, |i: int| slot_after_close(self.tabs[i], id));
        let current_went = self.tabs[self.current as int] is Some && tabs[self.current as int] is None;
        WorkspaceView {
            tabs,
            detached: without_session(self.detached, id),
            current: if current_went {
                previous_live_or_stay(tabs, self.current as int) as nat
            } else {
                self.current
            },
            ..self
        }
    }

    /// The size (rows, columns) of a session opened on its own (in a folder
    /// or on a remote host): the pane area of the window, at least one cell
    /// each way. `None` when it would have nowhere to go: no slot is free and
    /// the current slot is empty.
    pub open spec fn new_session_size(self) -> Option<(u16, u16)> {
        if first_free_from(self.tabs, 0) is Some || self.current_slot() is Some {
            Some((
                if self.terminal_rows() == 0 { 1 } else { self.terminal_rows() },
                if self.cols == 0 { 1 } else { self.cols },
            ))
        } else {
            None
        }
    }

    /// The view after placing a session opened on its own: as a new tab in
    /// the first free slot, which becomes current, or else split off the
    /// focused pane of the current tab horizontally.
    pub open spec fn after_place_new(self, session: SessionId) -> WorkspaceView {
        match first_free_from(self.tabs, 0) {
            Some(free) => WorkspaceView {
                current: free as nat,
                ..self.with_slot(free, Some(TabView::single(session)))
            },
            None => match self.current_slot() {
                Some(t) => self.with_slot(
                    self.current as int,
                    Some(t.after_split(SplitDirection::Horizontal, session)),
                ),
                None => self,
            },
        }
    }

    /// The sessions of every tab, slot by slot and left to right in each.
    pub open spec fn all_sessions(self) -> Seq<SessionId> {
        all_sessions_from(self.tabs, 0)
    }
}

/// The size each pane gives its session: (session, rows, columns), at least
/// one row and one column.
pub open spec fn pane_sizes(panes: Seq<(SessionId, PaneGeometry)>) -> Seq<(SessionId, u16, u16)> {
    panes.map_values(
        |p: (SessionId, PaneGeometry)|
            (p.0, if p.1.rows == 0 { 1u16 } else { p.1.rows }, if p.1.cols == 0 { 1u16 } else { p.1.cols }),
    )
}

/// The sessions of the tabs in slots `from` on.
pub open spec fn all_sessions_from(tabs: Seq<Option<TabView>>, from: int) -> Seq<SessionId>
    decreases tabs.len() - from,
{
    if from < 0 || from >= tabs.len() {
        Seq::empty()
    } else {
        match tabs[from] {
            Some(t) => t.sessions() + all_sessions_from(tabs, from + 1),
            None => all_sessions_from(tabs, from + 1),
        }
    }
}

/// The status bar entries, as (label, is current), of the tabs in slots
/// `from` on: the slot's number counted from 1, a space, and the name in
/// `names` for that slot.
pub open spec fn status_entries_from(
    tabs: Seq<Option<TabView>>,
    names: Seq<Seq<char>>,
    current: nat,
    from: int,
) -> Seq<(Seq<char>, bool)>
    decreases tabs.len() - from,
{
    if from < 0 || from >= tabs.len() {
        Seq::empty()
    } else {
        let rest = status_entries_from(tabs, names, current, from + 1);
        if tabs[from] is Some {
            seq![(decimal((from + 1) as nat) + seq![' '] + names[from], from == current)] + rest
        } else {
            rest
        }
    }
}

/// The label and whether it is current, of each entry.
pub open spec fn status_tab_views(entries: Seq<RenderStatusTab>) -> Seq<(Seq<char>, bool)> {
    entries.map_values(|e: RenderStatusTab| (e.label@, e.is_active))
}

/// A tab's entry in the status bar.
pub struct RenderStatusTab {
    pub label: String,
    pub is_active: bool,
}

/// What a key does in the list of detached sessions.
#[derive(Clone, Copy, Debug, PartialEq, Eq, Structural)]
pub enum DetachedAction {
    /// Nothing.
    Nothing,
    /// Move the selection down.
    SelectNext,
    /// Move the selection up.
    SelectPrevious,
    /// Make this session (or none) the one to rename.
    SetRenameTarget(Option<SessionId>),
    /// Bring this session back into this tab slot.
    Reattach(SessionId, usize),
}

/// What `code` does in the list of detached sessions `live`, with row
/// `selected` selected, `current` being the current tab slot: the arrows
/// move the selection, R picks the selected session to rename, and Enter or
/// a digit brings it back into the current slot or the digit's slot.
pub open spec fn detached_action(
    code: KeyCode,
    selected: Option<usize>,
    live: Seq<SessionId>,
    current: usize,
) -> DetachedAction {
    match code {
        KeyCode::ArrowDown => DetachedAction::SelectNext,
        KeyCode::ArrowUp => DetachedAction::SelectPrevious,
        KeyCode::KeyR => match selected {
            Some(s) => DetachedAction::SetRenameTarget(
                if s < live.len() {
                    Some(live[s as int])
                } else {
                    None
                },
            ),
            None => DetachedAction::Nothing,
        },
        _ => if code == KeyCode::Enter || digit_tab(code) is Some {
            match selected {
                Some(s) => if s < live.len() {
                    DetachedAction::Reattach(
                        live[s as int],
                        match digit_tab(code) {
                            Some(t) => t,
                            None => current,
                        },
                    )
                } else {
                    DetachedAction::Nothing
                },
                None => DetachedAction::Nothing,
            }
        } else {
            DetachedAction::Nothing
        },
    }
}

/// What a key does in the list of detached sessions (see `detached_action`).
pub fn detached_key(code: KeyCode, selected: Option<usize>, live: &Vec<SessionId>, current: usize) -> (r:
    DetachedAction)
    ensures
        r == detached_action(code, selected, live@, current),
{
    match code {
        KeyCode::ArrowDown => DetachedAction::SelectNext,
        KeyCode::ArrowUp => DetachedAction::SelectPrevious,
        KeyCode::KeyR => match selected {
            Some(s) => DetachedAction::SetRenameTarget(
                if s < live.len() {
                    Some(live[s])
                } else {
                    None
                },
            ),
            None => DetachedAction::Nothing,
        },
        _ => {
            let digit = tab_digit_index(code);
            if code != KeyCode::Enter && digit.is_none() {
                return DetachedAction::Nothing;
            }
            match selected {
                Some(s) => if s < live.len() {
                    let target = match digit {
                        Some(t) => t,
                        None => current,
                    };
                    DetachedAction::Reattach(live[s], target)
                } else {
                    DetachedAction::Nothing
                },
                None => DetachedAction::Nothing,
            }
        },
    }
}

/// The tabs of a window and the sessions detached from them.
pub struct Workspace {
    tabs: Vec<Option<Tab>>,
    current_tab: usize,
    detached_sessions: Vec<SessionId>,
    rows: u16,
    cols: u16,
    status_bar_hidden: bool,
}

impl View for Workspace {
    type V = WorkspaceView;

    closed spec fn view(&self) -> WorkspaceView {
        WorkspaceView {
            tabs: tab_views(self.tabs@),
            current: self.current_tab as nat,
            detached: self.detached_sessions@,
            rows: self.rows,
            cols: self.cols,
            status_bar_hidden: self.status_bar_hidden,
        }
    }
}

impl Workspace {
    /// A window of `rows` by `cols` cells with nine empty tab slots; the
    /// first is current.
    pub fn new(rows: u16, cols: u16) -> (r: Self)
        ensures
            r@ == (WorkspaceView {
                tabs: Seq::new(TAB_COUNT as nat, |i: int| None),
                current: 0,
                detached: Seq::empty(),
                rows,
                cols,
                status_bar_hidden: false,
            }),
            r@.wf(),
    {
        let mut tabs: Vec<Option<Tab>> = Vec::new();
        let mut i: usize = 0;
        while i < TAB_COUNT
            invariant
                i <= TAB_COUNT,
                tabs@.len() == i,
                forall|k: int| 0 <= k < i ==> tabs@[k] is None,
            decreases TAB_COUNT - i,
        {
            tabs.push(None);
            i = i + 1;
        }
        assert(tab_views(tabs@) =~= Seq::new(TAB_COUNT as nat, |j: int| None::<TabView>));
        let r = Workspace {
            tabs,
            current_tab: 0,
            detached_sessions: Vec::new(),
            rows,
            cols,
            status_bar_hidden: false,
        };
        assert(r@.detached =~= Seq::<SessionId>::empty());
        r
    }

    /// The window size in cells.
    pub fn set_size(&mut self, rows: u16, cols: u16)
        ensures
            final(self)@ == (WorkspaceView { rows, cols, ..old(self)@ }),
    {
        self.rows = rows;
        self.cols = cols;
    }

    /// Shows the status bar when hidden, hides it when shown.
    pub fn toggle_status_bar(&mut self)
        ensures
            final(self)@ == (WorkspaceView {
                status_bar_hidden: !old(self)@.status_bar_hidden,
                ..old(self)@
            }),
    {
        self.status_bar_hidden = !self.status_bar_hidden;
    }

    /// Shows the status bar.
    pub fn show_status_bar(&mut self)
        ensures
            final(self)@ == (WorkspaceView { status_bar_hidden: false, ..old(self)@ }),
    {
        self.status_bar_hidden = false;
    }

    /// Whether the status bar is hidden.
    pub fn status_bar_hidden(&self) -> (r: bool)
        ensures
            r == self@.status_bar_hidden,
    {
        self.status_bar_hidden
    }

    /// The window's rows.
    pub fn rows(&self) -> (r: u16)
        ensures
            r == self@.rows,
    {
        self.rows
    }

    /// The window's columns.
    pub fn cols(&self) -> (r: u16)
        ensures
            r == self@.cols,
    {
        self.cols
    }

    /// The current tab slot.
    pub fn current_tab(&self) -> (r: usize)
        ensures
            r == self@.current,
    {
        self.current_tab
    }

    /// The sessions detached from every tab, in the order they were
    /// detached.
    pub fn detached_sessions(&self) -> (r: &Vec<SessionId>)
        ensures
            r@ == self@.detached,
    {
        &self.detached_sessions
    }

    /// The rows left for panes (see `WorkspaceView::terminal_rows`).
    pub fn terminal_rows(&self) -> (r: u16)
        ensures
            r == self@.terminal_rows(),
    {
        if self.rows > STATUS_BAR_ROWS && !self.status_bar_hidden {
            self.rows - STATUS_BAR_ROWS
        } else {
            self.rows
        }
    }

    /// The area that a tab's panes share.
    pub fn area(&self) -> (r: PaneGeometry)
        ensures
            r == self@.area(),
    {
        PaneGeometry { x: 0, y: 0, cols: self.cols, rows: self.terminal_rows() }
    }

    /// The slot after the current one, wrapping around.
    pub fn next_tab_index(&self) -> (r: usize)
        requires
            self@.wf(),
        ensures
            r == next_index(self@.current),
    {
        (self.current_tab + 1) % TAB_COUNT
    }

    /// The slot before the current one, wrapping around.
    pub fn previous_tab_index(&self) -> (r: usize)
        requires
            self@.wf(),
        ensures
            r == previous_index(self@.current),
    {
        if self.current_tab == 0 {
            TAB_COUNT - 1
        } else {
            self.current_tab - 1
        }
    }

    /// Whether slot `i` holds a tab.
    pub fn has_tab(&self, i: usize) -> (r: bool)
        requires
            self@.wf(),
            i < TAB_COUNT,
        ensures
            r == self@.tabs[i as int] is Some,
    {
        self.tabs[i].is_some()
    }

    /// The sessions of the tab in slot `i`, left to right (none for an empty
    /// slot).
    pub fn tab_sessions(&self, i: usize) -> (r: Vec<SessionId>)
        requires
            self@.wf(),
            i < TAB_COUNT,
        ensures
            r@ == self@.sessions_of(i as int),
    {
        match &self.tabs[i] {
            Some(t) => t.sessions(),
            None => Vec::new(),
        }
    }

    /// The focused session of the tab in slot `i`.
    pub fn tab_active_session(&self, i: usize) -> (r: Option<SessionId>)
        requires
            self@.wf(),
            i < TAB_COUNT,
        ensures
            r == match self@.tabs[i as int] {
                Some(t) => t.active,
                None => None,
            },
    {
        match &self.tabs[i] {
            Some(t) => t.active_session(),
            None => None,
        }
    }

    /// The number of slots that hold a tab.
    pub fn tab_count(&self) -> (r: usize)
        requires
            self@.wf(),
        ensures
            r == self@.tabs.filter(|t: Option<TabView>| t is Some).len(),
    {
        let ghost views = self@.tabs;
        let mut n: usize = 0;
        let mut i: usize = 0;
        while i < self.tabs.len()
            invariant
                i <= self.tabs@.len(),
                views == tab_views(self.tabs@),
                n == views.take(i as int).filter(|t: Option<TabView>| t is Some).len(),
                n <= i,
            decreases self.tabs.len() - i,
        {
            proof {
                reveal(Seq::filter);
                assert(views.take(i + 1).drop_last() =~= views.take(i as int));
            }
            if self.tabs[i].is_some() {
                n = n + 1;
            }
            i = i + 1;
        }
        assert(views.take(self.tabs@.len() as int) =~= views);
        n
    }

    /// The focused session of the current tab.
    pub fn active_session(&self) -> (r: Option<SessionId>)
        requires
            self@.wf(),
        ensures
            r == self@.active(),
    {
        match &self.tabs[self.current_tab] {
            Some(t) => t.active_session(),
            None => None,
        }
    }

    /// The panes of the current tab laid out in the window.
    pub fn tab_layouts(&self) -> (r: Vec<(SessionId, PaneGeometry)>)
        requires
            self@.wf(),
        ensures
            r@ == self@.layouts(),
    {
        let area = self.area();
        match &self.tabs[self.current_tab] {
            Some(t) => t.layout(area),
            None => Vec::new(),
        }
    }

    /// The dividers of the current tab laid out in the window.
    pub fn tab_dividers(&self) -> (r: Vec<Divider>)
        requires
            self@.wf(),
        ensures
            crate::pane::divider_views(r@) == match self@.tabs[self@.current as int] {
                Some(t) => match t.root {
                    Some(root) => root.layout_dividers(self@.area(), Seq::empty()),
                    None => Seq::empty(),
                },
                None => Seq::empty(),
            },
    {
        let area = self.area();
        match &self.tabs[self.current_tab] {
            Some(t) => t.dividers(area),
            None => {
                let r: Vec<Divider> = Vec::new();
                assert(crate::pane::divider_views(r@) =~= Seq::empty());
                r
            },
        }
    }

    /// The pane of the current tab under the 1-based cell `(col, row)` of the
    /// window (the first one, left to right, that holds it) and the cell
    /// relative to that pane.
    pub fn pane_hit_test(&self, col: u16, row: u16) -> (r: Option<(SessionId, u16, u16)>)
        requires
            self@.wf(),
        ensures
            ({
                let panes = self@.layouts();
                match r {
                    Some((s, c, w)) => exists|i: int|
                        0 <= i < panes.len() && panes[i].1.holds_cell(col, row) && (forall|j: int|
                            0 <= j < i ==> !panes[j].1.holds_cell(col, row)) && s == panes[i].0
                            && c == sat_sub(col, panes[i].1.x) && w == sat_sub(row, panes[i].1.y),
                    None => forall|j: int| 0 <= j < panes.len() ==> !panes[j].1.holds_cell(col, row),
                }
            }),
    {
        let panes = self.tab_layouts();
        let mut i: usize = 0;
        while i < panes.len()
            invariant
                i <= panes@.len(),
                panes@ == self@.layouts(),
                forall|j: int| 0 <= j < i ==> !panes@[j].1.holds_cell(col, row),
            decreases panes.len() - i,
        {
            let (session, geometry) = panes[i];
            if geometry.contains_global_cell(col, row) {
                let (c, w) = geometry.local_cell(col, row);
                return Some((session, c, w));
            }
            i = i + 1;
        }
        None
    }

    /// Gives the focus to `session` if a pane of the current tab shows it.
    pub fn set_active_session(&mut self, session: SessionId) -> (r: bool)
        requires
            old(self)@.wf(),
        ensures
            final(self)@.wf(),
            r == (old(self)@.current_slot() is Some && old(self)@.current_slot()->0.sessions().contains(
                session,
            )),
            final(self)@ == if r {
                old(self)@.with_slot(
                    old(self)@.current as int,
                    Some(TabView { active: Some(session), ..old(self)@.current_slot()->0 }),
                )
            } else {
                old(self)@
            },
    {
        let cur = self.current_tab;
        if self.tabs[cur].is_none() {
            return false;
        }
        let slot = self.replace_tab(cur, None);
        let mut t = match slot {
            Some(t) => t,
            None => return false,
        };
        let r = t.set_active_session(session);
        self.replace_tab(cur, Some(t));
        proof {
            lemma_with_slot_twice(old(self)@, cur as int, None, Some(t@));
            if !r {
                assert(self@.tabs =~= old(self)@.tabs);
            }
        }
        r
    }

    /// Moves the focus of the current tab to its next pane. Returns the
    /// focused session afterwards; `None` when the current slot is empty or
    /// its tab has no panes.
    pub fn focus_next_pane(&mut self) -> (r: Option<SessionId>)
        requires
            old(self)@.wf(),
        ensures
            final(self)@.wf(),
            match old(self)@.current_slot() {
                Some(t) => r == t.after_focus_next().active && final(self)@ == old(self)@.with_slot(
                    old(self)@.current as int,
                    Some(t.after_focus_next()),
                ),
                None => r is None && final(self)@ == old(self)@,
            },
    {
        let cur = self.current_tab;
        if self.tabs[cur].is_none() {
            return None;
        }
        let slot = self.replace_tab(cur, None);
        let mut t = match slot {
            Some(t) => t,
            None => return None,
        };
        let r = t.focus_next();
        self.replace_tab(cur, Some(t));
        proof {
            lemma_with_slot_twice(old(self)@, cur as int, None, Some(t@));
        }
        r
    }

    /// Moves the deepest split along `direction` above the focused pane of
    /// the current tab by `delta_first` cells, the tab laid out in the
    /// window's pane area. `false`, and no change, when there is no such
    /// split or the move is refused.
    pub fn resize_active_pane(&mut self, direction: SplitDirection, delta_first: i16) -> (r: bool)
        requires
            old(self)@.wf(),
        ensures
            final(self)@.wf(),
            match old(self)@.current_slot() {
                Some(t) => match t.resized_active(old(self)@.area(), direction, delta_first as int) {
                    Some(u) => r && final(self)@ == old(self)@.with_slot(
                        old(self)@.current as int,
                        Some(u),
                    ),
                    None => !r && final(self)@ == old(self)@,
                },
                None => !r && final(self)@ == old(self)@,
            },
    {
        let area = self.area();
        let cur = self.current_tab;
        if self.tabs[cur].is_none() {
            return false;
        }
        let slot = self.replace_tab(cur, None);
        let mut t = match slot {
            Some(t) => t,
            None => return false,
        };
        let r = t.resize_active_split(area, direction, delta_first);
        self.replace_tab(cur, Some(t));
        proof {
            lemma_with_slot_twice(old(self)@, cur as int, None, Some(t@));
            if !r {
                assert(self@.tabs =~= old(self)@.tabs);
            }
        }
        r
    }

    /// Moves the split at `path` of the current tab, along `direction`, to
    /// the grid position `position` (a column or a row of the window,
    /// counted from 0). `false`, and no change, when the current slot is
    /// empty, `path` leads to no such split, or the move is refused.
    pub fn resize_dragged_divider(
        &mut self,
        path: &[PanePathStep],
        direction: SplitDirection,
        position: i32,
    ) -> (r: bool)
        requires
            old(self)@.wf(),
        ensures
            final(self)@.wf(),
            match old(self)@.current_slot() {
                Some(t) => match t.repositioned(old(self)@.area(), path@, direction, position as int) {
                    Some(u) => r && final(self)@ == old(self)@.with_slot(
                        old(self)@.current as int,
                        Some(u),
                    ),
                    None => !r && final(self)@ == old(self)@,
                },
                None => !r && final(self)@ == old(self)@,
            },
    {
        let area = self.area();
        let cur = self.current_tab;
        if self.tabs[cur].is_none() {
            return false;
        }
        let slot = self.replace_tab(cur, None);
        let mut t = match slot {
            Some(t) => t,
            None => return false,
        };
        let r = t.resize_split_by_position(area, path, direction, position);
        self.replace_tab(cur, Some(t));
        proof {
            lemma_with_slot_twice(old(self)@, cur as int, None, Some(t@));
            if !r {
                assert(self@.tabs =~= old(self)@.tabs);
            }
        }
        r
    }

    /// The size (rows, columns) of the session that splitting the focused
    /// pane of the current tab along `direction` makes room for: half the
    /// pane's rows for a horizontal split, half its columns for a vertical
    /// one. `None` when there is no focused pane or it is too small to split.
    pub fn split_plan(&self, direction: SplitDirection) -> (r: Option<(u16, u16)>)
        requires
            self@.wf(),
        ensures
            r == self@.split_plan(direction),
    {
        let active = match self.active_session() {
            Some(a) => a,
            None => return None,
        };
        let panes = self.tab_layouts();
        let mut i: usize = 0;
        while i < panes.len()
            invariant
                i <= panes@.len(),
                panes@ == self@.layouts(),
                self@.active() == Some(active),
                pane_of(panes@, active, 0) == pane_of(panes@, active, i as int),
            decreases panes.len() - i,
        {
            let (session, geometry) = panes[i];
            if session == active {
                assert(pane_of(panes@, active, i as int) == Some(geometry));
                let can_split = match direction {
                    SplitDirection::Horizontal => geometry.rows >= 2,
                    SplitDirection::Vertical => geometry.cols >= 2,
                };
                if !can_split {
                    return None;
                }
                let rows = match direction {
                    SplitDirection::Horizontal => geometry.rows / 2,
                    SplitDirection::Vertical => geometry.rows,
                };
                let cols = match direction {
                    SplitDirection::Horizontal => geometry.cols,
                    SplitDirection::Vertical => geometry.cols / 2,
                };
                let rows = if rows == 0 { 1 } else { rows };
                let cols = if cols == 0 { 1 } else { cols };
                return Some((rows, cols));
            }
            i = i + 1;
        }
        None
    }

    /// Splits the focused pane of the current tab along `direction`; the new
    /// half shows `session`, which gets the focus. `false`, and no change,
    /// when the current slot is empty or its tab has no panes.
    pub fn split_current_tab(&mut self, direction: SplitDirection, session: SessionId) -> (r: bool)
        requires
            old(self)@.wf(),
        ensures
            final(self)@.wf(),
            r == (old(self)@.current_slot() is Some && old(self)@.current_slot()->0.active is Some),
            final(self)@ == if r {
                old(self)@.with_slot(
                    old(self)@.current as int,
                    Some(old(self)@.current_slot()->0.after_split(direction, session)),
                )
            } else {
                old(self)@
            },
    {
        let cur = self.current_tab;
        if self.tabs[cur].is_none() {
            return false;
        }
        let slot = self.replace_tab(cur, None);
        let mut t = match slot {
            Some(t) => t,
            None => return false,
        };
        let r = t.split_active(direction, session);
        self.replace_tab(cur, Some(t));
        proof {
            lemma_with_slot_twice(old(self)@, cur as int, None, Some(t@));
            if !r {
                assert(self@.tabs =~= old(self)@.tabs);
            }
        }
        r
    }

    /// The size (rows, columns) of the session that switching to the empty
    /// slot `i` starts: the pane area of the window, at least one cell each
    /// way. `None` when the slot holds a tab already.
    pub fn new_tab_size(&self, i: usize) -> (r: Option<(u16, u16)>)
        requires
            self@.wf(),
            i < TAB_COUNT,
        ensures
            r == self@.new_tab_size(i as int),
    {
        if self.tabs[i].is_some() {
            return None;
        }
        let rows = self.terminal_rows();
        let rows = if rows == 0 { 1 } else { rows };
        let cols = if self.cols == 0 { 1 } else { self.cols };
        Some((rows, cols))
    }

    /// Makes slot `i` current. An empty slot gets a tab with one pane showing
    /// `created`, the session started for it; when none was started the
    /// switch fails, `false` and no change.
    pub fn switch_tab(&mut self, i: usize, created: Option<SessionId>) -> (r: bool)
        requires
            old(self)@.wf(),
            i < TAB_COUNT,
        ensures
            final(self)@.wf(),
            match old(self)@.after_switch(i as int, created) {
                Some(v) => r && final(self)@ == v,
                None => !r && final(self)@ == old(self)@,
            },
    {
        if self.tabs[i].is_none() {
            match created {
                Some(id) => {
                    self.replace_tab(i, Some(Tab::new(id)));
                },
                None => return false,
            }
        }
        self.current_tab = i;
        true
    }

    /// The slot, after `skip`, of the first tab that shows `session`.
    fn first_holder(&self, session: SessionId, skip: usize) -> (r: Option<usize>)
        requires
            self@.wf(),
        ensures
            match first_holder_from(self@.tabs, session, skip as int, 0) {
                Some(k) => r == Some(k as usize),
                None => r is None,
            },
    {
        let mut i: usize = 0;
        while i < TAB_COUNT
            invariant
                i <= TAB_COUNT,
                self@.wf(),
                first_holder_from(self@.tabs, session, skip as int, 0) == first_holder_from(
                    self@.tabs,
                    session,
                    skip as int,
                    i as int,
                ),
            decreases TAB_COUNT - i,
        {
            if i != skip {
                if let Some(t) = &self.tabs[i] {
                    if t.contains_session(session) {
                        return Some(i);
                    }
                }
            }
            i = i + 1;
        }
        None
    }

    /// The slot that becomes current once the tab in slot `closed` has gone
    /// (see `previous_live_or_stay`).
    fn previous_live_or_stay(&self, closed: usize) -> (r: usize)
        requires
            self@.wf(),
            closed < TAB_COUNT,
        ensures
            r == previous_live_or_stay(self@.tabs, closed as int),
            r < TAB_COUNT,
    {
        proof {
            lemma_previous_live(self@.tabs, closed as int, 0);
        }
        let mut offset: usize = 0;
        while offset < TAB_COUNT
            invariant
                offset <= TAB_COUNT,
                closed < TAB_COUNT,
                self@.wf(),
                previous_live_from(self@.tabs, closed as int, 0) == previous_live_from(
                    self@.tabs,
                    closed as int,
                    offset as int,
                ),
            decreases TAB_COUNT - offset,
        {
            let t = (closed + TAB_COUNT - 1 - offset) % TAB_COUNT;
            if self.tabs[t].is_some() {
                return t;
            }
            offset = offset + 1;
        }
        closed
    }

    /// Puts `session` into slot `target`, as the new focused pane split off
    /// the focused one vertically, or as a new tab in an empty slot, and
    /// makes that slot current. `false`, and no change, when the slot holds a
    /// tab without panes.
    fn place(&mut self, session: SessionId, target: usize) -> (r: bool)
        requires
            old(self)@.wf(),
            target < TAB_COUNT,
        ensures
            final(self)@.wf(),
            match old(self)@.placed(session, target as int) {
                Some(v) => r && final(self)@ == v,
                None => !r && final(self)@ == old(self)@,
            },
    {
        let slot = self.replace_tab(target, None);
        match slot {
            Some(mut t) => {
                let r = t.split_active(SplitDirection::Vertical, session);
                self.replace_tab(target, Some(t));
                proof {
                    lemma_with_slot_twice(old(self)@, target as int, None, Some(t@));
                    if !r {
                        assert(self@.tabs =~= old(self)@.tabs);
                    }
                }
                if !r {
                    return false;
                }
            },
            None => {
                self.replace_tab(target, Some(Tab::new(session)));
                proof {
                    lemma_with_slot_twice(
                        old(self)@,
                        target as int,
                        None,
                        Some(TabView::single(session)),
                    );
                }
            },
        }
        self.current_tab = target;
        true
    }

    /// Moves `session` from the first tab other than slot `target` that shows
    /// it into slot `target`, which becomes current: into the tab there as
    /// its new focused pane, split off vertically, or as a new tab in an
    /// empty slot. The session is no longer detached, unless the tab there
    /// has no panes, in which case it ends up detached. `false`, and no
    /// change, when `target` is out of range or current, or no other tab
    /// shows `session`.
    pub fn move_session_to_tab(&mut self, session: SessionId, target: usize) -> (r: bool)
        requires
            old(self)@.wf(),
        ensures
            final(self)@.wf(),
            match old(self)@.after_move(session, target as int) {
                Some(v) => r && final(self)@ == v,
                None => !r && final(self)@ == old(self)@,
            },
    {
        if target >= TAB_COUNT || target == self.current_tab {
            return false;
        }
        let src = match self.first_holder(session, target) {
            Some(src) => src,
            None => return false,
        };
        proof {
            lemma_first_holder(self@.tabs, session, target as int, 0);
        }
        let slot = self.replace_tab(src, None);
        let mut t = match slot {
            Some(t) => t,
            None => return false,
        };
        t.remove_session(session);
        self.replace_tab(src, Some(t));
        self.detached_sessions = without(&self.detached_sessions, session);
        proof {
            lemma_with_slot_twice(old(self)@, src as int, None, Some(t@));
        }
        if !self.place(session, target) {
            self.detached_sessions.push(session);
            self.current_tab = target;
        }
        true
    }

    /// Detaches the focused session of the current tab: its pane goes and it
    /// joins the detached sessions. A tab left without panes goes, and the
    /// nearest tab before it becomes current. `false`, and no change, when
    /// the current tab has no focused session.
    pub fn detach_active_session(&mut self) -> (r: bool)
        requires
            old(self)@.wf(),
        ensures
            final(self)@.wf(),
            match old(self)@.after_detach() {
                Some(v) => r && final(self)@ == v,
                None => !r && final(self)@ == old(self)@,
            },
    {
        let active = match self.active_session() {
            Some(a) => a,
            None => return false,
        };
        let cur = self.current_tab;
        let slot = self.replace_tab(cur, None);
        let mut t = match slot {
            Some(t) => t,
            None => return false,
        };
        t.remove_session(active);
        self.detached_sessions.push(active);
        if t.is_empty() {
            let prev = self.previous_live_or_stay(cur);
            self.current_tab = prev;
        } else {
            self.replace_tab(cur, Some(t));
            proof {
                lemma_with_slot_twice(old(self)@, cur as int, None, Some(t@));
            }
        }
        true
    }

    /// Brings the detached `session` back into slot `target`, which becomes
    /// current: into the tab there as its new focused pane, split off
    /// vertically, or as a new tab in an empty slot. `false` when `target` is
    /// out of range or `session` is not detached (no change), or when the tab
    /// there has no panes (the session then moves to the end of the detached
    /// sessions).
    pub fn reattach_session(&mut self, session: SessionId, target: usize) -> (r: bool)
        requires
            old(self)@.wf(),
        ensures
            final(self)@.wf(),
            match old(self)@.after_reattach(session, target as int) {
                Some(v) => r && final(self)@ == v,
                None => !r && final(self)@ == if target < TAB_COUNT && old(self)@.detached.contains(
                    session,
                ) {
                    WorkspaceView {
                        detached: without_session(old(self)@.detached, session).push(session),
                        ..old(self)@
                    }
                } else {
                    old(self)@
                },
            },
    {
        if target >= TAB_COUNT || !holds(&self.detached_sessions, session) {
            return false;
        }
        self.detached_sessions = without(&self.detached_sessions, session);
        if self.place(session, target) {
            true
        } else {
            self.detached_sessions.push(session);
            false
        }
    }

    /// Forgets the session `id`, which has closed: it is no longer detached,
    /// its panes go, and so does every tab left without panes by that. When
    /// the current tab went, the nearest tab before it becomes current.
    /// Returns whether the current tab went.
    pub fn close_session(&mut self, id: SessionId) -> (r: bool)
        requires
            old(self)@.wf(),
        ensures
            final(self)@.wf(),
            final(self)@ == old(self)@.after_close(id),
            r == (old(self)@.current_slot() is Some && final(self)@.tabs[old(self)@.current as int]
                is None),
    {
        self.detached_sessions = without(&self.detached_sessions, id);
        let cur = self.current_tab;
        let ghost before = self@;
        let mut removed_current = false;
        let mut i: usize = 0;
        while i < TAB_COUNT
            invariant
                i <= TAB_COUNT,
                cur == self.current_tab,
                cur < TAB_COUNT,
                self@.wf(),
                before.wf(),
                self@.detached == before.detached,
                self@.rows == before.rows,
                self@.cols == before.cols,
                self@.status_bar_hidden == before.status_bar_hidden,
                self@.current == before.current,
                forall|j: int| 0 <= j < i ==> #[trigger] self@.tabs[j] == slot_after_close(before.tabs[j], id),
                forall|j: int| i <= j < TAB_COUNT ==> #[trigger] self@.tabs[j] == before.tabs[j],
                removed_current == (cur < i && before.tabs[cur as int] is Some
                    && slot_after_close(before.tabs[cur as int], id) is None),
            decreases TAB_COUNT - i,
        {
            if self.tabs[i].is_some() {
                let slot = self.replace_tab(i, None);
                if let Some(mut t) = slot {
                    if t.remove_session(id) {
                        if t.is_empty() {
                            if i == cur {
                                removed_current = true;
                            }
                        } else {
                            self.replace_tab(i, Some(t));
                        }
                    } else {
                        self.replace_tab(i, Some(t));
                    }
                }
            }
            i = i + 1;
        }
        proof {
            assert(self@.tabs =~= Seq::new(TAB_COUNT as nat, |j: int| slot_after_close(before.tabs[j], id)));
        }
        if removed_current {
            let prev = self.previous_live_or_stay(cur);
            self.current_tab = prev;
        }
        removed_current
    }

    /// The detached sessions that are in `live`, in the order they were
    /// detached.
    pub fn live_detached_sessions(&self, live: &Vec<SessionId>) -> (r: Vec<SessionId>)
        ensures
            r@ == self@.detached.filter(|d: SessionId| live@.contains(d)),
    {
        let mut out: Vec<SessionId> = Vec::new();
        let mut i: usize = 0;
        while i < self.detached_sessions.len()
            invariant
                i <= self.detached_sessions@.len(),
                out@ == self.detached_sessions@.take(i as int).filter(|d: SessionId| live@.contains(d)),
            decreases self.detached_sessions.len() - i,
        {
            proof {
                reveal(Seq::filter);
                assert(self.detached_sessions@.take(i + 1).drop_last() =~= self.detached_sessions@.take(
                    i as int,
                ));
            }
            let d = self.detached_sessions[i];
            if holds(live, d) {
                out.push(d);
            }
            i = i + 1;
        }
        assert(self.detached_sessions@.take(self.detached_sessions@.len() as int)
            =~= self.detached_sessions@);
        out
    }

    /// The sessions of every tab, slot by slot and left to right in each.
    pub fn all_sessions(&self) -> (r: Vec<SessionId>)
        requires
            self@.wf(),
        ensures
            r@ == self@.all_sessions(),
    {
        let mut out: Vec<SessionId> = Vec::new();
        let mut i: usize = 0;
        while i < TAB_COUNT
            invariant
                i <= TAB_COUNT,
                self@.wf(),
                self@.all_sessions() == out@ + all_sessions_from(self@.tabs, i as int),
            decreases TAB_COUNT - i,
        {
            let ghost before = out@;
            if let Some(t) = &self.tabs[i] {
                let mut more = t.sessions();
                out.append(&mut more);
                proof {
                    assert(before + (t@.sessions() + all_sessions_from(self@.tabs, i + 1)) =~= out@
                        + all_sessions_from(self@.tabs, i + 1));
                }
            }
            i = i + 1;
        }
        assert(out@ + all_sessions_from(self@.tabs, TAB_COUNT as int) =~= out@);
        out
    }

    /// Brings `session` to the front: the first tab that shows it becomes
    /// current, and its pane gets the focus. `false`, and no change, when no
    /// tab shows it.
    pub fn focus_session(&mut self, session: SessionId) -> (r: bool)
        requires
            old(self)@.wf(),
        ensures
            final(self)@.wf(),
            match first_holder_from(old(self)@.tabs, session, TAB_COUNT as int, 0) {
                Some(k) => r && final(self)@ == WorkspaceView {
                    current: k as nat,
                    ..old(self)@.with_slot(
                        k,
                        Some(TabView { active: Some(session), ..old(self)@.tabs[k]->0 }),
                    )
                },
                None => !r && final(self)@ == old(self)@,
            },
    {
        let k = match self.first_holder(session, TAB_COUNT) {
            Some(k) => k,
            None => return false,
        };
        proof {
            lemma_first_holder(self@.tabs, session, TAB_COUNT as int, 0);
        }
        self.current_tab = k;
        self.set_active_session(session)
    }

    /// The status bar's tab entries, one per slot that holds a tab, in slot
    /// order: the slot's number counted from 1, a space and the slot's name
    /// in `names` (the program its focused session runs), and whether the
    /// slot is current. `None` while the status bar is hidden.
    pub fn status_tabs(&self, names: &Vec<String>) -> (r: Option<Vec<RenderStatusTab>>)
        requires
            self@.wf(),
            names@.len() == TAB_COUNT,
        ensures
            match r {
                Some(entries) => !self@.status_bar_hidden && status_tab_views(entries@)
                    == status_entries_from(
                    self@.tabs,
                    names@.map_values(|n: String| n@),
                    self@.current,
                    0,
                ),
                None => self@.status_bar_hidden,
            },
    {
        if self.status_bar_hidden {
            return None;
        }
        let ghost name_views = names@.map_values(|n: String| n@);
        let mut entries: Vec<RenderStatusTab> = Vec::new();
        let mut i: usize = TAB_COUNT;
        while i > 0
            invariant
                i <= TAB_COUNT,
                self@.wf(),
                names@.len() == TAB_COUNT,
                name_views == names@.map_values(|n: String| n@),
                status_tab_views(entries@) == status_entries_from(
                    self@.tabs,
                    name_views,
                    self@.current,
                    i as int,
                ),
            decreases i,
        {
            i = i - 1;
            if self.tabs[i].is_some() {
                let mut label: Vec<char> = Vec::new();
                push_decimal(&mut label, (i + 1) as u64);
                label.push(' ');
                push_str(&mut label, names[i].as_str());
                let entry = RenderStatusTab { label: string_of(&label), is_active: i == self.current_tab };
                let ghost rest = entries@;
                entries.insert(0, entry);
                proof {
                    assert(label@ =~= decimal((i + 1) as nat) + seq![' '] + name_views[i as int]);
                    assert(status_tab_views(entries@) =~= seq![(label@, i == self.current_tab)]
                        + status_tab_views(rest));
                }
            }
        }
        Some(entries)
    }

    /// The size each session of the tab in slot `i` takes when the tab is
    /// laid out in the window: (session, rows, columns) per pane, left to
    /// right, at least one row and one column each; none for an empty slot.
    pub fn session_sizes(&self, i: usize) -> (r: Vec<(SessionId, u16, u16)>)
        requires
            self@.wf(),
            i < TAB_COUNT,
        ensures
            r@ == match self@.tabs[i as int] {
                Some(t) => match t.root {
                    Some(root) => pane_sizes(root.layout_panes(self@.area())),
                    None => Seq::empty(),
                },
                None => Seq::empty(),
            },
    {
        let area = self.area();
        let panes = match &self.tabs[i] {
            Some(t) => t.layout(area),
            None => Vec::new(),
        };
        let mut out: Vec<(SessionId, u16, u16)> = Vec::new();
        let mut k: usize = 0;
        while k < panes.len()
            invariant
                k <= panes@.len(),
                out@ == pane_sizes(panes@.take(k as int)),
            decreases panes.len() - k,
        {
            let (session, g) = panes[k];
            let rows = if g.rows == 0 { 1 } else { g.rows };
            let cols = if g.cols == 0 { 1 } else { g.cols };
            out.push((session, rows, cols));
            k = k + 1;
            assert(out@ =~= pane_sizes(panes@.take(k as int)));
        }
        assert(panes@.take(panes@.len() as int) =~= panes@);
        proof {
            if self@.tabs[i as int] is None {
                assert(pane_sizes(panes@) =~= Seq::empty());
            }
        }
        out
    }

    /// The first free slot.
    fn first_free(&self) -> (r: Option<usize>)
        requires
            self@.wf(),
        ensures
            match first_free_from(self@.tabs, 0) {
                Some(k) => r == Some(k as usize),
                None => r is None,
            },
    {
        let mut i: usize = 0;
        while i < TAB_COUNT
            invariant
                i <= TAB_COUNT,
                self@.wf(),
                first_free_from(self@.tabs, 0) == first_free_from(self@.tabs, i as int),
            decreases TAB_COUNT - i,
        {
            if self.tabs[i].is_none() {
                return Some(i);
            }
            i = i + 1;
        }
        None
    }

    /// The size of a session opened on its own (see
    /// `WorkspaceView::new_session_size`).
    pub fn new_session_size(&self) -> (r: Option<(u16, u16)>)
        requires
            self@.wf(),
        ensures
            r == self@.new_session_size(),
    {
        if self.first_free().is_none() && self.tabs[self.current_tab].is_none() {
            return None;
        }
        let rows = self.terminal_rows();
        let rows = if rows == 0 { 1 } else { rows };
        let cols = if self.cols == 0 { 1 } else { self.cols };
        Some((rows, cols))
    }

    /// Places `session`, opened on its own, as a new tab in the first free
    /// slot, which becomes current, or else splits it off the focused pane of
    /// the current tab horizontally (see `WorkspaceView::after_place_new`).
    pub fn place_new_session(&mut self, session: SessionId)
        requires
            old(self)@.wf(),
        ensures
            final(self)@.wf(),
            final(self)@ == old(self)@.after_place_new(session),
    {
        match self.first_free() {
            Some(free) => {
                proof {
                    lemma_first_free(self@.tabs, 0);
                }
                self.replace_tab(free, Some(Tab::new(session)));
                self.current_tab = free;
            },
            None => {
                let cur = self.current_tab;
                if self.tabs[cur].is_some() {
                    let split = self.split_current_tab(SplitDirection::Horizontal, session);
                    proof {
                        if !split {
                            assert(old(self)@.with_slot(cur as int, old(self)@.tabs[cur as int]).tabs
                                =~= old(self)@.tabs);
                        }
                    }
                }
            },
        }
    }

    /// Puts `t` into slot `i` and hands back what the slot held.
    fn replace_tab(&mut self, i: usize, t: Option<Tab>) -> (r: Option<Tab>)
        requires
            old(self)@.wf(),
            i < TAB_COUNT,
            t is Some ==> t->0@.wf(),
        ensures
            final(self)@ == old(self)@.with_slot(i as int, opt_view(t)),
            final(self)@.wf(),
            opt_view(r) == old(self)@.tabs[i as int],
            r is Some ==> r->0@.wf(),
    {
        let mut slot = t;
        std::mem::swap(&mut slot, &mut self.tabs[i]);
        proof {
            lemma_tab_views_update(old(self).tabs@, i as int, t);
        }
        slot
    }
}

/// The view of a slot.
pub open spec fn opt_view(t: Option<Tab>) -> Option<TabView> {
    match t {
        Some(t) => Some(t@),
        None => None,
    }
}

/// What `first_holder_from` finds is a tab, at or after `from` and other
/// than `skip`, that shows `session`.
proof fn lemma_first_holder(tabs: Seq<Option<TabView>>, session: SessionId, skip: int, from: int)
    ensures
        match first_holder_from(tabs, session, skip, from) {
            Some(k) => from <= k < tabs.len() && k != skip && tabs[k] is Some
                && tabs[k]->0.sessions().contains(session),
            None => true,
        },
    decreases tabs.len() - from,
{
    if 0 <= from < tabs.len() {
        lemma_first_holder(tabs, session, skip, from + 1);
    }
}

/// What `previous_live_from` finds is a slot that holds a tab.
proof fn lemma_previous_live(tabs: Seq<Option<TabView>>, closed: int, offset: int)
    requires
        tabs.len() == TAB_COUNT,
        0 <= closed < TAB_COUNT,
    ensures
        match previous_live_from(tabs, closed, offset) {
            Some(t) => 0 <= t < TAB_COUNT && tabs[t] is Some,
            None => true,
        },
    decreases TAB_COUNT - offset,
{
    if 0 <= offset < TAB_COUNT {
        lemma_previous_live(tabs, closed, offset + 1);
    }
}

/// Whether `v` holds `s`.
fn holds(v: &Vec<SessionId>, s: SessionId) -> (r: bool)
    ensures
        r == v@.contains(s),
{
    let mut i: usize = 0;
    while i < v.len()
        invariant
            i <= v@.len(),
            forall|j: int| 0 <= j < i ==> v@[j] != s,
        decreases v.len() - i,
    {
        if v[i] == s {
            return true;
        }
        i = i + 1;
    }
    false
}

/// `v` without `s`.
fn without(v: &Vec<SessionId>, s: SessionId) -> (r: Vec<SessionId>)
    ensures
        r@ == without_session(v@, s),
{
    let mut out: Vec<SessionId> = Vec::new();
    let mut i: usize = 0;
    while i < v.len()
        invariant
            i <= v@.len(),
            out@ == without_session(v@.take(i as int), s),
        decreases v.len() - i,
    {
        proof {
            reveal(Seq::filter);
            assert(v@.take(i + 1).drop_last() =~= v@.take(i as int));
        }
        if v[i] != s {
            out.push(v[i]);
        }
        i = i + 1;
    }
    assert(v@.take(v@.len() as int) =~= v@);
    out
}

/// Going to the next slot and then to the previous one comes back to where
/// it started, and so does the other order.
pub proof fn law_previous_undoes_next(i: nat)
    requires
        i < TAB_COUNT,
    ensures
        previous_index(next_index(i)) == i,
        next_index(previous_index(i)) == i,
{
}

/// Some slot holding a tab makes the search for the nearest live tab before
/// a closed one succeed.
proof fn lemma_previous_live_finds(tabs: Seq<Option<TabView>>, closed: int, k: int, offset: int)
    requires
        tabs.len() == TAB_COUNT,
        0 <= closed < TAB_COUNT,
        0 <= k < TAB_COUNT,
        tabs[k] is Some,
        0 <= offset <= (closed + TAB_COUNT - 1 - k) % (TAB_COUNT as int),
    ensures
        previous_live_from(tabs, closed, offset) is Some,
    decreases TAB_COUNT - offset,
{
    let t = (closed + TAB_COUNT - 1 - offset) % (TAB_COUNT as int);
    if tabs[t] is None {
        lemma_previous_live_finds(tabs, closed, k, offset + 1);
    }
}

/// The slot chosen after a tab goes holds a tab whenever any slot does.
proof fn lemma_previous_live_or_stay(tabs: Seq<Option<TabView>>, closed: int)
    requires
        tabs.len() == TAB_COUNT,
        0 <= closed < TAB_COUNT,
    ensures
        0 <= previous_live_or_stay(tabs, closed) < TAB_COUNT,
        (exists|k: int| 0 <= k < TAB_COUNT && #[trigger] tabs[k] is Some) ==> tabs[previous_live_or_stay(
            tabs,
            closed,
        )] is Some,
{
    lemma_previous_live(tabs, closed, 0);
    if exists|k: int| 0 <= k < TAB_COUNT && #[trigger] tabs[k] is Some {
        let k = choose|k: int| 0 <= k < TAB_COUNT && #[trigger] tabs[k] is Some;
        lemma_previous_live_finds(tabs, closed, k, 0);
    }
}

/// Once a session has closed, no tab shows it and it is not detached.
pub proof fn law_closed_session_gone(v: WorkspaceView, id: SessionId)
    requires
        v.wf(),
    ensures
        !v.after_close(id).detached.contains(id),
        forall|i: int| 0 <= i < TAB_COUNT ==> !#[trigger] v.after_close(id).sessions_of(i).contains(id),
{
    let u = v.after_close(id);
    if u.detached.contains(id) {
        let k = choose|k: int| 0 <= k < u.detached.len() && u.detached[k] == id;
        v.detached.lemma_filter_pred(|d: SessionId| d != id, k);
    }
    assert forall|i: int| 0 <= i < TAB_COUNT implies !#[trigger] u.sessions_of(i).contains(id) by {
        match v.tabs[i] {
            Some(t) => {
                crate::tab::lemma_after_remove(t, id);
            },
            None => {},
        }
    }
}

/// When the current tab goes because a session closed, the slot that
/// becomes current holds a tab, unless no tab is left at all.
pub proof fn law_close_keeps_a_current_tab(v: WorkspaceView, id: SessionId)
    requires
        v.wf(),
        v.current_slot() is Some,
    ensures
        v.after_close(id).current_slot() is Some || forall|i: int|
            0 <= i < TAB_COUNT ==> #[trigger] v.after_close(id).tabs[i] is None,
{
    let u = v.after_close(id);
    lemma_previous_live_or_stay(u.tabs, v.current as int);
}

/// Detaching the focused session puts it among the detached sessions and
/// takes it out of the tab; bringing it back into a slot that is empty or
/// holds a tab with panes makes that slot current, with the session focused
/// there and no longer detached.
pub proof fn law_detach_then_reattach(v: WorkspaceView, target: int)
    requires
        v.wf(),
        v.active() is Some,
        0 <= target < TAB_COUNT,
    ensures
        ({
            let a = v.active()->0;
            let w = v.after_detach()->0;
            &&& v.after_detach() is Some
            &&& w.detached.contains(a)
            &&& !w.sessions_of(v.current as int).contains(a)
            &&& (w.tabs[target] is None || w.tabs[target]->0.active is Some) ==> {
                let u = v.after_detach()->0.after_reattach(a, target);
                &&& u is Some
                &&& u->0.current == target
                &&& u->0.active() == Some(a)
                &&& !u->0.detached.contains(a)
            }
        }),
{
    let a = v.active()->0;
    let w = v.after_detach()->0;
    crate::tab::lemma_after_remove(v.current_slot()->0, a);
    assert(w.detached[w.detached.len() - 1] == a);
    let d = without_session(w.detached, a);
    if d.contains(a) {
        let k = choose|k: int| 0 <= k < d.len() && d[k] == a;
        w.detached.lemma_filter_pred(|x: SessionId| x != a, k);
    }
}

/// Moving a session to another slot makes that slot current and shows the
/// session there, or, when the tab there has no panes, leaves it detached;
/// the tab it came from no longer shows it.
pub proof fn law_move_lands_in_target(v: WorkspaceView, session: SessionId, target: int)
    requires
        v.wf(),
        v.after_move(session, target) is Some,
    ensures
        ({
            let u = v.after_move(session, target)->0;
            let src = first_holder_from(v.tabs, session, target, 0)->0;
            &&& u.current == target
            &&& u.sessions_of(target).contains(session) || u.detached.contains(session)
            &&& src != target && !u.sessions_of(src).contains(session)
        }),
{
    let src = first_holder_from(v.tabs, session, target, 0)->0;
    lemma_first_holder(v.tabs, session, target, 0);
    let t = v.tabs[src]->0;
    crate::tab::lemma_after_remove(t, session);
    let u = v.after_move(session, target)->0;
    match v.tabs[target] {
        Some(tt) => {
            if tt.active is Some {
                tt.root->0.lemma_split_leaves(tt.active->0, SplitDirection::Vertical, session);
            } else {
                let removed_detached = without_session(v.detached, session);
                assert(u.detached == removed_detached.push(session));
                assert(u.detached[u.detached.len() - 1] == session);
            }
        },
        None => {
            assert(TabView::single(session).sessions() == seq![session]);
            assert(seq![session][0] == session);
        },
    }
}

/// What `first_free_from` finds is an empty slot at or after `from`.
proof fn lemma_first_free(tabs: Seq<Option<TabView>>, from: int)
    ensures
        match first_free_from(tabs, from) {
            Some(k) => from <= k < tabs.len() && tabs[k] is None,
            None => true,
        },
    decreases tabs.len() - from,
{
    if 0 <= from < tabs.len() {
        lemma_first_free(tabs, from + 1);
    }
}

/// Replacing a slot twice keeps the second replacement.
proof fn lemma_with_slot_twice(v: WorkspaceView, i: int, a: Option<TabView>, b: Option<TabView>)
    requires
        0 <= i < v.tabs.len(),
    ensures
        v.with_slot(i, a).with_slot(i, b) == v.with_slot(i, b),
{
    assert(v.with_slot(i, a).with_slot(i, b).tabs =~= v.with_slot(i, b).tabs);
}

/// Updating one slot of the tabs updates its view.
proof fn lemma_tab_views_update(tabs: Seq<Option<Tab>>, i: int, t: Option<Tab>)
    requires
        0 <= i < tabs.len(),
    ensures
        tab_views(tabs.update(i, t)) == tab_views(tabs).update(
            i,
            match t {
                Some(t) => Some(t@),
                None => None,
            },
        ),
{
    assert(tab_views(tabs.update(i, t)) =~= tab_views(tabs).update(
        i,
        match t {
            Some(t) => Some(t@),
            None => None,
        },
    ));
}

} // verus!
