use vstd::prelude::*;

use crate::geometry::{PaneGeometry, PanePathStep, SplitDirection};
use crate::pane::{apart, cells_of, divider_views, inside, is_not, leaves_of, law_layout_cells_sum, law_layout_follows_leaves, law_layout_partitions, law_dividers_lead_to_splits, law_resize_sets_first_size, DividerView, Divider, Pane};
use crate::SessionId;

verus! {

/// What a tab is, as a value: its pane tree (none once its last pane is
/// gone) and the session that has the focus.
pub struct TabView {
    pub root: Option<Pane>,
    pub active: Option<SessionId>,
}

impl TabView {
    /// A tab has a focused session exactly when it has panes, and the focused
    /// session is shown by one of them.
    pub open spec fn wf(self) -> bool {
        &&& (self.root is Some <==> self.active is Some)
        &&& self.root is Some ==> self.root->0.leaves().contains(self.active->0)
    }

    /// The sessions of the tab's panes, left to right.
    pub open spec fn sessions(self) -> Seq<SessionId> {
        leaves_of(self.root)
    }

    /// A tab with one pane showing `session`, which has the focus.
    pub open spec fn single(session: SessionId) -> TabView {
        TabView { root: Some(Pane::Leaf { session }), active: Some(session) }
    }

    /// The tab after removing the panes that show `session` (unchanged when
    /// none does); when the focused session goes, the leftmost remaining pane
    /// gets the focus.
    pub open spec fn after_remove(self, session: SessionId) -> TabView {
        if !self.sessions().contains(session) {
            self
        } else {
            let root = self.root->0.without(session);
            TabView {
                root,
                active: match root {
                    Some(r) => if self.active == Some(session) {
                        Some(r.leaves()[0])
                    } else {
                        self.active
                    },
                    None => None,
                },
            }
        }
    }

    /// The tab after splitting its focused pane along `direction` for
    /// `session`, which gets the focus (unchanged for a tab without panes).
    pub open spec fn after_split(self, direction: SplitDirection, session: SessionId) -> TabView {
        match self.active {
            None => self,
            Some(a) => TabView {
                root: Some(self.root->0.split_at_leaf(a, direction, session)),
                active: Some(session),
            },
        }
    }
}

impl TabView {
    /// The tab after moving the focus to the pane after the focused one,
    /// left to right and wrapping around (unchanged with fewer than two
    /// panes).
    pub open spec fn after_focus_next(self) -> TabView {
        match self.active {
            Some(a) => if self.sessions().len() > 1 {
                TabView { active: Some(next_after(self.sessions(), a)), ..self }
            } else {
                self
            },
            None => self,
        }
    }

    /// The tab after moving the deepest split along `direction` above the
    /// focused pane by `delta` cells; `None` when there is no such split or
    /// the move is refused.
    pub open spec fn resized_active(
        self,
        area: PaneGeometry,
        direction: SplitDirection,
        delta: int,
    ) -> Option<TabView> {
        match (self.root, self.active) {
            (Some(root), Some(active)) => match root.resize_target(active, direction) {
                Some(p) => match root.resized_to(
                    p,
                    area,
                    direction,
                    root.first_size_at(p, area) + delta,
                ) {
                    Some(t) => Some(TabView { root: Some(t), ..self }),
                    None => None,
                },
                None => None,
            },
            _ => None,
        }
    }

    /// The tab after moving the split at `path` to the grid position
    /// `position`; `None` when `path` leads to no split along `direction`
    /// or the move is refused.
    pub open spec fn repositioned(
        self,
        area: PaneGeometry,
        path: Seq<PanePathStep>,
        direction: SplitDirection,
        position: int,
    ) -> Option<TabView> {
        match self.root {
            Some(root) => match root.resized_to(
                path,
                area,
                direction,
                position - crate::pane::axis_origin(root.area_at(path, area), direction),
            ) {
                Some(t) => Some(TabView { root: Some(t), ..self }),
                None => None,
            },
            None => None,
        }
    }
}

/// Removing `session` from a tab leaves no pane showing it, and keeps the
/// tab well formed.
pub proof fn lemma_after_remove(t: TabView, session: SessionId)
    requires
        t.wf(),
    ensures
        !t.after_remove(session).sessions().contains(session),
        t.after_remove(session).wf(),
{
    if t.sessions().contains(session) {
        let root = t.root->0;
        root.lemma_without_leaves(session);
        let f = root.leaves().filter(is_not(session));
        if f.contains(session) {
            let k = choose|k: int| 0 <= k < f.len() && f[k] == session;
            root.leaves().lemma_filter_pred(is_not(session), k);
        }
        match root.without(session) {
            Some(r) => {
                r.lemma_leaves_nonempty();
                if t.active != Some(session) {
                    let a = t.active->0;
                    let i = choose|i: int| 0 <= i < root.leaves().len() && root.leaves()[i] == a;
                    root.leaves().lemma_filter_contains(is_not(session), i);
                } else {
                    assert(r.leaves().contains(r.leaves()[0]));
                }
            },
            None => {},
        }
    }
}

/// The session that follows `active` in `sessions`, wrapping around; for a
/// session that occurs more than once, its first occurrence counts.
pub open spec fn next_after(sessions: Seq<SessionId>, active: SessionId) -> SessionId {
    let i = match sessions.index_of_first(active) {
        Some(i) => i,
        None => 0,
    };
    sessions[(i + 1) % (sessions.len() as int)]
}

/// A tab: a tree of panes and the focused session.
pub struct Tab {
    root: Option<Pane>,
    active_session: Option<SessionId>,
}

impl View for Tab {
    type V = TabView;

    closed spec fn view(&self) -> TabView {
        TabView { root: self.root, active: self.active_session }
    }
}

impl Tab {
    /// A tab with one pane showing `session`, which has the focus.
    pub fn new(session: SessionId) -> (r: Self)
        ensures
            r@ == TabView::single(session),
            r@.wf(),
    {
        let r = Tab { root: Some(Pane::new(session)), active_session: Some(session) };
        assert(seq![session][0] == session);
        assert(r@ == TabView::single(session));
        r
    }

    /// The focused session.
    pub fn active_session(&self) -> (r: Option<SessionId>)
        ensures
            r == self@.active,
    {
        self.active_session
    }

    /// Gives the focus to `session` if one of the tab's panes shows it.
    pub fn set_active_session(&mut self, session: SessionId) -> (r: bool)
        requires
            old(self)@.wf(),
        ensures
            r == old(self)@.sessions().contains(session),
            final(self)@.root == old(self)@.root,
            final(self)@.active == if r {
                Some(session)
            } else {
                old(self)@.active
            },
            final(self)@.wf(),
    {
        let found = match self.root.as_ref() {
            Some(root) => root.contains_session(session),
            None => false,
        };
        if !found {
            return false;
        }
        self.active_session = Some(session);
        true
    }

    /// Splits the focused pane along `direction`; the new half shows
    /// `session`, which gets the focus. `false` (and no change) for a tab
    /// without panes.
    pub fn split_active(&mut self, direction: SplitDirection, session: SessionId) -> (r: bool)
        requires
            old(self)@.wf(),
        ensures
            r == old(self)@.active is Some,
            final(self)@ == old(self)@.after_split(direction, session),
            final(self)@.wf(),
    {
        let active_session = match self.active_session {
            Some(s) => s,
            None => return false,
        };
        let mut root = match self.root.take() {
            Some(root) => root,
            None => return false,
        };
        let split = root.split(active_session, direction, session);
        proof {
            old(self)@.root->0.lemma_split_leaves(active_session, direction, session);
        }
        self.root = Some(root);
        if !split {
            return false;
        }
        self.active_session = Some(session);
        true
    }

    /// Moves the focus to the pane after the focused one, left to right and
    /// wrapping around. Returns the focused session afterwards; `None` for a
    /// tab without panes.
    pub fn focus_next(&mut self) -> (r: Option<SessionId>)
        requires
            old(self)@.wf(),
        ensures
            final(self)@.root == old(self)@.root,
            final(self)@.wf(),
            r == final(self)@.active,
            old(self)@.active is None ==> r is None,
            old(self)@.active is Some && old(self)@.sessions().len() <= 1 ==> r == old(self)@.active,
            old(self)@.active is Some && old(self)@.sessions().len() > 1 ==> r == Some(
                next_after(old(self)@.sessions(), old(self)@.active->0),
            ),
            final(self)@ == old(self)@.after_focus_next(),
    {
        let sessions = self.sessions();
        let active = match self.active_session {
            Some(a) => a,
            None => return None,
        };
        if sessions.len() <= 1 {
            return Some(active);
        }
        let mut current: usize = 0;
        let mut i: usize = 0;
        let mut found = false;
        while i < sessions.len()
            invariant_except_break
                !found,
            invariant
                i <= sessions@.len(),
                forall|j: int| 0 <= j < i ==> sessions@[j] != active,
            ensures
                found ==> (0 <= current < sessions@.len() && sessions@[current as int] == active
                    && forall|j: int| 0 <= j < current ==> sessions@[j] != active),
                !found ==> forall|j: int| 0 <= j < sessions@.len() ==> sessions@[j] != active,
            decreases sessions.len() - i,
        {
            if sessions[i] == active {
                current = i;
                found = true;
                break;
            }
            i = i + 1;
        }
        proof {
            sessions@.index_of_first_ensures(active);
            if found {
                match sessions@.index_of_first(active) {
                    Some(k) => {
                        if k < current {
                        } else if k > current {
                        }
                        assert(k == current);
                    },
                    None => {},
                }
            }
        }
        let next = sessions[(current + 1) % sessions.len()];
        proof {
            let k = (current + 1) % sessions@.len() as int;
            assert(sessions@[k] == next);
            assert(sessions@.contains(next));
        }
        self.active_session = Some(next);
        Some(next)
    }

    /// Removes the panes that show `session`. When the focused session is
    /// removed the focus goes to the leftmost remaining pane. Returns whether
    /// some pane showed `session`; the tab is unchanged when none did.
    pub fn remove_session(&mut self, session: SessionId) -> (r: bool)
        requires
            old(self)@.wf(),
        ensures
            r == old(self)@.sessions().contains(session),
            final(self)@ == old(self)@.after_remove(session),
            final(self)@.wf(),
    {
        let root = match self.root.take() {
            Some(root) => root,
            None => return false,
        };
        if !root.contains_session(session) {
            self.root = Some(root);
            return false;
        }
        proof {
            root.lemma_without_leaves(session);
        }
        let rest = root.remove_session(session);
        match rest {
            Some(rest) => {
                let is_active = match self.active_session {
                    Some(a) => a == session,
                    None => false,
                };
                if is_active {
                    let first = rest.first_session();
                    proof {
                        rest.lemma_leaves_nonempty();
                        assert(rest.leaves().contains(rest.leaves()[0]));
                    }
                    self.active_session = Some(first);
                } else {
                    proof {
                        let a = self.active_session->0;
                        let pred = is_not(session);
                        let k = choose|k: int|
                            0 <= k < root.leaves().len() && root.leaves()[k] == a;
                        root.leaves().lemma_filter_contains(pred, k);
                    }
                }
                self.root = Some(rest);
            },
            None => {
                self.root = None;
                self.active_session = None;
            },
        }
        true
    }

    /// Whether a pane of the tab shows `session`.
    pub fn contains_session(&self, session: SessionId) -> (r: bool)
        ensures
            r == self@.sessions().contains(session),
    {
        match self.root.as_ref() {
            Some(root) => root.contains_session(session),
            None => false,
        }
    }

    /// Whether the tab has no panes left.
    pub fn is_empty(&self) -> (r: bool)
        ensures
            r == self@.root is None,
    {
        self.root.is_none()
    }

    /// The sessions of the tab's panes, left to right.
    pub fn sessions(&self) -> (r: Vec<SessionId>)
        ensures
            r@ == self@.sessions(),
    {
        match self.root.as_ref() {
            Some(root) => root.sessions(),
            None => Vec::new(),
        }
    }

    /// The session and area of each pane when the tab is laid out in `area`.
    pub fn layout(&self, area: PaneGeometry) -> (r: Vec<(SessionId, PaneGeometry)>)
        ensures
            r@ == match self@.root {
                Some(root) => root.layout_panes(area),
                None => Seq::empty(),
            },
    {
        let mut panes = Vec::new();
        let mut dividers = Vec::new();
        let mut path = Vec::new();
        if let Some(root) = self.root.as_ref() {
            root.layout(area, &mut path, &mut panes, &mut dividers);
            assert(panes@ =~= root.layout_panes(area));
        }
        panes
    }

    /// The dividers between the tab's panes when it is laid out in `area`.
    pub fn dividers(&self, area: PaneGeometry) -> (r: Vec<Divider>)
        ensures
            divider_views(r@) == match self@.root {
                Some(root) => root.layout_dividers(area, Seq::empty()),
                None => Seq::<DividerView>::empty(),
            },
    {
        let mut panes = Vec::new();
        let mut dividers: Vec<Divider> = Vec::new();
        let mut path: Vec<PanePathStep> = Vec::new();
        assert(divider_views(dividers@) =~= Seq::<DividerView>::empty());
        if let Some(root) = self.root.as_ref() {
            root.layout(area, &mut path, &mut panes, &mut dividers);
            assert(divider_views(dividers@) =~= root.layout_dividers(area, Seq::empty()));
        }
        dividers
    }

    /// Moves the deepest split along `direction` above the focused pane by
    /// `delta_first` cells (see `Pane::resize_split_delta`). `false`, and no
    /// change, when there is no such split.
    pub fn resize_active_split(
        &mut self,
        area: PaneGeometry,
        direction: SplitDirection,
        delta_first: i16,
    ) -> (r: bool)
        requires
            old(self)@.wf(),
        ensures
            final(self)@.active == old(self)@.active,
            final(self)@.wf(),
            ({
                let old_view = old(self)@;
                match (old_view.root, old_view.active) {
                    (Some(root), Some(active)) => match root.resize_target(active, direction) {
                        Some(p) => match root.resized_to(
                            p,
                            area,
                            direction,
                            root.first_size_at(p, area) + delta_first,
                        ) {
                            Some(t) => r && final(self)@.root == Some(t),
                            None => !r && final(self)@ == old_view,
                        },
                        None => !r && final(self)@ == old_view,
                    },
                    _ => !r && final(self)@ == old_view,
                }
            }),
            match old(self)@.resized_active(area, direction, delta_first as int) {
                Some(t) => r && final(self)@ == t,
                None => !r && final(self)@ == old(self)@,
            },
    {
        let active_session = match self.active_session {
            Some(s) => s,
            None => return false,
        };
        let mut root = match self.root.take() {
            Some(root) => root,
            None => return false,
        };
        let mut scratch: Vec<PanePathStep> = Vec::new();
        let found = root.find_resize_target(active_session, direction, &mut scratch);
        assert(Seq::<PanePathStep>::empty() + root.resize_target(active_session, direction)->0
            =~= root.resize_target(active_session, direction)->0);
        let path = match found {
            Some(path) => path,
            None => {
                self.root = Some(root);
                return false;
            },
        };
        let ghost before = root;
        let r = root.resize_split_delta(path.as_slice(), area, direction, delta_first);
        proof {
            before.lemma_resized_leaves(path@, area, direction, before.first_size_at(path@, area)
                + delta_first);
        }
        self.root = Some(root);
        r
    }

    /// Moves the split at `path` so that it lies at the grid position
    /// `position` (see `Pane::resize_split_by_position`). `false`, and no
    /// change, when the tab has no panes or `path` does not lead to a split
    /// along `direction`.
    pub fn resize_split_by_position(
        &mut self,
        area: PaneGeometry,
        path: &[PanePathStep],
        direction: SplitDirection,
        position: i32,
    ) -> (r: bool)
        requires
            old(self)@.wf(),
        ensures
            final(self)@.active == old(self)@.active,
            final(self)@.wf(),
            match old(self)@.root {
                Some(root) => match root.resized_to(
                    path@,
                    area,
                    direction,
                    position - crate::pane::axis_origin(root.area_at(path@, area), direction),
                ) {
                    Some(t) => r && final(self)@.root == Some(t),
                    None => !r && final(self)@ == old(self)@,
                },
                None => !r && final(self)@ == old(self)@,
            },
            match old(self)@.repositioned(area, path@, direction, position as int) {
                Some(t) => r && final(self)@ == t,
                None => !r && final(self)@ == old(self)@,
            },
    {
        let mut root = match self.root.take() {
            Some(root) => root,
            None => return false,
        };
        let ghost before = root;
        let r = root.resize_split_by_position(path, area, direction, position);
        proof {
            before.lemma_resized_leaves(
                path@,
                area,
                direction,
                position - crate::pane::axis_origin(before.area_at(path@, area), direction),
            );
        }
        self.root = Some(root);
        r
    }
}

/// Splitting the focused pane for a new session and removing that session
/// again gives back the tab's panes as they were.
pub proof fn law_remove_undoes_split(t: TabView, direction: SplitDirection, session: SessionId)
    requires
        t.wf(),
        t.active is Some,
        !t.sessions().contains(session),
    ensures
        t.after_split(direction, session).after_remove(session).root == t.root,
        t.after_split(direction, session).after_remove(session).wf(),
{
    let root = t.root->0;
    let a = t.active->0;
    root.lemma_split_leaves(a, direction, session);
    crate::pane::law_remove_undoes_split(root, a, direction, session);
    let u = t.after_split(direction, session);
    assert(u.root == Some(root.split_at_leaf(a, direction, session)));
    assert(u.sessions().contains(session));
    assert(u.wf());
    lemma_after_remove(u, session);
}

impl TabView {
    /// The tab after moving the focus to the next pane `n` times.
    pub open spec fn after_focus_next_times(self, n: nat) -> TabView
        decreases n,
    {
        if n == 0 {
            self
        } else {
            self.after_focus_next().after_focus_next_times((n - 1) as nat)
        }
    }
}

/// With its focus on the pane at `j` of sessions that occur once each,
/// moving the focus on `k` times lands on the pane at `(j + k) % n`.
proof fn lemma_focus_steps(t: TabView, j: int, k: nat)
    requires
        t.wf(),
        t.sessions().no_duplicates(),
        t.sessions().len() > 1,
        0 <= j < t.sessions().len(),
        t.active == Some(t.sessions()[j]),
    ensures
        t.after_focus_next_times(k) == (TabView {
            active: Some(t.sessions()[(j + k) % (t.sessions().len() as int)]),
            ..t
        }),
    decreases k,
{
    let s = t.sessions();
    let n = s.len() as int;
    if k == 0 {
        vstd::arithmetic::div_mod::lemma_small_mod(j as nat, n as nat);
    } else {
        s.index_of_first_ensures(s[j]);
        assert(s.index_of_first(s[j]) == Some(j));
        let j1 = (j + 1) % n;
        let u = t.after_focus_next();
        assert(u == TabView { active: Some(s[j1]), ..t });
        assert(u.sessions() == s);
        assert(s.contains(s[j1]));
        lemma_focus_steps(u, j1, (k - 1) as nat);
        if j + 1 < n {
            vstd::arithmetic::div_mod::lemma_small_mod((j + 1) as nat, n as nat);
        } else {
            vstd::arithmetic::div_mod::lemma_mod_self_0(n);
            vstd::arithmetic::div_mod::lemma_mod_add_multiples_vanish(k - 1, n);
        }
    }
}

/// Moving the focus to the next pane as many times as the tab has panes
/// brings it back to where it was, when no session shows in two panes.
pub proof fn law_focus_next_cycles(t: TabView)
    requires
        t.wf(),
        t.sessions().no_duplicates(),
    ensures
        t.after_focus_next_times(t.sessions().len()) == t,
{
    let s = t.sessions();
    let n = s.len();
    if n <= 1 {
        lemma_focus_fixed(t, n);
    } else {
        let a = t.active->0;
        s.index_of_first_ensures(a);
        let j = s.index_of_first(a)->0;
        lemma_focus_steps(t, j, n);
        vstd::arithmetic::div_mod::lemma_mod_add_multiples_vanish(j, n as int);
        vstd::arithmetic::div_mod::lemma_small_mod(j as nat, n);
        assert(j + n == n + j);
    }
}

/// A tab with at most one pane keeps its focus however often it moves on.
proof fn lemma_focus_fixed(t: TabView, k: nat)
    requires
        t.sessions().len() <= 1,
    ensures
        t.after_focus_next_times(k) == t,
    decreases k,
{
    if k > 0 {
        lemma_focus_fixed(t, (k - 1) as nat);
    }
}

/// Keeping only some entries of a sequence without repeats leaves none.
proof fn lemma_filter_no_duplicates(s: Seq<SessionId>, keep: spec_fn(SessionId) -> bool)
    requires
        s.no_duplicates(),
    ensures
        s.filter(keep).no_duplicates(),
    decreases s.len(),
{
    reveal(Seq::filter);
    if s.len() > 0 {
        let rest = s.drop_last();
        assert(rest.no_duplicates());
        lemma_filter_no_duplicates(rest, keep);
        if keep(s.last()) {
            let f = rest.filter(keep);
            if f.contains(s.last()) {
                rest.lemma_filter_contains_rev(keep, s.last());
                let k = choose|k: int| 0 <= k < rest.len() && rest[k] == s.last();
                assert(s[k] == s[s.len() - 1]);
            }
            assert forall|a: int, b: int|
                0 <= a < f.push(s.last()).len() && 0 <= b < f.push(s.last()).len() && a != b
                implies f.push(s.last())[a] != f.push(s.last())[b] by {
                if a < f.len() && b < f.len() {
                } else if a < f.len() {
                    assert(f.contains(f[a]));
                } else if b < f.len() {
                    assert(f.contains(f[b]));
                }
            }
        }
    }
}

/// Putting a new entry right after the one at `i` keeps a sequence free of
/// repeats.
proof fn lemma_insert_after_no_duplicates(s: Seq<SessionId>, i: int, x: SessionId)
    requires
        s.no_duplicates(),
        0 <= i < s.len(),
        !s.contains(x),
    ensures
        (s.take(i) + seq![s[i], x] + s.skip(i + 1)).no_duplicates(),
{
    let r = s.take(i) + seq![s[i], x] + s.skip(i + 1);
    assert(r.len() == s.len() + 1);
    assert forall|k: int| 0 <= k < r.len() implies #[trigger] r[k] == (if k <= i {
        s[k]
    } else if k == i + 1 {
        x
    } else {
        s[k - 1]
    }) by {
        if k < i {
        } else if k == i {
        } else if k == i + 1 {
        } else {
            assert(r[k] == s.skip(i + 1)[k - i - 2]);
        }
    }
    assert forall|a: int, b: int| 0 <= a < r.len() && 0 <= b < r.len() && a != b implies r[a]
        != r[b] by {
        if a == i + 1 {
            assert(r[b] == s[if b <= i { b } else { b - 1 }]);
        } else if b == i + 1 {
            assert(r[a] == s[if a <= i { a } else { a - 1 }]);
        } else {
            let pa = if a <= i { a } else { a - 1 };
            let pb = if b <= i { b } else { b - 1 };
            assert(r[a] == s[pa] && r[b] == s[pb]);
        }
    }
}

/// A tab that only ever gets sessions that it does not show yet never shows
/// a session twice: a new tab shows one; splitting for a fresh session,
/// removing a session, moving the focus and resizing a split keep the
/// sessions free of repeats.
pub proof fn law_fresh_sessions_stay_distinct(
    t: TabView,
    first: SessionId,
    direction: SplitDirection,
    session: SessionId,
    gone: SessionId,
    area: PaneGeometry,
    path: Seq<PanePathStep>,
    delta: int,
    position: int,
)
    requires
        t.wf(),
        t.sessions().no_duplicates(),
    ensures
        TabView::single(first).sessions().no_duplicates(),
        !t.sessions().contains(session) ==> t.after_split(direction, session).sessions().no_duplicates(),
        t.after_remove(gone).sessions().no_duplicates(),
        t.after_focus_next().sessions().no_duplicates(),
        t.resized_active(area, direction, delta) matches Some(u) ==> u.sessions() == t.sessions(),
        t.repositioned(area, path, direction, position) matches Some(u) ==> u.sessions()
            == t.sessions(),
{
    if !t.sessions().contains(session) {
        if let Some(a) = t.active {
            let root = t.root->0;
            root.lemma_split_leaves(a, direction, session);
            let i = choose|i: int|
                #![trigger root.leaves()[i]]
                0 <= i < root.leaves().len() && root.leaves()[i] == a && (forall|j: int|
                    0 <= j < i ==> root.leaves()[j] != a) && root.split_at_leaf(
                    a,
                    direction,
                    session,
                ).leaves() == root.leaves().take(i) + seq![a, session] + root.leaves().skip(i + 1);
            lemma_insert_after_no_duplicates(root.leaves(), i, session);
        }
    }
    if t.sessions().contains(gone) {
        t.root->0.lemma_without_leaves(gone);
        lemma_filter_no_duplicates(t.root->0.leaves(), is_not(gone));
    }
    if let (Some(root), Some(active)) = (t.root, t.active) {
        if let Some(p) = root.resize_target(active, direction) {
            root.lemma_resized_leaves(p, area, direction, root.first_size_at(p, area) + delta);
        }
    }
    if let Some(root) = t.root {
        root.lemma_resized_leaves(
            path,
            area,
            direction,
            position - crate::pane::axis_origin(root.area_at(path, area), direction),
        );
    }
}

impl TabView {
    /// The session and area of each pane when the tab is laid out in `area`.
    pub open spec fn laid_out(self, area: PaneGeometry) -> Seq<(SessionId, PaneGeometry)> {
        match self.root {
            Some(root) => root.layout_panes(area),
            None => Seq::empty(),
        }
    }
}

/// A tab's layout lists its sessions in order, is empty exactly when the tab
/// has no panes, and covers as many cells as the area has (none without
/// panes); in an area that fits the grid, every pane lies within the area
/// and no two panes share a cell.
pub proof fn law_tab_layout_partitions(t: TabView, area: PaneGeometry)
    ensures
        t.laid_out(area).len() == t.sessions().len(),
        forall|i: int| 0 <= i < t.sessions().len() ==> #[trigger] t.laid_out(area)[i].0 == t.sessions()[i],
        t.laid_out(area).len() == 0 <==> t.root is None,
        cells_of(t.laid_out(area)) == if t.root is Some {
            area.cols * area.rows
        } else {
            0
        },
        area.x + area.cols <= u16::MAX && area.y + area.rows <= u16::MAX ==> {
            &&& forall|i: int|
                0 <= i < t.laid_out(area).len() ==> inside(#[trigger] t.laid_out(area)[i].1, area)
            &&& forall|i: int, j: int|
                #![trigger t.laid_out(area)[i], t.laid_out(area)[j]]
                0 <= i < t.laid_out(area).len() && 0 <= j < t.laid_out(area).len() && i != j
                    ==> apart(t.laid_out(area)[i].1, t.laid_out(area)[j].1)
        },
{
    match t.root {
        Some(root) => {
            law_layout_follows_leaves(root, area, Seq::empty());
            law_layout_cells_sum(root, area);
            root.lemma_leaves_nonempty();
            if area.x + area.cols <= u16::MAX && area.y + area.rows <= u16::MAX {
                law_layout_partitions(root, area);
            }
        },
        None => {},
    }
}

/// Every divider that a tab draws can be dragged: moving it to any grid
/// position succeeds, keeps the tab's sessions and focus, and on an axis of
/// at most 1000 cells gives the split's first child the distance from the
/// split's start to that position, clamped so that both children keep a
/// cell.
pub proof fn law_drawn_dividers_drag(t: TabView, area: PaneGeometry, i: int, position: int)
    requires
        t.wf(),
        t.root is Some,
        0 <= i < t.root->0.layout_dividers(area, Seq::empty()).len(),
    ensures
        ({
            let root = t.root->0;
            let d = root.layout_dividers(area, Seq::empty())[i];
            let split_area = root.area_at(d.path, area);
            let total = crate::geometry::axis_size(split_area, d.direction);
            &&& t.repositioned(area, d.path, d.direction, position) is Some
            &&& t.repositioned(area, d.path, d.direction, position)->0.sessions() == t.sessions()
            &&& t.repositioned(area, d.path, d.direction, position)->0.active == t.active
            &&& total <= 1000 ==> t.repositioned(area, d.path, d.direction, position)->0.root->0.first_size_at(
                d.path,
                area,
            ) == crate::geometry::clamped_first_size(
                position - crate::pane::axis_origin(split_area, d.direction),
                total,
            )
        }),
{
    let root = t.root->0;
    law_dividers_lead_to_splits(root, area, Seq::empty());
    let d = root.layout_dividers(area, Seq::empty())[i];
    assert(d.path.skip(0) =~= d.path);
    let wanted = position - crate::pane::axis_origin(root.area_at(d.path, area), d.direction);
    root.lemma_resized_leaves(d.path, area, d.direction, wanted);
    if crate::geometry::axis_size(root.area_at(d.path, area), d.direction) <= 1000 {
        law_resize_sets_first_size(root, d.path, area, d.direction, wanted);
    }
}

} // verus!
