use vstd::prelude::*;

use crate::geometry::{law_ratio_round_trip, lemma_split_partitions_cells, SplitDirection, PanePathStep, PaneGeometry, split_areas, split_geometry, split_axis_size, axis_size, clamp_first_size, ratio_from_first_size, clamped_first_size, ratio_of, clamp_int};
use crate::SessionId;

verus! {

/// A tree of terminal panes: a leaf shows one session, a split divides its
/// area between two sub-trees.
pub enum Pane {
    Leaf { session: SessionId },
    Split { direction: SplitDirection, ratio_per_mille: u16, first: Box<Pane>, second: Box<Pane> },
}

/// `(a + b).contains(x)` exactly when `a` or `b` contains `x`.
pub proof fn lemma_concat_contains(a: Seq<SessionId>, b: Seq<SessionId>, x: SessionId)
    ensures
        (a + b).contains(x) <==> (a.contains(x) || b.contains(x)),
{
    if a.contains(x) {
        let i = choose|i: int| 0 <= i < a.len() && a[i] == x;
        assert((a + b)[i] == x);
    }
    if b.contains(x) {
        let i = choose|i: int| 0 <= i < b.len() && b[i] == x;
        assert((a + b)[a.len() + i] == x);
    }
    if (a + b).contains(x) {
        let i = choose|i: int| 0 <= i < (a + b).len() && (a + b)[i] == x;
        if i < a.len() {
            assert(a[i] == x);
        } else {
            assert(b[i - a.len()] == x);
        }
    }
}

impl Pane {
    /// The sessions shown by the leaves of this tree, from left to right
    /// (first children before second children).
    pub open spec fn leaves(self) -> Seq<SessionId>
        decreases self,
    {
        match self {
            Pane::Leaf { session } => seq![session],
            Pane::Split { first, second, .. } => first.leaves() + second.leaves(),
        }
    }

    /// The tree after the leftmost leaf showing `target` has been replaced by
    /// a split (at half the area) of `target` and `session`.
    pub open spec fn split_at_leaf(
        self,
        target: SessionId,
        direction: SplitDirection,
        session: SessionId,
    ) -> Pane
        decreases self,
    {
        match self {
            Pane::Leaf { session: current } => {
                if current == target {
                    Pane::Split {
                        direction,
                        ratio_per_mille: 500,
                        first: Box::new(Pane::Leaf { session: current }),
                        second: Box::new(Pane::Leaf { session }),
                    }
                } else {
                    self
                }
            },
            Pane::Split { direction: d, ratio_per_mille: r, first, second } => {
                if first.leaves().contains(target) {
                    Pane::Split {
                        direction: d,
                        ratio_per_mille: r,
                        first: Box::new(first.split_at_leaf(target, direction, session)),
                        second,
                    }
                } else {
                    Pane::Split {
                        direction: d,
                        ratio_per_mille: r,
                        first,
                        second: Box::new(second.split_at_leaf(target, direction, session)),
                    }
                }
            },
        }
    }

    /// A tree has at least one leaf.
    pub proof fn lemma_leaves_nonempty(self)
        ensures
            self.leaves().len() >= 1,
        decreases self,
    {
        match self {
            Pane::Leaf { .. } => {},
            Pane::Split { first, second, .. } => {
                first.lemma_leaves_nonempty();
                second.lemma_leaves_nonempty();
            },
        }
    }

    /// Splitting at a session that no leaf shows leaves the tree unchanged.
    pub proof fn lemma_split_absent(self, target: SessionId, direction: SplitDirection, session: SessionId)
        requires
            !self.leaves().contains(target),
        ensures
            self.split_at_leaf(target, direction, session) == self,
        decreases self,
    {
        match self {
            Pane::Leaf { session: current } => {
                assert(seq![current][0] == current);
            },
            Pane::Split { first, second, .. } => {
                lemma_concat_contains(first.leaves(), second.leaves(), target);
                second.lemma_split_absent(target, direction, session);
            },
        }
    }

    /// A single-session tree.
    pub fn new(session: SessionId) -> (r: Self)
        ensures
            r == (Pane::Leaf { session }),
    {
        Pane::Leaf { session }
    }

    /// Whether some leaf of the tree shows `target`.
    pub fn contains_session(&self, target: SessionId) -> (r: bool)
        ensures
            r == self.leaves().contains(target),
        decreases self,
    {
        match self {
            Pane::Leaf { session } => {
                assert(seq![*session][0] == *session);
                *session == target
            },
            Pane::Split { first, second, .. } => {
                proof {
                    lemma_concat_contains(first.leaves(), second.leaves(), target);
                }
                first.contains_session(target) || second.contains_session(target)
            },
        }
    }

    /// The session of the leftmost leaf.
    pub fn first_session(&self) -> (r: SessionId)
        ensures
            r == self.leaves()[0],
        decreases self,
    {
        match self {
            Pane::Leaf { session } => *session,
            Pane::Split { first, .. } => {
                proof {
                    first.lemma_leaves_nonempty();
                }
                first.first_session()
            },
        }
    }

    /// Appends the sessions of the leaves, left to right, to `sessions`.
    fn collect_sessions(&self, sessions: &mut Vec<SessionId>)
        ensures
            final(sessions)@ == old(sessions)@ + self.leaves(),
        decreases self,
    {
        match self {
            Pane::Leaf { session } => {
                sessions.push(*session);
            },
            Pane::Split { first, second, .. } => {
                first.collect_sessions(sessions);
                second.collect_sessions(sessions);
                assert(old(sessions)@ + first.leaves() + second.leaves() == old(sessions)@ + (
                first.leaves() + second.leaves()));
            },
        }
    }

    /// The sessions of all leaves, left to right.
    pub fn sessions(&self) -> (r: Vec<SessionId>)
        ensures
            r@ == self.leaves(),
    {
        let mut sessions = Vec::new();
        self.collect_sessions(&mut sessions);
        assert(Seq::<SessionId>::empty() + self.leaves() == self.leaves());
        sessions
    }

    /// Splits the leftmost leaf showing `target` into `target` and `session`,
    /// each taking half of its area. Returns whether such a leaf was found;
    /// the tree is unchanged when none was.
    pub fn split(&mut self, target: SessionId, direction: SplitDirection, session: SessionId) -> (r:
        bool)
        ensures
            r == old(self).leaves().contains(target),
            *final(self) == old(self).split_at_leaf(target, direction, session),
        decreases *old(self),
    {
        let hit = match self {
            Pane::Leaf { session: current } => *current == target,
            Pane::Split { .. } => false,
        };
        if hit {
            assert(seq![target][0] == target);
            *self = Pane::Split {
                direction,
                ratio_per_mille: 500,
                first: Box::new(Pane::Leaf { session: target }),
                second: Box::new(Pane::Leaf { session }),
            };
            return true;
        }
        match self {
            Pane::Leaf { session: current } => {
                assert(seq![*current][0] == *current);
                false
            },
            Pane::Split { first, second, .. } => {
                proof {
                    lemma_concat_contains(first.leaves(), second.leaves(), target);
                }
                proof {
                    if !first.leaves().contains(target) {
                        first.lemma_split_absent(target, direction, session);
                    }
                }
                if first.split(target, direction, session) {
                    true
                } else {
                    second.split(target, direction, session)
                }
            },
        }
    }
}


/// What a divider between the two children of a split is, as a value.
pub struct DividerView {
    pub path: Seq<PanePathStep>,
    pub direction: SplitDirection,
    pub x: u16,
    pub y: u16,
    pub cols: u16,
    pub rows: u16,
}

/// The line between the two children of a split, with the path from the root
/// to that split.
#[derive(Clone, Debug, PartialEq, Eq)]
pub struct Divider {
    pub path: Vec<PanePathStep>,
    pub direction: SplitDirection,
    pub x: u16,
    pub y: u16,
    pub cols: u16,
    pub rows: u16,
}

impl View for Divider {
    type V = DividerView;

    open spec fn view(&self) -> DividerView {
        DividerView {
            path: self.path@,
            direction: self.direction,
            x: self.x,
            y: self.y,
            cols: self.cols,
            rows: self.rows,
        }
    }
}

/// The divider of a split of `area` at `path`, whose second child occupies
/// `second`.
pub open spec fn divider_of(
    path: Seq<PanePathStep>,
    direction: SplitDirection,
    area: PaneGeometry,
    second: PaneGeometry,
) -> DividerView {
    match direction {
        SplitDirection::Horizontal => DividerView {
            path,
            direction,
            x: area.x,
            y: second.y,
            cols: area.cols,
            rows: 0,
        },
        SplitDirection::Vertical => DividerView {
            path,
            direction,
            x: second.x,
            y: area.y,
            cols: 0,
            rows: area.rows,
        },
    }
}

/// The views of a sequence of dividers.
pub open spec fn divider_views(s: Seq<Divider>) -> Seq<DividerView> {
    s.map_values(|d: Divider| d@)
}

/// The leaves of an optional tree (none when there is no tree).
pub open spec fn leaves_of(p: Option<Pane>) -> Seq<SessionId> {
    match p {
        Some(t) => t.leaves(),
        None => Seq::empty(),
    }
}

/// Where a split of `area` along `direction` lies, in absolute cells of the
/// axis that it divides.
pub open spec fn axis_origin(area: PaneGeometry, direction: SplitDirection) -> int {
    match direction {
        SplitDirection::Horizontal => area.y as int,
        SplitDirection::Vertical => area.x as int,
    }
}

/// A copy of a path.
fn copy_path(path: &Vec<PanePathStep>) -> (r: Vec<PanePathStep>)
    ensures
        r@ == path@,
{
    let mut out: Vec<PanePathStep> = Vec::new();
    let mut i: usize = 0;
    while i < path.len()
        invariant
            i <= path.len(),
            out@ == path@.take(i as int),
        decreases path.len() - i,
    {
        out.push(path[i]);
        i = i + 1;
        assert(out@ =~= path@.take(i as int));
    }
    assert(path@.take(path@.len() as int) =~= path@);
    out
}

impl Pane {
    /// The tree without the leaves that show `target`: a split that loses one
    /// child is replaced by the other child; `None` when no leaf is left.
    pub open spec fn without(self, target: SessionId) -> Option<Pane>
        decreases self,
    {
        match self {
            Pane::Leaf { session } => {
                if session != target {
                    Some(self)
                } else {
                    None
                }
            },
            Pane::Split { direction, ratio_per_mille, first, second } => {
                match (first.without(target), second.without(target)) {
                    (Some(f), Some(s)) => Some(
                        Pane::Split {
                            direction,
                            ratio_per_mille,
                            first: Box::new(f),
                            second: Box::new(s),
                        },
                    ),
                    (Some(rest), None) => Some(rest),
                    (None, Some(rest)) => Some(rest),
                    (None, None) => None,
                }
            },
        }
    }

    /// The sessions and areas of the leaves, left to right, when the tree is
    /// laid out in `area`.
    pub open spec fn layout_panes(self, area: PaneGeometry) -> Seq<(SessionId, PaneGeometry)>
        decreases self,
    {
        match self {
            Pane::Leaf { session } => seq![(session, area)],
            Pane::Split { direction, ratio_per_mille, first, second } => {
                let parts = split_areas(area, direction, ratio_per_mille);
                first.layout_panes(parts.0) + second.layout_panes(parts.1)
            },
        }
    }

    /// The dividers of the tree laid out in `area`, in pre-order (a split's
    /// divider before those inside its children), for a tree that sits at
    /// `path` in a larger tree.
    pub open spec fn layout_dividers(self, area: PaneGeometry, path: Seq<PanePathStep>) -> Seq<
        DividerView,
    >
        decreases self,
    {
        match self {
            Pane::Leaf { .. } => Seq::empty(),
            Pane::Split { direction, ratio_per_mille, first, second } => {
                let parts = split_areas(area, direction, ratio_per_mille);
                seq![divider_of(path, direction, area, parts.1)] + first.layout_dividers(
                    parts.0,
                    path.push(PanePathStep::First),
                ) + second.layout_dividers(parts.1, path.push(PanePathStep::Second))
            },
        }
    }

    /// The sub-tree reached by following `path` from the root, if any.
    pub open spec fn subtree_at(self, path: Seq<PanePathStep>) -> Option<Pane>
        decreases path.len(),
    {
        if path.len() == 0 {
            Some(self)
        } else {
            match self {
                Pane::Leaf { .. } => None,
                Pane::Split { first, second, .. } => match path[0] {
                    PanePathStep::First => first.subtree_at(path.drop_first()),
                    PanePathStep::Second => second.subtree_at(path.drop_first()),
                },
            }
        }
    }

    /// The area of the node reached by `path` when the tree is laid out in
    /// `area`.
    pub open spec fn area_at(self, path: Seq<PanePathStep>, area: PaneGeometry) -> PaneGeometry
        decreases path.len(),
    {
        if path.len() == 0 {
            area
        } else {
            match self {
                Pane::Leaf { .. } => area,
                Pane::Split { direction, ratio_per_mille, first, second } => {
                    let parts = split_areas(area, direction, ratio_per_mille);
                    match path[0] {
                        PanePathStep::First => first.area_at(path.drop_first(), parts.0),
                        PanePathStep::Second => second.area_at(path.drop_first(), parts.1),
                    }
                }
            }
        }
    }

    /// The tree with the ratio of the split reached by `path` set to `ratio`.
    pub open spec fn with_ratio_at(self, path: Seq<PanePathStep>, ratio: u16) -> Pane
        decreases path.len(),
    {
        match self {
            Pane::Leaf { .. } => self,
            Pane::Split { direction, ratio_per_mille, first, second } => {
                if path.len() == 0 {
                    Pane::Split { direction, ratio_per_mille: ratio, first, second }
                } else {
                    match path[0] {
                        PanePathStep::First => Pane::Split {
                            direction,
                            ratio_per_mille,
                            first: Box::new(first.with_ratio_at(path.drop_first(), ratio)),
                            second,
                        },
                        PanePathStep::Second => Pane::Split {
                            direction,
                            ratio_per_mille,
                            first,
                            second: Box::new(second.with_ratio_at(path.drop_first(), ratio)),
                        },
                    }
                }
            },
        }
    }

    /// The tree after moving the split at `path` so that its first child gets
    /// `first_size` cells (clamped so that both children keep at least one),
    /// when the node at `path` is a split along `direction`; `None` otherwise.
    pub open spec fn resized_to(
        self,
        path: Seq<PanePathStep>,
        area: PaneGeometry,
        direction: SplitDirection,
        first_size: int,
    ) -> Option<Pane> {
        match self.subtree_at(path) {
            Some(Pane::Split { direction: d, .. }) => {
                if d == direction {
                    let total = axis_size(self.area_at(path, area), direction);
                    Some(
                        self.with_ratio_at(
                            path,
                            ratio_of(clamped_first_size(first_size, total) as u16, total) as u16,
                        ),
                    )
                } else {
                    None
                }
            },
            _ => None,
        }
    }

    /// The size of the first child of the split at `path` when the tree is
    /// laid out in `area`.
    pub open spec fn first_size_at(self, path: Seq<PanePathStep>, area: PaneGeometry) -> int {
        match self.subtree_at(path) {
            Some(Pane::Split { direction, ratio_per_mille, .. }) => split_areas(
                self.area_at(path, area),
                direction,
                ratio_per_mille,
            ).2 as int,
            _ => 0,
        }
    }

    /// The path, relative to this tree, of the deepest split along
    /// `direction` above a leaf showing `target` (searching the first child
    /// before the second).
    pub open spec fn resize_target(self, target: SessionId, direction: SplitDirection) -> Option<
        Seq<PanePathStep>,
    >
        decreases self,
    {
        match self {
            Pane::Leaf { .. } => None,
            Pane::Split { direction: d, first, second, .. } => {
                match first.resize_target(target, direction) {
                    Some(p) => Some(seq![PanePathStep::First] + p),
                    None => match second.resize_target(target, direction) {
                        Some(p) => Some(seq![PanePathStep::Second] + p),
                        None => {
                            if d == direction && (first.leaves().contains(target)
                                || second.leaves().contains(target)) {
                                Some(Seq::empty())
                            } else {
                                None
                            }
                        },
                    },
                }
            },
        }
    }

    /// A found resize target lies above a leaf showing the target.
    pub proof fn lemma_resize_target_contains(self, target: SessionId, direction: SplitDirection)
        ensures
            self.resize_target(target, direction) is Some ==> self.leaves().contains(target),
        decreases self,
    {
        match self {
            Pane::Leaf { .. } => {},
            Pane::Split { first, second, .. } => {
                first.lemma_resize_target_contains(target, direction);
                second.lemma_resize_target_contains(target, direction);
                lemma_concat_contains(first.leaves(), second.leaves(), target);
            },
        }
    }

    /// Removes every leaf that shows `target`; a split that loses one child
    /// is replaced by the other one. `None` when no leaf is left.
    pub fn remove_session(self, target: SessionId) -> (r: Option<Self>)
        ensures
            r == self.without(target),
        decreases self,
    {
        match self {
            Pane::Leaf { session } => {
                if session != target {
                    Some(Pane::Leaf { session })
                } else {
                    None
                }
            },
            Pane::Split { direction, ratio_per_mille, first, second } => {
                let f = (*first).remove_session(target);
                let s = (*second).remove_session(target);
                match (f, s) {
                    (Some(first), Some(second)) => Some(
                        Pane::Split {
                            direction,
                            ratio_per_mille,
                            first: Box::new(first),
                            second: Box::new(second),
                        },
                    ),
                    (Some(remaining), None) => Some(remaining),
                    (None, Some(remaining)) => Some(remaining),
                    (None, None) => None,
                }
            },
        }
    }

    /// Lays the tree out in `area`: appends the session and area of each leaf
    /// to `panes` and the divider of each split to `dividers`; `path` is the
    /// position of this tree in the whole tree and is left as it was.
    pub fn layout(
        &self,
        area: PaneGeometry,
        path: &mut Vec<PanePathStep>,
        panes: &mut Vec<(SessionId, PaneGeometry)>,
        dividers: &mut Vec<Divider>,
    )
        ensures
            final(path)@ == old(path)@,
            final(panes)@ == old(panes)@ + self.layout_panes(area),
            divider_views(final(dividers)@) == divider_views(old(dividers)@) + self.layout_dividers(
                area,
                old(path)@,
            ),
        decreases self,
    {
        match self {
            Pane::Leaf { session } => {
                panes.push((*session, area));
                assert(divider_views(dividers@) =~= divider_views(dividers@) + Seq::<
                    DividerView,
                >::empty());
            },
            Pane::Split { direction, ratio_per_mille, first, second } => {
                let ghost path0 = path@;
                let ghost panes0 = panes@;
                let ghost dividers0 = divider_views(dividers@);
                let (first_area, second_area, _) = split_geometry(area, *direction, *ratio_per_mille);
                let divider = match direction {
                    SplitDirection::Horizontal => Divider {
                        path: copy_path(path),
                        direction: *direction,
                        x: area.x,
                        y: second_area.y,
                        cols: area.cols,
                        rows: 0,
                    },
                    SplitDirection::Vertical => Divider {
                        path: copy_path(path),
                        direction: *direction,
                        x: second_area.x,
                        y: area.y,
                        cols: 0,
                        rows: area.rows,
                    },
                };
                dividers.push(divider);
                assert(divider_views(dividers@) =~= dividers0 + seq![
                    divider_of(path0, *direction, area, second_area),
                ]);
                path.push(PanePathStep::First);
                first.layout(first_area, path, panes, dividers);
                path.pop();
                assert(path@ =~= path0);
                path.push(PanePathStep::Second);
                second.layout(second_area, path, panes, dividers);
                path.pop();
                assert(path@ =~= path0);
                assert(panes@ =~= panes0 + self.layout_panes(area));
                assert(divider_views(dividers@) =~= dividers0 + self.layout_dividers(area, path0));
            },
        }
    }
}


impl Pane {
    /// Moves the split at `path[i..]` (relative to this tree, laid out in
    /// `area`) so that its first child gets `size_of_first(first_size)` cells.
    fn resize_from(
        &mut self,
        path: &[PanePathStep],
        i: usize,
        area: PaneGeometry,
        direction: SplitDirection,
        delta: Option<i16>,
        position: i32,
    ) -> (r: bool)
        requires
            i <= path@.len(),
        ensures
            ({
                let rest = path@.skip(i as int);
                let wanted = match delta {
                    Some(d) => old(self).first_size_at(rest, area) + d,
                    None => position - axis_origin(old(self).area_at(rest, area), direction),
                };
                match old(self).resized_to(rest, area, direction, wanted) {
                    Some(t) => r && *final(self) == t,
                    None => !r && *final(self) == *old(self),
                }
            }),
        decreases path@.len() - i,
    {
        match self {
            Pane::Leaf { .. } => false,
            Pane::Split { direction: split_direction, ratio_per_mille, first, second } => {
                let (first_area, second_area, first_size) = split_geometry(
                    area,
                    *split_direction,
                    *ratio_per_mille,
                );
                if i < path.len() {
                    proof {
                        assert(path@.skip(i as int)[0] == path@[i as int]);
                        assert(path@.skip(i as int).drop_first() =~= path@.skip(i + 1));
                    }
                    return match path[i] {
                        PanePathStep::First => first.resize_from(
                            path,
                            i + 1,
                            first_area,
                            direction,
                            delta,
                            position,
                        ),
                        PanePathStep::Second => second.resize_from(
                            path,
                            i + 1,
                            second_area,
                            direction,
                            delta,
                            position,
                        ),
                    };
                }
                assert(path@.skip(i as int).len() == 0);
                if *split_direction != direction {
                    return false;
                }
                let total = split_axis_size(area, direction);
                let wanted: i64 = match delta {
                    Some(d) => first_size as i64 + d as i64,
                    None => match direction {
                        SplitDirection::Horizontal => position as i64 - area.y as i64,
                        SplitDirection::Vertical => position as i64 - area.x as i64,
                    },
                };
                let clamped: i32 = if wanted < 1 {
                    1
                } else if wanted > 65535 {
                    65535
                } else {
                    wanted as i32
                };
                let next = clamp_first_size(clamped, total);
                *ratio_per_mille = ratio_from_first_size(next, total);
                true
            },
        }
    }

    /// Moves the split at `path` (relative to this tree, laid out in `area`)
    /// by `delta_first` cells: its first child grows by that many cells, kept
    /// so that both children have at least one. Returns `false`, leaving the
    /// tree unchanged, when the node at `path` is not a split along
    /// `direction`.
    pub fn resize_split_delta(
        &mut self,
        path: &[PanePathStep],
        area: PaneGeometry,
        direction: SplitDirection,
        delta_first: i16,
    ) -> (r: bool)
        ensures
            match old(self).resized_to(
                path@,
                area,
                direction,
                old(self).first_size_at(path@, area) + delta_first,
            ) {
                Some(t) => r && *final(self) == t,
                None => !r && *final(self) == *old(self),
            },
    {
        assert(path@.skip(0) =~= path@);
        self.resize_from(path, 0, area, direction, Some(delta_first), 0)
    }

    /// Moves the split at `path` (relative to this tree, laid out in `area`)
    /// so that it lies at the absolute grid position `position` (a row for a
    /// horizontal split, a column for a vertical one), kept so that both
    /// children have at least one cell. Returns `false`, leaving the tree
    /// unchanged, when the node at `path` is not a split along `direction`.
    pub fn resize_split_by_position(
        &mut self,
        path: &[PanePathStep],
        area: PaneGeometry,
        direction: SplitDirection,
        position: i32,
    ) -> (r: bool)
        ensures
            match old(self).resized_to(
                path@,
                area,
                direction,
                position - axis_origin(old(self).area_at(path@, area), direction),
            ) {
                Some(t) => r && *final(self) == t,
                None => !r && *final(self) == *old(self),
            },
    {
        assert(path@.skip(0) =~= path@);
        self.resize_from(path, 0, area, direction, None, position)
    }

    /// The path of the deepest split along `direction` above a leaf showing
    /// `target`, appended to `path` (the position of this tree in the whole
    /// tree); `path` is left as it was.
    pub fn find_resize_target(
        &self,
        target: SessionId,
        direction: SplitDirection,
        path: &mut Vec<PanePathStep>,
    ) -> (r: Option<Vec<PanePathStep>>)
        ensures
            final(path)@ == old(path)@,
            match self.resize_target(target, direction) {
                Some(p) => r is Some && r->0@ == old(path)@ + p,
                None => r is None,
            },
        decreases self,
    {
        match self {
            Pane::Leaf { .. } => None,
            Pane::Split { direction: split_direction, first, second, .. } => {
                let ghost path0 = path@;
                proof {
                    first.lemma_resize_target_contains(target, direction);
                    second.lemma_resize_target_contains(target, direction);
                }
                let in_first = first.contains_session(target);
                if in_first {
                    path.push(PanePathStep::First);
                    let found = first.find_resize_target(target, direction, path);
                    path.pop();
                    assert(path@ =~= path0);
                    if found.is_some() {
                        assert(path0.push(PanePathStep::First) + first.resize_target(
                            target,
                            direction,
                        )->0 =~= path0 + (seq![PanePathStep::First] + first.resize_target(
                            target,
                            direction,
                        )->0));
                        return found;
                    }
                }
                let in_second = second.contains_session(target);
                if in_second {
                    path.push(PanePathStep::Second);
                    let found = second.find_resize_target(target, direction, path);
                    path.pop();
                    assert(path@ =~= path0);
                    if found.is_some() {
                        assert(path0.push(PanePathStep::Second) + second.resize_target(
                            target,
                            direction,
                        )->0 =~= path0 + (seq![PanePathStep::Second] + second.resize_target(
                            target,
                            direction,
                        )->0));
                        return found;
                    }
                }
                if *split_direction == direction && (in_first || in_second) {
                    assert(path0 + Seq::<PanePathStep>::empty() =~= path0);
                    Some(copy_path(path))
                } else {
                    None
                }
            },
        }
    }
}


/// The predicate "is not `s`".
pub open spec fn is_not(s: SessionId) -> spec_fn(SessionId) -> bool {
    |x: SessionId| x != s
}

impl Pane {
    /// Removing a session drops exactly its leaves and keeps the order of
    /// the others.
    pub proof fn lemma_without_leaves(self, target: SessionId)
        ensures
            leaves_of(self.without(target)) == self.leaves().filter(is_not(target)),
        decreases self,
    {
        match self {
            Pane::Leaf { session } => {
                reveal(Seq::filter);
                assert(seq![session].drop_last() =~= Seq::<SessionId>::empty());
                assert(Seq::<SessionId>::empty().filter(is_not(target)) =~= Seq::<
                    SessionId,
                >::empty());
                if session != target {
                    assert(Seq::<SessionId>::empty().push(session) =~= seq![session]);
                }
            },
            Pane::Split { first, second, .. } => {
                first.lemma_without_leaves(target);
                second.lemma_without_leaves(target);
                Seq::filter_distributes_over_add(first.leaves(), second.leaves(), is_not(target));
                assert(leaves_of(first.without(target)) + leaves_of(second.without(target))
                    == first.leaves().filter(is_not(target)) + second.leaves().filter(
                    is_not(target),
                ));
                match (first.without(target), second.without(target)) {
                    (Some(f), None) => {
                        assert(f.leaves() + Seq::<SessionId>::empty() =~= f.leaves());
                    },
                    (None, Some(t)) => {
                        assert(Seq::<SessionId>::empty() + t.leaves() =~= t.leaves());
                    },
                    (None, None) => {
                        assert(Seq::<SessionId>::empty() + Seq::<SessionId>::empty() =~= Seq::<
                            SessionId,
                        >::empty());
                    },
                    _ => {},
                }
            },
        }
    }

    /// Splitting at a session that a leaf shows replaces its leftmost leaf by
    /// two leaves: the session itself, then the new one.
    pub proof fn lemma_split_leaves(self, target: SessionId, direction: SplitDirection, session: SessionId)
        requires
            self.leaves().contains(target),
        ensures
            exists|i: int|
                #![trigger self.leaves()[i]]
                0 <= i < self.leaves().len() && self.leaves()[i] == target && (forall|j: int|
                    0 <= j < i ==> self.leaves()[j] != target) && self.split_at_leaf(
                    target,
                    direction,
                    session,
                ).leaves() == self.leaves().take(i) + seq![target, session] + self.leaves().skip(
                    i + 1,
                ),
            self.split_at_leaf(target, direction, session).leaves().contains(session),
            self.split_at_leaf(target, direction, session).leaves().len() == self.leaves().len()
                + 1,
        decreases self,
    {
        match self {
            Pane::Leaf { session: current } => {
                assert(seq![current][0] == current);
                assert(current == target);
                let l = self.leaves();
                let new_tree = self.split_at_leaf(target, direction, session);
                assert((Pane::Leaf { session: current }).leaves() == seq![current]);
                assert((Pane::Leaf { session }).leaves() == seq![session]);
                assert(new_tree.leaves() =~= seq![target, session]);
                assert(l.take(0) + seq![target, session] + l.skip(1) =~= seq![target, session]);
                assert(new_tree.leaves()[1] == session);
                assert(self.leaves()[0] == target);
            },
            Pane::Split { first, second, .. } => {
                lemma_concat_contains(first.leaves(), second.leaves(), target);
                let fl = first.leaves();
                let sl = second.leaves();
                let new_tree = self.split_at_leaf(target, direction, session);
                if fl.contains(target) {
                    first.lemma_split_leaves(target, direction, session);
                    let i = choose|i: int|
                        #![trigger fl[i]]
                        0 <= i < fl.len() && fl[i] == target && (forall|j: int|
                            0 <= j < i ==> fl[j] != target) && first.split_at_leaf(
                            target,
                            direction,
                            session,
                        ).leaves() == fl.take(i) + seq![target, session] + fl.skip(i + 1);
                    let l = self.leaves();
                    assert(l[i] == target);
                    assert(forall|j: int| 0 <= j < i ==> l[j] == fl[j]);
                    assert(new_tree.leaves() =~= l.take(i) + seq![target, session] + l.skip(i + 1));
                    lemma_concat_contains(
                        first.split_at_leaf(target, direction, session).leaves(),
                        sl,
                        session,
                    );
                } else {
                    second.lemma_split_leaves(target, direction, session);
                    let i = choose|i: int|
                        #![trigger sl[i]]
                        0 <= i < sl.len() && sl[i] == target && (forall|j: int|
                            0 <= j < i ==> sl[j] != target) && second.split_at_leaf(
                            target,
                            direction,
                            session,
                        ).leaves() == sl.take(i) + seq![target, session] + sl.skip(i + 1);
                    let l = self.leaves();
                    let k = fl.len() + i;
                    assert(l[k] == target);
                    assert forall|j: int| 0 <= j < k implies l[j] != target by {
                        if j < fl.len() {
                            assert(l[j] == fl[j]);
                            if fl[j] == target {
                                assert(fl.contains(target));
                            }
                        } else {
                            assert(l[j] == sl[j - fl.len()]);
                        }
                    }
                    assert(new_tree.leaves() =~= l.take(k) + seq![target, session] + l.skip(k + 1));
                    lemma_concat_contains(
                        fl,
                        second.split_at_leaf(target, direction, session).leaves(),
                        session,
                    );
                }
            },
        }
    }

    /// Setting the ratio of a split keeps the leaves.
    pub proof fn lemma_with_ratio_leaves(self, path: Seq<PanePathStep>, ratio: u16)
        ensures
            self.with_ratio_at(path, ratio).leaves() == self.leaves(),
        decreases path.len(),
    {
        match self {
            Pane::Leaf { .. } => {},
            Pane::Split { first, second, .. } => {
                if path.len() > 0 {
                    first.lemma_with_ratio_leaves(path.drop_first(), ratio);
                    second.lemma_with_ratio_leaves(path.drop_first(), ratio);
                }
            },
        }
    }

    /// Moving a split keeps the leaves.
    pub proof fn lemma_resized_leaves(
        self,
        path: Seq<PanePathStep>,
        area: PaneGeometry,
        direction: SplitDirection,
        first_size: int,
    )
        ensures
            self.resized_to(path, area, direction, first_size) matches Some(t) ==> t.leaves()
                == self.leaves(),
    {
        let total = axis_size(self.area_at(path, area), direction);
        self.lemma_with_ratio_leaves(
            path,
            ratio_of(clamped_first_size(first_size, total) as u16, total) as u16,
        );
    }
}


/// Laying a tree out gives one area per leaf, in the order of the leaves,
/// and one divider per split: one fewer than there are leaves.
pub proof fn law_layout_follows_leaves(p: Pane, area: PaneGeometry, path: Seq<PanePathStep>)
    ensures
        p.layout_panes(area).len() == p.leaves().len(),
        forall|i: int|
            0 <= i < p.leaves().len() ==> #[trigger] p.layout_panes(area)[i].0 == p.leaves()[i],
        p.layout_dividers(area, path).len() + 1 == p.leaves().len(),
    decreases p,
{
    match p {
        Pane::Leaf { .. } => {},
        Pane::Split { direction, ratio_per_mille, first, second } => {
            let parts = split_areas(area, direction, ratio_per_mille);
            law_layout_follows_leaves(*first, parts.0, path.push(PanePathStep::First));
            law_layout_follows_leaves(*second, parts.1, path.push(PanePathStep::Second));
            let fl = first.leaves();
            let fp = first.layout_panes(parts.0);
            assert forall|i: int| 0 <= i < p.leaves().len() implies #[trigger] p.layout_panes(
                area,
            )[i].0 == p.leaves()[i] by {
                if i < fl.len() {
                    assert(p.layout_panes(area)[i] == fp[i]);
                } else {
                    assert(p.layout_panes(area)[i] == second.layout_panes(parts.1)[i - fp.len()]);
                }
            }
        },
    }
}

/// The laid-out panes that hold the 1-based global cell `(col, row)`.
pub open spec fn holding_cell(col: u16, row: u16) -> spec_fn((SessionId, PaneGeometry)) -> bool {
    |p: (SessionId, PaneGeometry)| p.1.holds_cell(col, row)
}

/// Laying a tree out tiles its area: when the area stays away from the last
/// cell of either axis, each cell of the area lies in exactly one pane, and a
/// cell outside the area lies in none.
pub proof fn law_layout_tiles(p: Pane, area: PaneGeometry, col: u16, row: u16)
    requires
        area.x + area.cols < u16::MAX,
        area.y + area.rows < u16::MAX,
    ensures
        p.layout_panes(area).filter(holding_cell(col, row)).len() == if area.holds_cell(col, row) {
            1nat
        } else {
            0nat
        },
    decreases p,
{
    let pred = holding_cell(col, row);
    match p {
        Pane::Leaf { session } => {
            let s = seq![(session, area)];
            reveal_with_fuel(Seq::filter, 2);
            assert(s.drop_last() =~= Seq::<(SessionId, PaneGeometry)>::empty());
            assert(pred(s.last()) == area.holds_cell(col, row));
        },
        Pane::Split { direction, ratio_per_mille, first, second } => {
            let parts = split_areas(area, direction, ratio_per_mille);
            lemma_split_partitions_cells(area, direction, ratio_per_mille, col, row);
            law_layout_tiles(*first, parts.0, col, row);
            law_layout_tiles(*second, parts.1, col, row);
            Seq::filter_distributes_over_add(
                first.layout_panes(parts.0),
                second.layout_panes(parts.1),
                pred,
            );
        },
    }
}

/// Whether the rectangle `g` lies within the rectangle `area`.
pub open spec fn inside(g: PaneGeometry, area: PaneGeometry) -> bool {
    &&& area.x <= g.x && g.x + g.cols <= area.x + area.cols
    &&& area.y <= g.y && g.y + g.rows <= area.y + area.rows
}

/// Whether the rectangles `g` and `h` share no cell.
pub open spec fn apart(g: PaneGeometry, h: PaneGeometry) -> bool {
    ||| g.x + g.cols <= h.x
    ||| h.x + h.cols <= g.x
    ||| g.y + g.rows <= h.y
    ||| h.y + h.rows <= g.y
}

/// How many cells the laid-out panes cover between them.
pub open spec fn cells_of(panes: Seq<(SessionId, PaneGeometry)>) -> int
    decreases panes.len(),
{
    if panes.len() == 0 {
        0
    } else {
        cells_of(panes.drop_last()) + panes.last().1.cols * panes.last().1.rows
    }
}

proof fn lemma_cells_of_concat(a: Seq<(SessionId, PaneGeometry)>, b: Seq<(SessionId, PaneGeometry)>)
    ensures
        cells_of(a + b) == cells_of(a) + cells_of(b),
    decreases b.len(),
{
    if b.len() > 0 {
        assert((a + b).drop_last() =~= a + b.drop_last());
        lemma_cells_of_concat(a, b.drop_last());
    }
}

/// Laying a tree out loses and doubles no cell: the panes' sizes add up to
/// the size of the area.
pub proof fn law_layout_cells_sum(p: Pane, area: PaneGeometry)
    ensures
        cells_of(p.layout_panes(area)) == area.cols * area.rows,
    decreases p,
{
    match p {
        Pane::Leaf { session } => {
            let l = seq![(session, area)];
            assert(l.drop_last() =~= Seq::<(SessionId, PaneGeometry)>::empty());
            assert(cells_of(l.drop_last()) == 0);
            assert(cells_of(l) == cells_of(l.drop_last()) + area.cols * area.rows);
        },
        Pane::Split { direction, ratio_per_mille, first, second } => {
            let parts = split_areas(area, direction, ratio_per_mille);
            crate::geometry::law_split_areas_tile(area, direction, ratio_per_mille);
            law_layout_cells_sum(*first, parts.0);
            law_layout_cells_sum(*second, parts.1);
            lemma_cells_of_concat(first.layout_panes(parts.0), second.layout_panes(parts.1));
            let (a, b) = (parts.0, parts.1);
            match direction {
                SplitDirection::Horizontal => {
                    assert(a.cols * a.rows + b.cols * b.rows == area.cols * area.rows)
                        by (nonlinear_arith)
                        requires
                            a.cols == area.cols,
                            b.cols == area.cols,
                            a.rows + b.rows == area.rows,
                    ;
                },
                SplitDirection::Vertical => {
                    assert(a.cols * a.rows + b.cols * b.rows == area.cols * area.rows)
                        by (nonlinear_arith)
                        requires
                            a.rows == area.rows,
                            b.rows == area.rows,
                            a.cols + b.cols == area.cols,
                    ;
                },
            }
        },
    }
}

/// Laying a tree out in an area that fits the grid (it ends at the last
/// column and row at most) puts every pane within the area, and no two
/// panes share a cell.
pub proof fn law_layout_partitions(p: Pane, area: PaneGeometry)
    requires
        area.x + area.cols <= u16::MAX,
        area.y + area.rows <= u16::MAX,
    ensures
        forall|i: int|
            0 <= i < p.layout_panes(area).len() ==> inside(#[trigger] p.layout_panes(area)[i].1, area),
        forall|i: int, j: int|
            #![trigger p.layout_panes(area)[i], p.layout_panes(area)[j]]
            0 <= i < p.layout_panes(area).len() && 0 <= j < p.layout_panes(area).len() && i != j
                ==> apart(p.layout_panes(area)[i].1, p.layout_panes(area)[j].1),
    decreases p,
{
    match p {
        Pane::Leaf { .. } => {},
        Pane::Split { direction, ratio_per_mille, first, second } => {
            let parts = split_areas(area, direction, ratio_per_mille);
            let (a, b) = (parts.0, parts.1);
            crate::geometry::law_split_areas_tile(area, direction, ratio_per_mille);
            assert(inside(a, area) && inside(b, area) && apart(a, b));
            law_layout_partitions(*first, a);
            law_layout_partitions(*second, b);
            let l1 = first.layout_panes(a);
            let l2 = second.layout_panes(b);
            let l = p.layout_panes(area);
            assert(l == l1 + l2);
            assert forall|i: int| 0 <= i < l.len() implies inside(#[trigger] l[i].1, area) by {
                if i < l1.len() {
                    assert(l[i] == l1[i]);
                    assert(inside(l1[i].1, a));
                } else {
                    assert(l[i] == l2[i - l1.len()]);
                    assert(inside(l2[i - l1.len()].1, b));
                }
            }
            assert forall|i: int, j: int|
                #![trigger l[i], l[j]]
                0 <= i < l.len() && 0 <= j < l.len() && i != j implies apart(l[i].1, l[j].1) by {
                if i < l1.len() && j < l1.len() {
                    assert(l[i] == l1[i] && l[j] == l1[j]);
                    assert(apart(l1[i].1, l1[j].1));
                } else if i >= l1.len() && j >= l1.len() {
                    assert(l[i] == l2[i - l1.len()] && l[j] == l2[j - l1.len()]);
                    assert(apart(l2[i - l1.len()].1, l2[j - l1.len()].1));
                } else if i < l1.len() {
                    assert(l[i] == l1[i] && l[j] == l2[j - l1.len()]);
                    assert(inside(l1[i].1, a));
                    assert(inside(l2[j - l1.len()].1, b));
                } else {
                    assert(l[j] == l1[j] && l[i] == l2[i - l1.len()]);
                    assert(inside(l1[j].1, a));
                    assert(inside(l2[i - l1.len()].1, b));
                }
            }
        },
    }
}

/// A tree whose every leaf shows `target` is gone entirely once `target`
/// is removed.
pub proof fn lemma_without_all(p: Pane, target: SessionId)
    requires
        forall|i: int| 0 <= i < p.leaves().len() ==> #[trigger] p.leaves()[i] == target,
    ensures
        p.without(target) is None,
    decreases p,
{
    match p {
        Pane::Leaf { session } => {
            assert(p.leaves()[0] == session);
        },
        Pane::Split { first, second, .. } => {
            let fl = first.leaves();
            let sl = second.leaves();
            assert forall|i: int| 0 <= i < fl.len() implies #[trigger] fl[i] == target by {
                assert(p.leaves()[i] == fl[i]);
            }
            assert forall|i: int| 0 <= i < sl.len() implies #[trigger] sl[i] == target by {
                assert(p.leaves()[fl.len() + i] == sl[i]);
            }
            lemma_without_all(*first, target);
            lemma_without_all(*second, target);
        },
    }
}

/// Closing the only session of one side of a split leaves the other side
/// exactly as it was, in its own direction and proportions: the split that
/// held both is replaced by the surviving subtree unchanged.
pub proof fn law_remove_keeps_surviving_side(
    direction: SplitDirection,
    ratio_per_mille: u16,
    gone: Pane,
    kept: Pane,
    target: SessionId,
)
    requires
        forall|i: int| 0 <= i < gone.leaves().len() ==> #[trigger] gone.leaves()[i] == target,
        !kept.leaves().contains(target),
    ensures
        (Pane::Split { direction, ratio_per_mille, first: Box::new(gone), second: Box::new(kept) }).without(
            target,
        ) == Some(kept),
        (Pane::Split { direction, ratio_per_mille, first: Box::new(kept), second: Box::new(gone) }).without(
            target,
        ) == Some(kept),
{
    lemma_without_all(gone, target);
    lemma_without_absent(kept, target);
}

/// Removing a session that only one side of a split shows, while that side
/// keeps some pane, changes only that side: the split keeps its direction,
/// its proportions and its other side, in the same order.
pub proof fn law_remove_touches_one_side(
    direction: SplitDirection,
    ratio_per_mille: u16,
    touched: Pane,
    other: Pane,
    target: SessionId,
)
    requires
        !other.leaves().contains(target),
        touched.without(target) is Some,
    ensures
        (Pane::Split {
            direction,
            ratio_per_mille,
            first: Box::new(touched),
            second: Box::new(other),
        }).without(target) == Some(
            Pane::Split {
                direction,
                ratio_per_mille,
                first: Box::new(touched.without(target)->0),
                second: Box::new(other),
            },
        ),
        (Pane::Split {
            direction,
            ratio_per_mille,
            first: Box::new(other),
            second: Box::new(touched),
        }).without(target) == Some(
            Pane::Split {
                direction,
                ratio_per_mille,
                first: Box::new(other),
                second: Box::new(touched.without(target)->0),
            },
        ),
{
    lemma_without_absent(other, target);
}

/// A resize target found for a session leads to a split along the asked
/// direction whose panes include that session.
pub proof fn law_resize_target_is_split(p: Pane, target: SessionId, direction: SplitDirection)
    ensures
        p.resize_target(target, direction) matches Some(path) ==> (p.subtree_at(path) matches Some(
            Pane::Split { direction: d, .. },
        ) && d == direction && p.subtree_at(path)->0.leaves().contains(target)),
    decreases p,
{
    match p {
        Pane::Leaf { .. } => {},
        Pane::Split { first, second, .. } => {
            law_resize_target_is_split(*first, target, direction);
            law_resize_target_is_split(*second, target, direction);
            lemma_concat_contains(first.leaves(), second.leaves(), target);
            match first.resize_target(target, direction) {
                Some(q) => {
                    assert((seq![PanePathStep::First] + q).drop_first() =~= q);
                },
                None => match second.resize_target(target, direction) {
                    Some(q) => {
                        assert((seq![PanePathStep::Second] + q).drop_first() =~= q);
                    },
                    None => {},
                },
            }
        },
    }
}

impl Pane {
    /// Setting the ratio at a split keeps that split's area and changes only
    /// its ratio.
    pub proof fn lemma_with_ratio_at_node(
        self,
        path: Seq<PanePathStep>,
        ratio: u16,
        area: PaneGeometry,
    )
        requires
            self.subtree_at(path) matches Some(Pane::Split { .. }),
        ensures
            self.with_ratio_at(path, ratio).area_at(path, area) == self.area_at(path, area),
            self.with_ratio_at(path, ratio).subtree_at(path) == match self.subtree_at(path) {
                Some(Pane::Split { direction, first, second, .. }) => Some(
                    Pane::Split { direction, ratio_per_mille: ratio, first, second },
                ),
                _ => None,
            },
        decreases path.len(),
    {
        if path.len() > 0 {
            match self {
                Pane::Leaf { .. } => {},
                Pane::Split { direction, ratio_per_mille, first, second } => {
                    let parts = split_areas(area, direction, ratio_per_mille);
                    match path[0] {
                        PanePathStep::First => first.lemma_with_ratio_at_node(
                            path.drop_first(),
                            ratio,
                            parts.0,
                        ),
                        PanePathStep::Second => second.lemma_with_ratio_at_node(
                            path.drop_first(),
                            ratio,
                            parts.1,
                        ),
                    }
                },
            }
        }
    }
}

/// Whether the node of `p` reached by `rel` is a split along `direction`.
pub open spec fn leads_to_split(p: Pane, rel: Seq<PanePathStep>, direction: SplitDirection) -> bool {
    p.subtree_at(rel) matches Some(Pane::Split { direction: d, .. }) && d == direction
}

/// Every divider of a laid-out tree that sits at `path` in a larger tree
/// carries a path that starts with `path` and goes on to a split of the
/// divider's own direction.
pub proof fn law_dividers_lead_to_splits(p: Pane, area: PaneGeometry, path: Seq<PanePathStep>)
    ensures
        forall|i: int|
            0 <= i < p.layout_dividers(area, path).len() ==> {
                let d = #[trigger] p.layout_dividers(area, path)[i];
                &&& path.len() <= d.path.len()
                &&& d.path.take(path.len() as int) == path
                &&& leads_to_split(p, d.path.skip(path.len() as int), d.direction)
            },
    decreases p,
{
    match p {
        Pane::Leaf { .. } => {},
        Pane::Split { direction, ratio_per_mille, first, second } => {
            let parts = split_areas(area, direction, ratio_per_mille);
            let p1 = path.push(PanePathStep::First);
            let p2 = path.push(PanePathStep::Second);
            law_dividers_lead_to_splits(*first, parts.0, p1);
            law_dividers_lead_to_splits(*second, parts.1, p2);
            let head = seq![divider_of(path, direction, area, parts.1)];
            let d1 = first.layout_dividers(parts.0, p1);
            let d2 = second.layout_dividers(parts.1, p2);
            let all = p.layout_dividers(area, path);
            assert(all == head + d1 + d2);
            let n = path.len() as int;
            assert forall|i: int| 0 <= i < all.len() implies {
                let d = #[trigger] all[i];
                &&& path.len() <= d.path.len()
                &&& d.path.take(n) == path
                &&& leads_to_split(p, d.path.skip(n), d.direction)
            } by {
                let d = all[i];
                if i == 0 {
                    assert(d.path.take(n) =~= path);
                    assert(d.path.skip(n) =~= Seq::<PanePathStep>::empty());
                } else if i < 1 + d1.len() {
                    assert(d == d1[i - 1]);
                    assert(d.path.take(n + 1) == p1);
                    assert(d.path.take(n) =~= path) by {
                        assert forall|k: int| 0 <= k < n implies d.path[k] == path[k] by {
                            assert(d.path.take(n + 1)[k] == p1[k]);
                        }
                    }
                    assert(d.path[n] == PanePathStep::First) by {
                        assert(d.path.take(n + 1)[n] == p1[n]);
                    }
                    let rel = d.path.skip(n);
                    assert(rel.len() > 0);
                    assert(rel[0] == PanePathStep::First);
                    assert(rel.drop_first() =~= d.path.skip(n + 1));
                } else {
                    assert(d == d2[i - 1 - d1.len()]);
                    assert(d.path.take(n + 1) == p2);
                    assert(d.path.take(n) =~= path) by {
                        assert forall|k: int| 0 <= k < n implies d.path[k] == path[k] by {
                            assert(d.path.take(n + 1)[k] == p2[k]);
                        }
                    }
                    assert(d.path[n] == PanePathStep::Second) by {
                        assert(d.path.take(n + 1)[n] == p2[n]);
                    }
                    let rel = d.path.skip(n);
                    assert(rel.len() > 0);
                    assert(rel[0] == PanePathStep::Second);
                    assert(rel.drop_first() =~= d.path.skip(n + 1));
                }
            }
        },
    }
}

/// Moving a split to a wanted first size on an axis of at most 1000 cells
/// gives its first child exactly that size, clamped so that both children
/// keep at least one cell.
pub proof fn law_resize_sets_first_size(
    p: Pane,
    path: Seq<PanePathStep>,
    area: PaneGeometry,
    direction: SplitDirection,
    wanted: int,
)
    requires
        p.resized_to(path, area, direction, wanted) is Some,
        axis_size(p.area_at(path, area), direction) <= 1000,
    ensures
        p.resized_to(path, area, direction, wanted)->0.first_size_at(path, area)
            == clamped_first_size(wanted, axis_size(p.area_at(path, area), direction)),
{
    let a = p.area_at(path, area);
    let total = axis_size(a, direction);
    let size = clamped_first_size(wanted, total);
    let ratio = ratio_of(size as u16, total) as u16;
    p.lemma_with_ratio_at_node(path, ratio, area);
    if total >= 2 {
        law_ratio_round_trip(size as u16, total);
    }
}

/// Removing a session that the tree does not show changes nothing.
pub proof fn lemma_without_absent(p: Pane, target: SessionId)
    requires
        !p.leaves().contains(target),
    ensures
        p.without(target) == Some(p),
    decreases p,
{
    match p {
        Pane::Leaf { session } => {
            assert(p.leaves()[0] == session);
        },
        Pane::Split { first, second, .. } => {
            lemma_concat_contains(first.leaves(), second.leaves(), target);
            lemma_without_absent(*first, target);
            lemma_without_absent(*second, target);
        },
    }
}

/// Splitting a pane off for a new session and then removing that session
/// gives back the tree as it was.
pub proof fn law_remove_undoes_split(
    p: Pane,
    target: SessionId,
    direction: SplitDirection,
    session: SessionId,
)
    requires
        p.leaves().contains(target),
        !p.leaves().contains(session),
    ensures
        p.split_at_leaf(target, direction, session).without(session) == Some(p),
    decreases p,
{
    match p {
        Pane::Leaf { session: current } => {
            assert(p.leaves()[0] == current);
            assert(current == target);
            let leaf = Pane::Leaf { session: current };
            assert(leaf.leaves() == seq![current]);
            assert(seq![current][0] == current);
            assert(current != session);
            let kept = Pane::Leaf { session: current };
            let added = Pane::Leaf { session };
            assert(kept.without(session) == Some(kept));
            assert(added.without(session) is None);
            let sp = Pane::Split {
                direction,
                ratio_per_mille: 500,
                first: Box::new(kept),
                second: Box::new(added),
            };
            assert(p.split_at_leaf(target, direction, session) == sp);
            assert(sp.without(session) == Some(kept));
        },
        Pane::Split { first, second, .. } => {
            lemma_concat_contains(first.leaves(), second.leaves(), target);
            lemma_concat_contains(first.leaves(), second.leaves(), session);
            if first.leaves().contains(target) {
                law_remove_undoes_split(*first, target, direction, session);
                lemma_without_absent(*second, session);
            } else {
                law_remove_undoes_split(*second, target, direction, session);
                lemma_without_absent(*first, session);
            }
        },
    }
}

} // verus!
