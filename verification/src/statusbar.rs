use vstd::prelude::*;

use crate::text::{chars_of, push_str, string_of};
use crate::workspace::RenderStatusTab;

verus! {

/// `text` cut to at most `max_cols` characters: unchanged when it fits,
/// dots only when there is room for no more than three, and otherwise its
/// start followed by "...".
pub open spec fn fitted(text: Seq<char>, max_cols: nat) -> Seq<char> {
    if text.len() <= max_cols {
        text
    } else if max_cols <= 3 {
        Seq::new(max_cols, |i: int| '.')
    } else {
        text.take(max_cols - 3) + seq!['.', '.', '.']
    }
}

/// Fits `text` into `max_cols` columns (see `fitted`).
pub fn fit_status_text(text: &str, max_cols: usize) -> (r: String)
    ensures
        r@ == fitted(text@, max_cols as nat),
{
    let chars = chars_of(text);
    let out = fit_chars(&chars, max_cols);
    string_of(&out)
}

/// Fits the characters `text` into `max_cols` columns (see `fitted`).
pub fn fit_chars(text: &Vec<char>, max_cols: usize) -> (r: Vec<char>)
    ensures
        r@ == fitted(text@, max_cols as nat),
        r@.len() <= max_cols,
{
    if text.len() <= max_cols {
        return text.clone();
    }
    let mut out: Vec<char> = Vec::new();
    if max_cols <= 3 {
        let mut i: usize = 0;
        while i < max_cols
            invariant
                i <= max_cols,
                out@ == Seq::new(i as nat, |j: int| '.'),
            decreases max_cols - i,
        {
            out.push('.');
            i = i + 1;
            assert(out@ =~= Seq::new(i as nat, |j: int| '.'));
        }
        return out;
    }
    let mut i: usize = 0;
    while i < max_cols - 3
        invariant
            max_cols > 3,
            max_cols < text@.len(),
            i <= max_cols - 3,
            out@ == text@.take(i as int),
        decreases max_cols - 3 - i,
    {
        out.push(text[i]);
        i = i + 1;
        assert(out@ =~= text@.take(i as int));
    }
    out.push('.');
    out.push('.');
    out.push('.');
    assert(out@ =~= text@.take(max_cols - 3) + seq!['.', '.', '.']);
    out
}

/// A piece of the status bar: the column it starts at, its text, and
/// whether it is drawn highlighted.
pub struct StatusSegment {
    pub start: usize,
    pub text: String,
    pub highlighted: bool,
}

/// A segment as (start column, text, highlighted).
pub open spec fn segment_view(s: StatusSegment) -> (nat, Seq<char>, bool) {
    (s.start as nat, s.text@, s.highlighted)
}

/// The tab segments of the status bar, for the tabs `tabs` (label, is
/// current) placed from column `cursor` on, left of `limit`: each label with
/// a space either side, cut to the room left, one column apart; placing stops
/// once fewer than four columns are left.
pub open spec fn tab_segments(tabs: Seq<(Seq<char>, bool)>, cursor: nat, limit: nat) -> Seq<
    (nat, Seq<char>, bool),
>
    decreases tabs.len(),
{
    if tabs.len() == 0 || cursor >= limit || limit - cursor < 4 {
        Seq::empty()
    } else {
        let label = fitted(seq![' '] + tabs[0].0 + seq![' '], (limit - cursor) as nat);
        if label.len() == 0 {
            tab_segments(tabs.drop_first(), cursor, limit)
        } else {
            let end = cursor + label.len();
            let next = if end < limit {
                end + 1
            } else {
                end
            };
            seq![(cursor, label, tabs[0].1)] + tab_segments(tabs.drop_first(), next as nat, limit)
        }
    }
}

/// The text of the status bar's right-hand segment, which names the current
/// tab.
pub open spec fn current_text(label: Seq<char>, cols: nat) -> Seq<char> {
    fitted(seq![' ', 'c', 'u', 'r', 'r', 'e', 'n', 't', ' '] + label + seq![' '], cols)
}

/// Where the status bar's left-hand tab segments must end: one column short
/// of the right-hand segment.
pub open spec fn left_limit(label: Seq<char>, cols: nat) -> nat {
    let right = current_text(label, cols);
    let start = cols - right.len();
    if start >= 1 {
        (start - 1) as nat
    } else {
        0
    }
}

/// The segments of a status bar `cols` columns wide: the tab segments from
/// the left, then the right-hand segment naming the current tab, flush right
/// (left out when it is empty). Nothing when the bar has no columns.
pub open spec fn status_bar(tabs: Seq<(Seq<char>, bool)>, label: Seq<char>, cols: nat) -> Seq<
    (nat, Seq<char>, bool),
> {
    if cols == 0 {
        Seq::empty()
    } else {
        let right = current_text(label, cols);
        let left = tab_segments(tabs, 0, left_limit(label, cols));
        if right.len() > 0 {
            left.push(((cols - right.len()) as nat, right, true))
        } else {
            left
        }
    }
}

/// Lays out the status bar of a window `cols` columns wide, for the tab
/// entries `tabs` and the label of the current tab (see `status_bar`).
pub fn status_bar_layout(cols: usize, tabs: &Vec<RenderStatusTab>, current_label: &str) -> (r: Vec<
    StatusSegment,
>)
    ensures
        r@.map_values(|s: StatusSegment| segment_view(s)) == status_bar(
            tabs@.map_values(|t: RenderStatusTab| (t.label@, t.is_active)),
            current_label@,
            cols as nat,
        ),
{
    let ghost views = tabs@.map_values(|t: RenderStatusTab| (t.label@, t.is_active));
    let mut out: Vec<StatusSegment> = Vec::new();
    if cols == 0 {
        assert(out@.map_values(|s: StatusSegment| segment_view(s)) =~= Seq::empty());
        return out;
    }
    let mut right_raw: Vec<char> = Vec::new();
    push_str(&mut right_raw, " current ");
    push_str(&mut right_raw, current_label);
    right_raw.push(' ');
    proof {
        reveal_strlit(" current ");
        assert(right_raw@ =~= seq![' ', 'c', 'u', 'r', 'r', 'e', 'n', 't', ' '] + current_label@
            + seq![' ']);
    }
    let right = fit_chars(&right_raw, cols);
    let right_width = right.len();
    let right_start = cols - right_width;
    let limit = if right_start >= 1 { right_start - 1 } else { 0 };
    let mut cursor: usize = 0;
    let mut i: usize = 0;
    proof {
        assert(views.skip(0) =~= views);
        assert(out@.map_values(|s: StatusSegment| segment_view(s)) + tab_segments(views, 0, limit as nat)
            =~= tab_segments(views, 0, limit as nat));
    }
    while i < tabs.len()
        invariant
            i <= tabs@.len(),
            views == tabs@.map_values(|t: RenderStatusTab| (t.label@, t.is_active)),
            limit as nat == left_limit(current_label@, cols as nat),
            cursor <= limit,
            out@.map_values(|s: StatusSegment| segment_view(s)) + tab_segments(
                views.skip(i as int),
                cursor as nat,
                limit as nat,
            ) == tab_segments(views, 0, limit as nat),
        decreases tabs.len() - i,
    {
        let ghost rest = views.skip(i as int);
        if cursor >= limit || limit - cursor < 4 {
            // No room for another tab: the rest are left out.
            i = tabs.len();
        } else {
            let remaining = limit - cursor;
            let mut raw: Vec<char> = Vec::new();
            raw.push(' ');
            push_str(&mut raw, tabs[i].label.as_str());
            raw.push(' ');
            let label = fit_chars(&raw, remaining);
            let width = label.len();
            proof {
                assert(raw@ =~= seq![' '] + views[i as int].0 + seq![' ']);
                assert(rest[0] == views[i as int]);
                assert(rest.drop_first() =~= views.skip(i + 1));
            }
            if width > 0 {
                let ghost before = out@.map_values(|s: StatusSegment| segment_view(s));
                let seg = StatusSegment {
                    start: cursor,
                    text: string_of(&label),
                    highlighted: tabs[i].is_active,
                };
                out.push(seg);
                cursor = cursor + width;
                if cursor < limit {
                    cursor = cursor + 1;
                }
                proof {
                    assert(out@.map_values(|s: StatusSegment| segment_view(s)) =~= before.push(
                        segment_view(seg),
                    ));
                    assert(before.push(segment_view(seg)) + tab_segments(
                        views.skip(i + 1),
                        cursor as nat,
                        limit as nat,
                    ) =~= before + (seq![segment_view(seg)] + tab_segments(
                        views.skip(i + 1),
                        cursor as nat,
                        limit as nat,
                    )));
                }
            }
            i = i + 1;
        }
    }
    assert(views.skip(i as int).len() == 0);
    if right_width > 0 {
        let ghost before = out@.map_values(|s: StatusSegment| segment_view(s));
        let seg = StatusSegment { start: right_start, text: string_of(&right), highlighted: true };
        out.push(seg);
        assert(out@.map_values(|s: StatusSegment| segment_view(s)) =~= before.push(
            segment_view(seg),
        ));
    }
    out
}

/// Fitted text is as long as the text or the room, whichever is less, and
/// is the text itself when it fits.
pub proof fn law_fitted_width(text: Seq<char>, max_cols: nat)
    ensures
        fitted(text, max_cols).len() == if text.len() <= max_cols {
            text.len()
        } else {
            max_cols
        },
        text.len() <= max_cols ==> fitted(text, max_cols) == text,
{
}

/// Tab segments lie between `cursor` and `limit`, left to right, at least
/// one column apart.
proof fn lemma_tab_segments_bounds(tabs: Seq<(Seq<char>, bool)>, cursor: nat, limit: nat)
    ensures
        ({
            let segs = tab_segments(tabs, cursor, limit);
            &&& forall|k: int|
                0 <= k < segs.len() ==> cursor <= #[trigger] segs[k].0 && segs[k].0 + segs[k].1.len()
                    <= limit
            &&& forall|j: int, k: int|
                0 <= j < k < segs.len() ==> #[trigger] segs[j].0 + segs[j].1.len() < #[trigger] segs[k].0
        }),
    decreases tabs.len(),
{
    if tabs.len() == 0 || cursor >= limit || limit - cursor < 4 {
    } else {
        let label = fitted(seq![' '] + tabs[0].0 + seq![' '], (limit - cursor) as nat);
        law_fitted_width(seq![' '] + tabs[0].0 + seq![' '], (limit - cursor) as nat);
        if label.len() == 0 {
            lemma_tab_segments_bounds(tabs.drop_first(), cursor, limit);
        } else {
            let end = cursor + label.len();
            let next = if end < limit {
                end + 1
            } else {
                end
            };
            lemma_tab_segments_bounds(tabs.drop_first(), next as nat, limit);
            let rest = tab_segments(tabs.drop_first(), next as nat, limit);
            let segs = tab_segments(tabs, cursor, limit);
            assert(segs == seq![(cursor, label, tabs[0].1)] + rest);
            if end >= limit {
                assert(rest.len() == 0);
            }
            assert forall|k: int| 0 <= k < segs.len() implies cursor <= #[trigger] segs[k].0
                && segs[k].0 + segs[k].1.len() <= limit by {
                if k > 0 {
                    assert(segs[k] == rest[k - 1]);
                }
            }
            assert forall|j: int, k: int| 0 <= j < k < segs.len() implies #[trigger] segs[j].0
                + segs[j].1.len() < #[trigger] segs[k].0 by {
                assert(segs[k] == rest[k - 1]);
                if j > 0 {
                    assert(segs[j] == rest[j - 1]);
                }
            }
        }
    }
}

/// Every segment of the status bar lies within its columns, and no two
/// overlap: each ends before the next one starts.
pub proof fn law_status_bar_segments_disjoint(tabs: Seq<(Seq<char>, bool)>, label: Seq<char>, cols: nat)
    ensures
        ({
            let segs = status_bar(tabs, label, cols);
            &&& forall|k: int| 0 <= k < segs.len() ==> #[trigger] segs[k].0 + segs[k].1.len() <= cols
            &&& forall|j: int, k: int|
                0 <= j < k < segs.len() ==> #[trigger] segs[j].0 + segs[j].1.len() <= #[trigger] segs[k].0
        }),
{
    if cols > 0 {
        let right = current_text(label, cols);
        law_fitted_width(seq![' ', 'c', 'u', 'r', 'r', 'e', 'n', 't', ' '] + label + seq![' '], cols);
        let limit = left_limit(label, cols);
        lemma_tab_segments_bounds(tabs, 0, limit);
        let left = tab_segments(tabs, 0, limit);
        let segs = status_bar(tabs, label, cols);
        if right.len() > 0 {
            assert forall|j: int, k: int| 0 <= j < k < segs.len() implies #[trigger] segs[j].0
                + segs[j].1.len() <= #[trigger] segs[k].0 by {
                assert(segs[j] == left[j]);
                if k < left.len() {
                    assert(segs[k] == left[k]);
                }
            }
            assert forall|k: int| 0 <= k < segs.len() implies #[trigger] segs[k].0 + segs[k].1.len()
                <= cols by {
                if k < left.len() {
                    assert(segs[k] == left[k]);
                }
            }
        }
    }
}

} // verus!
