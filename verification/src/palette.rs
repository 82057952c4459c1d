use vstd::prelude::*;

use nucleo_matcher::{Matcher, Utf32Str};

use crate::keys::{position, position_of, slice_chars, split_chars, split_on};
use crate::text::{chars_of, string_of};

verus! {

/// How well `needle` fuzzily matches `haystack`, the higher the better, as
/// nucleo's matcher with its default configuration scores it; `None` when it
/// does not match at all.
pub uninterp spec fn fuzzy_score(haystack: Seq<char>, needle: Seq<char>) -> Option<u16>;

/// The longest haystack, in characters, that the matcher takes: it asserts
/// that the haystack's length in its own units (bytes, or graphemes) fits a
/// `u32`, and a character takes at most four bytes.
pub const MAX_HAYSTACK_CHARS: usize = 1073741823;

/// The longest needle, in characters, that the matcher scores without its
/// `u16` score overflowing: each matched unit adds at most 26 (36 for the
/// first), and a character is at most four units.
pub const MAX_NEEDLE_CHARS: usize = 512;

/// Scores `needle` against `haystack` with `nucleo_matcher::Matcher::fuzzy_match`,
/// on a matcher of the default configuration. The score is a function of the
/// two strings, and an empty needle matches anything with score 0. The
/// matcher panics on a haystack too long for a `u32` count, and its score
/// overflows on a long needle; `requires` keeps both out.
#[verifier::external_body]
fn fuzzy_match(haystack: &str, needle: &str) -> (r: Option<u16>)
    requires
        haystack@.len() <= MAX_HAYSTACK_CHARS,
        needle@.len() <= MAX_NEEDLE_CHARS,
    ensures
        r == fuzzy_score(haystack@, needle@),
        needle@.len() == 0 ==> r == Some(0u16),
{
    let mut matcher = Matcher::default();
    let mut haystack_buf = Vec::new();
    let mut needle_buf = Vec::new();
    matcher.fuzzy_match(
        Utf32Str::new(haystack, &mut haystack_buf),
        Utf32Str::new(needle, &mut needle_buf),
    )
}

/// `entry` placed into `sorted` (best score first) after every entry that
/// scores at least as well.
pub open spec fn insert_by_score(sorted: Seq<(usize, u16)>, entry: (usize, u16)) -> Seq<
    (usize, u16),
>
    decreases sorted.len(),
{
    if sorted.len() == 0 {
        seq![entry]
    } else if sorted[0].1 >= entry.1 {
        seq![sorted[0]] + insert_by_score(sorted.drop_first(), entry)
    } else {
        seq![entry] + sorted
    }
}

/// The entries with a score among `scores[..n]`, as (index, score), best
/// score first; entries that score the same keep their order.
pub open spec fn ranked(scores: Seq<Option<u16>>, n: int) -> Seq<(usize, u16)>
    decreases n,
{
    if n <= 0 {
        Seq::empty()
    } else {
        let rest = ranked(scores, n - 1);
        match scores[n - 1] {
            Some(s) => insert_by_score(rest, ((n - 1) as usize, s)),
            None => rest,
        }
    }
}

/// The indices of the entries of `scores` that have a score, best score
/// first; entries that score the same keep their order.
pub fn rank_by_score(scores: &Vec<Option<u16>>) -> (r: Vec<usize>)
    ensures
        r@ == ranked(scores@, scores@.len() as int).map_values(|e: (usize, u16)| e.0),
{
    let mut sorted: Vec<(usize, u16)> = Vec::new();
    let mut i: usize = 0;
    while i < scores.len()
        invariant
            i <= scores@.len(),
            sorted@ == ranked(scores@, i as int),
        decreases scores.len() - i,
    {
        if let Some(s) = scores[i] {
            let mut k: usize = 0;
            proof {
                assert(sorted@.skip(0) =~= sorted@);
                assert(sorted@.take(0) + insert_by_score(sorted@, (i, s)) =~= insert_by_score(
                    sorted@,
                    (i, s),
                ));
            }
            while k < sorted.len() && sorted[k].1 >= s
                invariant
                    k <= sorted@.len(),
                    insert_by_score(sorted@, (i, s)) == sorted@.take(k as int) + insert_by_score(
                        sorted@.skip(k as int),
                        (i, s),
                    ),
                decreases sorted.len() - k,
            {
                proof {
                    let tail = sorted@.skip(k as int);
                    assert(tail.drop_first() =~= sorted@.skip(k + 1));
                    assert(sorted@.take(k as int) + (seq![tail[0]] + insert_by_score(
                        tail.drop_first(),
                        (i, s),
                    )) =~= sorted@.take(k + 1) + insert_by_score(sorted@.skip(k + 1), (i, s)));
                }
                k = k + 1;
            }
            let ghost before = sorted@;
            sorted.insert(k, (i, s));
            proof {
                assert(sorted@ =~= before.take(k as int) + insert_by_score(
                    before.skip(k as int),
                    (i, s),
                ));
            }
        }
        i = i + 1;
    }
    let mut out: Vec<usize> = Vec::new();
    let mut j: usize = 0;
    while j < sorted.len()
        invariant
            j <= sorted@.len(),
            out@ == sorted@.take(j as int).map_values(|e: (usize, u16)| e.0),
        decreases sorted.len() - j,
    {
        out.push(sorted[j].0);
        j = j + 1;
        assert(out@ =~= sorted@.take(j as int).map_values(|e: (usize, u16)| e.0));
    }
    assert(sorted@.take(sorted@.len() as int) =~= sorted@);
    out
}

/// What a palette command does.
#[derive(Clone, Copy, Debug, PartialEq, Eq, Structural)]
pub enum UiAction {
    Close,
    Next,
    Prev,
}

/// A palette command: the name it is found by and what it does.
#[derive(Debug)]
pub struct Cmd {
    pub name: String,
    pub action: UiAction,
}

impl Cmd {
    /// A command named `name`.
    pub fn new(name: &str, action: UiAction) -> (r: Cmd)
        ensures
            r.name@ == name@,
            r.action == action,
    {
        Cmd { name: name.to_string(), action }
    }

    /// A copy of the command.
    pub fn duplicate(&self) -> (r: Cmd)
        ensures
            r.name@ == self.name@,
            r.action == self.action,
    {
        Cmd { name: self.name.clone(), action: self.action }
    }
}

/// What a palette is, as a value: its commands (name, action), the selected
/// row, and the query typed so far.
pub struct PaletteView {
    pub items: Seq<(Seq<char>, UiAction)>,
    pub selected: Option<usize>,
    pub query: Seq<char>,
}

impl PaletteView {
    /// At least one command, and a selection among them.
    pub open spec fn wf(self) -> bool {
        &&& self.items.len() > 0
        &&& self.items.len() <= usize::MAX
        &&& self.selected matches Some(s) ==> s < self.items.len()
    }

    /// The commands' names and the query are short enough for the matcher
    /// (see `MAX_HAYSTACK_CHARS` and `MAX_NEEDLE_CHARS`).
    pub open spec fn scorable(self) -> bool {
        &&& forall|i: int| 0 <= i < self.items.len() ==> #[trigger] self.items[i].0.len() <= MAX_HAYSTACK_CHARS
        &&& self.query.len() <= MAX_NEEDLE_CHARS
    }

    /// How well the query matches each command (see `fuzzy_score`).
    pub open spec fn scores(self) -> Seq<Option<u16>> {
        Seq::new(self.items.len(), |i: int| fuzzy_score(self.items[i].0, self.query))
    }

    /// The commands that the query matches, as (index, score), best match
    /// first; commands that match equally well keep their order.
    pub open spec fn matches(self) -> Seq<(usize, u16)> {
        ranked(self.scores(), self.items.len() as int)
    }

    /// The selection after moving down a row, wrapping from the last to the
    /// first; with none, the first row.
    pub open spec fn selected_next(self) -> Option<usize> {
        match self.selected {
            None => Some(0),
            Some(s) => if s == self.items.len() - 1 {
                Some(0)
            } else {
                Some((s + 1) as usize)
            },
        }
    }

    /// The selection after moving up a row, wrapping from the first to the
    /// last; with none, the last row.
    pub open spec fn selected_prev(self) -> Option<usize> {
        match self.selected {
            None => Some((self.items.len() - 1) as usize),
            Some(s) => if s == 0 {
                Some((self.items.len() - 1) as usize)
            } else {
                Some((s - 1) as usize)
            },
        }
    }
}

/// The command palette: its commands, the selected row and the query.
pub struct State {
    items: Vec<Cmd>,
    selected: Option<usize>,
    query: String,
}

impl View for State {
    type V = PaletteView;

    closed spec fn view(&self) -> PaletteView {
        PaletteView {
            items: self.items@.map_values(|c: Cmd| (c.name@, c.action)),
            selected: self.selected,
            query: self.query@,
        }
    }
}

impl State {
    /// The palette's commands: "close", "next", "prev" and "new" (which, as
    /// things stand, does what "prev" does); nothing selected, no query.
    pub fn new() -> (r: State)
        ensures
            r@.wf(),
            r@.selected is None,
            r@.query.len() == 0,
            r@.items == seq![
                ("close"@, UiAction::Close),
                ("next"@, UiAction::Next),
                ("prev"@, UiAction::Prev),
                ("new"@, UiAction::Prev),
            ],
    {
        let mut items: Vec<Cmd> = Vec::new();
        items.push(Cmd::new("close", UiAction::Close));
        items.push(Cmd::new("next", UiAction::Next));
        items.push(Cmd::new("prev", UiAction::Prev));
        items.push(Cmd::new("new", UiAction::Prev));
        let r = State { items, selected: None, query: String::new() };
        assert(r@.items =~= seq![
            ("close"@, UiAction::Close),
            ("next"@, UiAction::Next),
            ("prev"@, UiAction::Prev),
            ("new"@, UiAction::Prev),
        ]);
        r
    }

    /// Clears the selection.
    pub fn reset(&mut self)
        requires
            old(self)@.wf(),
        ensures
            final(self)@ == (PaletteView { selected: None, ..old(self)@ }),
            final(self)@.wf(),
    {
        self.selected = None;
    }

    /// The selected row.
    pub fn selected(&self) -> (r: Option<usize>)
        ensures
            r == self@.selected,
    {
        self.selected
    }

    /// The query typed so far.
    pub fn query(&self) -> (r: &str)
        ensures
            r@ == self@.query,
    {
        self.query.as_str()
    }

    /// Replaces the query.
    pub fn set_query(&mut self, query: &str)
        requires
            old(self)@.wf(),
        ensures
            final(self)@ == (PaletteView { query: query@, ..old(self)@ }),
            final(self)@.wf(),
    {
        self.query = query.to_string();
    }

    /// Moves the selection down a row (see `PaletteView::selected_next`).
    pub fn select_next(&mut self)
        requires
            old(self)@.wf(),
        ensures
            final(self)@ == (PaletteView { selected: old(self)@.selected_next(), ..old(self)@ }),
            final(self)@.wf(),
    {
        match self.selected {
            None => {
                self.selected = Some(0);
            },
            Some(s) => {
                if s == self.items.len() - 1 {
                    self.selected = Some(0);
                } else {
                    self.selected = Some(s + 1);
                }
            },
        }
    }

    /// Moves the selection up a row (see `PaletteView::selected_prev`).
    pub fn select_prev(&mut self)
        requires
            old(self)@.wf(),
        ensures
            final(self)@ == (PaletteView { selected: old(self)@.selected_prev(), ..old(self)@ }),
            final(self)@.wf(),
    {
        match self.selected {
            None => {
                self.selected = Some(self.items.len() - 1);
            },
            Some(s) => {
                if s == 0 {
                    self.selected = Some(self.items.len() - 1);
                } else {
                    self.selected = Some(s - 1);
                }
            },
        }
    }

    /// Runs the selection: the action of the command on the selected row
    /// among those that the query matches (the row that is highlighted),
    /// after which nothing is selected. `None`, and no change, with no
    /// selection or a selection past those commands.
    pub fn submit(&mut self) -> (r: Option<UiAction>)
        requires
            old(self)@.wf(),
            old(self)@.scorable(),
        ensures
            final(self)@.wf(),
            match old(self)@.selected {
                Some(s) => if s < old(self)@.matches().len() {
                    r == Some(old(self)@.items[old(self)@.matches()[s as int].0 as int].1)
                        && final(self)@ == (PaletteView { selected: None, ..old(self)@ })
                } else {
                    r is None && final(self)@ == old(self)@
                },
                None => r is None && final(self)@ == old(self)@,
            },
    {
        let s = match self.selected {
            Some(s) => s,
            None => return None,
        };
        let found = self.filtered_items();
        let ghost views = found@.map_values(|c: Cmd| (c.name@, c.action));
        assert(views.len() == found@.len());
        assert(found@.len() == old(self)@.matches().len());
        if s >= found.len() {
            return None;
        }
        let action = found[s].action;
        proof {
            let m = old(self)@.matches();
            lemma_ranked_indices(old(self)@.scores(), old(self)@.items.len() as int);
            assert(found@.map_values(|c: Cmd| (c.name@, c.action))[s as int] == old(self)@.items[m[s as int].0 as int]);
        }
        self.selected = None;
        Some(action)
    }

    /// The commands that the query matches, best match first; commands that
    /// match equally well keep their order.
    pub fn filtered_items(&self) -> (r: Vec<Cmd>)
        requires
            self@.wf(),
            self@.scorable(),
        ensures
            r@.map_values(|c: Cmd| (c.name@, c.action)) == self@.matches().map_values(
                |e: (usize, u16)| self@.items[e.0 as int],
            ),
    {
        let ghost scores_view = self@.scores();
        let mut scores: Vec<Option<u16>> = Vec::new();
        let mut i: usize = 0;
        while i < self.items.len()
            invariant
                i <= self.items@.len(),
                self@.wf(),
                self@.scorable(),
                scores_view == self@.scores(),
                scores@ == scores_view.take(i as int),
            decreases self.items.len() - i,
        {
            assert(self@.items[i as int].0 == self.items@[i as int].name@);
            let s = fuzzy_match(self.items[i].name.as_str(), self.query.as_str());
            assert(s == scores_view[i as int]);
            scores.push(s);
            i = i + 1;
            assert(scores@ =~= scores_view.take(i as int));
        }
        assert(scores@ =~= scores_view);
        let order = rank_by_score(&scores);
        proof {
            lemma_ranked_indices(scores@, scores@.len() as int);
        }
        let mut out: Vec<Cmd> = Vec::new();
        let mut j: usize = 0;
        while j < order.len()
            invariant
                j <= order@.len(),
                self@.wf(),
                order@ == ranked(scores@, scores@.len() as int).map_values(|e: (usize, u16)| e.0),
                scores@.len() == self@.items.len(),
                forall|k: int| 0 <= k < order@.len() ==> #[trigger] order@[k] < self@.items.len(),
                out@.map_values(|c: Cmd| (c.name@, c.action)) == ranked(
                    scores@,
                    scores@.len() as int,
                ).take(j as int).map_values(|e: (usize, u16)| self@.items[e.0 as int]),
            decreases order.len() - j,
        {
            let ghost before = out@.map_values(|c: Cmd| (c.name@, c.action));
            let c = self.items[order[j]].duplicate();
            proof {
                let ranks = ranked(scores@, scores@.len() as int);
                assert(order@[j as int] == ranks[j as int].0);
                assert((c.name@, c.action) == self@.items[ranks[j as int].0 as int]);
                assert(ranks.take(j + 1).map_values(|e: (usize, u16)| self@.items[e.0 as int])
                    =~= before.push((c.name@, c.action)));
            }
            out.push(c);
            j = j + 1;
            assert(out@.map_values(|c: Cmd| (c.name@, c.action)) =~= ranked(
                scores@,
                scores@.len() as int,
            ).take(j as int).map_values(|e: (usize, u16)| self@.items[e.0 as int]));
        }
        assert(ranked(scores@, scores@.len() as int).take(order@.len() as int) =~= ranked(
            scores@,
            scores@.len() as int,
        ));
        out
    }
}

impl State {
    /// Completes the query (the Tab key): it becomes the name of the
    /// selected row among the commands that the query matches. `false`, and
    /// no change, with no selection or a selection past those commands.
    pub fn complete(&mut self) -> (r: bool)
        requires
            old(self)@.wf(),
            old(self)@.scorable(),
        ensures
            final(self)@.wf(),
            match old(self)@.selected {
                Some(s) => if s < old(self)@.matches().len() {
                    r && final(self)@ == (PaletteView {
                        query: old(self)@.items[old(self)@.matches()[s as int].0 as int].0,
                        ..old(self)@
                    })
                } else {
                    !r && final(self)@ == old(self)@
                },
                None => !r && final(self)@ == old(self)@,
            },
    {
        let s = match self.selected {
            Some(s) => s,
            None => return false,
        };
        let found = self.filtered_items();
        assert(self@ == old(self)@);
        let ghost views = found@.map_values(|c: Cmd| (c.name@, c.action));
        assert(views == old(self)@.matches().map_values(
            |e: (usize, u16)| old(self)@.items[e.0 as int],
        ));
        assert(views.len() == found@.len());
        assert(found@.len() == old(self)@.matches().len());
        if s >= found.len() {
            return false;
        }
        let name = found[s].name.clone();
        proof {
            let m = old(self)@.matches();
            lemma_ranked_indices(old(self)@.scores(), old(self)@.items.len() as int);
            assert(found@.map_values(|c: Cmd| (c.name@, c.action))[s as int] == old(self)@.items[m[s as int].0 as int]);
        }
        self.query = name;
        true
    }
}

/// Placing an entry keeps the entries and adds it once.
proof fn lemma_insert_by_score(sorted: Seq<(usize, u16)>, entry: (usize, u16))
    ensures
        insert_by_score(sorted, entry).len() == sorted.len() + 1,
        forall|k: int|
            0 <= k < insert_by_score(sorted, entry).len() ==> #[trigger] insert_by_score(
                sorted,
                entry,
            )[k] == entry || sorted.contains(insert_by_score(sorted, entry)[k]),
    decreases sorted.len(),
{
    if sorted.len() > 0 && sorted[0].1 >= entry.1 {
        lemma_insert_by_score(sorted.drop_first(), entry);
        let r = insert_by_score(sorted, entry);
        assert forall|k: int| 0 <= k < r.len() implies #[trigger] r[k] == entry || sorted.contains(
            r[k],
        ) by {
            if k == 0 {
                assert(sorted[0] == r[0]);
            } else {
                let rest = insert_by_score(sorted.drop_first(), entry);
                assert(r[k] == rest[k - 1]);
                if rest[k - 1] != entry {
                    let m = choose|m: int|
                        0 <= m < sorted.drop_first().len() && sorted.drop_first()[m] == rest[k - 1];
                    assert(sorted[m + 1] == rest[k - 1]);
                }
            }
        }
    } else if sorted.len() > 0 {
        let r = insert_by_score(sorted, entry);
        assert forall|k: int| 0 <= k < r.len() implies #[trigger] r[k] == entry || sorted.contains(
            r[k],
        ) by {
            if k > 0 {
                assert(r[k] == sorted[k - 1]);
            }
        }
    }
}

/// The entries ranked from `scores[..n]` name indices below `n`.
proof fn lemma_ranked_indices(scores: Seq<Option<u16>>, n: int)
    requires
        n <= scores.len(),
    ensures
        forall|k: int| 0 <= k < ranked(scores, n).len() ==> #[trigger] ranked(scores, n)[k].0 < n,
    decreases n,
{
    if n > 0 {
        lemma_ranked_indices(scores, n - 1);
        let rest = ranked(scores, n - 1);
        match scores[n - 1] {
            Some(s) => {
                lemma_insert_by_score(rest, ((n - 1) as usize, s));
                let r = ranked(scores, n);
                assert forall|k: int| 0 <= k < r.len() implies #[trigger] r[k].0 < n by {
                    if r[k] != ((n - 1) as usize, s) {
                        let m = choose|m: int| 0 <= m < rest.len() && rest[m] == r[k];
                        assert(rest[m].0 < n - 1);
                    }
                }
            },
            None => {},
        }
    }
}

/// The command name of a palette query: what comes before its first space
/// (all of it when there is none).
pub open spec fn query_name(query: Seq<char>) -> Seq<char> {
    match position_of(query, ' ') {
        Some(i) => query.take(i),
        None => query,
    }
}

/// The arguments of a palette query: the pieces between its spaces, after
/// the first (empty pieces included).
pub open spec fn query_args(query: Seq<char>) -> Seq<Seq<char>> {
    split_on(query, ' ').drop_first()
}

/// The command name of a palette query (see `query_name`).
pub fn command_name(query: &str) -> (r: String)
    ensures
        r@ == query_name(query@),
{
    let chars = chars_of(query);
    let found = position(&chars, ' ');
    proof {
        crate::keys::lemma_position_of(chars@, ' ');
    }
    assert(chars@ == query@);
    assert(chars@.len() == chars.len());
    match found {
        Some(i) => {
            assert(position_of(query@, ' ') == Some(i as int));
            let name = slice_chars(&chars, 0, i);
            assert(name@ =~= chars@.take(i as int));
            string_of(&name)
        },
        None => {
            assert(position_of(query@, ' ') is None);
            string_of(&chars)
        },
    }
}

/// The arguments of a palette query (see `query_args`).
pub fn command_args(query: &str) -> (r: Vec<String>)
    ensures
        r@.map_values(|s: String| s@) == query_args(query@),
{
    let chars = chars_of(query);
    let pieces = split_chars(&chars, ' ');
    let ghost views = pieces@.map_values(|p: Vec<char>| p@);
    assert(views.len() >= 1);
    let mut out: Vec<String> = Vec::new();
    let mut i: usize = 1;
    while i < pieces.len()
        invariant
            1 <= i <= pieces@.len(),
            views == pieces@.map_values(|p: Vec<char>| p@),
            views == split_on(chars@, ' '),
            out@.map_values(|s: String| s@) == views.subrange(1, i as int),
        decreases pieces.len() - i,
    {
        assert(views[i as int] == pieces@[i as int]@);
        let ghost before = out@.map_values(|s: String| s@);
        let piece = string_of(&pieces[i]);
        out.push(piece);
        assert(out@.map_values(|s: String| s@) =~= before.push(piece@));
        i = i + 1;
        assert(out@.map_values(|s: String| s@) =~= views.subrange(1, i as int));
    }
    assert(views.subrange(1, views.len() as int) =~= views.drop_first());
    out
}

/// Best score first, and among equal scores the earlier entry first.
pub open spec fn ranked_order(r: Seq<(usize, u16)>) -> bool {
    forall|j: int, k: int|
        0 <= j < k < r.len() ==> #[trigger] r[j].1 > #[trigger] r[k].1 || (r[j].1 == r[k].1 && r[j].0
            < r[k].0)
}

/// Placing an entry whose index exceeds every other keeps the order.
proof fn lemma_insert_keeps_order(sorted: Seq<(usize, u16)>, entry: (usize, u16))
    requires
        ranked_order(sorted),
        forall|k: int| 0 <= k < sorted.len() ==> #[trigger] sorted[k].0 < entry.0,
    ensures
        ranked_order(insert_by_score(sorted, entry)),
    decreases sorted.len(),
{
    lemma_insert_by_score(sorted, entry);
    if sorted.len() > 0 && sorted[0].1 >= entry.1 {
        let tail = sorted.drop_first();
        assert forall|k: int| 0 <= k < tail.len() implies #[trigger] tail[k].0 < entry.0 by {
            assert(tail[k] == sorted[k + 1]);
        }
        assert forall|j: int, k: int| 0 <= j < k < tail.len() implies #[trigger] tail[j].1
            > #[trigger] tail[k].1 || (tail[j].1 == tail[k].1 && tail[j].0 < tail[k].0) by {
            assert(tail[j] == sorted[j + 1] && tail[k] == sorted[k + 1]);
        }
        lemma_insert_keeps_order(tail, entry);
        lemma_insert_by_score(tail, entry);
        let rest = insert_by_score(tail, entry);
        let r = insert_by_score(sorted, entry);
        assert forall|j: int, k: int| 0 <= j < k < r.len() implies #[trigger] r[j].1 > #[trigger] r[k].1
            || (r[j].1 == r[k].1 && r[j].0 < r[k].0) by {
            assert(r[k] == rest[k - 1]);
            if j == 0 {
                assert(r[0] == sorted[0]);
                if rest[k - 1] != entry {
                    let m = choose|m: int| 0 <= m < tail.len() && tail[m] == rest[k - 1];
                    assert(tail[m] == sorted[m + 1]);
                }
            } else {
                assert(r[j] == rest[j - 1]);
            }
        }
    } else if sorted.len() > 0 {
        let r = insert_by_score(sorted, entry);
        assert forall|j: int, k: int| 0 <= j < k < r.len() implies #[trigger] r[j].1 > #[trigger] r[k].1
            || (r[j].1 == r[k].1 && r[j].0 < r[k].0) by {
            assert(r[k] == sorted[k - 1]);
            if j > 0 {
                assert(r[j] == sorted[j - 1]);
            } else {
                assert(sorted[0].1 >= sorted[k - 1].1);
            }
        }
    }
}

/// The ranking puts the best score first and keeps the order of entries
/// that score the same, and it holds exactly the entries that have a score,
/// each once.
pub proof fn law_ranking_is_stable_and_complete(scores: Seq<Option<u16>>, n: int)
    requires
        0 <= n <= scores.len(),
        n <= usize::MAX + 1,
    ensures
        ranked_order(ranked(scores, n)),
        forall|i: int|
            0 <= i < n && #[trigger] scores[i] is Some ==> ranked(scores, n).contains(
                (i as usize, scores[i]->0),
            ),
        forall|k: int|
            0 <= k < ranked(scores, n).len() ==> 0 <= #[trigger] ranked(scores, n)[k].0 < n && scores[ranked(
                scores,
                n,
            )[k].0 as int] == Some(ranked(scores, n)[k].1),
    decreases n,
{
    if n > 0 {
        law_ranking_is_stable_and_complete(scores, n - 1);
        let rest = ranked(scores, n - 1);
        match scores[n - 1] {
            Some(s) => {
                let e = ((n - 1) as usize, s);
                lemma_insert_by_score(rest, e);
                lemma_insert_keeps_order(rest, e);
                lemma_insert_contains(rest, e);
                let r = ranked(scores, n);
                assert forall|i: int| 0 <= i < n && #[trigger] scores[i] is Some implies r.contains(
                    (i as usize, scores[i]->0),
                ) by {
                    if i < n - 1 {
                        let m = choose|m: int| 0 <= m < rest.len() && rest[m] == (i as usize, scores[i]->0);
                        lemma_insert_contains_old(rest, e, m);
                    }
                }
                assert forall|k: int| 0 <= k < r.len() implies 0 <= #[trigger] r[k].0 < n && scores[r[k].0 as int]
                    == Some(r[k].1) by {
                    if r[k] != e {
                        let m = choose|m: int| 0 <= m < rest.len() && rest[m] == r[k];
                        assert(rest[m].0 < n - 1);
                    }
                }
            },
            None => {},
        }
    }
}

/// A placed entry is among the result.
proof fn lemma_insert_contains(sorted: Seq<(usize, u16)>, entry: (usize, u16))
    ensures
        insert_by_score(sorted, entry).contains(entry),
    decreases sorted.len(),
{
    if sorted.len() > 0 && sorted[0].1 >= entry.1 {
        lemma_insert_contains(sorted.drop_first(), entry);
        let rest = insert_by_score(sorted.drop_first(), entry);
        let m = choose|m: int| 0 <= m < rest.len() && rest[m] == entry;
        assert(insert_by_score(sorted, entry)[m + 1] == entry);
    } else {
        assert(insert_by_score(sorted, entry)[0] == entry);
    }
}

/// Placing an entry keeps every entry already there.
proof fn lemma_insert_contains_old(sorted: Seq<(usize, u16)>, entry: (usize, u16), m: int)
    requires
        0 <= m < sorted.len(),
    ensures
        insert_by_score(sorted, entry).contains(sorted[m]),
    decreases sorted.len(),
{
    let r = insert_by_score(sorted, entry);
    if sorted[0].1 >= entry.1 {
        if m == 0 {
            assert(r[0] == sorted[0]);
        } else {
            lemma_insert_contains_old(sorted.drop_first(), entry, m - 1);
            let rest = insert_by_score(sorted.drop_first(), entry);
            let q = choose|q: int| 0 <= q < rest.len() && rest[q] == sorted.drop_first()[m - 1];
            assert(r[q + 1] == sorted[m]);
        }
    } else {
        assert(r[m + 1] == sorted[m]);
    }
}

/// Moving the selection down and back up returns to the same row, and so
/// does moving up and back down.
pub proof fn law_select_round_trip(v: PaletteView)
    requires
        v.wf(),
        v.selected is Some,
    ensures
        (PaletteView { selected: v.selected_next(), ..v }).selected_prev() == v.selected,
        (PaletteView { selected: v.selected_prev(), ..v }).selected_next() == v.selected,
{
}

} // verus!
