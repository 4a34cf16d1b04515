//! What is selected in the log, and how it is shown.

use vstd::prelude::*;

use std::collections::BTreeSet;

use crate::app::logs;
use crate::app::logs::{EntryView, GuiLogEntry, GuiLogLevel};

verus! {

/// The selected lines, by their ids, and the line where a range begins.
#[derive(Debug)]
pub struct LogSelection {
    pub ids: BTreeSet<u64>,
    pub anchor: Option<u64>,
}

#[verifier::ext_equal]
pub struct SelectionView {
    pub ids: Set<u64>,
    pub anchor: Option<u64>,
}

impl View for LogSelection {
    type V = SelectionView;

    open spec fn view(&self) -> SelectionView {
        SelectionView { ids: self.ids@, anchor: self.anchor }
    }
}

/// The ids of entries.
pub open spec fn entry_ids(entries: Seq<GuiLogEntry>) -> Seq<u64> {
    Seq::new(entries.len(), |i: int| entries[i].id)
}

/// The first place of an id, or the length.
pub open spec fn place_of(ids: Seq<u64>, id: u64) -> int
    decreases ids.len(),
{
    if ids.len() == 0 || ids[0] == id {
        0
    } else {
        1 + place_of(ids.drop_first(), id)
    }
}

proof fn lemma_place_of(ids: Seq<u64>, id: u64, at: int)
    requires
        0 <= at <= ids.len(),
        forall|j: int| 0 <= j < at ==> ids[j] != id,
        at < ids.len() ==> ids[at] == id,
    ensures
        place_of(ids, id) == at,
    decreases at,
{
    if at > 0 {
        let t = ids.drop_first();
        assert(ids[0] != id);
        assert forall|j: int| 0 <= j < at - 1 implies t[j] != id by {
            assert(t[j] == ids[j + 1]);
        }
        lemma_place_of(t, id, at - 1);
    }
}

/// The ids from one place to another, both included.
pub open spec fn ids_between(ids: Seq<u64>, from: int, to: int) -> Set<u64> {
    Set::new(|id: u64| exists|i: int| from <= i <= to && #[trigger] ids[i] == id)
}

impl SelectionView {
    /// The selection without lines that are gone.
    pub open spec fn retained(self, ids: Seq<u64>) -> SelectionView {
        SelectionView {
            ids: self.ids.filter(|id: u64| ids.contains(id)),
            anchor: match self.anchor {
                Some(id) => if ids.contains(id) {
                    Some(id)
                } else {
                    None
                },
                None => None,
            },
        }
    }

    /// The selection after a click on a line: with `shift` the range from the
    /// anchor, with `toggle` the line is added or taken away, else it is the only
    /// one.
    pub open spec fn clicked(self, ids: Seq<u64>, id: u64, shift: bool, toggle: bool) -> SelectionView {
        let at = place_of(ids, id);
        let anchor_at = match self.anchor {
            Some(anchor) => place_of(ids, anchor),
            None => ids.len() as int,
        };
        if at >= ids.len() {
            self
        } else if shift && anchor_at < ids.len() {
            SelectionView {
                ids: if anchor_at <= at {
                    ids_between(ids, anchor_at, at)
                } else {
                    ids_between(ids, at, anchor_at)
                },
                anchor: self.anchor,
            }
        } else if toggle {
            SelectionView {
                ids: if self.ids.contains(id) {
                    self.ids.remove(id)
                } else {
                    self.ids.insert(id)
                },
                anchor: Some(id),
            }
        } else {
            SelectionView { ids: Set::empty().insert(id), anchor: Some(id) }
        }
    }
}

fn find_entry(entries: &Vec<GuiLogEntry>, id: u64) -> (r: usize)
    ensures
        r == place_of(entry_ids(entries@), id),
        r <= entries@.len(),
{
    let ghost ids = entry_ids(entries@);
    let mut i: usize = 0;
    while i < entries.len() && entries[i].id != id
        invariant
            ids == entry_ids(entries@),
            i <= entries@.len(),
            forall|j: int| 0 <= j < i ==> ids[j] != id,
        decreases entries@.len() - i,
    {
        i += 1;
    }
    proof {
        lemma_place_of(ids, id, i as int);
    }
    i
}

impl LogSelection {
    pub fn new() -> (r: LogSelection)
        ensures
            r@ == (SelectionView { ids: Set::empty(), anchor: None }),
    {
        LogSelection { ids: BTreeSet::new(), anchor: None }
    }

    /// Selects nothing.
    pub fn clear(&mut self)
        ensures
            final(self)@ == (SelectionView { ids: Set::empty(), anchor: None }),
    {
        self.ids = BTreeSet::new();
        self.anchor = None;
    }

    fn ids_of_range(entries: &Vec<GuiLogEntry>, from: usize, to: usize) -> (r: BTreeSet<u64>)
        requires
            from <= to < entries@.len(),
        ensures
            r@ == ids_between(entry_ids(entries@), from as int, to as int),
    {
        broadcast use vstd::std_specs::btree::group_btree_axioms;

        let ghost ids = entry_ids(entries@);
        let n: usize = entries.len();
        let mut r: BTreeSet<u64> = BTreeSet::new();
        let mut i: usize = from;
        assert(r@ =~= ids_between(ids, from as int, from as int - 1));
        while i <= to
            invariant
                ids == entry_ids(entries@),
                from <= i <= to + 1,
                to < n == entries@.len(),
                r@ == ids_between(ids, from as int, i as int - 1),
            decreases to + 1 - i,
        {
            let ghost before = r@;
            r.insert(entries[i].id);
            proof {
                assert(ids[i as int] == entries@[i as int].id);
                let grown = ids_between(ids, from as int, i as int);
                assert forall|id: u64| grown.contains(id) <==> before.contains(id) || id
                    == ids[i as int] by {
                    if grown.contains(id) {
                        let k = choose|k: int| from <= k <= i && #[trigger] ids[k] == id;
                        if k < i {
                            assert(from <= k <= i - 1 && ids[k] == id);
                        }
                    }
                    if before.contains(id) {
                        let k = choose|k: int| from <= k <= i - 1 && #[trigger] ids[k] == id;
                        assert(from <= k <= i && ids[k] == id);
                    }
                }
                assert(r@ =~= grown);
            }
            i += 1;
        }
        r
    }

    /// Selects everything; the last line is where a range begins.
    pub fn select_all(&mut self, entries: &Vec<GuiLogEntry>)
        ensures
            final(self)@ == (SelectionView {
                ids: ids_between(entry_ids(entries@), 0, entries@.len() - 1),
                anchor: if entries@.len() > 0 {
                    Some(entries@.last().id)
                } else {
                    None
                },
            }),
    {
        let n: usize = entries.len();
        if n == 0 {
            self.ids = BTreeSet::new();
            self.anchor = None;
            assert(self.ids@ =~= ids_between(entry_ids(entries@), 0, -1));
        } else {
            self.ids = LogSelection::ids_of_range(entries, 0, n - 1);
            self.anchor = Some(entries[n - 1].id);
        }
    }

    /// Drops lines that are gone from the selection.
    pub fn retain_visible_log_selection(&mut self, entries: &Vec<GuiLogEntry>)
        ensures
            final(self)@ == old(self)@.retained(entry_ids(entries@)),
    {
        broadcast use vstd::std_specs::btree::group_btree_axioms;

        let ghost ids = entry_ids(entries@);
        let ghost start = self@;
        let mut kept: BTreeSet<u64> = BTreeSet::new();
        let mut i: usize = 0;
        while i < entries.len()
            invariant
                ids == entry_ids(entries@),
                start == self@,
                i <= entries@.len(),
                forall|id: u64|
                    #![trigger kept@.contains(id)]
                    kept@.contains(id) <==> start.ids.contains(id) && ids.take(i as int).contains(
                        id,
                    ),
            decreases entries@.len() - i,
        {
            let id: u64 = entries[i].id;
            let ghost before = kept@;
            if self.ids.contains(&id) {
                kept.insert(id);
            }
            proof {
                let t = ids.take(i as int);
                let u = ids.take(i as int + 1);
                assert(u =~= t.push(id));
                assert forall|other: u64|
                    #![trigger kept@.contains(other)]
                    kept@.contains(other) <==> start.ids.contains(other) && u.contains(other) by {
                    lemma_push_has(t, id, other);
                    assert(before.contains(other) <==> start.ids.contains(other) && t.contains(
                        other,
                    ));
                }
            }
            i += 1;
        }
        assert(ids.take(i as int) =~= ids);
        self.ids = kept;
        match self.anchor {
            Some(id) => {
                let at: usize = find_entry(entries, id);
                proof {
                    lemma_place_has(ids, id);
                }
                if at >= entries.len() {
                    self.anchor = None;
                }
            },
            None => {},
        }
        assert(self@.ids =~= start.retained(ids).ids);
    }

    /// Follows a click on a line.
    pub fn toggle_log_selection(
        &mut self,
        entries: &Vec<GuiLogEntry>,
        clicked_id: u64,
        shift: bool,
        command_or_ctrl: bool,
    )
        ensures
            final(self)@ == old(self)@.clicked(
                entry_ids(entries@),
                clicked_id,
                shift,
                command_or_ctrl,
            ),
    {
        broadcast use vstd::std_specs::btree::group_btree_axioms;

        let ghost start = self@;
        let n: usize = entries.len();
        let at: usize = find_entry(entries, clicked_id);
        if at >= n {
            return;
        }
        if shift {
            match self.anchor {
                Some(anchor) => {
                    let anchor_at: usize = find_entry(entries, anchor);
                    if anchor_at < n {
                        self.ids = if anchor_at <= at {
                            LogSelection::ids_of_range(entries, anchor_at, at)
                        } else {
                            LogSelection::ids_of_range(entries, at, anchor_at)
                        };
                        return;
                    }
                },
                None => {},
            }
        }
        if command_or_ctrl {
            if !self.ids.insert(clicked_id) {
                self.ids.remove(&clicked_id);
                assert(self.ids@ =~= start.ids.remove(clicked_id));
            }
            self.anchor = Some(clicked_id);
            return;
        }
        let mut only: BTreeSet<u64> = BTreeSet::new();
        only.insert(clicked_id);
        self.ids = only;
        self.anchor = Some(clicked_id);
    }

    /// The selected lines, in their order.
    pub fn selected_log_entries(&self, entries: &Vec<GuiLogEntry>) -> (r: Vec<GuiLogEntry>)
        ensures
            logs::entry_views(r@) == chosen(logs::entry_views(entries@), self@.ids),
    {
        broadcast use vstd::std_specs::btree::group_btree_axioms;

        let ghost given = logs::entry_views(entries@);
        let mut r: Vec<GuiLogEntry> = Vec::new();
        let mut i: usize = 0;
        assert(logs::entry_views(r@) =~= chosen(given.take(0), self@.ids));
        while i < entries.len()
            invariant
                given == logs::entry_views(entries@),
                i <= entries@.len(),
                logs::entry_views(r@) == chosen(given.take(i as int), self@.ids),
            decreases entries@.len() - i,
        {
            let ghost t = given.take(i as int + 1);
            let ghost before = logs::entry_views(r@);
            assert(t.drop_last() =~= given.take(i as int));
            assert(t.last() == entries@[i as int]@);
            if self.ids.contains(&entries[i].id) {
                r.push(entries[i].clone());
                assert(logs::entry_views(r@) =~= before.push(t.last()));
            }
            i += 1;
        }
        assert(given.take(i as int) =~= given);
        r
    }
}

impl Default for LogSelection {
    fn default() -> (r: LogSelection)
        ensures
            r@ == (SelectionView { ids: Set::empty(), anchor: None }),
    {
        LogSelection::new()
    }
}

proof fn lemma_push_has(s: Seq<u64>, last: u64, id: u64)
    ensures
        s.push(last).contains(id) <==> s.contains(id) || id == last,
{
    if s.contains(id) {
        let k = choose|k: int| 0 <= k < s.len() && s[k] == id;
        assert(s.push(last)[k] == id);
    }
    if id == last {
        assert(s.push(last)[s.len() as int] == id);
    }
    if s.push(last).contains(id) {
        let k = choose|k: int| 0 <= k < s.push(last).len() && s.push(last)[k] == id;
        if k < s.len() {
            assert(s[k] == id);
        }
    }
}

proof fn lemma_place_has(ids: Seq<u64>, id: u64)
    ensures
        0 <= place_of(ids, id) <= ids.len(),
        place_of(ids, id) < ids.len() <==> ids.contains(id),
        place_of(ids, id) < ids.len() ==> ids[place_of(ids, id)] == id,
    decreases ids.len(),
{
    if ids.len() > 0 {
        if ids[0] == id {
            assert(ids.contains(id));
        } else {
            let t = ids.drop_first();
            lemma_place_has(t, id);
            if ids.contains(id) {
                let k = choose|k: int| 0 <= k < ids.len() && ids[k] == id;
                assert(t[k - 1] == id);
                assert(t.contains(id));
            }
            if t.contains(id) {
                let k = choose|k: int| 0 <= k < t.len() && t[k] == id;
                assert(ids[k + 1] == id);
            }
        }
    }
}

/// The entries whose ids are in a set.
pub open spec fn chosen(entries: Seq<EntryView>, ids: Set<u64>) -> Seq<EntryView>
    decreases entries.len(),
{
    if entries.len() == 0 {
        seq![]
    } else {
        let before = chosen(entries.drop_last(), ids);
        if ids.contains(entries.last().id) {
            before.push(entries.last())
        } else {
            before
        }
    }
}

/// The texts of entries, one line each.
pub open spec fn entries_text(entries: Seq<EntryView>) -> Seq<char>
    decreases entries.len(),
{
    if entries.len() == 0 {
        seq![]
    } else if entries.len() == 1 {
        entries[0].text
    } else {
        entries_text(entries.drop_last()) + seq!['\n'] + entries.last().text
    }
}

/// The texts of entries, to be copied or written out.
pub fn log_entries_text(entries: &Vec<GuiLogEntry>) -> (r: String)
    ensures
        r@ == entries_text(logs::entry_views(entries@)),
{
    let ghost given = logs::entry_views(entries@);
    let mut r = String::new();
    let mut i: usize = 0;
    assert(r@ =~= entries_text(given.take(0)));
    while i < entries.len()
        invariant
            given == logs::entry_views(entries@),
            i <= entries@.len(),
            r@ == entries_text(given.take(i as int)),
        decreases entries@.len() - i,
    {
        let ghost t = given.take(i as int + 1);
        let ghost before = r@;
        assert(t.drop_last() =~= given.take(i as int));
        assert(t.last() == entries@[i as int]@);
        if i > 0 {
            r.push('\n');
        }
        r.append(entries[i].text.as_str());
        if i == 0 {
            assert(r@ =~= t[0].text);
        } else {
            assert(r@ =~= before + seq!['\n'] + t.last().text);
        }
        i += 1;
    }
    assert(given.take(i as int) =~= given);
    r
}

/// The colour behind a line of a level: red, green, blue and opacity.
pub open spec fn level_fill(level: GuiLogLevel) -> Seq<u8> {
    match level {
        GuiLogLevel::Error => seq![255u8, 228, 228, 255],
        GuiLogLevel::Warn => seq![255u8, 242, 214, 255],
        GuiLogLevel::Info => seq![0u8, 0, 0, 0],
        GuiLogLevel::Debug => seq![229u8, 246, 237, 255],
        GuiLogLevel::Trace => seq![238u8, 238, 238, 255],
    }
}

pub open spec fn midway(a: u8, b: u8) -> u8 {
    ((a + b) / 2) as u8
}

/// The colour behind a line: that of its level, mixed with the highlight if it
/// is selected.
pub open spec fn row_fill(level: GuiLogLevel, selected: bool, highlight: Seq<u8>) -> Seq<u8> {
    let base = level_fill(level);
    if !selected {
        base
    } else if level == GuiLogLevel::Info {
        seq![236u8, 242, 250, 255]
    } else {
        seq![
            midway(base[0], highlight[0]),
            midway(base[1], highlight[1]),
            midway(base[2], highlight[2]),
            255u8,
        ]
    }
}

fn mix(a: u8, b: u8) -> (r: u8)
    ensures
        r == midway(a, b),
{
    ((a as u16 + b as u16) / 2) as u8
}

pub fn log_level_row_fill(level: GuiLogLevel, selected: bool, highlight: [u8; 3]) -> (r: [u8; 4])
    ensures
        r@ == row_fill(level, selected, highlight@),
{
    let base: [u8; 4] = match level {
        GuiLogLevel::Error => [255, 228, 228, 255],
        GuiLogLevel::Warn => [255, 242, 214, 255],
        GuiLogLevel::Info => [0, 0, 0, 0],
        GuiLogLevel::Debug => [229, 246, 237, 255],
        GuiLogLevel::Trace => [238, 238, 238, 255],
    };
    assert(base@ =~= level_fill(level));
    let r: [u8; 4] = if !selected {
        base
    } else if level == GuiLogLevel::Info {
        [236, 242, 250, 255]
    } else {
        [mix(base[0], highlight[0]), mix(base[1], highlight[1]), mix(base[2], highlight[2]), 255]
    };
    assert(r@ =~= row_fill(level, selected, highlight@));
    r
}

/// A line that is clicked alone is selected alone, and is where a range begins.
pub proof fn law_a_click_selects_one_line(selection: SelectionView, ids: Seq<u64>, id: u64)
    requires
        ids.contains(id),
    ensures
        selection.clicked(ids, id, false, false) == (SelectionView {
            ids: Set::empty().insert(id),
            anchor: Some(id),
        }),
{
    lemma_place_has(ids, id);
}

/// Toggling a line twice leaves the selected lines as they were.
pub proof fn law_toggling_twice_changes_nothing(selection: SelectionView, ids: Seq<u64>, id: u64)
    requires
        ids.contains(id),
    ensures
        selection.clicked(ids, id, false, true).clicked(ids, id, false, true).ids == selection.ids,
{
    lemma_place_has(ids, id);
    let once = selection.clicked(ids, id, false, true);
    let twice = once.clicked(ids, id, false, true);
    assert(twice.ids =~= selection.ids);
}

/// What stays selected is there to be seen.
pub proof fn law_retained_lines_are_there(selection: SelectionView, ids: Seq<u64>, id: u64)
    requires
        selection.retained(ids).ids.contains(id),
    ensures
        ids.contains(id),
        selection.ids.contains(id),
{
}

/// With shift, the lines from the anchor to the clicked one are selected, both
/// included, whichever comes first; no other line is, and the anchor stays.
pub proof fn law_shift_selects_the_range(
    selection: SelectionView,
    ids: Seq<u64>,
    from: int,
    to: int,
    toggle: bool,
    i: int,
)
    requires
        forall|j: int, k: int| 0 <= j < k < ids.len() ==> #[trigger] ids[j] != #[trigger] ids[k],
        0 <= from < ids.len(),
        0 <= to < ids.len(),
        0 <= i < ids.len(),
        selection.anchor == Some(ids[from]),
    ensures
        ({
            let r = selection.clicked(ids, ids[to], true, toggle);
            &&& r.ids.contains(ids[i]) <==> from <= i <= to || to <= i <= from
            &&& forall|id: u64| r.ids.contains(id) ==> ids.contains(id)
            &&& r.anchor == selection.anchor
        }),
{
    lemma_place_has(ids, ids[to]);
    lemma_place_has(ids, ids[from]);
    assert(place_of(ids, ids[to]) == to);
    assert(place_of(ids, ids[from]) == from);
    let lo = if from <= to {
        from
    } else {
        to
    };
    let hi = if from <= to {
        to
    } else {
        from
    };
    let between = ids_between(ids, lo, hi);
    if lo <= i <= hi {
        assert(ids[i] == ids[i]);
        assert(between.contains(ids[i]));
    }
    if between.contains(ids[i]) {
        let k = choose|k: int| lo <= k <= hi && #[trigger] ids[k] == ids[i];
        assert(k == i);
    }
    assert forall|id: u64| between.contains(id) implies ids.contains(id) by {
        let k = choose|k: int| lo <= k <= hi && #[trigger] ids[k] == id;
        assert(ids[k] == id);
    }
}

/// Toggling a line turns its own selection over and no other; the line is where
/// the next range begins. Without an anchor that is there, shift makes no
/// difference.
pub proof fn law_toggling_turns_one_line_over(
    selection: SelectionView,
    ids: Seq<u64>,
    id: u64,
    other: u64,
    shift: bool,
)
    requires
        ids.contains(id),
        shift ==> (selection.anchor matches Some(anchor) ==> !ids.contains(anchor)),
    ensures
        ({
            let r = selection.clicked(ids, id, shift, true);
            &&& r.ids.contains(id) <==> !selection.ids.contains(id)
            &&& other != id ==> (r.ids.contains(other) <==> selection.ids.contains(other))
            &&& r.anchor == Some(id)
        }),
        selection.clicked(ids, id, shift, false) == selection.clicked(ids, id, false, false),
{
    lemma_place_has(ids, id);
    match selection.anchor {
        Some(anchor) => {
            lemma_place_has(ids, anchor);
        },
        None => {},
    }
}

/// A click on a line that is not there changes nothing.
pub proof fn law_clicks_elsewhere_change_nothing(
    selection: SelectionView,
    ids: Seq<u64>,
    id: u64,
    shift: bool,
    toggle: bool,
)
    requires
        !ids.contains(id),
    ensures
        selection.clicked(ids, id, shift, toggle) == selection,
{
    lemma_place_has(ids, id);
}

/// Selected lines and the anchor stay where they are still there, and go where
/// they are not.
pub proof fn law_lines_that_are_there_stay_selected(
    selection: SelectionView,
    ids: Seq<u64>,
    id: u64,
)
    ensures
        selection.retained(ids).ids.contains(id) <==> selection.ids.contains(id) && ids.contains(id),
        selection.retained(ids).anchor == Some(id) <==> selection.anchor == Some(id)
            && ids.contains(id),
{
}

/// The selected lines are picked line by line: what is chosen of a log in two
/// parts is what is chosen of the first and then of the second, and a single line
/// is chosen if its id is selected.
pub proof fn law_lines_are_chosen_in_order(
    first: Seq<EntryView>,
    second: Seq<EntryView>,
    entry: EntryView,
    ids: Set<u64>,
)
    ensures
        chosen(first + second, ids) == chosen(first, ids) + chosen(second, ids),
        ids.contains(entry.id) ==> chosen(seq![entry], ids) == seq![entry],
        !ids.contains(entry.id) ==> chosen(seq![entry], ids).len() == 0,
        chosen(seq![], ids).len() == 0,
    decreases second.len(),
{
    assert(seq![entry].drop_last() =~= Seq::<EntryView>::empty());
    assert(seq![entry].last() == entry);
    assert(chosen(Seq::empty(), ids) =~= Seq::<EntryView>::empty());
    assert(Seq::<EntryView>::empty().push(entry) =~= seq![entry]);
    if second.len() == 0 {
        assert(first + second =~= first);
        assert(chosen(first, ids) + chosen(second, ids) =~= chosen(first, ids));
    } else {
        let before = second.drop_last();
        law_lines_are_chosen_in_order(first, before, entry, ids);
        assert((first + second).drop_last() =~= first + before);
        assert((first + second).last() == second.last());
        assert(chosen(first + second, ids) =~= chosen(first, ids) + chosen(second, ids));
    }
}

/// The texts of entries stand one below the other: that of a log in two parts is
/// that of the first, a line break, and that of the second.
pub proof fn law_texts_stand_line_by_line(
    first: Seq<EntryView>,
    second: Seq<EntryView>,
    entry: EntryView,
)
    ensures
        first.len() > 0 && second.len() > 0 ==> entries_text(first + second) == entries_text(first)
            + seq!['\n'] + entries_text(second),
        entries_text(seq![entry]) == entry.text,
        entries_text(seq![]).len() == 0,
    decreases second.len(),
{
    if first.len() > 0 && second.len() > 0 {
        let all = first + second;
        let before = second.drop_last();
        assert(all.drop_last() =~= first + before);
        assert(all.last() == second.last());
        if before.len() == 0 {
            assert(first + before =~= first);
            assert(second.last() == second[0]);
        } else {
            law_texts_stand_line_by_line(first, before, entry);
            assert(entries_text(first) + seq!['\n'] + entries_text(before) + seq!['\n']
                + second.last().text =~= entries_text(first) + seq!['\n'] + (entries_text(before)
                + seq!['\n'] + second.last().text));
        }
    }
}

/// The colour behind a line has four parts. Behind a line that is not selected
/// the highlight does not show, and nothing does behind a plain one; every other
/// level has an opaque colour of its own. A selected line is opaque; where its
/// level has a colour, each part lies halfway between that and the highlight,
/// rounded down.
pub proof fn law_rows_show_level_and_selection(
    level: GuiLogLevel,
    other: GuiLogLevel,
    highlight: Seq<u8>,
    i: int,
)
    requires
        highlight.len() == 3,
        0 <= i < 3,
    ensures
        ({
            let plain = row_fill(level, false, highlight);
            let marked = row_fill(level, true, highlight);
            &&& plain.len() == 4 && marked.len() == 4
            &&& plain[3] == if level == GuiLogLevel::Info {
                0u8
            } else {
                255u8
            }
            &&& marked[3] == 255
            &&& level != other ==> plain != row_fill(other, false, highlight)
            &&& level != GuiLogLevel::Info ==> 2 * marked[i] <= plain[i] + highlight[i] <= 2
                * marked[i] + 1
            &&& level == GuiLogLevel::Info ==> marked[0] == 236 && marked[1] == 242 && marked[2]
                == 250
        }),
{
    let plain = row_fill(level, false, highlight);
    let others = row_fill(other, false, highlight);
    if level != other {
        assert(plain[0] != others[0] || plain[1] != others[1]);
    }
}

} // verus!
