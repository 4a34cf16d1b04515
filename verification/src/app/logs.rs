//! The log lines that the window shows.

use vstd::prelude::*;

use std::collections::VecDeque;

use crate::text;
use crate::text::{
    contains_text, cut_text, find_text, same_text, to_lower, to_upper, trim_end_matches, trim_text,
    CharClass,
};

verus! {

/// The most lines that are kept.
pub const MAX_LOG_LINES: usize = 4_000;

#[derive(Debug, Clone, Copy, PartialEq, Eq, Structural)]
pub enum GuiLogLevel {
    Error,
    Warn,
    Info,
    Debug,
    Trace,
}

impl GuiLogLevel {
    pub open spec fn name(self) -> Seq<char> {
        match self {
            GuiLogLevel::Error => "error"@,
            GuiLogLevel::Warn => "warn"@,
            GuiLogLevel::Info => "info"@,
            GuiLogLevel::Debug => "debug"@,
            GuiLogLevel::Trace => "trace"@,
        }
    }

    /// The level that a filter names; `Info` for any other filter.
    pub open spec fn of_filter(filter_text: Seq<char>) -> GuiLogLevel {
        let t = text::lower(text::trimmed(filter_text));
        if t == "error"@ {
            GuiLogLevel::Error
        } else if t == "warn"@ {
            GuiLogLevel::Warn
        } else if t == "debug"@ {
            GuiLogLevel::Debug
        } else if t == "trace"@ {
            GuiLogLevel::Trace
        } else {
            GuiLogLevel::Info
        }
    }

    /// The level that a line mentions between blanks; `Info` where it mentions
    /// none.
    pub open spec fn of_line(line: Seq<char>) -> GuiLogLevel {
        let t = text::upper(line);
        if text::occurs(t, " ERROR "@) {
            GuiLogLevel::Error
        } else if text::occurs(t, " WARN "@) {
            GuiLogLevel::Warn
        } else if text::occurs(t, " DEBUG "@) {
            GuiLogLevel::Debug
        } else if text::occurs(t, " TRACE "@) {
            GuiLogLevel::Trace
        } else {
            GuiLogLevel::Info
        }
    }

    /// The level with the given name, in any case.
    pub open spec fn of_token(token: Seq<char>) -> Option<GuiLogLevel> {
        let t = text::upper(text::trimmed(token));
        if t == "ERROR"@ {
            Some(GuiLogLevel::Error)
        } else if t == "WARN"@ {
            Some(GuiLogLevel::Warn)
        } else if t == "INFO"@ {
            Some(GuiLogLevel::Info)
        } else if t == "DEBUG"@ {
            Some(GuiLogLevel::Debug)
        } else if t == "TRACE"@ {
            Some(GuiLogLevel::Trace)
        } else {
            None
        }
    }

    pub fn all() -> (r: [GuiLogLevel; 5])
        ensures
            r@ == seq![
                GuiLogLevel::Error,
                GuiLogLevel::Warn,
                GuiLogLevel::Info,
                GuiLogLevel::Debug,
                GuiLogLevel::Trace,
            ],
    {
        [
            GuiLogLevel::Error,
            GuiLogLevel::Warn,
            GuiLogLevel::Info,
            GuiLogLevel::Debug,
            GuiLogLevel::Trace,
        ]
    }

    pub fn directive(self) -> (r: &'static str)
        ensures
            r@ == self.name(),
    {
        match self {
            GuiLogLevel::Error => "error",
            GuiLogLevel::Warn => "warn",
            GuiLogLevel::Info => "info",
            GuiLogLevel::Debug => "debug",
            GuiLogLevel::Trace => "trace",
        }
    }

    pub fn from_filter_text(filter_text: &str) -> (r: GuiLogLevel)
        ensures
            r == GuiLogLevel::of_filter(filter_text@),
    {
        let t = to_lower(trim_text(filter_text));
        if same_text(t.as_str(), "error") {
            GuiLogLevel::Error
        } else if same_text(t.as_str(), "warn") {
            GuiLogLevel::Warn
        } else if same_text(t.as_str(), "debug") {
            GuiLogLevel::Debug
        } else if same_text(t.as_str(), "trace") {
            GuiLogLevel::Trace
        } else {
            GuiLogLevel::Info
        }
    }

    pub fn from_log_line(line: &str) -> (r: GuiLogLevel)
        ensures
            r == GuiLogLevel::of_line(line@),
    {
        let t = to_upper(line);
        if contains_text(t.as_str(), " ERROR ") {
            GuiLogLevel::Error
        } else if contains_text(t.as_str(), " WARN ") {
            GuiLogLevel::Warn
        } else if contains_text(t.as_str(), " DEBUG ") {
            GuiLogLevel::Debug
        } else if contains_text(t.as_str(), " TRACE ") {
            GuiLogLevel::Trace
        } else {
            GuiLogLevel::Info
        }
    }

    pub fn from_level_token(token: &str) -> (r: Option<GuiLogLevel>)
        ensures
            r == GuiLogLevel::of_token(token@),
    {
        let t = to_upper(trim_text(token));
        if same_text(t.as_str(), "ERROR") {
            Some(GuiLogLevel::Error)
        } else if same_text(t.as_str(), "WARN") {
            Some(GuiLogLevel::Warn)
        } else if same_text(t.as_str(), "INFO") {
            Some(GuiLogLevel::Info)
        } else if same_text(t.as_str(), "DEBUG") {
            Some(GuiLogLevel::Debug)
        } else if same_text(t.as_str(), "TRACE") {
            Some(GuiLogLevel::Trace)
        } else {
            None
        }
    }
}

#[derive(Debug)]
pub struct GuiLogEntry {
    pub id: u64,
    pub level: GuiLogLevel,
    pub timestamp: String,
    pub target: String,
    pub message: String,
    pub text: String,
}

#[verifier::ext_equal]
pub struct EntryView {
    pub id: u64,
    pub level: GuiLogLevel,
    pub timestamp: Seq<char>,
    pub target: Seq<char>,
    pub message: Seq<char>,
    pub text: Seq<char>,
}

impl View for GuiLogEntry {
    type V = EntryView;

    open spec fn view(&self) -> EntryView {
        EntryView {
            id: self.id,
            level: self.level,
            timestamp: self.timestamp@,
            target: self.target@,
            message: self.message@,
            text: self.text@,
        }
    }
}

impl Clone for GuiLogEntry {
    fn clone(&self) -> (r: GuiLogEntry)
        ensures
            r@ == self@,
    {
        GuiLogEntry {
            id: self.id,
            level: self.level,
            timestamp: self.timestamp.clone(),
            target: self.target.clone(),
            message: self.message.clone(),
            text: self.text.clone(),
        }
    }
}

/// The target and the message of a line: what stands before the first colon
/// with a blank behind it, and what follows.
pub open spec fn target_and_message(s: Seq<char>) -> (Seq<char>, Seq<char>) {
    match text::found_at(s, ": "@) {
        Some(i) => (text::trimmed(s.take(i)), s.skip(i + 2)),
        None => (seq![], s),
    }
}

/// The entry for a line. A level in second place makes the first word the time
/// stamp; other lines have neither, and the level that they mention.
pub open spec fn entry_for(id: u64, line: Seq<char>) -> EntryView {
    let t = text::trimmed(line);
    let second = text::head(text::tail(t, ' '), ' ');
    let third = text::tail(text::tail(t, ' '), ' ');
    match GuiLogLevel::of_token(second) {
        Some(level) => EntryView {
            id,
            level,
            timestamp: text::head(t, ' '),
            target: target_and_message(third).0,
            message: target_and_message(third).1,
            text: line,
        },
        None => EntryView {
            id,
            level: GuiLogLevel::of_line(t),
            timestamp: seq![],
            target: target_and_message(t).0,
            message: target_and_message(t).1,
            text: line,
        },
    }
}

fn split_target(s: &str) -> (r: (String, String))
    ensures
        (r.0@, r.1@) == target_and_message(s@),
{
    proof {
        reveal_strlit(": ");
    }
    let n: usize = s.unicode_len();
    match find_text(s, ": ") {
        Some(i) => {
            proof {
                text::lemma_found_at(s@, ": "@, i as int);
            }
            let before = s.substring_char(0, i);
            let after = s.substring_char(i + 2, n);
            assert(before@ =~= s@.take(i as int));
            assert(after@ =~= s@.skip(i as int + 2));
            (trim_text(before).to_owned(), after.to_owned())
        },
        None => {
            proof {
                text::lemma_not_found(s@, ": "@);
            }
            let empty = String::new();
            assert(empty@ =~= Seq::<char>::empty());
            (empty, s.to_owned())
        },
    }
}

/// Makes an entry of a line.
pub fn parse_log_entry(id: u64, line: String) -> (r: GuiLogEntry)
    ensures
        r@ == entry_for(id, line@),
{
    let t = trim_text(line.as_str());
    let (first, rest) = cut_text(t, ' ');
    let (second, third) = cut_text(rest, ' ');
    match GuiLogLevel::from_level_token(second) {
        Some(level) => {
            let (target, message) = split_target(third);
            let timestamp = first.to_owned();
            GuiLogEntry { id, level, timestamp, target, message, text: line }
        },
        None => {
            let (target, message) = split_target(t);
            let level = GuiLogLevel::from_log_line(t);
            let timestamp = String::new();
            assert(timestamp@ =~= Seq::<char>::empty());
            GuiLogEntry { id, level, timestamp, target, message, text: line }
        },
    }
}

/// The lines that a text completes, given the line that was begun before it,
/// and the line that it leaves unfinished. Carriage returns at the end of a line
/// or of the text are dropped.
pub open spec fn cut_lines(begun: Seq<char>, s: Seq<char>) -> (Seq<Seq<char>>, Seq<char>)
    decreases s.len(),
{
    let at = text::first_at(s, '\n');
    if 0 <= at < s.len() {
        let line = begun + text::trim_end(s.take(at), CharClass::Only('\r'));
        let (lines, unfinished) = cut_lines(seq![], s.skip(at + 1));
        (seq![line] + lines, unfinished)
    } else {
        (seq![], begun + text::trim_end(s, CharClass::Only('\r')))
    }
}

/// The id that comes `n` after `id`; the last one repeats.
pub open spec fn later_id(id: u64, n: int) -> u64 {
    if id + n > u64::MAX {
        u64::MAX
    } else {
        (id + n) as u64
    }
}

/// The entries for lines, numbered from `id` on.
pub open spec fn entries_for(id: u64, lines: Seq<Seq<char>>) -> Seq<EntryView> {
    Seq::new(lines.len(), |i: int| entry_for(later_id(id, i), lines[i]))
}

/// The last `n` of a list.
pub open spec fn last_of(entries: Seq<EntryView>, n: int) -> Seq<EntryView> {
    if entries.len() > n {
        entries.skip(entries.len() - n)
    } else {
        entries
    }
}

/// The latest log lines.
pub struct GuiLogBuffer {
    pub entries: VecDeque<GuiLogEntry>,
    pub next_id: u64,
    pub partial_line: String,
}

#[verifier::ext_equal]
pub struct BufferView {
    pub entries: Seq<EntryView>,
    pub next_id: u64,
    pub partial_line: Seq<char>,
}

pub open spec fn entry_views(entries: Seq<GuiLogEntry>) -> Seq<EntryView> {
    Seq::new(entries.len(), |i: int| entries[i]@)
}

impl View for GuiLogBuffer {
    type V = BufferView;

    open spec fn view(&self) -> BufferView {
        BufferView {
            entries: entry_views(self.entries@),
            next_id: self.next_id,
            partial_line: self.partial_line@,
        }
    }
}

impl BufferView {
    /// The buffer of a new window.
    pub open spec fn fresh() -> BufferView {
        BufferView { entries: seq![], next_id: 0, partial_line: seq![] }
    }

    /// The buffer without any line; the numbering goes on.
    pub open spec fn cleared(self) -> BufferView {
        BufferView { entries: seq![], partial_line: seq![], ..self }
    }

    /// The buffer after a text: its lines are added, the oldest beyond the
    /// maximum dropped.
    pub open spec fn with_text(self, s: Seq<char>) -> BufferView {
        let (lines, unfinished) = cut_lines(self.partial_line, s);
        BufferView {
            entries: last_of(
                self.entries + entries_for(self.next_id, lines),
                MAX_LOG_LINES as int,
            ),
            next_id: later_id(self.next_id, lines.len() as int),
            partial_line: unfinished,
        }
    }
}

impl GuiLogBuffer {
    pub fn new() -> (r: GuiLogBuffer)
        ensures
            r@ == BufferView::fresh(),
    {
        let r = GuiLogBuffer {
            entries: VecDeque::new(),
            next_id: 0,
            partial_line: String::new(),
        };
        assert(r@ =~= BufferView::fresh());
        r
    }

    pub fn snapshot(&self) -> (r: Vec<GuiLogEntry>)
        ensures
            entry_views(r@) == self@.entries,
    {
        let mut r: Vec<GuiLogEntry> = Vec::new();
        let n: usize = self.entries.len();
        let mut i: usize = 0;
        while i < n
            invariant
                n == self.entries@.len(),
                i <= n,
                r@.len() == i,
                forall|j: int| 0 <= j < i ==> (#[trigger] r@[j])@ == self.entries@[j]@,
            decreases n - i,
        {
            r.push(self.entries[i].clone());
            i += 1;
        }
        assert(entry_views(r@) =~= self@.entries);
        r
    }

    /// Forgets all lines; the numbering goes on.
    pub fn clear(&mut self)
        ensures
            final(self)@ == old(self)@.cleared(),
    {
        self.entries.clear();
        self.partial_line = String::new();
        assert(self@ =~= old(self)@.cleared());
    }

    fn complete_line(&mut self, line: String)
        ensures
            final(self)@.entries == old(self)@.entries.push(entry_for(old(self).next_id, line@)),
            final(self).next_id == later_id(old(self).next_id, 1),
            final(self).partial_line@ == Seq::<char>::empty(),
    {
        let ghost before = self@.entries;
        let entry = parse_log_entry(self.next_id, line);
        self.next_id = self.next_id.saturating_add(1);
        self.entries.push_back(entry);
        self.partial_line = String::new();
        assert(self@.entries =~= before.push(entry@));
    }

    /// Takes in a text: complete lines become entries, what is left waits for
    /// the next text.
    pub fn push_text(&mut self, s: &str)
        ensures
            final(self)@ == old(self)@.with_text(s@),
    {
        let ghost start = self@;
        let ghost all = cut_lines(start.partial_line, s@);
        let n: usize = s.unicode_len();
        let mut from: usize = 0;
        assert(s@.skip(0) =~= s@);
        assert(start.entries + entries_for(start.next_id, Seq::empty()) =~= start.entries);
        let ghost mut done: Seq<Seq<char>> = Seq::empty();
        loop
            invariant_except_break
                ({
                    let (lines, unfinished) = cut_lines(self.partial_line@, s@.skip(from as int));
                    &&& done + lines == all.0
                    &&& unfinished == all.1
                }),
                self@.entries == start.entries + entries_for(start.next_id, done),
                self.next_id == later_id(start.next_id, done.len() as int),
            invariant
                n == s@.len(),
                from <= n,
                all == cut_lines(start.partial_line, s@),
            ensures
                self@.entries == start.entries + entries_for(start.next_id, all.0),
                self.next_id == later_id(start.next_id, all.0.len() as int),
                self.partial_line@ == all.1,
            decreases n - from,
        {
            let rest = s.substring_char(from, n);
            assert(rest@ =~= s@.skip(from as int));
            let at: usize = text::find_char(rest, '\n');
            let piece = rest.substring_char(0, at);
            assert(piece@ =~= rest@.take(at as int));
            let kept = trim_end_matches(piece, CharClass::Only('\r'));
            let ghost begun = self.partial_line@;
            let mut line = self.partial_line.clone();
            line.append(kept);
            if at >= n - from {
                assert(piece@ =~= rest@);
                self.partial_line = line;
                assert(done + Seq::<Seq<char>>::empty() =~= done);
                break;
            }
            let ghost before = self@.entries;
            let ghost old_done = done;
            self.complete_line(line);
            proof {
                done = old_done.push(line@);
                assert(rest@.skip(at as int + 1) =~= s@.skip(from + at + 1));
                let (lines, unfinished) = cut_lines(Seq::empty(), rest@.skip(at as int + 1));
                assert(old_done + (seq![line@] + lines) =~= done + lines);
                assert(entries_for(start.next_id, done) =~= entries_for(
                    start.next_id,
                    old_done,
                ).push(entry_for(later_id(start.next_id, old_done.len() as int), line@)));
                assert(self@.entries =~= start.entries + entries_for(start.next_id, done));
            }
            from = from + at + 1;
        }
        let ghost full = self@.entries;
        assert(last_of(full, full.len() as int) =~= full);
        while self.entries.len() > MAX_LOG_LINES
            invariant
                self.next_id == later_id(start.next_id, all.0.len() as int),
                self.partial_line@ == all.1,
                self@.entries.len() <= full.len(),
                self@.entries == full.skip(full.len() - self@.entries.len()),
                full.len() <= MAX_LOG_LINES ==> self@.entries.len() == full.len(),
                full.len() > MAX_LOG_LINES ==> self@.entries.len() >= MAX_LOG_LINES,
            decreases self.entries@.len(),
        {
            let ghost before = self@.entries;
            let _dropped = self.entries.pop_front();
            assert(self@.entries =~= before.skip(1));
            assert(self@.entries =~= full.skip(full.len() - self@.entries.len()));
        }
        assert(full.skip(0) =~= full);
        assert(self@ =~= start.with_text(s@));
    }
}

impl Default for GuiLogBuffer {
    fn default() -> (r: GuiLogBuffer)
        ensures
            r@ == BufferView::fresh(),
    {
        GuiLogBuffer::new()
    }
}

/// The buffer never holds more than the maximum.
pub proof fn law_buffer_is_bounded(buffer: BufferView, s: Seq<char>)
    ensures
        buffer.with_text(s).entries.len() <= MAX_LOG_LINES,
{
}

/// The entries are numbered upwards, and the next one goes on from there; only
/// the last number of all can repeat.
pub open spec fn is_numbered(buffer: BufferView) -> bool {
    &&& forall|i: int, j: int|
        0 <= i < j < buffer.entries.len() ==> (#[trigger] buffer.entries[i]).id < (
        #[trigger] buffer.entries[j]).id || buffer.entries[j].id == u64::MAX
    &&& forall|i: int|
        0 <= i < buffer.entries.len() ==> (#[trigger] buffer.entries[i]).id < buffer.next_id
            || buffer.next_id == u64::MAX
}

/// A text keeps the numbering upwards.
pub proof fn law_entries_stay_numbered(buffer: BufferView, s: Seq<char>)
    requires
        is_numbered(buffer),
    ensures
        is_numbered(buffer.with_text(s)),
{
    let (lines, unfinished) = cut_lines(buffer.partial_line, s);
    let added = entries_for(buffer.next_id, lines);
    let all = buffer.entries + added;
    let after = buffer.with_text(s);
    let dropped = all.len() - after.entries.len();
    let n = buffer.entries.len();
    assert forall|i: int| 0 <= i < after.entries.len() implies #[trigger] after.entries[i] == all[i
        + dropped] by {}
    assert forall|k: int| n <= k < all.len() implies (#[trigger] all[k]).id == later_id(
        buffer.next_id,
        k - n,
    ) by {
        assert(all[k] == added[k - n]);
    }
    assert forall|i: int, j: int| 0 <= i < j < after.entries.len() implies (
    #[trigger] after.entries[i]).id < (#[trigger] after.entries[j]).id || after.entries[j].id
        == u64::MAX by {
        let a = i + dropped;
        let b = j + dropped;
        assert(after.entries[i] == all[a] && after.entries[j] == all[b]);
        if a < n {
            assert(all[a] == buffer.entries[a]);
        }
        if b < n {
            assert(all[b] == buffer.entries[b]);
        }
    }
    assert forall|i: int| 0 <= i < after.entries.len() implies (#[trigger] after.entries[i]).id
        < after.next_id || after.next_id == u64::MAX by {
        let a = i + dropped;
        assert(after.entries[i] == all[a]);
        if a < n {
            assert(all[a] == buffer.entries[a]);
        }
    }
}

/// The line at place `i` of a text that is cut at its line breaks: the first one
/// goes on with the line that was begun, and carriage returns at the end are
/// dropped.
pub open spec fn line_at(begun: Seq<char>, s: Seq<char>, i: int) -> Seq<char> {
    let piece = text::trim_end(text::split(s, '\n')[i], CharClass::Only('\r'));
    if i == 0 {
        begun + piece
    } else {
        piece
    }
}

proof fn lemma_cut_lines(begun: Seq<char>, s: Seq<char>)
    ensures
        text::split(s, '\n').len() == text::count(s, '\n') + 1,
        cut_lines(begun, s).0 == Seq::new(
            text::count(s, '\n'),
            |i: int| line_at(begun, s, i),
        ),
        cut_lines(begun, s).1 == line_at(begun, s, text::count(s, '\n') as int),
    decreases s.len(),
{
    text::lemma_split_count(s, '\n');
    text::lemma_first_at_facts(s, '\n');
    let at = text::first_at(s, '\n');
    let n = text::count(s, '\n');
    let lines = Seq::new(n, |i: int| line_at(begun, s, i));
    if at < s.len() {
        let rest = s.skip(at + 1);
        lemma_cut_lines(Seq::empty(), rest);
        let pieces = text::split(rest, '\n');
        assert(n == text::count(rest, '\n') + 1);
        assert(text::split(s, '\n') =~= seq![s.take(at)] + pieces);
        assert forall|i: int| 1 <= i <= n implies line_at(begun, s, i) == #[trigger] line_at(
            Seq::empty(),
            rest,
            i - 1,
        ) by {
            assert(text::split(s, '\n')[i] == pieces[i - 1]);
            let piece = text::trim_end(pieces[i - 1], CharClass::Only('\r'));
            assert(Seq::<char>::empty() + piece =~= piece);
        }
        assert(line_at(Seq::empty(), rest, n - 1) == line_at(begun, s, n as int));
        let cut = cut_lines(begun, s).0;
        assert forall|i: int| 0 <= i < n implies cut[i] == lines[i] by {
            if i > 0 {
                assert(line_at(Seq::empty(), rest, i - 1) == line_at(begun, s, i));
            }
        }
        assert(cut =~= lines);
    } else {
        assert(cut_lines(begun, s).0 =~= lines);
    }
}

/// A text adds one entry for each of its line breaks, in the order of the lines
/// and with consecutive ids above all earlier ones; what follows the last break
/// adds none. The last entries up to the maximum stay.
pub proof fn law_a_text_adds_its_lines(buffer: BufferView, s: Seq<char>)
    requires
        is_numbered(buffer),
        buffer.next_id + text::count(s, '\n') <= u64::MAX,
    ensures
        ({
            let n = text::count(s, '\n');
            let before = buffer.entries;
            let added = Seq::new(
                n,
                |i: int|
                    entry_for(
                        (buffer.next_id + i) as u64,
                        line_at(buffer.partial_line, s, i),
                    ),
            );
            let after = buffer.with_text(s);
            &&& after.entries == last_of(before + added, MAX_LOG_LINES as int)
            &&& after.entries.len() == if before.len() + n < MAX_LOG_LINES {
                before.len() + n
            } else {
                MAX_LOG_LINES as nat
            }
            &&& after.next_id == buffer.next_id + n
            &&& after.partial_line == line_at(buffer.partial_line, s, n as int)
            &&& forall|i: int|
                0 <= i < n ==> {
                    &&& (#[trigger] added[i]).id == buffer.next_id + i
                    &&& added[i].text == line_at(buffer.partial_line, s, i)
                }
            &&& forall|i: int, j: int|
                0 <= i < before.len() && 0 <= j < n ==> (#[trigger] before[i]).id < (
                #[trigger] added[j]).id
        }),
{
    let n = text::count(s, '\n');
    let begun = buffer.partial_line;
    lemma_cut_lines(begun, s);
    let added = Seq::new(
        n,
        |i: int| entry_for((buffer.next_id + i) as u64, line_at(begun, s, i)),
    );
    assert(entries_for(buffer.next_id, cut_lines(begun, s).0) =~= added);
}

/// What can be done to a buffer.
pub enum LogStep {
    Text(Seq<char>),
    Clear,
}

/// The buffer after the steps, from a new one on.
pub open spec fn after_steps(steps: Seq<LogStep>) -> BufferView
    decreases steps.len(),
{
    if steps.len() == 0 {
        BufferView::fresh()
    } else {
        match steps.last() {
            LogStep::Text(s) => after_steps(steps.drop_last()).with_text(s),
            LogStep::Clear => after_steps(steps.drop_last()).cleared(),
        }
    }
}

/// How many lines the steps complete.
pub open spec fn completed(steps: Seq<LogStep>) -> nat
    decreases steps.len(),
{
    if steps.len() == 0 {
        0
    } else {
        completed(steps.drop_last()) + match steps.last() {
            LogStep::Text(s) => text::count(s, '\n'),
            LogStep::Clear => 0,
        }
    }
}

/// The next id counts the lines that were completed since the start, whatever
/// was cleared in between, and the entries are numbered upwards.
pub proof fn law_ids_count_the_lines(steps: Seq<LogStep>)
    ensures
        after_steps(steps).next_id == later_id(0, completed(steps) as int),
        is_numbered(after_steps(steps)),
    decreases steps.len(),
{
    if steps.len() > 0 {
        let before = after_steps(steps.drop_last());
        law_ids_count_the_lines(steps.drop_last());
        match steps.last() {
            LogStep::Text(s) => {
                lemma_cut_lines(before.partial_line, s);
                law_entries_stay_numbered(before, s);
            },
            LogStep::Clear => {},
        }
    }
}

/// Clearing drops all entries and the line that was begun, and the numbering goes
/// on: the next complete line is the only entry, with the number of lines that
/// were completed before it as its id.
pub proof fn law_clearing_keeps_the_numbering(steps: Seq<LogStep>, line: Seq<char>)
    requires
        completed(steps) < u64::MAX,
        forall|i: int| 0 <= i < line.len() ==> line[i] != '\n' && line[i] != '\r',
    ensures
        after_steps(steps).cleared().entries.len() == 0,
        after_steps(steps).cleared().partial_line.len() == 0,
        after_steps(steps).cleared().with_text(line.push('\n')).entries == seq![
            entry_for(completed(steps) as u64, line),
        ],
        entry_for(completed(steps) as u64, line).id == completed(steps),
        entry_for(completed(steps) as u64, line).text == line,
{
    law_ids_count_the_lines(steps);
    let cleared = after_steps(steps).cleared();
    law_complete_lines_become_entries(cleared, line);
    assert(cleared.partial_line + line =~= line);
    let entry = entry_for(completed(steps) as u64, line);
    assert(cleared.entries.push(entry) =~= seq![entry]);
}

/// A text that ends with a carriage return and goes on in the middle of a line:
/// the carriage return counts as the end of the first text.
pub open spec fn parts_a_return(a: Seq<char>, b: Seq<char>) -> bool {
    let rest = text::trim_start(b, CharClass::Only('\r'));
    a.len() > 0 && a.last() == '\r' && rest.len() > 0 && rest[0] != '\n'
}

proof fn lemma_trim_end_all(a: Seq<char>, x: Seq<char>, k: CharClass)
    requires
        forall|i: int| 0 <= i < x.len() ==> k.has(#[trigger] x[i]),
    ensures
        text::trim_end(a + x, k) == text::trim_end(a, k),
        text::trim_end(x, k) == Seq::<char>::empty(),
    decreases x.len(),
{
    if x.len() > 0 {
        let y = x.drop_last();
        assert(k.has(x[x.len() - 1]));
        assert((a + x).drop_last() =~= a + y);
        assert((a + x).last() == x.last());
        assert forall|i: int| 0 <= i < y.len() implies k.has(#[trigger] y[i]) by {
            assert(y[i] == x[i]);
        }
        lemma_trim_end_all(a, y, k);
    } else {
        assert(a + x =~= a);
        assert(x =~= Seq::<char>::empty());
    }
}

proof fn lemma_trim_end_after(a: Seq<char>, x: Seq<char>, k: CharClass)
    requires
        a.len() > 0 ==> !k.has(a.last()),
    ensures
        text::trim_end(a + x, k) == a + text::trim_end(x, k),
    decreases x.len(),
{
    if x.len() == 0 {
        assert(a + x =~= a);
        assert(a + text::trim_end(x, k) =~= a);
    } else if k.has(x.last()) {
        assert((a + x).drop_last() =~= a + x.drop_last());
        assert((a + x).last() == x.last());
        lemma_trim_end_after(a, x.drop_last(), k);
    } else {
        assert((a + x).last() == x.last());
    }
}

proof fn lemma_all_returns(b: Seq<char>, at: int)
    requires
        0 <= at <= b.len(),
        forall|j: int| 0 <= j < at ==> b[j] != '\n',
        at < b.len() ==> b[at] == '\n',
        ({
            let rest = text::trim_start(b, CharClass::Only('\r'));
            rest.len() == 0 || rest[0] == '\n'
        }),
    ensures
        forall|j: int| 0 <= j < at ==> #[trigger] b[j] == '\r',
    decreases b.len(),
{
    if at > 0 {
        let k = CharClass::Only('\r');
        assert(b[0] != '\n');
        assert(k.has(b[0]));
        let t = b.drop_first();
        assert forall|j: int| 0 <= j < at - 1 implies t[j] != '\n' by {
            assert(t[j] == b[j + 1]);
        }
        lemma_all_returns(t, at - 1);
        assert forall|j: int| 0 <= j < at implies #[trigger] b[j] == '\r' by {
            if j > 0 {
                assert(t[j - 1] == b[j]);
            }
        }
    }
}

proof fn lemma_unfinished_then(begun: Seq<char>, a: Seq<char>, b: Seq<char>)
    requires
        forall|j: int| 0 <= j < a.len() ==> a[j] != '\n',
        !parts_a_return(a, b),
    ensures
        cut_lines(begun, a + b) == cut_lines(
            begun + text::trim_end(a, CharClass::Only('\r')),
            b,
        ),
{
    let k = CharClass::Only('\r');
    let s = a + b;
    text::lemma_first_at_facts(b, '\n');
    let at = text::first_at(b, '\n');
    assert forall|j: int| 0 <= j < a.len() + at implies s[j] != '\n' by {
        if j >= a.len() {
            assert(s[j] == b[j - a.len()]);
        }
    }
    text::lemma_first_at(s, '\n', a.len() + at);
    let x = b.take(at);
    assert(s.take(a.len() + at) =~= a + x);
    if a.len() > 0 && a.last() == '\r' {
        lemma_all_returns(b, at);
        assert forall|i: int| 0 <= i < x.len() implies k.has(#[trigger] x[i]) by {
            assert(x[i] == b[i]);
        }
        lemma_trim_end_all(a, x, k);
        assert(begun + text::trim_end(a, k) + text::trim_end(x, k) =~= begun + text::trim_end(
            a + x,
            k,
        ));
    } else {
        lemma_trim_end_after(a, x, k);
        assert(text::trim_end(a, k) == a);
        assert(begun + a + text::trim_end(x, k) =~= begun + text::trim_end(a + x, k));
    }
    if at < b.len() {
        assert(s.skip(a.len() + at + 1) =~= b.skip(at + 1));
    } else {
        assert(x =~= b);
        assert(a + x =~= s);
    }
}

proof fn lemma_cut_in_parts(begun: Seq<char>, a: Seq<char>, b: Seq<char>)
    requires
        !parts_a_return(a, b),
    ensures
        ({
            let (first, unfinished) = cut_lines(begun, a);
            let (second, rest) = cut_lines(unfinished, b);
            cut_lines(begun, a + b) == (first + second, rest)
        }),
    decreases a.len(),
{
    text::lemma_first_at_facts(a, '\n');
    let at = text::first_at(a, '\n');
    let s = a + b;
    if at < a.len() {
        let tail = a.skip(at + 1);
        assert forall|j: int| 0 <= j < at implies s[j] != '\n' by {
            assert(s[j] == a[j]);
        }
        text::lemma_first_at(s, '\n', at);
        assert(s.take(at) =~= a.take(at));
        assert(s.skip(at + 1) =~= tail + b);
        if tail.len() > 0 {
            assert(tail.last() == a.last());
        }
        lemma_cut_in_parts(Seq::empty(), tail, b);
        let line = begun + text::trim_end(a.take(at), CharClass::Only('\r'));
        let (first, unfinished) = cut_lines(Seq::empty(), tail);
        let (second, rest) = cut_lines(unfinished, b);
        assert(seq![line] + (first + second) =~= seq![line] + first + second);
    } else {
        lemma_unfinished_then(begun, a, b);
        let (second, rest) = cut_lines(begun + text::trim_end(a, CharClass::Only('\r')), b);
        assert(Seq::<Seq<char>>::empty() + second =~= second);
    }
}

/// A text can come in parts: two texts one after the other leave the buffer as
/// their concatenation does, unless a carriage return in the middle of a line is
/// parted from what follows.
pub proof fn law_text_can_come_in_parts(buffer: BufferView, a: Seq<char>, b: Seq<char>)
    requires
        !parts_a_return(a, b),
    ensures
        buffer.with_text(a).with_text(b) == buffer.with_text(a + b),
{
    let max = MAX_LOG_LINES as int;
    let id = buffer.next_id;
    lemma_cut_in_parts(buffer.partial_line, a, b);
    let (first, unfinished) = cut_lines(buffer.partial_line, a);
    let (second, rest) = cut_lines(unfinished, b);
    let n = first.len() as int;
    let x = buffer.entries + entries_for(id, first);
    let y = entries_for(later_id(id, n), second);
    assert(entries_for(id, first + second) =~= entries_for(id, first) + y);
    assert(buffer.entries + (entries_for(id, first) + y) =~= x + y);
    assert(last_of(last_of(x, max) + y, max) =~= last_of(x + y, max));
    assert(buffer.with_text(a).with_text(b) =~= buffer.with_text(a + b));
}

/// A line break ends the line at once: the entry of a line does not wait for
/// what follows it.
pub proof fn law_complete_lines_become_entries(buffer: BufferView, line: Seq<char>)
    requires
        forall|i: int| 0 <= i < line.len() ==> line[i] != '\n' && line[i] != '\r',
    ensures
        buffer.with_text(line.push('\n')) == (BufferView {
            entries: last_of(
                buffer.entries.push(entry_for(buffer.next_id, buffer.partial_line + line)),
                MAX_LOG_LINES as int,
            ),
            next_id: later_id(buffer.next_id, 1),
            partial_line: seq![],
        }),
{
    let s = line.push('\n');
    text::lemma_first_at(s, '\n', line.len() as int);
    assert(s.take(line.len() as int) =~= line);
    let rest = s.skip(line.len() as int + 1);
    assert(rest =~= Seq::<char>::empty());
    assert(Seq::<char>::empty() + text::trim_end(rest, CharClass::Only('\r')) =~= Seq::<char>::empty());
    assert(cut_lines(Seq::empty(), rest).0 =~= Seq::<Seq<char>>::empty());
    assert(cut_lines(Seq::empty(), rest).1 =~= Seq::<char>::empty());
    if line.len() > 0 {
        assert(line[line.len() - 1] != '\r');
    }
    assert(text::trim_end(line, CharClass::Only('\r')) == line);
    let (lines, unfinished) = cut_lines(buffer.partial_line, s);
    assert(lines =~= seq![buffer.partial_line + line]);
    assert(buffer.entries + entries_for(buffer.next_id, lines) =~= buffer.entries.push(
        entry_for(buffer.next_id, buffer.partial_line + line),
    ));
}

proof fn lemma_level_names(token: Seq<char>, level: GuiLogLevel)
    ensures
        GuiLogLevel::of_token(token) == Some(level) <==> text::alike(
            text::trimmed(token),
            level.name(),
        ),
        text::alike(text::trimmed(token), level.name()) <==> text::lower(text::trimmed(token))
            == level.name(),
{
    reveal_strlit("error");
    reveal_strlit("warn");
    reveal_strlit("info");
    reveal_strlit("debug");
    reveal_strlit("trace");
    reveal_strlit("ERROR");
    reveal_strlit("WARN");
    reveal_strlit("INFO");
    reveal_strlit("DEBUG");
    reveal_strlit("TRACE");
    text::lemma_alike(text::trimmed(token), level.name());
    assert(text::upper("error"@) =~= "ERROR"@);
    assert(text::upper("warn"@) =~= "WARN"@);
    assert(text::upper("info"@) =~= "INFO"@);
    assert(text::upper("debug"@) =~= "DEBUG"@);
    assert(text::upper("trace"@) =~= "TRACE"@);
    assert("ERROR"@[0] == 'E' && "DEBUG"@[0] == 'D' && "TRACE"@[0] == 'T');
    assert("WARN"@[0] == 'W' && "INFO"@[0] == 'I');
    assert("ERROR"@.len() == 5 && "WARN"@.len() == 4);
    assert(text::lower(level.name()) =~= level.name());
}

/// A token names a level exactly where, trimmed, it is the level's name in any
/// case; other tokens name none. Every level is found by its own name.
pub proof fn law_tokens_name_levels(token: Seq<char>, level: GuiLogLevel)
    ensures
        GuiLogLevel::of_token(token) == Some(level) <==> text::alike(
            text::trimmed(token),
            level.name(),
        ),
        GuiLogLevel::of_token(token) is None <==> forall|l: GuiLogLevel|
            !text::alike(text::trimmed(token), #[trigger] l.name()),
        GuiLogLevel::of_token(level.name()) == Some(level),
{
    lemma_level_names(token, level);
    assert forall|l: GuiLogLevel| (GuiLogLevel::of_token(token) == Some(l)) == text::alike(
        text::trimmed(token),
        #[trigger] l.name(),
    ) by {
        lemma_level_names(token, l);
    }
    if let Some(l) = GuiLogLevel::of_token(token) {
        assert(text::alike(text::trimmed(token), l.name()));
    }
    reveal_strlit("error");
    reveal_strlit("warn");
    reveal_strlit("info");
    reveal_strlit("debug");
    reveal_strlit("trace");
    let name = level.name();
    assert(!text::is_space(name[0]) && !text::is_space(name.last()));
    assert(text::trimmed(name) == name);
    lemma_level_names(name, level);
}

/// A filter is read as a token; one that names no level stands for `Info`.
pub proof fn law_filters_are_tokens(filter_text: Seq<char>)
    ensures
        GuiLogLevel::of_filter(filter_text) == match GuiLogLevel::of_token(filter_text) {
            Some(level) => level,
            None => GuiLogLevel::Info,
        },
{
    lemma_level_names(filter_text, GuiLogLevel::Error);
    lemma_level_names(filter_text, GuiLogLevel::Warn);
    lemma_level_names(filter_text, GuiLogLevel::Info);
    lemma_level_names(filter_text, GuiLogLevel::Debug);
    lemma_level_names(filter_text, GuiLogLevel::Trace);
}

/// A line is cut at the first colon that a blank follows: the target is what
/// stands before it, trimmed, the message what follows both. A line without such
/// a colon is all message.
pub proof fn law_target_stands_before_the_first_colon(target: Seq<char>, message: Seq<char>)
    requires
        forall|i: int|
            0 <= i < target.len() - 1 ==> !(#[trigger] target[i] == ':' && target[i + 1] == ' '),
    ensures
        target_and_message(target + seq![':', ' '] + message) == (text::trimmed(target), message),
        target_and_message(target) == (Seq::<char>::empty(), target),
{
    reveal_strlit(": ");
    let p = ": "@;
    let s = target + seq![':', ' '] + message;
    let n = target.len() as int;
    assert(s.subrange(n, n + 2) =~= p);
    assert forall|j: int| 0 <= j < n implies !text::stands_at(s, p, j) by {
        if text::stands_at(s, p, j) {
            let part = s.subrange(j, j + 2);
            assert(part == p);
            assert(part[0] == s[j] && part[1] == s[j + 1]);
            assert(s[j] == target[j]);
            if j < n - 1 {
                assert(s[j + 1] == target[j + 1]);
            } else {
                assert(s[j + 1] == ':');
            }
            assert(false);
        }
    }
    text::lemma_found_at(s, p, n);
    assert(s.take(n) =~= target);
    assert(s.skip(n + 2) =~= message);
    assert forall|j: int| !text::stands_at(target, p, j) by {
        if text::stands_at(target, p, j) {
            let part = target.subrange(j, j + 2);
            assert(part == p);
            assert(part[0] == target[j] && part[1] == target[j + 1]);
            assert(false);
        }
    }
    text::lemma_not_found(target, p);
}

/// A line of a time stamp, a level, and a target with a message, is taken apart
/// into these; the line as it was is the entry's text.
pub proof fn law_lines_are_taken_apart(
    id: u64,
    stamp: Seq<char>,
    token: Seq<char>,
    target: Seq<char>,
    message: Seq<char>,
    level: GuiLogLevel,
)
    requires
        stamp.len() > 0,
        !text::is_space(stamp[0]),
        forall|i: int| 0 <= i < stamp.len() ==> #[trigger] stamp[i] != ' ',
        forall|i: int| 0 <= i < token.len() ==> #[trigger] token[i] != ' ',
        GuiLogLevel::of_token(token) == Some(level),
        forall|i: int|
            0 <= i < target.len() - 1 ==> !(#[trigger] target[i] == ':' && target[i + 1] == ' '),
        message.len() > 0,
        !text::is_space(message.last()),
    ensures
        ({
            let line = stamp + seq![' '] + token + seq![' '] + target + seq![':', ' '] + message;
            entry_for(id, line) == (EntryView {
                id,
                level,
                timestamp: stamp,
                target: text::trimmed(target),
                message,
                text: line,
            })
        }),
{
    let line = stamp + seq![' '] + token + seq![' '] + target + seq![':', ' '] + message;
    let third = target + seq![':', ' '] + message;
    let rest = token + seq![' '] + third;
    assert(line =~= stamp + seq![' '] + rest);
    assert(line[0] == stamp[0]);
    assert(line.last() == message.last());
    assert(text::trimmed(line) == line);
    text::lemma_first_at(line, ' ', stamp.len() as int);
    assert(text::head(line, ' ') =~= stamp);
    assert(text::tail(line, ' ') =~= rest);
    text::lemma_first_at(rest, ' ', token.len() as int);
    assert(text::head(rest, ' ') =~= token);
    assert(text::tail(rest, ' ') =~= third);
    law_target_stands_before_the_first_colon(target, message);
}

/// Every entry has the id and the line that it was made of. One without a level
/// in second place has no time stamp, and the level that its line mentions.
pub proof fn law_other_lines_are_all_message(id: u64, line: Seq<char>)
    ensures
        entry_for(id, line).id == id,
        entry_for(id, line).text == line,
        ({
            let t = text::trimmed(line);
            GuiLogLevel::of_token(text::head(text::tail(t, ' '), ' ')) is None ==> {
                &&& entry_for(id, line).timestamp.len() == 0
                &&& entry_for(id, line).level == GuiLogLevel::of_line(t)
                &&& (entry_for(id, line).target, entry_for(id, line).message)
                    == target_and_message(t)
            }
        }),
{
}

/// A line that mentions a level between blanks, in any case, has it, the gravest
/// first: an error anywhere makes it an error, a warning where there is no error
/// makes it a warning, and so on. A line that mentions none is plain.
pub proof fn law_mentioned_levels_are_found(before: Seq<char>, word: Seq<char>, after: Seq<char>)
    ensures
        ({
            let line = before + seq![' '] + word + seq![' '] + after;
            let found = GuiLogLevel::of_line(line);
            &&& text::alike(word, "error"@) ==> found == GuiLogLevel::Error
            &&& text::alike(word, "warn"@) ==> found == GuiLogLevel::Warn || found
                == GuiLogLevel::Error
            &&& text::alike(word, "debug"@) ==> found == GuiLogLevel::Debug || found
                == GuiLogLevel::Warn || found == GuiLogLevel::Error
            &&& text::alike(word, "trace"@) ==> found != GuiLogLevel::Info
        }),
        ({
            let big = text::upper(before);
            let found = GuiLogLevel::of_line(before);
            &&& found == GuiLogLevel::Error ==> text::occurs(big, " ERROR "@)
            &&& found == GuiLogLevel::Warn ==> text::occurs(big, " WARN "@)
            &&& found == GuiLogLevel::Debug ==> text::occurs(big, " DEBUG "@)
            &&& found == GuiLogLevel::Trace ==> text::occurs(big, " TRACE "@)
        }),
{
    reveal_strlit("error");
    reveal_strlit("warn");
    reveal_strlit("debug");
    reveal_strlit("trace");
    reveal_strlit("ERROR");
    reveal_strlit("WARN");
    reveal_strlit("DEBUG");
    reveal_strlit("TRACE");
    reveal_strlit(" ERROR ");
    reveal_strlit(" WARN ");
    reveal_strlit(" DEBUG ");
    reveal_strlit(" TRACE ");
    assert(text::upper("error"@) =~= "ERROR"@);
    assert(text::upper("warn"@) =~= "WARN"@);
    assert(text::upper("debug"@) =~= "DEBUG"@);
    assert(text::upper("trace"@) =~= "TRACE"@);
    text::lemma_alike(word, "error"@);
    text::lemma_alike(word, "warn"@);
    text::lemma_alike(word, "debug"@);
    text::lemma_alike(word, "trace"@);
    let line = before + seq![' '] + word + seq![' '] + after;
    let n = before.len() as int;
    let m = word.len() as int;
    let marked = seq![' '] + text::upper(word) + seq![' '];
    assert(text::upper(line).subrange(n, n + m + 2) =~= marked);
    assert(text::stands_at(text::upper(line), marked, n));
    assert(seq![' '] + "ERROR"@ + seq![' '] =~= " ERROR "@);
    assert(seq![' '] + "WARN"@ + seq![' '] =~= " WARN "@);
    assert(seq![' '] + "DEBUG"@ + seq![' '] =~= " DEBUG "@);
    assert(seq![' '] + "TRACE"@ + seq![' '] =~= " TRACE "@);
}

/// The latest lines are shown, at most 4000 of them and in their order: counted
/// from the end, the entries are those that were there with the new ones behind.
pub proof fn law_the_latest_lines_stay(buffer: BufferView, s: Seq<char>, i: int)
    ensures
        ({
            let after = buffer.with_text(s).entries;
            let all = buffer.entries + entries_for(
                buffer.next_id,
                cut_lines(buffer.partial_line, s).0,
            );
            &&& after.len() == if all.len() <= 4000 {
                all.len()
            } else {
                4000
            }
            &&& 0 <= i < after.len() ==> after[after.len() - 1 - i] == all[all.len() - 1 - i]
        }),
        BufferView::fresh().entries.len() == 0,
        BufferView::fresh().partial_line.len() == 0,
        BufferView::fresh().next_id == 0,
        buffer.cleared().next_id == buffer.next_id,
{
}

} // verus!
