//! Editor change batches and their decomposition into unit edits.

use vstd::prelude::*;
use vstd::string::{StrSliceExecFns, StringExecFns};

verus! {

/// Largest line or column number; a position made of it lies past the end of
/// any document.
pub const POSITION_MAX: u32 = 0xffff_ffff;

/// A place in a document: zero-based line and column.
#[derive(Clone, Copy, Debug, PartialEq, Eq, Structural)]
pub struct Position {
    pub line: u32,
    pub character: u32,
}

impl Position {
    pub fn new(line: u32, character: u32) -> (r: Self)
        ensures
            r.line == line,
            r.character == character,
    {
        Position { line, character }
    }
}

/// The span between two positions of a document.
#[derive(Clone, Copy, Debug, PartialEq, Eq, Structural)]
pub struct Range {
    pub start: Position,
    pub end: Position,
}

impl Range {
    pub fn new(start: Position, end: Position) -> (r: Self)
        ensures
            r.start == start,
            r.end == end,
    {
        Range { start, end }
    }
}

/// The range that stands for the whole document: from its start to a
/// position past any end.
pub open spec fn whole_document() -> Range {
    Range {
        start: Position { line: 0, character: 0 },
        end: Position { line: POSITION_MAX, character: POSITION_MAX },
    }
}

/// The range that stands for the whole document.
pub fn whole_document_range() -> (r: Range)
    ensures
        r == whole_document(),
{
    Range {
        start: Position { line: 0, character: 0 },
        end: Position { line: POSITION_MAX, character: POSITION_MAX },
    }
}

/// One entry of a change batch: the text that replaces a range.  An entry
/// without a range replaces the whole document.
#[derive(Debug, PartialEq, Eq)]
pub struct ContentChange {
    pub range: Option<Range>,
    pub text: String,
}

impl View for ContentChange {
    type V = (Option<Range>, Seq<char>);

    open spec fn view(&self) -> (Option<Range>, Seq<char>) {
        (self.range, self.text@)
    }
}

impl ContentChange {
    pub fn new(range: Option<Range>, text: String) -> (r: Self)
        ensures
            r.range == range,
            r.text == text,
    {
        ContentChange { range, text }
    }

    /// The range this entry replaces, with a missing range read as the whole
    /// document.
    pub open spec fn target(&self) -> Range {
        match self.range {
            Some(r) => r,
            None => whole_document(),
        }
    }

    /// A pure deletion: no replacement text over a non-empty range.
    pub open spec fn is_deletion(&self) -> bool {
        self.text@.len() == 0 && self.target().start != self.target().end
    }
}

impl Clone for ContentChange {
    fn clone(&self) -> (r: Self)
        ensures
            r == *self,
    {
        ContentChange { range: self.range, text: self.text.clone() }
    }
}

/// What an editor reports at once for one document: an ordered list of
/// entries, applied in turn.
#[derive(Debug, PartialEq, Eq)]
pub struct ChangeBatch {
    pub uri: String,
    pub version: i32,
    pub content_changes: Vec<ContentChange>,
}

impl Clone for ChangeBatch {
    fn clone(&self) -> (r: Self)
        ensures
            r.uri == self.uri,
            r.version == self.version,
            r.content_changes@ == self.content_changes@,
    {
        let mut content_changes: Vec<ContentChange> = Vec::new();
        let mut k: usize = 0;
        while k < self.content_changes.len()
            invariant
                k <= self.content_changes@.len(),
                content_changes@ == self.content_changes@.take(k as int),
            decreases self.content_changes@.len() - k,
        {
            content_changes.push(self.content_changes[k].clone());
            k += 1;
            assert(content_changes@ =~= self.content_changes@.take(k as int));
        }
        assert(content_changes@ =~= self.content_changes@);
        ChangeBatch { uri: self.uri.clone(), version: self.version, content_changes }
    }
}

/// A change batch as an event handed between the parts of a bridge.
#[derive(Debug, PartialEq, Eq)]
pub struct ChangeEvent {
    pub change: ChangeBatch,
}

/// Line and column reached from `(line, col)` after reading the first `i`
/// characters of `text`: a line break moves to column 0 of the next line, any
/// other character one column to the right.
pub open spec fn cursor(line: int, col: int, text: Seq<char>, i: int) -> (int, int)
    decreases i,
{
    if i <= 0 {
        (line, col)
    } else {
        let p = cursor(line, col, text, i - 1);
        if text[i - 1] == '\n' {
            (p.0 + 1, 0)
        } else {
            (p.0, p.1 + 1)
        }
    }
}

/// The empty range at a line and column.
pub open spec fn caret(p: (int, int)) -> Range {
    Range {
        start: Position { line: p.0 as u32, character: p.1 as u32 },
        end: Position { line: p.0 as u32, character: p.1 as u32 },
    }
}

/// The unit edits of one entry, each as the range and text it carries: one
/// insertion per character of the text, at the cursor before that character;
/// a pure deletion as itself; nothing for an entry that changes nothing.
pub open spec fn entry_units(c: ContentChange) -> Seq<(Option<Range>, Seq<char>)> {
    if c.text@.len() == 0 {
        if c.is_deletion() {
            seq![c@]
        } else {
            seq![]
        }
    } else {
        Seq::new(
            c.text@.len(),
            |i: int|
                (
                    Some(
                        caret(
                            cursor(
                                c.target().start.line as int,
                                c.target().start.character as int,
                                c.text@,
                                i,
                            ),
                        ),
                    ),
                    seq![c.text@[i]],
                ),
        )
    }
}

/// The unit edits of a list of entries, entry after entry.
pub open spec fn batch_units(changes: Seq<ContentChange>) -> Seq<(Option<Range>, Seq<char>)>
    decreases changes.len(),
{
    if changes.len() == 0 {
        seq![]
    } else {
        batch_units(changes.drop_last()) + entry_units(changes.last())
    }
}

/// Every position that decomposing `c` reaches fits in a `u32`.
pub open spec fn entry_fits(c: ContentChange) -> bool {
    &&& c.target().start.line + c.text@.len() <= POSITION_MAX
    &&& c.target().start.character + c.text@.len() <= POSITION_MAX
}

/// Every position that decomposing these entries reaches fits in a `u32`.
pub open spec fn positions_fit(changes: Seq<ContentChange>) -> bool {
    forall|k: int| 0 <= k < changes.len() ==> #[trigger] entry_fits(changes[k])
}

/// `e` is a batch for document `uri` at `version` holding the single entry `u`.
pub open spec fn is_unit_of(
    e: ChangeEvent,
    uri: Seq<char>,
    version: i32,
    u: (Option<Range>, Seq<char>),
) -> bool {
    &&& e.change.uri@ == uri
    &&& e.change.version == version
    &&& e.change.content_changes@.len() == 1
    &&& e.change.content_changes@[0]@ == u
}

/// `s` holds, in order, one single-entry batch for each of `us`.
pub open spec fn are_units_of(
    s: Seq<ChangeEvent>,
    uri: Seq<char>,
    version: i32,
    us: Seq<(Option<Range>, Seq<char>)>,
) -> bool {
    &&& s.len() == us.len()
    &&& forall|i: int| 0 <= i < s.len() ==> #[trigger] is_unit_of(s[i], uri, version, us[i])
}

/// Total number of characters of replacement text over `changes`.
pub open spec fn text_total(changes: Seq<ContentChange>) -> nat
    decreases changes.len(),
{
    if changes.len() == 0 {
        0
    } else {
        text_total(changes.drop_last()) + changes.last().text@.len()
    }
}

/// Number of pure deletions among `changes`.
pub open spec fn deletion_count(changes: Seq<ContentChange>) -> nat
    decreases changes.len(),
{
    if changes.len() == 0 {
        0
    } else {
        deletion_count(changes.drop_last()) + if changes.last().is_deletion() {
            1nat
        } else {
            0nat
        }
    }
}

/// Holds of a unit edit that inserts a character.
pub open spec fn inserts() -> spec_fn((Option<Range>, Seq<char>)) -> bool {
    |u: (Option<Range>, Seq<char>)| u.1.len() > 0
}

/// Holds of a unit edit that deletes a range.
pub open spec fn deletes() -> spec_fn((Option<Range>, Seq<char>)) -> bool {
    |u: (Option<Range>, Seq<char>)| u.1.len() == 0
}

proof fn lemma_filter_all<A>(s: Seq<A>, pred: spec_fn(A) -> bool)
    requires
        forall|i: int| 0 <= i < s.len() ==> pred(s[i]),
    ensures
        s.filter(pred) == s,
    decreases s.len(),
{
    reveal(Seq::filter);
    if s.len() > 0 {
        lemma_filter_all(s.drop_last(), pred);
        assert(s.drop_last().push(s.last()) =~= s);
    }
}

proof fn lemma_filter_none<A>(s: Seq<A>, pred: spec_fn(A) -> bool)
    requires
        forall|i: int| 0 <= i < s.len() ==> !pred(s[i]),
    ensures
        s.filter(pred).len() == 0,
    decreases s.len(),
{
    reveal(Seq::filter);
    if s.len() > 0 {
        lemma_filter_none(s.drop_last(), pred);
    }
}

proof fn lemma_entry_counts(c: ContentChange)
    ensures
        entry_units(c).filter(inserts()).len() == c.text@.len(),
        entry_units(c).filter(deletes()).len() == if c.is_deletion() {
            1nat
        } else {
            0nat
        },
{
    let us = entry_units(c);
    if c.text@.len() == 0 {
        lemma_filter_none(us, inserts());
        lemma_filter_all(us, deletes());
    } else {
        lemma_filter_all(us, inserts());
        lemma_filter_none(us, deletes());
    }
}

/// Decomposing entries whose texts hold `L` characters in all, `D` of them
/// pure deletions, gives exactly `L` single-character insertions and `D`
/// deletions, `L + D` unit edits in all.
pub proof fn lemma_decomposition_counts(changes: Seq<ContentChange>)
    ensures
        batch_units(changes).filter(inserts()).len() == text_total(changes),
        batch_units(changes).filter(deletes()).len() == deletion_count(changes),
        batch_units(changes).len() == text_total(changes) + deletion_count(changes),
        forall|i: int|
            0 <= i < batch_units(changes).len() ==> #[trigger] batch_units(changes)[i].1.len()
                <= 1,
    decreases changes.len(),
{
    if changes.len() > 0 {
        let p = changes.drop_last();
        let c = changes.last();
        lemma_decomposition_counts(p);
        lemma_entry_counts(c);
        Seq::filter_distributes_over_add(batch_units(p), entry_units(c), inserts());
        Seq::filter_distributes_over_add(batch_units(p), entry_units(c), deletes());
        let us = batch_units(changes);
        assert forall|i: int| 0 <= i < us.len() implies #[trigger] us[i].1.len() <= 1 by {
            if i >= batch_units(p).len() {
                assert(us[i] == entry_units(c)[i - batch_units(p).len()]);
            }
        }
    }
}

proof fn lemma_cursor_bounds(line: int, col: int, text: Seq<char>, i: int)
    requires
        0 <= line,
        0 <= col,
        0 <= i,
    ensures
        0 <= cursor(line, col, text, i).0 <= line + i,
        0 <= cursor(line, col, text, i).1 <= col + i,
    decreases i,
{
    if i > 0 {
        lemma_cursor_bounds(line, col, text, i - 1);
    }
}

fn unit_event(uri: &String, version: i32, range: Option<Range>, text: String) -> (r: ChangeEvent)
    ensures
        is_unit_of(r, uri@, version, (range, text@)),
{
    let mut content_changes: Vec<ContentChange> = Vec::new();
    content_changes.push(ContentChange { range, text });
    ChangeEvent::new(ChangeBatch { uri: uri.clone(), version, content_changes })
}

fn push_entry_units(uri: &String, version: i32, entry: &ContentChange, out: &mut Vec<ChangeEvent>)
    requires
        entry_fits(*entry),
    ensures
        final(out)@.len() == old(out)@.len() + entry_units(*entry).len(),
        forall|i: int| 0 <= i < old(out)@.len() ==> final(out)@[i] == old(out)@[i],
        forall|j: int|
            0 <= j < entry_units(*entry).len() ==> #[trigger] is_unit_of(
                final(out)@[old(out)@.len() + j],
                uri@,
                version,
                entry_units(*entry)[j],
            ),
{
    let start = match entry.range {
        Some(r) => r.start,
        None => Position { line: 0, character: 0 },
    };
    let n = entry.text.as_str().unicode_len();
    if n == 0 {
        let deletion = match entry.range {
            Some(r) => r.start != r.end,
            None => true,
        };
        if deletion {
            assert(entry.text@ =~= Seq::<char>::empty());
            out.push(unit_event(uri, version, entry.range, String::new()));
            assert(entry_units(*entry) =~= seq![entry@]);
            assert(is_unit_of(out@[old(out)@.len() + 0int], uri@, version, entry_units(*entry)[0]));
        } else {
            assert(entry_units(*entry) =~= seq![]);
        }
        return;
    }
    let ghost units = entry_units(*entry);
    let ghost prev = old(out)@;
    let ghost base = prev.len();
    let mut line: u32 = start.line;
    let mut col: u32 = start.character;
    let mut i: usize = 0;
    while i < n
        invariant
            n == entry.text@.len(),
            n > 0,
            units == entry_units(*entry),
            start == entry.target().start,
            entry_fits(*entry),
            i <= n,
            (line as int, col as int) == cursor(
                start.line as int,
                start.character as int,
                entry.text@,
                i as int,
            ),
            out@.len() == base + i,
            base == prev.len(),
            forall|k: int| 0 <= k < base ==> out@[k] == prev[k],
            forall|j: int|
                0 <= j < i ==> #[trigger] is_unit_of(out@[base + j], uri@, version, units[j]),
        decreases n - i,
    {
        proof {
            lemma_cursor_bounds(start.line as int, start.character as int, entry.text@, i as int);
        }
        let ch = entry.text.as_str().get_char(i);
        let piece = String::from_str(entry.text.as_str().substring_char(i, i + 1));
        assert(piece@ =~= seq![entry.text@[i as int]]);
        let pos = Position { line, character: col };
        out.push(unit_event(uri, version, Some(Range { start: pos, end: pos }), piece));
        if ch == '\n' {
            line = line + 1;
            col = 0;
        } else {
            col = col + 1;
        }
        i += 1;
    }
}

impl ChangeEvent {
    pub fn new(change: ChangeBatch) -> (r: Self)
        ensures
            r.change == change,
    {
        ChangeEvent { change }
    }

    /// Splits a batch into unit edits: single-entry batches, each inserting
    /// one character at an empty range or deleting a range outright.
    ///
    /// Each entry's text is walked character by character from the start of
    /// its range (the document start when it has none); a line break moves the
    /// cursor to column 0 of the next line, any other character one column
    /// right.  The order of the output is the order of the entries and of
    /// their characters.
    pub fn split_into_units(&self) -> (r: Vec<Self>)
        requires
            positions_fit(self.change.content_changes@),
        ensures
            are_units_of(
                r@,
                self.change.uri@,
                self.change.version,
                batch_units(self.change.content_changes@),
            ),
    {
        let ghost changes = self.change.content_changes@;
        let mut units: Vec<ChangeEvent> = Vec::new();
        let mut k: usize = 0;
        while k < self.change.content_changes.len()
            invariant
                changes == self.change.content_changes@,
                positions_fit(changes),
                k <= changes.len(),
                are_units_of(
                    units@,
                    self.change.uri@,
                    self.change.version,
                    batch_units(changes.take(k as int)),
                ),
            decreases changes.len() - k,
        {
            assert(entry_fits(changes[k as int]));
            let ghost before = units@;
            push_entry_units(
                &self.change.uri,
                self.change.version,
                &self.change.content_changes[k],
                &mut units,
            );
            proof {
                let next = changes.take(k + 1);
                assert(next.drop_last() =~= changes.take(k as int));
                assert(next.last() == changes[k as int]);
                let us = batch_units(next);
                assert(us == batch_units(changes.take(k as int)) + entry_units(changes[k as int]));
                assert forall|i: int| 0 <= i < units@.len() implies #[trigger] is_unit_of(
                    units@[i],
                    self.change.uri@,
                    self.change.version,
                    us[i],
                ) by {
                    if i >= before.len() {
                        let j = i - before.len();
                        assert(is_unit_of(
                            units@[before.len() + j],
                            self.change.uri@,
                            self.change.version,
                            entry_units(changes[k as int])[j],
                        ));
                    }
                }
            }
            k += 1;
        }
        assert(changes.take(changes.len() as int) =~= changes);
        units
    }
}

} // verus!
