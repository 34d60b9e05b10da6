//! Snapshots of a memory region, and the diff between two of them as a line
//! of text.

use crate::color::{green, green_text, plain, plain_text, red, red_text};
use crate::layout::in_ranges;
use crate::text::{pad_right, push_padded};
use vstd::prelude::*;
use vstd::slice::slice_to_vec;
use vstd::string::*;

verus! {

/// The width to which a line's label is padded.
pub const LABEL_WIDTH: usize = 6;

/// How one byte of a diff is shown.
#[derive(Clone, Copy, Debug, PartialEq, Eq, Structural)]
pub enum ByteClass {
    /// The byte differs from the previous snapshot.
    Changed,
    /// The byte lies in a watched range and has never changed.
    WatchedPristine,
    /// Any other byte, a watched byte that changed earlier included.
    Plain,
}

/// The class of a byte. A change is looked at first, so a changed byte is
/// `Changed` whether it is watched or not.
pub open spec fn class_of(changed: bool, watched: bool, corrupted: bool) -> ByteClass {
    if changed {
        ByteClass::Changed
    } else if watched && !corrupted {
        ByteClass::WatchedPristine
    } else {
        ByteClass::Plain
    }
}

/// The text of a byte of the given class.
pub open spec fn class_text(class: ByteClass, byte: u8, ansi: bool) -> Seq<char> {
    match class {
        ByteClass::Changed => red_text(byte, ansi),
        ByteClass::WatchedPristine => green_text(byte, ansi),
        ByteClass::Plain => plain_text(byte),
    }
}

/// The divider drawn before a byte at a separator position.
pub open spec fn divider() -> Seq<char> {
    seq![' ', '|']
}

/// The start of every line: the label, padded, and a divider.
pub open spec fn label_text(label: Seq<char>) -> Seq<char> {
    pad_right(label, LABEL_WIDTH as nat) + divider()
}

/// The mathematical model of a memory view.
pub struct ViewState {
    /// The bytes captured last.
    pub snapshot: Seq<u8>,
    /// For each position, whether its byte ever differed between two
    /// consecutive captures.
    pub corrupted: Seq<bool>,
    /// The half-open ranges of the watched bytes.
    pub watched: Seq<(usize, usize)>,
    /// The positions before which a divider is drawn.
    pub separators: Seq<usize>,
}

impl ViewState {
    /// There is one flag for each byte.
    pub open spec fn wf(self) -> bool {
        self.snapshot.len() == self.corrupted.len()
    }

    /// The number of bytes in the region.
    pub open spec fn size(self) -> nat {
        self.snapshot.len()
    }

    /// Whether a divider is drawn before byte `i`.
    pub open spec fn is_separator(self, i: int) -> bool {
        exists|k: int| 0 <= k < self.separators.len() && self.separators[k] == i
    }

    /// Whether byte `i` lies in a watched range.
    pub open spec fn is_watched(self, i: int) -> bool {
        in_ranges(self.watched, i)
    }

    /// What comes before the digits of byte `i`: a divider or nothing.
    pub open spec fn lead(self, i: int) -> Seq<char> {
        if self.is_separator(i) {
            divider()
        } else {
            Seq::empty()
        }
    }

    /// The text of byte `i` in a diff, its divider included.
    pub open spec fn cell_text(self, i: int, byte: u8, changed: bool, ansi: bool) -> Seq<char> {
        self.lead(i) + class_text(
            class_of(changed, self.is_watched(i), self.corrupted[i]),
            byte,
            ansi,
        )
    }

    /// The first `n` bytes of the snapshot without highlighting.
    pub open spec fn row_cells(self, n: nat) -> Seq<char>
        decreases n,
    {
        if n == 0 {
            Seq::empty()
        } else {
            self.row_cells((n - 1) as nat) + self.lead(n - 1) + plain_text(self.snapshot[n - 1])
        }
    }

    /// The first `n` bytes of the snapshot, each highlighted by how it
    /// compares with `prev`.
    pub open spec fn diff_cells(self, prev: Seq<u8>, ansi: bool, n: nat) -> Seq<char>
        decreases n,
    {
        if n == 0 {
            Seq::empty()
        } else {
            self.diff_cells(prev, ansi, (n - 1) as nat) + self.cell_text(
                n - 1,
                self.snapshot[n - 1],
                prev[n - 1] != self.snapshot[n - 1],
                ansi,
            )
        }
    }

    /// The line that shows the snapshot alone.
    pub open spec fn row_text(self, label: Seq<char>) -> Seq<char> {
        label_text(label) + self.row_cells(self.size())
    }

    /// The line that shows the snapshot against `prev`.
    pub open spec fn diff_text(self, prev: Seq<u8>, label: Seq<char>, ansi: bool) -> Seq<char> {
        label_text(label) + self.diff_cells(prev, ansi, self.size())
    }

    /// The view with `source` as its snapshot.
    pub open spec fn captured(self, source: Seq<u8>) -> ViewState {
        ViewState { snapshot: source, ..self }
    }

    /// The view with the flag set at every position where the snapshot
    /// differs from `prev`. No flag is cleared.
    pub open spec fn marked(self, prev: Seq<u8>) -> ViewState {
        ViewState {
            corrupted: Seq::new(
                self.corrupted.len(),
                |i: int| self.corrupted[i] || prev[i] != self.snapshot[i],
            ),
            ..self
        }
    }
}

/// A byte that changed in this step is shown as changed, whether or not it
/// is watched and whatever its flag says.
pub proof fn lemma_changed_dominates(state: ViewState, i: int, byte: u8, ansi: bool)
    ensures
        forall|watched: bool, corrupted: bool|
            #[trigger] class_of(true, watched, corrupted) == ByteClass::Changed,
        state.cell_text(i, byte, true, ansi) == state.lead(i) + red_text(byte, ansi),
{
}

/// No flag is ever cleared: a capture leaves the flags alone, and marking the
/// changes only sets flags.
pub proof fn lemma_flags_never_cleared(state: ViewState, source: Seq<u8>, prev: Seq<u8>, i: int)
    requires
        0 <= i < state.corrupted.len(),
        state.corrupted[i],
    ensures
        state.captured(source).corrupted[i],
        state.marked(prev).corrupted[i],
{
}

/// Capturing memory that has not changed and diffing it against the capture
/// before sets no flag.
pub proof fn lemma_unchanged_capture_sets_no_flag(state: ViewState, memory: Seq<u8>)
    requires
        state.wf(),
        memory.len() == state.size(),
    ensures
        state.captured(memory).captured(memory).marked(memory) == state.captured(memory),
        state.captured(memory).marked(memory).corrupted == state.corrupted,
{
    assert(state.captured(memory).marked(memory).corrupted =~= state.corrupted);
}

/// Decides how a byte of a diff is shown.
pub fn classify(changed: bool, watched: bool, corrupted: bool) -> (class: ByteClass)
    ensures
        class == class_of(changed, watched, corrupted),
        changed ==> class == ByteClass::Changed,
{
    if changed {
        ByteClass::Changed
    } else if watched && !corrupted {
        ByteClass::WatchedPristine
    } else {
        ByteClass::Plain
    }
}

/// A snapshot of a memory region of fixed size, with a flag for each byte
/// that has changed between two captures, the ranges to highlight and the
/// positions of the dividers.
#[derive(Debug)]
pub struct MemoryView {
    snapshot: Vec<u8>,
    corrupted: Vec<bool>,
    watched_ranges: Vec<(usize, usize)>,
    separators: Vec<usize>,
}

impl View for MemoryView {
    type V = ViewState;

    closed spec fn view(&self) -> ViewState {
        ViewState {
            snapshot: self.snapshot@,
            corrupted: self.corrupted@,
            watched: self.watched_ranges@,
            separators: self.separators@,
        }
    }
}

impl MemoryView {
    /// Creates a view of `size` bytes, all zero, with no flag set.
    pub fn new(size: usize, watched_ranges: Vec<(usize, usize)>, separators: Vec<usize>) -> (view:
        MemoryView)
        ensures
            view@.wf(),
            view@.size() == size,
            view@.snapshot == Seq::new(size as nat, |i: int| 0u8),
            view@.corrupted == Seq::new(size as nat, |i: int| false),
            view@.watched == watched_ranges@,
            view@.separators == separators@,
    {
        let mut snapshot: Vec<u8> = Vec::new();
        let mut corrupted: Vec<bool> = Vec::new();
        let mut i: usize = 0;
        while i < size
            invariant
                i <= size,
                snapshot@.len() == i,
                corrupted@.len() == i,
                forall|j: int| 0 <= j < i ==> snapshot@[j] == 0,
                forall|j: int| 0 <= j < i ==> !corrupted@[j],
            decreases size - i,
        {
            snapshot.push(0u8);
            corrupted.push(false);
            i += 1;
        }
        assert(snapshot@ =~= Seq::new(size as nat, |i: int| 0u8));
        assert(corrupted@ =~= Seq::new(size as nat, |i: int| false));
        MemoryView { snapshot, corrupted, watched_ranges, separators }
    }

    /// The number of bytes in the region.
    pub fn size(&self) -> (n: usize)
        ensures
            n == self@.size(),
    {
        self.snapshot.len()
    }

    /// The bytes captured last.
    pub fn snapshot(&self) -> (bytes: &[u8])
        ensures
            bytes@ == self@.snapshot,
    {
        self.snapshot.as_slice()
    }

    /// The corruption flags, one for each byte.
    pub fn corrupted(&self) -> (flags: &[bool])
        ensures
            flags@ == self@.corrupted,
    {
        self.corrupted.as_slice()
    }

    /// Overwrites the snapshot with `source`. The flags stay as they are.
    pub fn capture(&mut self, source: &[u8])
        requires
            old(self)@.wf(),
            source@.len() == old(self)@.size(),
        ensures
            final(self)@ == old(self)@.captured(source@),
            final(self)@.wf(),
            final(self)@.corrupted == old(self)@.corrupted,
    {
        let n: usize = self.snapshot.len();
        let mut i: usize = 0;
        while i < n
            invariant
                i <= n,
                n == source@.len(),
                self.snapshot@.len() == n,
                self.corrupted@ == old(self).corrupted@,
                self.watched_ranges@ == old(self).watched_ranges@,
                self.separators@ == old(self).separators@,
                forall|j: int| 0 <= j < i ==> self.snapshot@[j] == source@[j],
            decreases n - i,
        {
            self.snapshot.set(i, source[i]);
            i += 1;
        }
        assert(self.snapshot@ =~= source@);
    }

    /// Whether a divider is drawn before byte `i`.
    pub fn is_separator(&self, i: usize) -> (b: bool)
        ensures
            b == self@.is_separator(i as int),
    {
        let mut k: usize = 0;
        while k < self.separators.len()
            invariant
                k <= self.separators@.len(),
                forall|j: int| 0 <= j < k ==> self.separators@[j] != i,
            decreases self.separators@.len() - k,
        {
            if self.separators[k] == i {
                assert(self@.separators[k as int] == i);
                return true;
            }
            k += 1;
        }
        false
    }

    /// Whether byte `i` lies in one of the watched ranges.
    pub fn is_watched(&self, i: usize) -> (b: bool)
        ensures
            b == self@.is_watched(i as int),
    {
        let mut k: usize = 0;
        while k < self.watched_ranges.len()
            invariant
                k <= self.watched_ranges@.len(),
                forall|j: int|
                    0 <= j < k ==> !((#[trigger] self.watched_ranges@[j]).0 <= i
                        < self.watched_ranges@[j].1),
            decreases self.watched_ranges@.len() - k,
        {
            let range: (usize, usize) = self.watched_ranges[k];
            if i >= range.0 && i < range.1 {
                assert(self@.watched[k as int].0 <= i < self@.watched[k as int].1);
                return true;
            }
            k += 1;
        }
        false
    }

    /// Renders byte `i` of a diff: a divider where one is due, then the byte
    /// as changed, as watched and untouched, or plain.
    pub fn render_byte(&self, i: usize, byte: u8, changed: bool, ansi: bool) -> (s: String)
        requires
            self@.wf(),
            i < self@.size(),
        ensures
            s@ == self@.cell_text(i as int, byte, changed, ansi),
    {
        let mut s: String = self.render_lead(i);
        let class: ByteClass = classify(changed, self.is_watched(i), self.corrupted[i]);
        let body: String = match class {
            ByteClass::Changed => red(byte, ansi),
            ByteClass::WatchedPristine => green(byte, ansi),
            ByteClass::Plain => plain(byte),
        };
        s.append(body.as_str());
        s
    }

    /// Renders the snapshot as one line, every byte plain.
    pub fn render_row(&self, label: &str) -> (s: String)
        requires
            self@.wf(),
        ensures
            s@ == self@.row_text(label@),
    {
        let mut s: String = render_label(label);
        let n: usize = self.snapshot.len();
        let mut i: usize = 0;
        assert(s@ =~= label_text(label@) + self@.row_cells(0));
        while i < n
            invariant
                i <= n,
                n == self@.size(),
                s@ == label_text(label@) + self@.row_cells(i as nat),
            decreases n - i,
        {
            let lead: String = self.render_lead(i);
            let body: String = plain(self.snapshot[i]);
            s.append(lead.as_str());
            s.append(body.as_str());
            assert(s@ =~= label_text(label@) + self@.row_cells((i + 1) as nat));
            i += 1;
        }
        s
    }

    /// Renders the snapshot against `prev` as one line, then sets the flag of
    /// every byte that differs from `prev`. A flag that is set stays set.
    pub fn render_diff(&mut self, prev: &[u8], label: &str, ansi: bool) -> (s: String)
        requires
            old(self)@.wf(),
            prev@.len() == old(self)@.size(),
        ensures
            s@ == old(self)@.diff_text(prev@, label@, ansi),
            final(self)@ == old(self)@.marked(prev@),
            final(self)@.wf(),
            forall|i: int|
                0 <= i < old(self)@.size() && old(self)@.corrupted[i] ==> final(self)@.corrupted[i],
            prev@ == old(self)@.snapshot ==> final(self)@ == old(self)@,
    {
        let s: String = self.diff_line(prev, label, ansi);
        self.mark_changes(prev);
        proof {
            if prev@ == old(self)@.snapshot {
                assert(self@.corrupted =~= old(self)@.corrupted);
            }
        }
        s
    }

    /// The divider before byte `i`, or nothing.
    fn render_lead(&self, i: usize) -> (s: String)
        ensures
            s@ == self@.lead(i as int),
    {
        if self.is_separator(i) {
            proof {
                reveal_strlit(" |");
                assert(" |"@ =~= divider());
            }
            String::from_str(" |")
        } else {
            String::new()
        }
    }

    /// The line of a diff, with the flags as they are.
    fn diff_line(&self, prev: &[u8], label: &str, ansi: bool) -> (s: String)
        requires
            self@.wf(),
            prev@.len() == self@.size(),
        ensures
            s@ == self@.diff_text(prev@, label@, ansi),
    {
        let mut s: String = render_label(label);
        let n: usize = self.snapshot.len();
        let mut i: usize = 0;
        assert(s@ =~= label_text(label@) + self@.diff_cells(prev@, ansi, 0));
        while i < n
            invariant
                i <= n,
                n == self@.size(),
                n == prev@.len(),
                self@.wf(),
                s@ == label_text(label@) + self@.diff_cells(prev@, ansi, i as nat),
            decreases n - i,
        {
            let byte: u8 = self.snapshot[i];
            let cell: String = self.render_byte(i, byte, prev[i] != byte, ansi);
            s.append(cell.as_str());
            assert(s@ =~= label_text(label@) + self@.diff_cells(prev@, ansi, (i + 1) as nat));
            i += 1;
        }
        s
    }

    /// Sets the flag of every byte that differs from `prev`.
    fn mark_changes(&mut self, prev: &[u8])
        requires
            old(self)@.wf(),
            prev@.len() == old(self)@.size(),
        ensures
            final(self)@ == old(self)@.marked(prev@),
    {
        let n: usize = self.snapshot.len();
        let mut i: usize = 0;
        while i < n
            invariant
                i <= n,
                n == prev@.len(),
                self.snapshot@ == old(self).snapshot@,
                self.snapshot@.len() == n,
                self.corrupted@.len() == n,
                old(self).corrupted@.len() == n,
                self.watched_ranges@ == old(self).watched_ranges@,
                self.separators@ == old(self).separators@,
                forall|j: int|
                    0 <= j < i ==> #[trigger] self.corrupted@[j] == (old(self).corrupted@[j]
                        || prev@[j] != self.snapshot@[j]),
                forall|j: int|
                    i <= j < n ==> #[trigger] self.corrupted@[j] == old(self).corrupted@[j],
            decreases n - i,
        {
            if prev[i] != self.snapshot[i] {
                self.corrupted.set(i, true);
            }
            i += 1;
        }
        assert(self.corrupted@ =~= old(self)@.marked(prev@).corrupted);
    }
}

/// The start of a line: the label padded to its width, then a divider.
fn render_label(label: &str) -> (s: String)
    ensures
        s@ == label_text(label@),
{
    let mut s: String = String::new();
    push_padded(&mut s, label, LABEL_WIDTH);
    proof {
        reveal_strlit(" |");
        assert(" |"@ =~= divider());
    }
    s.append(" |");
    assert(s@ =~= label_text(label@));
    s
}

} // verus!
