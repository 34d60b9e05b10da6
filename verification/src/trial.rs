//! One trial: a run of single-byte writes into a fresh record, a diff line
//! after each write, and the consumer that trusts the length field.

use crate::frame::{initial_image, le_i32, le_u32, Frame, GUARD_MAGIC, INITIAL_SECONDARY};
use crate::layout::{lemma_watched_fields, Layout, LayoutDescriptor};
use crate::text::{decimal_text, push_decimal};
use crate::view::{MemoryView, ViewState};
use vstd::prelude::*;
use vstd::slice::slice_to_vec;
use vstd::string::*;

verus! {

/// The failure of a consumer that found the length field above the buffer's
/// size.
#[derive(Clone, Copy, Debug, PartialEq, Eq, Structural)]
pub struct OutOfRange {
    /// The value read from the length field.
    pub len: u32,
    /// The size of the buffer.
    pub capacity: usize,
}

/// The sum of the first `n` bytes of `bytes`.
pub open spec fn prefix_sum(bytes: Seq<u8>, n: nat) -> nat
    decreases n,
{
    if n == 0 {
        0
    } else {
        prefix_sum(bytes, (n - 1) as nat) + bytes[n - 1] as nat
    }
}

/// What the consumer makes of a record with the given byte image: the sum of
/// as many buffer bytes as the length field says, or a failure if that is
/// more than the buffer holds.
pub open spec fn sum_outcome(layout: Layout, image: Seq<u8>) -> Result<u64, OutOfRange> {
    let len = le_u32(image, layout.length_offset as int);
    if len <= layout.buffer_size {
        Ok(prefix_sum(image, len as nat) as u64)
    } else {
        Err(OutOfRange { len: len as u32, capacity: layout.buffer_size as usize })
    }
}

/// The byte that the write at `offset` stores.
pub open spec fn written_byte(offset: int) -> u8 {
    (offset % 0x100) as u8
}

/// The record's byte image after the writes at offsets `0..k`.
pub open spec fn image_after(layout: Layout, k: nat) -> Seq<u8> {
    Seq::new(
        layout.total,
        |i: int|
            if i < k {
                written_byte(i)
            } else {
                initial_image(layout)[i]
            },
    )
}

/// Whether the write at offset `i` stores a byte other than the one the fresh
/// record holds there.
pub open spec fn changes_byte(layout: Layout, i: int) -> bool {
    initial_image(layout)[i] != written_byte(i)
}

/// The corruption flags after the writes at offsets `0..k`, each followed by
/// a capture and a diff: set where a write has changed a byte.
pub open spec fn flags_after(layout: Layout, k: nat) -> Seq<bool> {
    Seq::new(layout.total, |i: int| i < k && changes_byte(layout, i))
}

/// The memory view of a trial after `k` writes and their diffs.
pub open spec fn trial_view(layout: Layout, k: nat) -> ViewState {
    ViewState {
        snapshot: image_after(layout, k),
        corrupted: flags_after(layout, k),
        watched: layout.watched(),
        separators: layout.separators(),
    }
}

/// The label of the line that follows the write at offset `k`.
pub open spec fn step_label(k: nat) -> Seq<char> {
    seq!['i', '='] + decimal_text(k)
}

/// The label of the line that shows the fresh record.
pub open spec fn init_label() -> Seq<char> {
    seq!['i', 'n', 'i', 't']
}

/// The first line of a trial: the fresh record.
pub open spec fn init_line(layout: Layout) -> Seq<char> {
    trial_view(layout, 0).row_text(init_label())
}

/// The line that follows the write at offset `k`: the image after that write
/// against the image before it, with the flags as the earlier writes left
/// them.
pub open spec fn step_line(layout: Layout, k: nat, ansi: bool) -> Seq<char> {
    trial_view(layout, k).captured(image_after(layout, k + 1)).diff_text(
        image_after(layout, k),
        step_label(k),
        ansi,
    )
}

/// The sum 0 + 1 + ... + (n - 1).
pub open spec fn sum_below(n: nat) -> nat
    decreases n,
{
    if n == 0 {
        0
    } else {
        sum_below((n - 1) as nat) + (n - 1) as nat
    }
}

/// A trial whose writes stay inside the buffer sets flags only where it
/// wrote, so none on a watched byte, and none at all if it wrote nothing but
/// the zero at offset 0. The three fields keep the values the record was
/// created with.
pub proof fn lemma_in_bounds_trial_spares_fields(layout: Layout, end_length: nat)
    requires
        layout.wf(),
        end_length <= layout.buffer_size,
    ensures
        forall|i: int|
            0 <= i < layout.total && #[trigger] flags_after(layout, end_length)[i] ==> 0 < i
                < end_length,
        forall|i: int| layout.is_watched(i) ==> !#[trigger] flags_after(layout, end_length)[i],
        end_length <= 1 ==> forall|i: int|
            0 <= i < layout.total ==> !#[trigger] flags_after(layout, end_length)[i],
        le_u32(image_after(layout, end_length), layout.length_offset as int) == layout.buffer_size,
        le_i32(image_after(layout, end_length), layout.secondary_offset as int)
            == INITIAL_SECONDARY,
        le_u32(image_after(layout, end_length), layout.guard_offset as int) == GUARD_MAGIC,
{
    assert forall|i: int| layout.is_watched(i) implies !#[trigger] flags_after(
        layout,
        end_length,
    )[i] by {
        lemma_watched_fields(layout, i);
    }
}

/// The sum of the bytes that the writes at offsets `0..n` store.
pub open spec fn written_sum(n: nat) -> nat
    decreases n,
{
    if n == 0 {
        0
    } else {
        written_sum((n - 1) as nat) + written_byte(n - 1) as nat
    }
}

/// After a trial whose writes stay inside the buffer the consumer succeeds
/// and sums what was written. That is 0 + 1 + ... + (`end_length` - 1) as
/// long as no written offset reaches 256, where the written bytes start
/// again at zero.
pub proof fn lemma_in_bounds_trial_sum(layout: Layout, end_length: nat)
    requires
        layout.wf(),
        end_length <= layout.buffer_size,
    ensures
        sum_outcome(layout, image_after(layout, end_length)) matches Ok(sum) && sum == written_sum(
            end_length,
        ),
        end_length <= 0x100 ==> written_sum(end_length) == sum_below(end_length),
{
    lemma_in_bounds_trial_spares_fields(layout, end_length);
    lemma_prefix_sum_of_written(layout, end_length, layout.buffer_size);
    lemma_written_sum(end_length);
    assert(0xff * end_length <= 0xff * 0xffff_ffff) by (nonlinear_arith)
        requires
            end_length <= 0xffff_ffff,
    ;
}

/// The written bytes sum to at most 255 each, and to 0 + 1 + ... + (n - 1)
/// while they have not started again at zero.
proof fn lemma_written_sum(n: nat)
    ensures
        written_sum(n) <= 0xff * n,
        n <= 0x100 ==> written_sum(n) == sum_below(n),
    decreases n,
{
    if n > 0 {
        lemma_written_sum((n - 1) as nat);
    }
}

/// The first `n` buffer bytes after `e` writes inside the buffer sum to what
/// the writes among them stored.
proof fn lemma_prefix_sum_of_written(layout: Layout, e: nat, n: nat)
    requires
        layout.wf(),
        e <= layout.buffer_size,
        n <= layout.buffer_size,
    ensures
        prefix_sum(image_after(layout, e), n) == written_sum(
            if n <= e {
                n
            } else {
                e
            },
        ),
    decreases n,
{
    if n > 0 {
        lemma_prefix_sum_of_written(layout, e, (n - 1) as nat);
    }
}

/// A flag is set after `k` writes exactly where one of them stored a byte
/// other than the one the fresh record holds there.
pub proof fn lemma_flag_iff_changed(layout: Layout, k: nat, i: int)
    requires
        0 <= i < layout.total,
    ensures
        flags_after(layout, k)[i] <==> i < k && changes_byte(layout, i),
{
}

/// A trial that writes past the buffer, where every write behind the buffer
/// stores a byte other than the one the fresh record holds there, sets the
/// flag of every byte in `[buffer_size, end_length)`: at least one flag.
pub proof fn lemma_overrun_sets_flags(layout: Layout, end_length: nat)
    requires
        layout.wf(),
        layout.buffer_size < end_length <= layout.total,
        forall|i: int| layout.buffer_size <= i < end_length ==> changes_byte(layout, i),
    ensures
        forall|i: int|
            layout.buffer_size <= i < end_length ==> #[trigger] flags_after(layout, end_length)[i],
        exists|i: int|
            layout.buffer_size <= i < end_length && #[trigger] flags_after(layout, end_length)[i],
{
    assert(changes_byte(layout, layout.buffer_size as int));
    assert(flags_after(layout, end_length)[layout.buffer_size as int]);
}

/// Within a trial a flag that is set stays set, whatever is written later.
pub proof fn lemma_flags_monotonic(layout: Layout, earlier: nat, later: nat, i: int)
    requires
        earlier <= later,
        0 <= i < layout.total,
        flags_after(layout, earlier)[i],
    ensures
        flags_after(layout, later)[i],
{
}

/// Each step of a trial takes the view from the state after `k` writes to
/// the state after `k + 1`: the capture brings the new image in, and the diff
/// against the image before marks what the write changed.
pub proof fn lemma_trial_step(layout: Layout, k: nat)
    requires
        layout.wf(),
        k < layout.total,
    ensures
        image_after(layout, k + 1) == image_after(layout, k).update(k as int, written_byte(k as int)),
        trial_view(layout, k + 1) == trial_view(layout, k).captured(
            image_after(layout, k + 1),
        ).marked(image_after(layout, k)),
{
    assert(image_after(layout, k + 1) =~= image_after(layout, k).update(
        k as int,
        written_byte(k as int),
    ));
    assert(flags_after(layout, k + 1) =~= trial_view(layout, k).captured(
        image_after(layout, k + 1),
    ).marked(image_after(layout, k)).corrupted);
}

/// What a trial leaves behind.
#[derive(Debug)]
pub struct TrialReport {
    /// The line of the fresh record, then one line for each write.
    pub lines: Vec<String>,
    /// The record's byte image after the last write.
    pub image: Vec<u8>,
    /// The corruption flags after the last diff.
    pub corrupted: Vec<bool>,
    /// The length field as read after the last write.
    pub length: u32,
    /// The secondary field as read after the last write.
    pub secondary: i32,
    /// The guard field as read after the last write.
    pub guard: u32,
    /// What the consumer made of the record.
    pub sum: Result<u64, OutOfRange>,
}

/// Sums the first `len` bytes of the buffer, where `len` is what the length
/// field holds. The field is trusted to be at most the buffer's size; where
/// it is not, the sum fails.
pub fn safe_sum_prefix(frame: &Frame) -> (r: Result<u64, OutOfRange>)
    requires
        frame.wf(),
    ensures
        r == sum_outcome(frame.layout(), frame@),
        r matches Ok(sum) ==> sum == prefix_sum(
            frame@,
            le_u32(frame@, frame.layout().length_offset as int) as nat,
        ),
{
    let len: u32 = frame.read_len_volatile();
    let capacity: usize = frame.descriptor().buffer_size();
    if len as usize > capacity {
        return Err(OutOfRange { len, capacity });
    }
    let bytes: &[u8] = frame.as_bytes();
    let mut sum: u64 = 0;
    let mut i: usize = 0;
    while i < len as usize
        invariant
            i <= len,
            len <= bytes@.len(),
            sum == prefix_sum(bytes@, i as nat),
            sum <= 0xff * i,
        decreases len - i,
    {
        sum += bytes[i] as u64;
        i += 1;
    }
    Ok(sum)
}

/// The label of the line that follows the write at offset `k`.
pub fn render_step_label(k: usize) -> (s: String)
    ensures
        s@ == step_label(k as nat),
{
    let mut s: String = String::from_str("i=");
    proof {
        reveal_strlit("i=");
        assert("i="@ =~= seq!['i', '=']);
    }
    push_decimal(&mut s, k);
    s
}

/// Runs one trial on a fresh record: writes the byte `offset % 256` at each
/// offset below `end_length` in rising order, with no regard to the buffer's
/// size, and after each write captures the record and renders the diff
/// against the capture before. Then reads the three fields back and lets the
/// consumer sum the buffer.
///
/// A write can land on any field of the record, not behind the record: there
/// is no trial for an `end_length` above the record's size.
pub fn run_trial(layout: LayoutDescriptor, end_length: usize, ansi: bool) -> (outcome: Option<
    TrialReport,
>)
    requires
        layout@.wf(),
    ensures
        outcome is Some <==> end_length <= layout@.total,
        outcome matches Some(report) ==> ({
            &&& report.lines@.len() == end_length + 1
            &&& report.lines@[0]@ == init_line(layout@)
            &&& forall|j: int|
                1 <= j <= end_length ==> (#[trigger] report.lines@[j])@ == step_line(
                    layout@,
                    (j - 1) as nat,
                    ansi,
                )
            &&& report.image@ == image_after(layout@, end_length as nat)
            &&& report.corrupted@ == flags_after(layout@, end_length as nat)
            &&& report.length == le_u32(report.image@, layout@.length_offset as int)
            &&& report.secondary == le_i32(report.image@, layout@.secondary_offset as int)
            &&& report.guard == le_u32(report.image@, layout@.guard_offset as int)
            &&& report.sum == sum_outcome(layout@, report.image@)
        }),
        outcome matches Some(report) ==> (end_length <= layout@.buffer_size ==> ({
            &&& report.length == layout@.buffer_size
            &&& report.secondary == INITIAL_SECONDARY
            &&& report.guard == GUARD_MAGIC
            &&& report.sum matches Ok(sum) && sum == written_sum(end_length as nat)
            &&& forall|i: int| layout@.is_watched(i) ==> !#[trigger] report.corrupted@[i]
        })),
{
    if end_length > layout.total_size() {
        return None;
    }
    let mut frame: Frame = Frame::new(layout);
    let mut view: MemoryView = MemoryView::new(
        layout.total_size(),
        layout.watched_ranges(),
        layout.separator_positions(),
    );
    view.capture(frame.as_bytes());
    let mut prev: Vec<u8> = slice_to_vec(view.snapshot());
    let mut lines: Vec<String> = Vec::new();
    proof {
        reveal_strlit("init");
        assert("init"@ =~= init_label());
        assert(view@.snapshot =~= image_after(layout@, 0));
        assert(view@.corrupted =~= flags_after(layout@, 0));
    }
    lines.push(view.render_row("init"));

    let mut k: usize = 0;
    while k < end_length
        invariant
            k <= end_length <= layout@.total,
            layout@.wf(),
            frame.wf(),
            frame.layout() == layout@,
            frame@ == image_after(layout@, k as nat),
            view@ == trial_view(layout@, k as nat),
            prev@ == image_after(layout@, k as nat),
            lines@.len() == k + 1,
            lines@[0]@ == init_line(layout@),
            forall|j: int|
                1 <= j <= k ==> (#[trigger] lines@[j])@ == step_line(
                    layout@,
                    (j - 1) as nat,
                    ansi,
                ),
        decreases end_length - k,
    {
        proof {
            lemma_trial_step(layout@, k as nat);
        }
        frame.write_byte(k, (k % 0x100) as u8);
        view.capture(frame.as_bytes());
        let label: String = render_step_label(k);
        let line: String = view.render_diff(prev.as_slice(), label.as_str(), ansi);
        prev = slice_to_vec(view.snapshot());
        lines.push(line);
        k += 1;
    }
    let length: u32 = frame.read_len_volatile();
    let secondary: i32 = frame.read_num_volatile();
    let guard: u32 = frame.read_guard_volatile();
    let sum: Result<u64, OutOfRange> = safe_sum_prefix(&frame);
    proof {
        if end_length <= layout@.buffer_size {
            lemma_in_bounds_trial_spares_fields(layout@, end_length as nat);
            lemma_in_bounds_trial_sum(layout@, end_length as nat);
        }
    }
    Some(
        TrialReport {
            lines,
            image: slice_to_vec(frame.as_bytes()),
            corrupted: slice_to_vec(view.corrupted()),
            length,
            secondary,
            guard,
            sum,
        },
    )
}

} // verus!
