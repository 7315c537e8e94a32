//! The stream printer: what is written for a chunk of input bytes.
//!
//! A chunk is looked at byte by byte. A byte stands at a line start when it
//! is the first of its chunk or follows a newline. With squeezing on, a
//! newline that ends an empty line is dropped when the line before it was
//! empty too. Every other byte is written, and the first byte of each line
//! that is written advances the line counter, which prefixes the line when
//! numbering is on.

use crate::decimal::{digits, format_line_number, line_prefix, push_digits};
use crate::flags::Flags;
use vstd::prelude::*;

verus! {

/// The newline byte.
pub const NEWLINE: u8 = 10;

/// The largest number of bytes in one chunk.
pub const CHUNK_CAPACITY: usize = 1024;

/// The number of the first line of a run.
pub const FIRST_LINE_NUMBER: i32 = 1;

/// The pause after each byte that is written when the delay is on, in
/// milliseconds.
pub const DELAY_MILLIS: u64 = 8;

/// The byte before position `i`; a newline stands in for it at the start of
/// the chunk.
pub open spec fn previous_byte(s: Seq<u8>, i: int) -> u8 {
    if 0 < i <= s.len() {
        s[i - 1]
    } else {
        10u8
    }
}

/// Position `i` is the first of a line.
pub open spec fn at_line_start(s: Seq<u8>, i: int) -> bool {
    previous_byte(s, i) == 10u8
}

/// The byte at `i` is a newline that ends a line without content.
pub open spec fn ends_empty_line(s: Seq<u8>, i: int) -> bool {
    0 <= i < s.len() && s[i] == 10u8 && at_line_start(s, i)
}

/// The byte at `i` ends an empty line that directly follows another empty
/// line: it is what squeezing removes.
pub open spec fn squeezed(s: Seq<u8>, i: int) -> bool {
    ends_empty_line(s, i) && ends_empty_line(s, i - 1)
}

/// The byte at `i` is written.
pub open spec fn kept(s: Seq<u8>, squeeze: bool, i: int) -> bool {
    !(squeeze && squeezed(s, i))
}

/// The byte at `i` is written and is the first of its line.
pub open spec fn begins_line(s: Seq<u8>, squeeze: bool, i: int) -> bool {
    kept(s, squeeze, i) && at_line_start(s, i)
}

/// How many of the first `n` bytes begin a line that is written.
pub open spec fn lines_begun(s: Seq<u8>, squeeze: bool, n: int) -> nat
    decreases n,
{
    if n <= 0 {
        0
    } else if begins_line(s, squeeze, n - 1) {
        lines_begun(s, squeeze, n - 1) + 1
    } else {
        lines_begun(s, squeeze, n - 1)
    }
}

/// The number of the line that a byte at `i` begins, when the chunk starts
/// with the counter at `first_line`.
pub open spec fn line_number_at(s: Seq<u8>, squeeze: bool, first_line: int, i: int) -> int {
    first_line + lines_begun(s, squeeze, i)
}

/// What is written for the byte at `i` when the counter stands at `line`.
pub open spec fn emission(s: Seq<u8>, flags: Flags, line: int, i: int) -> Seq<u8> {
    if !kept(s, flags.squeeze_blank, i) {
        Seq::empty()
    } else if flags.number && at_line_start(s, i) {
        line_prefix(line) + seq![s[i]]
    } else {
        seq![s[i]]
    }
}

/// What is written for the first `n` bytes of `s`.
pub open spec fn rendered_to(s: Seq<u8>, flags: Flags, first_line: int, n: int) -> Seq<u8>
    decreases n,
{
    if n <= 0 {
        Seq::empty()
    } else {
        rendered_to(s, flags, first_line, n - 1) + emission(
            s,
            flags,
            line_number_at(s, flags.squeeze_blank, first_line, n - 1),
            n - 1,
        )
    }
}

/// What is written for the chunk `s`.
pub open spec fn rendered(s: Seq<u8>, flags: Flags, first_line: int) -> Seq<u8> {
    rendered_to(s, flags, first_line, s.len() as int)
}

/// Where the line counter stands after the chunk `s`.
pub open spec fn counter_after(s: Seq<u8>, flags: Flags, first_line: int) -> int {
    first_line + lines_begun(s, flags.squeeze_blank, s.len() as int)
}

/// The number of empty lines that end the first `n` bytes.
pub open spec fn blank_run(s: Seq<u8>, n: int) -> nat
    decreases n,
{
    if n <= 0 {
        0
    } else if ends_empty_line(s, n - 1) {
        blank_run(s, n - 1) + 1
    } else {
        0
    }
}

/// The count of line starts grows with the prefix and never exceeds its
/// length.
pub proof fn lemma_lines_begun_grows(s: Seq<u8>, squeeze: bool, m: int, n: int)
    requires
        0 <= m <= n,
    ensures
        lines_begun(s, squeeze, m) <= lines_begun(s, squeeze, n),
        lines_begun(s, squeeze, n) - lines_begun(s, squeeze, m) <= n - m,
    decreases n,
{
    if m < n {
        lemma_lines_begun_grows(s, squeeze, m, n - 1);
    }
}

/// A run of empty lines is never longer than the prefix it ends.
pub proof fn lemma_blank_run_bound(s: Seq<u8>, n: int)
    requires
        0 <= n,
    ensures
        blank_run(s, n) <= n,
    decreases n,
{
    if n > 0 {
        lemma_blank_run_bound(s, n - 1);
    }
}

/// The state that the printer carries from one byte of a chunk to the next.
#[derive(Clone, Copy, Debug, PartialEq, Eq, Structural)]
pub struct EmissionState {
    /// The last byte that was written, or a newline before the first.
    pub last_char: u8,
    /// The number of consecutive empty lines seen up to here.
    pub blank_run: usize,
}

impl EmissionState {
    /// The state at the start of a chunk.
    pub fn new() -> (state: EmissionState)
        ensures
            state == (EmissionState { last_char: 10, blank_run: 0 }),
    {
        EmissionState { last_char: NEWLINE, blank_run: 0 }
    }

    /// The next byte begins a line.
    pub open spec fn starts_line(self) -> bool {
        self.last_char == 10u8
    }

    /// The run of empty lines once the byte `b` has been looked at.
    pub open spec fn run_after(self, b: u8) -> int {
        if self.last_char == 10u8 && b == 10u8 {
            self.blank_run + 1
        } else {
            0
        }
    }

    /// The byte `b` is dropped.
    pub open spec fn skips(self, b: u8, flags: Flags) -> bool {
        flags.squeeze_blank && self.run_after(b) > 1
    }

    /// The state once the byte `b` has been looked at.
    pub open spec fn after(self, b: u8, flags: Flags) -> EmissionState {
        EmissionState {
            last_char: if self.skips(b, flags) {
                self.last_char
            } else {
                b
            },
            blank_run: self.run_after(b) as usize,
        }
    }

    /// What is written for the byte `b` when the counter stands at `line`.
    pub open spec fn output(self, b: u8, flags: Flags, line: int) -> Seq<u8> {
        if self.skips(b, flags) {
            Seq::empty()
        } else if flags.number && self.starts_line() {
            line_prefix(line) + seq![b]
        } else {
            seq![b]
        }
    }

    /// Where the counter stands once the byte `b` has been looked at.
    pub open spec fn line_after(self, b: u8, flags: Flags, line: int) -> int {
        if !self.skips(b, flags) && self.starts_line() {
            line + 1
        } else {
            line
        }
    }

    /// The state is the one reached after the first `i` bytes of `s`.
    pub open spec fn tracks(self, s: Seq<u8>, i: int) -> bool {
        self.last_char == previous_byte(s, i) && self.blank_run == blank_run(s, i)
    }

    /// Looks at one byte: returns what is to be written for it, and advances
    /// the state and the line counter.
    pub fn step(&mut self, b: u8, flags: &Flags, line_number: &mut i32) -> (out: Vec<u8>)
        requires
            old(self).blank_run < usize::MAX,
            old(self).line_after(b, *flags, *old(line_number) as int) <= i32::MAX,
        ensures
            *final(self) == old(self).after(b, *flags),
            out@ == old(self).output(b, *flags, *old(line_number) as int),
            *final(line_number) == old(self).line_after(b, *flags, *old(line_number) as int),
    {
        if self.last_char == NEWLINE && b == NEWLINE {
            self.blank_run = self.blank_run + 1;
        } else {
            self.blank_run = 0;
        }
        let mut out: Vec<u8> = Vec::new();
        if flags.squeeze_blank && self.blank_run > 1 {
            return out;
        }
        if self.last_char == NEWLINE {
            if flags.number {
                out = format_line_number(*line_number);
            }
            *line_number = *line_number + 1;
        }
        out.push(b);
        self.last_char = b;
        out
    }
}

/// A state that tracks a prefix of `s` treats the next byte as the model
/// says.
pub proof fn lemma_step_follows_model(
    state: EmissionState,
    s: Seq<u8>,
    flags: Flags,
    line: int,
    i: int,
)
    requires
        0 <= i < s.len(),
        state.tracks(s, i),
        s.len() < usize::MAX,
    ensures
        state.skips(s[i], flags) == !kept(s, flags.squeeze_blank, i),
        state.starts_line() == at_line_start(s, i),
        state.output(s[i], flags, line) == emission(s, flags, line, i),
        state.line_after(s[i], flags, line) == line + lines_begun(s, flags.squeeze_blank, i + 1)
            - lines_begun(s, flags.squeeze_blank, i),
        state.after(s[i], flags).tracks(s, i + 1),
{
    lemma_blank_run_bound(s, i);
    assert(blank_run(s, i) >= 1 <==> ends_empty_line(s, i - 1));
}

/// Renders one chunk: the first `count` bytes of `buffer`. Returns the bytes
/// to be written and advances the line counter by the number of lines that
/// the chunk begins.
pub fn print_buffer(buffer: &[u8], count: usize, flags: &Flags, line_number: &mut i32) -> (out:
    Vec<u8>)
    requires
        count <= buffer@.len(),
        count <= CHUNK_CAPACITY,
        counter_after(buffer@.take(count as int), *flags, *old(line_number) as int) <= i32::MAX,
    ensures
        out@ == rendered(buffer@.take(count as int), *flags, *old(line_number) as int),
        *final(line_number) == counter_after(
            buffer@.take(count as int),
            *flags,
            *old(line_number) as int,
        ),
{
    let ghost s = buffer@.take(count as int);
    let ghost first = *line_number as int;
    let mut state = EmissionState::new();
    let mut out: Vec<u8> = Vec::new();
    let mut idx: usize = 0;
    while idx < count
        invariant
            idx <= count,
            count <= buffer@.len(),
            count <= CHUNK_CAPACITY,
            s == buffer@.take(count as int),
            state.tracks(s, idx as int),
            *line_number == first + lines_begun(s, flags.squeeze_blank, idx as int),
            first + lines_begun(s, flags.squeeze_blank, count as int) <= i32::MAX,
            out@ == rendered_to(s, *flags, first, idx as int),
        decreases count - idx,
    {
        let b: u8 = buffer[idx];
        proof {
            lemma_step_follows_model(state, s, *flags, *line_number as int, idx as int);
            lemma_lines_begun_grows(s, flags.squeeze_blank, idx as int + 1, count as int);
            lemma_blank_run_bound(s, idx as int);
        }
        let mut piece = state.step(b, flags, line_number);
        out.append(&mut piece);
        idx = idx + 1;
    }
    out
}

/// Counts the lines that the first `count` bytes of `buffer` begin: the
/// amount by which rendering them advances the line counter.
pub fn count_lines(buffer: &[u8], count: usize, squeeze: bool) -> (lines: usize)
    requires
        count <= buffer@.len(),
    ensures
        lines == lines_begun(buffer@.take(count as int), squeeze, count as int),
        lines <= count,
{
    let ghost s = buffer@.take(count as int);
    let mut lines: usize = 0;
    let mut idx: usize = 0;
    while idx < count
        invariant
            idx <= count,
            count <= buffer@.len(),
            s == buffer@.take(count as int),
            lines == lines_begun(s, squeeze, idx as int),
            lines <= idx,
        decreases count - idx,
    {
        let starts: bool = idx == 0 || buffer[idx - 1] == NEWLINE;
        let after_empty: bool = idx >= 1 && buffer[idx - 1] == NEWLINE && (idx == 1 || buffer[idx
            - 2] == NEWLINE);
        let dropped: bool = squeeze && starts && after_empty && buffer[idx] == NEWLINE;
        assert(starts == at_line_start(s, idx as int));
        assert(dropped == !kept(s, squeeze, idx as int));
        if starts && !dropped {
            lines = lines + 1;
        }
        idx = idx + 1;
    }
    lines
}

/// The report on a chunk of `count` bytes that took `millis` milliseconds:
/// the text `rcat: Read `, the count, ` bytes in `, the time, `ms` and a
/// newline, as ASCII bytes.
pub open spec fn report_line(count: nat, millis: nat) -> Seq<u8> {
    seq![114u8, 99u8, 97u8, 116u8, 58u8, 32u8, 82u8, 101u8, 97u8, 100u8, 32u8] + digits(count)
        + seq![32u8, 98u8, 121u8, 116u8, 101u8, 115u8, 32u8, 105u8, 110u8, 32u8] + digits(millis)
        + seq![109u8, 115u8, 10u8]
}

/// The report that follows a chunk: there is one when the verbose flag is on
/// and the chunk is not empty.
pub fn verbose_report(count: usize, elapsed_millis: u128, flags: &Flags) -> (report: Option<
    Vec<u8>,
>)
    ensures
        report is Some <==> flags.verbose && count > 0,
        report is Some ==> report.unwrap()@ == report_line(
            count as nat,
            elapsed_millis as nat,
        ),
{
    if !flags.verbose || count == 0 {
        return None;
    }
    let mut out: Vec<u8> = vec![114u8, 99u8, 97u8, 116u8, 58u8, 32u8, 82u8, 101u8, 97u8, 100u8, 32u8];
    push_digits(count as u128, &mut out);
    let mut middle: Vec<u8> = vec![32u8, 98u8, 121u8, 116u8, 101u8, 115u8, 32u8, 105u8, 110u8, 32u8];
    out.append(&mut middle);
    push_digits(elapsed_millis, &mut out);
    out.push(109u8);
    out.push(115u8);
    out.push(NEWLINE);
    proof {
        assert(out@ =~= report_line(count as nat, elapsed_millis as nat));
    }
    Some(out)
}

} // verus!
