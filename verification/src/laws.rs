//! What holds of every chunk and every set of flags.

use crate::decimal::line_prefix;
use crate::flags::Flags;
use crate::printer::{
    at_line_start, begins_line, counter_after, emission, ends_empty_line, kept, line_number_at,
    lines_begun, rendered, rendered_to, squeezed,
};
use vstd::prelude::*;

verus! {

/// The bytes among the first `n` of `s` that are written, in their order.
pub open spec fn payload(s: Seq<u8>, squeeze: bool, n: int) -> Seq<u8>
    decreases n,
{
    if n <= 0 {
        Seq::empty()
    } else if kept(s, squeeze, n - 1) {
        payload(s, squeeze, n - 1).push(s[n - 1])
    } else {
        payload(s, squeeze, n - 1)
    }
}

/// The number of bytes that line-number prefixes add to the output for the
/// first `n` bytes of `s`.
pub open spec fn prefix_total(s: Seq<u8>, flags: Flags, first_line: int, n: int) -> nat
    decreases n,
{
    if n <= 0 {
        0
    } else if flags.number && begins_line(s, flags.squeeze_blank, n - 1) {
        prefix_total(s, flags, first_line, n - 1) + line_prefix(
            line_number_at(s, flags.squeeze_blank, first_line, n - 1),
        ).len()
    } else {
        prefix_total(s, flags, first_line, n - 1)
    }
}

/// The place in the output of the byte at `i` of the input, if it is
/// written.
pub open spec fn position(s: Seq<u8>, flags: Flags, first_line: int, i: int) -> int {
    rendered_to(s, flags, first_line, i + 1).len() - 1
}

/// The output for a shorter prefix of the chunk begins the output for a
/// longer one.
pub proof fn lemma_rendered_extends(s: Seq<u8>, flags: Flags, first_line: int, m: int, n: int)
    requires
        0 <= m <= n,
    ensures
        rendered_to(s, flags, first_line, m).is_prefix_of(rendered_to(s, flags, first_line, n)),
    decreases n,
{
    if m < n {
        lemma_rendered_extends(s, flags, first_line, m, n - 1);
    }
}

/// Every byte that is written stands in the output at its own place, and the
/// places follow the order of the input: a later byte stands behind an
/// earlier one.
pub proof fn law_written_bytes_keep_their_order(s: Seq<u8>, flags: Flags, first_line: int)
    ensures
        forall|i: int|
            0 <= i < s.len() && kept(s, flags.squeeze_blank, i) ==> {
                &&& 0 <= #[trigger] position(s, flags, first_line, i) < rendered(
                    s,
                    flags,
                    first_line,
                ).len()
                &&& rendered(s, flags, first_line)[position(s, flags, first_line, i)] == s[i]
            },
        forall|i: int, j: int|
            0 <= i < j < s.len() && kept(s, flags.squeeze_blank, j) ==> #[trigger] position(
                s,
                flags,
                first_line,
                i,
            ) < #[trigger] position(s, flags, first_line, j),
{
    let out = rendered(s, flags, first_line);
    assert forall|i: int| 0 <= i < s.len() && kept(s, flags.squeeze_blank, i) implies {
        &&& 0 <= #[trigger] position(s, flags, first_line, i) < out.len()
        &&& out[position(s, flags, first_line, i)] == s[i]
    } by {
        lemma_rendered_extends(s, flags, first_line, i + 1, s.len() as int);
        let upto = rendered_to(s, flags, first_line, i + 1);
        assert(upto.last() == s[i]);
        assert(upto == out.subrange(0, upto.len() as int));
    }
    assert forall|i: int, j: int|
        0 <= i < j < s.len() && kept(s, flags.squeeze_blank, j) implies #[trigger] position(
        s,
        flags,
        first_line,
        i,
    ) < #[trigger] position(s, flags, first_line, j) by {
        lemma_rendered_extends(s, flags, first_line, i + 1, j);
        assert(rendered_to(s, flags, first_line, j + 1).len() > rendered_to(
            s,
            flags,
            first_line,
            j,
        ).len());
    }
}

/// The output holds the bytes that are written and the line-number prefixes,
/// and nothing else: its length is the sum of theirs.
pub proof fn law_output_is_payload_and_prefixes(
    s: Seq<u8>,
    flags: Flags,
    first_line: int,
    n: int,
)
    requires
        0 <= n <= s.len(),
    ensures
        rendered_to(s, flags, first_line, n).len() == payload(s, flags.squeeze_blank, n).len()
            + prefix_total(s, flags, first_line, n),
        !flags.number ==> rendered_to(s, flags, first_line, n) == payload(
            s,
            flags.squeeze_blank,
            n,
        ),
    decreases n,
{
    if n > 0 {
        law_output_is_payload_and_prefixes(s, flags, first_line, n - 1);
        if !flags.number {
            assert(rendered_to(s, flags, first_line, n) =~= payload(s, flags.squeeze_blank, n));
        }
    }
}

/// Without squeezing every byte of the input is written: the bytes that are
/// written are the input itself.
pub proof fn law_without_squeeze_nothing_is_dropped(s: Seq<u8>, n: int)
    requires
        0 <= n <= s.len(),
    ensures
        forall|i: int| kept(s, false, i),
        payload(s, false, n) == s.take(n),
    decreases n,
{
    if n > 0 {
        law_without_squeeze_nothing_is_dropped(s, n - 1);
        assert(payload(s, false, n) =~= s.take(n));
    } else {
        assert(payload(s, false, n) =~= s.take(n));
    }
}

/// Without squeezing every byte of the input is written exactly once and in
/// its order: each stands in the output at its own place, a later one behind
/// an earlier one, and the only other bytes of the output are those of the
/// line-number prefixes.
pub proof fn law_without_squeeze_every_byte_is_written_once(
    s: Seq<u8>,
    flags: Flags,
    first_line: int,
)
    requires
        !flags.squeeze_blank,
    ensures
        rendered(s, flags, first_line).len() == s.len() + prefix_total(
            s,
            flags,
            first_line,
            s.len() as int,
        ),
        forall|i: int|
            0 <= i < s.len() ==> {
                &&& 0 <= #[trigger] position(s, flags, first_line, i) < rendered(
                    s,
                    flags,
                    first_line,
                ).len()
                &&& rendered(s, flags, first_line)[position(s, flags, first_line, i)] == s[i]
            },
        forall|i: int, j: int|
            0 <= i < j < s.len() ==> #[trigger] position(s, flags, first_line, i)
                < #[trigger] position(s, flags, first_line, j),
{
    law_written_bytes_keep_their_order(s, flags, first_line);
    law_output_is_payload_and_prefixes(s, flags, first_line, s.len() as int);
    law_without_squeeze_nothing_is_dropped(s, s.len() as int);
}

/// With numbering and squeezing both off, the output is the chunk itself,
/// byte for byte.
pub proof fn law_plain_run_copies_input(s: Seq<u8>, flags: Flags, first_line: int)
    requires
        !flags.number,
        !flags.squeeze_blank,
    ensures
        rendered(s, flags, first_line) == s,
{
    law_output_is_payload_and_prefixes(s, flags, first_line, s.len() as int);
    law_without_squeeze_nothing_is_dropped(s, s.len() as int);
    assert(s.take(s.len() as int) =~= s);
}

/// With squeezing on, every byte with content is written, and so is each
/// newline that ends a line with content or the first empty line of a run.
pub proof fn law_squeeze_keeps_content(s: Seq<u8>, i: int)
    requires
        0 <= i < s.len(),
        s[i] != 10u8 || !at_line_start(s, i) || !ends_empty_line(s, i - 1),
    ensures
        kept(s, true, i),
{
}

/// What squeezing drops is a newline, and the byte before it is a newline
/// that is written or dropped with it.
pub proof fn law_squeeze_drops_only_repeated_empty_lines(s: Seq<u8>, i: int)
    requires
        0 <= i < s.len(),
        !kept(s, true, i),
    ensures
        s[i] == 10u8,
        i >= 1,
        ends_empty_line(s, i - 1),
{
}

proof fn lemma_squeezed_payload(s: Seq<u8>, n: int)
    requires
        0 <= n <= s.len(),
    ensures
        n >= 1 ==> payload(s, true, n).len() >= 1 && payload(s, true, n).last() == s[n - 1],
        n >= 1 ==> at_line_start(payload(s, true, n), payload(s, true, n).len() - 1)
            == at_line_start(s, n - 1),
        forall|j: int| !squeezed(payload(s, true, n), j),
    decreases n,
{
    if n > 0 {
        lemma_squeezed_payload(s, n - 1);
        let before = payload(s, true, n - 1);
        let now = payload(s, true, n);
        if kept(s, true, n - 1) {
            assert(now == before.push(s[n - 1]));
            assert forall|j: int| !squeezed(now, j) by {
                if 0 <= j < before.len() {
                    assert(squeezed(now, j) == squeezed(before, j));
                }
            }
        }
    }
}

/// With squeezing on, no empty line that is written follows another empty
/// line: each run of empty lines in the input leaves a single one.
pub proof fn law_squeeze_leaves_single_empty_lines(s: Seq<u8>, flags: Flags, first_line: int)
    requires
        flags.squeeze_blank,
    ensures
        forall|j: int| !squeezed(payload(s, true, s.len() as int), j),
        !flags.number ==> forall|j: int| !squeezed(rendered(s, flags, first_line), j),
{
    lemma_squeezed_payload(s, s.len() as int);
    law_output_is_payload_and_prefixes(s, flags, first_line, s.len() as int);
}

/// The first line of a chunk has the number that the counter held, and each
/// line that is written has the number of the line before it plus one.
pub proof fn law_line_numbers_are_consecutive(
    s: Seq<u8>,
    squeeze: bool,
    first_line: int,
    i: int,
    j: int,
)
    requires
        0 <= i < j <= s.len(),
        begins_line(s, squeeze, i),
        forall|k: int| i < k < j ==> !begins_line(s, squeeze, k),
    ensures
        line_number_at(s, squeeze, first_line, 0) == first_line,
        line_number_at(s, squeeze, first_line, j) == line_number_at(s, squeeze, first_line, i) + 1,
    decreases j - i,
{
    if i + 1 < j {
        law_line_numbers_are_consecutive(s, squeeze, first_line, i, j - 1);
    }
}

/// With numbering on, a byte that begins a line is written behind the prefix
/// of its line number.
pub proof fn law_numbered_line_carries_its_number(
    s: Seq<u8>,
    flags: Flags,
    first_line: int,
    i: int,
)
    requires
        0 <= i < s.len(),
        flags.number,
        begins_line(s, flags.squeeze_blank, i),
    ensures
        rendered_to(s, flags, first_line, i + 1) == rendered_to(s, flags, first_line, i)
            + line_prefix(line_number_at(s, flags.squeeze_blank, first_line, i)) + seq![s[i]],
{
    let number = line_number_at(s, flags.squeeze_blank, first_line, i);
    assert(emission(s, flags, number, i) == line_prefix(number) + seq![s[i]]);
    assert(rendered_to(s, flags, first_line, i + 1) =~= rendered_to(s, flags, first_line, i)
        + line_prefix(number) + seq![s[i]]);
}

/// Numbering goes on from one chunk to the next: the lines of a second chunk
/// are numbered from where the first chunk left the counter.
pub proof fn law_numbering_continues_across_chunks(
    a: Seq<u8>,
    b: Seq<u8>,
    flags: Flags,
    first_line: int,
    i: int,
)
    ensures
        counter_after(b, flags, counter_after(a, flags, first_line)) == first_line + lines_begun(
            a,
            flags.squeeze_blank,
            a.len() as int,
        ) + lines_begun(b, flags.squeeze_blank, b.len() as int),
        line_number_at(b, flags.squeeze_blank, counter_after(a, flags, first_line), i)
            == first_line + lines_begun(a, flags.squeeze_blank, a.len() as int) + lines_begun(
            b,
            flags.squeeze_blank,
            i,
        ),
{
}

} // verus!
