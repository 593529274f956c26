//! White space: trimming a text and splitting a line into its fields.
//!
//! White space is what Unicode gives the property `White_Space`, 25
//! characters in all. The trimming and the splitting are worked out on flags,
//! one per character, that tell where the white space (or the separators)
//! stand: [`trim_bounds`] and [`clear_ranges`] know nothing of characters.

use crate::text::substring;
use vstd::prelude::*;
use vstd::string::StrSliceExecFns;

verus! {

/// Whether `c` has the Unicode property `White_Space`: the controls from tab
/// to carriage return, the space, next line, the no-break space, the ogham
/// space mark, the spaces from en quad to hair space, the line and paragraph
/// separators, the narrow no-break space, the medium mathematical space and
/// the ideographic space.
pub open spec fn is_white_space(c: char) -> bool {
    let code = c as u32;
    ||| 0x0009 <= code <= 0x000D
    ||| code == 0x0020
    ||| code == 0x0085
    ||| code == 0x00A0
    ||| code == 0x1680
    ||| 0x2000 <= code <= 0x200A
    ||| code == 0x2028
    ||| code == 0x2029
    ||| code == 0x202F
    ||| code == 0x205F
    ||| code == 0x3000
}

/// Whether `c` parts two fields of a line: a comma or white space.
pub open spec fn is_separator(c: char) -> bool {
    c == ',' || is_white_space(c)
}

/// For each character of `s`, whether it is white space.
pub open spec fn white_space_of(s: Seq<char>) -> Seq<bool> {
    Seq::new(s.len(), |i: int| is_white_space(s[i]))
}

/// For each character of `s`, whether it is a separator.
pub open spec fn separators_of(s: Seq<char>) -> Seq<bool> {
    Seq::new(s.len(), |i: int| is_separator(s[i]))
}

/// How many flags at the front of `flags` are `value`.
pub open spec fn leading(flags: Seq<bool>, value: bool) -> nat
    decreases flags.len(),
{
    if flags.len() > 0 && flags[0] == value {
        1 + leading(flags.drop_first(), value)
    } else {
        0
    }
}

/// How many flags at the back of `flags` are set.
pub open spec fn trailing_set(flags: Seq<bool>) -> nat
    decreases flags.len(),
{
    if flags.len() > 0 && flags.last() {
        1 + trailing_set(flags.drop_last())
    } else {
        0
    }
}

/// The range that is left when the set flags are taken off both ends: from
/// the first clear flag to behind the last one, or an empty range at the end
/// where every flag is set.
pub open spec fn kept_range(flags: Seq<bool>) -> (int, int) {
    let start = leading(flags, true) as int;
    (start, flags.len() - trailing_set(flags.skip(start)))
}

/// The runs of clear flags at or after position `from`, each as the range
/// from its first flag to behind its last, in order. A run is as long as it
/// can be: a set flag or an end of the sequence stands on either side.
pub open spec fn runs_from(flags: Seq<bool>, from: int) -> Seq<(int, int)>
    decreases flags.len() - from,
    via runs_from_decreases
{
    if from < 0 || from >= flags.len() {
        Seq::empty()
    } else {
        let start = from + leading(flags.skip(from), true);
        if start >= flags.len() {
            Seq::empty()
        } else {
            let end = start + leading(flags.skip(start), false);
            seq![(start, end)] + runs_from(flags, end)
        }
    }
}

#[via_fn]
proof fn runs_from_decreases(flags: Seq<bool>, from: int) {
    if 0 <= from < flags.len() {
        lemma_leading_stops(flags.skip(from), true);
        let start = from + leading(flags.skip(from), true);
        if start < flags.len() {
            lemma_leading_stops(flags.skip(start), false);
        }
    }
}

/// `s` without the white space at its front and at its back.
pub open spec fn trimmed(s: Seq<char>) -> Seq<char> {
    let range = kept_range(white_space_of(s));
    s.subrange(range.0, range.1)
}

/// The fields of a line: the longest runs of characters that are no
/// separators, in order. Separators only part fields, so no field is empty.
pub open spec fn fields_of(s: Seq<char>) -> Seq<Seq<char>> {
    let runs = runs_from(separators_of(s), 0);
    Seq::new(runs.len(), |k: int| s.subrange(runs[k].0, runs[k].1))
}

/// Ranges of machine integers as ranges of integers.
pub open spec fn ranges_view(runs: Seq<(usize, usize)>) -> Seq<(int, int)> {
    Seq::new(runs.len(), |k: int| (runs[k].0 as int, runs[k].1 as int))
}

/// The views of the strings in `items`.
pub open spec fn views(items: Seq<String>) -> Seq<Seq<char>> {
    Seq::new(items.len(), |i: int| items[i]@)
}

/// The count of leading flags stops inside the sequence at a flag of the
/// other value, or at its end.
pub proof fn lemma_leading_stops(flags: Seq<bool>, value: bool)
    ensures
        leading(flags, value) <= flags.len(),
        leading(flags, value) < flags.len() ==> flags[leading(flags, value) as int] != value,
        forall|i: int| 0 <= i < leading(flags, value) ==> flags[i] == value,
        flags.len() > 0 && flags[0] == value ==> leading(flags, value) >= 1,
    decreases flags.len(),
{
    if flags.len() > 0 && flags[0] == value {
        let rest = flags.drop_first();
        lemma_leading_stops(rest, value);
        assert forall|i: int| 0 <= i < leading(flags, value) implies flags[i] == value by {
            if i > 0 {
                assert(rest[i - 1] == flags[i]);
            }
        }
    }
}

/// The count of trailing set flags stops inside the sequence in front of a
/// clear flag, or at its start.
pub proof fn lemma_trailing_stops(flags: Seq<bool>)
    ensures
        trailing_set(flags) <= flags.len(),
        trailing_set(flags) < flags.len() ==> !flags[flags.len() - trailing_set(flags) - 1],
        forall|i: int| flags.len() - trailing_set(flags) <= i < flags.len() ==> flags[i],
    decreases flags.len(),
{
    if flags.len() > 0 && flags.last() {
        let rest = flags.drop_last();
        lemma_trailing_stops(rest);
        assert forall|i: int| flags.len() - trailing_set(flags) <= i < flags.len() implies flags[i] by {
            if i < flags.len() - 1 {
                assert(rest[i] == flags[i]);
            }
        }
    }
}

/// What is kept has a clear flag at either end, and only set flags lie
/// outside it.
pub proof fn law_kept_range(flags: Seq<bool>)
    ensures
        ({
            let (start, end) = kept_range(flags);
            &&& 0 <= start <= end <= flags.len()
            &&& forall|i: int| 0 <= i < start ==> flags[i]
            &&& forall|i: int| end <= i < flags.len() ==> flags[i]
            &&& start < end ==> !flags[start] && !flags[end - 1]
        }),
{
    let start = leading(flags, true) as int;
    lemma_leading_stops(flags, true);
    let rest = flags.skip(start);
    lemma_trailing_stops(rest);
    let end = flags.len() - trailing_set(rest);
    assert forall|i: int| end <= i < flags.len() implies flags[i] by {
        assert(rest[i - start] == flags[i]);
    }
    if start < end {
        assert(rest[0] == flags[start]);
        assert(rest[end - start - 1] == flags[end - 1]);
    }
}

/// Every run lies inside the sequence behind `from`, holds at least one flag
/// and only clear ones, and the runs come in order with at least one set
/// flag between two of them.
pub proof fn law_runs(flags: Seq<bool>, from: int)
    requires
        0 <= from,
    ensures
        forall|k: int|
            0 <= k < runs_from(flags, from).len() ==> {
                let run = #[trigger] runs_from(flags, from)[k];
                &&& from <= run.0 < run.1 <= flags.len()
                &&& forall|i: int| run.0 <= i < run.1 ==> !flags[i]
                &&& run.1 < flags.len() ==> flags[run.1]
                &&& k > 0 ==> runs_from(flags, from)[k - 1].1 < run.0
            },
        runs_from(flags, from).len() > 0 ==> forall|i: int|
            from <= i < runs_from(flags, from)[0].0 ==> flags[i],
    decreases flags.len() - from,
{
    if from < flags.len() {
        let front = flags.skip(from);
        lemma_leading_stops(front, true);
        let start = from + leading(front, true);
        assert forall|i: int| from <= i < start implies flags[i] by {
            assert(front[i - from] == flags[i]);
        }
        if start < flags.len() {
            let behind = flags.skip(start);
            lemma_leading_stops(behind, false);
            assert(front[start - from] == flags[start]);
            assert(behind[0] == flags[start]);
            let end = start + leading(behind, false);
            assert forall|i: int| start <= i < end implies !flags[i] by {
                assert(behind[i - start] == flags[i]);
            }
            if end < flags.len() {
                assert(behind[end - start] == flags[end]);
            }
            law_runs(flags, end);
            let rest = runs_from(flags, end);
            let all = runs_from(flags, from);
            assert(all == seq![(start, end)] + rest);
            assert forall|k: int| 0 <= k < all.len() implies {
                let run = #[trigger] all[k];
                &&& from <= run.0 < run.1 <= flags.len()
                &&& forall|i: int| run.0 <= i < run.1 ==> !flags[i]
                &&& run.1 < flags.len() ==> flags[run.1]
                &&& k > 0 ==> all[k - 1].1 < run.0
            } by {
                if k > 0 {
                    assert(all[k] == rest[k - 1]);
                    if k > 1 {
                        assert(all[k - 1] == rest[k - 2]);
                    } else {
                        assert(flags[end]);
                    }
                }
            }
        }
    }
}

/// Whether `c` has the Unicode property `White_Space`.
pub fn char_is_whitespace(c: char) -> (yes: bool)
    ensures
        yes == is_white_space(c),
{
    let code = c as u32;
    (0x0009 <= code && code <= 0x000D) || code == 0x0020 || code == 0x0085 || code == 0x00A0
        || code == 0x1680 || (0x2000 <= code && code <= 0x200A) || code == 0x2028 || code
        == 0x2029 || code == 0x202F || code == 0x205F || code == 0x3000
}

/// Whether `c` parts two fields of a line: a comma or white space.
pub fn char_is_separator(c: char) -> (yes: bool)
    ensures
        yes == is_separator(c),
{
    c == ',' || char_is_whitespace(c)
}

/// No digit, letter of the Latin alphabet, sign or `x` is white space, so
/// none of them is ever trimmed off a number or parts a field; nor is the
/// comma white space, though it parts fields.
pub proof fn law_number_characters_are_kept(c: char)
    requires
        crate::number::digit_value(c, 36) is Some || c == '+' || c == '-' || c == '.' || c == ',',
    ensures
        !is_white_space(c),
        is_separator(c) <==> c == ',',
{
}

/// For each character of `text`, whether it is white space.
pub fn white_space_flags(text: &str) -> (flags: Vec<bool>)
    ensures
        flags@ == white_space_of(text@),
{
    let mut flags: Vec<bool> = Vec::new();
    for c in it: text.chars()
        invariant
            it.seq() == text@,
            flags@ == white_space_of(text@.take(it.index() as int)),
    {
        flags.push(char_is_whitespace(c));
        assert(flags@ =~= white_space_of(text@.take(it.index() + 1)));
    }
    assert(text@.take(text@.len() as int) =~= text@);
    flags
}

/// For each character of `text`, whether it is a separator.
pub fn separator_flags(text: &str) -> (flags: Vec<bool>)
    ensures
        flags@ == separators_of(text@),
{
    let mut flags: Vec<bool> = Vec::new();
    for c in it: text.chars()
        invariant
            it.seq() == text@,
            flags@ == separators_of(text@.take(it.index() as int)),
    {
        flags.push(char_is_separator(c));
        assert(flags@ =~= separators_of(text@.take(it.index() + 1)));
    }
    assert(text@.take(text@.len() as int) =~= text@);
    flags
}

/// The range that is left when the set flags are taken off both ends.
pub fn trim_bounds(flags: &Vec<bool>) -> (range: (usize, usize))
    ensures
        range.0 <= range.1 <= flags@.len(),
        (range.0 as int, range.1 as int) == kept_range(flags@),
{
    let len = flags.len();
    let mut start: usize = 0;
    assert(flags@.skip(0) =~= flags@);
    while start < len && flags[start]
        invariant
            start <= len == flags@.len(),
            leading(flags@, true) == start + leading(flags@.skip(start as int), true),
        decreases len - start,
    {
        assert(flags@.skip(start as int).drop_first() =~= flags@.skip(start + 1));
        start = start + 1;
    }
    let ghost rest = flags@.skip(start as int);
    let mut end: usize = len;
    assert(rest.take(rest.len() as int) =~= rest);
    while end > start && flags[end - 1]
        invariant
            start <= end <= len == flags@.len(),
            rest == flags@.skip(start as int),
            trailing_set(rest) == (len - end) + trailing_set(rest.take(end - start)),
        decreases end,
    {
        assert(rest.take(end - start).drop_last() =~= rest.take(end - start - 1));
        end = end - 1;
    }
    (start, end)
}

/// The runs of clear flags, each as the range from its first flag to behind
/// its last, in order.
pub fn clear_ranges(flags: &Vec<bool>) -> (runs: Vec<(usize, usize)>)
    ensures
        ranges_view(runs@) == runs_from(flags@, 0),
        forall|k: int| 0 <= k < runs@.len() ==> (#[trigger] runs@[k]).0 < runs@[k].1 <= flags@.len(),
{
    let len = flags.len();
    let mut runs: Vec<(usize, usize)> = Vec::new();
    let mut from: usize = 0;
    assert(ranges_view(runs@) =~= Seq::<(int, int)>::empty());
    loop
        invariant
            from <= len == flags@.len(),
            runs_from(flags@, 0) == ranges_view(runs@) + runs_from(flags@, from as int),
            forall|k: int| 0 <= k < runs@.len() ==> (#[trigger] runs@[k]).0 < runs@[k].1 <= len,
        ensures
            runs_from(flags@, 0) == ranges_view(runs@),
            forall|k: int| 0 <= k < runs@.len() ==> (#[trigger] runs@[k]).0 < runs@[k].1 <= len,
        decreases len - from,
    {
        let ghost done = ranges_view(runs@);
        if from == len {
            assert(done + runs_from(flags@, from as int) =~= done);
            break;
        }
        // Pass over the set flags in front.
        let mut start: usize = from;
        let ghost front = flags@.skip(from as int);
        assert(front.skip(0) =~= front);
        while start < len && flags[start]
            invariant
                from <= start <= len == flags@.len(),
                front == flags@.skip(from as int),
                leading(front, true) == (start - from) + leading(flags@.skip(start as int), true),
            decreases len - start,
        {
            assert(flags@.skip(start as int).drop_first() =~= flags@.skip(start + 1));
            start = start + 1;
        }
        if start == len {
            assert(done + runs_from(flags@, from as int) =~= done);
            break;
        }
        // Take the run of clear flags.
        let mut end: usize = start;
        let ghost behind = flags@.skip(start as int);
        assert(behind.skip(0) =~= behind);
        while end < len && !flags[end]
            invariant
                start <= end <= len == flags@.len(),
                behind == flags@.skip(start as int),
                leading(behind, false) == (end - start) + leading(flags@.skip(end as int), false),
            decreases len - end,
        {
            assert(flags@.skip(end as int).drop_first() =~= flags@.skip(end + 1));
            end = end + 1;
        }
        proof {
            lemma_leading_stops(behind, false);
            assert(behind[0] == flags@[start as int]);
            assert(runs_from(flags@, from as int) == seq![(start as int, end as int)] + runs_from(
                flags@,
                end as int,
            ));
        }
        runs.push((start, end));
        proof {
            assert(ranges_view(runs@) =~= done + seq![(start as int, end as int)]);
            assert(ranges_view(runs@) + runs_from(flags@, end as int) =~= done + runs_from(
                flags@,
                from as int,
            ));
        }
        from = end;
    }
    runs
}

/// `text` without the white space at its front and at its back.
pub fn trim(text: &str) -> (kept: &str)
    ensures
        kept@ == trimmed(text@),
{
    let flags = white_space_flags(text);
    let (start, end) = trim_bounds(&flags);
    text.substring_char(start, end)
}

/// Splits a line into its fields: the runs of characters between commas and
/// white space. Runs of separators count as one, so no field is empty.
pub fn split_fields(text: &str) -> (fields: Vec<String>)
    ensures
        views(fields@) == fields_of(text@),
{
    let flags = separator_flags(text);
    let runs = clear_ranges(&flags);
    let mut fields: Vec<String> = Vec::new();
    let mut k: usize = 0;
    while k < runs.len()
        invariant
            k <= runs@.len(),
            flags@.len() == text@.len(),
            ranges_view(runs@) == runs_from(separators_of(text@), 0),
            forall|j: int|
                0 <= j < runs@.len() ==> (#[trigger] runs@[j]).0 < runs@[j].1 <= flags@.len(),
            fields@.len() == k,
            forall|j: int|
                0 <= j < k ==> (#[trigger] fields@[j])@ == text@.subrange(
                    runs@[j].0 as int,
                    runs@[j].1 as int,
                ),
        decreases runs@.len() - k,
    {
        let (start, end) = runs[k];
        fields.push(substring(text, start, end));
        k = k + 1;
    }
    proof {
        let expected = fields_of(text@);
        let model = runs_from(separators_of(text@), 0);
        assert(model.len() == runs@.len());
        assert forall|j: int| 0 <= j < fields@.len() implies views(fields@)[j] == expected[j] by {
            assert(model[j] == ranges_view(runs@)[j]);
        }
        assert(views(fields@) =~= expected);
    }
    fields
}

} // verus!
