//! Splitting text into runs of emoji and of other characters, so that each
//! run can be shaped with a font that has its glyphs.
use vstd::prelude::*;
use vstd::string::StringSliceAdditionalSpecFns;
use vstd::utf8::{encode_scalar, encode_utf8};

verus! {

/// A run of bytes `start..end` of a string, all emoji or all not.
#[derive(Clone, Copy, Debug, PartialEq, Eq, Structural)]
pub struct ByteRun {
    pub start: usize,
    pub end: usize,
    pub is_emoji: bool,
}

/// Characters drawn from an emoji font: the copyright and registered signs,
/// a few punctuation and letterlike symbols, arrows, technical symbols,
/// miscellaneous symbols and dingbats, some CJK signs, and the emoji planes.
pub open spec fn spec_is_emoji_char(c: char) -> bool {
    let v = c as u32;
    ||| v == 0x00A9
    ||| v == 0x00AE
    ||| v == 0x203C
    ||| v == 0x2049
    ||| v == 0x2122
    ||| v == 0x2139
    ||| 0x2194 <= v <= 0x21FF
    ||| 0x2300 <= v <= 0x23FF
    ||| 0x2600 <= v <= 0x27BF
    ||| 0x2934 <= v <= 0x2935
    ||| 0x2B05 <= v <= 0x2B55
    ||| v == 0x3030
    ||| v == 0x303D
    ||| v == 0x3297
    ||| v == 0x3299
    ||| 0x1F000 <= v <= 0x1FAFF
}

/// Characters that continue an emoji sequence: the zero width joiner, the
/// combining enclosing keycap and the two variation selectors.
pub open spec fn spec_is_emoji_sequence_char(c: char) -> bool {
    let v = c as u32;
    v == 0x200D || v == 0x20E3 || v == 0xFE0E || v == 0xFE0F
}

pub fn is_emoji_character(character: char) -> (r: bool)
    ensures
        r == spec_is_emoji_char(character),
{
    let v = character as u32;
    v == 0x00A9 || v == 0x00AE || v == 0x203C || v == 0x2049 || v == 0x2122 || v == 0x2139 || (0x2194
        <= v && v <= 0x21FF) || (0x2300 <= v && v <= 0x23FF) || (0x2600 <= v && v <= 0x27BF) || (0x2934 <= v
        && v <= 0x2935) || (0x2B05 <= v && v <= 0x2B55) || v == 0x3030 || v == 0x303D || v == 0x3297 || v
        == 0x3299 || (0x1F000 <= v && v <= 0x1FAFF)
}

pub fn is_emoji_sequence_character(character: char) -> (r: bool)
    ensures
        r == spec_is_emoji_sequence_char(character),
{
    let v = character as u32;
    v == 0x200D || v == 0x20E3 || v == 0xFE0E || v == 0xFE0F
}

/// Whether each character is drawn as emoji: emoji characters are, and so
/// are sequence characters that follow one drawn as emoji.
pub open spec fn spec_emoji_flags(chars: Seq<char>) -> Seq<bool>
    decreases chars.len(),
{
    if chars.len() == 0 {
        Seq::empty()
    } else {
        let before = spec_emoji_flags(chars.drop_last());
        let c = chars.last();
        before.push(spec_is_emoji_char(c) || (before.len() > 0 && before.last() && spec_is_emoji_sequence_char(c)))
    }
}

/// The byte offset of character `i` in the UTF-8 encoding of `chars`.
pub open spec fn spec_byte_offset(chars: Seq<char>, i: int) -> int {
    encode_utf8(chars.take(i)).len() as int
}

/// The runs of `chars`: each maximal stretch of characters with the same
/// emoji flag, as a range of bytes, in order.
pub open spec fn spec_emoji_runs(chars: Seq<char>) -> Seq<ByteRun>
    decreases chars.len(),
{
    if chars.len() == 0 {
        Seq::empty()
    } else {
        let n = chars.len() as int;
        let before = spec_emoji_runs(chars.drop_last());
        let flag = spec_emoji_flags(chars).last();
        let start = spec_byte_offset(chars, n - 1);
        let end = spec_byte_offset(chars, n);
        if before.len() > 0 && before.last().is_emoji == flag {
            before.update(before.len() - 1, ByteRun { end: end as usize, ..before.last() })
        } else {
            before.push(ByteRun { start: start as usize, end: end as usize, is_emoji: flag })
        }
    }
}

/// The number of UTF-8 bytes of a character.
pub open spec fn spec_utf8_width(c: char) -> int {
    encode_scalar(c as u32).len() as int
}

fn utf8_width(c: char) -> (r: usize)
    ensures
        r == spec_utf8_width(c),
        1 <= r <= 4,
{
    proof {
        vstd::utf8::char_is_scalar(c);
    }
    let v = c as u32;
    if v <= 0x7F {
        1
    } else if v <= 0x7FF {
        2
    } else if v <= 0xFFFF {
        3
    } else {
        4
    }
}

/// The encoding of two character sequences one after the other is the
/// encoding of the one followed by that of the other.
proof fn lemma_encode_concat(a: Seq<char>, b: Seq<char>)
    ensures
        encode_utf8(a + b) == encode_utf8(a) + encode_utf8(b),
    decreases a.len(),
{
    if a.len() == 0 {
        assert(a + b =~= b);
        assert(encode_utf8(a) =~= Seq::<u8>::empty());
        assert(encode_utf8(a) + encode_utf8(b) =~= encode_utf8(b));
    } else {
        assert((a + b).drop_first() =~= a.drop_first() + b);
        lemma_encode_concat(a.drop_first(), b);
        assert(encode_utf8(a + b) =~= encode_utf8(a) + encode_utf8(b));
    }
}

/// One more character adds its width to the byte offset.
proof fn lemma_offset_step(chars: Seq<char>, i: int)
    requires
        0 <= i < chars.len(),
    ensures
        spec_byte_offset(chars, i + 1) == spec_byte_offset(chars, i) + spec_utf8_width(chars[i]),
        spec_byte_offset(chars, i + 1) <= spec_byte_offset(chars, chars.len() as int),
{
    let c = chars[i];
    assert(chars.take(i + 1) =~= chars.take(i) + seq![c]);
    lemma_encode_concat(chars.take(i), seq![c]);
    assert(seq![c].drop_first() =~= Seq::<char>::empty());
    assert(encode_utf8(seq![c]) =~= encode_scalar(c as u32) + encode_utf8(Seq::<char>::empty()));
    assert(chars.take(chars.len() as int) =~= chars.take(i + 1) + chars.skip(i + 1));
    lemma_encode_concat(chars.take(i + 1), chars.skip(i + 1));
}

/// Flags and runs of a prefix are those of the whole, cut short.
proof fn lemma_prefix_drop_last(chars: Seq<char>, i: int)
    requires
        0 < i <= chars.len(),
    ensures
        chars.take(i).drop_last() =~= chars.take(i - 1),
        chars.take(i).last() == chars[i - 1],
{
}

/// Splits `text` into runs of emoji and of other characters; see
/// `spec_emoji_runs`.
pub fn split_emoji_runs(text: &str) -> (r: Vec<ByteRun>)
    ensures
        r@ == spec_emoji_runs(text@),
{
    let ghost chars = text@;
    let total = text.as_bytes().len();
    let mut runs: Vec<ByteRun> = Vec::new();
    let mut offset: usize = 0;
    let mut is_emoji = false;
    let mut i: usize = 0;
    proof {
        assert(chars.take(0) =~= Seq::<char>::empty());
        assert(encode_utf8(Seq::<char>::empty()) =~= Seq::<u8>::empty());
        assert(text.spec_bytes() == encode_utf8(chars));
        assert(total == text.spec_bytes().len());
        assert(chars.take(chars.len() as int) =~= chars);
    }
    for c in iter: text.chars()
        invariant
            chars == text@,
            iter.seq() == chars,
            i == iter.index(),
            0 <= i <= chars.len(),
            offset == spec_byte_offset(chars, i as int),
            offset >= i,
            spec_byte_offset(chars, chars.len() as int) == text.spec_bytes().len(),
            text.spec_bytes().len() <= usize::MAX,
            runs@ == spec_emoji_runs(chars.take(i as int)),
            i > 0 ==> is_emoji == spec_emoji_flags(chars.take(i as int)).last(),
            spec_emoji_flags(chars.take(i as int)).len() == i,
            i > 0 ==> runs@.len() > 0 && runs@.last().is_emoji == is_emoji && runs@.last().end == offset,
            i == 0 ==> runs@.len() == 0,
    {
        proof {
            lemma_offset_step(chars, i as int);
            lemma_prefix_drop_last(chars, i as int + 1);
            assert(c == chars[i as int]);
        }
        let width = utf8_width(c);
        let next_is_emoji = is_emoji_character(c) || (i > 0 && is_emoji && is_emoji_sequence_character(c));
        let end = offset + width;
        let ghost prefix = chars.take(i as int + 1);
        proof {
            assert(prefix.take(i as int) =~= chars.take(i as int));
            assert(prefix.take(i as int + 1) =~= prefix);
            assert(spec_emoji_flags(prefix).last() == next_is_emoji);
        }
        if i > 0 && next_is_emoji == is_emoji {
            let last = runs.len() - 1;
            let run = runs[last];
            runs.set(last, ByteRun { start: run.start, end, is_emoji: run.is_emoji });
        } else {
            runs.push(ByteRun { start: offset, end, is_emoji: next_is_emoji });
        }
        proof {
            assert(runs@ == spec_emoji_runs(prefix));
        }
        offset = end;
        is_emoji = next_is_emoji;
        i = i + 1;
    }
    proof {
        assert(chars.take(i as int) =~= chars);
    }
    runs
}

/// Run `j` is not empty.
pub open spec fn spec_run_nonempty(runs: Seq<ByteRun>, j: int) -> bool {
    runs[j].start < runs[j].end
}

/// Run `j + 1` starts where run `j` ends, and is of the other kind.
pub open spec fn spec_runs_adjacent(runs: Seq<ByteRun>, j: int) -> bool {
    runs[j].end == runs[j + 1].start && runs[j].is_emoji != runs[j + 1].is_emoji
}

/// The runs cover the text's bytes from first to last without gap or
/// overlap, none is empty, and neighbouring runs differ in kind.
pub proof fn lemma_emoji_runs_partition(chars: Seq<char>)
    requires
        encode_utf8(chars).len() <= usize::MAX,
    ensures
        (spec_emoji_runs(chars).len() == 0) == (chars.len() == 0),
        spec_emoji_runs(chars).len() > 0 ==> spec_emoji_runs(chars)[0].start == 0
            && spec_emoji_runs(chars).last().end == encode_utf8(chars).len(),
        forall|j: int| 0 <= j < spec_emoji_runs(chars).len() ==> #[trigger] spec_run_nonempty(spec_emoji_runs(chars), j),
        forall|j: int|
            0 <= j < spec_emoji_runs(chars).len() - 1 ==> #[trigger] spec_runs_adjacent(spec_emoji_runs(chars), j),
    decreases chars.len(),
{
    if chars.len() > 0 {
        let n = chars.len() as int;
        let prev = chars.drop_last();
        lemma_offset_step(chars, n - 1);
        assert(chars.take(n) =~= chars);
        assert(chars.take(n - 1) =~= prev);
        assert(prev.take(n - 1) =~= prev);
        lemma_encode_fits(chars);
        lemma_encode_fits(prev);
        let start = spec_byte_offset(chars, n - 1);
        let end = spec_byte_offset(chars, n);
        assert(start == encode_utf8(prev).len());
        assert(end == encode_utf8(chars).len());
        assert(start < end);
        lemma_emoji_runs_partition(prev);
        let before = spec_emoji_runs(prev);
        let runs = spec_emoji_runs(chars);
        let flag = spec_emoji_flags(chars).last();
        if before.len() > 0 && before.last().is_emoji == flag {
            let k = before.len() - 1;
            assert(runs == before.update(k, ByteRun { end: end as usize, ..before.last() }));
            assert forall|j: int| 0 <= j < runs.len() - 1 implies #[trigger] spec_runs_adjacent(runs, j) by {
                assert(spec_runs_adjacent(before, j));
            }
            assert forall|j: int| 0 <= j < runs.len() implies #[trigger] spec_run_nonempty(runs, j) by {
                assert(spec_run_nonempty(before, j));
            }
        } else {
            assert(runs == before.push(ByteRun { start: start as usize, end: end as usize, is_emoji: flag }));
            assert forall|j: int| 0 <= j < runs.len() - 1 implies #[trigger] spec_runs_adjacent(runs, j) by {
                if j < before.len() - 1 {
                    assert(spec_runs_adjacent(before, j));
                }
            }
            assert forall|j: int| 0 <= j < runs.len() implies #[trigger] spec_run_nonempty(runs, j) by {
                if j < before.len() {
                    assert(spec_run_nonempty(before, j));
                }
            }
        }
    }
}

/// The encoding of a prefix is as long as the prefix's byte offset, and no
/// longer than the whole, which fits in `usize` when the text does.
proof fn lemma_encode_fits(chars: Seq<char>)
    ensures
        spec_byte_offset(chars, chars.len() as int) == encode_utf8(chars).len(),
{
    assert(chars.take(chars.len() as int) =~= chars);
}

} // verus!
