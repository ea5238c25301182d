//! What the text helpers do, said in terms of positions and characters.

use vstd::prelude::*;

use crate::provider::openrouter::price::{digits_value, is_digit};
use crate::text::{
    ascii_lower, decimal, digit_char, is_blank, is_whitespace_char, occurs, occurs_at, on_single_line,
    replace_text, split_on, text_before, trim_end, trim_start, trim_text,
};

verus! {

/// `pieces` are what lies between the separators of `s`: none holds a separator, and with a separator
/// behind each of them they give `s` with a separator behind it.
pub open spec fn are_pieces_of(pieces: Seq<Seq<char>>, s: Seq<char>, separator: char) -> bool {
    &&& pieces.len() > 0
    &&& forall|i: int, k: int|
        0 <= i < pieces.len() && 0 <= k < pieces[i].len() ==> #[trigger] pieces[i][k] != separator
    &&& s.push(separator) == pieces.map_values(|piece: Seq<char>| piece.push(separator)).flatten()
}

/// What the last piece adds to the pieces before it.
proof fn lemma_last_piece(pieces: Seq<Seq<char>>, separator: char)
    requires
        pieces.len() > 0,
    ensures
        pieces.map_values(|piece: Seq<char>| piece.push(separator)).flatten()
            == pieces.drop_last().map_values(|piece: Seq<char>| piece.push(separator)).flatten()
            + pieces.last().push(separator),
{
    let ended = |piece: Seq<char>| piece.push(separator);
    let before = pieces.drop_last().map_values(ended);
    assert(pieces.map_values(ended) =~= before.push(pieces.last().push(separator)));
    before.lemma_flatten_push(pieces.last().push(separator));
}

/// Splitting gives the pieces between the separators, and they are all that is lost of the text.
pub proof fn lemma_split_gives_pieces(s: Seq<char>, separator: char)
    ensures
        are_pieces_of(split_on(s, separator), s, separator),
    decreases s.len(),
{
    let pieces = split_on(s, separator);
    let ended = |piece: Seq<char>| piece.push(separator);
    if s.len() == 0 {
        lemma_last_piece(pieces, separator);
        assert(pieces.drop_last().map_values(ended) =~= Seq::empty());
        assert(pieces.map_values(ended).flatten() =~= s.push(separator));
    } else {
        let before = split_on(s.drop_last(), separator);
        lemma_split_gives_pieces(s.drop_last(), separator);
        lemma_last_piece(pieces, separator);
        if s.last() == separator {
            assert(pieces.drop_last() =~= before);
            assert(pieces.map_values(ended).flatten() =~= s.push(separator));
            assert forall|i: int, k: int|
                0 <= i < pieces.len() && 0 <= k < pieces[i].len() implies #[trigger] pieces[i][k]
                != separator by {
                assert(pieces[i] == before[i]);
            }
        } else {
            lemma_last_piece(before, separator);
            assert(pieces.drop_last() =~= before.drop_last());
            let start = before.drop_last().map_values(ended).flatten();
            assert(s.drop_last().push(separator) == start + before.last().push(separator));
            assert(s.drop_last() =~= s.drop_last().push(separator).drop_last());
            assert(s.drop_last() =~= start + before.last());
            assert(s =~= s.drop_last().push(s.last()));
            assert(pieces.map_values(ended).flatten() =~= s.push(separator));
            assert forall|i: int, k: int|
                0 <= i < pieces.len() && 0 <= k < pieces[i].len() implies #[trigger] pieces[i][k]
                != separator by {
                if i < before.len() - 1 {
                    assert(pieces[i] == before[i]);
                } else if k < before.last().len() {
                    assert(pieces[i][k] == before[i][k]);
                }
            }
        }
    }
}

/// A text has no other pieces than those that splitting gives.
pub proof fn lemma_pieces_are_unique(pieces: Seq<Seq<char>>, s: Seq<char>, separator: char)
    requires
        are_pieces_of(pieces, s, separator),
    ensures
        split_on(s, separator) == pieces,
    decreases s.len(),
{
    let ended = |piece: Seq<char>| piece.push(separator);
    let last = pieces.last();
    let before = pieces.drop_last();
    let start = before.map_values(ended).flatten();
    lemma_last_piece(pieces, separator);
    assert(s =~= s.push(separator).drop_last());
    assert((start + last.push(separator)).drop_last() =~= start + last);
    assert(s == start + last);
    if last.len() == 0 {
        assert(s =~= start);
        if before.len() == 0 {
            assert(before.map_values(ended) =~= Seq::empty());
            assert(s =~= Seq::empty());
            assert(pieces =~= seq![Seq::<char>::empty()]);
        } else {
            lemma_last_piece(before, separator);
            assert(s.last() == separator);
            assert(s.drop_last().push(separator) =~= s);
            assert forall|i: int, k: int|
                0 <= i < before.len() && 0 <= k < before[i].len() implies #[trigger] before[i][k]
                != separator by {
                assert(pieces[i][k] == before[i][k]);
            }
            lemma_pieces_are_unique(before, s.drop_last(), separator);
            assert(last =~= Seq::empty());
            assert(before.push(last) =~= pieces);
        }
    } else {
        let shorter = before.push(last.drop_last());
        assert(pieces[pieces.len() - 1][last.len() - 1] != separator);
        assert(s.last() == last.last());
        lemma_last_piece(shorter, separator);
        assert(shorter.drop_last() =~= before);
        assert(s.drop_last() =~= start + last.drop_last());
        assert(s.drop_last().push(separator) =~= shorter.map_values(ended).flatten());
        assert forall|i: int, k: int|
            0 <= i < shorter.len() && 0 <= k < shorter[i].len() implies #[trigger] shorter[i][k]
            != separator by {
            assert(pieces[i][k] == shorter[i][k]);
        }
        lemma_pieces_are_unique(shorter, s.drop_last(), separator);
        assert(shorter.drop_last().push(shorter.last().push(s.last())) =~= pieces) by {
            assert(last.drop_last().push(last.last()) =~= last);
        }
    }
}

/// `part` stands in `text` from position `at` on, character for character.
pub open spec fn stands_at(text: Seq<char>, part: Seq<char>, at: int) -> bool {
    &&& 0 <= at <= text.len() - part.len()
    &&& forall|k: int| 0 <= k < part.len() ==> text[at + k] == #[trigger] part[k]
}

/// `part` stands somewhere in `text`.
pub open spec fn stands_in(text: Seq<char>, part: Seq<char>) -> bool {
    exists|at: int| stands_at(text, part, at)
}

/// A text occurs in another exactly when it stands at some position of it.
pub proof fn lemma_occurrence_is_at_a_position(text: Seq<char>, part: Seq<char>)
    ensures
        occurs(text, part) == stands_in(text, part),
{
    if occurs(text, part) {
        let at = choose|at: int| occurs_at(text, part, at);
        let found = text.subrange(at, at + part.len());
        assert forall|k: int| 0 <= k < part.len() implies text[at + k] == #[trigger] part[k] by {
            assert(found[k] == part[k]);
        }
        assert(stands_at(text, part, at));
    }
    if stands_in(text, part) {
        let at = choose|at: int| stands_at(text, part, at);
        assert(text.subrange(at, at + part.len()) =~= part) by {
            assert forall|k: int| 0 <= k < part.len() implies text.subrange(at, at + part.len())[k]
                == part[k] by {}
        }
        assert(occurs_at(text, part, at));
    }
}

/// Blank texts around a text that neither begins nor ends with whitespace are all that trimming
/// takes away.
pub proof fn lemma_trimming_keeps_the_core(before: Seq<char>, core: Seq<char>, after: Seq<char>)
    requires
        is_blank(before),
        is_blank(after),
        core.len() > 0,
        !is_whitespace_char(core[0]),
        !is_whitespace_char(core.last()),
    ensures
        trim_text(before + core + after) == core,
    decreases before.len() + after.len(),
{
    let s = before + core + after;
    if before.len() > 0 {
        let rest = before.drop_first();
        assert(is_whitespace_char(before[0]));
        assert(s.drop_first() =~= rest + core + after);
        assert forall|i: int| 0 <= i < rest.len() implies is_whitespace_char(
            #[trigger] rest[i],
        ) by {
            assert(rest[i] == before[i + 1]);
        }
        lemma_trimming_keeps_the_core(rest, core, after);
    } else {
        assert(s =~= core + after);
        assert(trim_start(s) == s);
        lemma_end_is_trimmed(core, after);
    }
}

proof fn lemma_end_is_trimmed(core: Seq<char>, after: Seq<char>)
    requires
        is_blank(after),
        core.len() > 0,
        !is_whitespace_char(core.last()),
    ensures
        trim_end(core + after) == core,
    decreases after.len(),
{
    let s = core + after;
    if after.len() > 0 {
        let rest = after.drop_last();
        assert(is_whitespace_char(after[after.len() - 1]));
        assert(s.drop_last() =~= core + rest);
        assert forall|i: int| 0 <= i < rest.len() implies is_whitespace_char(
            #[trigger] rest[i],
        ) by {
            assert(rest[i] == after[i]);
        }
        lemma_end_is_trimmed(core, rest);
    } else {
        assert(s =~= core);
    }
}

/// Trimming only takes whitespace away, at the two ends.
pub proof fn lemma_trimming_takes_only_whitespace(s: Seq<char>)
    ensures
        exists|from: int, to: int|
            {
                &&& 0 <= from <= to <= s.len()
                &&& trim_text(s) == #[trigger] s.subrange(from, to)
                &&& forall|i: int| 0 <= i < from || to <= i < s.len() ==> is_whitespace_char(
                    #[trigger] s[i],
                )
                &&& from < to ==> !is_whitespace_char(s[from]) && !is_whitespace_char(s[to - 1])
            },
{
    let from = lemma_start_trimmed_at(s);
    let middle = trim_start(s);
    let kept = lemma_end_trimmed_at(middle);
    let to = from + kept;
    assert(trim_text(s) =~= s.subrange(from, to));
    assert forall|i: int| 0 <= i < from || to <= i < s.len() implies is_whitespace_char(
        #[trigger] s[i],
    ) by {
        if i >= to {
            assert(middle[i - from] == s[i]);
        }
    }
    if from < to {
        assert(middle[0] == s[from]);
        assert(middle[kept - 1] == s[to - 1]);
    }
}

proof fn lemma_start_trimmed_at(s: Seq<char>) -> (from: int)
    ensures
        0 <= from <= s.len(),
        trim_start(s) == s.skip(from),
        forall|i: int| 0 <= i < from ==> is_whitespace_char(#[trigger] s[i]),
        from < s.len() ==> !is_whitespace_char(s[from]),
    decreases s.len(),
{
    if s.len() > 0 && is_whitespace_char(s[0]) {
        let rest = s.drop_first();
        let from = lemma_start_trimmed_at(rest);
        assert(rest.skip(from) =~= s.skip(from + 1));
        assert forall|i: int| 0 <= i < from + 1 implies is_whitespace_char(#[trigger] s[i]) by {
            if i > 0 {
                assert(rest[i - 1] == s[i]);
            }
        }
        from + 1
    } else {
        assert(s.skip(0) =~= s);
        0
    }
}

proof fn lemma_end_trimmed_at(s: Seq<char>) -> (to: int)
    ensures
        0 <= to <= s.len(),
        trim_end(s) == s.take(to),
        forall|i: int| to <= i < s.len() ==> is_whitespace_char(#[trigger] s[i]),
        to > 0 ==> !is_whitespace_char(s[to - 1]),
    decreases s.len(),
{
    if s.len() > 0 && is_whitespace_char(s.last()) {
        let rest = s.drop_last();
        let to = lemma_end_trimmed_at(rest);
        assert(rest.take(to) =~= s.take(to));
        assert forall|i: int| to <= i < s.len() implies is_whitespace_char(#[trigger] s[i]) by {
            if i < rest.len() {
                assert(rest[i] == s[i]);
            }
        }
        to
    } else {
        assert(s.take(s.len() as int) =~= s);
        s.len() as int
    }
}

/// In ASCII, spaces, tabs and line breaks are whitespace; beyond it, the next-line character and the
/// spaces and separators of Unicode are. Nothing else is.
pub proof fn lemma_whitespace_characters(c: char)
    ensures
        c as u32 <= 127 ==> (is_whitespace_char(c) <==> c == ' ' || c == '\t' || c == '\n' || c
            == '\r' || c == '\u{b}' || c == '\u{c}'),
        c as u32 > 127 ==> (is_whitespace_char(c) <==> c == '\u{85}' || c == '\u{a0}' || c
            == '\u{1680}' || '\u{2000}' <= c <= '\u{200a}' || c == '\u{2028}' || c == '\u{2029}' || c
            == '\u{202f}' || c == '\u{205f}' || c == '\u{3000}'),
{
}

/// On a single line a text keeps its length and every character, but for control characters, which
/// become spaces.
pub proof fn lemma_single_line_keeps_characters(content: Seq<char>, i: int)
    requires
        0 <= i < content.len(),
    ensures
        on_single_line(content).len() == content.len(),
        on_single_line(content)[i] == if content[i] as u32 <= 0x1f || 0x7f <= content[i] as u32
            <= 0x9f {
            ' '
        } else {
            content[i]
        },
{
}

/// The lower case of ASCII changes the letters `A` to `Z` and nothing else.
pub proof fn lemma_ascii_lower_changes_capitals(s: Seq<char>, i: int)
    requires
        0 <= i < s.len(),
    ensures
        ascii_lower(s).len() == s.len(),
        if 65 <= s[i] as u32 <= 90 {
            ascii_lower(s)[i] as u32 == s[i] as u32 + 32
        } else {
            ascii_lower(s)[i] == s[i]
        },
{
    let c = s[i];
    if 65 <= c as u32 <= 90 {
        assert(((c as u32) + 32) as char as u32 == c as u32 + 32);
    }
}

/// One text comes before another exactly when it is a proper beginning of it, or has the smaller
/// character at the first position where they differ.
pub proof fn lemma_order_of_texts(a: Seq<char>, b: Seq<char>)
    ensures
        text_before(a, b) <==> exists|k: int|
            {
                &&& 0 <= k <= a.len()
                &&& k < b.len()
                &&& #[trigger] a.take(k) == b.take(k)
                &&& k == a.len() || a[k] < b[k]
            },
    decreases a.len(),
{
    if text_before(a, b) {
        let k = lemma_first_difference(a, b);
        assert(a.take(k) == b.take(k));
    }
    if exists|k: int|
        {
            &&& 0 <= k <= a.len()
            &&& k < b.len()
            &&& #[trigger] a.take(k) == b.take(k)
            &&& k == a.len() || a[k] < b[k]
        } {
        let k = choose|k: int|
            {
                &&& 0 <= k <= a.len()
                &&& k < b.len()
                &&& #[trigger] a.take(k) == b.take(k)
                &&& k == a.len() || a[k] < b[k]
            };
        lemma_before_at(a, b, k);
    }
}

proof fn lemma_first_difference(a: Seq<char>, b: Seq<char>) -> (k: int)
    requires
        text_before(a, b),
    ensures
        0 <= k <= a.len(),
        k < b.len(),
        a.take(k) == b.take(k),
        k == a.len() || a[k] < b[k],
    decreases a.len(),
{
    if a.len() > 0 && a[0] == b[0] {
        let k = lemma_first_difference(a.drop_first(), b.drop_first());
        assert(a.take(k + 1) =~= seq![a[0]] + a.drop_first().take(k));
        assert(b.take(k + 1) =~= seq![b[0]] + b.drop_first().take(k));
        k + 1
    } else {
        assert(a.take(0) =~= b.take(0));
        0
    }
}

proof fn lemma_before_at(a: Seq<char>, b: Seq<char>, k: int)
    requires
        0 <= k <= a.len(),
        k < b.len(),
        a.take(k) == b.take(k),
        k == a.len() || a[k] < b[k],
    ensures
        text_before(a, b),
    decreases a.len(),
{
    if k > 0 {
        assert(a.take(k)[0] == b.take(k)[0]);
        assert(a.take(k)[0] == a[0] && b.take(k)[0] == b[0]);
        assert(a.drop_first().take(k - 1) =~= a.take(k).drop_first());
        assert(b.drop_first().take(k - 1) =~= b.take(k).drop_first());
        lemma_before_at(a.drop_first(), b.drop_first(), k - 1);
    }
}

/// A number in decimal is made of digits that denote it, without a needless zero in front.
pub proof fn lemma_decimal_denotes(n: nat)
    ensures
        decimal(n).len() > 0,
        forall|i: int| 0 <= i < decimal(n).len() ==> '0' <= #[trigger] decimal(n)[i] <= '9',
        digits_value(decimal(n)) == n,
        decimal(n)[0] == '0' ==> decimal(n).len() == 1,
    decreases n,
{
    let d = n % 10;
    assert(digit_char(d) as u32 == 48 + d);
    assert(is_digit(digit_char(d)));
    if n < 10 {
        let s = decimal(n);
        assert(s.drop_last() =~= Seq::empty());
        assert(digits_value(s.drop_last()) == 0);
    } else {
        lemma_decimal_denotes(n / 10);
        let s = decimal(n);
        assert(s.drop_last() =~= decimal(n / 10));
        assert(n / 10 > 0);
        assert forall|i: int| 0 <= i < s.len() implies '0' <= #[trigger] s[i] <= '9' by {
            if i < s.len() - 1 {
                assert(s[i] == decimal(n / 10)[i]);
            }
        }
        if decimal(n / 10)[0] == '0' {
            assert(decimal(n / 10).drop_last() =~= Seq::empty());
            assert(digits_value(decimal(n / 10).drop_last()) == 0);
        }
    }
}

/// Replacing changes the first occurrence of the pattern, keeps all that stands before it, and goes
/// on behind it.
pub proof fn lemma_first_occurrence_is_replaced(
    before: Seq<char>,
    pattern: Seq<char>,
    after: Seq<char>,
    with: Seq<char>,
)
    requires
        pattern.len() > 0,
        forall|at: int|
            0 <= at < before.len() ==> !pattern.is_prefix_of(
                #[trigger] (before + pattern + after).skip(at),
            ),
    ensures
        replace_text(before + pattern + after, pattern, with) == before + with + replace_text(
            after,
            pattern,
            with,
        ),
    decreases before.len(),
{
    let s = before + pattern + after;
    let n = pattern.len() as int;
    if before.len() == 0 {
        assert(s.subrange(0, n) =~= pattern);
        assert(occurs_at(s, pattern, 0));
        assert(s.skip(n) =~= after);
        assert(before + with =~= with);
    } else {
        let rest = before.drop_first();
        let shorter = rest + pattern + after;
        assert(s.drop_first() =~= shorter);
        assert(!occurs_at(s, pattern, 0)) by {
            assert(s.skip(0) =~= s);
        }
        assert forall|at: int| 0 <= at < rest.len() implies !pattern.is_prefix_of(
            #[trigger] shorter.skip(at),
        ) by {
            assert(s.skip(at + 1) =~= shorter.skip(at));
        }
        lemma_first_occurrence_is_replaced(rest, pattern, after, with);
        assert(seq![s[0]] + (rest + with + replace_text(after, pattern, with)) =~= before + with
            + replace_text(after, pattern, with));
    }
}

} // verus!
