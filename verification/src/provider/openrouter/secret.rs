//! Keeping the API key out of messages.

use vstd::prelude::*;

use crate::text::{occurs, occurs_at, replace, replace_text};

verus! {

/// `message` with every occurrence of the key replaced by a marker.
pub open spec fn redacted(message: Seq<char>, api_key: Seq<char>) -> Seq<char> {
    if api_key.len() == 0 {
        message
    } else {
        replace_text(message, api_key, "[redacted]"@)
    }
}

/// `message` with every occurrence of the key replaced by a marker, where there is a key.
pub open spec fn redacted_if_known(message: Seq<char>, api_key: Option<Seq<char>>) -> Seq<char> {
    match api_key {
        Some(api_key) => redacted(message, api_key),
        None => message,
    }
}

pub fn redact_secret(message: &str, api_key: &str) -> (r: String)
    ensures
        r@ == redacted(message@, api_key@),
{
    if api_key.unicode_len() == 0 {
        return message.to_owned();
    }
    replace(message, api_key, "[redacted]")
}

/// Laid over `text` from position `shift` on, the key agrees with it wherever both stand.
pub open spec fn agrees_at(text: Seq<char>, key: Seq<char>, shift: int) -> bool {
    forall|i: int|
        0 <= i < key.len() && 0 <= shift + i < text.len() ==> #[trigger] key[i] == text[shift + i]
}

/// The key can be mistaken for a part of `text`: it can be laid over `text`, or over an end of it,
/// so that the two agree.
pub open spec fn touches(text: Seq<char>, key: Seq<char>) -> bool {
    exists|shift: int| -key.len() < shift < text.len() && #[trigger] agrees_at(text, key, shift)
}

/// The key can be mistaken for a part of `text` that nothing stands before.
pub open spec fn touches_first(text: Seq<char>, key: Seq<char>) -> bool {
    exists|shift: int| 0 <= shift < text.len() && #[trigger] agrees_at(text, key, shift)
}

/// The key can be mistaken for a part of `text` that nothing stands behind.
pub open spec fn touches_last(text: Seq<char>, key: Seq<char>) -> bool {
    exists|shift: int|
        -key.len() < shift <= text.len() - key.len() && #[trigger] agrees_at(text, key, shift)
}

/// Between a text and a further text, neither of which holds the key, stands a text that the key
/// cannot be mistaken for: then all three together do not hold the key.
pub proof fn lemma_key_is_absent_around(
    before: Seq<char>,
    between: Seq<char>,
    after: Seq<char>,
    key: Seq<char>,
)
    requires
        key.len() > 0,
        between.len() > 0,
        !occurs(before, key),
        !occurs(after, key),
        !touches(between, key) || before.len() == 0 && !touches_first(between, key) || after.len()
            == 0 && !touches_last(between, key),
    ensures
        !occurs(before + between + after, key),
{
    let all = before + between + after;
    let k = key.len() as int;
    let start = before.len() as int;
    let end = start + between.len();
    assert forall|at: int| !occurs_at(all, key, at) by {
        if occurs_at(all, key, at) {
            let found = all.subrange(at, at + k);
            if at + k <= start {
                assert(before.subrange(at, at + k) =~= found);
                assert(occurs_at(before, key, at));
            } else if at >= end {
                assert(after.subrange(at - end, at - end + k) =~= found);
                assert(occurs_at(after, key, at - end));
            } else {
                assert forall|i: int|
                    0 <= i < k && 0 <= at - start + i < between.len() implies #[trigger] key[i]
                    == between[at - start + i] by {
                    assert(found[i] == all[at + i]);
                }
                assert(agrees_at(between, key, at - start));
            }
        }
    }
}

/// Where a replaced text begins with the end of a key that the marker cannot be mistaken for, so
/// does the text.
proof fn lemma_unmarked_prefix(text: Seq<char>, key: Seq<char>, marker: Seq<char>, from: int)
    requires
        0 <= from <= key.len(),
        key.len() > 0,
        marker.len() > 0,
        !touches(marker, key),
        occurs_at(replace_text(text, key, marker), key.skip(from), 0),
    ensures
        occurs_at(text, key.skip(from), 0),
    decreases key.len() - from,
{
    let replaced = replace_text(text, key, marker);
    let prefix = key.skip(from);
    if prefix.len() == 0 {
        assert(text.subrange(0, 0) =~= prefix);
    } else if text.len() < key.len() {
        assert(replaced == text);
    } else if occurs_at(text, key, 0) {
        assert forall|i: int| 0 <= i < key.len() && 0 <= -from + i < marker.len() implies #[trigger]
        key[i] == marker[-from + i] by {
            assert(replaced.subrange(0, prefix.len() as int)[i - from] == prefix[i - from]);
        }
        assert(agrees_at(marker, key, -from));
    } else {
        let rest = text.drop_first();
        let more = key.skip(from + 1);
        let replaced_rest = replace_text(rest, key, marker);
        assert(replaced == seq![text[0]] + replaced_rest);
        assert(replaced.subrange(0, prefix.len() as int)[0] == prefix[0]);
        assert(replaced_rest.subrange(0, more.len() as int) =~= more) by {
            assert forall|i: int| 0 <= i < more.len() implies replaced_rest[i] == more[i] by {
                assert(replaced_rest[i] == replaced[i + 1]);
                assert(replaced.subrange(0, prefix.len() as int)[i + 1] == prefix[i + 1]);
            }
        }
        lemma_unmarked_prefix(rest, key, marker, from + 1);
        assert(text.subrange(0, prefix.len() as int) =~= prefix) by {
            assert forall|i: int| 0 <= i < prefix.len() implies text[i] == prefix[i] by {
                if i > 0 {
                    assert(rest.subrange(0, more.len() as int)[i - 1] == more[i - 1]);
                }
            }
        }
    }
}

/// A redacted message does not hold the key, for every key that cannot be mistaken for a part of
/// the marker itself.
pub proof fn lemma_redacted_message_hides_key(message: Seq<char>, api_key: Seq<char>)
    requires
        api_key.len() > 0,
        !touches("[redacted]"@, api_key),
    ensures
        !occurs(redacted(message, api_key), api_key),
    decreases message.len(),
{
    reveal_strlit("[redacted]");
    let marker = "[redacted]"@;
    let k = api_key.len() as int;
    let out = redacted(message, api_key);
    if message.len() < k {
        assert(out == message);
    } else if occurs_at(message, api_key, 0) {
        let rest = message.skip(k);
        lemma_redacted_message_hides_key(rest, api_key);
        lemma_key_is_absent_around(
            Seq::<char>::empty(),
            marker,
            redacted(rest, api_key),
            api_key,
        );
        assert(Seq::<char>::empty() + marker + redacted(rest, api_key) =~= out);
    } else {
        let rest = message.drop_first();
        lemma_redacted_message_hides_key(rest, api_key);
        let tail = redacted(rest, api_key);
        assert(out == seq![message[0]] + tail);
        assert(api_key.skip(0) =~= api_key);
        assert forall|at: int| !occurs_at(out, api_key, at) by {
            if occurs_at(out, api_key, at) {
                let found = out.subrange(at, at + k);
                if at >= 1 {
                    assert(tail.subrange(at - 1, at - 1 + k) =~= found);
                    assert(occurs_at(tail, api_key, at - 1));
                } else {
                    lemma_unmarked_prefix(message, api_key, marker, 0);
                }
            }
        }
    }
}

/// A message that does not hold the key stays as it is.
pub proof fn lemma_clean_message_is_kept(message: Seq<char>, api_key: Seq<char>)
    requires
        !occurs(message, api_key),
    ensures
        redacted(message, api_key) == message,
    decreases message.len(),
{
    if api_key.len() > 0 && message.len() >= api_key.len() {
        let rest = message.drop_first();
        assert forall|at: int| !occurs_at(rest, api_key, at) by {
            if occurs_at(rest, api_key, at) {
                assert(message.subrange(at + 1, at + 1 + api_key.len()) =~= rest.subrange(
                    at,
                    at + api_key.len(),
                ));
                assert(occurs_at(message, api_key, at + 1));
            }
        }
        lemma_clean_message_is_kept(rest, api_key);
        assert(!occurs_at(message, api_key, 0));
        assert(seq![message[0]] + rest =~= message);
    }
}

} // verus!
