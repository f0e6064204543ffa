//! The substitution engine: literal, sequential, left-to-right replacement.

use vstd::prelude::*;
use crate::text::{to_chars, to_string};

verus! {

/// An ordered list of (match, replacement) pairs, as character sequences.
pub type Pairs = Seq<(Seq<char>, Seq<char>)>;

/// Whether `pattern` occurs in `text` starting at position `at`.
pub open spec fn occurs_at(text: Seq<char>, at: int, pattern: Seq<char>) -> bool {
    &&& 0 <= at
    &&& at + pattern.len() <= text.len()
    &&& text.subrange(at, at + pattern.len()) == pattern
}

/// `text` with every non-overlapping occurrence of `pattern`, found scanning
/// from the left, replaced by `replacement`.
///
/// An empty `pattern` matches before every character and once at the end, so
/// `replacement` is inserted at each of those places.
pub open spec fn replace_all(text: Seq<char>, pattern: Seq<char>, replacement: Seq<char>) -> Seq<
    char,
>
    decreases text.len(),
{
    if pattern.len() == 0 {
        if text.len() == 0 {
            replacement
        } else {
            replacement + seq![text[0]] + replace_all(text.skip(1), pattern, replacement)
        }
    } else if occurs_at(text, 0, pattern) {
        replacement + replace_all(text.skip(pattern.len() as int), pattern, replacement)
    } else if text.len() == 0 {
        text
    } else {
        seq![text[0]] + replace_all(text.skip(1), pattern, replacement)
    }
}

/// `template` after each pair of `pairs`, in list order, has been applied to
/// the result of the pairs before it.
pub open spec fn substitute_spec(template: Seq<char>, pairs: Pairs) -> Seq<char>
    decreases pairs.len(),
{
    if pairs.len() == 0 {
        template
    } else {
        substitute_spec(replace_all(template, pairs[0].0, pairs[0].1), pairs.drop_first())
    }
}

/// The character-sequence form of a list of owned pairs.
pub open spec fn pairs_view(pairs: Seq<(String, String)>) -> Pairs {
    Seq::new(pairs.len(), |i: int| (pairs[i].0@, pairs[i].1@))
}

/// With no pairs the template comes back unchanged.
pub proof fn lemma_substitute_nothing(template: Seq<char>)
    ensures
        substitute_spec(template, Seq::empty()) == template,
{
}

/// A single pair is one replacement.
pub proof fn lemma_substitute_one(template: Seq<char>, pattern: Seq<char>, replacement: Seq<char>)
    ensures
        substitute_spec(template, seq![(pattern, replacement)]) == replace_all(
            template,
            pattern,
            replacement,
        ),
{
    let only = seq![(pattern, replacement)];
    assert(only.drop_first().len() == 0);
    assert(substitute_spec(replace_all(template, pattern, replacement), only.drop_first())
        == replace_all(template, pattern, replacement));
}

/// Substitution is sequential: applying a list of pairs is applying its
/// first part and then, to the result, the rest.
pub proof fn lemma_substitute_in_parts(template: Seq<char>, first: Pairs, second: Pairs)
    ensures
        substitute_spec(template, first + second) == substitute_spec(
            substitute_spec(template, first),
            second,
        ),
    decreases first.len(),
{
    if first.len() == 0 {
        assert(first + second =~= second);
    } else {
        let whole = first + second;
        assert(whole[0] == first[0]);
        assert(whole.drop_first() =~= first.drop_first() + second);
        lemma_substitute_in_parts(
            replace_all(template, first[0].0, first[0].1),
            first.drop_first(),
            second,
        );
    }
}

/// A text in which a non-empty pattern occurs nowhere is left as it is.
pub proof fn lemma_replace_absent(text: Seq<char>, pattern: Seq<char>, replacement: Seq<char>)
    requires
        pattern.len() > 0,
        forall|at: int| !occurs_at(text, at, pattern),
    ensures
        replace_all(text, pattern, replacement) == text,
    decreases text.len(),
{
    assert(!occurs_at(text, 0, pattern));
    if text.len() > 0 {
        let rest = text.skip(1);
        assert forall|at: int| !occurs_at(rest, at, pattern) by {
            if occurs_at(rest, at, pattern) {
                assert(rest.subrange(at, at + pattern.len()) =~= text.subrange(
                    at + 1,
                    at + 1 + pattern.len(),
                ));
                assert(occurs_at(text, at + 1, pattern));
            }
        }
        lemma_replace_absent(rest, pattern, replacement);
        assert(seq![text[0]] + rest =~= text);
    }
}

/// Replacing one character by another in a text of one character.
pub proof fn lemma_replace_single(held: char, from: char, to: char)
    ensures
        replace_all(seq![held], seq![from], seq![to]) == if held == from {
            seq![to]
        } else {
            seq![held]
        },
{
    let text = seq![held];
    let pattern = seq![from];
    let replacement = seq![to];
    if held == from {
        assert(text.subrange(0, 1) =~= pattern);
        assert(occurs_at(text, 0, pattern));
        let rest = text.skip(1);
        assert(rest.len() == 0);
        assert(!occurs_at(rest, 0, pattern));
        assert(replace_all(rest, pattern, replacement) =~= Seq::empty());
        assert(replacement + replace_all(rest, pattern, replacement) =~= replacement);
    } else {
        assert forall|at: int| !occurs_at(text, at, pattern) by {
            if occurs_at(text, at, pattern) {
                assert(text.subrange(at, at + 1)[0] == held);
            }
        }
        lemma_replace_absent(text, pattern, replacement);
    }
}

/// The order of the pairs matters: with `a` rewritten to `b` and `b` to
/// `c`, the text `a` ends as `c` when the pairs come in that order, because
/// the second pair finds what the first one wrote, and as `b` when they
/// come the other way round.
pub proof fn lemma_order_matters(a: char, b: char, c: char)
    requires
        a != b,
    ensures
        substitute_spec(seq![a], seq![(seq![a], seq![b]), (seq![b], seq![c])]) == seq![c],
        substitute_spec(seq![a], seq![(seq![b], seq![c]), (seq![a], seq![b])]) == seq![b],
        b != c ==> substitute_spec(seq![a], seq![(seq![a], seq![b]), (seq![b], seq![c])])
            != substitute_spec(seq![a], seq![(seq![b], seq![c]), (seq![a], seq![b])]),
{
    let first = (seq![a], seq![b]);
    let second = (seq![b], seq![c]);
    assert(seq![first, second] =~= seq![first] + seq![second]);
    assert(seq![second, first] =~= seq![second] + seq![first]);
    lemma_substitute_in_parts(seq![a], seq![first], seq![second]);
    lemma_substitute_in_parts(seq![a], seq![second], seq![first]);
    lemma_substitute_one(seq![a], first.0, first.1);
    lemma_substitute_one(seq![b], second.0, second.1);
    lemma_substitute_one(seq![a], second.0, second.1);
    lemma_replace_single(a, a, b);
    lemma_replace_single(b, b, c);
    lemma_replace_single(a, b, c);
    if b != c {
        assert(seq![c][0] != seq![b][0]);
    }
}

/// Tells whether `pattern` occurs in `text` at `at`.
pub fn matches_at(text: &Vec<char>, at: usize, pattern: &Vec<char>) -> (b: bool)
    ensures
        b == occurs_at(text@, at as int, pattern@),
{
    if at > text.len() || pattern.len() > text.len() - at {
        return false;
    }
    let mut k: usize = 0;
    while k < pattern.len()
        invariant
            k <= pattern.len(),
            at + pattern.len() <= text.len(),
            forall|j: int| 0 <= j < k ==> text@[at + j] == pattern@[j],
        decreases pattern.len() - k,
    {
        if text[at + k] != pattern[k] {
            assert(text@.subrange(at as int, at + pattern.len())[k as int] == text@[at + k]);
            return false;
        }
        k += 1;
    }
    assert(text@.subrange(at as int, at + pattern.len()) =~= pattern@);
    true
}

fn append_all(out: &mut Vec<char>, items: &Vec<char>)
    ensures
        final(out)@ == old(out)@ + items@,
{
    let mut k: usize = 0;
    while k < items.len()
        invariant
            k <= items.len(),
            out@ == old(out)@ + items@.take(k as int),
        decreases items.len() - k,
    {
        out.push(items[k]);
        k += 1;
        assert(out@ =~= old(out)@ + items@.take(k as int));
    }
    assert(items@.take(k as int) =~= items@);
}

/// Replaces every occurrence of `pattern` in `text` by `replacement`.
pub fn replace_chars(text: &Vec<char>, pattern: &Vec<char>, replacement: &Vec<char>) -> (out: Vec<
    char,
>)
    ensures
        out@ == replace_all(text@, pattern@, replacement@),
{
    let mut out: Vec<char> = Vec::new();
    let mut i: usize = 0;
    assert(text@.skip(0) =~= text@);
    while i < text.len()
        invariant
            i <= text.len(),
            out@ + replace_all(text@.skip(i as int), pattern@, replacement@) == replace_all(
                text@,
                pattern@,
                replacement@,
            ),
        decreases text.len() - i,
    {
        let ghost rest = text@.skip(i as int);
        let ghost before = out@;
        if pattern.len() == 0 {
            append_all(&mut out, replacement);
            out.push(text[i]);
            proof {
                assert(rest.skip(1) =~= text@.skip(i + 1));
                assert(out@ =~= before + (replacement@ + seq![rest[0]]));
                assert(out@ + replace_all(rest.skip(1), pattern@, replacement@) =~= before
                    + replace_all(rest, pattern@, replacement@));
            }
            i += 1;
        } else if matches_at(text, i, pattern) {
            append_all(&mut out, replacement);
            proof {
                assert(rest.subrange(0, pattern@.len() as int) =~= text@.subrange(
                    i as int,
                    i + pattern@.len(),
                ));
                assert(occurs_at(rest, 0, pattern@));
                assert(rest.skip(pattern@.len() as int) =~= text@.skip(i + pattern@.len()));
                assert(out@ + replace_all(rest.skip(pattern@.len() as int), pattern@, replacement@)
                    =~= before + replace_all(rest, pattern@, replacement@));
            }
            i += pattern.len();
        } else {
            out.push(text[i]);
            proof {
                assert(!occurs_at(rest, 0, pattern@)) by {
                    if occurs_at(rest, 0, pattern@) {
                        assert(rest.subrange(0, pattern@.len() as int) =~= text@.subrange(
                            i as int,
                            i + pattern@.len(),
                        ));
                    }
                }
                assert(rest.skip(1) =~= text@.skip(i + 1));
                assert(out@ =~= before + seq![rest[0]]);
                assert(out@ + replace_all(rest.skip(1), pattern@, replacement@) =~= before
                    + replace_all(rest, pattern@, replacement@));
            }
            i += 1;
        }
    }
    let ghost rest = text@.skip(i as int);
    assert(rest.len() == 0);
    if pattern.len() == 0 {
        append_all(&mut out, replacement);
    } else {
        assert(!occurs_at(rest, 0, pattern@));
        assert(out@ + rest =~= out@);
    }
    out
}

/// Applies each pair of `pairs`, in order, to `template`: every occurrence
/// of the pair's first string is replaced by its second, and the next pair
/// works on the result.
pub fn substitute(template: &str, pairs: &Vec<(String, String)>) -> (out: String)
    ensures
        out@ == substitute_spec(template@, pairs_view(pairs@)),
        pairs.len() == 0 ==> out@ == template@,
{
    let mut current = to_chars(template);
    let mut k: usize = 0;
    assert(pairs_view(pairs@).skip(0) =~= pairs_view(pairs@));
    while k < pairs.len()
        invariant
            k <= pairs.len(),
            substitute_spec(current@, pairs_view(pairs@).skip(k as int)) == substitute_spec(
                template@,
                pairs_view(pairs@),
            ),
        decreases pairs.len() - k,
    {
        let pattern = to_chars(pairs[k].0.as_str());
        let replacement = to_chars(pairs[k].1.as_str());
        let ghost rest = pairs_view(pairs@).skip(k as int);
        proof {
            assert(rest[0] == (pattern@, replacement@));
            assert(rest.drop_first() =~= pairs_view(pairs@).skip(k + 1));
        }
        current = replace_chars(&current, &pattern, &replacement);
        k += 1;
    }
    assert(current@.subrange(0, current.len() as int) =~= current@);
    to_string(&current, 0, current.len())
}

} // verus!
