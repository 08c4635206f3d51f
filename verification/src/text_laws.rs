//! Where texts stand in the texts that are put together from them.

use crate::text::{
    concatenated, first_at, has_prefix, has_suffix, is_white_space, joined, occurs, occurs_at,
    same_but_case, split_at_first, text_before, trim_end, trim_start, trimmed,
};
use vstd::prelude::*;

verus! {

/// A text stands in each text that it is a part of the front or of the back of.
pub proof fn law_parts_stand_in_sums()
    ensures
        forall|front: Seq<char>, back: Seq<char>, part: Seq<char>|
            occurs(front, part) || occurs(back, part) ==> #[trigger] occurs(front + back, part),
        forall|part: Seq<char>| #[trigger] occurs(part, part),
{
    assert forall|front: Seq<char>, back: Seq<char>, part: Seq<char>|
        occurs(front, part) || occurs(back, part) implies #[trigger] occurs(
        front + back,
        part,
    ) by {
        if occurs(front, part) {
            let i = choose|i: int| occurs_at(front, part, i);
            assert((front + back).subrange(i, i + part.len()) =~= front.subrange(
                i,
                i + part.len(),
            ));
            assert(occurs_at(front + back, part, i));
        } else {
            let i = choose|i: int| occurs_at(back, part, i);
            let j = front.len() + i;
            assert((front + back).subrange(j, j + part.len()) =~= back.subrange(
                i,
                i + part.len(),
            ));
            assert(occurs_at(front + back, part, j));
        }
    }
    assert forall|part: Seq<char>| #[trigger] occurs(part, part) by {
        assert(part.subrange(0, part.len() as int) =~= part);
        assert(occurs_at(part, part, 0));
    }
}

/// What stands in a part of a text stands in the text.
pub proof fn law_parts_of_parts_stand_in_the_whole(
    whole: Seq<char>,
    part: Seq<char>,
    piece: Seq<char>,
)
    requires
        occurs(whole, part),
        occurs(part, piece),
    ensures
        occurs(whole, piece),
{
    let i = choose|i: int| occurs_at(whole, part, i);
    let j = choose|j: int| occurs_at(part, piece, j);
    assert(whole.subrange(i + j, i + j + piece.len()) =~= whole.subrange(
        i,
        i + part.len(),
    ).subrange(j, j + piece.len()));
    assert(occurs_at(whole, piece, i + j));
}

/// Each of the parts stands in the text that they are joined to.
pub proof fn law_each_part_stands_in_the_joined_text(
    parts: Seq<Seq<char>>,
    separator: Seq<char>,
    i: int,
)
    requires
        0 <= i < parts.len(),
    ensures
        occurs(joined(parts, separator), parts[i]),
    decreases parts.len(),
{
    law_parts_stand_in_sums();
    if i < parts.len() - 1 {
        law_each_part_stands_in_the_joined_text(parts.drop_last(), separator, i);
    }
}

/// Each of the parts stands in the text that they form one behind the other.
pub proof fn law_each_part_stands_in_the_whole(parts: Seq<Seq<char>>, i: int)
    requires
        0 <= i < parts.len(),
    ensures
        occurs(concatenated(parts), parts[i]),
    decreases parts.len(),
{
    law_parts_stand_in_sums();
    if i < parts.len() - 1 {
        law_each_part_stands_in_the_whole(parts.drop_last(), i);
    }
}

/// A sum of two texts starts with what the first starts with, and ends with what the
/// second ends with.
pub proof fn law_ends_of_sums()
    ensures
        forall|front: Seq<char>, back: Seq<char>, start: Seq<char>|
            has_prefix(front, start) ==> #[trigger] has_prefix(front + back, start),
        forall|front: Seq<char>, back: Seq<char>, end: Seq<char>|
            has_suffix(back, end) ==> #[trigger] has_suffix(front + back, end),
        forall|text: Seq<char>| #[trigger] has_prefix(text, text),
        forall|text: Seq<char>| #[trigger] has_suffix(text, text),
{
    assert forall|front: Seq<char>, back: Seq<char>, start: Seq<char>|
        has_prefix(front, start) implies #[trigger] has_prefix(front + back, start) by {
        assert((front + back).take(start.len() as int) =~= front.take(start.len() as int));
    }
    assert forall|front: Seq<char>, back: Seq<char>, end: Seq<char>|
        has_suffix(back, end) implies #[trigger] has_suffix(front + back, end) by {
        let whole = front + back;
        assert(whole.skip(whole.len() - end.len()) =~= back.skip(back.len() - end.len()));
    }
    assert forall|text: Seq<char>| #[trigger] has_prefix(text, text) by {
        assert(text.take(text.len() as int) =~= text);
    }
    assert forall|text: Seq<char>| #[trigger] has_suffix(text, text) by {
        assert(text.skip(0) =~= text);
    }
}

/// Texts are joined in order: those of the front, the separator, and those of the back. One
/// text alone is joined to itself.
pub proof fn law_texts_are_joined_in_order(
    front: Seq<Seq<char>>,
    back: Seq<Seq<char>>,
    separator: Seq<char>,
)
    requires
        front.len() > 0,
        back.len() > 0,
    ensures
        joined(front + back, separator) == joined(front, separator) + separator + joined(
            back,
            separator,
        ),
        back.len() == 1 ==> joined(back, separator) == back[0],
        joined(seq![], separator).len() == 0,
    decreases back.len(),
{
    let whole = front + back;
    assert(whole.drop_last() =~= front + back.drop_last());
    assert(whole.last() == back.last());
    if back.len() == 1 {
        assert(back.drop_last() =~= seq![]);
        assert(front + back.drop_last() =~= front);
    } else {
        law_texts_are_joined_in_order(front, back.drop_last(), separator);
        assert(joined(whole, separator) =~= joined(front, separator) + separator + joined(
            back,
            separator,
        ));
    }
}

/// Texts that stand one behind the other are those of the front and then those of the back.
pub proof fn law_texts_are_concatenated_in_order(front: Seq<Seq<char>>, back: Seq<Seq<char>>)
    ensures
        concatenated(front + back) == concatenated(front) + concatenated(back),
        back.len() == 1 ==> concatenated(back) == back[0],
    decreases back.len(),
{
    if back.len() == 0 {
        assert(front + back =~= front);
        assert(concatenated(front) + concatenated(back) =~= concatenated(front));
    } else {
        law_texts_are_concatenated_in_order(front, back.drop_last());
        assert((front + back).drop_last() =~= front + back.drop_last());
        assert(concatenated(front + back) =~= concatenated(front) + concatenated(back));
        if back.len() == 1 {
            assert(back.drop_last() =~= seq![]);
            assert(concatenated(back) =~= back[0]);
        }
    }
}

proof fn lemma_trim_start(s: Seq<char>)
    ensures
        trim_start(s).len() <= s.len(),
        trim_start(s) == s.skip(s.len() - trim_start(s).len()),
        forall|i: int| 0 <= i < s.len() - trim_start(s).len() ==> is_white_space(#[trigger] s[i]),
    decreases s.len(),
{
    if s.len() > 0 && is_white_space(s[0]) {
        let rest = s.drop_first();
        lemma_trim_start(rest);
        assert(trim_start(s) =~= s.skip(s.len() - trim_start(s).len()));
        assert forall|i: int| 0 <= i < s.len() - trim_start(s).len() implies is_white_space(
            #[trigger] s[i],
        ) by {
            if i > 0 {
                assert(rest[i - 1] == s[i]);
            }
        }
    } else {
        assert(s.skip(0) =~= s);
    }
}

proof fn lemma_trim_end(s: Seq<char>)
    ensures
        trim_end(s).len() <= s.len(),
        trim_end(s) == s.take(trim_end(s).len() as int),
        forall|i: int| trim_end(s).len() <= i < s.len() ==> is_white_space(#[trigger] s[i]),
    decreases s.len(),
{
    if s.len() > 0 && is_white_space(s.last()) {
        let rest = s.drop_last();
        lemma_trim_end(rest);
        assert(trim_end(s) =~= s.take(trim_end(s).len() as int));
        assert forall|i: int| trim_end(s).len() <= i < s.len() implies is_white_space(
            #[trigger] s[i],
        ) by {
            if i < s.len() - 1 {
                assert(rest[i] == s[i]);
            }
        }
    } else {
        assert(s.take(s.len() as int) =~= s);
    }
}

/// Trimming takes white space off the ends of a text and nothing else: what is left stands
/// in the text, with nothing but white space before and behind it.
pub proof fn law_trimming_takes_white_space_alone(s: Seq<char>)
    ensures
        exists|from: int|
            {
                &&& #[trigger] occurs_at(s, trimmed(s), from)
                &&& forall|i: int| 0 <= i < from ==> is_white_space(#[trigger] s[i])
                &&& forall|i: int|
                    from + trimmed(s).len() <= i < s.len() ==> is_white_space(#[trigger] s[i])
            },
{
    let middle = trim_start(s);
    lemma_trim_start(s);
    lemma_trim_end(middle);
    let from = s.len() - middle.len();
    assert(s.subrange(from, from + trimmed(s).len()) =~= trimmed(s));
    assert(occurs_at(s, trimmed(s), from));
    assert forall|i: int| from + trimmed(s).len() <= i < s.len() implies is_white_space(
        #[trigger] s[i],
    ) by {
        assert(middle[i - from] == s[i]);
    }
}

/// Two characters are the same but for case exactly when they are the same or are the
/// capital and the small form of one ASCII letter.
pub proof fn law_case_concerns_ascii_letters_alone(a: char, b: char)
    ensures
        same_but_case(seq![a], seq![b]) <==> {
            ||| a == b
            ||| 'A' as int <= a as int <= 'Z' as int && b as int == a as int + 32
            ||| 'A' as int <= b as int <= 'Z' as int && a as int == b as int + 32
        },
{
    assert(seq![a][0] == a && seq![b][0] == b);
}

/// Texts are the same but for case exactly when their fronts are and their backs are.
pub proof fn law_case_is_told_piece_by_piece(
    a: Seq<char>,
    b: Seq<char>,
    c: Seq<char>,
    d: Seq<char>,
)
    requires
        a.len() == b.len(),
    ensures
        same_but_case(a + c, b + d) <==> same_but_case(a, b) && same_but_case(c, d),
{
    let left = a + c;
    let right = b + d;
    if same_but_case(left, right) {
        assert forall|i: int|
            #![trigger a[i]]
            #![trigger b[i]]
            0 <= i < a.len() implies crate::text::ascii_lower(a[i]) == crate::text::ascii_lower(
            b[i],
        ) by {
            assert(left[i] == a[i] && right[i] == b[i]);
        }
        assert forall|i: int|
            #![trigger c[i]]
            #![trigger d[i]]
            0 <= i < c.len() implies crate::text::ascii_lower(c[i]) == crate::text::ascii_lower(
            d[i],
        ) by {
            assert(left[a.len() + i] == c[i] && right[a.len() + i] == d[i]);
        }
    }
    if same_but_case(a, b) && same_but_case(c, d) {
        assert forall|i: int|
            #![trigger left[i]]
            #![trigger right[i]]
            0 <= i < left.len() implies crate::text::ascii_lower(left[i])
            == crate::text::ascii_lower(right[i]) by {
            if i < a.len() {
                assert(left[i] == a[i] && right[i] == b[i]);
            } else {
                assert(left[i] == c[i - a.len()] && right[i] == d[i - a.len()]);
            }
        }
    }
}

/// Of two texts the one comes first that has the lower character where they first differ,
/// or that ends there.
pub proof fn law_texts_are_ordered_where_they_differ(
    front: Seq<char>,
    a: Seq<char>,
    b: Seq<char>,
)
    requires
        a.len() == 0 || b.len() == 0 || a[0] != b[0],
    ensures
        text_before(front + a, front + b) <==> b.len() > 0 && (a.len() == 0 || (a[0] as int) < (
        b[0] as int)),
    decreases front.len(),
{
    if front.len() == 0 {
        assert(front + a =~= a);
        assert(front + b =~= b);
    } else {
        let rest = front.drop_first();
        law_texts_are_ordered_where_they_differ(rest, a, b);
        assert((front + a).drop_first() =~= rest + a);
        assert((front + b).drop_first() =~= rest + b);
    }
}

/// A text is split at a separator into what stands before it and what stands behind it, and
/// these with the separator between them are the text; the separator stands nowhere before.
pub proof fn law_splitting_loses_nothing(s: Seq<char>, separator: Seq<char>)
    ensures
        split_at_first(s, separator) is Some <==> occurs(s, separator),
        split_at_first(s, separator) matches Some((before, behind)) ==> s == before + separator
            + behind && first_at(s, separator, before.len() as int),
{
    if occurs(s, separator) {
        let at = choose|at: int| occurs_at(s, separator, at);
        lemma_first_place(s, separator, at);
        let i = choose|i: int| first_at(s, separator, i);
        assert(s.subrange(i, i + separator.len()) == separator);
        assert(s =~= s.take(i) + s.subrange(i, i + separator.len()) + s.skip(i + separator.len()));
    }
}

proof fn lemma_first_place(s: Seq<char>, part: Seq<char>, i: int)
    requires
        occurs_at(s, part, i),
    ensures
        exists|j: int| first_at(s, part, j),
    decreases i,
{
    if !first_at(s, part, i) {
        let j = choose|j: int| 0 <= j < i && occurs_at(s, part, j);
        lemma_first_place(s, part, j);
    }
}

} // verus!
