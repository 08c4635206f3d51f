//! What the names and descriptions of tools keep of what they are made from.

use crate::actions::{
    action_plans, argument, arguments, last_text, law_every_variant_has_a_tool, named_text, plan,
    plans, text_in, ActionPlanError, Field, Fields, Item, ItemText, Variant,
};
use crate::naming::{
    description, doc_line, doc_lines, ends_with, glyph, glyphs, humanized, humanized_draft,
    snake_cased, snake_draft, strip_left, strip_right, Glyph,
};
use crate::text::{has_suffix, is_white_space, occurs, trim_end, trim_start, trimmed};
use crate::text_laws::{
    law_each_part_stands_in_the_joined_text, law_ends_of_sums, law_parts_stand_in_sums,
};
use vstd::prelude::*;

verus! {

/// The letters of a name in lower case, without its underscores.
pub open spec fn spelled(name: Seq<Glyph>) -> Seq<char>
    decreases name.len(),
{
    if name.len() == 0 {
        seq![]
    } else if name.last().underscore {
        spelled(name.drop_last())
    } else {
        spelled(name.drop_last()) + name.last().text
    }
}

/// A text without a character.
pub open spec fn without(s: Seq<char>, c: char) -> Seq<char> {
    s.filter(|d: char| d != c)
}

/// Whether no letter of a name is written with that character.
pub open spec fn are_free_of(name: Seq<Glyph>, c: char) -> bool {
    forall|i: int, j: int|
        #![trigger name[i].text[j]]
        0 <= i < name.len() && !name[i].underscore && 0 <= j < name[i].text.len()
            ==> name[i].text[j] != c
}

proof fn lemma_without_free(s: Seq<char>, c: char)
    requires
        forall|i: int| 0 <= i < s.len() ==> #[trigger] s[i] != c,
    ensures
        without(s, c) == s,
    decreases s.len(),
{
    reveal(Seq::filter);
    if s.len() > 0 {
        let shorter = s.drop_last();
        assert forall|i: int| 0 <= i < shorter.len() implies #[trigger] shorter[i] != c by {
            assert(shorter[i] == s[i]);
        }
        lemma_without_free(shorter, c);
        assert(s[s.len() - 1] != c);
        assert(without(s, c) =~= s);
    } else {
        assert(without(s, c) =~= s);
    }
}

proof fn lemma_without_sum(a: Seq<char>, b: Seq<char>, c: char)
    ensures
        without(a + b, c) == without(a, c) + without(b, c),
{
    Seq::filter_distributes_over_add(a, b, |d: char| d != c);
}

proof fn lemma_without_push(s: Seq<char>, c: char)
    ensures
        without(s.push(c), c) == without(s, c),
{
    reveal(Seq::filter);
    assert(s.push(c).drop_last() =~= s);
}

proof fn lemma_shorter_is_free(name: Seq<Glyph>, c: char)
    requires
        are_free_of(name, c),
        name.len() > 0,
    ensures
        are_free_of(name.drop_last(), c),
        !name.last().underscore ==> forall|j: int|
            0 <= j < name.last().text.len() ==> #[trigger] name.last().text[j] != c,
{
    let shorter = name.drop_last();
    assert forall|i: int, j: int|
        #![trigger shorter[i].text[j]]
        0 <= i < shorter.len() && !shorter[i].underscore && 0 <= j
            < shorter[i].text.len() implies shorter[i].text[j] != c by {
        assert(shorter[i] == name[i]);
        assert(name[i].text[j] != c);
    }
    if !name.last().underscore {
        assert forall|j: int| 0 <= j < name.last().text.len() implies #[trigger] name.last().text[j]
            != c by {
            assert(name[name.len() - 1].text[j] != c);
        }
    }
}

proof fn lemma_humanized_draft(name: Seq<Glyph>)
    requires
        are_free_of(name, ' '),
    ensures
        without(humanized_draft(name).out, ' ') == spelled(name),
    decreases name.len(),
{
    if name.len() == 0 {
        reveal(Seq::filter);
        assert(without(humanized_draft(name).out, ' ') =~= spelled(name));
    } else {
        let before = humanized_draft(name.drop_last()).out;
        let next = name.last();
        lemma_shorter_is_free(name, ' ');
        lemma_humanized_draft(name.drop_last());
        lemma_without_push(before, ' ');
        if !next.underscore {
            lemma_without_free(next.text, ' ');
            lemma_without_sum(before, next.text, ' ');
            lemma_without_sum(before.push(' '), next.text, ' ');
        }
    }
}

proof fn lemma_snake_letters(name: Seq<Glyph>, n: nat)
    requires
        n <= name.len(),
        are_free_of(name, '_'),
    ensures
        without(snake_draft(name, n).out, '_') == spelled(name.take(n as int)),
    decreases n,
{
    if n == 0 {
        reveal(Seq::filter);
        assert(without(snake_draft(name, n).out, '_') =~= spelled(name.take(0)));
    } else {
        let m = (n - 1) as nat;
        let before = snake_draft(name, m).out;
        let next = name[m as int];
        lemma_snake_letters(name, m);
        assert(name.take(n as int).drop_last() =~= name.take(m as int));
        lemma_without_push(before, '_');
        if !next.underscore {
            assert forall|j: int| 0 <= j < next.text.len() implies #[trigger] next.text[j]
                != '_' by {
                assert(name[m as int].text[j] != '_');
            }
            lemma_without_free(next.text, '_');
            lemma_without_sum(before, next.text, '_');
            lemma_without_sum(before.push('_'), next.text, '_');
        }
    }
}

proof fn lemma_strip_keeps_letters(s: Seq<char>)
    ensures
        without(strip_left(s), '_') == without(s, '_'),
        without(strip_right(s), '_') == without(s, '_'),
    decreases s.len(),
{
    if s.len() > 0 {
        lemma_strip_keeps_letters(s.drop_first());
        lemma_strip_keeps_letters(s.drop_last());
        if s[0] == '_' {
            assert(s =~= seq!['_'] + s.drop_first());
            lemma_without_sum(seq!['_'], s.drop_first(), '_');
            lemma_without_push(seq![], '_');
            assert(Seq::<char>::empty().push('_') =~= seq!['_']);
            reveal(Seq::filter);
            assert(without(seq![], '_') =~= seq![]);
            assert(without(seq![], '_') + without(s.drop_first(), '_') =~= without(
                s.drop_first(),
                '_',
            ));
        }
        if s.last() == '_' {
            assert(s =~= s.drop_last().push('_'));
            lemma_without_push(s.drop_last(), '_');
        }
    }
}

/// A name in snake case has all the letters of the name, in order and in lower case; only
/// underscores come and go.
pub proof fn law_snake_case_keeps_the_letters(name: Seq<Glyph>)
    requires
        are_free_of(name, '_'),
    ensures
        without(snake_cased(name), '_') == spelled(name),
{
    let draft = snake_draft(name, name.len()).out;
    lemma_snake_letters(name, name.len());
    assert(name.take(name.len() as int) =~= name);
    lemma_strip_keeps_letters(draft);
    lemma_strip_keeps_letters(strip_left(draft));
}

proof fn lemma_trim_keeps_letters(s: Seq<char>)
    requires
        forall|i: int| 0 <= i < s.len() && is_white_space(#[trigger] s[i]) ==> s[i] == ' ',
    ensures
        without(trim_start(s), ' ') == without(s, ' '),
        without(trim_end(s), ' ') == without(s, ' '),
        forall|i: int|
            0 <= i < trim_start(s).len() && is_white_space(#[trigger] trim_start(s)[i])
                ==> trim_start(s)[i] == ' ',
    decreases s.len(),
{
    if s.len() > 0 {
        let rest = s.drop_first();
        let front = s.drop_last();
        assert forall|i: int|
            0 <= i < rest.len() && is_white_space(#[trigger] rest[i]) implies rest[i] == ' ' by {
            assert(rest[i] == s[i + 1]);
        }
        assert forall|i: int|
            0 <= i < front.len() && is_white_space(#[trigger] front[i]) implies front[i] == ' ' by {
            assert(front[i] == s[i]);
        }
        lemma_trim_keeps_letters(rest);
        lemma_trim_keeps_letters(front);
        if is_white_space(s[0]) {
            assert(s =~= seq![' '] + rest);
            lemma_without_sum(seq![' '], rest, ' ');
            lemma_without_push(seq![], ' ');
            assert(Seq::<char>::empty().push(' ') =~= seq![' ']);
            reveal(Seq::filter);
            assert(without(seq![], ' ') =~= seq![]);
            assert(without(seq![], ' ') + without(rest, ' ') =~= without(rest, ' '));
        }
        if is_white_space(s.last()) {
            assert(s[s.len() - 1] == ' ');
            assert(s =~= front.push(' '));
            lemma_without_push(front, ' ');
        }
    }
}

proof fn lemma_humanized_white(name: Seq<Glyph>)
    requires
        forall|i: int, j: int|
            #![trigger name[i].text[j]]
            0 <= i < name.len() && !name[i].underscore && 0 <= j < name[i].text.len()
                ==> !is_white_space(name[i].text[j]),
    ensures
        ({
            let out = humanized_draft(name).out;
            forall|i: int| 0 <= i < out.len() && is_white_space(#[trigger] out[i]) ==> out[i] == ' '
        }),
    decreases name.len(),
{
    if name.len() > 0 {
        let shorter = name.drop_last();
        assert forall|i: int, j: int|
            #![trigger shorter[i].text[j]]
            0 <= i < shorter.len() && !shorter[i].underscore && 0 <= j
                < shorter[i].text.len() implies !is_white_space(shorter[i].text[j]) by {
            assert(shorter[i] == name[i]);
            assert(!is_white_space(name[i].text[j]));
        }
        lemma_humanized_white(shorter);
        let before = humanized_draft(shorter).out;
        let out = humanized_draft(name).out;
        let next = name.last();
        assert forall|i: int| 0 <= i < out.len() && is_white_space(#[trigger] out[i]) implies out[i]
            == ' ' by {
            if i < before.len() {
                assert(out[i] == before[i]);
            } else if !next.underscore {
                let k = out.len() - next.text.len();
                if i >= k {
                    assert(out[i] == next.text[i - k]);
                    assert(!is_white_space(name[name.len() - 1].text[i - k]));
                }
            }
        }
    }
}

/// A name as words has all the letters of the name, in order and in lower case; only spaces
/// come in, and underscores go.
pub proof fn law_words_keep_the_letters(name: Seq<Glyph>)
    requires
        forall|i: int, j: int|
            #![trigger name[i].text[j]]
            0 <= i < name.len() && !name[i].underscore && 0 <= j < name[i].text.len()
                ==> !is_white_space(name[i].text[j]),
    ensures
        without(humanized(name), ' ') == spelled(name),
{
    assert(are_free_of(name, ' ')) by {
        assert forall|i: int, j: int|
            #![trigger name[i].text[j]]
            0 <= i < name.len() && !name[i].underscore && 0 <= j
                < name[i].text.len() implies name[i].text[j] != ' ' by {
            assert(!is_white_space(name[i].text[j]));
        }
    }
    let out = humanized_draft(name).out;
    lemma_humanized_draft(name);
    lemma_humanized_white(name);
    lemma_trim_keeps_letters(out);
    lemma_trim_keeps_letters(trim_start(out));
}

/// A capital behind a small letter or a number starts a word, in words and in snake case; a
/// small letter never does.
pub proof fn law_capitals_start_words(name: Seq<Glyph>, before: Glyph, next: Glyph)
    requires
        !before.underscore,
        !before.upper,
        !next.underscore,
    ensures
        ({
            let front = name.push(before);
            let written = humanized_draft(front).out;
            &&& next.upper && (before.lower || before.numeric) && !ends_with(written, ' ')
                ==> humanized_draft(front.push(next)).out == written + seq![' '] + next.text
            &&& !next.upper ==> humanized_draft(front.push(next)).out == written + next.text
        }),
        ({
            let n = name.len() + 1;
            let whole = name.push(before).push(next);
            let written = snake_draft(whole, n).out;
            &&& next.upper && (before.lower || before.numeric) && written.len() > 0 && !ends_with(
                written,
                '_',
            ) ==> snake_draft(whole, n + 1).out == written + seq!['_'] + next.text
            &&& !next.upper ==> snake_draft(whole, n + 1).out == written + next.text
        }),
{
    let front = name.push(before);
    let whole = front.push(next);
    assert(front.drop_last() =~= name);
    assert(whole.drop_last() =~= front);
    let written = humanized_draft(front).out;
    assert(written.push(' ') =~= written + seq![' ']);
    let n = name.len() + 1;
    assert(whole[n - 1] == before);
    assert(whole[n as int] == next);
    let draft = snake_draft(whole, n).out;
    assert(draft.push('_') =~= draft + seq!['_']);
}

/// In snake case a capital before a small letter starts a word, whatever stands before it,
/// unless it starts the name; between capitals no word starts.
pub proof fn law_capitals_before_small_letters_start_words(
    name: Seq<Glyph>,
    capital: Glyph,
    next: Glyph,
)
    requires
        capital.upper,
        !capital.underscore,
    ensures
        ({
            let n = name.len();
            let whole = name.push(capital).push(next);
            let written = snake_draft(whole, n).out;
            let parted = snake_draft(whole, n + 1).out;
            &&& next.lower && written.len() > 0 && !ends_with(written, '_') ==> parted == written
                + seq!['_'] + capital.text
            &&& written.len() == 0 || ends_with(written, '_') ==> parted == written + capital.text
            &&& !next.lower && !snake_draft(whole, n).solid ==> parted == written + capital.text
        }),
{
    let n = name.len();
    let whole = name.push(capital).push(next);
    assert(whole[n as int] == capital);
    assert(whole[n as int + 1] == next);
    let written = snake_draft(whole, n).out;
    assert(written.push('_') =~= written + seq!['_']);
}

/// An ASCII letter of a name is written in lower case, and every other ASCII character as
/// it is; an underscore is one, and nothing else is.
pub proof fn law_letters_are_written_in_lower_case(c: char)
    requires
        (c as int) < 128,
    ensures
        glyph(c).text.len() == 1,
        glyph(c).underscore <==> c == '_',
        'A' as int <= c as int <= 'Z' as int ==> glyph(c).upper && glyph(c).text[0] as int
            == c as int + 32,
        !('A' as int <= c as int <= 'Z' as int) ==> !glyph(c).upper && glyph(c).text == seq![c],
        glyph(c).lower <==> 'a' as int <= c as int <= 'z' as int,
        glyph(c).numeric <==> '0' as int <= c as int <= '9' as int,
{
}

/// The lines of a doc comment are taken in order, each for itself: trimmed, and not at all
/// where they are blank.
pub proof fn law_doc_lines_are_taken_in_order(lines: Seq<Seq<char>>, more: Seq<Seq<char>>)
    ensures
        doc_lines(lines + more) == doc_lines(lines) + doc_lines(more),
        more.len() == 1 ==> doc_lines(more) == if trimmed(more[0]).len() == 0 {
            seq![]
        } else {
            seq![trimmed(more[0])]
        },
    decreases more.len(),
{
    if more.len() == 0 {
        assert(lines + more =~= lines);
        assert(doc_lines(lines) + doc_lines(more) =~= doc_lines(lines));
    } else {
        law_doc_lines_are_taken_in_order(lines, more.drop_last());
        assert((lines + more).drop_last() =~= lines + more.drop_last());
        assert(doc_lines(lines + more) =~= doc_lines(lines) + doc_lines(more));
        if more.len() == 1 {
            assert(more.drop_last() =~= seq![]);
            assert(doc_lines(more.drop_last()) =~= seq![]);
            assert(doc_lines(more) =~= if trimmed(more[0]).len() == 0 {
                seq![]
            } else {
                seq![trimmed(more[0])]
            });
        }
    }
}

/// A description that is given counts, whatever the doc comment says; else the doc comment
/// counts, with each of its lines.
pub proof fn law_given_descriptions_count_first(given: Seq<char>, lines: Seq<Seq<char>>)
    ensures
        description(Some(given), lines) == Some(given),
        description(None, lines) is Some <==> doc_lines(lines).len() > 0,
        description(None, lines) matches Some(text) ==> forall|i: int|
            0 <= i < doc_lines(lines).len() ==> occurs(text, #[trigger] doc_lines(lines)[i]),
{
    if let Some(text) = description(None, lines) {
        assert forall|i: int| 0 <= i < doc_lines(lines).len() implies occurs(
            text,
            #[trigger] doc_lines(lines)[i],
        ) by {
            law_each_part_stands_in_the_joined_text(doc_lines(lines), " "@, i);
        }
    }
}

/// An attribute that writes a string for a key gives the key that string; the first
/// attribute that gives one counts.
pub proof fn law_attributes_give_their_strings(
    attributes: Seq<Seq<Item>>,
    key: Seq<char>,
    text: Seq<char>,
    other: Seq<char>,
)
    requires
        other != key,
    ensures
        ({
            let item = Item { name: key, value: ItemText::Text(text) };
            let flag = Item { name: other, value: ItemText::Bare };
            &&& text_in(seq![item], key) == Some(text)
            &&& text_in(seq![flag, item], key) == Some(text)
            &&& named_text(seq![seq![item]] + attributes, key) == Some(text)
            &&& named_text(seq![seq![flag]] + attributes, key) == named_text(attributes, key)
        }),
        named_text(seq![], key) is None,
{
    let item = Item { name: key, value: ItemText::Text(text) };
    let flag = Item { name: other, value: ItemText::Bare };
    assert(seq![item].drop_first() =~= seq![]);
    assert(crate::actions::readable(Seq::<Item>::empty(), key) == 0);
    assert(seq![item].drop_first() == Seq::<Item>::empty());
    assert(crate::actions::readable(seq![item], key) == 1);
    assert(seq![item].take(1) =~= seq![item]);
    assert(last_text(seq![item], key) == Some(text));
    assert(seq![flag, item].drop_first() =~= seq![item]);
    assert(crate::actions::readable(seq![flag, item], key) == 2);
    assert(seq![flag, item].take(2) =~= seq![flag, item]);
    assert(last_text(seq![flag, item], key) == Some(text));
    assert(seq![flag].drop_first() =~= seq![]);
    assert(seq![flag].drop_first() == Seq::<Item>::empty());
    assert(crate::actions::readable(seq![flag], key) == 1);
    assert(seq![flag].take(1) =~= seq![flag]);
    assert(seq![flag].drop_last() =~= seq![]);
    assert(last_text(Seq::<Item>::empty(), key) is None);
    assert(seq![flag].drop_last() == Seq::<Item>::empty());
    assert(last_text(seq![flag], key) is None);
    assert((seq![seq![item]] + attributes)[0] == seq![item]);
    assert((seq![seq![flag]] + attributes)[0] == seq![flag]);
    assert((seq![seq![flag]] + attributes).drop_first() =~= attributes);
}

/// An argument fills its own field, under the name that the field is given or else the
/// field's own, with the description that it is given, or its doc comment, or its name in
/// words.
pub proof fn law_arguments_are_those_of_their_fields(field: Field)
    ensures
        argument(field).field == field.name,
        named_text(field.attributes.llm, "rename"@) matches Some(name) ==> argument(field).rename
            == name,
        named_text(field.attributes.llm, "rename"@) is None ==> argument(field).rename
            == field.name,
        named_text(field.attributes.llm, "description"@) matches Some(text) ==> argument(
            field,
        ).description == text,
        named_text(field.attributes.llm, "description"@) is None ==> match doc_line(
            field.attributes.docs,
        ) {
            Some(text) => argument(field).description == text,
            None => argument(field).description == humanized(glyphs(field.name)),
        },
{
}

/// The tool of a variant is that variant's: it is called by the name that it is given or
/// else by the variant's own in snake case, is described by what it is given, or its doc
/// comment, or its name in words, and has one argument for each field, in order.
pub proof fn law_tools_are_those_of_their_variants(enum_name: Seq<char>, variant: Variant)
    ensures
        ({
            let tool = plan(enum_name, variant);
            &&& tool.variant == variant.name
            &&& named_text(variant.attributes.llm, "name"@) matches Some(name) ==> tool.tool_name
                == name
            &&& named_text(variant.attributes.llm, "name"@) is None ==> tool.tool_name
                == snake_cased(glyphs(variant.name))
            &&& named_text(variant.attributes.llm, "description"@) matches Some(text)
                ==> tool.description == text
            &&& named_text(variant.attributes.llm, "description"@) is None ==> match doc_line(
                variant.attributes.docs,
            ) {
                Some(text) => tool.description == text,
                None => tool.description == humanized(glyphs(variant.name)) + " tool"@,
            }
            &&& occurs(tool.tool_type, enum_name)
            &&& has_suffix(tool.tool_type, variant.name)
            &&& has_suffix(tool.arguments_type, variant.name + "_args"@)
            &&& match variant.fields {
                Fields::Named(fields) => tool.arguments.len() == fields.len() && forall|i: int|
                    0 <= i < fields.len() ==> tool.arguments[i] == argument(#[trigger] fields[i]),
                _ => tool.arguments.len() == 0,
            }
        }),
{
    law_parts_stand_in_sums();
    law_ends_of_sums();
    let tool = plan(enum_name, variant);
    assert(tool.arguments_type =~= "__llm_actions_"@ + enum_name + "_"@ + (variant.name
        + "_args"@));
}

/// A type that is no enum is refused as such; of an enum the first variant with unnamed
/// fields is named, and where there is none every variant has its tool.
pub proof fn law_types_without_tools_are_refused(
    is_enum: bool,
    enum_name: Seq<char>,
    variants: Seq<Variant>,
)
    requires
        variants.len() <= usize::MAX,
    ensures
        !is_enum ==> action_plans(is_enum, enum_name, variants) == Err::<
            Seq<crate::actions::Plan>,
            ActionPlanError,
        >(ActionPlanError::NotAnEnum),
        is_enum && (forall|i: int|
            0 <= i < variants.len() ==> !((#[trigger] variants[i]).fields is Unnamed))
            ==> action_plans(is_enum, enum_name, variants) is Ok,
        is_enum ==> (action_plans(is_enum, enum_name, variants) matches Err(error) ==> {
            &&& error matches ActionPlanError::UnnamedFields(index)
            &&& index < variants.len()
            &&& variants[index as int].fields is Unnamed
            &&& forall|i: int|
                0 <= i < index ==> !((#[trigger] variants[i]).fields is Unnamed)
        }),
{
    law_every_variant_has_a_tool(enum_name, variants);
    lemma_first_unnamed(enum_name, variants);
}

proof fn lemma_first_unnamed(enum_name: Seq<char>, variants: Seq<Variant>)
    requires
        variants.len() <= usize::MAX,
    ensures
        plans(enum_name, variants) matches Err(error) ==> {
            &&& error matches ActionPlanError::UnnamedFields(index)
            &&& index < variants.len()
            &&& variants[index as int].fields is Unnamed
            &&& forall|i: int|
                0 <= i < index ==> !((#[trigger] variants[i]).fields is Unnamed)
        },
    decreases variants.len(),
{
    if variants.len() > 0 {
        let before = variants.drop_last();
        lemma_first_unnamed(enum_name, before);
        law_every_variant_has_a_tool(enum_name, before);
        if let Err(error) = plans(enum_name, variants) {
            if let ActionPlanError::UnnamedFields(index) = error {
                assert forall|i: int| 0 <= i < index implies !((
                #[trigger] variants[i]).fields is Unnamed) by {
                    assert(before[i] == variants[i]);
                }
                if index < before.len() {
                    assert(before[index as int] == variants[index as int]);
                }
            }
        }
    }
}

} // verus!
