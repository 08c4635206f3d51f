//! Names and descriptions of tools, made from the names of what they stand for.

use crate::text::{chars_of, join, joined, trim, trimmed};
use vstd::prelude::*;

verus! {

/// Whether a character has Unicode's `Uppercase` property.
pub uninterp spec fn unicode_uppercase(c: char) -> bool;

/// Whether a character has Unicode's `Lowercase` property.
pub uninterp spec fn unicode_lowercase(c: char) -> bool;

/// Whether a character is one of Unicode's numbers.
pub uninterp spec fn unicode_numeric(c: char) -> bool;

/// What a character is in lower case.
pub uninterp spec fn unicode_lowered(c: char) -> Seq<char>;

/// By `char::is_uppercase`: it rests on the character alone.
#[verifier::external_body]
fn uppercase(c: char) -> (r: bool)
    ensures
        r == unicode_uppercase(c),
{
    c.is_uppercase()
}

/// By `char::is_lowercase`: it rests on the character alone.
#[verifier::external_body]
fn lowercase(c: char) -> (r: bool)
    ensures
        r == unicode_lowercase(c),
{
    c.is_lowercase()
}

/// By `char::is_numeric`: it rests on the character alone.
#[verifier::external_body]
fn numeric(c: char) -> (r: bool)
    ensures
        r == unicode_numeric(c),
{
    c.is_numeric()
}

/// By `char::to_lowercase`: the characters that it gives rest on the character alone.
#[verifier::external_body]
fn lowered(c: char) -> (r: String)
    ensures
        r@ == unicode_lowered(c),
{
    c.to_lowercase().collect()
}

/// A character of a name, with what is known of it.
#[derive(Debug, PartialEq, Eq)]
pub struct Letter {
    /// The character in lower case.
    pub text: String,
    pub underscore: bool,
    pub upper: bool,
    pub lower: bool,
    pub numeric: bool,
}

/// What a [`Letter`] holds.
#[verifier::ext_equal]
pub struct Glyph {
    pub text: Seq<char>,
    pub underscore: bool,
    pub upper: bool,
    pub lower: bool,
    pub numeric: bool,
}

impl DeepView for Letter {
    type V = Glyph;

    open spec fn deep_view(&self) -> Glyph {
        Glyph {
            text: self.text@,
            underscore: self.underscore,
            upper: self.upper,
            lower: self.lower,
            numeric: self.numeric,
        }
    }
}

pub open spec fn is_ascii(c: char) -> bool {
    (c as int) < 128
}

pub open spec fn is_upper(c: char) -> bool {
    if is_ascii(c) {
        'A' as int <= c as int <= 'Z' as int
    } else {
        unicode_uppercase(c)
    }
}

/// What is known of a character of a name.
pub open spec fn glyph(c: char) -> Glyph {
    if is_ascii(c) {
        Glyph {
            text: seq![
                if is_upper(c) {
                    (c as int + 32) as char
                } else {
                    c
                },
            ],
            underscore: c == '_',
            upper: is_upper(c),
            lower: 'a' as int <= c as int <= 'z' as int,
            numeric: '0' as int <= c as int <= '9' as int,
        }
    } else {
        Glyph {
            text: if is_upper(c) {
                unicode_lowered(c)
            } else {
                seq![c]
            },
            underscore: false,
            upper: is_upper(c),
            lower: unicode_lowercase(c),
            numeric: unicode_numeric(c),
        }
    }
}

/// What is known of the characters of a name.
pub open spec fn glyphs(name: Seq<char>) -> Seq<Glyph> {
    Seq::new(name.len(), |i: int| glyph(name[i]))
}

fn ascii_code(c: char) -> (r: u32)
    ensures
        r == c as int,
{
    c as u32
}

fn letter(name: &str, chars: &Vec<char>, i: usize) -> (r: Letter)
    requires
        chars@ == name@,
        i < chars.len(),
    ensures
        r.deep_view() == glyph(name@[i as int]),
{
    let c: char = chars[i];
    let code: u32 = ascii_code(c);
    let itself = name.substring_char(i, i + 1);
    assert(itself@ =~= seq![c]);
    if code < 128 {
        let upper = 0x41 <= code && code <= 0x5a;
        let text = if upper {
            let at: usize = (code - 0x41) as usize;
            proof {
                reveal_strlit("abcdefghijklmnopqrstuvwxyz");
            }
            let small = "abcdefghijklmnopqrstuvwxyz".substring_char(at, at + 1);
            assert(small@ =~= seq![(c as int + 32) as char]);
            small.to_string()
        } else {
            itself.to_string()
        };
        Letter {
            text,
            underscore: c == '_',
            upper,
            lower: 0x61 <= code && code <= 0x7a,
            numeric: 0x30 <= code && code <= 0x39,
        }
    } else {
        let upper = uppercase(c);
        let text = if upper {
            lowered(c)
        } else {
            itself.to_string()
        };
        Letter { text, underscore: false, upper, lower: lowercase(c), numeric: numeric(c) }
    }
}

fn letters_of(name: &str) -> (r: Vec<Letter>)
    ensures
        r.deep_view() == glyphs(name@),
{
    let chars = chars_of(name);
    let mut letters: Vec<Letter> = Vec::new();
    let mut i: usize = 0;
    while i < chars.len()
        invariant
            chars@ == name@,
            i <= chars.len(),
            letters.deep_view() == glyphs(name@).take(i as int),
        decreases chars.len() - i,
    {
        let next = letter(name, &chars, i);
        let ghost before = letters.deep_view();
        letters.push(next);
        assert(letters.deep_view() =~= before.push(next.deep_view()));
        assert(letters.deep_view() =~= glyphs(name@).take(i + 1));
        i = i + 1;
    }
    assert(letters.deep_view() =~= glyphs(name@));
    letters
}

/// A text on its way, and whether the last character was small or a number.
#[verifier::ext_equal]
pub struct Draft {
    pub out: Seq<char>,
    pub solid: bool,
}

/// Whether a text ends with a character.
pub open spec fn ends_with(s: Seq<char>, c: char) -> bool {
    s.len() > 0 && s.last() == c
}

/// A name as words: an underscore is a space, and a capital behind a small letter or a
/// number starts a word.
pub open spec fn humanized_draft(name: Seq<Glyph>) -> Draft
    decreases name.len(),
{
    if name.len() == 0 {
        Draft { out: seq![], solid: false }
    } else {
        let before = humanized_draft(name.drop_last());
        let next = name.last();
        if next.underscore {
            Draft { out: before.out.push(' '), solid: false }
        } else if next.upper {
            let spaced = if before.solid && !ends_with(before.out, ' ') {
                before.out.push(' ')
            } else {
                before.out
            };
            Draft { out: spaced + next.text, solid: false }
        } else {
            Draft { out: before.out + next.text, solid: next.lower || next.numeric }
        }
    }
}

/// A name as words.
pub open spec fn humanized(name: Seq<Glyph>) -> Seq<char> {
    trimmed(humanized_draft(name).out)
}

/// Writes a name as words, given what is known of its characters.
pub fn humanize_letters(name: &Vec<Letter>) -> (r: String)
    ensures
        r@ == humanized(name.deep_view()),
{
    let ghost all = name.deep_view();
    let mut out = String::new();
    let mut solid = false;
    let mut i: usize = 0;
    assert(all.take(0) =~= seq![]);
    assert(out@ =~= seq![]);
    proof {
        reveal_strlit(" ");
    }
    while i < name.len()
        invariant
            i <= name.len(),
            all == name.deep_view(),
            out@ == humanized_draft(all.take(i as int)).out,
            solid == humanized_draft(all.take(i as int)).solid,
            " "@ == seq![' '],
        decreases name.len() - i,
    {
        let next = &name[i];
        assert(all.take(i + 1).drop_last() =~= all.take(i as int));
        assert(all.take(i + 1).last() == next.deep_view());
        let ghost before = out@;
        if next.underscore {
            out.append(" ");
            assert(out@ =~= before.push(' '));
            solid = false;
        } else if next.upper {
            if solid && !text_ends_with(out.as_str(), ' ') {
                out.append(" ");
                assert(out@ =~= before.push(' '));
            }
            out.append(next.text.as_str());
            solid = false;
        } else {
            out.append(next.text.as_str());
            solid = next.lower || next.numeric;
        }
        i = i + 1;
    }
    assert(all.take(all.len() as int) =~= all);
    trim(out.as_str()).to_string()
}

fn text_ends_with(text: &str, c: char) -> (r: bool)
    ensures
        r == ends_with(text@, c),
{
    let n: usize = text.unicode_len();
    n > 0 && text.get_char(n - 1) == c
}

/// Writes a name as words.
pub fn humanize_ident(name: &str) -> (r: String)
    ensures
        r@ == humanized(glyphs(name@)),
{
    humanize_letters(&letters_of(name))
}

/// The first `n` characters of a name in snake case: a capital behind a small letter or a
/// number, or before a small letter, starts a word, unless it starts the name.
pub open spec fn snake_draft(name: Seq<Glyph>, n: nat) -> Draft
    decreases n,
{
    if n == 0 {
        Draft { out: seq![], solid: false }
    } else {
        let before = snake_draft(name, (n - 1) as nat);
        let next = name[n - 1];
        if next.underscore {
            Draft {
                out: if ends_with(before.out, '_') {
                    before.out
                } else {
                    before.out.push('_')
                },
                solid: false,
            }
        } else if next.upper {
            let small_next = n < name.len() && name[n as int].lower;
            let parted = if before.out.len() > 0 && (before.solid || small_next) && !ends_with(
                before.out,
                '_',
            ) {
                before.out.push('_')
            } else {
                before.out
            };
            Draft { out: parted + next.text, solid: false }
        } else {
            Draft { out: before.out + next.text, solid: next.lower || next.numeric }
        }
    }
}

/// A text without the underscores it starts with.
pub open spec fn strip_left(s: Seq<char>) -> Seq<char>
    decreases s.len(),
{
    if s.len() > 0 && s[0] == '_' {
        strip_left(s.drop_first())
    } else {
        s
    }
}

/// A text without the underscores it ends with.
pub open spec fn strip_right(s: Seq<char>) -> Seq<char>
    decreases s.len(),
{
    if s.len() > 0 && s.last() == '_' {
        strip_right(s.drop_last())
    } else {
        s
    }
}

/// A name in snake case.
pub open spec fn snake_cased(name: Seq<Glyph>) -> Seq<char> {
    strip_right(strip_left(snake_draft(name, name.len()).out))
}

fn trim_underscores<'a>(text: &'a str) -> (r: &'a str)
    ensures
        r@ == strip_right(strip_left(text@)),
{
    let chars = chars_of(text);
    let mut start: usize = 0;
    assert(text@.skip(0) =~= text@);
    while start < chars.len() && chars[start] == '_'
        invariant
            chars@ == text@,
            start <= chars.len(),
            strip_left(text@) == strip_left(text@.skip(start as int)),
        decreases chars.len() - start,
    {
        assert(text@.skip(start as int).drop_first() =~= text@.skip(start + 1));
        start = start + 1;
    }
    let ghost rest = text@.skip(start as int);
    let mut end: usize = chars.len();
    assert(text@.subrange(start as int, end as int) =~= rest);
    while start < end && chars[end - 1] == '_'
        invariant
            chars@ == text@,
            start <= end <= chars.len(),
            strip_right(rest) == strip_right(text@.subrange(start as int, end as int)),
        decreases end - start,
    {
        assert(text@.subrange(start as int, end as int).drop_last() =~= text@.subrange(
            start as int,
            end - 1,
        ));
        end = end - 1;
    }
    text.substring_char(start, end)
}

/// Writes a name in snake case, given what is known of its characters.
pub fn snake_case_letters(name: &Vec<Letter>) -> (r: String)
    ensures
        r@ == snake_cased(name.deep_view()),
{
    let ghost all = name.deep_view();
    let mut out = String::new();
    let mut solid = false;
    let mut i: usize = 0;
    assert(out@ =~= seq![]);
    proof {
        reveal_strlit("_");
    }
    while i < name.len()
        invariant
            i <= name.len(),
            all == name.deep_view(),
            out@ == snake_draft(all, i as nat).out,
            solid == snake_draft(all, i as nat).solid,
            "_"@ == seq!['_'],
        decreases name.len() - i,
    {
        let next = &name[i];
        assert(all[i as int] == next.deep_view());
        let ghost before = out@;
        if next.underscore {
            if !text_ends_with(out.as_str(), '_') {
                out.append("_");
                assert(out@ =~= before.push('_'));
            }
            solid = false;
        } else if next.upper {
            let small_next = i + 1 < name.len() && name[i + 1].lower;
            if out.as_str().unicode_len() > 0 && (solid || small_next) && !text_ends_with(
                out.as_str(),
                '_',
            ) {
                out.append("_");
                assert(out@ =~= before.push('_'));
            }
            out.append(next.text.as_str());
            solid = false;
        } else {
            out.append(next.text.as_str());
            solid = next.lower || next.numeric;
        }
        i = i + 1;
    }
    trim_underscores(out.as_str()).to_string()
}

/// Writes a name in snake case.
pub fn to_snake_case(name: &str) -> (r: String)
    ensures
        r@ == snake_cased(glyphs(name@)),
{
    snake_case_letters(&letters_of(name))
}

/// Whether a name is made of ASCII characters.
pub open spec fn all_ascii(name: Seq<char>) -> bool {
    forall|i: int| 0 <= i < name.len() ==> is_ascii(#[trigger] name[i])
}

/// Whether a text has no capitals, and no two underscores side by side.
pub open spec fn is_plain(s: Seq<char>) -> bool {
    &&& forall|i: int| 0 <= i < s.len() ==> is_ascii(#[trigger] s[i]) && !is_upper(s[i])
    &&& forall|i: int, j: int|
        #![trigger s[i], s[j]]
        0 <= i && j == i + 1 && j < s.len() ==> s[i] != '_' || s[j] != '_'
}

proof fn lemma_plain_push(s: Seq<char>, c: char)
    requires
        is_plain(s),
        is_ascii(c),
        !is_upper(c),
        c == '_' ==> !ends_with(s, '_'),
    ensures
        is_plain(s.push(c)),
{
}

proof fn lemma_snake_draft(name: Seq<char>, n: nat)
    requires
        all_ascii(name),
        n <= name.len(),
    ensures
        is_plain(snake_draft(glyphs(name), n).out),
    decreases n,
{
    if n > 0 {
        lemma_snake_draft(name, (n - 1) as nat);
        let all = glyphs(name);
        let before = snake_draft(all, (n - 1) as nat).out;
        let c = name[n - 1];
        let next = all[n - 1];
        assert(next == glyph(c));
        assert(is_ascii(c));
        if next.underscore {
            if !ends_with(before, '_') {
                lemma_plain_push(before, '_');
            }
        } else {
            let small = next.text[0];
            let parted = if next.upper && before.len() > 0 && (snake_draft(
                all,
                (n - 1) as nat,
            ).solid || (n < all.len() && all[n as int].lower)) && !ends_with(before, '_') {
                before.push('_')
            } else {
                before
            };
            if parted != before {
                lemma_plain_push(before, '_');
            }
            assert(small != '_' && is_ascii(small) && !is_upper(small));
            lemma_plain_push(parted, small);
            assert(parted + next.text =~= parted.push(small));
        }
    }
}

proof fn lemma_strip_left(s: Seq<char>)
    ensures
        strip_left(s).len() > 0 ==> strip_left(s)[0] != '_',
        strip_left(s).len() <= s.len(),
        strip_left(s) == s.skip(s.len() - strip_left(s).len()),
    decreases s.len(),
{
    if s.len() > 0 && s[0] == '_' {
        let rest = s.drop_first();
        lemma_strip_left(rest);
        assert(rest.skip(rest.len() - strip_left(rest).len()) =~= s.skip(
            s.len() - strip_left(rest).len(),
        ));
    } else {
        assert(s.skip(0) =~= s);
    }
}

proof fn lemma_strip_right(s: Seq<char>)
    ensures
        strip_right(s).len() > 0 ==> strip_right(s).last() != '_',
        strip_right(s).len() <= s.len(),
        strip_right(s) == s.take(strip_right(s).len() as int),
    decreases s.len(),
{
    if s.len() > 0 && s.last() == '_' {
        let rest = s.drop_last();
        lemma_strip_right(rest);
        assert(rest.take(strip_right(rest).len() as int) =~= s.take(
            strip_right(rest).len() as int,
        ));
    } else {
        assert(s.take(s.len() as int) =~= s);
    }
}

/// A name of ASCII characters in snake case has no capitals, no two underscores side by
/// side, and none at either end.
pub proof fn law_snake_case_shape(name: Seq<char>)
    requires
        all_ascii(name),
    ensures
        is_plain(snake_cased(glyphs(name))),
        snake_cased(glyphs(name)).len() > 0 ==> snake_cased(glyphs(name))[0] != '_' && snake_cased(
            glyphs(name),
        ).last() != '_',
{
    let all = glyphs(name);
    let out = snake_draft(all, all.len()).out;
    lemma_snake_draft(name, name.len());
    lemma_strip_left(out);
    let left = strip_left(out);
    lemma_strip_right(left);
    let r = snake_cased(all);
    let cut = out.len() - left.len();
    assert forall|i: int| 0 <= i < r.len() implies r[i] == #[trigger] out[i + cut] by {}
    assert forall|i: int| 0 <= i < r.len() implies is_ascii(#[trigger] r[i]) && !is_upper(r[i]) by {
        assert(r[i] == out[i + cut]);
    }
    assert forall|i: int, j: int|
        #![trigger r[i], r[j]]
        0 <= i && j == i + 1 && j < r.len() implies r[i] != '_' || r[j] != '_' by {
        assert(r[i] == out[i + cut]);
        assert(r[j] == out[j + cut]);
    }
}

/// The lines of a doc comment, trimmed, those of them that are not blank.
pub open spec fn doc_lines(lines: Seq<Seq<char>>) -> Seq<Seq<char>>
    decreases lines.len(),
{
    if lines.len() == 0 {
        seq![]
    } else if trimmed(lines.last()).len() == 0 {
        doc_lines(lines.drop_last())
    } else {
        doc_lines(lines.drop_last()).push(trimmed(lines.last()))
    }
}

/// A doc comment as one line, if it says anything.
pub open spec fn doc_line(lines: Seq<Seq<char>>) -> Option<Seq<char>> {
    if doc_lines(lines).len() == 0 {
        None
    } else {
        Some(joined(doc_lines(lines), " "@))
    }
}

/// Writes a doc comment as one line, if it says anything.
pub fn doc_string(lines: &[String]) -> (r: Option<String>)
    ensures
        r.deep_view() == doc_line(lines.deep_view()),
{
    let ghost all = lines.deep_view();
    let mut docs: Vec<String> = Vec::new();
    let mut i: usize = 0;
    assert(all.take(0) =~= seq![]);
    assert(docs.deep_view() =~= seq![]);
    while i < lines.len()
        invariant
            i <= lines.len(),
            all == lines.deep_view(),
            docs.deep_view() == doc_lines(all.take(i as int)),
        decreases lines.len() - i,
    {
        assert(all.take(i + 1).drop_last() =~= all.take(i as int));
        assert(all.take(i + 1).last() == lines@[i as int]@);
        let line = trim(lines[i].as_str());
        if line.unicode_len() > 0 {
            let ghost before = docs.deep_view();
            docs.push(line.to_string());
            assert(docs.deep_view() =~= before.push(line@));
        }
        i = i + 1;
    }
    assert(all.take(all.len() as int) =~= all);
    assert(docs.deep_view().len() == docs.len());
    if docs.len() == 0 {
        None
    } else {
        Some(join(docs.as_slice(), " "))
    }
}

/// What something is described by: what it is given, or its doc comment.
pub open spec fn description(given: Option<Seq<char>>, lines: Seq<Seq<char>>) -> Option<Seq<char>> {
    match given {
        Some(text) => Some(text),
        None => doc_line(lines),
    }
}

/// What something is described by: what it is given, or its doc comment.
pub fn llm_description(given: Option<String>, lines: &[String]) -> (r: Option<String>)
    ensures
        r.deep_view() == description(given.deep_view(), lines.deep_view()),
{
    match given {
        Some(text) => Some(text),
        None => doc_string(lines),
    }
}

/// The name of the tool for a variant: the one it is given, or the variant's in snake
/// case.
pub fn tool_name(given: Option<String>, variant: &str) -> (r: String)
    ensures
        r@ == match given {
            Some(name) => name@,
            None => snake_cased(glyphs(variant@)),
        },
{
    match given {
        Some(name) => name,
        None => to_snake_case(variant),
    }
}

/// The description of the tool for a variant, made from the variant's name where there is
/// no other.
pub fn tool_description(given: Option<String>, lines: &[String], variant: &str) -> (r: String)
    ensures
        r@ == match description(given.deep_view(), lines.deep_view()) {
            Some(text) => text,
            None => humanized(glyphs(variant@)) + " tool"@,
        },
{
    match llm_description(given, lines) {
        Some(text) => text,
        None => {
            let mut text = humanize_ident(variant);
            text.append(" tool");
            text
        },
    }
}

/// The description of a field, made from the field's name where there is no other.
pub fn field_description(given: Option<String>, lines: &[String], field: &str) -> (r: String)
    ensures
        r@ == match description(given.deep_view(), lines.deep_view()) {
            Some(text) => text,
            None => humanized(glyphs(field@)),
        },
{
    match llm_description(given, lines) {
        Some(text) => text,
        None => humanize_ident(field),
    }
}

} // verus!
