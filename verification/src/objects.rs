//! The JSON objects that stand in the text of a reply.

use crate::text::{chars_of, has_prefix, has_suffix, strip_prefix, strip_suffix, trim, trimmed};
use vstd::prelude::*;

verus! {

/// A reply without the white space around it and without the code fence around that.
pub open spec fn unfenced(s: Seq<char>) -> Seq<char> {
    let t = trimmed(s);
    let opened = if has_prefix(t, "```json"@) {
        t.skip("```json"@.len() as int)
    } else if has_prefix(t, "```"@) {
        t.skip("```"@.len() as int)
    } else {
        t
    };
    let closed = if has_suffix(opened, "```"@) {
        opened.take(opened.len() - "```"@.len())
    } else {
        opened
    };
    trimmed(closed)
}

/// Takes the white space and the code fence off a reply.
pub fn strip_code_fences(output: &str) -> (r: String)
    ensures
        r@ == unfenced(output@),
{
    let outer = trim(output);
    let opened = match strip_prefix(outer, "```json") {
        Some(rest) => rest,
        None => match strip_prefix(outer, "```") {
            Some(rest) => rest,
            None => outer,
        },
    };
    let closed = match strip_suffix(opened, "```") {
        Some(rest) => rest,
        None => opened,
    };
    trim(closed).to_string()
}

/// How the next character of a text is read.
#[derive(Debug, Clone, Copy, PartialEq, Eq, Structural)]
pub enum Lex {
    /// Outside any string.
    Plain,
    /// Inside a string.
    Quoted,
    /// Inside a string, behind a backslash.
    Escaped,
}

/// How a character behind `s` is read.
pub open spec fn lex(s: Seq<char>) -> Lex
    decreases s.len(),
{
    if s.len() == 0 {
        Lex::Plain
    } else {
        match lex(s.drop_last()) {
            Lex::Plain => if s.last() == '"' {
                Lex::Quoted
            } else {
                Lex::Plain
            },
            Lex::Quoted => if s.last() == '\\' {
                Lex::Escaped
            } else if s.last() == '"' {
                Lex::Plain
            } else {
                Lex::Quoted
            },
            Lex::Escaped => Lex::Quoted,
        }
    }
}

/// How many braces are open behind `s`. Braces in strings do not count, nor does a
/// closing brace where none is open.
pub open spec fn depth(s: Seq<char>) -> nat
    decreases s.len(),
{
    if s.len() == 0 {
        0
    } else {
        let before = depth(s.drop_last());
        if lex(s.drop_last()) == Lex::Plain && s.last() == '{' {
            before + 1
        } else if lex(s.drop_last()) == Lex::Plain && s.last() == '}' && before > 0 {
            (before - 1) as nat
        } else {
            before
        }
    }
}

/// Where the outermost brace that is open behind `s` stands.
pub open spec fn object_start(s: Seq<char>) -> int
    decreases s.len(),
{
    if s.len() == 0 {
        0
    } else if depth(s.drop_last()) == 0 && depth(s) == 1 {
        s.len() - 1
    } else {
        object_start(s.drop_last())
    }
}

/// The texts from an outermost opening brace to the brace that closes it, in order.
pub open spec fn objects(s: Seq<char>) -> Seq<Seq<char>>
    decreases s.len(),
{
    if s.len() == 0 {
        seq![]
    } else if depth(s.drop_last()) == 1 && depth(s) == 0 {
        objects(s.drop_last()).push(s.skip(object_start(s.drop_last())))
    } else {
        objects(s.drop_last())
    }
}

/// What is known of the outermost brace that is open behind the first `n` characters.
proof fn lemma_object_start(s: Seq<char>, n: int)
    requires
        0 <= n <= s.len(),
        depth(s.take(n)) > 0,
    ensures
        ({
            let a = object_start(s.take(n));
            &&& 0 <= a < n
            &&& s[a] == '{'
            &&& lex(s.take(a)) == Lex::Plain
            &&& depth(s.take(a)) == 0
            &&& forall|k: int| a < k <= n ==> depth(#[trigger] s.take(k)) > 0
        }),
    decreases n,
{
    if n > 0 {
        assert(s.take(n).drop_last() =~= s.take(n - 1));
        if depth(s.take(n - 1)) == 0 {
            assert(s.take(n).last() == s[n - 1]);
            assert forall|k: int| n - 1 < k <= n implies depth(#[trigger] s.take(k)) > 0 by {}
        } else {
            lemma_object_start(s, n - 1);
            let a = object_start(s.take(n - 1));
            assert forall|k: int| a < k <= n implies depth(#[trigger] s.take(k)) > 0 by {
                if k < n {
                    assert(depth(s.take(k)) > 0);
                }
            }
        }
    }
}

/// The texts from an outermost opening brace to the brace that closes it, in order.
pub fn extract_json_objects<'a>(output: &'a str) -> (r: Vec<&'a str>)
    ensures
        r.deep_view() == objects(output@),
{
    let chars = chars_of(output);
    let mut found: Vec<&'a str> = Vec::new();
    let mut open: usize = 0;
    let mut start: usize = 0;
    let mut reading = Lex::Plain;
    let mut i: usize = 0;
    assert(output@.take(0) =~= seq![]);
    assert(found.deep_view() =~= seq![]);
    while i < chars.len()
        invariant
            chars@ == output@,
            i <= chars.len(),
            open <= i,
            reading == lex(output@.take(i as int)),
            open == depth(output@.take(i as int)),
            open > 0 ==> start == object_start(output@.take(i as int)),
            found.deep_view() == objects(output@.take(i as int)),
        decreases chars.len() - i,
    {
        let c: char = chars[i];
        let ghost before = output@.take(i as int);
        let ghost after = output@.take(i + 1);
        assert(after.drop_last() =~= before);
        assert(after.last() == c);
        match reading {
            Lex::Escaped => {
                reading = Lex::Quoted;
            },
            Lex::Quoted => {
                if c == '\\' {
                    reading = Lex::Escaped;
                } else if c == '"' {
                    reading = Lex::Plain;
                }
            },
            Lex::Plain => {
                if c == '"' {
                    reading = Lex::Quoted;
                } else if c == '{' {
                    if open == 0 {
                        start = i;
                    }
                    open = open + 1;
                } else if c == '}' {
                    if open > 0 {
                        if open == 1 {
                            proof {
                                lemma_object_start(output@, i as int);
                                assert(output@.subrange(start as int, i + 1) =~= after.skip(
                                    start as int,
                                ));
                            }
                            let ghost old_found = found.deep_view();
                            found.push(output.substring_char(start, i + 1));
                            assert(found.deep_view() =~= old_found.push(after.skip(start as int)));
                        }
                        open = open - 1;
                    }
                }
            },
        }
        i = i + 1;
    }
    assert(output@.take(output@.len() as int) =~= output@);
    found
}

/// A text from an opening brace to the brace that closes it, with nothing in front.
pub open spec fn is_object(s: Seq<char>) -> bool {
    &&& s.len() >= 2
    &&& s[0] == '{'
    &&& s.last() == '}'
    &&& depth(s) == 0
    &&& forall|k: int| 0 < k < s.len() ==> depth(#[trigger] s.take(k)) > 0
}

/// Reading on from a place where no brace and no string is open is reading afresh.
proof fn lemma_read_afresh(s: Seq<char>, a: int, k: int)
    requires
        0 <= a <= a + k <= s.len(),
        0 <= k,
        lex(s.take(a)) == Lex::Plain,
        depth(s.take(a)) == 0,
    ensures
        lex(s.take(a + k)) == lex(s.skip(a).take(k)),
        depth(s.take(a + k)) == depth(s.skip(a).take(k)),
    decreases k,
{
    if k > 0 {
        lemma_read_afresh(s, a, k - 1);
        assert(s.take(a + k).drop_last() =~= s.take(a + k - 1));
        assert(s.skip(a).take(k).drop_last() =~= s.skip(a).take(k - 1));
        assert(s.take(a + k).last() == s.skip(a).take(k).last());
    } else {
        assert(s.skip(a).take(0) =~= seq![]);
    }
}

proof fn lemma_object_is_one(s: Seq<char>, n: int)
    requires
        is_object(s),
        0 <= n < s.len(),
    ensures
        objects(s.take(n)) == Seq::<Seq<char>>::empty(),
        n > 0 ==> object_start(s.take(n)) == 0,
    decreases n,
{
    if n > 0 {
        lemma_object_is_one(s, n - 1);
        assert(s.take(n).drop_last() =~= s.take(n - 1));
        assert(depth(s.take(n)) > 0);
        if n == 1 {
            assert(s.take(0) =~= seq![]);
            assert(s.take(1).last() == '{');
        }
    } else {
        assert(s.take(0) =~= seq![]);
    }
}

/// A text that is one object holds that object and no other.
pub proof fn law_object_holds_itself(s: Seq<char>)
    requires
        is_object(s),
    ensures
        objects(s) == seq![s],
{
    let n = s.len() - 1;
    lemma_object_is_one(s, n);
    assert(s.drop_last() =~= s.take(n));
    assert(depth(s.take(n)) > 0);
    assert(s.skip(0) =~= s);
    assert(objects(s) =~= seq![s]);
}

/// Each text that is found is one object: it opens with a brace, closes with the brace
/// that belongs to it, and holds itself alone.
pub proof fn law_found_objects_are_objects(s: Seq<char>)
    ensures
        forall|i: int|
            0 <= i < objects(s).len() ==> is_object(#[trigger] objects(s)[i]) && objects(
                objects(s)[i],
            ) == seq![objects(s)[i]],
    decreases s.len(),
{
    if s.len() > 0 {
        let before = s.drop_last();
        law_found_objects_are_objects(before);
        if depth(before) == 1 && depth(s) == 0 {
            let n = before.len() as int;
            assert(s.take(n) =~= before);
            lemma_object_start(s, n);
            let a = object_start(before);
            let found = s.skip(a);
            assert forall|k: int| 0 < k < found.len() implies depth(#[trigger] found.take(k)) > 0 by {
                lemma_read_afresh(s, a, k);
                assert(depth(s.take(a + k)) > 0);
            }
            lemma_read_afresh(s, a, n + 1 - a);
            assert(s.take(n + 1) =~= s);
            assert(found.take(found.len() as int) =~= found);
            law_object_holds_itself(found);
            assert(objects(s) == objects(before).push(found));
        }
        assert forall|i: int| 0 <= i < objects(s).len() implies is_object(#[trigger] objects(s)[i])
            && objects(objects(s)[i]) == seq![objects(s)[i]] by {
            if i < objects(before).len() {
                assert(objects(s)[i] == objects(before)[i]);
            }
        }
    }
}

proof fn lemma_behind(front: Seq<char>, object: Seq<char>, k: int)
    requires
        lex(front) == Lex::Plain,
        depth(front) == 0,
        is_object(object),
        0 <= k < object.len(),
    ensures
        objects((front + object).take(front.len() + k)) == objects(front),
        k > 0 ==> object_start((front + object).take(front.len() + k)) == front.len(),
        depth((front + object).take(front.len() + k)) == depth(object.take(k)),
    decreases k,
{
    let s = front + object;
    let a = front.len() as int;
    assert(s.take(a) =~= front);
    assert(s.skip(a) =~= object);
    lemma_read_afresh(s, a, k);
    if k > 0 {
        lemma_behind(front, object, k - 1);
        lemma_read_afresh(s, a, k - 1);
        assert(s.take(a + k).drop_last() =~= s.take(a + k - 1));
        assert(depth(object.take(k)) > 0);
        if k == 1 {
            assert(object.take(0) =~= seq![]);
            assert(object.take(1).drop_last() =~= seq![]);
            assert(object.take(1).last() == '{');
            assert(depth(object.take(1)) == 1);
        } else {
            assert(depth(object.take(k - 1)) > 0);
        }
    }
}

/// An object that stands behind a text in which no brace and no string is open is found,
/// as it is, behind those of the text.
pub proof fn law_each_object_is_found(front: Seq<char>, object: Seq<char>)
    requires
        lex(front) == Lex::Plain,
        depth(front) == 0,
        is_object(object),
    ensures
        objects(front + object) == objects(front).push(object),
        lex(front + object) == lex(object),
        depth(front + object) == 0,
{
    let s = front + object;
    let n = object.len() as int;
    let a = front.len() as int;
    assert(s.take(a) =~= front);
    assert(s.skip(a) =~= object);
    assert(s.take(a + n) =~= s);
    assert(object.take(n) =~= object);
    lemma_behind(front, object, n - 1);
    lemma_read_afresh(s, a, n);
    lemma_read_afresh(s, a, n - 1);
    assert(s.drop_last() =~= s.take(a + n - 1));
    assert(depth(object.take(n - 1)) > 0);
    assert(object.drop_last() =~= object.take(n - 1));
    assert(depth(object.drop_last()) == 1);
}

/// Text without braces and quotation marks adds no object and opens nothing.
pub proof fn law_plain_text_holds_no_objects(front: Seq<char>, plain: Seq<char>)
    requires
        lex(front) == Lex::Plain,
        forall|i: int|
            0 <= i < plain.len() ==> (#[trigger] plain[i]) != '{' && plain[i] != '}' && plain[i]
                != '"',
    ensures
        objects(front + plain) == objects(front),
        lex(front + plain) == Lex::Plain,
        depth(front + plain) == depth(front),
    decreases plain.len(),
{
    if plain.len() == 0 {
        assert(front + plain =~= front);
    } else {
        let shorter = plain.drop_last();
        assert forall|i: int| 0 <= i < shorter.len() implies (#[trigger] shorter[i]) != '{'
            && shorter[i] != '}' && shorter[i] != '"' by {
            assert(shorter[i] == plain[i]);
        }
        law_plain_text_holds_no_objects(front, shorter);
        assert((front + plain).drop_last() =~= front + shorter);
        assert((front + plain).last() == plain[plain.len() - 1]);
    }
}

/// Inside a string no brace counts; outside, an opening one is one more and a closing one
/// is one less where any is open. A string ends at the next quotation mark that no
/// backslash stands before.
pub proof fn law_braces_count_outside_strings(s: Seq<char>, c: char)
    ensures
        lex(s) != Lex::Plain ==> depth(s.push(c)) == depth(s),
        lex(s) == Lex::Plain ==> depth(s.push('{')) == depth(s) + 1,
        lex(s) == Lex::Plain && depth(s) > 0 ==> depth(s.push('}')) + 1 == depth(s),
        lex(s) == Lex::Plain && c != '{' && c != '}' ==> depth(s.push(c)) == depth(s),
        lex(s) == Lex::Plain ==> lex(s.push(c)) == if c == '"' {
            Lex::Quoted
        } else {
            Lex::Plain
        },
        lex(s) == Lex::Quoted && c != '\\' ==> lex(s.push(c)) == if c == '"' {
            Lex::Plain
        } else {
            Lex::Quoted
        },
        lex(s) == Lex::Quoted ==> lex(s.push('\\').push(c)) == Lex::Quoted,
{
    assert(s.push(c).drop_last() =~= s);
    assert(s.push('{').drop_last() =~= s);
    assert(s.push('}').drop_last() =~= s);
    assert(s.push('\\').drop_last() =~= s);
    assert(s.push('\\').push(c).drop_last() =~= s.push('\\'));
    assert(lex(s) == Lex::Quoted ==> lex(s.push('\\')) == Lex::Escaped);
}

/// A reply that no code fence stands around is only trimmed.
pub proof fn law_replies_without_a_fence_are_trimmed(s: Seq<char>)
    requires
        !has_prefix(trimmed(s), "```"@),
        !has_suffix(trimmed(s), "```"@),
    ensures
        unfenced(s) == trimmed(s),
{
    crate::text::law_trim_is_idempotent(s);
    reveal_strlit("```");
    reveal_strlit("```json");
    let t = trimmed(s);
    if has_prefix(t, "```json"@) {
        assert(t.take("```"@.len() as int) =~= t.take("```json"@.len() as int).take(
            "```"@.len() as int,
        ));
        assert("```json"@.take("```"@.len() as int) =~= "```"@);
    }
}

/// What stands in a code fence, marked as JSON or not at all, is read without the fence.
pub proof fn law_fenced_replies_are_read_without_the_fence(body: Seq<char>)
    ensures
        unfenced("```json"@ + body + "```"@) == trimmed(body),
        !has_prefix(body + "```"@, "json"@) ==> unfenced("```"@ + body + "```"@) == trimmed(body),
{
    reveal_strlit("```");
    reveal_strlit("```json");
    reveal_strlit("json");
    let marked = "```json"@ + body + "```"@;
    let bare = "```"@ + body + "```"@;
    lemma_fence_is_not_white(marked);
    lemma_fence_is_not_white(bare);
    assert(marked.take("```json"@.len() as int) =~= "```json"@);
    assert(marked.skip("```json"@.len() as int) =~= body + "```"@);
    assert(bare.take("```"@.len() as int) =~= "```"@);
    assert(bare.skip("```"@.len() as int) =~= body + "```"@);
    let closed = body + "```"@;
    assert(closed.skip(closed.len() - "```"@.len()) =~= "```"@);
    assert(closed.take(closed.len() - "```"@.len()) =~= body);
    if !has_prefix(closed, "json"@) {
        assert(!has_prefix(bare, "```json"@)) by {
            if has_prefix(bare, "```json"@) {
                assert(closed.take(4) =~= bare.take(7).skip(3));
                assert("```json"@.skip(3) =~= "json"@);
            }
        }
    }
}

proof fn lemma_fence_is_not_white(s: Seq<char>)
    requires
        s.len() > 0,
        s[0] == '`',
        s.last() == '`',
    ensures
        trimmed(s) == s,
{
    assert(crate::text::trim_start(s) == s);
    assert(crate::text::trim_end(s) == s);
}

} // verus!
