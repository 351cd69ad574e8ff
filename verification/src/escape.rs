//! HTML escaping of dynamic values.

use vstd::prelude::*;
use vstd::std_specs::iter::IteratorSpec;

verus! {

/// The characters that have a replacement.
pub open spec fn is_special(c: char) -> bool {
    c == '&' || c == '<' || c == '>' || c == '"' || c == '\'' || c == '/'
}

/// What one character becomes: its entity when it is special, itself otherwise.
pub open spec fn escaped_char(c: char) -> Seq<char> {
    if c == '&' {
        seq!['&', 'a', 'm', 'p', ';']
    } else if c == '<' {
        seq!['&', 'l', 't', ';']
    } else if c == '>' {
        seq!['&', 'g', 't', ';']
    } else if c == '"' {
        seq!['&', 'q', 'u', 'o', 't', ';']
    } else if c == '\'' {
        seq!['&', '#', '3', '9', ';']
    } else if c == '/' {
        seq!['&', '#', 'x', '2', 'F', ';']
    } else {
        seq![c]
    }
}

/// The escaped form of a text: the replacements of its characters, in order.
pub open spec fn escaped(s: Seq<char>) -> Seq<char>
    decreases s.len(),
{
    if s.len() == 0 {
        Seq::empty()
    } else {
        escaped(s.drop_last()) + escaped_char(s.last())
    }
}

/// What is written for a dynamic value with the given escape flag.
pub open spec fn written(value: Seq<char>, is_escaped: bool) -> Seq<char> {
    if is_escaped {
        escaped(value)
    } else {
        value
    }
}

/// No character of the text has a replacement.
pub open spec fn is_plain(s: Seq<char>) -> bool {
    forall|i: int| 0 <= i < s.len() ==> !is_special(#[trigger] s[i])
}

/// Escaping never shortens a text, and keeps its length only if the text is
/// plain; a plain text is its own escaped form.
pub proof fn lemma_escaped_length(s: Seq<char>)
    ensures
        escaped(s).len() >= s.len(),
        escaped(s).len() == s.len() <==> is_plain(s),
        is_plain(s) ==> escaped(s) == s,
    decreases s.len(),
{
    if s.len() > 0 {
        let front = s.drop_last();
        lemma_escaped_length(front);
        if is_plain(s) {
            assert forall|i: int| 0 <= i < front.len() implies !is_special(
                #[trigger] front[i],
            ) by {
                assert(front[i] == s[i]);
            }
            assert(!is_special(s[s.len() - 1]));
            assert(escaped(s) =~= s);
        } else {
            if is_plain(front) {
                if !is_special(s.last()) {
                    assert forall|i: int| 0 <= i < s.len() implies !is_special(
                        #[trigger] s[i],
                    ) by {
                        if i < front.len() {
                            assert(front[i] == s[i]);
                        }
                    }
                }
            }
        }
    } else {
        assert(escaped(s) =~= s);
    }
}

/// The escaped form of a text that is not plain is not plain either: each
/// replacement begins with `&`.
pub proof fn lemma_escaped_keeps_special(s: Seq<char>)
    requires
        !is_plain(s),
    ensures
        !is_plain(escaped(s)),
    decreases s.len(),
{
    if s.len() > 0 {
        let front = s.drop_last();
        let done = escaped(front);
        if is_special(s.last()) {
            assert(escaped(s)[done.len() as int] == '&');
        } else {
            assert(!is_plain(front)) by {
                if is_plain(front) {
                    assert forall|i: int| 0 <= i < s.len() implies !is_special(
                        #[trigger] s[i],
                    ) by {
                        if i < front.len() {
                            assert(front[i] == s[i]);
                        }
                    }
                }
            }
            lemma_escaped_keeps_special(front);
            let i = choose|i: int| 0 <= i < done.len() && is_special(#[trigger] done[i]);
            assert(escaped(s)[i] == done[i]);
        }
    }
}

/// Escaping is to be applied once: applied a second time it changes the text
/// again, unless the text was plain to begin with.
pub proof fn lemma_escape_twice(s: Seq<char>)
    ensures
        escaped(escaped(s)) == escaped(s) <==> is_plain(s),
{
    lemma_escaped_length(s);
    lemma_escaped_length(escaped(s));
    if !is_plain(s) {
        lemma_escaped_keeps_special(s);
    }
}

/// Escaping goes through concatenation: a text may be escaped piece by piece.
pub proof fn lemma_escaped_concat(a: Seq<char>, b: Seq<char>)
    ensures
        escaped(a + b) == escaped(a) + escaped(b),
    decreases b.len(),
{
    if b.len() == 0 {
        assert(a + b =~= a);
        assert(escaped(a) + escaped(b) =~= escaped(a));
    } else {
        let whole = a + b;
        assert(whole.drop_last() =~= a + b.drop_last());
        assert(whole.last() == b.last());
        lemma_escaped_concat(a, b.drop_last());
        assert((escaped(a) + escaped(b.drop_last())) + escaped_char(b.last()) =~= escaped(a) + (
        escaped(b.drop_last()) + escaped_char(b.last())));
    }
}

/// `String::push` of std: appends one character to the end of the string.
#[verifier::external_body]
fn push_char(out: &mut String, c: char)
    ensures
        final(out)@ == old(out)@.push(c),
{
    out.push(c);
}

/// Appends the replacement of one character.
fn push_escaped(out: &mut String, c: char)
    ensures
        final(out)@ == old(out)@ + escaped_char(c),
{
    proof {
        reveal_strlit("&amp;");
        reveal_strlit("&lt;");
        reveal_strlit("&gt;");
        reveal_strlit("&quot;");
        reveal_strlit("&#39;");
        reveal_strlit("&#x2F;");
    }
    if c == '&' {
        out.append("&amp;");
        assert("&amp;"@ =~= escaped_char(c));
    } else if c == '<' {
        out.append("&lt;");
        assert("&lt;"@ =~= escaped_char(c));
    } else if c == '>' {
        out.append("&gt;");
        assert("&gt;"@ =~= escaped_char(c));
    } else if c == '"' {
        out.append("&quot;");
        assert("&quot;"@ =~= escaped_char(c));
    } else if c == '\'' {
        out.append("&#39;");
        assert("&#39;"@ =~= escaped_char(c));
    } else if c == '/' {
        out.append("&#x2F;");
        assert("&#x2F;"@ =~= escaped_char(c));
    } else {
        push_char(out, c);
        assert(old(out)@.push(c) =~= old(out)@ + escaped_char(c));
    }
}

/// Escapes a text for HTML, character by character and left to right.
pub fn escape(input: &str) -> (out: String)
    ensures
        out@ == escaped(input@),
{
    let mut out = String::new();
    let mut chars = input.chars();
    let ghost mut done: Seq<char> = Seq::empty();
    loop
        invariant
            done + chars.remaining() == input@,
            out@ == escaped(done),
        decreases input@.len() - done.len(),
    {
        let ghost before = chars.remaining();
        match chars.next() {
            None => {
                proof {
                    assert(done =~= input@);
                }
                return out;
            },
            Some(c) => {
                push_escaped(&mut out, c);
                proof {
                    let next = done.push(c);
                    assert(next.drop_last() =~= done);
                    assert(next + chars.remaining() =~= done + before);
                    done = next;
                }
            },
        }
    }
}

/// The text that a dynamic value contributes to the output: escaped once when
/// the flag is set, unchanged when it is not.
pub fn escape_or_raw(value: &str, is_escaped: bool) -> (out: String)
    ensures
        out@ == written(value@, is_escaped),
{
    if is_escaped {
        escape(value)
    } else {
        String::from_str(value)
    }
}

} // verus!
