//! What the two launchd installers share: programs to run, and text for plists.

use vstd::prelude::*;

use crate::text::characters;

verus! {

/// The program that talks to launchd.
pub const LAUNCHCTL: &'static str = "/bin/launchctl";

/// A program and its arguments.
#[derive(Debug)]
pub struct Invocation {
    pub program: String,
    pub args: Vec<String>,
}

impl Invocation {
    /// The invocation runs `program` with `args`.
    pub open spec fn runs(self, program: Seq<char>, args: Seq<Seq<char>>) -> bool {
        self.program@ == program && crate::text::strings_of(self.args@) == args
    }
}

/// An invocation of `program`, still without arguments.
pub fn invocation(program: &str) -> (result: Invocation)
    ensures
        result.runs(program@, Seq::<Seq<char>>::empty()),
{
    let result = Invocation { program: program.to_string(), args: Vec::new() };
    assert(crate::text::strings_of(result.args@) =~= Seq::<Seq<char>>::empty());
    result
}

impl Invocation {
    /// The invocation with one more argument.
    pub fn with(self, arg: &str) -> (result: Invocation)
        ensures
            result.runs(self.program@, crate::text::strings_of(self.args@).push(arg@)),
    {
        let mut result = self;
        result.args.push(arg.to_string());
        assert(crate::text::strings_of(result.args@) =~= crate::text::strings_of(self.args@).push(
            arg@,
        ));
        result
    }
}

/// How a character is written in the text of an XML document.
pub open spec fn entity(c: char) -> Seq<char> {
    if c == '&' {
        "&amp;"@
    } else if c == '<' {
        "&lt;"@
    } else if c == '>' {
        "&gt;"@
    } else if c == '"' {
        "&quot;"@
    } else if c == '\'' {
        "&apos;"@
    } else {
        seq![c]
    }
}

/// How a text is written in an XML document.
pub open spec fn escaped(text: Seq<char>) -> Seq<char>
    decreases text.len(),
{
    if text.len() == 0 {
        Seq::empty()
    } else {
        escaped(text.drop_last()) + entity(text.last())
    }
}

/// `text`, written so that it can stand in an XML document.
pub fn xml_escape(text: &str) -> (result: String)
    ensures
        result@ == escaped(text@),
{
    let chars = characters(text);
    let mut result = String::new();
    let mut i: usize = 0;
    while i < chars.len()
        invariant
            i <= chars@.len(),
            chars@ == text@,
            result@ == escaped(text@.take(i as int)),
        decreases chars@.len() - i,
    {
        let c: char = chars[i];
        assert(text@.take(i + 1).drop_last() =~= text@.take(i as int));
        if c == '&' {
            result.append("&amp;");
        } else if c == '<' {
            result.append("&lt;");
        } else if c == '>' {
            result.append("&gt;");
        } else if c == '"' {
            result.append("&quot;");
        } else if c == '\'' {
            result.append("&apos;");
        } else {
            assert(text@.subrange(i as int, i + 1) =~= seq![c]);
            result.append(text.substring_char(i, i + 1));
        }
        i += 1;
    }
    assert(text@.take(i as int) =~= text@);
    result
}

/// A text that is written for an XML document holds no character that could end
/// the text or its attribute: no angle bracket and no quote.
pub proof fn escaped_text_is_inert(text: Seq<char>)
    ensures
        forall|i: int|
            0 <= i < escaped(text).len() ==> {
                let c = #[trigger] escaped(text)[i];
                c != '<' && c != '>' && c != '"' && c != '\''
            },
    decreases text.len(),
{
    if text.len() > 0 {
        reveal_strlit("&amp;");
        reveal_strlit("&lt;");
        reveal_strlit("&gt;");
        reveal_strlit("&quot;");
        reveal_strlit("&apos;");
        escaped_text_is_inert(text.drop_last());
        let before = escaped(text.drop_last());
        assert forall|i: int| 0 <= i < escaped(text).len() implies {
            let c = #[trigger] escaped(text)[i];
            c != '<' && c != '>' && c != '"' && c != '\''
        } by {
            if i < before.len() {
                assert(escaped(text)[i] == before[i]);
            } else {
                assert(escaped(text)[i] == entity(text.last())[i - before.len()]);
            }
        }
    }
}

/// What stands behind a character of a text that was written for an XML document.
pub open spec fn read_entity(text: Seq<char>) -> (char, Seq<char>)
    recommends
        text.len() > 0,
{
    if crate::text::begins_with(text, "&amp;"@) {
        ('&', text.skip(5))
    } else if crate::text::begins_with(text, "&lt;"@) {
        ('<', text.skip(4))
    } else if crate::text::begins_with(text, "&gt;"@) {
        ('>', text.skip(4))
    } else if crate::text::begins_with(text, "&quot;"@) {
        ('"', text.skip(6))
    } else if crate::text::begins_with(text, "&apos;"@) {
        ('\'', text.skip(6))
    } else {
        (text[0], text.skip(1))
    }
}

/// The text that the reader of an XML document finds: each entity stands for its
/// character. At most `steps` characters are read.
pub open spec fn read_back(text: Seq<char>, steps: nat) -> Seq<char>
    decreases steps,
{
    if text.len() == 0 || steps == 0 {
        Seq::empty()
    } else {
        let (c, rest) = read_entity(text);
        seq![c] + read_back(rest, (steps - 1) as nat)
    }
}

proof fn lemma_escaped_first(text: Seq<char>)
    requires
        text.len() > 0,
    ensures
        escaped(text) == entity(text[0]) + escaped(text.skip(1)),
    decreases text.len(),
{
    if text.len() == 1 {
        assert(text.drop_last() =~= Seq::<char>::empty());
        assert(text.skip(1) =~= Seq::<char>::empty());
        assert(escaped(text) =~= entity(text[0]) + escaped(text.skip(1)));
    } else {
        lemma_escaped_first(text.drop_last());
        assert(text.drop_last().skip(1) =~= text.skip(1).drop_last());
        assert(escaped(text) =~= entity(text[0]) + escaped(text.skip(1)));
    }
}

/// The reader of an XML document finds in an escaped text what was written.
pub proof fn escaped_text_reads_back(text: Seq<char>)
    ensures
        read_back(escaped(text), text.len()) == text,
        text.len() == 0 ==> escaped(text).len() == 0,
    decreases text.len(),
{
    if text.len() > 0 {
        reveal_strlit("&amp;");
        reveal_strlit("&lt;");
        reveal_strlit("&gt;");
        reveal_strlit("&quot;");
        reveal_strlit("&apos;");
        let whole = escaped(text);
        let rest = text.skip(1);
        let first = entity(text[0]);
        lemma_escaped_first(text);
        escaped_text_reads_back(rest);
        assert(whole.skip(first.len() as int) =~= escaped(rest));
        assert(whole.subrange(0, first.len() as int) =~= first);
        assert forall|other: Seq<char>|
            other.len() > 0 && other[0] == '&' && #[trigger] crate::text::begins_with(
                whole,
                other,
            ) implies whole[0] == '&' by {
            assert(whole.subrange(0, other.len() as int)[0] == other[0]);
        }
        if text[0] == '&' {
            assert(crate::text::begins_with(whole, "&amp;"@));
        } else {
            assert(!crate::text::begins_with(whole, "&amp;"@)) by {
                if crate::text::begins_with(whole, "&amp;"@) {
                    let found = whole.subrange(0, 5);
                    assert(found[0] == '&' && found[1] == 'a' && found[2] == 'm');
                }
            }
            if text[0] == '<' {
                assert(crate::text::begins_with(whole, "&lt;"@));
            } else {
                assert(!crate::text::begins_with(whole, "&lt;"@)) by {
                    if crate::text::begins_with(whole, "&lt;"@) {
                        let found = whole.subrange(0, 4);
                        assert(found[0] == '&' && found[1] == 'l');
                    }
                }
                if text[0] == '>' {
                    assert(crate::text::begins_with(whole, "&gt;"@));
                } else {
                    assert(!crate::text::begins_with(whole, "&gt;"@)) by {
                        if crate::text::begins_with(whole, "&gt;"@) {
                            let found = whole.subrange(0, 4);
                            assert(found[0] == '&' && found[1] == 'g');
                        }
                    }
                    if text[0] == '"' {
                        assert(crate::text::begins_with(whole, "&quot;"@));
                    } else {
                        assert(!crate::text::begins_with(whole, "&quot;"@)) by {
                            if crate::text::begins_with(whole, "&quot;"@) {
                                let found = whole.subrange(0, 6);
                                assert(found[0] == '&' && found[1] == 'q');
                            }
                        }
                        if text[0] == '\'' {
                            assert(crate::text::begins_with(whole, "&apos;"@));
                        } else {
                            assert(!crate::text::begins_with(whole, "&apos;"@)) by {
                                if crate::text::begins_with(whole, "&apos;"@) {
                                    let found = whole.subrange(0, 6);
                                    assert(found[0] == '&' && found[1] == 'a' && found[2] == 'p');
                                }
                            }
                        }
                    }
                }
            }
        }
        assert(read_entity(whole) == (text[0], escaped(rest)));
        assert(seq![text[0]] + rest =~= text);
    }
}

} // verus!
