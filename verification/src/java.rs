//! The Java backend: quoting rule, per-render configuration, and a
//! simple renderable construct.

pub mod modifier;

use crate::formatter::Formatter;
use crate::item::ItemStr;
use crate::lang::Lang;
use vstd::prelude::*;
use vstd::string::StrSliceExecFns;
use vstd::string::StringExecFns;

verus! {

/// The Java language capability.
#[derive(Debug)]
pub struct Java;

/// The per-render configuration for Java.  It carries no state of its
/// own; constructs leave it unchanged.
pub struct JavaConfig;

/// A Java construct: a reference that renders as its own name.
#[derive(Debug)]
pub struct JavaType {
    /// The name the construct writes when rendered.
    pub name: ItemStr,
}

/// The escape of one character inside a Java string literal: double
/// quote, backslash, and the common control characters get a backslash
/// escape; every other character stands for itself.
pub open spec fn escape_char(c: char) -> Seq<char> {
    if c == '"' {
        seq!['\\', '"']
    } else if c == '\\' {
        seq!['\\', '\\']
    } else if c == '\n' {
        seq!['\\', 'n']
    } else if c == '\r' {
        seq!['\\', 'r']
    } else if c == '\t' {
        seq!['\\', 't']
    } else {
        seq![c]
    }
}

/// The escapes of a whole text, concatenated in order.
pub open spec fn escaped(text: Seq<char>) -> Seq<char>
    decreases text.len(),
{
    if text.len() == 0 {
        Seq::empty()
    } else {
        escape_char(text[0]) + escaped(text.drop_first())
    }
}

/// The Java quoted form of a text: the escaped characters between
/// double quotes.  Total: every text has a quoted form.
pub open spec fn java_quoted(text: Seq<char>) -> Seq<char> {
    seq!['"'] + escaped(text) + seq!['"']
}

/// Escaping one more character appends that character's escape.
proof fn lemma_escaped_snoc(text: Seq<char>, c: char)
    ensures
        escaped(text.push(c)) == escaped(text) + escape_char(c),
    decreases text.len(),
{
    if text.len() == 0 {
        assert(text.push(c).drop_first() =~= Seq::<char>::empty());
        assert(text.push(c)[0] == c);
        assert(escaped(text.push(c)) == escape_char(c) + escaped(Seq::<char>::empty()));
        assert(escape_char(c) + Seq::<char>::empty() =~= escape_char(c));
        assert(Seq::<char>::empty() + escape_char(c) =~= escape_char(c));
    } else {
        assert(text.push(c).drop_first() =~= text.drop_first().push(c));
        assert(text.push(c)[0] == text[0]);
        assert(text.push(c)[0] == text[0]);
        lemma_escaped_snoc(text.drop_first(), c);
        assert(escape_char(text[0]) + (escaped(text.drop_first()) + escape_char(c)) =~= (escape_char(
            text[0],
        ) + escaped(text.drop_first())) + escape_char(c));
    }
}

impl Lang for Java {
    type Config = JavaConfig;

    type Construct = JavaType;

    open spec fn spec_quote(text: Seq<char>) -> Seq<char> {
        java_quoted(text)
    }

    open spec fn construct_text(c: JavaType, config: JavaConfig, level: int) -> Seq<char> {
        c.name@
    }

    open spec fn construct_config(c: JavaType, config: JavaConfig, level: int) -> JavaConfig {
        config
    }

    open spec fn spec_new_config() -> JavaConfig {
        JavaConfig
    }

    fn new_config() -> (c: JavaConfig) {
        JavaConfig
    }

    fn quote_string(out: &mut Formatter, input: &str) {
        let n = input.unicode_len();
        let mut q = String::from_str("\"");
        proof {
            reveal_strlit("\"");
            assert(input@.take(0) =~= Seq::<char>::empty());
            assert(q@ =~= seq!['"'] + escaped(input@.take(0)));
        }
        let mut i: usize = 0;
        while i < n
            invariant
                n == input@.len(),
                i <= n,
                q@ == seq!['"'] + escaped(input@.take(i as int)),
            decreases n - i,
        {
            let c = input.get_char(i);
            if c == '"' {
                q.append("\\\"");
                proof {
                    reveal_strlit("\\\"");
                    assert("\\\""@ =~= seq!['\\', '"']);
                }
            } else if c == '\\' {
                q.append("\\\\");
                proof {
                    reveal_strlit("\\\\");
                    assert("\\\\"@ =~= seq!['\\', '\\']);
                }
            } else if c == '\n' {
                q.append("\\n");
                proof {
                    reveal_strlit("\\n");
                    assert("\\n"@ =~= seq!['\\', 'n']);
                }
            } else if c == '\r' {
                q.append("\\r");
                proof {
                    reveal_strlit("\\r");
                    assert("\\r"@ =~= seq!['\\', 'r']);
                }
            } else if c == '\t' {
                q.append("\\t");
                proof {
                    reveal_strlit("\\t");
                    assert("\\t"@ =~= seq!['\\', 't']);
                }
            } else {
                let piece = input.substring_char(i, i + 1);
                proof {
                    assert(piece@ =~= seq![input@[i as int]]);
                }
                q.append(piece);
            }
            proof {
                lemma_escaped_snoc(input@.take(i as int), input@[i as int]);
                assert(input@.take(i as int).push(input@[i as int]) =~= input@.take(i + 1));
                assert((seq!['"'] + escaped(input@.take(i as int))) + escape_char(input@[i as int])
                    =~= seq!['"'] + escaped(input@.take(i + 1)));
            }
            i = i + 1;
        }
        q.append("\"");
        proof {
            assert(input@.take(n as int) =~= input@);
            assert(q@ =~= java_quoted(input@));
        }
        out.write_str(q.as_str());
    }

    fn format_construct(
        c: &JavaType,
        out: &mut Formatter,
        config: &mut JavaConfig,
        level: usize,
    ) {
        out.write_str(c.name.as_str());
    }
}

} // verus!
