//! Escaping of display text for LaTeX's literal-text context.
use vstd::prelude::*;
use crate::text::{push_char, to_chars};

verus! {

/// The ten characters that LaTeX treats as markup in running text.
pub open spec fn is_special(c: char) -> bool {
    c == '&' || c == '%' || c == '$' || c == '#' || c == '_' || c == '{' || c == '}' || c == '~'
        || c == '^' || c == '\\'
}

/// What one character becomes in the output: itself, or its escape sequence.
pub open spec fn escape_char(c: char) -> Seq<char> {
    if c == '&' {
        "\\&"@
    } else if c == '%' {
        "\\%"@
    } else if c == '$' {
        "\\$"@
    } else if c == '#' {
        "\\#"@
    } else if c == '_' {
        "\\_"@
    } else if c == '{' {
        "\\{"@
    } else if c == '}' {
        "\\}"@
    } else if c == '~' {
        "\\textasciitilde{}"@
    } else if c == '^' {
        "\\textasciicircum{}"@
    } else if c == '\\' {
        "\\textbackslash{}"@
    } else {
        seq![c]
    }
}

/// The escaped text: each character of `s` replaced by `escape_char`, in a
/// single pass over the original characters.
pub open spec fn escaped(s: Seq<char>) -> Seq<char>
    decreases s.len(),
{
    if s.len() == 0 {
        Seq::empty()
    } else {
        escape_char(s[0]) + escaped(s.drop_first())
    }
}

/// Reads one unit of LaTeX literal text at the start of `t`: the character
/// it stands for and how many characters it spans. `None` when `t` starts
/// with a special character that does not begin an escape sequence.
pub open spec fn decode_unit(t: Seq<char>) -> Option<(char, nat)> {
    if t.len() == 0 {
        None
    } else if t[0] == '\\' {
        if t.len() >= 16 && t.take(16) == "\\textbackslash{}"@ {
            Some(('\\', 16))
        } else if t.len() >= 17 && t.take(17) == "\\textasciitilde{}"@ {
            Some(('~', 17))
        } else if t.len() >= 18 && t.take(18) == "\\textasciicircum{}"@ {
            Some(('^', 18))
        } else if t.len() >= 2 && is_special(t[1]) && t[1] != '~' && t[1] != '^' && t[1] != '\\' {
            Some((t[1], 2))
        } else {
            None
        }
    } else if is_special(t[0]) {
        None
    } else {
        Some((t[0], 1))
    }
}

/// The text that LaTeX typesets for `t`, read unit by unit; `None` when `t`
/// holds a special character outside an escape sequence.
pub open spec fn decoded(t: Seq<char>) -> Option<Seq<char>>
    decreases t.len(),
{
    if t.len() == 0 {
        Some(Seq::empty())
    } else {
        match decode_unit(t) {
            Some((c, n)) => match decoded(t.skip(n as int)) {
                Some(rest) => Some(seq![c] + rest),
                None => None,
            },
            None => None,
        }
    }
}

proof fn lemma_decode_unit_escape(c: char, rest: Seq<char>)
    ensures
        decode_unit(escape_char(c) + rest) == Some((c, escape_char(c).len())),
        (escape_char(c) + rest).skip(escape_char(c).len() as int) == rest,
{
    reveal_strlit("\\&");
    reveal_strlit("\\%");
    reveal_strlit("\\$");
    reveal_strlit("\\#");
    reveal_strlit("\\_");
    reveal_strlit("\\{");
    reveal_strlit("\\}");
    reveal_strlit("\\textasciitilde{}");
    reveal_strlit("\\textasciicircum{}");
    reveal_strlit("\\textbackslash{}");
    let e = escape_char(c);
    let t = e + rest;
    assert(t.skip(e.len() as int) =~= rest);
    if c == '\\' {
        assert(t.take(16) =~= e);
    } else if c == '~' {
        assert(t.take(16)[5] != "\\textbackslash{}"@[5]);
        assert(t.take(17) =~= e);
    } else if c == '^' {
        assert(t.take(16)[5] != "\\textbackslash{}"@[5]);
        assert(t.take(17)[10] != "\\textasciitilde{}"@[10]);
        assert(t.take(18) =~= e);
    } else if is_special(c) {
        assert(t[1] == c);
        if t.len() >= 16 {
            assert(t.take(16)[1] != "\\textbackslash{}"@[1]);
        }
        if t.len() >= 17 {
            assert(t.take(17)[1] != "\\textasciitilde{}"@[1]);
        }
        if t.len() >= 18 {
            assert(t.take(18)[1] != "\\textasciicircum{}"@[1]);
        }
    }
}

/// Escaping leaves no special character outside an escape sequence, and
/// reading the escaped text back as LaTeX yields exactly the original text.
pub proof fn lemma_escape_round_trip(s: Seq<char>)
    ensures
        decoded(escaped(s)) == Some(s),
    decreases s.len(),
{
    if s.len() > 0 {
        lemma_decode_unit_escape(s[0], escaped(s.drop_first()));
        lemma_escape_round_trip(s.drop_first());
        assert(seq![s[0]] + s.drop_first() =~= s);
    }
}

/// Escaping one more character appends that character's escape.
pub proof fn lemma_escaped_push(s: Seq<char>, c: char)
    ensures
        escaped(s.push(c)) == escaped(s) + escape_char(c),
    decreases s.len(),
{
    if s.len() == 0 {
        assert(s.push(c).drop_first() =~= Seq::<char>::empty());
        assert(escaped(Seq::<char>::empty()) == Seq::<char>::empty());
        assert(escape_char(c) + Seq::<char>::empty() =~= escape_char(c));
    } else {
        assert(s.push(c).drop_first() =~= s.drop_first().push(c));
        lemma_escaped_push(s.drop_first(), c);
        assert(escape_char(s[0]) + (escaped(s.drop_first()) + escape_char(c)) =~= (escape_char(
            s[0],
        ) + escaped(s.drop_first())) + escape_char(c));
    }
}

/// Appends the escaped form of `text` to `out`.
pub fn push_escaped(out: &mut String, text: &Vec<char>)
    ensures
        final(out)@ == old(out)@ + escaped(text@),
{
    let ghost start = out@;
    let mut i: usize = 0;
    assert(text@.take(0) =~= Seq::<char>::empty());
    assert(start + Seq::<char>::empty() =~= start);
    while i < text.len()
        invariant
            i <= text@.len(),
            out@ == start + escaped(text@.take(i as int)),
        decreases text@.len() - i,
    {
        let c = text[i];
        proof {
            assert(text@.take(i + 1) =~= text@.take(i as int).push(c));
            lemma_escaped_push(text@.take(i as int), c);
        }
        if c == '&' {
            out.append("\\&");
        } else if c == '%' {
            out.append("\\%");
        } else if c == '$' {
            out.append("\\$");
        } else if c == '#' {
            out.append("\\#");
        } else if c == '_' {
            out.append("\\_");
        } else if c == '{' {
            out.append("\\{");
        } else if c == '}' {
            out.append("\\}");
        } else if c == '~' {
            out.append("\\textasciitilde{}");
        } else if c == '^' {
            out.append("\\textasciicircum{}");
        } else if c == '\\' {
            out.append("\\textbackslash{}");
        } else {
            push_char(out, c);
        }
        assert(out@ =~= start + escaped(text@.take(i + 1)));
        i = i + 1;
    }
    assert(text@.take(i as int) =~= text@);
}

/// Escapes `text` so that LaTeX typesets exactly its characters: each of
/// `& % $ # _ { } ~ ^ \` becomes its escape sequence, every other character
/// is kept, and escapes already emitted are never escaped again.
pub fn escape_latex(text: &str) -> (r: String)
    ensures
        r@ == escaped(text@),
{
    let chars = to_chars(text);
    let mut out = String::new();
    push_escaped(&mut out, &chars);
    assert(Seq::<char>::empty() + escaped(text@) =~= escaped(text@));
    out
}

} // verus!
