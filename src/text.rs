//! Character-level helpers shared by the escaper and the document builder.
use vstd::prelude::*;

verus! {

/// The characters of `s`, in order.
pub fn to_chars(s: &str) -> (r: Vec<char>)
    ensures
        r@ == s@,
{
    let mut r: Vec<char> = Vec::new();
    for c in it: s.chars()
        invariant
            r@ == it.seq().take(it.index() as int),
    {
        r.push(c);
    }
    r
}

/// The character sequences held by a vector of character vectors.
pub open spec fn views(v: Seq<Vec<char>>) -> Seq<Seq<char>> {
    v.map_values(|x: Vec<char>| x@)
}

/// The views of a sequence of strings.
pub open spec fn string_views(v: Seq<String>) -> Seq<Seq<char>> {
    v.map_values(|s: String| s@)
}

/// `parts` with `prefix` put in front of its first part.
pub open spec fn prefix_first(prefix: Seq<char>, parts: Seq<Seq<char>>) -> Seq<Seq<char>>
    recommends
        parts.len() > 0,
{
    parts.update(0, prefix + parts[0])
}

/// `s` cut at each occurrence of `sep`, scanning left to right and taking
/// occurrences that do not overlap. Runs of separators give empty parts;
/// there is always at least one part.
pub open spec fn split_on(s: Seq<char>, sep: Seq<char>) -> Seq<Seq<char>>
    decreases s.len(),
{
    if s.len() == 0 {
        seq![Seq::empty()]
    } else if sep.len() > 0 && s.len() >= sep.len() && s.take(sep.len() as int) == sep {
        seq![Seq::empty()] + split_on(s.skip(sep.len() as int), sep)
    } else {
        prefix_first(seq![s[0]], split_on(s.skip(1), sep))
    }
}

/// Splitting always yields at least one part.
pub proof fn lemma_split_on_nonempty(s: Seq<char>, sep: Seq<char>)
    ensures
        split_on(s, sep).len() >= 1,
    decreases s.len(),
{
    if s.len() > 0 {
        if sep.len() > 0 && s.len() >= sep.len() && s.take(sep.len() as int) == sep {
            lemma_split_on_nonempty(s.skip(sep.len() as int), sep);
        } else {
            lemma_split_on_nonempty(s.skip(1), sep);
        }
    }
}

/// `names` joined with `sep` between each two.
pub open spec fn joined(names: Seq<Seq<char>>, sep: Seq<char>) -> Seq<char>
    decreases names.len(),
{
    if names.len() == 0 {
        Seq::empty()
    } else if names.len() == 1 {
        names[0]
    } else {
        joined(names.drop_last(), sep) + sep + names.last()
    }
}

proof fn lemma_joined_cons(x: Seq<char>, rest: Seq<Seq<char>>, sep: Seq<char>)
    requires
        rest.len() >= 1,
    ensures
        joined(seq![x] + rest, sep) == x + sep + joined(rest, sep),
    decreases rest.len(),
{
    let all = seq![x] + rest;
    assert(all.len() >= 2 && all.last() == rest.last());
    if rest.len() == 1 {
        assert(all.drop_last() =~= seq![x]);
        assert(joined(seq![x], sep) == x);
        assert(joined(rest, sep) == rest.last());
    } else {
        assert(all.drop_last() =~= seq![x] + rest.drop_last());
        lemma_joined_cons(x, rest.drop_last(), sep);
        assert(x + sep + joined(rest.drop_last(), sep) + sep + rest.last() =~= x + sep + (joined(
            rest.drop_last(),
            sep,
        ) + sep + rest.last()));
    }
}

proof fn lemma_joined_prefix_first(p: Seq<char>, parts: Seq<Seq<char>>, sep: Seq<char>)
    requires
        parts.len() >= 1,
    ensures
        joined(prefix_first(p, parts), sep) == p + joined(parts, sep),
    decreases parts.len(),
{
    if parts.len() >= 2 {
        assert(prefix_first(p, parts).drop_last() =~= prefix_first(p, parts.drop_last()));
        lemma_joined_prefix_first(p, parts.drop_last(), sep);
        assert(p + joined(parts.drop_last(), sep) + sep + parts.last() =~= p + (joined(
            parts.drop_last(),
            sep,
        ) + sep + parts.last()));
    }
}

/// Splitting loses nothing: joining the parts of `s` with the separator
/// between each two gives back `s` exactly.
pub proof fn lemma_split_on_joined(s: Seq<char>, sep: Seq<char>)
    requires
        sep.len() > 0,
    ensures
        joined(split_on(s, sep), sep) == s,
    decreases s.len(),
{
    if s.len() > 0 {
        if s.len() >= sep.len() && s.take(sep.len() as int) == sep {
            let rest = s.skip(sep.len() as int);
            lemma_split_on_nonempty(rest, sep);
            lemma_split_on_joined(rest, sep);
            lemma_joined_cons(Seq::empty(), split_on(rest, sep), sep);
            assert(Seq::<char>::empty() + sep + rest =~= s);
        } else {
            lemma_split_on_nonempty(s.skip(1), sep);
            lemma_split_on_joined(s.skip(1), sep);
            lemma_joined_prefix_first(seq![s[0]], split_on(s.skip(1), sep), sep);
            assert(seq![s[0]] + s.skip(1) =~= s);
        }
    }
}

/// Whether `sep` occurs in `s` at position `i`.
fn occurs_at(s: &Vec<char>, i: usize, sep: &Vec<char>) -> (r: bool)
    requires
        i <= s@.len(),
    ensures
        r == (s@.len() - i >= sep@.len() && s@.skip(i as int).take(sep@.len() as int) == sep@),
{
    if s.len() - i < sep.len() {
        return false;
    }
    let mut k: usize = 0;
    while k < sep.len()
        invariant
            i + sep.len() <= s.len(),
            k <= sep@.len(),
            forall|j: int| 0 <= j < k ==> s@[i + j] == sep@[j],
        decreases sep@.len() - k,
    {
        if s[i + k] != sep[k] {
            assert(s@.skip(i as int).take(sep@.len() as int)[k as int] != sep@[k as int]);
            return false;
        }
        k = k + 1;
    }
    assert(s@.skip(i as int).take(sep@.len() as int) =~= sep@);
    true
}

/// Splits `s` at each occurrence of `sep` (see `split_on`).
pub fn split_chars(s: &Vec<char>, sep: &Vec<char>) -> (r: Vec<Vec<char>>)
    ensures
        views(r@) == split_on(s@, sep@),
{
    let mut done: Vec<Vec<char>> = Vec::new();
    let mut cur: Vec<char> = Vec::new();
    let mut i: usize = 0;
    proof {
        lemma_split_on_nonempty(s@, sep@);
        assert(s@.skip(0) =~= s@);
        assert(split_on(s@, sep@) =~= views(done@) + prefix_first(cur@, split_on(s@, sep@)));
    }
    while i < s.len()
        invariant
            i <= s@.len(),
            split_on(s@, sep@) == views(done@) + prefix_first(cur@, split_on(s@.skip(i as int), sep@)),
        decreases s@.len() - i,
    {
        let ghost rest = s@.skip(i as int);
        proof {
            lemma_split_on_nonempty(rest, sep@);
        }
        if sep.len() > 0 && occurs_at(s, i, sep) {
            let ghost after = rest.skip(sep@.len() as int);
            proof {
                lemma_split_on_nonempty(after, sep@);
                assert(s@.skip(i + sep@.len()) =~= after);
                assert(views(done@).push(cur@) + prefix_first(Seq::empty(), split_on(after, sep@))
                    =~= views(done@) + prefix_first(cur@, split_on(rest, sep@)));
            }
            done.push(cur);
            cur = Vec::new();
            i = i + sep.len();
        } else {
            let c = s[i];
            let ghost after = rest.skip(1);
            proof {
                lemma_split_on_nonempty(after, sep@);
                assert(s@.skip(i + 1) =~= after);
                let x = split_on(after, sep@);
                assert(rest[0] == c);
                assert(split_on(rest, sep@) == prefix_first(seq![c], x));
                assert(cur@.push(c) + x[0] =~= cur@ + (seq![c] + x[0]));
                assert(prefix_first(cur@.push(c), split_on(after, sep@))
                    =~= prefix_first(cur@, split_on(rest, sep@)));
            }
            cur.push(c);
            i = i + 1;
        }
    }
    proof {
        assert(s@.skip(i as int) =~= Seq::<char>::empty());
    }
    let ghost before = views(done@);
    assert(prefix_first(cur@, seq![Seq::empty()]) =~= seq![cur@]);
    done.push(cur);
    assert(views(done@) =~= before.push(cur@));
    assert(views(done@) =~= split_on(s@, sep@));
    done
}

/// A line without the carriage return that ended it, if any.
pub open spec fn strip_cr(line: Seq<char>) -> Seq<char> {
    if line.len() > 0 && line.last() == '\r' {
        line.drop_last()
    } else {
        line
    }
}

/// The lines of `s`: the text between newlines, each newline-terminated line
/// without a carriage return just before its newline. A newline at the very
/// end starts no further line, and empty text has no lines.
pub open spec fn text_lines(s: Seq<char>) -> Seq<Seq<char>> {
    let parts = split_on(s, seq!['\n']);
    let ended = parts.drop_last().map_values(|p: Seq<char>| strip_cr(p));
    if parts.last().len() == 0 {
        ended
    } else {
        ended.push(parts.last())
    }
}

fn strip_cr_exec(line: &Vec<char>) -> (r: Vec<char>)
    ensures
        r@ == strip_cr(line@),
{
    let mut r = line.clone();
    assert(r@ =~= line@);
    if r.len() > 0 && r[r.len() - 1] == '\r' {
        r.pop();
    }
    r
}

/// The lines of `s` (see `text_lines`).
pub fn lines_of(s: &Vec<char>) -> (r: Vec<Vec<char>>)
    ensures
        views(r@) == text_lines(s@),
{
    let mut newline: Vec<char> = Vec::new();
    newline.push('\n');
    let parts = split_chars(s, &newline);
    proof {
        assert(newline@ =~= seq!['\n']);
        lemma_split_on_nonempty(s@, seq!['\n']);
    }
    let ghost pv = views(parts@);
    let ghost ended = pv.drop_last().map_values(|p: Seq<char>| strip_cr(p));
    let last = parts.len() - 1;
    let mut r: Vec<Vec<char>> = Vec::new();
    let mut j: usize = 0;
    while j < last
        invariant
            last == parts@.len() - 1,
            pv == views(parts@),
            ended == pv.drop_last().map_values(|p: Seq<char>| strip_cr(p)),
            j <= last,
            views(r@) == ended.take(j as int),
        decreases last - j,
    {
        let line = strip_cr_exec(&parts[j]);
        let ghost before = views(r@);
        r.push(line);
        assert(views(r@) =~= before.push(line@));
        assert(ended.take(j + 1) =~= ended.take(j as int).push(line@));
        j = j + 1;
    }
    assert(ended.take(j as int) =~= ended);
    if parts[last].len() > 0 {
        let ghost before = views(r@);
        let tail = parts[last].clone();
        assert(tail@ =~= parts@[last as int]@);
        r.push(tail);
        assert(views(r@) =~= before.push(tail@));
    }
    r
}

/// The string holding the characters of `v`, in order.
pub fn from_chars(v: &Vec<char>) -> (r: String)
    ensures
        r@ == v@,
{
    let mut r = String::new();
    let mut k: usize = 0;
    while k < v.len()
        invariant
            k <= v@.len(),
            r@ == v@.take(k as int),
        decreases v@.len() - k,
    {
        push_char(&mut r, v[k]);
        assert(v@.take(k + 1) =~= v@.take(k as int).push(v@[k as int]));
        k = k + 1;
    }
    assert(v@.take(k as int) =~= v@);
    r
}

/// Converts each character vector of `parts` to a string.
pub fn strings_of(parts: &Vec<Vec<char>>) -> (r: Vec<String>)
    ensures
        string_views(r@) == views(parts@),
{
    let mut r: Vec<String> = Vec::new();
    let mut k: usize = 0;
    while k < parts.len()
        invariant
            k <= parts@.len(),
            string_views(r@) == views(parts@).take(k as int),
        decreases parts@.len() - k,
    {
        let ghost before = string_views(r@);
        let s = from_chars(&parts[k]);
        r.push(s);
        assert(string_views(r@) =~= before.push(s@));
        assert(views(parts@).take(k + 1) =~= views(parts@).take(k as int).push(s@));
        k = k + 1;
    }
    assert(views(parts@).take(k as int) =~= views(parts@));
    r
}

/// Relies on `String::push`, which appends one character to the end of the string.
#[verifier::external_body]
pub(crate) fn push_char(s: &mut String, c: char)
    ensures
        final(s)@ == old(s)@.push(c),
{
    s.push(c);
}

} // verus!
