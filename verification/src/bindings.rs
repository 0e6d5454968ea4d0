//! Tidying the generated bindings: no line ends in white space.
use vstd::prelude::*;
use vstd::string::*;

use crate::text::{back_edge, is_space, same, to_chars, trim_back};

verus! {

/// The number of characters of `s` before its first line break.
pub open spec fn first_break(s: Seq<char>) -> nat
    decreases s.len(),
{
    if s.len() == 0 || s[0] == '\n' {
        0
    } else {
        1 + first_break(s.drop_first())
    }
}

/// `s` with every line stripped of the white space at its end. Line breaks stay where they are.
pub open spec fn tidied(s: Seq<char>) -> Seq<char>
    decreases s.len(),
{
    let n = first_break(s);
    if n >= s.len() {
        trim_back(s)
    } else {
        trim_back(s.take(n as int)).push('\n') + tidied(s.skip(n as int + 1))
    }
}

proof fn lemma_first_break(s: Seq<char>)
    ensures
        first_break(s) <= s.len(),
        forall|i: int| 0 <= i < first_break(s) ==> s[i] != '\n',
        first_break(s) < s.len() ==> s[first_break(s) as int] == '\n',
    decreases s.len(),
{
    if s.len() > 0 && s[0] != '\n' {
        let t = s.drop_first();
        lemma_first_break(t);
        assert forall|i: int| 0 <= i < first_break(s) implies s[i] != '\n' by {
            if i > 0 {
                assert(s[i] == t[i - 1]);
            }
        }
    }
}

proof fn lemma_first_break_at(s: Seq<char>, n: int)
    requires
        0 <= n <= s.len(),
        forall|i: int| 0 <= i < n ==> s[i] != '\n',
        n < s.len() ==> s[n] == '\n',
    ensures
        first_break(s) == n,
{
    lemma_first_break(s);
    let m = first_break(s) as int;
    if m < n {
        assert(s[m] != '\n');
    } else if n < m {
        assert(s[n] != '\n');
    }
}

/// The bindings with every line stripped of the white space at its end.
pub fn tidy_bindings(contents: &str) -> (r: String)
    ensures
        r@ == tidied(contents@),
{
    let v = to_chars(contents);
    let mut out = String::new();
    let mut start: usize = 0;
    let mut i: usize = 0;
    proof {
        assert(v@.skip(0) =~= v@);
        assert(out@ =~= Seq::<char>::empty());
        assert(out@ + tidied(v@.skip(0)) =~= tidied(v@));
    }
    while i < v.len()
        invariant
            start <= i <= v.len(),
            forall|j: int| start <= j < i ==> v@[j] != '\n',
            out@ + tidied(v@.skip(start as int)) == tidied(v@),
        decreases v.len() - i,
    {
        if v[i] == '\n' {
            let to = back_edge(&v, start, i);
            let ghost before = out@;
            append_range(&mut out, &v, start, to);
            out.push('\n');
            proof {
                let s = v@.skip(start as int);
                lemma_first_break_at(s, i - start);
                assert(s.take(i - start) =~= v@.subrange(start as int, i as int));
                assert(s.skip(i - start + 1) =~= v@.skip(i + 1));
                assert(out@ =~= before + trim_back(s.take(i - start)).push('\n'));
                assert(out@ + tidied(v@.skip(i + 1)) =~= before + tidied(s));
            }
            start = i + 1;
        }
        i = i + 1;
    }
    let to = back_edge(&v, start, v.len());
    let ghost before = out@;
    append_range(&mut out, &v, start, to);
    proof {
        let s = v@.skip(start as int);
        lemma_first_break_at(s, s.len() as int);
        assert(s =~= v@.subrange(start as int, v.len() as int));
    }
    out
}

fn append_range(out: &mut String, v: &Vec<char>, from: usize, to: usize)
    requires
        from <= to <= v.len(),
    ensures
        final(out)@ == old(out)@ + v@.subrange(from as int, to as int),
{
    let mut i: usize = from;
    assert(out@ =~= old(out)@ + v@.subrange(from as int, from as int));
    while i < to
        invariant
            from <= i <= to <= v.len(),
            out@ == old(out)@ + v@.subrange(from as int, i as int),
        decreases to - i,
    {
        out.push(v[i]);
        assert(out@ =~= old(out)@ + v@.subrange(from as int, i + 1));
        i = i + 1;
    }
}

/// The text to write back, where tidying has changed anything.
pub fn export_bindings_to(contents: &str) -> (r: Option<String>)
    ensures
        r is None <==> tidied(contents@) == contents@,
        r matches Some(t) ==> t@ == tidied(contents@),
{
    let tidy = tidy_bindings(contents);
    if same(tidy.as_str(), contents) {
        None
    } else {
        Some(tidy)
    }
}

/// No line of `s` ends in white space.
pub open spec fn tidy(s: Seq<char>) -> bool {
    forall|i: int|
        0 <= i < s.len() && s[i] != '\n' && (i == s.len() - 1 || s[i + 1] == '\n') ==> !is_space(
            #[trigger] s[i],
        )
}

proof fn lemma_trim_back(s: Seq<char>)
    ensures
        trim_back(s).len() <= s.len(),
        trim_back(s) == s.take(trim_back(s).len() as int),
        trim_back(s).len() > 0 ==> !is_space(trim_back(s).last()),
    decreases s.len(),
{
    if s.len() > 0 && is_space(s.last()) {
        lemma_trim_back(s.drop_last());
        assert(trim_back(s) =~= s.take(trim_back(s).len() as int));
    } else {
        assert(s.take(s.len() as int) =~= s);
    }
}

/// A tidied text has no line that ends in white space.
pub proof fn law_tidied_text_is_tidy(s: Seq<char>)
    ensures
        tidy(tidied(s)),
    decreases s.len(),
{
    lemma_first_break(s);
    let n = first_break(s) as int;
    let t = tidied(s);
    if n >= s.len() {
        lemma_trim_back(s);
    } else {
        let line = trim_back(s.take(n));
        let rest = tidied(s.skip(n + 1));
        lemma_trim_back(s.take(n));
        law_tidied_text_is_tidy(s.skip(n + 1));
        assert forall|i: int|
            0 <= i < t.len() && t[i] != '\n' && (i == t.len() - 1 || t[i + 1] == '\n') implies !is_space(
            #[trigger] t[i],
        ) by {
            if i < line.len() {
                assert(t[i] == line[i]);
                if i + 1 < line.len() {
                    assert(t[i + 1] == line[i + 1]);
                    assert(line[i + 1] == s[i + 1]);
                }
            } else if i > line.len() {
                let k = i - line.len() - 1;
                assert(t[i] == rest[k]);
                if i + 1 < t.len() {
                    assert(t[i + 1] == rest[k + 1]);
                }
            } else {
                assert(t[i] == '\n');
            }
        }
    }
}

/// A text without white space at the ends of its lines is left as it is.
pub proof fn law_tidy_text_stays_as_it_is(s: Seq<char>)
    requires
        tidy(s),
    ensures
        tidied(s) == s,
    decreases s.len(),
{
    lemma_first_break(s);
    let n = first_break(s) as int;
    if n >= s.len() {
        if s.len() > 0 {
            assert(!is_space(s[s.len() - 1]));
        }
    } else {
        let line = s.take(n);
        if n > 0 {
            assert(s[n - 1 + 1] == '\n');
            assert(!is_space(s[n - 1]));
            assert(line.last() == s[n - 1]);
        }
        assert(trim_back(line) == line);
        let rest = s.skip(n + 1);
        assert forall|i: int|
            0 <= i < rest.len() && rest[i] != '\n' && (i == rest.len() - 1 || rest[i + 1]
                == '\n') implies !is_space(#[trigger] rest[i]) by {
            assert(rest[i] == s[i + n + 1]);
            if i + 1 < rest.len() {
                assert(rest[i + 1] == s[i + n + 2]);
            }
        }
        law_tidy_text_stays_as_it_is(rest);
        assert(line.push('\n') + rest =~= s);
    }
}

/// Tidying twice is tidying once.
pub proof fn law_tidying_twice_is_tidying_once(s: Seq<char>)
    ensures
        tidied(tidied(s)) == tidied(s),
{
    law_tidied_text_is_tidy(s);
    law_tidy_text_stays_as_it_is(tidied(s));
}

proof fn lemma_first_break_of(line: Seq<char>, rest: Seq<char>)
    requires
        !line.contains('\n'),
    ensures
        first_break(line.push('\n') + rest) == line.len(),
        first_break(line) == line.len(),
    decreases line.len(),
{
    let s = line.push('\n') + rest;
    if line.len() > 0 {
        let shorter = line.drop_first();
        if shorter.contains('\n') {
            let i = choose|i: int| 0 <= i < shorter.len() && shorter[i] == '\n';
            assert(line[i + 1] == '\n');
        }
        assert(line.contains(line[0]));
        lemma_first_break_of(shorter, rest);
        assert(s[0] == line[0]);
        assert(s.drop_first() =~= shorter.push('\n') + rest);
    } else {
        assert(s[0] == '\n');
    }
}

/// Tidying goes line by line: each line loses just the white space at its end, and every line break
/// stays.
pub proof fn law_tidying_goes_line_by_line(line: Seq<char>, rest: Seq<char>)
    requires
        !line.contains('\n'),
    ensures
        tidied(line) == trim_back(line),
        tidied(line.push('\n') + rest) == trim_back(line).push('\n') + tidied(rest),
{
    lemma_first_break_of(line, rest);
    let s = line.push('\n') + rest;
    assert(s.take(line.len() as int) =~= line);
    assert(s.skip(line.len() as int + 1) =~= rest);
}

} // verus!
