use vstd::prelude::*;
use vstd::string::StrSliceExecFns;
use crate::security::input::{chars_of, trim_chars, trim_spec};

verus! {

/// The pieces of `s` between semicolons, as `str::split(';')` yields them.
pub open spec fn split_on_semicolons(s: Seq<char>) -> Seq<Seq<char>>
    decreases s.len(),
{
    if s.len() == 0 {
        seq![Seq::<char>::empty()]
    } else {
        let p = split_on_semicolons(s.drop_last());
        if s.last() == ';' {
            p.push(Seq::empty())
        } else {
            p.update(p.len() - 1, p.last().push(s.last()))
        }
    }
}

/// The trimmed pieces that are not empty, in order.
pub open spec fn nonempty_trimmed(pieces: Seq<Seq<char>>) -> Seq<Seq<char>>
    decreases pieces.len(),
{
    if pieces.len() == 0 {
        Seq::empty()
    } else {
        let rest = nonempty_trimmed(pieces.drop_last());
        let t = trim_spec(pieces.last());
        if t.len() == 0 {
            rest
        } else {
            rest.push(t)
        }
    }
}

/// The statements of a SQL script: the text between semicolons, trimmed,
/// with the empty ones left out.
pub open spec fn sql_statements(script: Seq<char>) -> Seq<Seq<char>> {
    nonempty_trimmed(split_on_semicolons(script))
}

/// Splits a SQL script into the statements to run, one by one, at start-up.
pub fn split_sql_statements(script: &str) -> (stmts: Vec<String>)
    ensures
        stmts@.map_values(|t: String| t@) == sql_statements(script@),
{
    let chars = chars_of(script);
    let mut stmts: Vec<String> = Vec::new();
    let mut current: Vec<char> = Vec::new();
    let mut i: usize = 0;
    assert(chars@.take(0) =~= Seq::<char>::empty());
    while i < chars.len()
        invariant
            chars@ == script@,
            0 <= i <= chars.len(),
            split_on_semicolons(chars@.take(i as int)).len() >= 1,
            current@ == split_on_semicolons(chars@.take(i as int)).last(),
            stmts@.map_values(|t: String| t@) == nonempty_trimmed(
                split_on_semicolons(chars@.take(i as int)).drop_last(),
            ),
        decreases chars.len() - i,
    {
        let c = chars[i];
        let ghost prefix = chars@.take(i as int);
        let ghost p = split_on_semicolons(prefix);
        proof {
            assert(chars@.take(i + 1).drop_last() =~= prefix);
            assert(chars@.take(i + 1).last() == c);
        }
        if c == ';' {
            let t = trim_chars(&current);
            if t.as_str().unicode_len() > 0 {
                stmts.push(t);
            }
            current = Vec::new();
            proof {
                let q = split_on_semicolons(chars@.take(i + 1));
                assert(q == p.push(Seq::empty()));
                assert(q.drop_last() =~= p);
                assert(p.drop_last() =~= p.drop_last());
                assert(nonempty_trimmed(p) == {
                    let rest = nonempty_trimmed(p.drop_last());
                    let tt = trim_spec(p.last());
                    if tt.len() == 0 {
                        rest
                    } else {
                        rest.push(tt)
                    }
                });
                assert(stmts@.map_values(|t: String| t@) =~= nonempty_trimmed(q.drop_last()));
                assert(current@ =~= q.last());
            }
        } else {
            current.push(c);
            proof {
                let q = split_on_semicolons(chars@.take(i + 1));
                assert(q == p.update(p.len() - 1, p.last().push(c)));
                assert(q.drop_last() =~= p.drop_last());
                assert(current@ =~= q.last());
            }
        }
        i = i + 1;
    }
    let t = trim_chars(&current);
    if t.as_str().unicode_len() > 0 {
        stmts.push(t);
    }
    proof {
        let p = split_on_semicolons(chars@.take(i as int));
        assert(chars@.take(i as int) =~= script@);
        assert(p.drop_last().push(p.last()) =~= p);
        assert(stmts@.map_values(|t: String| t@) =~= nonempty_trimmed(p));
    }
    stmts
}

} // verus!
