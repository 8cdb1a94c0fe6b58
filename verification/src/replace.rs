//! Textual replacement: every non-overlapping occurrence of a pattern,
//! found left to right, is replaced once; replacement text is never
//! rescanned. This is the engine behind placeholder substitution.
use vstd::prelude::*;

verus! {

/// The string with every occurrence of `pat` replaced by `repl`: the
/// leftmost occurrence is replaced first and scanning resumes after the
/// replacement, so occurrences never overlap and replacement text is not
/// rescanned. An empty pattern replaces nothing.
pub open spec fn replace_spec(s: Seq<char>, pat: Seq<char>, repl: Seq<char>) -> Seq<char>
    decreases s.len(),
{
    if pat.len() == 0 || s.len() < pat.len() {
        s
    } else if s.take(pat.len() as int) == pat {
        repl + replace_spec(s.skip(pat.len() as int), pat, repl)
    } else {
        seq![s[0]] + replace_spec(s.drop_first(), pat, repl)
    }
}

/// Whether `pat` occurs somewhere in `s`.
pub open spec fn contains_seq(s: Seq<char>, pat: Seq<char>) -> bool {
    exists|i: int|
        0 <= i && i + pat.len() <= s.len() && #[trigger] s.subrange(i, i + pat.len() as int)
            == pat
}

/// Replacing a pattern that occurs nowhere in the string leaves the string
/// unchanged; in particular a placeholder with no occurrence is never
/// touched.
pub proof fn lemma_replace_absent(s: Seq<char>, pat: Seq<char>, repl: Seq<char>)
    requires
        !contains_seq(s, pat),
    ensures
        replace_spec(s, pat, repl) == s,
    decreases s.len(),
{
    if pat.len() == 0 || s.len() < pat.len() {
    } else {
        if s.take(pat.len() as int) == pat {
            assert(s.subrange(0, 0 + pat.len() as int) == pat);
            assert(contains_seq(s, pat));
        }
        assert forall|i: int|
            0 <= i && i + pat.len() <= s.drop_first().len() implies #[trigger] s.drop_first()
                .subrange(i, i + pat.len() as int) != pat by {
            if s.drop_first().subrange(i, i + pat.len() as int) == pat {
                assert(s.drop_first().subrange(i, i + pat.len() as int) =~= s.subrange(
                    i + 1,
                    i + 1 + pat.len() as int,
                ));
                assert(contains_seq(s, pat));
            }
        }
        lemma_replace_absent(s.drop_first(), pat, repl);
        assert(seq![s[0]] + s.drop_first() =~= s);
    }
}

/// Whether `pat` stands at position `i` of `v`.
fn match_at(v: &Vec<char>, i: usize, pat: &Vec<char>) -> (r: bool)
    requires
        i + pat@.len() <= v@.len(),
    ensures
        r == (v@.subrange(i as int, i + pat@.len()) == pat@),
{
    let mut j: usize = 0;
    while j < pat.len()
        invariant
            i + pat@.len() <= v@.len(),
            j <= pat@.len(),
            forall|m: int| 0 <= m < j ==> v@[i + m] == pat@[m],
        decreases pat@.len() - j,
    {
        let n = v.len();
        proof {
            assert(i + j < n);
        }
        if v[i + j] != pat[j] {
            proof {
                assert(v@.subrange(i as int, i + pat@.len())[j as int] != pat@[j as int]);
            }
            return false;
        }
        j = j + 1;
    }
    proof {
        assert(v@.subrange(i as int, i + pat@.len()) =~= pat@);
    }
    true
}

/// Replaces every occurrence of `pat` in `v` by `repl`, left to right and
/// without rescanning replacement text.
pub fn replace_all(v: &Vec<char>, pat: &Vec<char>, repl: &Vec<char>) -> (out: Vec<char>)
    ensures
        out@ == replace_spec(v@, pat@, repl@),
{
    let mut out: Vec<char> = Vec::new();
    if pat.len() == 0 {
        let mut i: usize = 0;
        while i < v.len()
            invariant
                pat@.len() == 0,
                i <= v@.len(),
                out@ == v@.take(i as int),
            decreases v@.len() - i,
        {
            out.push(v[i]);
            proof {
                assert(out@ =~= v@.take(i + 1));
            }
            i = i + 1;
        }
        proof {
            assert(out@ =~= v@);
        }
        return out;
    }
    let mut i: usize = 0;
    proof {
        assert(v@.skip(0) =~= v@);
        assert(out@ + replace_spec(v@, pat@, repl@) =~= replace_spec(v@, pat@, repl@));
    }
    while i < v.len()
        invariant
            pat@.len() > 0,
            i <= v@.len(),
            out@ + replace_spec(v@.skip(i as int), pat@, repl@) == replace_spec(
                v@,
                pat@,
                repl@,
            ),
        decreases v@.len() - i,
    {
        let ghost tail = v@.skip(i as int);
        if pat.len() <= v.len() - i && match_at(v, i, pat) {
            proof {
                assert(tail.take(pat@.len() as int) =~= v@.subrange(i as int, i + pat@.len()));
                assert(tail.skip(pat@.len() as int) =~= v@.skip(i + pat@.len()));
                assert(replace_spec(tail, pat@, repl@) == repl@ + replace_spec(
                    v@.skip(i + pat@.len()),
                    pat@,
                    repl@,
                ));
            }
            let ghost before = out@;
            let mut j: usize = 0;
            while j < repl.len()
                invariant
                    j <= repl@.len(),
                    out@ == before + repl@.take(j as int),
                decreases repl@.len() - j,
            {
                out.push(repl[j]);
                proof {
                    assert(out@ =~= before + repl@.take(j + 1));
                }
                j = j + 1;
            }
            proof {
                assert(out@ =~= before + repl@);
                assert((before + repl@) + replace_spec(v@.skip(i + pat@.len()), pat@, repl@)
                    =~= before + (repl@ + replace_spec(v@.skip(i + pat@.len()), pat@, repl@)));
            }
            i = i + pat.len();
        } else {
            proof {
                if i + pat@.len() <= v@.len() {
                    assert(tail.take(pat@.len() as int) =~= v@.subrange(
                        i as int,
                        i + pat@.len(),
                    ));
                }
                assert(tail.len() >= 1);
                assert(tail[0] == v@[i as int]);
                assert(tail.drop_first() =~= v@.skip(i + 1));
                assert(replace_spec(tail, pat@, repl@) == seq![v@[i as int]] + replace_spec(
                    v@.skip(i + 1),
                    pat@,
                    repl@,
                ));
            }
            let ghost before = out@;
            out.push(v[i]);
            proof {
                assert(out@ =~= before.push(v@[i as int]));
                assert((before.push(v@[i as int])) + replace_spec(v@.skip(i + 1), pat@, repl@)
                    =~= before + (seq![v@[i as int]] + replace_spec(
                    v@.skip(i + 1),
                    pat@,
                    repl@,
                )));
            }
            i = i + 1;
        }
    }
    proof {
        assert(v@.skip(v@.len() as int) =~= Seq::<char>::empty());
        assert(replace_spec(Seq::<char>::empty(), pat@, repl@) =~= Seq::<char>::empty());
        assert(out@ + Seq::<char>::empty() =~= out@);
    }
    out
}

} // verus!
