//! The list of users given as one comma-separated string.
use vstd::prelude::*;

use vstd::string::StrSliceExecFns;

verus! {

/// White space as `char::is_whitespace` defines it: the Unicode
/// `White_Space` characters.
pub open spec fn is_space(c: char) -> bool {
    let u = c as u32;
    (0x9 <= u && u <= 0xd) || u == 0x20 || u == 0x85 || u == 0xa0 || u == 0x1680 || (0x2000 <= u
        && u <= 0x200a) || u == 0x2028 || u == 0x2029 || u == 0x202f || u == 0x205f || u == 0x3000
}

fn space(c: char) -> (r: bool)
    ensures
        r == is_space(c),
{
    let u = c as u32;
    (0x9 <= u && u <= 0xd) || u == 0x20 || u == 0x85 || u == 0xa0 || u == 0x1680 || (0x2000 <= u
        && u <= 0x200a) || u == 0x2028 || u == 0x2029 || u == 0x202f || u == 0x205f || u == 0x3000
}

pub open spec fn trim_start(s: Seq<char>) -> Seq<char>
    decreases s.len(),
{
    if s.len() > 0 && is_space(s[0]) {
        trim_start(s.drop_first())
    } else {
        s
    }
}

pub open spec fn trim_end(s: Seq<char>) -> Seq<char>
    decreases s.len(),
{
    if s.len() > 0 && is_space(s.last()) {
        trim_end(s.drop_last())
    } else {
        s
    }
}

/// `s` without white space at either end.
pub open spec fn trim(s: Seq<char>) -> Seq<char> {
    trim_end(trim_start(s))
}

/// The pieces of `s` between commas, in order; `s` with no comma is one
/// piece.
pub open spec fn split_commas(s: Seq<char>) -> Seq<Seq<char>>
    decreases s.len(),
{
    if s.len() == 0 {
        seq![Seq::empty()]
    } else {
        let r = split_commas(s.drop_last());
        if s.last() == ',' {
            r.push(Seq::empty())
        } else {
            r.update(r.len() - 1, r.last().push(s.last()))
        }
    }
}

/// The user names in `s`: its comma-separated pieces, trimmed, without the
/// empty ones.
pub open spec fn users_of(s: Seq<char>) -> Seq<Seq<char>> {
    split_commas(s).map_values(|p: Seq<char>| trim(p)).filter(|t: Seq<char>| t.len() > 0)
}

proof fn lemma_split_nonempty(s: Seq<char>)
    ensures
        split_commas(s).len() >= 1,
    decreases s.len(),
{
    if s.len() > 0 {
        lemma_split_nonempty(s.drop_last());
    }
}

proof fn lemma_trim_start(s: Seq<char>, a: int)
    requires
        0 <= a <= s.len(),
        forall|i: int| 0 <= i < a ==> is_space(#[trigger] s[i]),
        a == s.len() || !is_space(s[a]),
    ensures
        trim_start(s) == s.subrange(a, s.len() as int),
    decreases a,
{
    if a == 0 {
        assert(s.subrange(0, s.len() as int) =~= s);
    } else {
        let t = s.drop_first();
        assert forall|i: int| 0 <= i < a - 1 implies is_space(#[trigger] t[i]) by {
            assert(t[i] == s[i + 1]);
        }
        lemma_trim_start(t, a - 1);
        assert(t.subrange(a - 1, t.len() as int) =~= s.subrange(a, s.len() as int));
    }
}

proof fn lemma_trim_end(s: Seq<char>, b: int)
    requires
        0 <= b <= s.len(),
        forall|i: int| b <= i < s.len() ==> is_space(#[trigger] s[i]),
        b == 0 || !is_space(s[b - 1]),
    ensures
        trim_end(s) == s.subrange(0, b),
    decreases s.len() - b,
{
    if b == s.len() {
        assert(s.subrange(0, b) =~= s);
    } else {
        let t = s.drop_last();
        assert forall|i: int| b <= i < t.len() implies is_space(#[trigger] t[i]) by {
            assert(t[i] == s[i]);
        }
        lemma_trim_end(t, b);
        assert(t.subrange(0, b) =~= s.subrange(0, b));
    }
}

/// Adds the trimmed `piece`, the characters of `text` from `start` on, to
/// `out` unless it trims to nothing.
fn push_trimmed(out: &mut Vec<String>, text: &str, start: usize, piece: &Vec<char>)
    requires
        start + piece@.len() <= text@.len() <= usize::MAX,
        piece@ == text@.subrange(start as int, start + piece@.len()),
    ensures
        final(out)@.map_values(|x: String| x@) == old(out)@.map_values(|x: String| x@)
            + seq![trim(piece@)].filter(|t: Seq<char>| t.len() > 0),
{
    let ghost s = piece@;
    let mut a: usize = 0;
    while a < piece.len() && space(piece[a])
        invariant
            0 <= a <= s.len(),
            piece@ == s,
            forall|i: int| 0 <= i < a ==> is_space(#[trigger] s[i]),
        decreases s.len() - a,
    {
        a = a + 1;
    }
    let mut b: usize = piece.len();
    while b > a && space(piece[b - 1])
        invariant
            a <= b <= s.len(),
            piece@ == s,
            forall|i: int| b <= i < s.len() ==> is_space(#[trigger] s[i]),
        decreases b,
    {
        b = b - 1;
    }
    let ghost t = s.subrange(a as int, s.len() as int);
    proof {
        lemma_trim_start(s, a as int);
        assert forall|i: int| b - a <= i < t.len() implies is_space(#[trigger] t[i]) by {
            assert(t[i] == s[i + a]);
        }
        if b > a {
            assert(t[b - a - 1] == s[b - 1]);
        }
        lemma_trim_end(t, b - a);
        assert(t.subrange(0, b - a) =~= s.subrange(a as int, b as int));
    }
    let ghost before = out@.map_values(|x: String| x@);
    let ghost one = seq![trim(piece@)];
    proof {
        reveal_with_fuel(Seq::filter, 2);
        assert(one.filter(|t: Seq<char>| t.len() > 0) =~= (if trim(s).len() > 0 {
            one
        } else {
            Seq::empty()
        })) by {
            assert(one.drop_last() =~= Seq::<Seq<char>>::empty());
        }
    }
    if b > a {
        let name = text.substring_char(start + a, start + b).to_owned();
        proof {
            assert(name@ =~= s.subrange(a as int, b as int));
        }
        out.push(name);
        proof {
            assert(out@.map_values(|x: String| x@) =~= before + one);
        }
    } else {
        proof {
            assert(out@.map_values(|x: String| x@) =~= before + Seq::<Seq<char>>::empty());
        }
    }
}

/// The user names in `s`: its comma-separated pieces, trimmed of white
/// space, without the empty ones; none where there is no string.
pub fn split_users(s: Option<&str>) -> (r: Vec<String>)
    ensures
        r@.map_values(|x: String| x@) == match s {
            Some(t) => users_of(t@),
            None => Seq::<Seq<char>>::empty(),
        },
{
    match s {
        None => {
            let r: Vec<String> = Vec::new();
            proof {
                assert(r@.map_values(|x: String| x@) =~= Seq::<Seq<char>>::empty());
            }
            r
        },
        Some(t) => {
            let ghost keep = |x: Seq<char>| x.len() > 0;
            let ghost tr = |p: Seq<char>| trim(p);
            let n = t.unicode_len();
            let mut out: Vec<String> = Vec::new();
            let mut cur: Vec<char> = Vec::new();
            let mut start: usize = 0;
            let mut pos: usize = 0;
            let ghost mut done: Seq<Seq<char>> = Seq::empty();
            proof {
                assert(out@.map_values(|x: String| x@) =~= done.map_values(tr).filter(keep));
                assert(split_commas(t@.subrange(0, 0)) =~= done.push(cur@)) by {
                    assert(t@.subrange(0, 0) =~= Seq::<char>::empty());
                }
            }
            for c in it: t.chars()
                invariant
                    it.seq() == t@,
                    n == t@.len(),
                    pos == it.index(),
                    start <= pos <= n,
                    cur@ == t@.subrange(start as int, pos as int),
                    split_commas(t@.subrange(0, it.index() as int)) == done.push(cur@),
                    out@.map_values(|x: String| x@) == done.map_values(tr).filter(keep),
                    keep == (|x: Seq<char>| x.len() > 0),
                    tr == (|p: Seq<char>| trim(p)),
            {
                let ghost k = it.index() as int;
                proof {
                    assert(t@.subrange(0, k + 1).drop_last() =~= t@.subrange(0, k));
                    assert(t@.subrange(0, k + 1).last() == c);
                }
                if c == ',' {
                    push_trimmed(&mut out, t, start, &cur);
                    proof {
                        let d2 = done.push(cur@);
                        assert(d2.map_values(tr) =~= done.map_values(tr).push(trim(cur@)));
                        done.map_values(tr).lemma_filter_push(trim(cur@), keep);
                        if trim(cur@).len() > 0 {
                            assert(seq![trim(cur@)].filter(keep) =~= seq![trim(cur@)]) by {
                                reveal_with_fuel(Seq::filter, 2);
                                assert(seq![trim(cur@)].drop_last() =~= Seq::<Seq<char>>::empty());
                            }
                        } else {
                            assert(seq![trim(cur@)].filter(keep) =~= Seq::<Seq<char>>::empty()) by {
                                reveal_with_fuel(Seq::filter, 2);
                                assert(seq![trim(cur@)].drop_last() =~= Seq::<Seq<char>>::empty());
                            }
                        }
                        assert(out@.map_values(|x: String| x@) =~= d2.map_values(tr).filter(keep));
                        done = d2;
                    }
                    cur = Vec::new();
                    start = pos + 1;
                    proof {
                        assert(split_commas(t@.subrange(0, k + 1)) =~= done.push(cur@));
                    }
                } else {
                    cur.push(c);
                    proof {
                        assert(split_commas(t@.subrange(0, k + 1)) =~= done.push(cur@));
                        assert(cur@ =~= t@.subrange(start as int, k + 1));
                    }
                }
                pos = pos + 1;
            }
            proof {
                assert(t@.subrange(0, t@.len() as int) =~= t@);
            }
            push_trimmed(&mut out, t, start, &cur);
            proof {
                let d2 = done.push(cur@);
                assert(d2.map_values(tr) =~= done.map_values(tr).push(trim(cur@)));
                done.map_values(tr).lemma_filter_push(trim(cur@), keep);
                if trim(cur@).len() > 0 {
                    assert(seq![trim(cur@)].filter(keep) =~= seq![trim(cur@)]) by {
                        reveal_with_fuel(Seq::filter, 2);
                        assert(seq![trim(cur@)].drop_last() =~= Seq::<Seq<char>>::empty());
                    }
                } else {
                    assert(seq![trim(cur@)].filter(keep) =~= Seq::<Seq<char>>::empty()) by {
                        reveal_with_fuel(Seq::filter, 2);
                        assert(seq![trim(cur@)].drop_last() =~= Seq::<Seq<char>>::empty());
                    }
                }
                assert(out@.map_values(|x: String| x@) =~= d2.map_values(tr).filter(keep));
                assert(users_of(t@) == d2.map_values(tr).filter(keep));
            }
            out
        },
    }
}

} // verus!
