//! Character-level text utilities: whitespace classification, trimming,
//! splitting, prefix handling, and cutting a title at the `" |"` delimiter.
//!
//! All executable functions work on `Vec<char>` so that every step of the
//! extraction pipeline is specified over `Seq<char>`.

use vstd::prelude::*;

verus! {

/// The characters of the Unicode `White_Space` property, the set used by
/// `char::is_whitespace` and `str::split_whitespace`.
pub open spec fn is_space_char(c: char) -> bool {
    ||| c == ' '
    ||| c == '\t'
    ||| c == '\n'
    ||| c == '\u{b}'
    ||| c == '\u{c}'
    ||| c == '\r'
    ||| c == '\u{85}'
    ||| c == '\u{a0}'
    ||| c == '\u{1680}'
    ||| ('\u{2000}' <= c && c <= '\u{200a}')
    ||| c == '\u{2028}'
    ||| c == '\u{2029}'
    ||| c == '\u{202f}'
    ||| c == '\u{205f}'
    ||| c == '\u{3000}'
}

pub fn is_space(c: char) -> (r: bool)
    ensures
        r == is_space_char(c),
{
    c == ' ' || c == '\t' || c == '\n' || c == '\u{b}' || c == '\u{c}' || c == '\r'
        || c == '\u{85}' || c == '\u{a0}' || c == '\u{1680}'
        || ('\u{2000}' <= c && c <= '\u{200a}') || c == '\u{2028}' || c == '\u{2029}'
        || c == '\u{202f}' || c == '\u{205f}' || c == '\u{3000}'
}

/// The characters of `s` read in order, as a vector.
pub fn chars_of_str(s: &str) -> (r: Vec<char>)
    ensures
        r@ == s@,
{
    let n = s.unicode_len();
    let mut r: Vec<char> = Vec::new();
    let mut i: usize = 0;
    while i < n
        invariant
            n == s@.len(),
            i <= n,
            r@ == s@.subrange(0, i as int),
        decreases n - i,
    {
        let c = s.get_char(i);
        r.push(c);
        proof {
            assert(r@ =~= s@.subrange(0, i + 1 as int));
        }
        i += 1;
    }
    proof {
        assert(s@.subrange(0, n as int) =~= s@);
    }
    r
}

/// Relies on `String: FromIterator<char>`: collecting characters in order
/// yields the string of exactly those characters.
#[verifier::external_body]
pub fn string_from_chars(v: &Vec<char>) -> (s: String)
    ensures
        s@ == v@,
{
    v.iter().collect()
}

pub fn chars_eq(a: &Vec<char>, b: &Vec<char>) -> (r: bool)
    ensures
        r == (a@ == b@),
{
    if a.len() != b.len() {
        proof {
            assert(a@ != b@) by {
                if a@ == b@ {
                    assert(a@.len() == b@.len());
                }
            }
        }
        return false;
    }
    let mut i: usize = 0;
    while i < a.len()
        invariant
            a@.len() == b@.len(),
            i <= a@.len(),
            forall|k: int| 0 <= k < i ==> a@[k] == b@[k],
        decreases a@.len() - i,
    {
        if a[i] != b[i] {
            proof {
                assert(a@ != b@) by {
                    if a@ == b@ {
                        assert(a@[i as int] == b@[i as int]);
                    }
                }
            }
            return false;
        }
        i += 1;
    }
    proof {
        assert(a@ =~= b@);
    }
    true
}

/// `s` with surrounding white space removed, as `str::trim` leaves it.
pub open spec fn trim_of(s: Seq<char>) -> Seq<char>
    decreases s.len(),
{
    if s.len() == 0 {
        s
    } else if is_space_char(s[0]) {
        trim_of(s.drop_first())
    } else if is_space_char(s.last()) {
        trim_of(s.drop_last())
    } else {
        s
    }
}

/// Trimming reaches a fixed point: a trimmed string trims to itself.
pub proof fn lemma_trim_fixed(s: Seq<char>)
    ensures
        trim_of(trim_of(s)) == trim_of(s),
    decreases s.len(),
{
    if s.len() == 0 {
    } else if is_space_char(s[0]) {
        lemma_trim_fixed(s.drop_first());
    } else if is_space_char(s.last()) {
        lemma_trim_fixed(s.drop_last());
    }
}

pub fn trim_chars(v: &Vec<char>) -> (r: Vec<char>)
    ensures
        r@ == trim_of(v@),
{
    let mut i: usize = 0;
    let mut j: usize = v.len();
    proof {
        assert(v@.subrange(0, v@.len() as int) =~= v@);
    }
    while i < j && is_space(v[i])
        invariant
            i <= j,
            j <= v@.len(),
            trim_of(v@) == trim_of(v@.subrange(i as int, j as int)),
        decreases j - i,
    {
        proof {
            assert(v@.subrange(i as int, j as int).drop_first() =~= v@.subrange(
                i + 1 as int,
                j as int,
            ));
        }
        i += 1;
    }
    while i < j && is_space(v[j - 1])
        invariant
            i <= j,
            j <= v@.len(),
            trim_of(v@) == trim_of(v@.subrange(i as int, j as int)),
            i < j ==> !is_space_char(v@[i as int]),
        decreases j - i,
    {
        proof {
            assert(v@.subrange(i as int, j as int).drop_last() =~= v@.subrange(
                i as int,
                j - 1 as int,
            ));
        }
        j -= 1;
    }
    let mut r: Vec<char> = Vec::new();
    let mut k: usize = i;
    while k < j
        invariant
            i <= k <= j,
            j <= v@.len(),
            r@ == v@.subrange(i as int, k as int),
        decreases j - k,
    {
        r.push(v[k]);
        proof {
            assert(r@ =~= v@.subrange(i as int, k + 1 as int));
        }
        k += 1;
    }
    proof {
        assert(v@.subrange(i as int, i as int) =~= Seq::<char>::empty());
    }
    r
}

/// Whether a separator for [`split_of`]: any white space when `ws` holds,
/// the newline character otherwise.
pub open spec fn sep_char(ws: bool, c: char) -> bool {
    if ws {
        is_space_char(c)
    } else {
        c == '\n'
    }
}

/// The pieces of `s` between separator characters, separators removed and
/// empty pieces kept: `n` separators give `n + 1` pieces, as `str::split`
/// on a single-character pattern does.
pub open spec fn split_of(s: Seq<char>, ws: bool) -> Seq<Seq<char>>
    decreases s.len(),
{
    if s.len() == 0 {
        seq![Seq::<char>::empty()]
    } else if sep_char(ws, s[0]) {
        seq![Seq::<char>::empty()] + split_of(s.drop_first(), ws)
    } else {
        let rest = split_of(s.drop_first(), ws);
        seq![seq![s[0]] + rest[0]] + rest.drop_first()
    }
}

pub proof fn lemma_split_nonempty(s: Seq<char>, ws: bool)
    ensures
        split_of(s, ws).len() >= 1,
    decreases s.len(),
{
    if s.len() > 0 {
        lemma_split_nonempty(s.drop_first(), ws);
    }
}

/// The split of `s` with its first piece extended on the left by `c`.
pub open spec fn glue_first(c: Seq<char>, l: Seq<Seq<char>>) -> Seq<Seq<char>> {
    seq![c + l[0]] + l.drop_first()
}

pub fn split_chars(v: &Vec<char>, ws: bool) -> (r: Vec<Vec<char>>)
    ensures
        r@.map_values(|p: Vec<char>| p@) == split_of(v@, ws),
{
    let mut out: Vec<Vec<char>> = Vec::new();
    let mut cur: Vec<char> = Vec::new();
    let mut k: usize = 0;
    proof {
        assert(v@.skip(0) =~= v@);
        assert(glue_first(cur@, split_of(v@, ws)) =~= split_of(v@, ws)) by {
            lemma_split_nonempty(v@, ws);
            let l = split_of(v@, ws);
            assert(Seq::<char>::empty() + l[0] =~= l[0]);
            assert(seq![l[0]] + l.drop_first() =~= l);
        }
        assert(out@.map_values(|p: Vec<char>| p@) + glue_first(cur@, split_of(v@, ws)) =~= split_of(
            v@,
            ws,
        ));
    }
    while k < v.len()
        invariant
            k <= v@.len(),
            split_of(v@, ws) == out@.map_values(|p: Vec<char>| p@) + glue_first(
                cur@,
                split_of(v@.skip(k as int), ws),
            ),
        decreases v@.len() - k,
    {
        let c = v[k];
        proof {
            assert(v@.skip(k as int)[0] == c);
            assert(v@.skip(k as int).drop_first() =~= v@.skip(k + 1 as int));
        }
        let ghost rest = split_of(v@.skip(k as int), ws);
        let ghost rest2 = split_of(v@.skip(k + 1 as int), ws);
        proof {
            lemma_split_nonempty(v@.skip(k + 1 as int), ws);
        }
        if is_space(c) && ws || c == '\n' && !ws {
            proof {
                assert(rest == seq![Seq::<char>::empty()] + rest2);
                assert(glue_first(cur@, rest) =~= seq![cur@] + rest2) by {
                    assert(rest[0] =~= Seq::<char>::empty());
                    assert(cur@ + rest[0] =~= cur@);
                    assert(rest.drop_first() =~= rest2);
                }
            }
            let finished = cur;
            out.push(finished);
            cur = Vec::new();
            proof {
                assert(glue_first(cur@, rest2) =~= rest2) by {
                    assert(cur@ + rest2[0] =~= rest2[0]);
                    assert(seq![rest2[0]] + rest2.drop_first() =~= rest2);
                }
                assert(out@.map_values(|p: Vec<char>| p@) + glue_first(cur@, rest2) =~= split_of(
                    v@,
                    ws,
                ));
            }
        } else {
            proof {
                assert(rest == seq![seq![c] + rest2[0]] + rest2.drop_first());
                assert(glue_first(cur@, rest) =~= glue_first(cur@.push(c), rest2)) by {
                    assert(rest[0] == seq![c] + rest2[0]);
                    assert(cur@ + (seq![c] + rest2[0]) =~= cur@.push(c) + rest2[0]);
                    assert(rest.drop_first() =~= rest2.drop_first());
                    assert(glue_first(cur@, rest) == seq![cur@ + rest[0]] + rest.drop_first());
                }
            }
            cur.push(c);
        }
        k += 1;
    }
    proof {
        assert(v@.skip(v@.len() as int) =~= Seq::<char>::empty());
    }
    out.push(cur);
    proof {
        let l = split_of(v@.skip(v@.len() as int), ws);
        assert(l == seq![Seq::<char>::empty()]);
        assert(out@.map_values(|p: Vec<char>| p@) =~= split_of(v@, ws));
    }
    out
}

/// Whether the delimiter `" |"` stands at position `i` of `s`.
pub open spec fn is_delim_at(s: Seq<char>, i: int) -> bool {
    0 <= i && i + 1 < s.len() && s[i] == ' ' && s[i + 1] == '|'
}

/// The part of `s` before its first `" |"` delimiter, or all of `s` when
/// the delimiter does not occur.
pub open spec fn before_delim(s: Seq<char>) -> Seq<char>
    decreases s.len(),
{
    if s.len() >= 2 && s[0] == ' ' && s[1] == '|' {
        Seq::empty()
    } else if s.len() == 0 {
        s
    } else {
        seq![s[0]] + before_delim(s.drop_first())
    }
}

pub proof fn lemma_before_delim_first(t: Seq<char>)
    ensures
        before_delim(t).len() > 0 ==> t.len() > 0 && before_delim(t)[0] == t[0],
{
    if t.len() >= 2 && t[0] == ' ' && t[1] == '|' {
    } else if t.len() == 0 {
    } else {
    }
}

/// The part before the first delimiter holds no delimiter itself.
pub proof fn lemma_before_delim_clean(s: Seq<char>)
    ensures
        forall|i: int| !is_delim_at(before_delim(s), i),
    decreases s.len(),
{
    if s.len() >= 2 && s[0] == ' ' && s[1] == '|' {
    } else if s.len() == 0 {
    } else {
        lemma_before_delim_clean(s.drop_first());
        let r = before_delim(s);
        let q = before_delim(s.drop_first());
        assert forall|i: int| !is_delim_at(r, i) by {
            if is_delim_at(r, i) {
                assert(r == seq![s[0]] + q);
                if i == 0 {
                    assert(r[1] == q[0]);
                    lemma_before_delim_first(s.drop_first());
                    assert(s[1] == '|');
                    assert(s[0] == ' ');
                    assert(false);
                } else {
                    assert(r[i] == q[i - 1]);
                    assert(r[i + 1] == q[i]);
                    assert(is_delim_at(q, i - 1));
                    assert(false);
                }
            }
        }
    }
}

pub fn cut_at_delim(v: &Vec<char>) -> (r: Vec<char>)
    ensures
        r@ == before_delim(v@),
{
    let mut k: usize = 0;
    proof {
        assert(v@.skip(0) =~= v@);
        assert(v@.subrange(0, 0) + before_delim(v@) =~= before_delim(v@));
    }
    while k < v.len()
        invariant
            k <= v@.len(),
            before_delim(v@) == v@.subrange(0, k as int) + before_delim(v@.skip(k as int)),
        decreases v@.len() - k,
    {
        proof {
            assert(v@.skip(k as int)[0] == v@[k as int]);
            assert(v@.skip(k as int).drop_first() =~= v@.skip(k + 1 as int));
        }
        if k + 1 < v.len() && v[k] == ' ' && v[k + 1] == '|' {
            proof {
                assert(v@.skip(k as int)[1] == v@[k + 1 as int]);
                assert(before_delim(v@.skip(k as int)) =~= Seq::<char>::empty());
                assert(before_delim(v@) =~= v@.subrange(0, k as int));
            }
            let mut r: Vec<char> = Vec::new();
            let mut m: usize = 0;
            while m < k
                invariant
                    m <= k,
                    k <= v@.len(),
                    r@ == v@.subrange(0, m as int),
                decreases k - m,
            {
                r.push(v[m]);
                proof {
                    assert(r@ =~= v@.subrange(0, m + 1 as int));
                }
                m += 1;
            }
            return r;
        }
        proof {
            assert(before_delim(v@.skip(k as int)) == seq![v@[k as int]] + before_delim(
                v@.skip(k + 1 as int),
            ));
            assert(v@.subrange(0, k as int) + seq![v@[k as int]] =~= v@.subrange(0, k + 1 as int));
            assert(v@.subrange(0, k + 1 as int) + before_delim(v@.skip(k + 1 as int)) =~= v@.subrange(
                0,
                k as int,
            ) + before_delim(v@.skip(k as int)));
        }
        k += 1;
    }
    proof {
        assert(v@.skip(v@.len() as int) =~= Seq::<char>::empty());
        assert(before_delim(v@) =~= v@.subrange(0, v@.len() as int));
        assert(v@.subrange(0, v@.len() as int) =~= v@);
    }
    let mut r: Vec<char> = Vec::new();
    let mut m: usize = 0;
    while m < v.len()
        invariant
            m <= v@.len(),
            r@ == v@.subrange(0, m as int),
        decreases v@.len() - m,
    {
        r.push(v[m]);
        proof {
            assert(r@ =~= v@.subrange(0, m + 1 as int));
        }
        m += 1;
    }
    r
}

/// `v` from position `i` on.
pub fn chars_from(v: &Vec<char>, i: usize) -> (r: Vec<char>)
    requires
        i <= v@.len(),
    ensures
        r@ == v@.skip(i as int),
{
    let mut r: Vec<char> = Vec::new();
    let mut k: usize = i;
    while k < v.len()
        invariant
            i <= k <= v@.len(),
            r@ == v@.subrange(i as int, k as int),
        decreases v@.len() - k,
    {
        r.push(v[k]);
        proof {
            assert(r@ =~= v@.subrange(i as int, k + 1 as int));
        }
        k += 1;
    }
    proof {
        assert(v@.subrange(i as int, v@.len() as int) =~= v@.skip(i as int));
    }
    r
}

pub fn has_prefix(v: &Vec<char>, p: &Vec<char>) -> (r: bool)
    ensures
        r == p@.is_prefix_of(v@),
{
    if p.len() > v.len() {
        return false;
    }
    let mut i: usize = 0;
    while i < p.len()
        invariant
            p@.len() <= v@.len(),
            i <= p@.len(),
            forall|k: int| 0 <= k < i ==> p@[k] == v@[k],
        decreases p@.len() - i,
    {
        if p[i] != v[i] {
            proof {
                assert(!p@.is_prefix_of(v@)) by {
                    if p@.is_prefix_of(v@) {
                        assert(p@ =~= v@.subrange(0, p@.len() as int));
                        assert(p@[i as int] == v@[i as int]);
                    }
                }
            }
            return false;
        }
        i += 1;
    }
    proof {
        assert(p@ =~= v@.subrange(0, p@.len() as int));
    }
    true
}

} // verus!
