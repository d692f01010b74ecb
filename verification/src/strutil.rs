//! Character-level string utilities for the line-oriented wire protocol:
//! prefix tests, whitespace trimming and splitting, case-insensitive verb
//! comparison, and substring search.  Every executable function is specified
//! against a spec-level account of the same operation on `Seq<char>`.

use vstd::prelude::*;

verus! {

/// The whitespace characters recognized between protocol fields: the ASCII
/// characters that Rust's `char::is_whitespace` accepts (the wire format is
/// ASCII, so the non-ASCII whitespace code points never occur in it).
pub open spec fn is_ws(c: char) -> bool {
    c == ' ' || c == '\t' || c == '\n' || c == '\r' || c == '\u{b}' || c == '\u{c}'
}

/// `p` is a prefix of `s`.
pub open spec fn has_prefix(s: Seq<char>, p: Seq<char>) -> bool {
    p.len() <= s.len() && s.take(p.len() as int) == p
}

/// `s` with its trailing whitespace removed.
pub open spec fn trim_end_spec(s: Seq<char>) -> Seq<char>
    decreases s.len(),
{
    if s.len() > 0 && is_ws(s[s.len() - 1]) {
        trim_end_spec(s.drop_last())
    } else {
        s
    }
}

/// Whether `c` occurs in `s`.
pub open spec fn contains_char(s: Seq<char>, c: char) -> bool {
    exists|i: int| 0 <= i < s.len() && s[i] == c
}

/// Length of the maximal whitespace-free prefix of `s`.
pub open spec fn token_len(s: Seq<char>) -> int
    decreases s.len(),
{
    if s.len() == 0 || is_ws(s[0]) {
        0
    } else {
        1 + token_len(s.skip(1))
    }
}

pub proof fn lemma_token_len(s: Seq<char>)
    ensures
        0 <= token_len(s) <= s.len(),
        forall|j: int| 0 <= j < token_len(s) ==> !is_ws(s[j]),
        token_len(s) < s.len() ==> is_ws(s[token_len(s)]),
    decreases s.len(),
{
    if s.len() == 0 || is_ws(s[0]) {
    } else {
        lemma_token_len(s.skip(1));
        assert forall|j: int| 0 <= j < token_len(s) implies !is_ws(s[j]) by {
            if j >= 1 {
                assert(s.skip(1)[j - 1] == s[j]);
            }
        }
        if token_len(s) < s.len() {
            assert(s.skip(1)[token_len(s) - 1] == s[token_len(s)]);
        }
    }
}

/// The exact length of a whitespace-free run determines `token_len`.
pub proof fn lemma_token_len_is(s: Seq<char>, k: int)
    requires
        0 <= k <= s.len(),
        forall|j: int| 0 <= j < k ==> !is_ws(s[j]),
        k == s.len() || is_ws(s[k]),
    ensures
        token_len(s) == k,
    decreases k,
{
    if k == 0 {
    } else {
        assert(!is_ws(s[0]));
        assert forall|j: int| 0 <= j < k - 1 implies !is_ws(s.skip(1)[j]) by {
            assert(s.skip(1)[j] == s[j + 1]);
        }
        if k < s.len() {
            assert(s.skip(1)[k - 1] == s[k]);
        }
        lemma_token_len_is(s.skip(1), k - 1);
    }
}

/// The fields of `s`: its maximal whitespace-free runs, in order.  This is
/// what `str::split_whitespace` yields on ASCII input.
pub open spec fn split_ws_spec(s: Seq<char>) -> Seq<Seq<char>>
    decreases s.len(),
    via split_ws_spec_dec
{
    if s.len() == 0 {
        Seq::empty()
    } else if is_ws(s[0]) {
        split_ws_spec(s.skip(1))
    } else {
        seq![s.take(token_len(s))] + split_ws_spec(s.skip(token_len(s)))
    }
}

#[via_fn]
proof fn split_ws_spec_dec(s: Seq<char>) {
    lemma_token_len(s);
}

/// Splitting passes over a leading whitespace character.
pub proof fn lemma_split_ws_head_ws(s: Seq<char>)
    requires
        s.len() > 0,
        is_ws(s[0]),
    ensures
        split_ws_spec(s) == split_ws_spec(s.skip(1)),
{
}

/// A maximal leading token splits off whole: if `s` opens with a
/// whitespace-free `t` followed by nothing or by whitespace, then `t` is
/// the first field of `s` and the rest splits on its own.
pub proof fn lemma_split_ws_leading_token(s: Seq<char>, t: Seq<char>, rest: Seq<char>)
    requires
        s == t + rest,
        t.len() > 0,
        forall|i: int| 0 <= i < t.len() ==> !is_ws(t[i]),
        rest.len() == 0 || is_ws(rest[0]),
    ensures
        split_ws_spec(s) == seq![t] + split_ws_spec(rest),
{
    assert forall|j: int| 0 <= j < t.len() implies !is_ws(s[j]) by {
        assert(s[j] == t[j]);
    }
    if rest.len() > 0 {
        assert(s[t.len() as int] == rest[0]);
    }
    lemma_token_len_is(s, t.len() as int);
    assert(s[0] == t[0]);
    assert(s.take(t.len() as int) =~= t);
    assert(s.skip(t.len() as int) =~= rest);
}

/// A trailing whitespace character falls to the trim.
pub proof fn lemma_trim_end_ws_char(s: Seq<char>, c: char)
    requires
        is_ws(c),
    ensures
        trim_end_spec(s.push(c)) == trim_end_spec(s),
{
    assert(s.push(c).drop_last() =~= s);
    assert(s.push(c)[s.len() as int] == c);
}

/// A sequence without trailing whitespace trims to itself.
pub proof fn lemma_trim_end_no_ws(s: Seq<char>)
    requires
        s.len() == 0 || !is_ws(s[s.len() - 1]),
    ensures
        trim_end_spec(s) == s,
{
}

/// Executable whitespace test matching `is_ws`.
pub fn is_ws_char(c: char) -> (r: bool)
    ensures
        r == is_ws(c),
{
    c == ' ' || c == '\t' || c == '\n' || c == '\r' || c == '\u{b}' || c == '\u{c}'
}

/// The two strings hold the same characters.
pub fn str_eq(a: &str, b: &str) -> (r: bool)
    ensures
        r == (a@ == b@),
{
    let a_len = a.unicode_len();
    let b_len = b.unicode_len();
    if a_len != b_len {
        assert(a@ != b@) by {
            assert(a@.len() != b@.len());
        }
        return false;
    }
    let mut i: usize = 0;
    while i < a_len
        invariant
            i <= a_len,
            a_len == a@.len(),
            b_len == b@.len(),
            a_len == b_len,
            forall|j: int| 0 <= j < i ==> a@[j] == b@[j],
        decreases a_len - i,
    {
        if a.get_char(i) != b.get_char(i) {
            return false;
        }
        i = i + 1;
    }
    proof {
        assert(a@ =~= b@);
    }
    true
}

/// `s` starts with `p`.
pub fn starts_with(s: &str, p: &str) -> (r: bool)
    ensures
        r == has_prefix(s@, p@),
{
    let s_len = s.unicode_len();
    let p_len = p.unicode_len();
    if p_len > s_len {
        return false;
    }
    let mut i: usize = 0;
    while i < p_len
        invariant
            i <= p_len,
            p_len <= s_len,
            s_len == s@.len(),
            p_len == p@.len(),
            forall|j: int| 0 <= j < i ==> s@[j] == p@[j],
        decreases p_len - i,
    {
        if s.get_char(i) != p.get_char(i) {
            assert(s@.take(p@.len() as int)[i as int] != p@[i as int]);
            return false;
        }
        i = i + 1;
    }
    proof {
        assert(s@.take(p@.len() as int) =~= p@);
    }
    true
}

/// `s` with its trailing whitespace removed.
pub fn trim_end_part(s: &str) -> (r: &str)
    ensures
        r@ == trim_end_spec(s@),
{
    let len = s.unicode_len();
    let mut end: usize = len;
    proof {
        assert(s@.take(len as int) =~= s@);
    }
    while end > 0 && is_ws_char(s.get_char(end - 1))
        invariant
            end <= len,
            len == s@.len(),
            trim_end_spec(s@) == trim_end_spec(s@.take(end as int)),
            forall|j: int| end <= j < len ==> is_ws(s@[j]),
        decreases end,
    {
        proof {
            assert(s@.take(end as int).drop_last() =~= s@.take(end - 1));
        }
        end = end - 1;
    }
    proof {
        if end > 0 {
            assert(s@.take(end as int)[end - 1] == s@[end - 1]);
        }
        assert(trim_end_spec(s@.take(end as int)) == s@.take(end as int));
        if end == len {
            assert(s@.take(end as int) =~= s@);
        }
    }
    s.substring_char(0, end)
}

/// The whitespace-separated fields of `s`, as owned strings.
pub fn split_whitespace_tokens(s: &str) -> (toks: Vec<String>)
    ensures
        toks.deep_view() == split_ws_spec(s@),
{
    let len = s.unicode_len();
    let mut toks: Vec<String> = Vec::new();
    let mut i: usize = 0;
    proof {
        assert(s@.skip(0) =~= s@);
        assert(toks.deep_view() =~= Seq::<Seq<char>>::empty());
        assert(toks.deep_view() + split_ws_spec(s@) =~= split_ws_spec(s@));
    }
    while i < len
        invariant
            i <= len,
            len == s@.len(),
            split_ws_spec(s@) == toks.deep_view() + split_ws_spec(s@.skip(i as int)),
        decreases len - i,
    {
        if is_ws_char(s.get_char(i)) {
            proof {
                assert(s@.skip(i as int)[0] == s@[i as int]);
                assert(s@.skip(i as int).skip(1) =~= s@.skip(i + 1));
            }
            i = i + 1;
        } else {
            let start = i;
            let mut j: usize = i + 1;
            while j < len && !is_ws_char(s.get_char(j))
                invariant
                    start < j <= len,
                    len == s@.len(),
                    forall|t: int| start <= t < j ==> !is_ws(s@[t]),
                decreases len - j,
            {
                j = j + 1;
            }
            let tok = s.substring_char(start, j);
            proof {
                let suf = s@.skip(start as int);
                assert forall|t: int| 0 <= t < j - start implies !is_ws(suf[t]) by {
                    assert(suf[t] == s@[start + t]);
                }
                if (j as int) < len {
                    assert(suf[j - start] == s@[j as int]);
                }
                lemma_token_len_is(suf, j - start);
                assert(!is_ws(suf[0]));
                assert(suf.take(j - start) =~= s@.subrange(start as int, j as int));
                assert(suf.skip(j - start) =~= s@.skip(j as int));
                assert(split_ws_spec(suf) == seq![tok@] + split_ws_spec(s@.skip(j as int)));
            }
            let ghost old_toks = toks.deep_view();
            toks.push(String::from_str(tok));
            proof {
                assert(toks.deep_view() =~= old_toks.push(tok@));
                assert(old_toks + (seq![tok@] + split_ws_spec(s@.skip(j as int)))
                    =~= toks.deep_view() + split_ws_spec(s@.skip(j as int)));
            }
            i = j;
        }
    }
    proof {
        assert(s@.skip(len as int) =~= Seq::<char>::empty());
        assert(toks.deep_view() + split_ws_spec(s@.skip(len as int)) =~= toks.deep_view());
    }
    toks
}

/// The code point of `c` after ASCII upper-casing (the protocol verbs are
/// ASCII, so ASCII case folding is what deciding them needs).
pub open spec fn upper_val(c: char) -> int {
    if 97 <= c as int <= 122 {
        c as int - 32
    } else {
        c as int
    }
}

/// `tok`, upper-cased, spells `verb`.
pub open spec fn verb_matches(tok: Seq<char>, verb: Seq<char>) -> bool {
    tok.len() == verb.len()
        && forall|i: int| 0 <= i < tok.len() ==> upper_val(tok[i]) == #[trigger] verb[i] as int
}

/// Case-insensitive comparison of a token against an upper-case verb.
pub fn verb_eq(tok: &str, verb: &str) -> (r: bool)
    ensures
        r == verb_matches(tok@, verb@),
{
    let t_len = tok.unicode_len();
    let v_len = verb.unicode_len();
    if t_len != v_len {
        return false;
    }
    let mut i: usize = 0;
    while i < t_len
        invariant
            i <= t_len,
            t_len == tok@.len(),
            v_len == verb@.len(),
            t_len == v_len,
            forall|j: int| 0 <= j < i ==> upper_val(tok@[j]) == #[trigger] verb@[j] as int,
        decreases t_len - i,
    {
        let tc = tok.get_char(i) as u32;
        let vc = verb.get_char(i) as u32;
        let up = if 97 <= tc && tc <= 122 {
            tc - 32
        } else {
            tc
        };
        if up != vc {
            return false;
        }
        i = i + 1;
    }
    true
}

/// `p` occurs contiguously somewhere in `s`.
pub open spec fn contains_seq(s: Seq<char>, p: Seq<char>) -> bool {
    exists|i: int| 0 <= i && i + p.len() <= s.len() && #[trigger] s.subrange(i, i + p.len()) == p
}

/// Substring search matching `contains_seq`.
pub fn contains_str(s: &str, p: &str) -> (r: bool)
    ensures
        r == contains_seq(s@, p@),
{
    let s_len = s.unicode_len();
    let p_len = p.unicode_len();
    if p_len > s_len {
        return false;
    }
    if p_len == 0 {
        proof {
            assert(s@.subrange(0, 0 + p@.len() as int) =~= p@);
        }
        return true;
    }
    let mut i: usize = 0;
    while i <= s_len - p_len
        invariant
            1 <= p_len <= s_len,
            i <= s_len - p_len + 1,
            s_len == s@.len(),
            p_len == p@.len(),
            forall|t: int| 0 <= t < i ==> #[trigger] s@.subrange(t, t + p@.len()) != p@,
        decreases s_len - i,
    {
        let mut j: usize = 0;
        let mut matches = true;
        while j < p_len
            invariant
                j <= p_len,
                i + p_len <= s_len,
                s_len == s@.len(),
                p_len == p@.len(),
                matches ==> forall|t: int| 0 <= t < j ==> s@[i + t] == p@[t],
                !matches ==> s@.subrange(i as int, i + p@.len()) != p@,
            decreases p_len - j,
        {
            if s.get_char(i + j) != p.get_char(j) {
                matches = false;
                proof {
                    assert(s@.subrange(i as int, i + p@.len())[j as int] != p@[j as int]);
                }
                j = p_len;
            } else {
                j = j + 1;
            }
        }
        if matches {
            proof {
                assert(s@.subrange(i as int, i + p@.len()) =~= p@);
            }
            return true;
        }
        i = i + 1;
    }
    false
}

} // verus!
