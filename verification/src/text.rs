//! Character-level text utilities: string equality, whitespace trimming and
//! whitespace-run collapsing, all specified over `Seq<char>`.

use vstd::prelude::*;

verus! {

/// The Unicode `White_Space` characters: the set that both `str::trim` and
/// the `\s` character class recognize.
pub open spec fn is_space(c: char) -> bool {
    c == ' ' || c == '\t' || c == '\n' || c == '\r' || c == '\u{b}' || c == '\u{c}'
        || c == '\u{85}' || c == '\u{a0}' || c == '\u{1680}' || c == '\u{2000}'
        || c == '\u{2001}' || c == '\u{2002}' || c == '\u{2003}' || c == '\u{2004}'
        || c == '\u{2005}' || c == '\u{2006}' || c == '\u{2007}' || c == '\u{2008}'
        || c == '\u{2009}' || c == '\u{200a}' || c == '\u{2028}' || c == '\u{2029}'
        || c == '\u{202f}' || c == '\u{205f}' || c == '\u{3000}'
}

/// Executable test for `is_space`.
pub fn space_char(c: char) -> (r: bool)
    ensures
        r == is_space(c),
{
    c == ' ' || c == '\t' || c == '\n' || c == '\r' || c == '\u{b}' || c == '\u{c}'
        || c == '\u{85}' || c == '\u{a0}' || c == '\u{1680}' || c == '\u{2000}'
        || c == '\u{2001}' || c == '\u{2002}' || c == '\u{2003}' || c == '\u{2004}'
        || c == '\u{2005}' || c == '\u{2006}' || c == '\u{2007}' || c == '\u{2008}'
        || c == '\u{2009}' || c == '\u{200a}' || c == '\u{2028}' || c == '\u{2029}'
        || c == '\u{202f}' || c == '\u{205f}' || c == '\u{3000}'
}

/// Character-by-character string equality.
pub fn str_eq(a: &str, b: &str) -> (r: bool)
    ensures
        r == (a@ == b@),
{
    let na = a.unicode_len();
    let nb = b.unicode_len();
    if na != nb {
        return false;
    }
    let mut i: usize = 0;
    while i < na
        invariant
            i <= na,
            na == a@.len(),
            na == b@.len(),
            forall|j: int| 0 <= j < i ==> a@[j] == b@[j],
        decreases na - i,
    {
        if a.get_char(i) != b.get_char(i) {
            return false;
        }
        i = i + 1;
    }
    assert(a@ =~= b@);
    true
}

/// The characters of a string as a vector.
pub fn chars_of(s: &str) -> (r: Vec<char>)
    ensures
        r@ == s@,
{
    let n = s.unicode_len();
    let mut r: Vec<char> = Vec::new();
    let mut i: usize = 0;
    while i < n
        invariant
            i <= n,
            n == s@.len(),
            r@ =~= s@.take(i as int),
        decreases n - i,
    {
        r.push(s.get_char(i));
        assert(r@ =~= s@.take(i as int + 1));
        i = i + 1;
    }
    assert(r@ =~= s@);
    r
}

/// Relies on `core::iter::Iterator::collect` for `String`: collecting a
/// vector of characters yields the string with exactly those characters.
#[verifier::external_body]
pub fn string_from_chars(v: &Vec<char>) -> (r: String)
    ensures
        r@ == v@,
{
    v.iter().collect()
}

/// Whitespace normalization: outer whitespace removed, every inner run of
/// whitespace replaced by a single U+0020 space.
pub open spec fn norm_spec(s: Seq<char>) -> Seq<char>
    decreases s.len(), 0int,
{
    if s.len() == 0 {
        Seq::empty()
    } else if is_space(s[0]) {
        norm_spec(s.drop_first())
    } else {
        seq![s[0]] + norm_tail_spec(s.drop_first())
    }
}

/// Continuation of `norm_spec` after a word character was emitted.
pub open spec fn norm_tail_spec(s: Seq<char>) -> Seq<char>
    decreases s.len(), 1int,
{
    if s.len() == 0 {
        Seq::empty()
    } else if is_space(s[0]) {
        norm_pend_spec(s.drop_first())
    } else {
        seq![s[0]] + norm_tail_spec(s.drop_first())
    }
}

/// Continuation of `norm_spec` after at least one whitespace character was
/// seen since the last word character: a single space is emitted only when
/// another word follows.
pub open spec fn norm_pend_spec(s: Seq<char>) -> Seq<char>
    decreases s.len(), 2int,
{
    if norm_spec(s).len() == 0 {
        Seq::empty()
    } else {
        seq![' '] + norm_spec(s)
    }
}

/// Leading whitespace removed.
pub open spec fn trim_start_spec(s: Seq<char>) -> Seq<char>
    decreases s.len(),
{
    if s.len() == 0 {
        s
    } else if is_space(s[0]) {
        trim_start_spec(s.drop_first())
    } else {
        s
    }
}

/// Trailing whitespace removed.
pub open spec fn trim_end_spec(s: Seq<char>) -> Seq<char>
    decreases s.len(),
{
    if s.len() == 0 {
        s
    } else if is_space(s.last()) {
        trim_end_spec(s.drop_last())
    } else {
        s
    }
}

/// Whitespace removed at both ends.
pub open spec fn trim_spec(s: Seq<char>) -> Seq<char> {
    trim_end_spec(trim_start_spec(s))
}

/// A text in collapsed inner form: every whitespace character is a plain
/// space, no two spaces are adjacent, and the text does not end in a space.
pub open spec fn is_collapsed_tail(s: Seq<char>) -> bool {
    &&& forall|i: int| 0 <= i < s.len() && is_space(#[trigger] s[i]) ==> s[i] == ' '
    &&& forall|i: int| 0 <= i < s.len() - 1 && is_space(#[trigger] s[i]) ==> !is_space(s[i + 1])
    &&& s.len() > 0 ==> !is_space(s[s.len() - 1])
}

/// A fully normalized text: collapsed, and not starting with a space either.
pub open spec fn is_normalized(s: Seq<char>) -> bool {
    &&& is_collapsed_tail(s)
    &&& s.len() > 0 ==> !is_space(s[0])
}

pub proof fn lemma_norm_normalized(s: Seq<char>)
    ensures
        is_normalized(norm_spec(s)),
    decreases s.len(), 0int,
{
    if s.len() == 0 {
    } else if is_space(s[0]) {
        lemma_norm_normalized(s.drop_first());
    } else {
        lemma_norm_tail_collapsed(s.drop_first());
    }
}

pub proof fn lemma_norm_tail_collapsed(s: Seq<char>)
    ensures
        is_collapsed_tail(norm_tail_spec(s)),
    decreases s.len(), 1int,
{
    if s.len() == 0 {
    } else if is_space(s[0]) {
        lemma_norm_normalized(s.drop_first());
        let r = norm_spec(s.drop_first());
        assert(norm_tail_spec(s) == norm_pend_spec(s.drop_first()));
        if r.len() > 0 {
            let t = seq![' '] + r;
            assert(norm_pend_spec(s.drop_first()) == t);
            assert(norm_tail_spec(s) == t);
            assert forall|i: int| 0 <= i < t.len() && is_space(#[trigger] t[i]) implies t[i]
                == ' ' by {
                if i >= 1 {
                    assert(t[i] == r[i - 1]);
                }
            }
            assert forall|i: int| 0 <= i < t.len() - 1 && is_space(#[trigger] t[i])
                implies !is_space(t[i + 1]) by {
                if i == 0 {
                    assert(t[1] == r[0]);
                } else {
                    assert(t[i] == r[i - 1]);
                    assert(t[i + 1] == r[i]);
                }
            }
            assert(t[t.len() - 1] == r[r.len() - 1]);
        }
    } else {
        lemma_norm_tail_collapsed(s.drop_first());
        let r = norm_tail_spec(s.drop_first());
        let t = seq![s[0]] + r;
        assert(norm_tail_spec(s) == t);
        assert forall|i: int| 0 <= i < t.len() && is_space(#[trigger] t[i]) implies t[i] == ' ' by {
            if i >= 1 {
                assert(t[i] == r[i - 1]);
            }
        }
        assert forall|i: int| 0 <= i < t.len() - 1 && is_space(#[trigger] t[i]) implies !is_space(
            t[i + 1],
        ) by {
            if i >= 1 {
                assert(t[i] == r[i - 1]);
                assert(t[i + 1] == r[i]);
            }
        }
        if t.len() > 1 {
            assert(t[t.len() - 1] == r[r.len() - 1]);
        }
    }
}

pub proof fn lemma_norm_of_normalized(s: Seq<char>)
    requires
        is_normalized(s),
    ensures
        norm_spec(s) == s,
    decreases s.len(), 0int,
{
    if s.len() == 0 {
        assert(norm_spec(s) =~= s);
    } else {
        lemma_norm_tail_of_collapsed(s.drop_first());
        assert(seq![s[0]] + s.drop_first() =~= s);
    }
}

pub proof fn lemma_norm_tail_of_collapsed(s: Seq<char>)
    requires
        is_collapsed_tail(s),
    ensures
        norm_tail_spec(s) == s,
    decreases s.len(), 1int,
{
    if s.len() == 0 {
        assert(norm_tail_spec(s) =~= s);
        return ;
    }
    let d = s.drop_first();
    if is_space(s[0]) {
        assert(!is_space(s[s.len() - 1]));
        assert(s.len() >= 2);
        assert(d[0] == s[1]);
        assert(!is_space(d[0]));
        assert forall|i: int| 0 <= i < d.len() && is_space(#[trigger] d[i]) implies d[i] == ' ' by {
            assert(d[i] == s[i + 1]);
        }
        assert forall|i: int| 0 <= i < d.len() - 1 && is_space(#[trigger] d[i]) implies !is_space(
            d[i + 1],
        ) by {
            assert(d[i] == s[i + 1]);
            assert(d[i + 1] == s[i + 2]);
        }
        assert(d[d.len() - 1] == s[s.len() - 1]);
        assert(is_normalized(d));
        lemma_norm_of_normalized(d);
        assert(norm_spec(d).len() > 0);
        assert(norm_tail_spec(s) == norm_pend_spec(d));
        assert(norm_pend_spec(d) == seq![' '] + norm_spec(d));
        assert(s[0] == ' ');
        assert(seq![' '] + d =~= s);
    } else {
        assert forall|i: int| 0 <= i < d.len() && is_space(#[trigger] d[i]) implies d[i] == ' ' by {
            assert(d[i] == s[i + 1]);
        }
        assert forall|i: int| 0 <= i < d.len() - 1 && is_space(#[trigger] d[i]) implies !is_space(
            d[i + 1],
        ) by {
            assert(d[i] == s[i + 1]);
            assert(d[i + 1] == s[i + 2]);
        }
        if d.len() > 0 {
            assert(d[d.len() - 1] == s[s.len() - 1]);
        }
        assert(is_collapsed_tail(d));
        lemma_norm_tail_of_collapsed(d);
        assert(seq![s[0]] + d =~= s);
    }
}

/// Law: whitespace normalization is idempotent. Normalizing an already
/// normalized text returns it unchanged.
pub proof fn lemma_text_norm_idempotent(s: Seq<char>)
    ensures
        norm_spec(norm_spec(s)) == norm_spec(s),
{
    lemma_norm_normalized(s);
    lemma_norm_of_normalized(norm_spec(s));
}

/// Removes whitespace at both ends of the string.
pub fn trim(s: &str) -> (r: String)
    ensures
        r@ == trim_spec(s@),
{
    let n = s.unicode_len();
    let mut lo: usize = 0;
    assert(s@.skip(0) =~= s@);
    while lo < n
        invariant
            lo <= n,
            n == s@.len(),
            trim_start_spec(s@) == trim_start_spec(s@.skip(lo as int)),
        ensures
            lo <= n,
            n == s@.len(),
            trim_start_spec(s@) == trim_start_spec(s@.skip(lo as int)),
            lo == n || !is_space(s@[lo as int]),
        decreases n - lo,
    {
        let c = s.get_char(lo);
        if !space_char(c) {
            break ;
        }
        assert(s@.skip(lo as int)[0] == s@[lo as int]);
        assert(s@.skip(lo as int).drop_first() =~= s@.skip(lo + 1));
        lo = lo + 1;
    }
    assert(trim_start_spec(s@) == s@.skip(lo as int)) by {
        if lo < n {
            assert(s@.skip(lo as int)[0] == s@[lo as int]);
        } else {
            assert(s@.skip(lo as int) =~= Seq::empty());
        }
    }
    let mut hi: usize = n;
    assert(s@.subrange(lo as int, hi as int) =~= s@.skip(lo as int));
    while hi > lo
        invariant
            lo <= hi <= n,
            n == s@.len(),
            trim_end_spec(s@.skip(lo as int)) == trim_end_spec(s@.subrange(lo as int, hi as int)),
        ensures
            lo <= hi <= n,
            n == s@.len(),
            trim_end_spec(s@.skip(lo as int)) == trim_end_spec(s@.subrange(lo as int, hi as int)),
            hi == lo || !is_space(s@[hi - 1]),
        decreases hi,
    {
        let c = s.get_char(hi - 1);
        if !space_char(c) {
            break ;
        }
        assert(s@.subrange(lo as int, hi as int).last() == s@[hi - 1]);
        assert(s@.subrange(lo as int, hi as int).drop_last() =~= s@.subrange(
            lo as int,
            hi - 1,
        ));
        hi = hi - 1;
    }
    assert(trim_end_spec(s@.subrange(lo as int, hi as int)) == s@.subrange(lo as int, hi as int))
        by {
        if hi > lo {
            assert(s@.subrange(lo as int, hi as int).last() == s@[hi - 1]);
        } else {
            assert(s@.subrange(lo as int, hi as int) =~= Seq::empty());
        }
    }
    let piece = s.substring_char(lo, hi);
    String::from_str(piece)
}

/// Normalizes whitespace: trims both ends, then collapses every inner run of
/// whitespace to a single space.
pub fn text_norm(s: &str) -> (r: String)
    ensures
        r@ == norm_spec(s@),
{
    let n = s.unicode_len();
    let mut out: Vec<char> = Vec::new();
    let mut i: usize = 0;
    let mut started = false;
    let mut pending = false;
    assert(s@.skip(0) =~= s@);
    while i < n
        invariant
            i <= n,
            n == s@.len(),
            !started ==> !pending && out@.len() == 0 && norm_spec(s@) == norm_spec(
                s@.skip(i as int),
            ),
            started && !pending ==> norm_spec(s@) == out@ + norm_tail_spec(s@.skip(i as int)),
            started && pending ==> norm_spec(s@) == out@ + norm_pend_spec(s@.skip(i as int)),
        decreases n - i,
    {
        let c = s.get_char(i);
        proof {
            assert(s@.skip(i as int)[0] == s@[i as int]);
            assert(s@.skip(i as int).drop_first() =~= s@.skip(i + 1));
        }
        let ghost out0 = out@;
        if space_char(c) {
            if started {
                pending = true;
            }
        } else {
            if pending {
                out.push(' ');
            }
            out.push(c);
            proof {
                let t = norm_tail_spec(s@.skip(i + 1));
                if !started {
                    assert(norm_spec(s@.skip(i as int)) == seq![c] + t);
                    assert(out@ =~= seq![c]);
                    assert(norm_spec(s@) == out@ + t);
                } else if !pending {
                    assert(norm_tail_spec(s@.skip(i as int)) == seq![c] + t);
                    assert(out@ =~= out0 + seq![c]);
                    assert(out0 + (seq![c] + t) =~= out@ + t);
                    assert(norm_spec(s@) == out@ + t);
                } else {
                    assert(norm_spec(s@.skip(i as int)) == seq![c] + t);
                    assert(norm_spec(s@.skip(i as int)).len() > 0);
                    assert(norm_pend_spec(s@.skip(i as int)) == seq![' '] + (seq![c] + t));
                    assert(out@ =~= out0 + seq![' '] + seq![c]);
                    assert(out0 + (seq![' '] + (seq![c] + t)) =~= out@ + t);
                    assert(norm_spec(s@) == out@ + t);
                }
            }
            started = true;
            pending = false;
        }
        i = i + 1;
    }
    proof {
        assert(s@.skip(i as int) =~= Seq::empty());
        assert(out@ + Seq::<char>::empty() =~= out@);
    }
    string_from_chars(&out)
}

} // verus!
