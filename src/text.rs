use vstd::prelude::*;

verus! {

broadcast use vstd::string::group_string_axioms;

/// Characters with the Unicode `White_Space` property.
pub open spec fn white_space(c: char) -> bool {
    let u = c as u32;
    (0x09 <= u && u <= 0x0d) || u == 0x20 || u == 0x85 || u == 0xa0 || u == 0x1680 || (0x2000
        <= u && u <= 0x200a) || u == 0x2028 || u == 0x2029 || u == 0x202f || u == 0x205f || u
        == 0x3000
}

/// Nothing is left of `s` once white space is trimmed from both ends.
pub open spec fn blank(s: Seq<char>) -> bool {
    forall|i: int| 0 <= i < s.len() ==> white_space(#[trigger] s[i])
}

/// `s` ends with `suffix`.
pub open spec fn ends_with(s: Seq<char>, suffix: Seq<char>) -> bool {
    suffix.len() <= s.len() && s.skip(s.len() - suffix.len()) == suffix
}

/// `s` holds no `c`.
pub open spec fn free_of(s: Seq<char>, c: char) -> bool {
    forall|i: int| 0 <= i < s.len() ==> #[trigger] s[i] != c
}

/// What follows the last `sep` in `s`, or all of `s` where it holds none.
pub open spec fn base_name(s: Seq<char>, sep: char) -> Seq<char>
    decreases s.len(),
{
    if s.len() == 0 {
        s
    } else if s.last() == sep {
        Seq::empty()
    } else {
        base_name(s.drop_last(), sep).push(s.last())
    }
}

/// Relies on `char::is_whitespace`, which tests for the Unicode `White_Space` property.
#[verifier::external_body]
fn is_white_space(c: char) -> (r: bool)
    ensures
        r == white_space(c),
{
    c.is_whitespace()
}

/// The characters of `s`, one by one.
pub fn char_vec(s: &str) -> (r: Vec<char>)
    ensures
        r@ == s@,
{
    let mut r: Vec<char> = Vec::new();
    for c in it: s.chars()
        invariant
            it.seq() == s@,
            r@ == it.seq().take(it.index() as int),
    {
        r.push(c);
    }
    r
}

/// Whether `s` is empty once white space is trimmed from both ends.
pub fn is_blank(s: &str) -> (r: bool)
    ensures
        r == blank(s@),
{
    let cs = char_vec(s);
    let mut i: usize = 0;
    while i < cs.len()
        invariant
            cs@ == s@,
            i <= cs.len(),
            blank(s@.take(i as int)),
        decreases cs.len() - i,
    {
        if !is_white_space(cs[i]) {
            return false;
        }
        assert(s@.take(i + 1) =~= s@.take(i as int).push(cs@[i as int]));
        i = i + 1;
    }
    assert(s@.take(i as int) =~= s@);
    true
}

/// Whether `s` ends with `suffix`.
pub fn has_suffix(s: &Vec<char>, suffix: &str) -> (r: bool)
    ensures
        r == ends_with(s@, suffix@),
{
    let suf = char_vec(suffix);
    if suf.len() > s.len() {
        return false;
    }
    let off: usize = s.len() - suf.len();
    let mut i: usize = 0;
    while i < suf.len()
        invariant
            suf@ == suffix@,
            off + suf.len() == s.len(),
            i <= suf.len(),
            forall|j: int| 0 <= j < i ==> s@[off + j] == suf@[j],
        decreases suf.len() - i,
    {
        if s[off + i] != suf[i] {
            assert(s@.skip(off as int)[i as int] != suf@[i as int]);
            return false;
        }
        i = i + 1;
    }
    assert(s@.skip(off as int) =~= suf@);
    true
}

proof fn lemma_base_name(s: Seq<char>, sep: char, k: int)
    requires
        0 <= k <= s.len(),
        k == 0 || s[k - 1] == sep,
        free_of(s.skip(k), sep),
    ensures
        base_name(s, sep) == s.skip(k),
    decreases s.len(),
{
    if s.len() == k {
        if k > 0 {
            assert(s.last() == sep);
        }
        assert(s.skip(k) =~= Seq::<char>::empty());
    } else {
        assert(s.skip(k)[s.len() - 1 - k] == s.last());
        let t = s.drop_last();
        assert(t.skip(k) =~= s.skip(k).drop_last());
        lemma_base_name(t, sep, k);
        assert(s.skip(k) =~= t.skip(k).push(s.last()));
    }
}

/// The position in `s` where its base name for `sep` begins.
pub fn base_name_start(s: &Vec<char>, sep: char) -> (k: usize)
    ensures
        k <= s.len(),
        base_name(s@, sep) == s@.skip(k as int),
{
    let mut k: usize = s.len();
    while k > 0 && s[k - 1] != sep
        invariant
            k <= s.len(),
            free_of(s@.skip(k as int), sep),
        decreases k,
    {
        assert(s@.skip(k - 1) =~= seq![s@[k - 1]] + s@.skip(k as int));
        k = k - 1;
    }
    proof {
        lemma_base_name(s@, sep, k as int);
    }
    k
}

} // verus!
