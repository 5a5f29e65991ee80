//! Character-level text utilities with their specifications.
use vstd::prelude::*;

verus! {

broadcast use vstd::string::group_string_axioms;

/// Appends one character to a string.
#[verifier::external_body]
pub(crate) fn push_char(s: &mut String, c: char)
    ensures
        final(s)@ == old(s)@.push(c),
{
    s.push(c);
}

/// The Unicode `White_Space` property, which `char::is_whitespace` tests.
pub open spec fn is_whitespace(c: char) -> bool {
    ||| c == ' '
    ||| ('\t' <= c && c <= '\r')
    ||| c == '\u{85}'
    ||| c == '\u{a0}'
    ||| c == '\u{1680}'
    ||| ('\u{2000}' <= c && c <= '\u{200a}')
    ||| c == '\u{2028}'
    ||| c == '\u{2029}'
    ||| c == '\u{202f}'
    ||| c == '\u{205f}'
    ||| c == '\u{3000}'
}

/// `s` without its leading whitespace.
pub open spec fn trim_start(s: Seq<char>) -> Seq<char>
    decreases s.len(),
{
    if s.len() > 0 && is_whitespace(s[0]) {
        trim_start(s.drop_first())
    } else {
        s
    }
}

/// `s` without its trailing whitespace.
pub open spec fn trim_end(s: Seq<char>) -> Seq<char>
    decreases s.len(),
{
    if s.len() > 0 && is_whitespace(s.last()) {
        trim_end(s.drop_last())
    } else {
        s
    }
}

/// `s` without leading and trailing whitespace, as `str::trim` gives it.
pub open spec fn trim(s: Seq<char>) -> Seq<char> {
    trim_end(trim_start(s))
}

/// Whether `pat` occurs in `s` at position `i`.
pub open spec fn occurs_at(s: Seq<char>, pat: Seq<char>, i: int) -> bool {
    0 <= i && i + pat.len() <= s.len() && s.subrange(i, i + pat.len()) == pat
}

/// The first position at or after `i` where `pat` occurs in `s`.
pub open spec fn find_from(s: Seq<char>, pat: Seq<char>, i: int) -> Option<int>
    decreases s.len() - i,
{
    if i < 0 || i + pat.len() > s.len() {
        None
    } else if occurs_at(s, pat, i) {
        Some(i)
    } else if i >= s.len() {
        None
    } else {
        find_from(s, pat, i + 1)
    }
}

/// `s` with every occurrence of `c` removed.
pub open spec fn without_char(s: Seq<char>, c: char) -> Seq<char> {
    s.filter(|x: char| x != c)
}

/// The first position of `c` in `s`.
pub open spec fn index_of(s: Seq<char>, c: char) -> Option<int>
    decreases s.len(),
{
    if s.len() == 0 {
        None
    } else if s[0] == c {
        Some(0)
    } else {
        match index_of(s.drop_first(), c) {
            Some(i) => Some(i + 1),
            None => None,
        }
    }
}

/// The pieces of `s` between occurrences of `sep`, as `str::split` yields them.
pub open spec fn split_on(s: Seq<char>, sep: char) -> Seq<Seq<char>>
    decreases s.len(),
{
    if s.len() == 0 {
        seq![Seq::empty()]
    } else {
        let prev = split_on(s.drop_last(), sep);
        if s.last() == sep {
            prev.push(Seq::empty())
        } else {
            prev.update(prev.len() - 1, prev.last().push(s.last()))
        }
    }
}

/// The characters of Unicode's `White_Space` property, one by one.
pub open spec fn white_space_chars() -> Set<char> {
    set![
        '\u{9}', '\u{a}', '\u{b}', '\u{c}', '\u{d}', '\u{20}', '\u{85}', '\u{a0}', '\u{1680}',
        '\u{2000}', '\u{2001}', '\u{2002}', '\u{2003}', '\u{2004}', '\u{2005}', '\u{2006}',
        '\u{2007}', '\u{2008}', '\u{2009}', '\u{200a}', '\u{2028}', '\u{2029}', '\u{202f}',
        '\u{205f}', '\u{3000}'
    ]
}

/// Removing a character leaves none of it, keeps every other character in
/// order, and works piece by piece: on a concatenation it is the concatenation of
/// the pieces with the character removed.
pub proof fn lemma_without_char(s: Seq<char>, t: Seq<char>, c: char, x: char)
    ensures
        forall|i: int| 0 <= i < without_char(s, c).len() ==> without_char(s, c)[i] != c,
        without_char(s + t, c) == without_char(s, c) + without_char(t, c),
        without_char(seq![c], c) == Seq::<char>::empty(),
        x != c ==> without_char(seq![x], c) == seq![x],
        without_char(s.push(x), c) == (if x == c { without_char(s, c) } else { without_char(s, c).push(x) }),
{
    broadcast use vstd::seq_lib::group_filter_ensures;

    let pred = |y: char| y != c;
    Seq::filter_distributes_over_add(s, t, pred);
    reveal_with_fuel(Seq::<_>::filter, 2);
    assert(seq![c].drop_last() =~= Seq::<char>::empty());
    assert(seq![x].drop_last() =~= Seq::<char>::empty());
    assert(s.push(x).drop_last() =~= s);
    assert(without_char(seq![c], c) =~= Seq::<char>::empty());
    if x != c {
        assert(without_char(seq![x], c) =~= seq![x]);
    }
    assert(without_char(s.push(x), c) == (if x == c { without_char(s, c) } else { without_char(s, c).push(x) }));
}

/// Whitespace is exactly the `White_Space` characters: trimming a single
/// character leaves nothing exactly when it is one of them, and leaves it
/// otherwise.
pub proof fn lemma_trim_single(c: char)
    ensures
        (trim(seq![c]).len() == 0) <==> white_space_chars().contains(c),
        !white_space_chars().contains(c) ==> trim(seq![c]) == seq![c],
        is_whitespace(c) <==> white_space_chars().contains(c),
{
    let s = seq![c];
    assert(s.drop_first() =~= Seq::<char>::empty());
    assert(s.drop_last() =~= Seq::<char>::empty());
    assert(s[0] == c && s.last() == c);
    assert(trim_start(Seq::<char>::empty()) == Seq::<char>::empty());
    assert(trim_end(Seq::<char>::empty()) == Seq::<char>::empty());
    if '\u{2000}' <= c && c <= '\u{200a}' {
        let n = c as u32;
        assert(0x2000 <= n <= 0x200a);
        assert(white_space_chars().contains(c));
    }
}

proof fn lemma_trim_start_push(s: Seq<char>, c: char)
    requires
        is_whitespace(c),
    ensures
        trim_start(s.push(c)) == (if trim_start(s).len() == 0 {
            Seq::<char>::empty()
        } else {
            trim_start(s).push(c)
        }),
    decreases s.len(),
{
    if s.len() == 0 {
        let t = s.push(c);
        assert(t.drop_first() =~= Seq::<char>::empty());
        assert(trim_start(Seq::<char>::empty()) == Seq::<char>::empty());
    } else if is_whitespace(s[0]) {
        assert(s.push(c).drop_first() =~= s.drop_first().push(c));
        lemma_trim_start_push(s.drop_first(), c);
    } else {
        assert(s.push(c)[0] == s[0]);
    }
}

/// Trailing whitespace of every `White_Space` kind, a carriage return among
/// them, does not survive trimming: trimming a text with one more such
/// character at its end gives what trimming the text gives.
pub proof fn lemma_trim_drops_trailing_whitespace(s: Seq<char>, c: char)
    requires
        white_space_chars().contains(c),
    ensures
        trim(s.push(c)) == trim(s),
{
    lemma_trim_single(c);
    lemma_trim_start_push(s, c);
    let t = trim_start(s);
    if t.len() > 0 {
        assert(t.push(c).drop_last() == t);
        assert(t.push(c).last() == c);
    } else {
        assert(trim_end(Seq::<char>::empty()) == Seq::<char>::empty());
    }
}

/// Whether `c` is whitespace, as `char::is_whitespace` decides.
pub fn is_whitespace_char(c: char) -> (res: bool)
    ensures
        res == is_whitespace(c),
{
    c == ' ' || ('\t' <= c && c <= '\r') || c == '\u{85}' || c == '\u{a0}' || c == '\u{1680}'
        || ('\u{2000}' <= c && c <= '\u{200a}') || c == '\u{2028}' || c == '\u{2029}'
        || c == '\u{202f}' || c == '\u{205f}' || c == '\u{3000}'
}

/// Collects the characters of `s` into a vector.
pub fn chars_of(s: &str) -> (res: Vec<char>)
    ensures
        res@ == s@,
{
    let mut res: Vec<char> = Vec::new();
    for c in it: s.chars()
        invariant
            res@ == it.seq().take(it.index() as int),
    {
        res.push(c);
    }
    res
}

/// The string made of `v[lo..hi]`.
pub fn string_of_range(v: &Vec<char>, lo: usize, hi: usize) -> (res: String)
    requires
        lo <= hi <= v.len(),
    ensures
        res@ == v@.subrange(lo as int, hi as int),
{
    let mut res = String::new();
    let mut i = lo;
    while i < hi
        invariant
            lo <= i <= hi <= v.len(),
            res@ == v@.subrange(lo as int, i as int),
        decreases hi - i,
    {
        push_char(&mut res, v[i]);
        assert(v@.subrange(lo as int, i + 1) == v@.subrange(lo as int, i as int).push(v@[i as int]));
        i = i + 1;
    }
    res
}

/// The string made of the characters of `v`.
pub fn string_of(v: &Vec<char>) -> (res: String)
    ensures
        res@ == v@,
{
    let res = string_of_range(v, 0, v.len());
    assert(v@.subrange(0, v@.len() as int) == v@);
    res
}

proof fn lemma_trim_start_skip(s: Seq<char>, i: int)
    requires
        0 <= i <= s.len(),
        forall|k: int| 0 <= k < i ==> is_whitespace(#[trigger] s[k]),
    ensures
        trim_start(s) == trim_start(s.subrange(i, s.len() as int)),
    decreases i,
{
    if i > 0 {
        assert(s.drop_first().subrange(i - 1, s.drop_first().len() as int) == s.subrange(i, s.len() as int));
        lemma_trim_start_skip(s.drop_first(), i - 1);
    } else {
        assert(s.subrange(0, s.len() as int) == s);
    }
}

proof fn lemma_trim_end_take(s: Seq<char>, j: int)
    requires
        0 <= j <= s.len(),
        forall|k: int| j <= k < s.len() ==> is_whitespace(#[trigger] s[k]),
    ensures
        trim_end(s) == trim_end(s.subrange(0, j)),
    decreases s.len() - j,
{
    if j < s.len() {
        assert(s.drop_last().subrange(0, j) == s.subrange(0, j));
        lemma_trim_end_take(s.drop_last(), j);
    } else {
        assert(s.subrange(0, j) == s);
    }
}

/// The characters of `v[lo..hi]` without leading and trailing whitespace, as a string.
pub fn trimmed_range(v: &Vec<char>, lo: usize, hi: usize) -> (res: String)
    requires
        lo <= hi <= v.len(),
    ensures
        res@ == trim(v@.subrange(lo as int, hi as int)),
{
    let ghost s = v@.subrange(lo as int, hi as int);
    let mut a = lo;
    while a < hi && is_whitespace_char(v[a])
        invariant
            lo <= a <= hi <= v.len(),
            s == v@.subrange(lo as int, hi as int),
            forall|k: int| lo <= k < a ==> is_whitespace(#[trigger] v@[k]),
        decreases hi - a,
    {
        a = a + 1;
    }
    let ghost t = v@.subrange(a as int, hi as int);
    proof {
        assert forall|k: int| 0 <= k < a - lo implies is_whitespace(#[trigger] s[k]) by {
            assert(s[k] == v@[lo + k]);
        }
        lemma_trim_start_skip(s, a - lo);
        assert(s.subrange(a - lo, s.len() as int) == t);
        assert(a == hi || !is_whitespace(t[0]));
        assert(trim_start(t) == t);
    }
    let mut b = hi;
    while b > a && is_whitespace_char(v[b - 1])
        invariant
            lo <= a <= b <= hi <= v.len(),
            t == v@.subrange(a as int, hi as int),
            forall|k: int| b <= k < hi ==> is_whitespace(#[trigger] v@[k]),
        decreases b - a,
    {
        b = b - 1;
    }
    proof {
        assert forall|k: int| b - a <= k < t.len() implies is_whitespace(#[trigger] t[k]) by {
            assert(t[k] == v@[a + k]);
        }
        lemma_trim_end_take(t, b - a);
        let u = t.subrange(0, b - a);
        assert(u == v@.subrange(a as int, b as int));
        assert(b == a || !is_whitespace(u.last()));
        assert(trim_end(u) == u);
    }
    string_of_range(v, a, b)
}

/// The first position at or after `from` where `pat` occurs in `s`.
pub fn find_from_exec(s: &Vec<char>, pat: &Vec<char>, from: usize) -> (res: Option<usize>)
    ensures
        match res {
            Some(i) => find_from(s@, pat@, from as int) == Some(i as int),
            None => find_from(s@, pat@, from as int) is None,
        },
        res matches Some(i) ==> from <= i && i + pat@.len() <= s@.len(),
{
    let mut i = from;
    while i <= s.len() && s.len() - i >= pat.len()
        invariant
            from <= i,
            find_from(s@, pat@, from as int) == find_from(s@, pat@, i as int),
        decreases s.len() - i,
    {
        let mut k: usize = 0;
        let mut same = true;
        while k < pat.len()
            invariant
                i + pat.len() <= s.len(),
                0 <= k <= pat.len(),
                same <==> (forall|m: int| 0 <= m < k ==> s@[i + m] == pat@[m]),
            decreases pat.len() - k,
        {
            if s[i + k] != pat[k] {
                same = false;
            }
            k = k + 1;
        }
        proof {
            if same {
                assert(s@.subrange(i as int, i + pat.len()) == pat@);
            } else {
                let m = choose|m: int| 0 <= m < k && s@[i + m] != pat@[m];
                assert(s@.subrange(i as int, i + pat.len())[m] != pat@[m]);
            }
        }
        if same {
            return Some(i);
        }
        i = i + 1;
    }
    None
}

} // verus!
