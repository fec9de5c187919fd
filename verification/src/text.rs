//! Text utilities on Unicode scalar values: whitespace classification,
//! trimming, splitting on whitespace and joining words.

use vstd::prelude::*;

verus! {

/// The Unicode `White_Space` property, the set of characters for which
/// `char::is_whitespace` holds.
pub open spec fn is_ws(c: char) -> bool {
    let u = c as u32;
    ||| (0x09 <= u && u <= 0x0d)
    ||| u == 0x20
    ||| u == 0x85
    ||| u == 0xa0
    ||| u == 0x1680
    ||| (0x2000 <= u && u <= 0x200a)
    ||| u == 0x2028
    ||| u == 0x2029
    ||| u == 0x202f
    ||| u == 0x205f
    ||| u == 0x3000
}

/// Executable whitespace test, equal to `char::is_whitespace`.
pub fn is_whitespace(c: char) -> (b: bool)
    ensures
        b == is_ws(c),
{
    let u = c as u32;
    (0x09 <= u && u <= 0x0d) || u == 0x20 || u == 0x85 || u == 0xa0 || u == 0x1680 || (0x2000
        <= u && u <= 0x200a) || u == 0x2028 || u == 0x2029 || u == 0x202f || u == 0x205f || u
        == 0x3000
}

/// The characters of `s`, in order.
pub fn chars_of(s: &str) -> (v: Vec<char>)
    ensures
        v@ == s@,
{
    let mut v: Vec<char> = Vec::new();
    for c in it: s.chars()
        invariant
            it.seq() == s@,
            v@ == it.seq().take(it.index() as int),
    {
        v.push(c);
    }
    v
}


/// Whether `s` contains the character `c` (`str::contains` with a `char`).
pub fn contains_char(s: &str, c: char) -> (b: bool)
    ensures
        b == s@.contains(c),
{
    let cs = chars_of(s);
    let n = cs.len();
    let mut i: usize = 0;
    while i < n
        invariant
            n == cs@.len(),
            cs@ == s@,
            i <= n,
            forall|k: int| 0 <= k < i ==> cs@[k] != c,
        decreases n - i,
    {
        if cs[i] == c {
            proof {
                assert(s@[i as int] == c);
            }
            return true;
        }
        i = i + 1;
    }
    false
}

/// `s` without its leading whitespace.
pub open spec fn trim_start(s: Seq<char>) -> Seq<char>
    decreases s.len(),
{
    if s.len() > 0 && is_ws(s[0]) {
        trim_start(s.drop_first())
    } else {
        s
    }
}

/// `s` without its trailing whitespace.
pub open spec fn trim_end(s: Seq<char>) -> Seq<char>
    decreases s.len(),
{
    if s.len() > 0 && is_ws(s.last()) {
        trim_end(s.drop_last())
    } else {
        s
    }
}

/// `s` without leading and trailing whitespace, as `str::trim` gives it.
pub open spec fn trim(s: Seq<char>) -> Seq<char> {
    trim_end(trim_start(s))
}

proof fn lemma_trim_start_skip(s: Seq<char>, i: int)
    requires
        0 <= i <= s.len(),
        forall|k: int| 0 <= k < i ==> is_ws(#[trigger] s[k]),
    ensures
        trim_start(s) == trim_start(s.skip(i)),
    decreases i,
{
    if i > 0 {
        assert(s.drop_first().skip(i - 1) =~= s.skip(i));
        lemma_trim_start_skip(s.drop_first(), i - 1);
    } else {
        assert(s.skip(0) =~= s);
    }
}

proof fn lemma_trim_end_take(s: Seq<char>, j: int)
    requires
        0 <= j <= s.len(),
        forall|k: int| j <= k < s.len() ==> is_ws(#[trigger] s[k]),
    ensures
        trim_end(s) == trim_end(s.take(j)),
    decreases s.len() - j,
{
    if j < s.len() {
        assert(s.drop_last().take(j) =~= s.take(j));
        lemma_trim_end_take(s.drop_last(), j);
    } else {
        assert(s.take(j) =~= s);
    }
}

/// `trim_start(s)` is a suffix of `s` that is empty or starts with a
/// non-whitespace character.
pub proof fn lemma_trim_start_shape(s: Seq<char>)
    ensures
        trim_start(s).len() <= s.len(),
        trim_start(s) == s.skip(s.len() - trim_start(s).len()),
        trim_start(s).len() == 0 || !is_ws(trim_start(s)[0]),
    decreases s.len(),
{
    if s.len() > 0 && is_ws(s[0]) {
        lemma_trim_start_shape(s.drop_first());
        let t = trim_start(s.drop_first());
        assert(s.drop_first().skip(s.drop_first().len() - t.len()) =~= s.skip(s.len() - t.len()));
    } else {
        assert(s.skip(0) =~= s);
    }
}

/// `trim_end(s)` is a prefix of `s` that is empty or ends with a
/// non-whitespace character.
pub proof fn lemma_trim_end_shape(s: Seq<char>)
    ensures
        trim_end(s).len() <= s.len(),
        trim_end(s) == s.take(trim_end(s).len() as int),
        trim_end(s).len() == 0 || !is_ws(trim_end(s).last()),
    decreases s.len(),
{
    if s.len() > 0 && is_ws(s.last()) {
        lemma_trim_end_shape(s.drop_last());
        let t = trim_end(s.drop_last());
        assert(s.drop_last().take(t.len() as int) =~= s.take(t.len() as int));
    } else {
        assert(s.take(s.len() as int) =~= s);
    }
}

/// The trimmed text is empty or starts and ends with a non-whitespace
/// character.
pub proof fn lemma_trim_shape(s: Seq<char>)
    ensures
        trim(s).len() == 0 || (!is_ws(trim(s)[0]) && !is_ws(trim(s).last())),
{
    let u = trim_start(s);
    lemma_trim_start_shape(s);
    lemma_trim_end_shape(u);
    let t = trim_end(u);
    if t.len() > 0 {
        assert(t[0] == u[0]);
    }
}

/// Text that is empty or has non-whitespace characters at both ends is
/// its own trim.
pub proof fn lemma_trim_fixed(t: Seq<char>)
    requires
        t.len() == 0 || (!is_ws(t[0]) && !is_ws(t.last())),
    ensures
        trim(t) == t,
{
}

/// Trimming twice is trimming once.
pub proof fn law_trim_idempotent(s: Seq<char>)
    ensures
        trim(trim(s)) == trim(s),
{
    lemma_trim_shape(s);
    lemma_trim_fixed(trim(s));
}

proof fn lemma_trim_start_blank(s: Seq<char>)
    ensures
        trim_start(s).len() == 0 <==> forall|k: int| 0 <= k < s.len() ==> is_ws(#[trigger] s[k]),
    decreases s.len(),
{
    if s.len() > 0 && is_ws(s[0]) {
        let t = s.drop_first();
        lemma_trim_start_blank(t);
        assert forall|k: int| 0 < k < s.len() implies #[trigger] s[k] == t[k - 1] by {}
        if trim_start(s).len() == 0 {
            assert forall|k: int| 0 <= k < s.len() implies is_ws(#[trigger] s[k]) by {
                if k > 0 {
                    assert(s[k] == t[k - 1]);
                }
            }
        }
        if forall|k: int| 0 <= k < s.len() ==> is_ws(#[trigger] s[k]) {
            assert forall|k: int| 0 <= k < t.len() implies is_ws(#[trigger] t[k]) by {
                assert(t[k] == s[k + 1]);
            }
        }
    } else if s.len() > 0 {
        assert(!is_ws(s[0]));
    }
}

proof fn lemma_trim_end_keeps_first(u: Seq<char>)
    requires
        u.len() > 0,
        !is_ws(u[0]),
    ensures
        trim_end(u).len() > 0,
    decreases u.len(),
{
    if is_ws(u.last()) {
        assert(u.len() > 1);
        let t = u.drop_last();
        assert(t[0] == u[0]);
        lemma_trim_end_keeps_first(t);
    }
}

/// Trimming leaves nothing exactly when the text is all whitespace: text
/// with a non-whitespace character keeps it through `trim`.
pub proof fn law_trim_blank(s: Seq<char>)
    ensures
        trim(s).len() == 0 <==> forall|k: int| 0 <= k < s.len() ==> is_ws(#[trigger] s[k]),
{
    lemma_trim_start_blank(s);
    lemma_trim_start_shape(s);
    let u = trim_start(s);
    if u.len() > 0 {
        lemma_trim_end_keeps_first(u);
    }
}

/// The bounds of the trimmed part of `cs`: `trim(cs) == cs[a..b]`.
pub fn trim_bounds(cs: &Vec<char>) -> (r: (usize, usize))
    ensures
        r.0 <= r.1 <= cs@.len(),
        trim(cs@) == cs@.subrange(r.0 as int, r.1 as int),
{
    let n = cs.len();
    let mut a: usize = 0;
    while a < n && is_whitespace(cs[a])
        invariant
            a <= n == cs@.len(),
            forall|k: int| 0 <= k < a ==> is_ws(#[trigger] cs@[k]),
        decreases n - a,
    {
        a = a + 1;
    }
    let mut b: usize = n;
    while b > a && is_whitespace(cs[b - 1])
        invariant
            a <= b <= n == cs@.len(),
            forall|k: int| b <= k < n ==> is_ws(#[trigger] cs@[k]),
        decreases b - a,
    {
        b = b - 1;
    }
    proof {
        let s = cs@;
        lemma_trim_start_skip(s, a as int);
        let t = s.skip(a as int);
        assert(trim_start(t) == t);
        let u = s.subrange(a as int, b as int);
        assert forall|k: int| (b - a) <= k < t.len() implies is_ws(#[trigger] t[k]) by {
            assert(t[k] == s[k + a]);
        }
        lemma_trim_end_take(t, (b - a) as int);
        assert(t.take((b - a) as int) =~= u);
        if u.len() > 0 {
            assert(u.last() == s[b - 1]);
        }
    }
    (a, b)
}

/// `s` with leading and trailing whitespace removed (`str::trim`).
pub fn trim_str(s: &str) -> (r: &str)
    ensures
        r@ == trim(s@),
{
    let cs = chars_of(s);
    let (a, b) = trim_bounds(&cs);
    s.substring_char(a, b)
}


/// Number of non-whitespace characters at the start of `s`.
pub open spec fn word_len(s: Seq<char>) -> nat
    decreases s.len(),
{
    if s.len() > 0 && !is_ws(s[0]) {
        1 + word_len(s.drop_first())
    } else {
        0
    }
}

/// Bounds on `word_len`, and the characters it counts.
pub proof fn lemma_word_len_bound(s: Seq<char>)
    ensures
        word_len(s) <= s.len(),
        s.len() > 0 && !is_ws(s[0]) ==> word_len(s) >= 1,
        forall|k: int| 0 <= k < word_len(s) ==> !is_ws(#[trigger] s[k]),
        word_len(s) < s.len() ==> is_ws(s[word_len(s) as int]),
    decreases s.len(),
{
    if s.len() > 0 && !is_ws(s[0]) {
        lemma_word_len_bound(s.drop_first());
        assert forall|k: int| 0 <= k < word_len(s) implies !is_ws(#[trigger] s[k]) by {
            if k > 0 {
                assert(s[k] == s.drop_first()[k - 1]);
            }
        }
    }
}

/// The maximal runs of non-whitespace characters of `s`, in order, as
/// `str::split_whitespace` yields them.
pub open spec fn words(s: Seq<char>) -> Seq<Seq<char>>
    decreases s.len(),
{
    if s.len() == 0 {
        seq![]
    } else if is_ws(s[0]) {
        words(s.drop_first())
    } else {
        proof {
            lemma_word_len_bound(s);
        }
        seq![s.take(word_len(s) as int)] + words(s.skip(word_len(s) as int))
    }
}

/// A word: non-empty, without whitespace.
pub open spec fn is_word(w: Seq<char>) -> bool {
    w.len() > 0 && forall|k: int| 0 <= k < w.len() ==> !is_ws(#[trigger] w[k])
}

/// The words of `s` are all words in the sense of `is_word`.
pub proof fn lemma_words_are_words(s: Seq<char>)
    ensures
        forall|k: int| 0 <= k < words(s).len() ==> is_word(#[trigger] words(s)[k]),
    decreases s.len(),
{
    if s.len() == 0 {
    } else if is_ws(s[0]) {
        lemma_words_are_words(s.drop_first());
        assert(words(s) == words(s.drop_first()));
    } else {
        lemma_word_len_bound(s);
        let w = s.take(word_len(s) as int);
        let rest = s.skip(word_len(s) as int);
        lemma_words_are_words(rest);
        assert forall|k: int| 0 <= k < words(s).len() implies is_word(#[trigger] words(s)[k]) by {
            if k == 0 {
                assert(words(s)[0] == w);
                assert forall|m: int| 0 <= m < w.len() implies !is_ws(#[trigger] w[m]) by {
                    assert(w[m] == s[m]);
                }
            } else {
                assert(words(s)[k] == words(rest)[k - 1]);
            }
        }
    }
}

proof fn lemma_word_len_at(s: Seq<char>, i: int, j: int)
    requires
        0 <= i <= j <= s.len(),
        forall|k: int| i <= k < j ==> !is_ws(#[trigger] s[k]),
        j == s.len() || is_ws(s[j]),
    ensures
        word_len(s.skip(i)) == j - i,
    decreases j - i,
{
    let t = s.skip(i);
    if i < j {
        assert(t.drop_first() =~= s.skip(i + 1));
        lemma_word_len_at(s, i + 1, j);
    } else {
        if j < s.len() {
            assert(t[0] == s[j]);
        }
    }
}

/// A text has no more words than characters.
pub proof fn lemma_word_count(s: Seq<char>)
    ensures
        words(s).len() <= s.len(),
    decreases s.len(),
{
    if s.len() == 0 {
    } else if is_ws(s[0]) {
        lemma_word_count(s.drop_first());
    } else {
        lemma_word_len_bound(s);
        lemma_word_count(s.skip(word_len(s) as int));
    }
}

/// Words are joined with a single space between neighbours
/// (`[&str]::join(" ")`).
pub open spec fn join(ws: Seq<Seq<char>>) -> Seq<char>
    decreases ws.len(),
{
    if ws.len() == 0 {
        seq![]
    } else if ws.len() == 1 {
        ws[0]
    } else {
        join(ws.drop_last()) + seq![' '] + ws.last()
    }
}

/// Joining one or more words gives non-empty text that starts with the
/// first character of the first word and ends with the last character of
/// the last word.
pub proof fn lemma_join_shape(ws: Seq<Seq<char>>)
    requires
        ws.len() > 0,
        forall|k: int| 0 <= k < ws.len() ==> is_word(#[trigger] ws[k]),
    ensures
        join(ws).len() > 0,
        join(ws)[0] == ws[0][0],
        join(ws).last() == ws.last().last(),
    decreases ws.len(),
{
    assert(is_word(ws[0]));
    assert(is_word(ws.last()));
    if ws.len() > 1 {
        let p = ws.drop_last();
        assert forall|k: int| 0 <= k < p.len() implies is_word(#[trigger] p[k]) by {
            assert(p[k] == ws[k]);
        }
        lemma_join_shape(p);
        assert(p[0] == ws[0]);
    }
}

/// A join of one or more words is non-empty and is its own trim.
pub proof fn lemma_join_trimmed(ws: Seq<Seq<char>>)
    requires
        ws.len() > 0,
        forall|k: int| 0 <= k < ws.len() ==> is_word(#[trigger] ws[k]),
    ensures
        join(ws).len() > 0,
        trim(join(ws)) == join(ws),
{
    lemma_join_shape(ws);
    assert(is_word(ws[0]));
    assert(is_word(ws.last()));
    assert(!is_ws(ws[0][0]));
    assert(!is_ws(ws.last()[ws.last().len() - 1]));
    lemma_trim_fixed(join(ws));
}


/// `join` read from the front: the first word, a space, and the join of the
/// rest.
pub proof fn lemma_join_front(ws: Seq<Seq<char>>)
    requires
        ws.len() >= 2,
    ensures
        join(ws) == ws[0] + seq![' '] + join(ws.drop_first()),
    decreases ws.len(),
{
    if ws.len() > 2 {
        lemma_join_front(ws.drop_last());
        assert(ws.drop_last().drop_first() =~= ws.drop_first().drop_last());
        assert(ws.drop_last()[0] == ws[0]);
        assert(ws.drop_first().last() == ws.last());
    } else {
        assert(ws.drop_first().len() == 1);
        assert(ws.drop_last().len() == 1);
        assert(join(ws.drop_first()) == ws[1]);
        assert(join(ws.drop_last()) == ws[0]);
    }
}

proof fn lemma_word_len_word(w: Seq<char>, rest: Seq<char>)
    requires
        is_word(w),
        rest.len() == 0 || is_ws(rest[0]),
    ensures
        word_len(w + rest) == w.len(),
{
    let s = w + rest;
    assert forall|k: int| 0 <= k < w.len() implies !is_ws(#[trigger] s[k]) by {
        assert(s[k] == w[k]);
    }
    if rest.len() > 0 {
        assert(s[w.len() as int] == rest[0]);
    }
    lemma_word_len_at(s, 0, w.len() as int);
    assert(s.skip(0) =~= s);
}

/// Splitting joined words on whitespace gives back the words.
pub proof fn law_words_of_join(ws: Seq<Seq<char>>)
    requires
        forall|k: int| 0 <= k < ws.len() ==> is_word(#[trigger] ws[k]),
    ensures
        words(join(ws)) == ws,
    decreases ws.len(),
{
    if ws.len() == 0 {
        assert(words(join(ws)) =~= ws);
    } else {
        let w = ws[0];
        assert(is_word(w));
        let rest = ws.drop_first();
        assert forall|k: int| 0 <= k < rest.len() implies is_word(#[trigger] rest[k]) by {
            assert(rest[k] == ws[k + 1]);
        }
        if ws.len() == 1 {
            let s = join(ws);
            assert(s == w);
            lemma_word_len_word(w, Seq::<char>::empty());
            assert(w + Seq::<char>::empty() =~= w);
            assert(s.skip(w.len() as int).len() == 0);
            assert(s.take(w.len() as int) =~= w);
            assert(word_len(s) == w.len());
            assert(!is_ws(s[0]));
            assert(words(s.skip(w.len() as int)) == Seq::<Seq<char>>::empty());
            assert(words(s) =~= seq![w]);
            assert(ws =~= seq![w]);
        } else {
            lemma_join_front(ws);
            law_words_of_join(rest);
            let tail = seq![' '] + join(rest);
            let s = join(ws);
            assert(s =~= w + tail);
            assert(tail[0] == ' ');
            assert(is_ws(' '));
            lemma_word_len_word(w, tail);
            assert(!is_ws(s[0]));
            assert(s.take(w.len() as int) =~= w);
            assert(s.skip(w.len() as int) =~= tail);
            assert(tail.drop_first() =~= join(rest));
            assert(words(tail) == words(tail.drop_first()));
            assert(words(s) == seq![w] + words(tail));
            assert(words(s) =~= ws);
        }
    }
}

/// The character ranges of the words of `cs`, with the words themselves.
pub(crate) fn word_ranges(cs: &Vec<char>) -> (r: Vec<(usize, usize)>)
    ensures
        r@.len() == words(cs@).len(),
        forall|k: int|
            0 <= k < r@.len() ==> {
                &&& (#[trigger] r@[k]).0 <= r@[k].1 <= cs@.len()
                &&& cs@.subrange(r@[k].0 as int, r@[k].1 as int) == words(cs@)[k]
            },
{
    let n = cs.len();
    let mut r: Vec<(usize, usize)> = Vec::new();
    let mut i: usize = 0;
    let ghost s = cs@;
    proof {
        assert(s.skip(0) =~= s);
    }
    while i < n
        invariant
            n == s.len(),
            s == cs@,
            i <= n,
            words(s) == r@.map_values(|p: (usize, usize)| s.subrange(p.0 as int, p.1 as int))
                + words(s.skip(i as int)),
            forall|k: int| 0 <= k < r@.len() ==> (#[trigger] r@[k]).0 <= r@[k].1 <= n,
        decreases n - i,
    {
        let ghost t = s.skip(i as int);
        let ghost before = r@.map_values(|p: (usize, usize)| s.subrange(p.0 as int, p.1 as int));
        if is_whitespace(cs[i]) {
            proof {
                assert(t[0] == s[i as int]);
                assert(t.drop_first() =~= s.skip(i + 1));
            }
            i = i + 1;
        } else {
            let mut j = i;
            while j < n && !is_whitespace(cs[j])
                invariant
                    n == s.len(),
                    s == cs@,
                    i <= j <= n,
                    forall|k: int| i <= k < j ==> !is_ws(#[trigger] s[k]),
                decreases n - j,
            {
                j = j + 1;
            }
            proof {
                lemma_word_len_at(s, i as int, j as int);
                assert(t[0] == s[i as int]);
                assert(t.take(j - i) =~= s.subrange(i as int, j as int));
                assert(t.skip(j - i) =~= s.skip(j as int));
            }
            r.push((i, j));
            proof {
                let after = r@.map_values(|p: (usize, usize)| s.subrange(p.0 as int, p.1 as int));
                assert(after =~= before.push(s.subrange(i as int, j as int)));
                assert(words(t) == seq![s.subrange(i as int, j as int)] + words(s.skip(j as int)));
                assert(before + words(t) =~= after + words(s.skip(j as int)));
            }
            i = j;
        }
    }
    proof {
        assert(s.skip(n as int).len() == 0);
        let v = r@.map_values(|p: (usize, usize)| s.subrange(p.0 as int, p.1 as int));
        assert(words(s) =~= v);
        assert forall|k: int| 0 <= k < r@.len() implies cs@.subrange(
            (#[trigger] r@[k]).0 as int,
            r@[k].1 as int,
        ) == words(cs@)[k] by {
            assert(v[k] == s.subrange(r@[k].0 as int, r@[k].1 as int));
        }
    }
    r
}


/// The words `ws[lo..hi]` of `s` joined with single spaces; `ranges` gives
/// the character range of each word.
pub(crate) fn join_range(
    s: &str,
    ranges: &Vec<(usize, usize)>,
    lo: usize,
    hi: usize,
    Ghost(ws): Ghost<Seq<Seq<char>>>,
) -> (r: String)
    requires
        lo <= hi <= ranges@.len() == ws.len(),
        forall|k: int|
            0 <= k < ranges@.len() ==> {
                &&& (#[trigger] ranges@[k]).0 <= ranges@[k].1 <= s@.len()
                &&& s@.subrange(ranges@[k].0 as int, ranges@[k].1 as int) == ws[k]
            },
    ensures
        r@ == join(ws.subrange(lo as int, hi as int)),
{
    let mut r = String::new();
    let mut k = lo;
    proof {
        reveal_strlit(" ");
        assert(ws.subrange(lo as int, lo as int) =~= Seq::<Seq<char>>::empty());
    }
    while k < hi
        invariant
            lo <= k <= hi <= ranges@.len() == ws.len(),
            forall|m: int|
                0 <= m < ranges@.len() ==> {
                    &&& (#[trigger] ranges@[m]).0 <= ranges@[m].1 <= s@.len()
                    &&& s@.subrange(ranges@[m].0 as int, ranges@[m].1 as int) == ws[m]
                },
            r@ == join(ws.subrange(lo as int, k as int)),
        decreases hi - k,
    {
        let (a, b) = ranges[k];
        let w = s.substring_char(a, b);
        proof {
            reveal_strlit(" ");
        }
        let ghost prev = ws.subrange(lo as int, k as int);
        let ghost next = ws.subrange(lo as int, k + 1);
        proof {
            assert(ranges@[k as int].0 <= ranges@[k as int].1 <= s@.len());
            assert(next.drop_last() =~= prev);
            assert(next.last() == ws[k as int]);
        }
        if k > lo {
            r.append(" ");
        }
        r.append(w);
        proof {
            if k == lo {
                assert(next.len() == 1);
                assert(r@ =~= next[0]);
            } else {
                assert(r@ =~= join(prev) + seq![' '] + ws[k as int]);
            }
        }
        k = k + 1;
    }
    r
}

/// The chunks of `ws`, starting at word `i`: every `step` words, the next
/// `size` words (fewer at the end) joined with single spaces.
pub open spec fn chunks_from(ws: Seq<Seq<char>>, size: nat, step: nat, i: nat) -> Seq<Seq<char>>
    decreases (if i < ws.len() {
        ws.len() - i
    } else {
        0
    }),
{
    if i >= ws.len() || step == 0 {
        seq![]
    } else {
        seq![window(ws, size, i as int)] + chunks_from(ws, size, step, i + step)
    }
}

/// The chunks that `split_text` cuts `text` into: windows of `size` words
/// that start `size - overlap` words apart.
pub open spec fn split_chunks(text: Seq<char>, size: nat, overlap: nat) -> Seq<Seq<char>> {
    chunks_from(words(text), size, (size - overlap) as nat, 0)
}


/// The window of up to `size` words of `ws` that starts at word `start`,
/// joined with spaces.
pub open spec fn window(ws: Seq<Seq<char>>, size: nat, start: int) -> Seq<char> {
    let end = if start + size < ws.len() {
        start + size
    } else {
        ws.len() as int
    };
    join(ws.subrange(start, end))
}

/// Closed form of `chunks_from` over words: one window every `step`
/// words, from word `i` on.
pub proof fn lemma_chunks_from_windows(ws: Seq<Seq<char>>, size: nat, step: nat, i: nat)
    requires
        step > 0,
        size >= 1,
        forall|k: int| 0 <= k < ws.len() ==> is_word(#[trigger] ws[k]),
    ensures
        i >= ws.len() ==> chunks_from(ws, size, step, i).len() == 0,
        i < ws.len() ==> chunks_from(ws, size, step, i).len() == (ws.len() - i + step - 1) / (
        step as int),
        forall|k: int|
            0 <= k < chunks_from(ws, size, step, i).len() ==> #[trigger] chunks_from(
                ws,
                size,
                step,
                i,
            )[k] == window(ws, size, i + k * step),
    decreases (if i < ws.len() {
        ws.len() - i
    } else {
        0
    }),
{
    if i < ws.len() {
        let n = ws.len() as int;
        let end = if i + size < n {
            (i + size) as int
        } else {
            n
        };
        let part = ws.subrange(i as int, end);
        assert forall|m: int| 0 <= m < part.len() implies is_word(#[trigger] part[m]) by {
            assert(part[m] == ws[i + m]);
        }
        lemma_join_trimmed(part);
        let rest = chunks_from(ws, size, step, i + step);
        lemma_chunks_from_windows(ws, size, step, i + step);
        let all = chunks_from(ws, size, step, i);
        assert(all == seq![window(ws, size, i as int)] + rest);
        let x = n - i - 1;
        let d = step as int;
        if i + step >= n {
            assert(0 <= x < d);
            vstd::arithmetic::div_mod::lemma_basic_div(x, d);
            vstd::arithmetic::div_mod::lemma_div_plus_one(x, d);
            assert((n - i + step - 1) / d == 1);
        } else {
            assert(rest.len() == (n - (i + step) + step - 1) / d);
            assert(n - (i + step) + step - 1 == x);
            vstd::arithmetic::div_mod::lemma_div_plus_one(x, d);
            assert(n - i + step - 1 == d + x);
        }
        assert forall|k: int| 0 <= k < all.len() implies #[trigger] all[k] == window(
            ws,
            size,
            i + k * step,
        ) by {
            if k > 0 {
                assert(all[k] == rest[k - 1]);
                assert((i + step) + (k - 1) * step == i + k * step) by (nonlinear_arith);
            }
        }
    }
}

} // verus!
