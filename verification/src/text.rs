//! Character-level string helpers with their mathematical models.
//!
//! Text is modelled as `Seq<char>` (the view of `str` and `String`).
use vstd::prelude::*;

verus! {

// ---------------------------------------------------------------------------
// Models
// ---------------------------------------------------------------------------

/// `p` occurs in `s` starting at index `i`.
pub open spec fn matches_at(s: Seq<char>, p: Seq<char>, i: int) -> bool {
    0 <= i && i + p.len() <= s.len() && s.subrange(i, i + p.len()) == p
}

/// `s` begins with `p`.
pub open spec fn starts_with(s: Seq<char>, p: Seq<char>) -> bool {
    matches_at(s, p, 0)
}

/// `s` without the prefix `p`, or `s` itself when it does not begin with `p`.
pub open spec fn strip_prefix_or_self(s: Seq<char>, p: Seq<char>) -> Seq<char> {
    if starts_with(s, p) {
        s.skip(p.len() as int)
    } else {
        s
    }
}

/// Index of the leftmost occurrence of `p` in `s`.
pub open spec fn first_match(s: Seq<char>, p: Seq<char>) -> Option<int>
    decreases s.len(),
{
    if s.len() < p.len() {
        None
    } else if s.take(p.len() as int) == p {
        Some(0)
    } else if s.len() == 0 {
        None
    } else {
        match first_match(s.drop_first(), p) {
            Some(i) => Some(i + 1),
            None => None,
        }
    }
}

/// Index of the rightmost occurrence of `p` in `s`.
pub open spec fn last_match(s: Seq<char>, p: Seq<char>) -> Option<int>
    decreases s.len(),
{
    if s.len() < p.len() {
        None
    } else if s.skip(s.len() - p.len()) == p {
        Some(s.len() - p.len())
    } else if s.len() == 0 {
        None
    } else {
        last_match(s.drop_last(), p)
    }
}

/// Index of the first `c` in `s`.
pub open spec fn first_char(s: Seq<char>, c: char) -> Option<int>
    decreases s.len(),
{
    if s.len() == 0 {
        None
    } else if s[0] == c {
        Some(0)
    } else {
        match first_char(s.drop_first(), c) {
            Some(i) => Some(i + 1),
            None => None,
        }
    }
}

/// Index of the last `c` in `s`.
pub open spec fn last_char(s: Seq<char>, c: char) -> Option<int>
    decreases s.len(),
{
    if s.len() == 0 {
        None
    } else if s.last() == c {
        Some(s.len() - 1)
    } else {
        last_char(s.drop_last(), c)
    }
}

/// What `str::split(c).next()` yields: the text before the first `c`.
pub open spec fn before_char(s: Seq<char>, c: char) -> Seq<char> {
    match first_char(s, c) {
        Some(i) => s.take(i),
        None => s,
    }
}

/// What `str::split(p).next()` yields: the text before the first `p`.
pub open spec fn before_match(s: Seq<char>, p: Seq<char>) -> Seq<char> {
    match first_match(s, p) {
        Some(i) => s.take(i),
        None => s,
    }
}

/// The pieces of `s` between the occurrences of `c` (`str::split(c)`).
pub open spec fn split_char(s: Seq<char>, c: char) -> Seq<Seq<char>>
    decreases s.len(),
{
    match first_char(s, c) {
        Some(i) => if 0 <= i < s.len() {
            seq![s.take(i)] + split_char(s.skip(i + 1), c)
        } else {
            seq![s]
        },
        None => seq![s],
    }
}

/// `str::rsplit_once(c)`: the text before and after the last `c`.
pub open spec fn rsplit_once_char(s: Seq<char>, c: char) -> Option<(Seq<char>, Seq<char>)> {
    match last_char(s, c) {
        Some(i) => Some((s.take(i), s.skip(i + 1))),
        None => None,
    }
}

/// `str::rsplit_once(p)`: the text before and after the last `p`.
pub open spec fn rsplit_once_match(s: Seq<char>, p: Seq<char>) -> Option<(Seq<char>, Seq<char>)> {
    match last_match(s, p) {
        Some(i) => Some((s.take(i), s.skip(i + p.len()))),
        None => None,
    }
}

/// `str::trim_start_matches(p)` for a non-empty `p`.
pub open spec fn trim_start_match(s: Seq<char>, p: Seq<char>) -> Seq<char>
    decreases s.len(),
{
    if p.len() > 0 && starts_with(s, p) {
        trim_start_match(s.skip(p.len() as int), p)
    } else {
        s
    }
}

/// `str::trim_end_matches(c)`.
pub open spec fn trim_end_char(s: Seq<char>, c: char) -> Seq<char>
    decreases s.len(),
{
    if s.len() > 0 && s.last() == c {
        trim_end_char(s.drop_last(), c)
    } else {
        s
    }
}

/// The Unicode `White_Space` property, which `char::is_whitespace` tests.
pub open spec fn is_white_space(c: char) -> bool {
    let u = c as u32;
    (0x09 <= u <= 0x0D) || u == 0x20 || u == 0x85 || u == 0xA0 || u == 0x1680 || (0x2000 <= u
        <= 0x200A) || u == 0x2028 || u == 0x2029 || u == 0x202F || u == 0x205F || u == 0x3000
}

/// `s` without its leading white space.
pub open spec fn trim_start_ws(s: Seq<char>) -> Seq<char>
    decreases s.len(),
{
    if s.len() > 0 && is_white_space(s[0]) {
        trim_start_ws(s.drop_first())
    } else {
        s
    }
}

/// `s` without its trailing white space.
pub open spec fn trim_end_ws(s: Seq<char>) -> Seq<char>
    decreases s.len(),
{
    if s.len() > 0 && is_white_space(s.last()) {
        trim_end_ws(s.drop_last())
    } else {
        s
    }
}

/// `str::trim`: `s` without leading and trailing white space.
pub open spec fn trim_ws(s: Seq<char>) -> Seq<char> {
    trim_end_ws(trim_start_ws(s))
}

/// The present texts among `items`, in order.
pub open spec fn keep_strings(items: Seq<Option<Seq<char>>>) -> Seq<Seq<char>>
    decreases items.len(),
{
    if items.len() == 0 {
        Seq::empty()
    } else {
        match items.last() {
            Some(t) => keep_strings(items.drop_last()).push(t),
            None => keep_strings(items.drop_last()),
        }
    }
}

/// The view of an optional string.
pub open spec fn opt_text(o: Option<String>) -> Option<Seq<char>> {
    match o {
        Some(s) => Some(s@),
        None => None,
    }
}

/// The texts of `parts` with `sep` between each two (`[T]::join`).
pub open spec fn join(parts: Seq<Seq<char>>, sep: Seq<char>) -> Seq<char>
    decreases parts.len(),
{
    if parts.len() == 0 {
        Seq::empty()
    } else if parts.len() == 1 {
        parts[0]
    } else {
        join(parts.drop_last(), sep) + sep + parts.last()
    }
}

/// Every character of `s` is white space.
pub open spec fn all_white_space(s: Seq<char>) -> bool {
    forall|i: int| 0 <= i < s.len() ==> is_white_space(#[trigger] s[i])
}

/// The ASCII digit for `d < 10`.
pub open spec fn digit_char(d: nat) -> char {
    (d + 48) as char
}

/// Decimal notation of `n`, without leading zeros.
pub open spec fn decimal(n: nat) -> Seq<char>
    decreases n,
{
    if n < 10 {
        seq![digit_char(n)]
    } else {
        decimal(n / 10).push(digit_char(n % 10))
    }
}

/// Decimal notation of `i`, with a leading `-` when negative (as `Display` prints it).
pub open spec fn decimal_int(i: int) -> Seq<char> {
    if i < 0 {
        seq!['-'] + decimal((-i) as nat)
    } else {
        decimal(i as nat)
    }
}

// ---------------------------------------------------------------------------
// Lemmas on the models
// ---------------------------------------------------------------------------

/// `first_char` gives the index of the first `c`, or `None` when `s` has none.
pub proof fn lemma_first_char(s: Seq<char>, c: char)
    ensures
        match first_char(s, c) {
            Some(i) => 0 <= i < s.len() && s[i] == c && forall|j: int| 0 <= j < i ==> s[j] != c,
            None => forall|j: int| 0 <= j < s.len() ==> s[j] != c,
        },
    decreases s.len(),
{
    if s.len() > 0 && s[0] != c {
        lemma_first_char(s.drop_first(), c);
        assert forall|j: int| 1 <= j < s.len() implies s[j] == s.drop_first()[j - 1] by {}
    }
}

/// The first-occurrence property determines `first_char`.
pub proof fn lemma_first_char_at(s: Seq<char>, c: char, i: int)
    requires
        0 <= i <= s.len(),
        i < s.len() ==> s[i] == c,
        forall|j: int| 0 <= j < i ==> s[j] != c,
    ensures
        first_char(s, c) == (if i < s.len() {
            Some(i)
        } else {
            None::<int>
        }),
{
    lemma_first_char(s, c);
    match first_char(s, c) {
        Some(k) => {
            if k < i {
            } else if k > i {
                assert(s[i] != c);
            }
        },
        None => {
            if i < s.len() {
                assert(s[i] != c);
            }
        },
    }
}

/// `last_char` gives the index of the last `c`, or `None` when `s` has none.
pub proof fn lemma_last_char(s: Seq<char>, c: char)
    ensures
        match last_char(s, c) {
            Some(i) => 0 <= i < s.len() && s[i] == c && forall|j: int| i < j < s.len() ==> s[j]
                != c,
            None => forall|j: int| 0 <= j < s.len() ==> s[j] != c,
        },
    decreases s.len(),
{
    if s.len() > 0 && s.last() != c {
        lemma_last_char(s.drop_last(), c);
        assert(s.last() == s[s.len() - 1]);
        assert forall|j: int| 0 <= j < s.len() - 1 implies s.drop_last()[j] == s[j] by {}
    }
}

/// The last-occurrence property determines `last_char`.
pub proof fn lemma_last_char_at(s: Seq<char>, c: char, i: int)
    requires
        -1 <= i < s.len(),
        i >= 0 ==> s[i] == c,
        forall|j: int| i < j < s.len() ==> s[j] != c,
    ensures
        last_char(s, c) == (if i >= 0 {
            Some(i)
        } else {
            None::<int>
        }),
{
    lemma_last_char(s, c);
    match last_char(s, c) {
        Some(k) => {
            if k < i {
            } else if k > i {
                assert(s[k] != c);
            }
        },
        None => {
            if i >= 0 {
                assert(s[i] != c);
            }
        },
    }
}

/// `first_match` gives the leftmost occurrence of `p`, or `None` when there is none.
pub proof fn lemma_first_match(s: Seq<char>, p: Seq<char>)
    ensures
        match first_match(s, p) {
            Some(i) => matches_at(s, p, i) && forall|j: int| 0 <= j < i ==> !matches_at(s, p, j),
            None => forall|j: int| !matches_at(s, p, j),
        },
    decreases s.len(),
{
    if s.len() < p.len() {
    } else if s.take(p.len() as int) == p {
        assert(s.subrange(0, p.len() as int) =~= s.take(p.len() as int));
    } else if s.len() == 0 {
        assert(s.take(p.len() as int) =~= p);
    } else {
        let t = s.drop_first();
        lemma_first_match(t, p);
        assert(!matches_at(s, p, 0)) by {
            if matches_at(s, p, 0) {
                assert(s.subrange(0, p.len() as int) =~= s.take(p.len() as int));
            }
        }
        assert forall|j: int| 1 <= j implies matches_at(s, p, j) == matches_at(t, p, j - 1) by {
            if j + p.len() <= s.len() {
                assert(s.subrange(j, j + p.len()) =~= t.subrange(j - 1, j - 1 + p.len()));
            }
        }
    }
}

/// The leftmost-occurrence property determines `first_match`.
pub proof fn lemma_first_match_at(s: Seq<char>, p: Seq<char>, i: int)
    requires
        0 <= i,
        matches_at(s, p, i) || i + p.len() > s.len(),
        forall|j: int| 0 <= j < i ==> !matches_at(s, p, j),
    ensures
        first_match(s, p) == (if matches_at(s, p, i) {
            Some(i)
        } else {
            None::<int>
        }),
{
    lemma_first_match(s, p);
    match first_match(s, p) {
        Some(k) => {
            if k > i {
                assert(!matches_at(s, p, i));
                assert(matches_at(s, p, k));
            } else if k < i {
            }
        },
        None => {},
    }
}

/// `last_match` gives the rightmost occurrence of `p`, or `None` when there is none.
pub proof fn lemma_last_match(s: Seq<char>, p: Seq<char>)
    ensures
        match last_match(s, p) {
            Some(i) => matches_at(s, p, i) && forall|j: int| i < j ==> !matches_at(s, p, j),
            None => forall|j: int| !matches_at(s, p, j),
        },
    decreases s.len(),
{
    if s.len() < p.len() {
    } else if s.skip(s.len() - p.len()) == p {
        assert(s.subrange(s.len() - p.len(), s.len() as int) =~= s.skip(s.len() - p.len()));
    } else if s.len() == 0 {
        assert(s.skip(s.len() - p.len()) =~= p);
    } else {
        let t = s.drop_last();
        lemma_last_match(t, p);
        assert forall|j: int| j + p.len() < s.len() implies matches_at(s, p, j) == matches_at(
            t,
            p,
            j,
        ) by {
            if 0 <= j {
                assert(s.subrange(j, j + p.len()) =~= t.subrange(j, j + p.len()));
            }
        }
        assert(!matches_at(s, p, s.len() - p.len())) by {
            if matches_at(s, p, s.len() - p.len()) {
                assert(s.subrange(s.len() - p.len(), s.len() as int) =~= s.skip(
                    s.len() - p.len(),
                ));
            }
        }
    }
}

/// The rightmost-occurrence property determines `last_match`.
pub proof fn lemma_last_match_at(s: Seq<char>, p: Seq<char>, i: int)
    requires
        matches_at(s, p, i) || i < 0,
        forall|j: int| i < j ==> !matches_at(s, p, j),
    ensures
        last_match(s, p) == (if i >= 0 {
            Some(i)
        } else {
            None::<int>
        }),
{
    lemma_last_match(s, p);
    match last_match(s, p) {
        Some(k) => {
            if k < i {
            } else if k > i {
            }
        },
        None => {
            if i >= 0 {
                assert(!matches_at(s, p, i));
            }
        },
    }
}

/// When `s` has no `c`, splitting it gives `s` alone.
pub proof fn lemma_split_char_none(s: Seq<char>, c: char)
    requires
        forall|j: int| 0 <= j < s.len() ==> s[j] != c,
    ensures
        split_char(s, c) == seq![s],
{
    lemma_first_char_at(s, c, s.len() as int);
}

/// When `c` first occurs at `i`, splitting `s` gives `s[..i]` then the pieces of `s[i+1..]`.
pub proof fn lemma_split_char_at(s: Seq<char>, c: char, i: int)
    requires
        0 <= i < s.len(),
        s[i] == c,
        forall|j: int| 0 <= j < i ==> s[j] != c,
    ensures
        split_char(s, c) == seq![s.take(i)] + split_char(s.skip(i + 1), c),
{
    lemma_first_char_at(s, c, i);
}

// ---------------------------------------------------------------------------
// Trusted wrappers of std
// ---------------------------------------------------------------------------

/// `String::push`: appends `c` to `s`.
#[verifier::external_body]
pub(crate) fn push_char(s: &mut String, c: char)
    ensures
        final(s)@ == old(s)@.push(c),
{
    s.push(c);
}

/// `char::is_whitespace`: whether `c` has the Unicode `White_Space` property.
#[verifier::external_body]
pub(crate) fn char_is_whitespace(c: char) -> (b: bool)
    ensures
        b == is_white_space(c),
{
    c.is_whitespace()
}

// ---------------------------------------------------------------------------
// Executable helpers
// ---------------------------------------------------------------------------

/// The characters of `s`, in order.
pub fn chars_of(s: &str) -> (v: Vec<char>)
    ensures
        v@ == s@,
{
    broadcast use vstd::string::group_string_axioms;

    let mut v: Vec<char> = Vec::new();
    for c in it: s.chars()
        invariant
            v@ == it.seq().take(it.index()),
            it.seq() == s@,
    {
        v.push(c);
    }
    v
}

/// Appends `v[lo..hi]` to `s`.
pub fn push_range(s: &mut String, v: &Vec<char>, lo: usize, hi: usize)
    requires
        lo <= hi <= v.len(),
    ensures
        final(s)@ == old(s)@ + v@.subrange(lo as int, hi as int),
{
    let mut i = lo;
    while i < hi
        invariant
            lo <= i <= hi <= v.len(),
            s@ == old(s)@ + v@.subrange(lo as int, i as int),
        decreases hi - i,
    {
        push_char(s, v[i]);
        assert(v@.subrange(lo as int, i + 1) =~= v@.subrange(lo as int, i as int).push(v@[i as int]));
        i = i + 1;
    }
}

/// The string made of `v[lo..hi]`.
pub fn string_of_range(v: &Vec<char>, lo: usize, hi: usize) -> (s: String)
    requires
        lo <= hi <= v.len(),
    ensures
        s@ == v@.subrange(lo as int, hi as int),
{
    let mut s = String::new();
    push_range(&mut s, v, lo, hi);
    s
}

/// Whether `p` occurs in `v` at index `i`.
pub fn matches_at_exec(v: &Vec<char>, p: &Vec<char>, i: usize) -> (b: bool)
    ensures
        b == matches_at(v@, p@, i as int),
{
    if i > v.len() || p.len() > v.len() - i {
        return false;
    }
    let mut k: usize = 0;
    while k < p.len()
        invariant
            i + p.len() <= v.len(),
            k <= p.len(),
            forall|j: int| 0 <= j < k ==> v@[i + j] == p@[j],
        decreases p.len() - k,
    {
        if v[i + k] != p[k] {
            assert(v@.subrange(i as int, i + p.len())[k as int] != p@[k as int]);
            return false;
        }
        k = k + 1;
    }
    assert(v@.subrange(i as int, i + p.len()) =~= p@);
    true
}

/// Whether `s` begins with `p`.
pub fn starts_with_str(s: &str, p: &str) -> (b: bool)
    ensures
        b == starts_with(s@, p@),
{
    let v = chars_of(s);
    let pv = chars_of(p);
    matches_at_exec(&v, &pv, 0)
}

/// Index of the first `c` in `v` at or after `start`.
pub fn find_char_from(v: &Vec<char>, c: char, start: usize) -> (r: Option<usize>)
    requires
        start <= v.len(),
    ensures
        match r {
            Some(k) => start <= k < v.len() && v@[k as int] == c && forall|j: int|
                start <= j < k ==> v@[j] != c,
            None => forall|j: int| start <= j < v.len() ==> v@[j] != c,
        },
{
    let mut i = start;
    while i < v.len()
        invariant
            start <= i <= v.len(),
            forall|j: int| start <= j < i ==> v@[j] != c,
        decreases v.len() - i,
    {
        if v[i] == c {
            return Some(i);
        }
        i = i + 1;
    }
    None
}

/// Index of the last `c` in `v`.
pub fn rfind_char(v: &Vec<char>, c: char) -> (r: Option<usize>)
    ensures
        match r {
            Some(k) => last_char(v@, c) == Some(k as int),
            None => last_char(v@, c) is None,
        },
        r matches Some(k) ==> k < v.len(),
{
    let mut i = v.len();
    while i > 0
        invariant
            i <= v.len(),
            forall|j: int| i <= j < v.len() ==> v@[j] != c,
        decreases i,
    {
        if v[i - 1] == c {
            proof {
                lemma_last_char_at(v@, c, i - 1);
            }
            return Some(i - 1);
        }
        i = i - 1;
    }
    proof {
        lemma_last_char_at(v@, c, -1);
    }
    None
}

/// Index of the leftmost occurrence of `p` in `v`.
pub fn find_match(v: &Vec<char>, p: &Vec<char>) -> (r: Option<usize>)
    ensures
        match r {
            Some(k) => first_match(v@, p@) == Some(k as int),
            None => first_match(v@, p@) is None,
        },
        r matches Some(k) ==> k + p.len() <= v.len(),
{
    if p.len() > v.len() {
        proof {
            lemma_first_match_at(v@, p@, 0);
        }
        return None;
    }
    let last = v.len() - p.len();
    let mut i: usize = 0;
    loop
        invariant
            last == v.len() - p.len(),
            p.len() <= v.len(),
            i <= last,
            forall|j: int| 0 <= j < i ==> !matches_at(v@, p@, j),
        decreases last - i,
    {
        if matches_at_exec(v, p, i) {
            proof {
                lemma_first_match_at(v@, p@, i as int);
            }
            return Some(i);
        }
        if i == last {
            proof {
                lemma_first_match_at(v@, p@, i + 1);
            }
            return None;
        }
        i = i + 1;
    }
}

/// Index of the rightmost occurrence of `p` in `v`.
pub fn rfind_match(v: &Vec<char>, p: &Vec<char>) -> (r: Option<usize>)
    ensures
        match r {
            Some(k) => last_match(v@, p@) == Some(k as int),
            None => last_match(v@, p@) is None,
        },
        r matches Some(k) ==> k + p.len() <= v.len(),
{
    if p.len() > v.len() {
        proof {
            lemma_last_match_at(v@, p@, -1);
        }
        return None;
    }
    let mut i: usize = v.len() - p.len();
    loop
        invariant
            p.len() <= v.len(),
            i <= v.len() - p.len(),
            forall|j: int| i < j ==> !matches_at(v@, p@, j),
        decreases i,
    {
        if matches_at_exec(v, p, i) {
            proof {
                lemma_last_match_at(v@, p@, i as int);
            }
            return Some(i);
        }
        if i == 0 {
            proof {
                lemma_last_match_at(v@, p@, -1);
            }
            return None;
        }
        i = i - 1;
    }
}

/// `str::split(c).next()`: the text of `s` before its first `c`.
pub fn before_char_str(s: &str, c: char) -> (r: String)
    ensures
        r@ == before_char(s@, c),
{
    let v = chars_of(s);
    match find_char_from(&v, c, 0) {
        Some(k) => {
            proof {
                lemma_first_char_at(v@, c, k as int);
            }
            let r = string_of_range(&v, 0, k);
            assert(r@ =~= v@.take(k as int));
            r
        },
        None => {
            proof {
                lemma_first_char_at(v@, c, v.len() as int);
            }
            let r = string_of_range(&v, 0, v.len());
            assert(v@.subrange(0, v.len() as int) =~= v@);
            r
        },
    }
}

/// `str::split(p).next()`: the text of `s` before the first `p`.
pub fn before_match_str(s: &str, p: &str) -> (r: String)
    ensures
        r@ == before_match(s@, p@),
{
    let v = chars_of(s);
    let pv = chars_of(p);
    match find_match(&v, &pv) {
        Some(k) => {
            let r = string_of_range(&v, 0, k);
            assert(r@ =~= v@.take(k as int));
            r
        },
        None => {
            let r = string_of_range(&v, 0, v.len());
            assert(v@.subrange(0, v.len() as int) =~= v@);
            r
        },
    }
}

/// `str::split(c)`: the pieces of `s` between occurrences of `c`.
pub fn split_char_str(s: &str, c: char) -> (pieces: Vec<String>)
    ensures
        pieces@.map_values(|p: String| p@) == split_char(s@, c),
{
    let v = chars_of(s);
    let mut pieces: Vec<String> = Vec::new();
    let mut start: usize = 0;
    assert(v@.skip(0) =~= v@);
    assert(pieces@.map_values(|p: String| p@) =~= Seq::<Seq<char>>::empty());
    loop
        invariant
            start <= v.len(),
            v@ == s@,
            split_char(s@, c) == pieces@.map_values(|p: String| p@) + split_char(v@.skip(start as int), c),
        decreases v.len() - start,
    {
        match find_char_from(&v, c, start) {
            Some(k) => {
                let piece = string_of_range(&v, start, k);
                proof {
                    let t = v@.skip(start as int);
                    assert forall|j: int| 0 <= j < k - start implies t[j] != c by {
                        assert(t[j] == v@[start + j]);
                    }
                    lemma_split_char_at(t, c, k - start);
                    assert(t.take(k - start) =~= piece@);
                    assert(t.skip(k - start + 1) =~= v@.skip(k + 1));
                }
                let ghost before = pieces@.map_values(|p: String| p@);
                pieces.push(piece);
                assert(pieces@.map_values(|p: String| p@) =~= before.push(piece@));
                start = k + 1;
            },
            None => {
                let piece = string_of_range(&v, start, v.len());
                proof {
                    let t = v@.skip(start as int);
                    assert forall|j: int| 0 <= j < t.len() implies t[j] != c by {
                        assert(t[j] == v@[start + j]);
                    }
                    lemma_split_char_none(t, c);
                    assert(t =~= piece@);
                }
                let ghost before = pieces@.map_values(|p: String| p@);
                pieces.push(piece);
                assert(pieces@.map_values(|p: String| p@) =~= before.push(piece@));
                return pieces;
            },
        }
    }
}

/// `str::rsplit_once(c)`.
pub fn rsplit_once_char_str(s: &str, c: char) -> (r: Option<(String, String)>)
    ensures
        match r {
            Some((a, b)) => rsplit_once_char(s@, c) == Some((a@, b@)),
            None => rsplit_once_char(s@, c) is None,
        },
{
    let v = chars_of(s);
    match rfind_char(&v, c) {
        Some(k) => {
            let a = string_of_range(&v, 0, k);
            let b = string_of_range(&v, k + 1, v.len());
            assert(a@ =~= v@.take(k as int));
            assert(b@ =~= v@.skip(k + 1));
            Some((a, b))
        },
        None => None,
    }
}

/// `str::rsplit_once(p)`.
pub fn rsplit_once_match_str(s: &str, p: &str) -> (r: Option<(String, String)>)
    ensures
        match r {
            Some((a, b)) => rsplit_once_match(s@, p@) == Some((a@, b@)),
            None => rsplit_once_match(s@, p@) is None,
        },
{
    let v = chars_of(s);
    let pv = chars_of(p);
    match rfind_match(&v, &pv) {
        Some(k) => {
            let a = string_of_range(&v, 0, k);
            let b = string_of_range(&v, k + pv.len(), v.len());
            assert(a@ =~= v@.take(k as int));
            assert(b@ =~= v@.skip(k + p@.len()));
            Some((a, b))
        },
        None => None,
    }
}

/// `str::trim_start_matches(p)` for a non-empty `p`.
pub fn trim_start_match_str(s: &str, p: &str) -> (r: String)
    requires
        p@.len() > 0,
    ensures
        r@ == trim_start_match(s@, p@),
{
    let v = chars_of(s);
    let pv = chars_of(p);
    let mut i: usize = 0;
    assert(v@.skip(0) =~= v@);
    while matches_at_exec(&v, &pv, i)
        invariant
            i <= v.len(),
            pv@.len() > 0,
            trim_start_match(v@, pv@) == trim_start_match(v@.skip(i as int), pv@),
        decreases v.len() - i,
    {
        proof {
            let t = v@.skip(i as int);
            assert(t.subrange(0, pv@.len() as int) =~= v@.subrange(i as int, i + pv@.len()));
            assert(t.skip(pv@.len() as int) =~= v@.skip(i + pv@.len()));
        }
        i = i + pv.len();
    }
    proof {
        let t = v@.skip(i as int);
        if starts_with(t, pv@) {
            assert(t.subrange(0, pv@.len() as int) =~= v@.subrange(i as int, i + pv@.len()));
        }
    }
    let r = string_of_range(&v, i, v.len());
    assert(r@ =~= v@.skip(i as int));
    r
}

/// `str::trim_end_matches(c)`.
pub fn trim_end_char_str(s: &str, c: char) -> (r: String)
    ensures
        r@ == trim_end_char(s@, c),
{
    let v = chars_of(s);
    let mut i: usize = v.len();
    assert(v@.take(v.len() as int) =~= v@);
    while i > 0 && v[i - 1] == c
        invariant
            i <= v.len(),
            trim_end_char(v@, c) == trim_end_char(v@.take(i as int), c),
        decreases i,
    {
        assert(v@.take(i as int).drop_last() =~= v@.take(i - 1));
        i = i - 1;
    }
    assert(v@.take(v.len() as int) =~= v@);
    let r = string_of_range(&v, 0, i);
    assert(r@ =~= v@.take(i as int));
    r
}

/// `str::trim`: `s` without leading and trailing white space.
pub fn trim_str(s: &str) -> (r: String)
    ensures
        r@ == trim_ws(s@),
{
    let v = chars_of(s);
    let mut lo: usize = 0;
    assert(v@.skip(0) =~= v@);
    while lo < v.len() && char_is_whitespace(v[lo])
        invariant
            lo <= v.len(),
            trim_start_ws(v@) == trim_start_ws(v@.skip(lo as int)),
        decreases v.len() - lo,
    {
        assert(v@.skip(lo as int).drop_first() =~= v@.skip(lo + 1));
        lo = lo + 1;
    }
    assert(v@.skip(0) =~= v@);
    let mut hi: usize = v.len();
    while hi > lo && char_is_whitespace(v[hi - 1])
        invariant
            lo <= hi <= v.len(),
            trim_start_ws(v@) == v@.skip(lo as int),
            trim_ws(v@) == trim_end_ws(v@.subrange(lo as int, hi as int)),
        decreases hi,
    {
        assert(v@.subrange(lo as int, hi as int).drop_last() =~= v@.subrange(lo as int, hi - 1));
        hi = hi - 1;
    }
    assert(v@.skip(lo as int) =~= v@.subrange(lo as int, v.len() as int));
    string_of_range(&v, lo, hi)
}

/// Whether every character of `s` is white space (`s.trim().is_empty()`).
pub fn is_blank(s: &str) -> (b: bool)
    ensures
        b == all_white_space(s@),
{
    let v = chars_of(s);
    let mut i: usize = 0;
    while i < v.len()
        invariant
            i <= v.len(),
            v@ == s@,
            forall|j: int| 0 <= j < i ==> is_white_space(#[trigger] v@[j]),
        decreases v.len() - i,
    {
        if !char_is_whitespace(v[i]) {
            return false;
        }
        i = i + 1;
    }
    true
}

/// The present texts among `items`, in order.
pub fn present_texts(items: &Vec<Option<String>>) -> (paths: Vec<String>)
    ensures
        paths@.map_values(|p: String| p@) == keep_strings(
            items@.map_values(|o: Option<String>| opt_text(o)),
        ),
{
    let ghost views = items@.map_values(|o: Option<String>| opt_text(o));
    let mut paths: Vec<String> = Vec::new();
    let mut i: usize = 0;
    while i < items.len()
        invariant
            i <= items@.len(),
            views == items@.map_values(|o: Option<String>| opt_text(o)),
            paths@.map_values(|p: String| p@) == keep_strings(views.take(i as int)),
        decreases items.len() - i,
    {
        assert(views.take(i + 1).drop_last() =~= views.take(i as int));
        let ghost before = paths@.map_values(|p: String| p@);
        match &items[i] {
            Some(p) => {
                paths.push(p.clone());
                assert(paths@.map_values(|p: String| p@) =~= before.push(p@));
            },
            None => {},
        }
        i = i + 1;
    }
    assert(views.take(items@.len() as int) =~= views);
    paths
}

/// The texts of `parts` with `sep` between each two.
pub fn join_str(parts: &Vec<String>, sep: &str) -> (r: String)
    ensures
        r@ == join(parts@.map_values(|p: String| p@), sep@),
{
    let ghost views = parts@.map_values(|p: String| p@);
    let mut r = String::new();
    let mut i: usize = 0;
    while i < parts.len()
        invariant
            i <= parts@.len(),
            views == parts@.map_values(|p: String| p@),
            r@ == join(views.take(i as int), sep@),
        decreases parts.len() - i,
    {
        assert(views.take(i + 1).drop_last() =~= views.take(i as int));
        if i == 0 {
            r.append(parts[i].as_str());
            assert(views.take(1) =~= seq![parts@[0]@]);
        } else {
            r.append(sep);
            r.append(parts[i].as_str());
        }
        i = i + 1;
    }
    assert(views.take(parts@.len() as int) =~= views);
    r
}

/// Appends the decimal notation of `n` to `s`.
pub fn push_decimal(s: &mut String, n: u64)
    ensures
        final(s)@ == old(s)@ + decimal(n as nat),
    decreases n,
{
    if n >= 10 {
        push_decimal(s, n / 10);
    }
    let d = (n % 10) as u8;
    let c = (d + 48) as char;
    push_char(s, c);
    proof {
        if n >= 10 {
            assert(old(s)@ + decimal(n as nat) =~= old(s)@ + decimal((n / 10) as nat) + seq![c]);
        } else {
            assert(old(s)@ + decimal(n as nat) =~= old(s)@.push(c));
        }
    }
}

/// Appends the decimal notation of `i` to `s`, as `Display` prints an `i64`.
pub fn push_decimal_i64(s: &mut String, i: i64)
    ensures
        final(s)@ == old(s)@ + decimal_int(i as int),
{
    if i < 0 {
        push_char(s, '-');
        let m: u64 = if i == i64::MIN {
            9223372036854775808u64
        } else {
            (-i) as u64
        };
        push_decimal(s, m);
        assert(old(s)@ + decimal_int(i as int) =~= old(s)@.push('-') + decimal(m as nat));
    } else {
        push_decimal(s, i as u64);
    }
}

} // verus!
