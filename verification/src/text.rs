//! Character-sequence helpers shared by the header parsing and rewriting
//! logic: first-occurrence search, whitespace trimming, quote stripping,
//! ASCII-case-insensitive comparison and prefix tests.

use vstd::prelude::*;

verus! {

/// The Unicode `White_Space` code points, the set recognised by
/// `str::trim` and `str::split_whitespace`.
pub open spec fn is_ws_char(c: char) -> bool {
    ||| c == '\u{0009}'
    ||| c == '\u{000A}'
    ||| c == '\u{000B}'
    ||| c == '\u{000C}'
    ||| c == '\u{000D}'
    ||| c == ' '
    ||| c == '\u{0085}'
    ||| c == '\u{00A0}'
    ||| c == '\u{1680}'
    ||| '\u{2000}' <= c <= '\u{200A}'
    ||| c == '\u{2028}'
    ||| c == '\u{2029}'
    ||| c == '\u{202F}'
    ||| c == '\u{205F}'
    ||| c == '\u{3000}'
}

pub fn char_is_ws(c: char) -> (r: bool)
    ensures
        r == is_ws_char(c),
{
    c == '\u{0009}' || c == '\u{000A}' || c == '\u{000B}' || c == '\u{000C}' || c == '\u{000D}'
        || c == ' ' || c == '\u{0085}' || c == '\u{00A0}' || c == '\u{1680}' || ('\u{2000}' <= c
        && c <= '\u{200A}') || c == '\u{2028}' || c == '\u{2029}' || c == '\u{202F}' || c
        == '\u{205F}' || c == '\u{3000}'
}

/// Index of the first occurrence of `c` in `s`, if any.
pub open spec fn first_index_of(s: Seq<char>, c: char) -> Option<int>
    decreases s.len(),
{
    if s.len() == 0 {
        None
    } else if s[0] == c {
        Some(0int)
    } else {
        match first_index_of(s.drop_first(), c) {
            Some(i) => Some(i + 1),
            None => None,
        }
    }
}

/// `first_index_of` finds an occurrence and nothing earlier.
pub proof fn lemma_first_index_of(s: Seq<char>, c: char)
    ensures
        match first_index_of(s, c) {
            Some(i) => 0 <= i < s.len() && s[i] == c && (forall|j: int| 0 <= j < i ==> s[j] != c),
            None => forall|j: int| 0 <= j < s.len() ==> s[j] != c,
        },
    decreases s.len(),
{
    if s.len() > 0 && s[0] != c {
        lemma_first_index_of(s.drop_first(), c);
        match first_index_of(s.drop_first(), c) {
            Some(i) => {
                assert(s[i + 1] == s.drop_first()[i]);
                assert forall|j: int| 0 <= j < i + 1 implies s[j] != c by {
                    if j > 0 {
                        assert(s[j] == s.drop_first()[j - 1]);
                    }
                }
            },
            None => {
                assert forall|j: int| 0 <= j < s.len() implies s[j] != c by {
                    if j > 0 {
                        assert(s[j] == s.drop_first()[j - 1]);
                    }
                }
            },
        }
    }
}

pub open spec fn contains_char(s: Seq<char>, c: char) -> bool {
    exists|i: int| 0 <= i < s.len() && s[i] == c
}

/// Index of the first occurrence of the character `c` in `s`, counting in
/// characters, or `None` when `c` does not occur.
pub fn find_char(s: &str, c: char) -> (r: Option<usize>)
    ensures
        match r {
            Some(i) => first_index_of(s@, c) == Some(i as int),
            None => first_index_of(s@, c) is None,
        },
{
    let n: usize = s.unicode_len();
    let mut i: usize = 0;
    loop
        invariant
            n == s@.len(),
            0 <= i <= n,
            forall|j: int| 0 <= j < i ==> s@[j] != c,
        ensures
            match first_index_of(s@, c) {
                Some(k) => i == k && i < n && s@[i as int] == c,
                None => i == n,
            },
        decreases n - i,
    {
        proof {
            lemma_first_index_of(s@, c);
        }
        if i == n {
            break ;
        }
        if s.get_char(i) == c {
            break ;
        }
        i += 1;
    }
    if i < n {
        Some(i)
    } else {
        None
    }
}

pub fn str_contains_char(s: &str, c: char) -> (r: bool)
    ensures
        r == contains_char(s@, c),
{
    proof {
        lemma_first_index_of(s@, c);
    }
    match find_char(s, c) {
        Some(_) => true,
        None => false,
    }
}

/// ASCII lower-casing on code points: `A`..`Z` map to `a`..`z`.
pub open spec fn lower_u32(x: u32) -> u32 {
    if 65 <= x <= 90 {
        (x + 32) as u32
    } else {
        x
    }
}

/// Equality of two character sequences up to ASCII case.
pub open spec fn eq_ascii_ci(a: Seq<char>, b: Seq<char>) -> bool {
    &&& a.len() == b.len()
    &&& forall|i: int|
        0 <= i < a.len() ==> lower_u32(#[trigger] a[i] as u32) == lower_u32(b[i] as u32)
}

pub fn str_eq_ignore_ascii_case(a: &str, b: &str) -> (r: bool)
    ensures
        r == eq_ascii_ci(a@, b@),
{
    let na: usize = a.unicode_len();
    let nb: usize = b.unicode_len();
    if na != nb {
        return false;
    }
    let mut i: usize = 0;
    while i < na
        invariant
            na == a@.len(),
            nb == b@.len(),
            na == nb,
            0 <= i <= na,
            forall|j: int|
                0 <= j < i ==> lower_u32(#[trigger] a@[j] as u32) == lower_u32(b@[j] as u32),
        decreases na - i,
    {
        let ca: u32 = a.get_char(i) as u32;
        let cb: u32 = b.get_char(i) as u32;
        let la: u32 = if 65 <= ca && ca <= 90 {
            ca + 32
        } else {
            ca
        };
        let lb: u32 = if 65 <= cb && cb <= 90 {
            cb + 32
        } else {
            cb
        };
        if la != lb {
            return false;
        }
        i += 1;
    }
    true
}

/// Characters satisfying `p` removed from the front of `s`.
pub open spec fn drop_leading(s: Seq<char>, p: spec_fn(char) -> bool) -> Seq<char>
    decreases s.len(),
{
    if s.len() > 0 && p(s[0]) {
        drop_leading(s.drop_first(), p)
    } else {
        s
    }
}

/// Characters satisfying `p` removed from the back of `s`.
pub open spec fn drop_trailing(s: Seq<char>, p: spec_fn(char) -> bool) -> Seq<char>
    decreases s.len(),
{
    if s.len() > 0 && p(s.last()) {
        drop_trailing(s.drop_last(), p)
    } else {
        s
    }
}

/// `drop_leading` keeps exactly the suffix from the first index whose
/// character fails `p`.
pub proof fn lemma_drop_leading_subrange(s: Seq<char>, p: spec_fn(char) -> bool, a: int)
    requires
        0 <= a <= s.len(),
        forall|j: int| 0 <= j < a ==> p(#[trigger] s[j]),
        a == s.len() || !p(s[a]),
    ensures
        drop_leading(s, p) == s.subrange(a, s.len() as int),
    decreases a,
{
    if a == 0 {
        assert(s.subrange(0, s.len() as int) =~= s);
    } else {
        assert(p(s[0]));
        assert forall|j: int| 0 <= j < a - 1 implies p(#[trigger] s.drop_first()[j]) by {
            assert(s.drop_first()[j] == s[j + 1]);
        }
        assert(a - 1 == s.drop_first().len() || !p(s.drop_first()[a - 1]));
        lemma_drop_leading_subrange(s.drop_first(), p, a - 1);
        assert(s.drop_first().subrange(a - 1, s.drop_first().len() as int) =~= s.subrange(
            a,
            s.len() as int,
        ));
    }
}

/// `drop_trailing` keeps exactly the prefix up to the last index whose
/// character fails `p`.
pub proof fn lemma_drop_trailing_subrange(s: Seq<char>, p: spec_fn(char) -> bool, b: int)
    requires
        0 <= b <= s.len(),
        forall|j: int| b <= j < s.len() ==> p(#[trigger] s[j]),
        b == 0 || !p(s[b - 1]),
    ensures
        drop_trailing(s, p) == s.subrange(0, b),
    decreases s.len() - b,
{
    if b == s.len() {
        assert(s.subrange(0, b) =~= s);
    } else {
        assert(p(s.last()));
        assert forall|j: int| b <= j < s.drop_last().len() implies p(#[trigger] s.drop_last()[j]) by {
            assert(s.drop_last()[j] == s[j]);
        }
        lemma_drop_trailing_subrange(s.drop_last(), p, b);
        assert(s.drop_last().subrange(0, b) =~= s.subrange(0, b));
    }
}

/// Leading and trailing whitespace removed, as `str::trim` does.
pub open spec fn spec_trim(s: Seq<char>) -> Seq<char> {
    drop_trailing(drop_leading(s, |c: char| is_ws_char(c)), |c: char| is_ws_char(c))
}

/// Leading and trailing double quotes removed, as `str::trim_matches('"')`
/// does.
pub open spec fn spec_strip_quotes(s: Seq<char>) -> Seq<char> {
    drop_trailing(drop_leading(s, |c: char| c == '"'), |c: char| c == '"')
}

pub fn trim_str(s: &str) -> (r: String)
    ensures
        r@ == spec_trim(s@),
{
    let n: usize = s.unicode_len();
    let mut a: usize = 0;
    loop
        invariant
            n == s@.len(),
            0 <= a <= n,
            forall|j: int| 0 <= j < a ==> is_ws_char(#[trigger] s@[j]),
        ensures
            0 <= a <= n,
            forall|j: int| 0 <= j < a ==> is_ws_char(#[trigger] s@[j]),
            a == n || !is_ws_char(s@[a as int]),
        decreases n - a,
    {
        if a == n {
            break ;
        }
        if !char_is_ws(s.get_char(a)) {
            break ;
        }
        a += 1;
    }
    proof {
        lemma_drop_leading_subrange(s@, |c: char| is_ws_char(c), a as int);
    }
    if a == n {
        let r = String::new();
        proof {
            assert(s@.subrange(a as int, n as int) =~= Seq::<char>::empty());
        }
        return r;
    }
    let mut b: usize = n;
    loop
        invariant
            n == s@.len(),
            0 <= a < n,
            !is_ws_char(s@[a as int]),
            a < b <= n,
            forall|j: int| b <= j < n ==> is_ws_char(#[trigger] s@[j]),
        ensures
            a < b <= n,
            forall|j: int| b <= j < n ==> is_ws_char(#[trigger] s@[j]),
            !is_ws_char(s@[b - 1]),
        decreases b,
    {
        if !char_is_ws(s.get_char(b - 1)) {
            break ;
        }
        b -= 1;
    }
    let t = s.substring_char(a, b);
    let r = String::from_str(t);
    proof {
        let lead = s@.subrange(a as int, n as int);
        assert forall|j: int| b - a <= j < lead.len() implies is_ws_char(#[trigger] lead[j]) by {
            assert(lead[j] == s@[j + a]);
        }
        assert(!is_ws_char(lead[b - a - 1]));
        lemma_drop_trailing_subrange(lead, |c: char| is_ws_char(c), b - a);
        assert(lead.subrange(0, b - a) =~= s@.subrange(a as int, b as int));
    }
    r
}

pub fn strip_quotes_str(s: &str) -> (r: String)
    ensures
        r@ == spec_strip_quotes(s@),
{
    let n: usize = s.unicode_len();
    let mut a: usize = 0;
    loop
        invariant
            n == s@.len(),
            0 <= a <= n,
            forall|j: int| 0 <= j < a ==> #[trigger] s@[j] == '"',
        ensures
            0 <= a <= n,
            forall|j: int| 0 <= j < a ==> #[trigger] s@[j] == '"',
            a == n || s@[a as int] != '"',
        decreases n - a,
    {
        if a == n {
            break ;
        }
        if s.get_char(a) != '"' {
            break ;
        }
        a += 1;
    }
    proof {
        lemma_drop_leading_subrange(s@, |c: char| c == '"', a as int);
    }
    if a == n {
        let r = String::new();
        proof {
            assert(s@.subrange(a as int, n as int) =~= Seq::<char>::empty());
        }
        return r;
    }
    let mut b: usize = n;
    loop
        invariant
            n == s@.len(),
            0 <= a < n,
            s@[a as int] != '"',
            a < b <= n,
            forall|j: int| b <= j < n ==> #[trigger] s@[j] == '"',
        ensures
            a < b <= n,
            forall|j: int| b <= j < n ==> #[trigger] s@[j] == '"',
            s@[b - 1] != '"',
        decreases b,
    {
        if s.get_char(b - 1) != '"' {
            break ;
        }
        b -= 1;
    }
    let t = s.substring_char(a, b);
    let r = String::from_str(t);
    proof {
        let lead = s@.subrange(a as int, n as int);
        assert forall|j: int| b - a <= j < lead.len() implies #[trigger] lead[j] == '"' by {
            assert(lead[j] == s@[j + a]);
        }
        assert(lead[b - a - 1] != '"');
        lemma_drop_trailing_subrange(lead, |c: char| c == '"', b - a);
        assert(lead.subrange(0, b - a) =~= s@.subrange(a as int, b as int));
    }
    r
}

/// Start of the maximal whitespace-free run covering position `i`: the
/// first index at or before `i` preceded by whitespace or the sequence
/// start.
pub open spec fn token_start(s: Seq<char>, i: int) -> int
    recommends
        0 <= i <= s.len(),
    decreases i,
{
    if 0 < i <= s.len() && !is_ws_char(s[i - 1]) {
        token_start(s, i - 1)
    } else {
        i
    }
}

/// End of the maximal whitespace-free run starting at position `i`: the
/// first index at or after `i` holding whitespace, or the sequence end.
pub open spec fn token_end(s: Seq<char>, i: int) -> int
    recommends
        0 <= i <= s.len(),
    decreases s.len() - i,
{
    if 0 <= i < s.len() && !is_ws_char(s[i]) {
        token_end(s, i + 1)
    } else {
        i
    }
}

/// `p` is an initial segment of `s`.
pub open spec fn has_prefix(s: Seq<char>, p: Seq<char>) -> bool {
    p.len() <= s.len() && p == s.subrange(0, p.len() as int)
}

pub fn str_has_prefix(s: &str, p: &str) -> (r: bool)
    ensures
        r == has_prefix(s@, p@),
{
    let ns: usize = s.unicode_len();
    let np: usize = p.unicode_len();
    if np > ns {
        return false;
    }
    let mut i: usize = 0;
    while i < np
        invariant
            ns == s@.len(),
            np == p@.len(),
            np <= ns,
            0 <= i <= np,
            forall|j: int| 0 <= j < i ==> p@[j] == s@[j],
        decreases np - i,
    {
        if s.get_char(i) != p.get_char(i) {
            assert(!has_prefix(s@, p@)) by {
                assert(p@[i as int] != s@.subrange(0, p@.len() as int)[i as int]);
            }
            return false;
        }
        i += 1;
    }
    assert(p@ =~= s@.subrange(0, p@.len() as int));
    true
}

} // verus!
