//! The text form `PREFIX-VALUE`: where it splits, and how a parsed prefix
//! compares with the one that a marker type expects.
use vstd::prelude::*;
use vstd::string::*;

use crate::error::{Error, ErrorKind};

verus! {

/// The separator between prefix and value.
pub open spec fn dash() -> char {
    '-'
}

/// The text of an identifier made of the prefix text `p` and the bytes `u`.
pub open spec fn render(p: Seq<char>, u: Seq<u8>) -> Seq<char> {
    p + seq![dash()] + crate::codec::base32hex(u)
}

/// `i` is the index of the first `-` of `s`.
pub open spec fn is_first_dash(s: Seq<char>, i: int) -> bool {
    &&& 0 <= i < s.len()
    &&& s[i] == dash()
    &&& forall|j: int| 0 <= j < i ==> #[trigger] s[j] != dash()
}

/// The text before and the text after the first `-` of `s`, if it has one.
pub open spec fn split_dash(s: Seq<char>) -> Option<(Seq<char>, Seq<char>)> {
    if exists|i: int| is_first_dash(s, i) {
        let i = choose|i: int| is_first_dash(s, i);
        Some((s.subrange(0, i), s.subrange(i + 1, s.len() as int)))
    } else {
        None
    }
}

/// `i` is where `a` and `b` part: the first index at which their characters
/// differ, or the length of the shorter one where one begins the other.
pub open spec fn is_divergence(a: Seq<char>, b: Seq<char>, i: int) -> bool {
    &&& 0 <= i <= a.len()
    &&& i <= b.len()
    &&& forall|j: int| 0 <= j < i ==> #[trigger] a[j] == b[j]
    &&& (i == a.len() || i == b.len() || a[i] != b[i])
}

/// Where `a` and `b` part.
pub open spec fn divergence(a: Seq<char>, b: Seq<char>) -> int {
    choose|i: int| is_divergence(a, b, i)
}

/// How a parsed prefix `p` fares against the expected prefix `expected`,
/// where `loose` tells whether the marker type accepts `p` all the same.
pub open spec fn prefix_check(p: Seq<char>, expected: Seq<char>, loose: bool) -> Result<
    (),
    ErrorKind,
> {
    if p == expected || loose {
        Ok(())
    } else {
        Err(ErrorKind::InvalidPrefix { valid_until: divergence(p, expected) as usize })
    }
}

/// There is only one first `-`.
pub proof fn lemma_first_dash(s: Seq<char>, i: int)
    requires
        is_first_dash(s, i),
    ensures
        (choose|k: int| is_first_dash(s, k)) == i,
{
    let k = choose|k: int| is_first_dash(s, k);
    assert(is_first_dash(s, k));
    if k < i {
        assert(s[k] != dash());
    }
    if i < k {
        assert(s[i] != dash());
    }
}

/// There is only one place where two texts part.
pub proof fn lemma_divergence(a: Seq<char>, b: Seq<char>, i: int)
    requires
        is_divergence(a, b, i),
    ensures
        divergence(a, b) == i,
{
    let k = divergence(a, b);
    assert(is_divergence(a, b, k));
    if k < i {
        assert(a[k] == b[k]);
    }
    if i < k {
        assert(a[i] == b[i]);
    }
}

/// A text made of a prefix without `-`, a `-` and a value splits into that
/// prefix and that value.
pub proof fn lemma_split_at_prefix(p: Seq<char>, v: Seq<char>)
    requires
        forall|j: int| 0 <= j < p.len() ==> #[trigger] p[j] != dash(),
    ensures
        split_dash(p + seq![dash()] + v) == Some((p, v)),
{
    let s = p + seq![dash()] + v;
    let n = p.len() as int;
    assert(s[n] == dash());
    assert forall|j: int| 0 <= j < n implies #[trigger] s[j] != dash() by {
        assert(s[j] == p[j]);
    }
    assert(is_first_dash(s, n));
    lemma_first_dash(s, n);
    assert(s.subrange(0, n) =~= p);
    assert(s.subrange(n + 1, s.len() as int) =~= v);
}

/// A text without `-` does not split.
pub proof fn lemma_split_without_dash(s: Seq<char>)
    requires
        forall|j: int| 0 <= j < s.len() ==> #[trigger] s[j] != dash(),
    ensures
        split_dash(s) is None,
{
    assert forall|k: int| !is_first_dash(s, k) by {
        if 0 <= k < s.len() {
            assert(s[k] != dash());
        }
    }
}

/// Splits `s` at its first `-`.
pub fn split_once_dash(s: &str) -> (r: Option<(&str, &str)>)
    ensures
        match r {
            Some((p, v)) => split_dash(s@) == Some((p@, v@)),
            None => split_dash(s@) is None,
        },
{
    let n = s.unicode_len();
    let mut i: usize = 0;
    while i < n
        invariant
            n == s@.len(),
            0 <= i <= n,
            forall|j: int| 0 <= j < i ==> #[trigger] s@[j] != dash(),
        decreases n - i,
    {
        if s.get_char(i) == '-' {
            proof {
                assert(is_first_dash(s@, i as int));
                lemma_first_dash(s@, i as int);
            }
            return Some((s.substring_char(0, i), s.substring_char(i + 1, n)));
        }
        i += 1;
    }
    assert forall|k: int| !is_first_dash(s@, k) by {
        if 0 <= k < s@.len() {
            assert(s@[k] != dash());
        }
    }
    None
}

/// Whether two texts are the same.
pub fn same_text(a: &str, b: &str) -> (r: bool)
    ensures
        r == (a@ == b@),
{
    let n = a.unicode_len();
    if n != b.unicode_len() {
        return false;
    }
    let mut i: usize = 0;
    while i < n
        invariant
            n == a@.len(),
            n == b@.len(),
            0 <= i <= n,
            forall|j: int| 0 <= j < i ==> #[trigger] a@[j] == b@[j],
        decreases n - i,
    {
        if a.get_char(i) != b.get_char(i) {
            assert(a@[i as int] != b@[i as int]);
            return false;
        }
        i += 1;
    }
    assert(a@ =~= b@);
    true
}

/// Where `a` and `b` part.
pub fn divergence_index(a: &str, b: &str) -> (r: usize)
    ensures
        r == divergence(a@, b@),
{
    let n = a.unicode_len();
    let m = b.unicode_len();
    let mut i: usize = 0;
    while i < n && i < m && a.get_char(i) == b.get_char(i)
        invariant
            n == a@.len(),
            m == b@.len(),
            0 <= i <= n,
            i <= m,
            forall|j: int| 0 <= j < i ==> #[trigger] a@[j] == b@[j],
        decreases n - i,
    {
        i += 1;
    }
    proof {
        lemma_divergence(a@, b@, i as int);
    }
    i
}

/// Checks a parsed prefix against the expected one; `loose` is whether the
/// marker type accepts `pfx` all the same.
pub fn check_prefix(pfx: &str, expected: &str, loose: bool) -> (r: Result<(), Error>)
    ensures
        match r {
            Ok(()) => prefix_check(pfx@, expected@, loose) == Ok::<(), ErrorKind>(()),
            Err(e) => prefix_check(pfx@, expected@, loose) == Err::<(), ErrorKind>(e@),
        },
{
    if loose || same_text(pfx, expected) {
        Ok(())
    } else {
        Err(Error::InvalidPrefix { valid_until: divergence_index(pfx, expected) })
    }
}

} // verus!
