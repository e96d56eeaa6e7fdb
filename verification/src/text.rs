//! Character-level text helpers: whitespace trimming and string equality,
//! specified over `Seq<char>` views.

use vstd::prelude::*;
use vstd::string::StrSliceExecFns;

verus! {

/// The whitespace characters that trimming removes.
pub open spec fn is_ws_char(c: char) -> bool {
    c == ' ' || c == '\t' || c == '\r' || c == '\n'
}

/// `s` with every leading whitespace character removed.
pub open spec fn trim_front(s: Seq<char>) -> Seq<char>
    decreases s.len(),
{
    if s.len() > 0 && is_ws_char(s[0]) {
        trim_front(s.drop_first())
    } else {
        s
    }
}

/// `s` with every trailing whitespace character removed.
pub open spec fn trim_back(s: Seq<char>) -> Seq<char>
    decreases s.len(),
{
    if s.len() > 0 && is_ws_char(s.last()) {
        trim_back(s.drop_last())
    } else {
        s
    }
}

/// `s` with leading and trailing whitespace removed.
pub open spec fn trimmed(s: Seq<char>) -> Seq<char> {
    trim_back(trim_front(s))
}

/// A string is blank when nothing is left of it after trimming.
pub open spec fn is_blank(s: Seq<char>) -> bool {
    trimmed(s).len() == 0
}

/// Whether `c` is one of the whitespace characters that trimming removes.
pub fn is_ws(c: char) -> (r: bool)
    ensures
        r == is_ws_char(c),
{
    c == ' ' || c == '\t' || c == '\r' || c == '\n'
}

/// Trim leading and trailing whitespace from `s`.
pub fn trim_str<'a>(s: &'a str) -> (r: &'a str)
    ensures
        r@ == trimmed(s@),
{
    let len = s.unicode_len();
    proof {
        assert(s@.subrange(0, len as int) =~= s@);
    }
    let mut start: usize = 0;
    while start < len && is_ws(s.get_char(start))
        invariant
            start <= len,
            len == s@.len(),
            trim_front(s@) == trim_front(s@.subrange(start as int, len as int)),
        decreases len - start,
    {
        proof {
            let sub = s@.subrange(start as int, len as int);
            assert(sub.drop_first() =~= s@.subrange(start as int + 1, len as int));
        }
        start = start + 1;
    }
    proof {
        let sub = s@.subrange(start as int, len as int);
        assert(trim_front(sub) == sub);
    }
    let mut end: usize = len;
    while end > start && is_ws(s.get_char(end - 1))
        invariant
            start <= end <= len,
            len == s@.len(),
            trim_front(s@) == s@.subrange(start as int, len as int),
            trim_back(s@.subrange(start as int, len as int)) == trim_back(
                s@.subrange(start as int, end as int),
            ),
        decreases end,
    {
        proof {
            let sub = s@.subrange(start as int, end as int);
            assert(sub.drop_last() =~= s@.subrange(start as int, end as int - 1));
        }
        end = end - 1;
    }
    proof {
        let sub = s@.subrange(start as int, end as int);
        assert(trim_back(sub) == sub);
    }
    s.substring_char(start, end)
}

/// Character-for-character equality of two string slices.
pub fn str_eq(a: &str, b: &str) -> (r: bool)
    ensures
        r == (a@ == b@),
{
    let alen = a.unicode_len();
    let blen = b.unicode_len();
    if alen != blen {
        return false;
    }
    let mut i: usize = 0;
    while i < alen
        invariant
            i <= alen,
            alen == a@.len(),
            alen == b@.len(),
            forall|j: int| 0 <= j < i ==> a@[j] == b@[j],
        decreases alen - i,
    {
        if a.get_char(i) != b.get_char(i) {
            return false;
        }
        i = i + 1;
    }
    proof {
        assert(a@ =~= b@);
    }
    true
}

/// A string that contains a non-whitespace character does not trim to
/// nothing.
pub proof fn lemma_trimmed_keeps_content(s: Seq<char>)
    requires
        exists|i: int| 0 <= i < s.len() && !is_ws_char(s[i]),
    ensures
        trimmed(s).len() > 0,
    decreases s.len(),
{
    lemma_trim_front_keeps_content(s);
    lemma_trim_back_keeps_content(trim_front(s));
}

/// After trimming, nothing whitespace leads the string.
proof fn lemma_trim_front_no_leading(s: Seq<char>)
    ensures
        trim_front(s).len() > 0 ==> !is_ws_char(trim_front(s)[0]),
    decreases s.len(),
{
    if s.len() > 0 && is_ws_char(s[0]) {
        lemma_trim_front_no_leading(s.drop_first());
    }
}

/// After trimming, nothing whitespace trails the string.
proof fn lemma_trim_back_no_trailing(s: Seq<char>)
    ensures
        trim_back(s).len() > 0 ==> !is_ws_char(trim_back(s).last()),
    decreases s.len(),
{
    if s.len() > 0 && is_ws_char(s.last()) {
        lemma_trim_back_no_trailing(s.drop_last());
    }
}

/// Trimming from the back yields a prefix of the string.
proof fn lemma_trim_back_prefix(s: Seq<char>)
    ensures
        trim_back(s).len() <= s.len(),
        trim_back(s) == s.subrange(0, trim_back(s).len() as int),
    decreases s.len(),
{
    if s.len() > 0 && is_ws_char(s.last()) {
        lemma_trim_back_prefix(s.drop_last());
        assert(trim_back(s) == trim_back(s.drop_last()));
        assert(s.drop_last().subrange(0, trim_back(s).len() as int) =~= s.subrange(
            0,
            trim_back(s).len() as int,
        ));
    } else {
        assert(s.subrange(0, s.len() as int) =~= s);
    }
}

/// Trimming from the front yields a suffix of the string.
proof fn lemma_trim_front_suffix(s: Seq<char>)
    ensures
        trim_front(s).len() <= s.len(),
        trim_front(s) == s.subrange(
            s.len() - trim_front(s).len(),
            s.len() as int,
        ),
    decreases s.len(),
{
    if s.len() > 0 && is_ws_char(s[0]) {
        lemma_trim_front_suffix(s.drop_first());
        assert(trim_front(s) == trim_front(s.drop_first()));
        assert(s.drop_first().subrange(
            s.drop_first().len() - trim_front(s).len(),
            s.drop_first().len() as int,
        ) =~= s.subrange(s.len() - trim_front(s).len(), s.len() as int));
    } else {
        assert(s.subrange(0, s.len() as int) =~= s);
    }
}

/// A string that does not trim to nothing holds a non-whitespace character.
pub proof fn lemma_nonblank_has_content(s: Seq<char>)
    requires
        trimmed(s).len() > 0,
    ensures
        exists|i: int| 0 <= i < s.len() && !is_ws_char(s[i]),
{
    let u = trim_front(s);
    lemma_trim_front_suffix(s);
    lemma_trim_front_no_leading(s);
    lemma_trim_back_prefix(u);
    assert(trimmed(s)[0] == u[0]);
    assert(u[0] == s[s.len() - u.len()]);
    assert(!is_ws_char(s[s.len() - u.len()]));
}

/// Trimming an already trimmed string changes nothing.
pub proof fn lemma_trimmed_idempotent(s: Seq<char>)
    ensures
        trimmed(trimmed(s)) == trimmed(s),
{
    let u = trim_front(s);
    let t = trim_back(u);
    lemma_trim_front_no_leading(s);
    lemma_trim_back_no_trailing(u);
    lemma_trim_back_prefix(u);
    if t.len() > 0 {
        assert(t[0] == u[0]);
        assert(!is_ws_char(t[0]));
    }
    assert(trim_front(t) == t);
    assert(trim_back(t) == t);
}

proof fn lemma_trim_front_keeps_content(s: Seq<char>)
    requires
        exists|i: int| 0 <= i < s.len() && !is_ws_char(s[i]),
    ensures
        exists|i: int| 0 <= i < trim_front(s).len() && !is_ws_char(trim_front(s)[i]),
    decreases s.len(),
{
    if s.len() > 0 && is_ws_char(s[0]) {
        let i = choose|i: int| 0 <= i < s.len() && !is_ws_char(s[i]);
        assert(s.drop_first()[i - 1] == s[i]);
        lemma_trim_front_keeps_content(s.drop_first());
        assert(trim_front(s) == trim_front(s.drop_first()));
        let j = choose|j: int|
            0 <= j < trim_front(s.drop_first()).len() && !is_ws_char(trim_front(s.drop_first())[j]);
        assert(0 <= j < trim_front(s).len() && !is_ws_char(trim_front(s)[j]));
    } else {
        assert(trim_front(s) == s);
    }
}

proof fn lemma_trim_back_keeps_content(s: Seq<char>)
    requires
        exists|i: int| 0 <= i < s.len() && !is_ws_char(s[i]),
    ensures
        trim_back(s).len() > 0,
    decreases s.len(),
{
    if s.len() > 0 && is_ws_char(s.last()) {
        let i = choose|i: int| 0 <= i < s.len() && !is_ws_char(s[i]);
        assert(s.drop_last()[i] == s[i]);
        lemma_trim_back_keeps_content(s.drop_last());
    }
}

} // verus!
