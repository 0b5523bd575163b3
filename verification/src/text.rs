//! Character sequences: classes of characters, and the prefixes and
//! trimming that the monitor's text is cut with.

use vstd::prelude::*;

verus! {

/// Whether `c` has the Unicode White_Space property (what
/// `char::is_whitespace` tests).
pub open spec fn is_whitespace(c: char) -> bool {
    let u = c as u32;
    ||| 9 <= u <= 13
    ||| u == 32
    ||| u == 0x85
    ||| u == 0xa0
    ||| u == 0x1680
    ||| 0x2000 <= u <= 0x200a
    ||| u == 0x2028
    ||| u == 0x2029
    ||| u == 0x202f
    ||| u == 0x205f
    ||| u == 0x3000
}

/// Whether `c` is one of the ASCII digits '0'..='9'.
pub open spec fn is_ascii_digit(c: char) -> bool {
    '0' <= c <= '9'
}

/// The longest prefix of `s` whose characters all satisfy `keep`.
pub open spec fn take_while(s: Seq<char>, keep: spec_fn(char) -> bool) -> Seq<char>
    decreases s.len(),
{
    if s.len() > 0 && keep(s[0]) {
        seq![s[0]].add(take_while(s.drop_first(), keep))
    } else {
        seq![]
    }
}

/// `s` without its longest prefix of characters that satisfy `skip`.
pub open spec fn skip_while(s: Seq<char>, skip: spec_fn(char) -> bool) -> Seq<char>
    decreases s.len(),
{
    if s.len() > 0 && skip(s[0]) {
        skip_while(s.drop_first(), skip)
    } else {
        s
    }
}

/// `s` without its longest suffix of whitespace.
pub open spec fn trim_end(s: Seq<char>) -> Seq<char>
    decreases s.len(),
{
    if s.len() > 0 && is_whitespace(s.last()) {
        trim_end(s.drop_last())
    } else {
        s
    }
}

/// `s` without leading and trailing whitespace (what `str::trim` gives).
pub open spec fn trim(s: Seq<char>) -> Seq<char> {
    trim_end(skip_while(s, |c: char| is_whitespace(c)))
}

/// `take_while` gives the prefix of `s` up to the first character that
/// fails the predicate: every character of it passes, and the character
/// after it, if any, fails.
pub proof fn lemma_take_while_prefix(s: Seq<char>, keep: spec_fn(char) -> bool)
    ensures
        take_while(s, keep).len() <= s.len(),
        take_while(s, keep) == s.take(take_while(s, keep).len() as int),
        forall|i: int| 0 <= i < take_while(s, keep).len() ==> keep(#[trigger] s[i]),
        take_while(s, keep).len() < s.len() ==> !keep(s[take_while(s, keep).len() as int]),
    decreases s.len(),
{
    if s.len() > 0 && keep(s[0]) {
        let t = s.drop_first();
        lemma_take_while_prefix(t, keep);
        let n: int = take_while(t, keep).len() as int;
        assert(take_while(s, keep) =~= s.take(n + 1));
        assert forall|i: int| 0 <= i < n + 1 implies keep(#[trigger] s[i]) by {
            if i > 0 {
                assert(s[i] == t[i - 1]);
            }
        }
        if n + 1 < s.len() {
            assert(s[n + 1] == t[n]);
        }
    } else {
        assert(take_while(s, keep) =~= s.take(0));
    }
}

/// `take_while` and `skip_while` split `s` at the first character that
/// does not satisfy the predicate.
pub proof fn lemma_split_while(s: Seq<char>, keep: spec_fn(char) -> bool, k: int)
    requires
        0 <= k <= s.len(),
        forall|i: int| 0 <= i < k ==> keep(#[trigger] s[i]),
        k < s.len() ==> !keep(s[k]),
    ensures
        take_while(s, keep) == s.take(k),
        skip_while(s, keep) == s.skip(k),
    decreases k,
{
    if k > 0 {
        let t = s.drop_first();
        assert forall|i: int| 0 <= i < k - 1 implies keep(#[trigger] t[i]) by {
            assert(t[i] == s[i + 1]);
        }
        lemma_split_while(t, keep, k - 1);
        assert(s.take(k) =~= seq![s[0]].add(t.take(k - 1)));
        assert(s.skip(k) =~= t.skip(k - 1));
    } else {
        assert(s.skip(0) =~= s);
        assert(s.take(0) =~= Seq::<char>::empty());
    }
}

/// `trim_end` cuts `s` after its last non-whitespace character.
pub proof fn lemma_trim_end(s: Seq<char>, k: int)
    requires
        0 <= k <= s.len(),
        forall|i: int| k <= i < s.len() ==> is_whitespace(#[trigger] s[i]),
        k > 0 ==> !is_whitespace(s[k - 1]),
    ensures
        trim_end(s) == s.take(k),
    decreases s.len(),
{
    if s.len() > k {
        let t = s.drop_last();
        assert(is_whitespace(s[s.len() - 1]));
        assert forall|i: int| k <= i < t.len() implies is_whitespace(#[trigger] t[i]) by {
            assert(t[i] == s[i]);
        }
        lemma_trim_end(t, k);
        assert(t.take(k) =~= s.take(k));
    } else {
        assert(s.take(k) =~= s);
    }
}

/// `String::push` of std: appends the character `c` to the end of `s`.
#[verifier::external_body]
pub(crate) fn push_char(s: &mut String, c: char)
    ensures
        final(s)@ == old(s)@.push(c),
{
    s.push(c);
}

/// Unicode whitespace test, as `char::is_whitespace`.
pub fn char_is_whitespace(c: char) -> (ws: bool)
    ensures
        ws == is_whitespace(c),
{
    let u = c as u32;
    (9 <= u && u <= 13) || u == 32 || u == 0x85 || u == 0xa0 || u == 0x1680 || (0x2000 <= u && u
        <= 0x200a) || u == 0x2028 || u == 0x2029 || u == 0x202f || u == 0x205f || u == 0x3000
}

/// ASCII digit test, as `char::is_ascii_digit`.
pub fn char_is_ascii_digit(c: char) -> (digit: bool)
    ensures
        digit == is_ascii_digit(c),
{
    '0' <= c && c <= '9'
}

/// Whether `a` and `b` hold the same characters.
pub fn same_text(a: &str, b: &str) -> (same: bool)
    ensures
        same == (a@ == b@),
{
    let n = a.unicode_len();
    if n != b.unicode_len() {
        return false;
    }
    let mut i: usize = 0;
    while i < n
        invariant
            n == a@.len() == b@.len(),
            0 <= i <= n,
            forall|j: int| 0 <= j < i ==> a@[j] == b@[j],
        decreases n - i,
    {
        if a.get_char(i) != b.get_char(i) {
            return false;
        }
        i += 1;
    }
    assert(a@ =~= b@);
    true
}

} // verus!
