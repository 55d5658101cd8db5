//! Text operations on cell contents and addresses: trimming, comparing
//! and joining.

use vstd::prelude::*;
use vstd::std_specs::iter::IteratorSpec;
use vstd::string::StrSliceExecFns;
use vstd::string::StringExecFns;

verus! {

/// Whether a character beyond ASCII has the Unicode `White_Space`
/// property, as the standard library's `char::is_whitespace` decides it.
pub uninterp spec fn white_space_beyond_ascii(c: char) -> bool;

/// Whether `c` is white space. Of the ASCII characters these are the
/// space and the characters from U+0009 to U+000D: tab, line feed,
/// vertical tab, form feed and carriage return. Beyond ASCII it is what
/// the Unicode version of the standard library says.
pub open spec fn is_white_space(c: char) -> bool {
    if (c as u32) < 0x80 {
        c == ' ' || 0x09 <= (c as u32) <= 0x0d
    } else {
        white_space_beyond_ascii(c)
    }
}

/// `char::is_whitespace` of the standard library.
///
/// Trusted: for an ASCII character the result is true exactly for the
/// space and for U+0009 to U+000D; for any other character it is the
/// `White_Space` property, which [`white_space_beyond_ascii`] names.
#[verifier::external_body]
fn is_whitespace(c: char) -> (b: bool)
    ensures
        b == if (c as u32) < 0x80 {
            c == ' ' || 0x09 <= (c as u32) <= 0x0d
        } else {
            white_space_beyond_ascii(c)
        },
{
    c.is_whitespace()
}

/// `s` without its leading white space.
pub open spec fn trim_start(s: Seq<char>) -> Seq<char>
    decreases s.len(),
{
    if s.len() > 0 && is_white_space(s.first()) {
        trim_start(s.drop_first())
    } else {
        s
    }
}

/// `s` without its trailing white space.
pub open spec fn trim_end(s: Seq<char>) -> Seq<char>
    decreases s.len(),
{
    if s.len() > 0 && is_white_space(s.last()) {
        trim_end(s.drop_last())
    } else {
        s
    }
}

/// `s` without its leading and trailing white space.
pub open spec fn trimmed(s: Seq<char>) -> Seq<char> {
    trim_end(trim_start(s))
}

/// Where only white space lies from `from` up to `i`, and `s` ends at `i`
/// or holds a character there that is not white space, trimming the start
/// of `s` from `from` on leaves `s` from `i` on.
proof fn lemma_trim_start_skips(s: Seq<char>, from: int, i: int)
    requires
        0 <= from <= i <= s.len(),
        forall|k: int| from <= k < i ==> is_white_space(s[k]),
        i < s.len() ==> !is_white_space(s[i]),
    ensures
        trim_start(s.skip(from)) == s.skip(i),
    decreases i - from,
{
    if from < i {
        assert(s.skip(from).first() == s[from]);
        assert(s.skip(from).drop_first() =~= s.skip(from + 1));
        lemma_trim_start_skips(s, from + 1, i);
    } else if i < s.len() {
        assert(s.skip(i).first() == s[i]);
    }
}

/// Where only white space lies from `j` up to `to`, and `s` starts at `j`
/// or holds a character before it that is not white space, trimming the
/// end of `s` up to `to` leaves `s` up to `j`.
proof fn lemma_trim_end_takes(s: Seq<char>, j: int, to: int)
    requires
        0 <= j <= to <= s.len(),
        forall|k: int| j <= k < to ==> is_white_space(s[k]),
        0 < j ==> !is_white_space(s[j - 1]),
    ensures
        trim_end(s.take(to)) == s.take(j),
    decreases to - j,
{
    if j < to {
        assert(s.take(to).last() == s[to - 1]);
        assert(s.take(to).drop_last() =~= s.take(to - 1));
        lemma_trim_end_takes(s, j, to - 1);
    } else if 0 < j {
        assert(s.take(j).last() == s[j - 1]);
    }
}

/// Trimming keeps exactly the characters between the first and the last
/// one that is not white space: where everything before `i` and everything
/// from `j` on is white space, and the kept range is empty or starts and
/// ends with a character that is not, `trimmed(s)` is that range.
pub proof fn lemma_trimmed_is_kept_range(s: Seq<char>, i: int, j: int)
    requires
        0 <= i <= j <= s.len(),
        forall|k: int| 0 <= k < i ==> is_white_space(s[k]),
        forall|k: int| j <= k < s.len() ==> is_white_space(s[k]),
        i < j ==> !is_white_space(s[i]) && !is_white_space(s[j - 1]),
    ensures
        trimmed(s) == s.subrange(i, j),
{
    if i < j {
        lemma_trim_start_skips(s, 0, i);
        assert(s.skip(0) =~= s);
        let t = s.skip(i);
        assert forall|k: int| j - i <= k < t.len() implies is_white_space(t[k]) by {
            assert(t[k] == s[k + i]);
        }
        assert(t[j - i - 1] == s[j - 1]);
        lemma_trim_end_takes(t, j - i, t.len() as int);
        assert(t.take(t.len() as int) =~= t);
        assert(t.take(j - i) =~= s.subrange(i, j));
    } else {
        // Nothing is kept: every character of `s` is white space.
        lemma_trim_start_skips(s, 0, s.len() as int);
        assert(s.skip(0) =~= s);
        let e = s.skip(s.len() as int);
        assert(e.len() == 0);
        assert(trim_end(e) == e);
        assert(e =~= s.subrange(i, j));
    }
}

/// Removes leading and trailing white space from `s`.
pub fn trim(s: &str) -> (t: &str)
    ensures
        t@ == trimmed(s@),
{
    let n = s.unicode_len();
    let mut chars = s.chars();
    let mut i: usize = 0;
    let mut start: usize = 0;
    let mut end: usize = 0;
    let mut seen = false;
    loop
        invariant
            n == s@.len(),
            i <= n,
            chars.remaining() == s@.skip(i as int),
            seen ==> start < end <= i && !is_white_space(s@[start as int]) && !is_white_space(
                s@[end - 1],
            ),
            seen ==> forall|k: int| 0 <= k < start ==> is_white_space(s@[k]),
            seen ==> forall|k: int| end <= k < i ==> is_white_space(s@[k]),
            !seen ==> start == 0 && end == 0,
            !seen ==> forall|k: int| 0 <= k < i ==> is_white_space(s@[k]),
        ensures
            i == n,
        decreases n - i,
    {
        match chars.next() {
            None => {
                break ;
            },
            Some(c) => {
                if !is_whitespace(c) {
                    if !seen {
                        start = i;
                        seen = true;
                    }
                    end = i + 1;
                }
                i = i + 1;
            },
        }
    }
    proof {
        if seen {
            lemma_trimmed_is_kept_range(s@, start as int, end as int);
        } else {
            lemma_trimmed_is_kept_range(s@, n as int, n as int);
            assert(s@.subrange(n as int, n as int) =~= s@.subrange(0, 0));
        }
    }
    s.substring_char(start, end)
}

/// Whether `a` and `b` hold the same characters.
pub fn same_text(a: &str, b: &str) -> (same: bool)
    ensures
        same == (a@ == b@),
{
    let mut left = a.chars();
    let mut right = b.chars();
    let ghost mut i: int = 0;
    loop
        invariant
            0 <= i <= a@.len(),
            i <= b@.len(),
            a@.take(i) == b@.take(i),
            left.remaining() == a@.skip(i),
            right.remaining() == b@.skip(i),
        decreases a@.len() - i,
    {
        match (left.next(), right.next()) {
            (None, None) => {
                assert(a@ =~= a@.take(i));
                assert(b@ =~= b@.take(i));
                return true;
            },
            (Some(x), Some(y)) => {
                if x != y {
                    assert(a@[i] != b@[i]);
                    return false;
                }
                proof {
                    assert(a@.take(i + 1) =~= a@.take(i).push(x));
                    assert(b@.take(i + 1) =~= b@.take(i).push(y));
                    i = i + 1;
                }
            },
            _ => {
                assert(a@.len() != b@.len());
                return false;
            },
        }
    }
}

/// The characters of `a` followed by those of `b`.
pub fn join(a: &str, b: &str) -> (joined: String)
    ensures
        joined@ == a@ + b@,
{
    let mut joined = String::from_str(a);
    joined.append(b);
    joined
}

} // verus!
