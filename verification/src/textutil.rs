//! Small verified text utilities: blank tests, substring search, whitespace
//! tokenization and decimal rendering.  The retrieval heuristic and the
//! mirror-file rendering are built on these.

use vstd::prelude::*;
use crate::time::digit_char;
use crate::time::digit_str;

verus! {

/// The whitespace characters the tokenizer recognises.
pub open spec fn is_space(c: char) -> bool {
    c == ' ' || c == '\t' || c == '\n' || c == '\r'
}

/// Executable whitespace test.
pub fn is_space_char(c: char) -> (r: bool)
    ensures
        r == is_space(c),
{
    c == ' ' || c == '\t' || c == '\n' || c == '\r'
}

/// Every character of `q` is whitespace; true of the empty text.
pub open spec fn spec_blank(q: Seq<char>) -> bool {
    forall|i: int| 0 <= i < q.len() ==> is_space(#[trigger] q[i])
}

/// Whether `s` trims to the empty string.
pub fn is_blank(s: &str) -> (r: bool)
    ensures
        r == spec_blank(s@),
{
    let len = s.unicode_len();
    let mut i: usize = 0;
    while i < len
        invariant
            i <= len,
            len == s@.len(),
            forall|k: int| 0 <= k < i ==> is_space(#[trigger] s@[k]),
        decreases len - i,
    {
        if !is_space_char(s.get_char(i)) {
            return false;
        }
        i += 1;
    }
    true
}

/// Character-for-character equality of two string slices.
pub fn str_eq(a: &str, b: &str) -> (r: bool)
    ensures
        r == (a@ == b@),
{
    let al = a.unicode_len();
    let bl = b.unicode_len();
    if al != bl {
        return false;
    }
    let mut i: usize = 0;
    while i < al
        invariant
            al == a@.len(),
            bl == b@.len(),
            al == bl,
            i <= al,
            forall|k: int| 0 <= k < i ==> a@[k] == #[trigger] b@[k],
        decreases al - i,
    {
        if a.get_char(i) != b.get_char(i) {
            return false;
        }
        i += 1;
    }
    proof {
        assert(a@ =~= b@);
    }
    true
}

/// `p` occurs somewhere in `t` as a contiguous run of characters.
pub open spec fn spec_contains(t: Seq<char>, p: Seq<char>) -> bool {
    exists|i: int|
        0 <= i && i + p.len() <= t.len() && #[trigger] t.subrange(i, i + p.len() as int) == p
}

/// Substring search over characters.
pub fn contains_str(t: &str, p: &str) -> (r: bool)
    ensures
        r == spec_contains(t@, p@),
{
    let tl = t.unicode_len();
    let pl = p.unicode_len();
    if pl > tl {
        return false;
    }
    let last = tl - pl;
    let mut i: usize = 0;
    while i <= last
        invariant
            pl == p@.len(),
            tl == t@.len(),
            pl <= tl,
            last == tl - pl,
            i <= last + 1,
            forall|k: int|
                0 <= k < i ==> #[trigger] t@.subrange(k, k + pl as int) != p@,
        decreases last + 1 - i,
    {
        let mut j: usize = 0;
        let mut matched = true;
        while j < pl && matched
            invariant
                pl == p@.len(),
                tl == t@.len(),
                i + pl <= tl,
                j <= pl,
                matched ==> forall|m: int| 0 <= m < j ==> t@[i + m] == #[trigger] p@[m],
                !matched ==> exists|m: int| 0 <= m < pl && t@[i + m] != #[trigger] p@[m],
            decreases pl - j + (if matched { 1int } else { 0int }),
        {
            if t.get_char(i + j) != p.get_char(j) {
                matched = false;
            } else {
                j += 1;
            }
        }
        if matched {
            proof {
                assert(t@.subrange(i as int, i + pl as int) =~= p@);
            }
            return true;
        }
        proof {
            let m = choose|m: int| 0 <= m < pl && t@[i + m] != p@[m];
            assert(t@.subrange(i as int, i + pl as int)[m] == t@[i + m]);
        }
        i += 1;
    }
    proof {
        assert forall|k: int| 0 <= k && k + p@.len() <= t@.len() implies #[trigger] t@.subrange(
            k,
            k + p@.len() as int,
        ) != p@ by {
            assert(k < i);
        }
    }
    false
}

/// The whitespace-separated words of `q`, accumulated left to right;
/// `cur` is the word in progress.
pub open spec fn spec_tokens_acc(q: Seq<char>, cur: Seq<char>) -> Seq<Seq<char>>
    decreases q.len(),
{
    if q.len() == 0 {
        if cur.len() == 0 {
            Seq::empty()
        } else {
            seq![cur]
        }
    } else if is_space(q[0]) {
        if cur.len() == 0 {
            spec_tokens_acc(q.skip(1), Seq::empty())
        } else {
            seq![cur] + spec_tokens_acc(q.skip(1), Seq::empty())
        }
    } else {
        spec_tokens_acc(q.skip(1), cur.push(q[0]))
    }
}

/// The whitespace-separated words of `q`, in order.
pub open spec fn spec_tokens(q: Seq<char>) -> Seq<Seq<char>> {
    spec_tokens_acc(q, Seq::empty())
}

/// The first `k` whitespace-separated words of `q`.
pub open spec fn spec_first_tokens(q: Seq<char>, k: int) -> Seq<Seq<char>> {
    if spec_tokens(q).len() <= k {
        spec_tokens(q)
    } else {
        spec_tokens(q).take(k)
    }
}

/// Splits `s` into its whitespace-separated words and keeps the first `k`.
pub fn first_tokens(s: &str, k: usize) -> (r: Vec<String>)
    ensures
        r@.map_values(|t: String| t@) == spec_first_tokens(s@, k as int),
{
    let len = s.unicode_len();
    let mut out: Vec<String> = Vec::new();
    let mut cur = String::new();
    let mut i: usize = 0;
    proof {
        assert(s@.skip(0) =~= s@);
        assert(out@.map_values(|t: String| t@) =~= Seq::<Seq<char>>::empty());
        assert(Seq::<Seq<char>>::empty() + spec_tokens(s@) =~= spec_tokens(s@));
    }
    while i < len
        invariant
            i <= len,
            len == s@.len(),
            out@.map_values(|t: String| t@) + spec_tokens_acc(s@.skip(i as int), cur@)
                == spec_tokens(s@),
        decreases len - i,
    {
        let ghost q = s@.skip(i as int);
        proof {
            assert(q[0] == s@[i as int]);
            assert(q.skip(1) =~= s@.skip(i + 1));
        }
        let c = s.get_char(i);
        if is_space_char(c) {
            if cur.unicode_len() > 0 {
                let ghost prev = out@.map_values(|t: String| t@);
                let ghost word = cur@;
                out.push(cur);
                cur = String::new();
                proof {
                    assert(spec_tokens_acc(q, word) == seq![word] + spec_tokens_acc(
                        s@.skip(i + 1),
                        Seq::empty(),
                    ));
                    assert(out@.map_values(|t: String| t@) =~= prev.push(word));
                    assert(cur@ =~= Seq::<char>::empty());
                    assert(prev.push(word) + spec_tokens_acc(s@.skip(i + 1), cur@) =~= prev + (
                    seq![word] + spec_tokens_acc(s@.skip(i + 1), cur@)));
                }
            } else {
                proof {
                    assert(cur@ =~= Seq::<char>::empty());
                }
            }
        } else {
            let ghost word = cur@;
            cur.append(s.substring_char(i, i + 1));
            proof {
                assert(s@.subrange(i as int, i + 1) =~= seq![s@[i as int]]);
                assert(cur@ =~= word.push(s@[i as int]));
            }
        }
        i += 1;
    }
    proof {
        assert(s@.skip(len as int) =~= Seq::<char>::empty());
    }
    if cur.unicode_len() > 0 {
        let ghost prev = out@.map_values(|t: String| t@);
        let ghost word = cur@;
        out.push(cur);
        proof {
            assert(spec_tokens_acc(Seq::empty(), word) == seq![word]);
            assert(out@.map_values(|t: String| t@) =~= prev.push(word));
            assert(prev.push(word) =~= prev + seq![word]);
        }
    } else {
        proof {
            assert(cur@ =~= Seq::<char>::empty());
            assert(out@.map_values(|t: String| t@) + Seq::<Seq<char>>::empty() =~= out@.map_values(
                |t: String| t@,
            ));
        }
    }
    proof {
        assert(out@.map_values(|t: String| t@) == spec_tokens(s@));
    }
    if out.len() > k {
        let ghost whole = out@.map_values(|t: String| t@);
        out.truncate(k);
        proof {
            assert(out@.map_values(|t: String| t@) =~= whole.take(k as int));
        }
    }
    out
}

/// The decimal digit characters of `n`, most significant first.
pub open spec fn dec_digits(n: nat) -> Seq<char>
    decreases n,
{
    if n < 10 {
        seq![digit_char(n as int)]
    } else {
        dec_digits(n / 10) + seq![digit_char((n % 10) as int)]
    }
}

/// Appends the decimal rendering of `n` to `out`.
pub fn push_u64(out: &mut String, n: u64)
    ensures
        final(out)@ == old(out)@ + dec_digits(n as nat),
    decreases n,
{
    if n < 10 {
        out.append(digit_str(n as u8));
        proof {
            assert(final(out)@ =~= old(out)@ + dec_digits(n as nat));
        }
    } else {
        push_u64(out, n / 10);
        out.append(digit_str((n % 10) as u8));
        proof {
            assert(final(out)@ =~= old(out)@ + dec_digits(n as nat));
        }
    }
}

/// The decimal rendering of `n` as a fresh string.
pub fn u64_to_string(n: u64) -> (r: String)
    ensures
        r@ == dec_digits(n as nat),
{
    let mut out = String::new();
    push_u64(&mut out, n);
    proof {
        assert(out@ =~= dec_digits(n as nat));
    }
    out
}

} // verus!
