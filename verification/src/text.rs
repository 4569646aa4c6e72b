//! Character-level helpers shared by the parser, the scanner and the
//! code-generation utilities.

use vstd::prelude::*;
use vstd::string::StrSliceExecFns;

verus! {

/// Compares two string slices character by character.
pub fn str_eq(a: &str, b: &str) -> (r: bool)
    ensures
        r == (a@ == b@),
{
    let la = a.unicode_len();
    let lb = b.unicode_len();
    if la != lb {
        return false;
    }
    let mut i: usize = 0;
    while i < la
        invariant
            la == a@.len(),
            la == b@.len(),
            0 <= i <= la,
            forall|j: int| 0 <= j < i ==> a@[j] == b@[j],
        decreases la - i,
    {
        if a.get_char(i) != b.get_char(i) {
            return false;
        }
        i += 1;
    }
    proof {
        assert(a@ =~= b@);
    }
    true
}

/// Copies the characters of a string slice into a vector.
pub fn to_chars(s: &str) -> (r: Vec<char>)
    ensures
        r@ == s@,
{
    let len = s.unicode_len();
    let mut out: Vec<char> = Vec::new();
    let mut i: usize = 0;
    while i < len
        invariant
            len == s@.len(),
            0 <= i <= len,
            out@ == s@.take(i as int),
        decreases len - i,
    {
        let c = s.get_char(i);
        out.push(c);
        proof {
            assert(out@ =~= s@.take(i + 1 as int));
        }
        i += 1;
    }
    proof {
        assert(s@.take(len as int) =~= s@);
    }
    out
}

/// Builds an owned string out of a vector of characters.
///
/// Relies on `String::from_iter` (through `collect`): the string holds
/// exactly the characters yielded by the iterator, in order.
#[verifier::external_body]
pub fn chars_to_string(v: &Vec<char>) -> (r: String)
    ensures
        r@ == v@,
{
    v.iter().collect()
}

/// Appends all characters of `src` to `dst`.
pub fn append_chars(dst: &mut Vec<char>, src: &Vec<char>)
    ensures
        final(dst)@ == old(dst)@ + src@,
{
    let n = src.len();
    let mut i: usize = 0;
    proof {
        assert(dst@ =~= old(dst)@ + src@.take(0));
    }
    while i < n
        invariant
            n == src@.len(),
            0 <= i <= n,
            dst@ == old(dst)@ + src@.take(i as int),
        decreases n - i,
    {
        dst.push(src[i]);
        proof {
            assert(old(dst)@ + src@.take(i + 1 as int) =~= (old(dst)@ + src@.take(i as int)).push(
                src@[i as int],
            ));
        }
        i += 1;
    }
    proof {
        assert(src@.take(n as int) =~= src@);
    }
}

/// Whether `needle` stands in `hay` at position `i`.
pub fn matches_at(hay: &Vec<char>, i: usize, needle: &Vec<char>) -> (r: bool)
    requires
        i + needle@.len() <= hay@.len(),
    ensures
        r == (hay@.subrange(i as int, i + needle@.len()) == needle@),
{
    let m = needle.len();
    let hn = hay.len();
    let mut j: usize = 0;
    while j < m
        invariant
            m == needle@.len(),
            hn == hay@.len(),
            i + m <= hn,
            0 <= j <= m,
            forall|k: int| 0 <= k < j ==> hay@[i + k] == needle@[k],
        decreases m - j,
    {
        if hay[i + j] != needle[j] {
            proof {
                assert(hay@.subrange(i as int, i + needle@.len())[j as int] == hay@[i + j]);
            }
            return false;
        }
        j += 1;
    }
    proof {
        assert(hay@.subrange(i as int, i + needle@.len()) =~= needle@);
    }
    true
}

/// `needle` stands somewhere in `hay`.
pub open spec fn spec_contains_sub(hay: Seq<char>, needle: Seq<char>) -> bool {
    exists|i: int|
        0 <= i && i + needle.len() <= hay.len() && #[trigger] hay.subrange(i, i + needle.len())
            == needle
}

/// Whether `needle` stands somewhere in `hay`; the empty needle always
/// does.
pub fn contains_sub(hay: &Vec<char>, needle: &Vec<char>) -> (r: bool)
    ensures
        r == spec_contains_sub(hay@, needle@),
{
    if needle.len() > hay.len() {
        return false;
    }
    if needle.len() == 0 {
        proof {
            assert(hay@.subrange(0int, 0int + needle@.len() as int) =~= needle@);
        }
        return true;
    }
    let last = hay.len() - needle.len();
    let mut i: usize = 0;
    while i <= last
        invariant
            last == hay@.len() - needle@.len(),
            needle@.len() <= hay@.len(),
            0 <= i <= last + 1,
            forall|j: int|
                0 <= j < i ==> #[trigger] hay@.subrange(j, j + needle@.len()) != needle@,
            needle@.len() >= 1,
            last < usize::MAX,
        decreases last + 1 - i,
    {
        if matches_at(hay, i, needle) {
            return true;
        }
        i += 1;
    }
    false
}

/// Where the first `sep` in `text` stands, or the length when there is
/// none.
pub open spec fn char_break(text: Seq<char>, sep: char) -> nat
    decreases text.len(),
{
    if text.len() == 0 {
        0
    } else if text[0] == sep {
        0
    } else {
        1 + char_break(text.drop_first(), sep)
    }
}

/// The segments of `text` between occurrences of `sep`; text ending in
/// `sep` has no trailing empty segment.
pub open spec fn spec_split_char(text: Seq<char>, sep: char) -> Seq<Seq<char>>
    decreases text.len(),
{
    if text.len() == 0 {
        Seq::empty()
    } else {
        let k = char_break(text, sep);
        if k >= text.len() {
            seq![text]
        } else {
            seq![text.take(k as int)] + spec_split_char(text.skip(k + 1 as int), sep)
        }
    }
}

/// `char_break` names the position of the first separator.
pub proof fn lemma_char_break_at(text: Seq<char>, sep: char, k: int)
    requires
        0 <= k <= text.len(),
        forall|j: int| 0 <= j < k ==> text[j] != sep,
        k < text.len() ==> text[k] == sep,
    ensures
        char_break(text, sep) == k,
    decreases k,
{
    if text.len() == 0 {
    } else if text[0] == sep {
        assert(k == 0);
    } else {
        assert(k >= 1);
        lemma_char_break_at(text.drop_first(), sep, k - 1);
    }
}

/// Cuts a character vector at every occurrence of `sep`.
pub fn split_char(text: &Vec<char>, sep: char) -> (r: Vec<Vec<char>>)
    ensures
        r@.map_values(|s: Vec<char>| s@) == spec_split_char(text@, sep),
{
    let n = text.len();
    let mut parts: Vec<Vec<char>> = Vec::new();
    let mut cur: Vec<char> = Vec::new();
    let mut start: usize = 0;
    let mut i: usize = 0;
    proof {
        assert(text@.skip(0) =~= text@);
    }
    while i < n
        invariant
            n == text@.len(),
            0 <= start <= i <= n,
            forall|j: int| start <= j < i ==> text@[j] != sep,
            cur@ == text@.subrange(start as int, i as int),
            spec_split_char(text@, sep) == parts@.map_values(|s: Vec<char>| s@)
                + spec_split_char(text@.skip(start as int), sep),
        decreases n - i,
    {
        let c = text[i];
        if c == sep {
            let ghost before = parts@.map_values(|s: Vec<char>| s@);
            let mut done: Vec<char> = Vec::new();
            std::mem::swap(&mut done, &mut cur);
            parts.push(done);
            proof {
                let rest = text@.skip(start as int);
                lemma_char_break_at(rest, sep, i - start);
                assert(rest.take(i - start) =~= text@.subrange(start as int, i as int));
                assert(rest.skip(i - start + 1) =~= text@.skip(i + 1 as int));
                assert(parts@.map_values(|s: Vec<char>| s@) =~= before.push(
                    text@.subrange(start as int, i as int),
                ));
                assert(spec_split_char(rest, sep) == seq![rest.take(i - start)]
                    + spec_split_char(rest.skip(i - start + 1), sep));
                assert(parts@.map_values(|s: Vec<char>| s@) + spec_split_char(
                    text@.skip(i + 1 as int),
                    sep,
                ) =~= before + spec_split_char(text@.skip(start as int), sep));
                assert(cur@ =~= text@.subrange(i + 1 as int, i + 1 as int));
            }
            start = i + 1;
        } else {
            cur.push(c);
            proof {
                assert(cur@ =~= text@.subrange(start as int, i + 1 as int));
            }
        }
        i += 1;
    }
    if start < n {
        let ghost before = parts@.map_values(|s: Vec<char>| s@);
        parts.push(cur);
        proof {
            let rest = text@.skip(start as int);
            lemma_char_break_at(rest, sep, n - start);
            assert(rest =~= text@.subrange(start as int, n as int));
            assert(spec_split_char(rest, sep) == seq![rest]);
            assert(parts@.map_values(|s: Vec<char>| s@) =~= before.push(rest));
            assert(parts@.map_values(|s: Vec<char>| s@) =~= before + spec_split_char(rest, sep));
        }
    } else {
        proof {
            assert(text@.skip(start as int) =~= Seq::<char>::empty());
            assert(spec_split_char(text@.skip(start as int), sep) =~= Seq::<Seq<char>>::empty());
            assert(parts@.map_values(|s: Vec<char>| s@) + spec_split_char(
                text@.skip(start as int),
                sep,
            ) =~= parts@.map_values(|s: Vec<char>| s@));
        }
    }
    parts
}

/// `s` with every non-overlapping occurrence of `from` replaced by `to`,
/// leftmost first.
pub open spec fn spec_replace_all(s: Seq<char>, from: Seq<char>, to: Seq<char>) -> Seq<char>
    decreases s.len(),
{
    if from.len() == 0 || s.len() < from.len() {
        s
    } else if s.take(from.len() as int) == from {
        to + spec_replace_all(s.skip(from.len() as int), from, to)
    } else {
        seq![s[0]] + spec_replace_all(s.drop_first(), from, to)
    }
}

/// Replaces every non-overlapping occurrence of `from` by `to`, leftmost
/// first.
pub fn replace_chars(s: &Vec<char>, from: &Vec<char>, to: &Vec<char>) -> (r: Vec<char>)
    requires
        from@.len() >= 1,
    ensures
        r@ == spec_replace_all(s@, from@, to@),
{
    let n = s.len();
    let flen = from.len();
    let mut out: Vec<char> = Vec::new();
    let mut i: usize = 0;
    proof {
        assert(s@.skip(0) =~= s@);
        assert(out@ + spec_replace_all(s@, from@, to@) =~= spec_replace_all(s@, from@, to@));
    }
    while i < n
        invariant
            n == s@.len(),
            flen == from@.len(),
            flen >= 1,
            0 <= i <= n,
            spec_replace_all(s@, from@, to@) == out@ + spec_replace_all(
                s@.skip(i as int),
                from@,
                to@,
            ),
        decreases n - i,
    {
        let ghost rest = s@.skip(i as int);
        if flen <= n - i && matches_at(s, i, from) {
            let ghost before = out@;
            let m = to.len();
            let mut j: usize = 0;
            while j < m
                invariant
                    m == to@.len(),
                    0 <= j <= m,
                    out@ == before + to@.take(j as int),
                decreases m - j,
            {
                out.push(to[j]);
                proof {
                    assert(before + to@.take(j + 1 as int) =~= (before + to@.take(j as int)).push(
                        to@[j as int],
                    ));
                }
                j += 1;
            }
            proof {
                assert(to@.take(m as int) =~= to@);
                assert(rest.take(flen as int) =~= s@.subrange(i as int, i + flen));
                assert(rest.skip(flen as int) =~= s@.skip(i + flen));
                assert(spec_replace_all(rest, from@, to@) == to@ + spec_replace_all(
                    s@.skip(i + flen),
                    from@,
                    to@,
                ));
                assert(out@ =~= before + to@);
            }
            i += flen;
        } else {
            out.push(s[i]);
            proof {
                if i + flen <= n {
                    assert(rest.take(flen as int) =~= s@.subrange(i as int, i + flen));
                    assert(rest.take(flen as int) != from@);
                    assert(rest.drop_first() =~= s@.skip(i + 1 as int));
                    assert(spec_replace_all(rest, from@, to@) == seq![rest[0]]
                        + spec_replace_all(s@.skip(i + 1 as int), from@, to@));
                } else {
                    assert(rest.len() < flen);
                    assert(spec_replace_all(rest, from@, to@) == rest);
                    assert(rest.drop_first() =~= s@.skip(i + 1 as int));
                    assert(spec_replace_all(s@.skip(i + 1 as int), from@, to@) == s@.skip(
                        i + 1 as int,
                    ));
                    assert(rest =~= seq![rest[0]] + rest.drop_first());
                }
                assert(out@ + spec_replace_all(s@.skip(i + 1 as int), from@, to@)
                    =~= spec_replace_all(s@, from@, to@));
            }
            i += 1;
        }
    }
    proof {
        assert(s@.skip(n as int) =~= Seq::<char>::empty());
        assert(spec_replace_all(Seq::<char>::empty(), from@, to@) == Seq::<char>::empty());
        assert(out@ + Seq::<char>::empty() =~= out@);
    }
    out
}

} // verus!
