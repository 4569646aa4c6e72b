//! Class-name utilities around code generation and the inline `css` helper:
//! escaping a CSS class into an identifier-friendly name, resolving output
//! paths, and cleaning a whitespace-separated class list against the
//! accepted set.

use vstd::prelude::*;
use crate::class_set::ClassSet;
use crate::text::{
    to_chars,
    chars_to_string,
    replace_chars,
    contains_sub,
    spec_contains_sub,
    append_chars,
};
use crate::unicode::{is_alpha, is_alnum, is_lower, is_space, lower_of, lowercase};

verus! {

/// A class name that already is a friendly identifier: a letter first, then
/// only underscores and lowercase alphanumerics. Such a name is kept as it
/// is.
pub open spec fn spec_valid_class(s: Seq<char>) -> bool {
    &&& s.len() > 0
    &&& is_alpha(s[0])
    &&& forall|i: int|
        1 <= i < s.len() ==> (s[i] == '_' || (is_alnum(#[trigger] s[i]) && is_lower(s[i])))
}

fn class_is_valid(v: &Vec<char>) -> (r: bool)
    ensures
        r == spec_valid_class(v@),
{
    if v.len() == 0 {
        return false;
    }
    if !v[0].is_alphabetic() {
        return false;
    }
    let n = v.len();
    let mut i: usize = 1;
    while i < n
        invariant
            n == v@.len(),
            1 <= i <= n,
            is_alpha(v@[0]),
            forall|j: int|
                1 <= j < i ==> (v@[j] == '_' || (is_alnum(#[trigger] v@[j]) && is_lower(v@[j]))),
        decreases n - i,
    {
        let c = v[i];
        if !(c == '_' || (c.is_alphanumeric() && c.is_lowercase())) {
            return false;
        }
        i += 1;
    }
    true
}

/// What a leading digit or minus turns into.
pub open spec fn first_word(c: char) -> Option<Seq<char>> {
    if c == '-' {
        Some(seq!['n', 'e', 'g', '_'])
    } else if c == '0' {
        Some(seq!['z', 'e', 'r', 'o', '_'])
    } else if c == '1' {
        Some(seq!['o', 'n', 'e', '_'])
    } else if c == '2' {
        Some(seq!['t', 'w', 'o', '_'])
    } else if c == '3' {
        Some(seq!['t', 'h', 'r', 'e', 'e', '_'])
    } else if c == '4' {
        Some(seq!['f', 'o', 'u', 'r', '_'])
    } else if c == '5' {
        Some(seq!['f', 'i', 'v', 'e', '_'])
    } else if c == '6' {
        Some(seq!['s', 'i', 'x', '_'])
    } else if c == '7' {
        Some(seq!['s', 'e', 'v', 'e', 'n', '_'])
    } else if c == '8' {
        Some(seq!['e', 'i', 'g', 'h', 't', '_'])
    } else if c == '9' {
        Some(seq!['n', 'i', 'n', 'e', '_'])
    } else {
        None
    }
}

/// The class with its leading digit or minus spelled out.
pub open spec fn spec_first_replaced(s: Seq<char>) -> Seq<char> {
    if s.len() == 0 {
        s
    } else {
        match first_word(s[0]) {
            Some(w) => w + s.drop_first(),
            None => s,
        }
    }
}

fn word_for(c: char) -> (r: Option<Vec<char>>)
    ensures
        match r {
            Some(w) => first_word(c) == Some(w@),
            None => first_word(c) is None,
        },
{
    let text: &str = match c {
        '-' => "neg_",
        '0' => "zero_",
        '1' => "one_",
        '2' => "two_",
        '3' => "three_",
        '4' => "four_",
        '5' => "five_",
        '6' => "six_",
        '7' => "seven_",
        '8' => "eight_",
        '9' => "nine_",
        _ => {
            return None;
        },
    };
    let w = to_chars(text);
    proof {
        reveal_strlit("neg_");
        reveal_strlit("zero_");
        reveal_strlit("one_");
        reveal_strlit("two_");
        reveal_strlit("three_");
        reveal_strlit("four_");
        reveal_strlit("five_");
        reveal_strlit("six_");
        reveal_strlit("seven_");
        reveal_strlit("eight_");
        reveal_strlit("nine_");
        assert(first_word(c) == Some(w@)) by {
            if c == '-' {
                assert(w@ =~= seq!['n', 'e', 'g', '_']);
            } else if c == '0' {
                assert(w@ =~= seq!['z', 'e', 'r', 'o', '_']);
            } else if c == '1' {
                assert(w@ =~= seq!['o', 'n', 'e', '_']);
            } else if c == '2' {
                assert(w@ =~= seq!['t', 'w', 'o', '_']);
            } else if c == '3' {
                assert(w@ =~= seq!['t', 'h', 'r', 'e', 'e', '_']);
            } else if c == '4' {
                assert(w@ =~= seq!['f', 'o', 'u', 'r', '_']);
            } else if c == '5' {
                assert(w@ =~= seq!['f', 'i', 'v', 'e', '_']);
            } else if c == '6' {
                assert(w@ =~= seq!['s', 'i', 'x', '_']);
            } else if c == '7' {
                assert(w@ =~= seq!['s', 'e', 'v', 'e', 'n', '_']);
            } else if c == '8' {
                assert(w@ =~= seq!['e', 'i', 'g', 'h', 't', '_']);
            } else {
                assert(w@ =~= seq!['n', 'i', 'n', 'e', '_']);
            }
        }
    }
    Some(w)
}

fn apply_first_word(v: Vec<char>) -> (r: Vec<char>)
    ensures
        r@ == spec_first_replaced(v@),
{
    if v.len() == 0 {
        return v;
    }
    match word_for(v[0]) {
        None => v,
        Some(mut w) => {
            let ghost word = w@;
            let n = v.len();
            let mut i: usize = 1;
            while i < n
                invariant
                    n == v@.len(),
                    1 <= i <= n,
                    w@ == word + v@.subrange(1, i as int),
                decreases n - i,
            {
                w.push(v[i]);
                proof {
                    assert(word + v@.subrange(1, i + 1 as int) =~= (word + v@.subrange(
                        1,
                        i as int,
                    )).push(v@[i as int]));
                }
                i += 1;
            }
            proof {
                assert(v@.subrange(1, n as int) =~= v@.drop_first());
            }
            w
        }
    }
}

/// The characters that plain underscores stand in for.
pub open spec fn spec_is_punct(c: char) -> bool {
    ||| c == '!'
    ||| c == ':'
    ||| c == '~'
    ||| c == '@'
    ||| c == '#'
    ||| c == '$'
    ||| c == '^'
    ||| c == '='
    ||| c == '*'
    ||| c == '('
    ||| c == ')'
    ||| c == ';'
}

/// The class with every remaining special character turned into an
/// underscore.
pub open spec fn spec_punct_replaced(s: Seq<char>) -> Seq<char> {
    s.map_values(
        |c: char|
            if spec_is_punct(c) {
                '_'
            } else {
                c
            },
    )
}

fn is_punct(c: char) -> (r: bool)
    ensures
        r == spec_is_punct(c),
{
    c == '!' || c == ':' || c == '~' || c == '@' || c == '#' || c == '$' || c == '^' || c == '='
        || c == '*' || c == '(' || c == ')' || c == ';'
}

fn punct_replaced(v: &Vec<char>) -> (r: Vec<char>)
    ensures
        r@ == spec_punct_replaced(v@),
{
    let n = v.len();
    let mut out: Vec<char> = Vec::new();
    let mut i: usize = 0;
    proof {
        assert(out@ =~= spec_punct_replaced(v@.take(0)));
    }
    while i < n
        invariant
            n == v@.len(),
            0 <= i <= n,
            out@ == spec_punct_replaced(v@.take(i as int)),
        decreases n - i,
    {
        let c = v[i];
        if is_punct(c) {
            out.push('_');
        } else {
            out.push(c);
        }
        proof {
            assert(spec_punct_replaced(v@.take(i + 1 as int)) =~= spec_punct_replaced(
                v@.take(i as int),
            ).push(
                if spec_is_punct(v@[i as int]) {
                    '_'
                } else {
                    v@[i as int]
                },
            ));
        }
        i += 1;
    }
    proof {
        assert(v@.take(n as int) =~= v@);
    }
    out
}

/// How a class name is escaped: a name that already is a friendly
/// identifier stays untouched; otherwise a leading digit or minus is
/// spelled out, `:-`, `/` and `.` become `_neg_`, `_over_` and `_dot_`,
/// the remaining special characters become underscores, and the whole is
/// lowercased.
pub open spec fn spec_escape_class_name(s: Seq<char>) -> Seq<char> {
    if spec_valid_class(s) {
        s
    } else {
        lower_of(
            spec_punct_replaced(
                crate::text::spec_replace_all(
                    crate::text::spec_replace_all(
                        crate::text::spec_replace_all(
                            spec_first_replaced(s),
                            seq![':', '-'],
                            seq!['_', 'n', 'e', 'g', '_'],
                        ),
                        seq!['/'],
                        seq!['_', 'o', 'v', 'e', 'r', '_'],
                    ),
                    seq!['.'],
                    seq!['_', 'd', 'o', 't', '_'],
                ),
            ),
        )
    }
}

/// Escapes a class name into an identifier-friendly, lowercase form;
/// a name that is already in that form is handed back unchanged.
pub fn escape_class_name(class: &str) -> (r: String)
    ensures
        r@ == spec_escape_class_name(class@),
{
    let v = to_chars(class);
    if class_is_valid(&v) {
        return class.to_owned();
    }
    let v = apply_first_word(v);
    let mut from_neg: Vec<char> = Vec::new();
    from_neg.push(':');
    from_neg.push('-');
    let mut to_neg: Vec<char> = Vec::new();
    to_neg.push('_');
    to_neg.push('n');
    to_neg.push('e');
    to_neg.push('g');
    to_neg.push('_');
    proof {
        assert(from_neg@ =~= seq![':', '-']);
        assert(to_neg@ =~= seq!['_', 'n', 'e', 'g', '_']);
    }
    let v = replace_chars(&v, &from_neg, &to_neg);
    let mut from_over: Vec<char> = Vec::new();
    from_over.push('/');
    let mut to_over: Vec<char> = Vec::new();
    to_over.push('_');
    to_over.push('o');
    to_over.push('v');
    to_over.push('e');
    to_over.push('r');
    to_over.push('_');
    proof {
        assert(from_over@ =~= seq!['/']);
        assert(to_over@ =~= seq!['_', 'o', 'v', 'e', 'r', '_']);
    }
    let v = replace_chars(&v, &from_over, &to_over);
    let mut from_dot: Vec<char> = Vec::new();
    from_dot.push('.');
    let mut to_dot: Vec<char> = Vec::new();
    to_dot.push('_');
    to_dot.push('d');
    to_dot.push('o');
    to_dot.push('t');
    to_dot.push('_');
    proof {
        assert(from_dot@ =~= seq!['.']);
        assert(to_dot@ =~= seq!['_', 'd', 'o', 't', '_']);
    }
    let v = replace_chars(&v, &from_dot, &to_dot);
    let v = punct_replaced(&v);
    let s = chars_to_string(&v);
    lowercase(s.as_str())
}

/// How an output path is put together: directory and filename joined with a
/// slash (none doubled, and an absolute filename standing alone), then the
/// extension after a dot.
pub open spec fn spec_resolve_path(dir: Seq<char>, file: Seq<char>, ext: Seq<char>) -> Seq<char> {
    let joined = if file.len() > 0 && file[0] == '/' {
        file
    } else if dir.len() == 0 {
        file
    } else if dir[dir.len() - 1] == '/' {
        dir + file
    } else {
        dir + seq!['/'] + file
    };
    joined + seq!['.'] + ext
}

/// Builds the path of an output file out of the directory, the filename and
/// the extension.
pub fn resolve_path(directory: &str, filename: &str, extension: &str) -> (r: String)
    ensures
        r@ == spec_resolve_path(directory@, filename@, extension@),
{
    let d = to_chars(directory);
    let f = to_chars(filename);
    let e = to_chars(extension);
    let mut out: Vec<char> = Vec::new();
    if !(f.len() > 0 && f[0] == '/') && d.len() > 0 {
        append_chars(&mut out, &d);
        if d[d.len() - 1] != '/' {
            out.push('/');
        }
    }
    append_chars(&mut out, &f);
    out.push('.');
    append_chars(&mut out, &e);
    proof {
        assert(out@ =~= spec_resolve_path(directory@, filename@, extension@));
    }
    chars_to_string(&out)
}

/// The length of the leading run of non-whitespace characters.
pub open spec fn nonws_run(s: Seq<char>) -> nat
    decreases s.len(),
{
    if s.len() == 0 {
        0
    } else if is_space(s[0]) {
        0
    } else {
        1 + nonws_run(s.drop_first())
    }
}

/// The whitespace-separated tokens of `s`, in order, all non-empty.
pub open spec fn spec_split_ws(s: Seq<char>) -> Seq<Seq<char>>
    decreases s.len(),
{
    if s.len() == 0 {
        Seq::empty()
    } else if is_space(s[0]) {
        spec_split_ws(s.drop_first())
    } else {
        let k = 1 + nonws_run(s.drop_first());
        let kk = if k <= s.len() {
            k
        } else {
            s.len()
        };
        seq![s.take(kk as int)] + spec_split_ws(s.skip(kk as int))
    }
}

/// `nonws_run` names the end of the leading token.
proof fn lemma_nonws_run_at(s: Seq<char>, k: int)
    requires
        0 <= k <= s.len(),
        forall|j: int| 0 <= j < k ==> !is_space(s[j]),
        k < s.len() ==> is_space(s[k]),
    ensures
        nonws_run(s) == k,
    decreases k,
{
    if s.len() == 0 {
    } else if is_space(s[0]) {
        assert(k == 0);
    } else {
        assert(k >= 1);
        lemma_nonws_run_at(s.drop_first(), k - 1);
    }
}

/// Where the token that starts at `start` ends.
fn token_end(text: &Vec<char>, start: usize) -> (r: usize)
    requires
        start < text@.len(),
        !is_space(text@[start as int]),
    ensures
        start < r <= text@.len(),
        forall|j: int| start <= j < r ==> !is_space(text@[j]),
        r < text@.len() ==> is_space(text@[r as int]),
{
    let n = text.len();
    let mut j: usize = start + 1;
    while j < n
        invariant
            n == text@.len(),
            start < j <= n,
            forall|k: int| start <= k < j ==> !is_space(text@[k]),
        decreases n - j,
    {
        let c = text[j];
        if c.is_whitespace() {
            return j;
        }
        j += 1;
    }
    n
}

/// Cuts a character vector into its whitespace-separated tokens.
fn split_ws(text: &Vec<char>) -> (r: Vec<Vec<char>>)
    ensures
        r@.map_values(|s: Vec<char>| s@) == spec_split_ws(text@),
{
    let n = text.len();
    let mut parts: Vec<Vec<char>> = Vec::new();
    let mut i: usize = 0;
    proof {
        assert(text@.skip(0) =~= text@);
    }
    while i < n
        invariant
            n == text@.len(),
            0 <= i <= n,
            spec_split_ws(text@) == parts@.map_values(|s: Vec<char>| s@) + spec_split_ws(
                text@.skip(i as int),
            ),
        decreases n - i,
    {
        if text[i].is_whitespace() {
            proof {
                let rest = text@.skip(i as int);
                assert(rest.drop_first() =~= text@.skip(i + 1 as int));
            }
            i += 1;
        } else {
            let ghost before = parts@.map_values(|s: Vec<char>| s@);
            let end = token_end(text, i);
            let mut cur: Vec<char> = Vec::new();
            let mut j: usize = i;
            while j < end
                invariant
                    i <= j <= end,
                    end <= text@.len(),
                    cur@ == text@.subrange(i as int, j as int),
                decreases end - j,
            {
                cur.push(text[j]);
                proof {
                    assert(text@.subrange(i as int, j + 1 as int) =~= text@.subrange(
                        i as int,
                        j as int,
                    ).push(text@[j as int]));
                }
                j += 1;
            }
            parts.push(cur);
            proof {
                let rest = text@.skip(i as int);
                lemma_nonws_run_at(rest, end - i);
                assert(rest.take(end - i) =~= text@.subrange(i as int, end as int));
                assert(rest.skip(end - i) =~= text@.skip(end as int));
                assert(spec_split_ws(rest) == seq![rest.take(end - i)] + spec_split_ws(
                    rest.skip(end - i),
                ));
                assert(parts@.map_values(|s: Vec<char>| s@) =~= before.push(
                    text@.subrange(i as int, end as int),
                ));
                assert(parts@.map_values(|s: Vec<char>| s@) + spec_split_ws(
                    text@.skip(end as int),
                ) =~= before + spec_split_ws(rest));
            }
            i = end;
        }
    }
    proof {
        assert(text@.skip(n as int) =~= Seq::<char>::empty());
        assert(parts@.map_values(|s: Vec<char>| s@) + spec_split_ws(Seq::<char>::empty())
            =~= parts@.map_values(|s: Vec<char>| s@));
    }
    parts
}

/// How a class list is cleaned, token by token: a token already standing in
/// the output is skipped; a token the accepted set does not hold stops the
/// walk; any other token is appended, single-space separated.
pub open spec fn spec_clean_from(
    out: Seq<char>,
    tokens: Seq<Seq<char>>,
    accepted: Set<Seq<char>>,
) -> Result<Seq<char>, Seq<char>>
    decreases tokens.len(),
{
    if tokens.len() == 0 {
        Ok(out)
    } else {
        let t = tokens[0];
        if spec_contains_sub(out, t) {
            spec_clean_from(out, tokens.drop_first(), accepted)
        } else if !accepted.contains(t) {
            Err(t)
        } else if out.len() == 0 {
            spec_clean_from(t, tokens.drop_first(), accepted)
        } else {
            spec_clean_from(out + seq![' '] + t, tokens.drop_first(), accepted)
        }
    }
}

/// What cleaning a whole class list yields: the tokens of the input,
/// deduplicated and joined by single spaces, or the first token that the
/// accepted set does not hold.
pub open spec fn spec_css(input: Seq<char>, accepted: Set<Seq<char>>) -> Result<
    Seq<char>,
    Seq<char>,
> {
    spec_clean_from(Seq::empty(), spec_split_ws(input), accepted)
}

/// Cleans a whitespace-separated class list: drops duplicate tokens,
/// joins the rest with single spaces, and fails on the first token that is
/// not an accepted class, handing that token back.
pub fn css(input: &str, accepted: &ClassSet) -> (r: Result<String, String>)
    ensures
        match r {
            Ok(s) => spec_css(input@, accepted@) == Ok::<Seq<char>, Seq<char>>(s@),
            Err(c) => spec_css(input@, accepted@) == Err::<Seq<char>, Seq<char>>(c@),
        },
{
    let chars = to_chars(input);
    let tokens = split_ws(&chars);
    let ghost tv = tokens@.map_values(|s: Vec<char>| s@);
    let mut out: Vec<char> = Vec::new();
    let n = tokens.len();
    let mut i: usize = 0;
    proof {
        assert(tv.skip(0) =~= tv);
    }
    while i < n
        invariant
            n == tokens@.len(),
            tv == tokens@.map_values(|s: Vec<char>| s@),
            0 <= i <= n,
            spec_css(input@, accepted@) == spec_clean_from(out@, tv.skip(i as int), accepted@),
        decreases n - i,
    {
        let token = &tokens[i];
        proof {
            let rest = tv.skip(i as int);
            assert(rest[0] == tv[i as int]);
            assert(rest.drop_first() =~= tv.skip(i + 1 as int));
        }
        let ghost out_before = out@;
        if !contains_sub(&out, token) {
            let token_string = chars_to_string(token);
            if !accepted.contains(token_string.as_str()) {
                return Err(token_string);
            }
            if out.len() > 0 {
                out.push(' ');
            }
            append_chars(&mut out, token);
            proof {
                if out_before.len() == 0 {
                    assert(out@ =~= tv[i as int]);
                } else {
                    assert(out@ =~= out_before + seq![' '] + tv[i as int]);
                }
            }
        }
        i += 1;
    }
    proof {
        assert(tv.skip(n as int) =~= Seq::<Seq<char>>::empty());
    }
    Ok(chars_to_string(&out))
}

} // verus!
