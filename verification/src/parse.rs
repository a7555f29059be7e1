//! Extracting argument values from a typed command line.
//!
//! A command names its arguments (such as `--listen` or `-u`); the value of
//! an argument is the text that follows its first occurrence, trimmed of
//! leading whitespace and cut at the first space, carriage return, newline
//! or zero character — unless the value is quoted, in which case the text
//! between the quotes is taken.  A replacement variable (a name and the
//! text that stands for it) is substituted into the value it occurs in.

use vstd::prelude::*;

verus! {

/// Every way argument extraction can fail.
#[derive(Clone, Copy, Debug, PartialEq, Eq, Structural)]
pub enum ParseError {
    /// The argument does not occur in the input.
    NotFound,
    /// A value held exactly one quote character where two were needed.
    UnmatchedQuote,
    /// A value's quotes stand where no value can be cut out of them.
    MalformedQuotes,
    /// The argument to look for was empty.
    EmptyArg,
}

/// The arguments a command requires; extraction fails if any is missing.
pub struct ReqArgs<'a>(pub &'a [&'a str]);

/// The arguments a command accepts; missing ones are skipped.
pub struct OptArgs<'a>(pub Option<&'a [&'a str]>);

/// At most one replacement variable: its name and the text it stands for.
pub struct Replace<'a>(pub Option<(&'a str, &'a str)>);

/// The views of a replacement variable, for contracts.
pub open spec fn rep_view<'a>(r: Replace<'a>) -> Option<(Seq<char>, Seq<char>)> {
    match r.0 {
        Some((name, value)) => Some((name@, value@)),
        None => None,
    }
}

/// The views of a list of argument names, for contracts.
pub open spec fn arg_views<'a>(s: Seq<&'a str>) -> Seq<Seq<char>> {
    s.map_values(|a: &'a str| a@)
}

/// Whether `pat` occurs in `text` starting exactly at `i`.
pub open spec fn match_at(text: Seq<char>, pat: Seq<char>, i: int) -> bool {
    0 <= i && i + pat.len() <= text.len() && text.subrange(i, i + pat.len()) == pat
}

/// The first position at or after `from` where `pat` occurs in `text`.
pub open spec fn spec_find(text: Seq<char>, pat: Seq<char>, from: int) -> Option<int>
    decreases text.len() - from + 1,
{
    if from < 0 || from + pat.len() > text.len() {
        None
    } else if match_at(text, pat, from) {
        Some(from)
    } else {
        spec_find(text, pat, from + 1)
    }
}

/// The first position at or after `from` holding exactly the character `c`.
pub open spec fn spec_find_char(s: Seq<char>, c: char, from: int) -> Option<int>
    decreases s.len() - from,
{
    if from < 0 || from >= s.len() {
        None
    } else if s[from] == c {
        Some(from)
    } else {
        spec_find_char(s, c, from + 1)
    }
}

/// Whether `c` ends an unquoted argument value: space, carriage return,
/// newline, or the zero character.
pub open spec fn spec_is_stop(c: char) -> bool {
    c == ' ' || c == '\r' || c == '\n' || c == '\u{0}'
}

/// The position of the first value-ending character at or after `from`,
/// or the length of `s` if none follows.
pub open spec fn spec_find_stop(s: Seq<char>, from: int) -> int
    decreases s.len() - from,
{
    if from < 0 || from >= s.len() {
        s.len() as int
    } else if spec_is_stop(s[from]) {
        from
    } else {
        spec_find_stop(s, from + 1)
    }
}

/// Whether `c` is whitespace, by the Unicode White_Space property.
pub open spec fn spec_is_space(c: char) -> bool {
    match c {
        '\u{9}' | '\u{a}' | '\u{b}' | '\u{c}' | '\u{d}' | ' ' | '\u{85}' | '\u{a0}'
            | '\u{1680}' | '\u{2000}' | '\u{2001}' | '\u{2002}' | '\u{2003}' | '\u{2004}'
            | '\u{2005}' | '\u{2006}' | '\u{2007}' | '\u{2008}' | '\u{2009}' | '\u{200a}'
            | '\u{2028}' | '\u{2029}' | '\u{202f}' | '\u{205f}' | '\u{3000}' => true,
        _ => false,
    }
}

/// `s` without its leading whitespace.
pub open spec fn spec_trim_start(s: Seq<char>) -> Seq<char>
    decreases s.len(),
{
    if s.len() > 0 && spec_is_space(s[0]) {
        spec_trim_start(s.skip(1))
    } else {
        s
    }
}

/// How many characters of `s` are exactly `c`.
pub open spec fn spec_count(s: Seq<char>, c: char) -> nat
    decreases s.len(),
{
    if s.len() == 0 {
        0
    } else {
        (if s[0] == c {
            1nat
        } else {
            0nat
        }) + spec_count(s.skip(1), c)
    }
}

/// Whether `c` is whitespace, by the Unicode White_Space property.
pub fn is_space(c: char) -> (r: bool)
    ensures
        r == spec_is_space(c),
{
    match c {
        '\u{9}' | '\u{a}' | '\u{b}' | '\u{c}' | '\u{d}' | ' ' | '\u{85}' | '\u{a0}'
            | '\u{1680}' | '\u{2000}' | '\u{2001}' | '\u{2002}' | '\u{2003}' | '\u{2004}'
            | '\u{2005}' | '\u{2006}' | '\u{2007}' | '\u{2008}' | '\u{2009}' | '\u{200a}'
            | '\u{2028}' | '\u{2029}' | '\u{202f}' | '\u{205f}' | '\u{3000}' => true,
        _ => false,
    }
}

/// Whether `pat` occurs in `text` starting exactly at `i`.
fn is_match_at(text: &str, pat: &str, i: usize) -> (r: bool)
    requires
        i + pat@.len() <= text@.len(),
    ensures
        r == match_at(text@, pat@, i as int),
{
    let tlen = text.unicode_len();
    let plen = pat.unicode_len();
    let mut j: usize = 0;
    while j < plen
        invariant
            tlen == text@.len(),
            plen == pat@.len(),
            i + plen <= text@.len(),
            0 <= j <= plen,
            forall|k: int| 0 <= k < j ==> text@[i + k] == pat@[k],
        decreases plen - j,
    {
        if text.get_char(i + j) != pat.get_char(j) {
            proof {
                assert(!match_at(text@, pat@, i as int)) by {
                    if text@.subrange(i as int, i + plen) == pat@ {
                        assert(text@.subrange(i as int, i + plen)[j as int] == text@[i + j]);
                    }
                }
            }
            return false;
        }
        j = j + 1;
    }
    proof {
        assert(text@.subrange(i as int, i + plen) =~= pat@);
    }
    true
}

/// Finds the first occurrence of `pat` in `text` at or after `from`.
pub fn find(text: &str, pat: &str, from: usize) -> (r: Option<usize>)
    ensures
        match r {
            Some(i) => {
                &&& from <= i
                &&& i + pat@.len() <= text@.len()
                &&& spec_find(text@, pat@, from as int) == Some(i as int)
            },
            None => spec_find(text@, pat@, from as int) is None,
        },
{
    let tlen = text.unicode_len();
    let plen = pat.unicode_len();
    if plen > tlen || from > tlen - plen {
        return None;
    }
    if plen == 0 {
        proof {
            assert(text@.subrange(from as int, from as int) =~= pat@);
        }
        return Some(from);
    }
    let mut i: usize = from;
    while i <= tlen - plen
        invariant
            tlen == text@.len(),
            plen == pat@.len(),
            0 < plen <= tlen,
            from <= i,
            i <= tlen - plen + 1,
            spec_find(text@, pat@, from as int) == spec_find(text@, pat@, i as int),
        decreases tlen - i,
    {
        if is_match_at(text, pat, i) {
            proof {
                assert(spec_find(text@, pat@, i as int) == Some(i as int));
            }
            return Some(i);
        }
        proof {
            assert(spec_find(text@, pat@, i as int) == spec_find(text@, pat@, i + 1));
        }
        i = i + 1;
    }
    proof {
        assert(spec_find(text@, pat@, i as int) is None);
    }
    None
}

/// Finds the first occurrence of the character `c` at or after `from`.
pub fn find_char(text: &str, c: char, from: usize) -> (r: Option<usize>)
    ensures
        match r {
            Some(i) => {
                &&& from <= i
                &&& i < text@.len()
                &&& spec_find_char(text@, c, from as int) == Some(i as int)
            },
            None => spec_find_char(text@, c, from as int) is None,
        },
{
    let tlen = text.unicode_len();
    if from >= tlen {
        return None;
    }
    let mut i: usize = from;
    while i < tlen
        invariant
            tlen == text@.len(),
            from <= i,
            i <= tlen,
            spec_find_char(text@, c, from as int) == spec_find_char(text@, c, i as int),
        decreases tlen - i,
    {
        if text.get_char(i) == c {
            return Some(i);
        }
        i = i + 1;
    }
    None
}

/// Finds the position where the unquoted value ends: the first stop
/// character at or after `from`, or the end of the text.
pub fn find_stop(text: &str, from: usize) -> (r: usize)
    ensures
        r <= text@.len(),
        from <= text@.len() ==> from <= r,
        r as int == spec_find_stop(text@, from as int),
{
    let tlen = text.unicode_len();
    if from >= tlen {
        return tlen;
    }
    let mut i: usize = from;
    while i < tlen
        invariant
            tlen == text@.len(),
            from <= i,
            i <= tlen,
            spec_find_stop(text@, from as int) == spec_find_stop(text@, i as int),
        decreases tlen - i,
    {
        let ch = text.get_char(i);
        if ch == ' ' || ch == '\r' || ch == '\n' || ch == '\u{0}' {
            return i;
        }
        i = i + 1;
    }
    tlen
}

/// Counts how many characters of `text` are exactly `c`.
pub fn count_char(text: &str, c: char) -> (r: usize)
    ensures
        r as nat == spec_count(text@, c),
{
    let tlen = text.unicode_len();
    let mut cnt: usize = 0;
    let mut i: usize = 0;
    proof {
        assert(text@.skip(0) =~= text@);
    }
    while i < tlen
        invariant
            tlen == text@.len(),
            0 <= i <= tlen,
            cnt <= i,
            cnt + spec_count(text@.skip(i as int), c) == spec_count(text@, c),
        decreases tlen - i,
    {
        proof {
            let tail = text@.skip(i as int);
            assert(tail[0] == text@[i as int]);
            assert(tail.skip(1) =~= text@.skip(i + 1));
        }
        if text.get_char(i) == c {
            cnt = cnt + 1;
        }
        i = i + 1;
    }
    proof {
        assert(text@.skip(tlen as int) =~= Seq::<char>::empty());
    }
    cnt
}

/// Hands back `s` without its leading whitespace.
pub fn trim_start(s: &str) -> (r: &str)
    ensures
        r@ == spec_trim_start(s@),
{
    let n = s.unicode_len();
    let mut i: usize = 0;
    proof {
        assert(s@.skip(0) =~= s@);
    }
    while i < n && is_space(s.get_char(i))
        invariant
            n == s@.len(),
            0 <= i <= n,
            spec_trim_start(s@) == spec_trim_start(s@.skip(i as int)),
        decreases n - i,
    {
        proof {
            let tail = s@.skip(i as int);
            assert(tail[0] == s@[i as int]);
            assert(tail.skip(1) =~= s@.skip(i + 1));
        }
        i = i + 1;
    }
    proof {
        if i < n {
            assert(s@.skip(i as int)[0] == s@[i as int]);
        } else {
            assert(s@.skip(i as int) =~= Seq::<char>::empty());
        }
        assert(spec_trim_start(s@.skip(i as int)) == s@.skip(i as int));
        assert(s@.skip(i as int) =~= s@.subrange(i as int, n as int));
    }
    s.substring_char(i, n)
}

/// All of `s` with every occurrence of `pat` replaced by `rep`, scanning
/// left to right without overlap.  An empty `pat` replaces nothing.
pub open spec fn spec_replace_all(s: Seq<char>, pat: Seq<char>, rep: Seq<char>) -> Seq<char>
    decreases s.len(),
{
    if pat.len() == 0 || s.len() < pat.len() {
        s
    } else if s.subrange(0, pat.len() as int) == pat {
        rep + spec_replace_all(s.skip(pat.len() as int), pat, rep)
    } else {
        seq![s[0]] + spec_replace_all(s.skip(1), pat, rep)
    }
}

proof fn lemma_replace_none(t: Seq<char>, p: Seq<char>, rep: Seq<char>, i: int)
    requires
        0 <= i <= t.len(),
        p.len() > 0,
        spec_find(t, p, i) is None,
    ensures
        spec_replace_all(t.skip(i), p, rep) == t.skip(i),
    decreases t.len() - i,
{
    let s = t.skip(i);
    if s.len() < p.len() {
    } else {
        assert(i + p.len() <= t.len());
        assert(s.subrange(0, p.len() as int) =~= t.subrange(i, i + p.len()));
        assert(!match_at(t, p, i));
        assert(spec_find(t, p, i + 1) is None);
        lemma_replace_none(t, p, rep, i + 1);
        assert(s.skip(1) =~= t.skip(i + 1));
        assert(seq![s[0]] + t.skip(i + 1) =~= s);
    }
}

proof fn lemma_replace_found(t: Seq<char>, p: Seq<char>, rep: Seq<char>, i: int, j: int)
    requires
        0 <= i,
        p.len() > 0,
        spec_find(t, p, i) == Some(j),
    ensures
        i <= j,
        j + p.len() <= t.len(),
        spec_replace_all(t.skip(i), p, rep) == t.subrange(i, j) + rep + spec_replace_all(
            t.skip(j + p.len()),
            p,
            rep,
        ),
    decreases t.len() - i,
{
    let s = t.skip(i);
    assert(i + p.len() <= t.len());
    assert(s.subrange(0, p.len() as int) =~= t.subrange(i, i + p.len()));
    if match_at(t, p, i) {
        assert(j == i);
        assert(s.skip(p.len() as int) =~= t.skip(i + p.len()));
        assert(t.subrange(i, i) =~= Seq::<char>::empty());
        assert(t.subrange(i, i) + rep + spec_replace_all(t.skip(i + p.len()), p, rep) =~= rep
            + spec_replace_all(t.skip(i + p.len()), p, rep));
    } else {
        assert(spec_find(t, p, i + 1) == Some(j));
        lemma_replace_found(t, p, rep, i + 1, j);
        assert(s.skip(1) =~= t.skip(i + 1));
        assert(s.subrange(0, p.len() as int) != p);
        assert(seq![s[0]] + (t.subrange(i + 1, j) + rep + spec_replace_all(
            t.skip(j + p.len()),
            p,
            rep,
        )) =~= t.subrange(i, j) + rep + spec_replace_all(t.skip(j + p.len()), p, rep));
    }
}

/// Builds a copy of `text` with every occurrence of `pat` replaced by
/// `rep`, scanning left to right without overlap.  An empty `pat` leaves
/// the text as it is.
pub fn replace_all(text: &str, pat: &str, rep: &str) -> (r: String)
    ensures
        r@ == spec_replace_all(text@, pat@, rep@),
{
    let tlen = text.unicode_len();
    let plen = pat.unicode_len();
    if plen == 0 {
        return text.to_owned();
    }
    let mut out = String::new();
    let mut i: usize = 0;
    proof {
        assert(text@.skip(0) =~= text@);
    }
    while i < tlen
        invariant
            tlen == text@.len(),
            plen == pat@.len(),
            0 < plen,
            0 <= i <= tlen,
            out@ + spec_replace_all(text@.skip(i as int), pat@, rep@) == spec_replace_all(
                text@,
                pat@,
                rep@,
            ),
        decreases tlen - i,
    {
        let ghost out0 = out@;
        let ghost i0 = i as int;
        match find(text, pat, i) {
            Some(j) => {
                proof {
                    lemma_replace_found(text@, pat@, rep@, i as int, j as int);
                }
                let piece = text.substring_char(i, j);
                out.append(piece);
                out.append(rep);
                i = j + plen;
                proof {
                    assert(out@ + spec_replace_all(text@.skip(i as int), pat@, rep@) =~= out0
                        + spec_replace_all(text@.skip(i0), pat@, rep@));
                }
            },
            None => {
                proof {
                    lemma_replace_none(text@, pat@, rep@, i as int);
                }
                let piece = text.substring_char(i, tlen);
                out.append(piece);
                i = tlen;
                proof {
                    assert(text@.skip(tlen as int) =~= Seq::<char>::empty());
                    assert(out@ + Seq::<char>::empty() =~= out0 + text@.skip(i0));
                }
            },
        }
    }
    proof {
        assert(text@.skip(tlen as int) =~= Seq::<char>::empty());
        assert(out@ + Seq::<char>::empty() =~= out@);
    }
    out
}

/// The raw value text that follows the first occurrence of `pat`: the text
/// between the end of that occurrence and the next occurrence (or the end
/// of the input), as `split` hands out its second piece.
pub open spec fn spec_segment_after(text: Seq<char>, pat: Seq<char>) -> Option<Seq<char>> {
    match spec_find(text, pat, 0) {
        None => None,
        Some(i) => {
            let s = i + pat.len();
            match spec_find(text, pat, s) {
                None => Some(text.subrange(s, text.len() as int)),
                Some(j) => Some(text.subrange(s, j)),
            }
        },
    }
}

/// Cuts the value out of the trimmed text `val`: up to the first stop
/// character when unquoted, or the text its quotes enclose.  One lone
/// quote is refused, and so are quotes that stand where no value can be
/// cut out of them.
pub open spec fn spec_quote_slice(val: Seq<char>) -> Result<Seq<char>, ParseError> {
    let end = spec_find_stop(val, 0);
    let q = spec_count(val, '"');
    if q >= 2 {
        match spec_find_char(val, '"', 0) {
            None => Err(ParseError::MalformedQuotes),
            Some(f) => match spec_find_char(val, '"', f + 2) {
                None => Err(ParseError::MalformedQuotes),
                Some(p) => if f + 1 < end {
                    if f + 1 <= p - f {
                        Ok(val.subrange(f + 1, p - f))
                    } else {
                        Err(ParseError::MalformedQuotes)
                    }
                } else {
                    Ok(val.subrange(0, end))
                },
            },
        }
    } else if q == 1 {
        Err(ParseError::UnmatchedQuote)
    } else {
        Ok(val.subrange(0, end))
    }
}

/// Applies the replacement variable to a finished value: where the
/// variable's name occurs, the text it stands for takes its place.
pub open spec fn spec_apply_replace(v: Seq<char>, rep: Option<(Seq<char>, Seq<char>)>) -> Seq<
    char,
> {
    match rep {
        None => v,
        Some((name, value)) => if name.len() == 0 {
            v
        } else {
            spec_replace_all(v, name, value)
        },
    }
}

/// The whole meaning of extracting the value of `arg` from `input`: the
/// segment after the argument, trimmed, cut by stop characters or quotes,
/// with the replacement variable substituted in.
pub open spec fn spec_parse_arg(
    input: Seq<char>,
    arg: Seq<char>,
    rep: Option<(Seq<char>, Seq<char>)>,
) -> Result<Seq<char>, ParseError> {
    if arg.len() == 0 {
        Err(ParseError::EmptyArg)
    } else {
        match spec_segment_after(input, arg) {
            None => Err(ParseError::NotFound),
            Some(seg) => {
                let val = spec_trim_start(seg);
                match spec_quote_slice(val) {
                    Err(e) => Err(e),
                    Ok(v) => Ok(spec_apply_replace(v, rep)),
                }
            },
        }
    }
}

/// Cuts the value out of the trimmed text `val`, as [`spec_quote_slice`]
/// says.
fn quote_slice<'a>(val: &'a str) -> (r: Result<&'a str, ParseError>)
    ensures
        (match r {
            Ok(s) => Ok(s@),
            Err(e) => Err::<Seq<char>, ParseError>(e),
        }) == spec_quote_slice(val@),
{
    let vlen = val.unicode_len();
    let end = find_stop(val, 0);
    let q = count_char(val, '"');
    if q >= 2 {
        let f = match find_char(val, '"', 0) {
            Some(f) => f,
            None => {
                return Err(ParseError::MalformedQuotes);
            },
        };
        // `f < vlen`, so `vlen - f` cannot underflow; searching from
        // `f + 2` only makes sense when that start is inside the text.
        if vlen - f < 2 {
            proof {
                assert(spec_find_char(val@, '"', f + 2) is None);
            }
            return Err(ParseError::MalformedQuotes);
        }
        match find_char(val, '"', f + 2) {
            None => Err(ParseError::MalformedQuotes),
            Some(p) => {
                if f + 1 < end {
                    if f + 1 <= p - f {
                        Ok(val.substring_char(f + 1, p - f))
                    } else {
                        Err(ParseError::MalformedQuotes)
                    }
                } else {
                    Ok(val.substring_char(0, end))
                }
            },
        }
    } else if q == 1 {
        Err(ParseError::UnmatchedQuote)
    } else {
        Ok(val.substring_char(0, end))
    }
}

/// Extracts the value of `arg` from `input`, substituting the replacement
/// variable where its name occurs.  Returns exactly what
/// [`spec_parse_arg`] assigns to the texts: the value on success, and the
/// error that names what went wrong otherwise.
pub fn parse_arg(arg: &str, rep_vars: &Replace<'_>, input: &str) -> (r: Result<String, ParseError>)
    ensures
        (match r {
            Ok(s) => Ok(s@),
            Err(e) => Err::<Seq<char>, ParseError>(e),
        }) == spec_parse_arg(input@, arg@, rep_view(*rep_vars)),
{
    let alen = arg.unicode_len();
    let tlen = input.unicode_len();
    if alen == 0 {
        return Err(ParseError::EmptyArg);
    }
    let i1 = match find(input, arg, 0) {
        Some(i) => i,
        None => {
            return Err(ParseError::NotFound);
        },
    };
    let s = i1 + alen;
    let segend = match find(input, arg, s) {
        Some(j) => j,
        None => tlen,
    };
    let seg = input.substring_char(s, segend);
    let val = trim_start(seg);
    match quote_slice(val) {
        Err(e) => Err(e),
        Ok(v) => match rep_vars.0 {
            None => Ok(v.to_owned()),
            Some((name, value)) => {
                if name.unicode_len() == 0 {
                    Ok(v.to_owned())
                } else {
                    Ok(replace_all(v, name, value))
                }
            },
        },
    }
}

/// The values of a list of required arguments, in list order: empty names
/// are skipped, and the first argument that fails fails the whole list.
pub open spec fn spec_parse_req_args(
    args: Seq<Seq<char>>,
    rep: Option<(Seq<char>, Seq<char>)>,
    input: Seq<char>,
) -> Result<Seq<Seq<char>>, ParseError>
    decreases args.len(),
{
    if args.len() == 0 {
        Ok(Seq::empty())
    } else {
        let rest = spec_parse_req_args(args.skip(1), rep, input);
        if args[0].len() == 0 {
            rest
        } else {
            match spec_parse_arg(input, args[0], rep) {
                Err(e) => Err(e),
                Ok(v) => match rest {
                    Ok(vs) => Ok(seq![v] + vs),
                    Err(e) => Err(e),
                },
            }
        }
    }
}

/// The values of a list of optional arguments, in list order: empty names
/// and arguments that fail are simply skipped.
pub open spec fn spec_parse_opt_args(
    args: Seq<Seq<char>>,
    rep: Option<(Seq<char>, Seq<char>)>,
    input: Seq<char>,
) -> Seq<Seq<char>>
    decreases args.len(),
{
    if args.len() == 0 {
        Seq::empty()
    } else {
        let rest = spec_parse_opt_args(args.skip(1), rep, input);
        if args[0].len() == 0 {
            rest
        } else {
            match spec_parse_arg(input, args[0], rep) {
                Ok(v) => seq![v] + rest,
                Err(_) => rest,
            }
        }
    }
}

/// Extracts the values of every required argument, skipping empty names.
/// The first argument whose value cannot be extracted fails the call with
/// that argument's error.
pub fn parse_req_args(req_args: &[&str], rep_vars: &Replace<'_>, input: &str) -> (r: Result<
    Vec<String>,
    ParseError,
>)
    ensures
        (match r {
            Ok(v) => Ok(v@.map_values(|s: String| s@)),
            Err(e) => Err::<Seq<Seq<char>>, ParseError>(e),
        }) == spec_parse_req_args(arg_views(req_args@), rep_view(*rep_vars), input@),
{
    let ghost av = arg_views(req_args@);
    let ghost rp = rep_view(*rep_vars);
    let ghost inp = input@;
    let mut vals: Vec<String> = Vec::new();
    let n = req_args.len();
    let mut i: usize = 0;
    proof {
        assert(av.skip(0) =~= av);
        match spec_parse_req_args(av, rp, inp) {
            Ok(vs) => {
                assert(vals@.map_values(|s: String| s@) + vs =~= vs);
            },
            Err(_) => {},
        }
    }
    while i < n
        invariant
            n == req_args@.len(),
            av == arg_views(req_args@),
            rp == rep_view(*rep_vars),
            inp == input@,
            0 <= i <= n,
            spec_parse_req_args(av, rp, inp) == (match spec_parse_req_args(
                av.skip(i as int),
                rp,
                inp,
            ) {
                Ok(vs) => Ok(vals@.map_values(|s: String| s@) + vs),
                Err(e) => Err(e),
            }),
        decreases n - i,
    {
        let arg = req_args[i];
        proof {
            let tail = av.skip(i as int);
            assert(tail[0] == av[i as int]);
            assert(av[i as int] == arg@);
            assert(tail.skip(1) =~= av.skip(i + 1));
        }
        if arg.unicode_len() == 0 {
            i = i + 1;
            continue;
        }
        let ghost vals0 = vals@.map_values(|s: String| s@);
        match parse_arg(arg, rep_vars, input) {
            Err(e) => {
                return Err(e);
            },
            Ok(v) => {
                vals.push(v);
                proof {
                    assert(vals@.map_values(|s: String| s@) =~= vals0.push(v@));
                    match spec_parse_req_args(av.skip(i + 1), rp, inp) {
                        Ok(vs) => {
                            assert(vals0 + (seq![v@] + vs) =~= vals0.push(v@) + vs);
                        },
                        Err(_) => {},
                    }
                }
            },
        }
        i = i + 1;
    }
    proof {
        assert(av.skip(n as int) =~= Seq::<Seq<char>>::empty());
        assert(vals@.map_values(|s: String| s@) + Seq::<Seq<char>>::empty() =~= vals@.map_values(
            |s: String| s@,
        ));
    }
    Ok(vals)
}

/// Extracts the values of the optional arguments that are present,
/// skipping empty names and arguments whose value cannot be extracted.
/// Never fails.
pub fn parse_opt_args(opt_args: &[&str], rep_vars: &Replace<'_>, input: &str) -> (r: Result<
    Vec<String>,
    ParseError,
>)
    ensures
        r is Ok,
        (match r {
            Ok(v) => v@.map_values(|s: String| s@),
            Err(_) => Seq::empty(),
        }) == spec_parse_opt_args(arg_views(opt_args@), rep_view(*rep_vars), input@),
{
    let ghost av = arg_views(opt_args@);
    let ghost rp = rep_view(*rep_vars);
    let ghost inp = input@;
    let mut vals: Vec<String> = Vec::new();
    let n = opt_args.len();
    let mut i: usize = 0;
    proof {
        assert(av.skip(0) =~= av);
        assert(vals@.map_values(|s: String| s@) + spec_parse_opt_args(av, rp, inp)
            =~= spec_parse_opt_args(av, rp, inp));
    }
    while i < n
        invariant
            n == opt_args@.len(),
            av == arg_views(opt_args@),
            rp == rep_view(*rep_vars),
            inp == input@,
            0 <= i <= n,
            vals@.map_values(|s: String| s@) + spec_parse_opt_args(av.skip(i as int), rp, inp)
                == spec_parse_opt_args(av, rp, inp),
        decreases n - i,
    {
        let arg = opt_args[i];
        proof {
            let tail = av.skip(i as int);
            assert(tail[0] == av[i as int]);
            assert(av[i as int] == arg@);
            assert(tail.skip(1) =~= av.skip(i + 1));
        }
        if arg.unicode_len() == 0 {
            i = i + 1;
            continue;
        }
        let ghost vals0 = vals@.map_values(|s: String| s@);
        match parse_arg(arg, rep_vars, input) {
            Err(_) => {},
            Ok(v) => {
                vals.push(v);
                proof {
                    assert(vals@.map_values(|s: String| s@) =~= vals0.push(v@));
                    assert(vals0.push(v@) + spec_parse_opt_args(av.skip(i + 1), rp, inp) =~= vals0
                        + (seq![v@] + spec_parse_opt_args(av.skip(i + 1), rp, inp)));
                }
            },
        }
        i = i + 1;
    }
    proof {
        assert(av.skip(n as int) =~= Seq::<Seq<char>>::empty());
        assert(vals@.map_values(|s: String| s@) + Seq::<Seq<char>>::empty() =~= vals@.map_values(
            |s: String| s@,
        ));
    }
    Ok(vals)
}

} // verus!
