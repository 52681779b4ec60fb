//! Line indentation with three prefixing policies.
use vstd::prelude::*;

use crate::helpers::HelperError;
use crate::json::{Json, JsonNumber};

verus! {

/// How each line of a block is prefixed.
pub enum IndentMode {
    /// Four spaces before every line.
    Spaces,
    /// The line's number, counted from the given start, then `": "`.
    Numbered(u64),
    /// The given text, verbatim, before every line.
    Custom(String),
}

pub open spec fn digit_char(d: nat) -> char {
    if d == 0 { '0' }
    else if d == 1 { '1' }
    else if d == 2 { '2' }
    else if d == 3 { '3' }
    else if d == 4 { '4' }
    else if d == 5 { '5' }
    else if d == 6 { '6' }
    else if d == 7 { '7' }
    else if d == 8 { '8' }
    else { '9' }
}

/// The decimal notation of `n`, without leading zeros.
pub open spec fn decimal(n: nat) -> Seq<char>
    decreases n,
{
    if n < 10 {
        seq![digit_char(n)]
    } else {
        decimal(n / 10).push(digit_char(n % 10))
    }
}

pub open spec fn four_spaces() -> Seq<char> {
    seq![' ', ' ', ' ', ' ']
}

/// What stands before line `k` (counted from zero) under `mode`.
pub open spec fn line_prefix(mode: IndentMode, k: nat) -> Seq<char> {
    match mode {
        IndentMode::Spaces => four_spaces(),
        IndentMode::Numbered(start) => decimal((start + k) as nat) + seq![':', ' '],
        IndentMode::Custom(p) => p@,
    }
}

/// The pieces of `s` between occurrences of `sep`; there is always at least one.
pub open spec fn split_on(s: Seq<char>, sep: char) -> Seq<Seq<char>>
    decreases s.len(),
{
    if s.len() == 0 {
        seq![Seq::<char>::empty()]
    } else if s.last() == sep {
        split_on(s.drop_last(), sep).push(Seq::<char>::empty())
    } else {
        let p = split_on(s.drop_last(), sep);
        p.update(p.len() - 1, p.last().push(s.last()))
    }
}

/// The pieces of `s` between line feeds.
pub open spec fn pieces(s: Seq<char>) -> Seq<Seq<char>> {
    split_on(s, '\n')
}

/// Whether `s` ends with a line feed.
pub open spec fn ends_with_newline(s: Seq<char>) -> bool {
    s.len() > 0 && s.last() == '\n'
}

/// The lines of `s`: a final line feed ends the last line and opens no new one.
pub open spec fn lines(s: Seq<char>) -> Seq<Seq<char>> {
    if ends_with_newline(s) {
        pieces(s).drop_last()
    } else {
        pieces(s)
    }
}

/// The lines `ls`, each with its prefix under `mode`.
pub open spec fn prefixed(mode: IndentMode, ls: Seq<Seq<char>>) -> Seq<Seq<char>> {
    Seq::new(ls.len(), |i: int| line_prefix(mode, i as nat) + ls[i])
}

/// Each of `ls` followed by a line feed.
pub open spec fn terminated(ls: Seq<Seq<char>>) -> Seq<char>
    decreases ls.len(),
{
    if ls.len() == 0 {
        Seq::empty()
    } else {
        terminated(ls.drop_last()) + ls.last() + seq!['\n']
    }
}

/// `s` indented under `mode`: every line prefixed, lines joined by line feeds,
/// and a final line feed exactly when `s` has one.
pub open spec fn indent_spec(s: Seq<char>, mode: IndentMode) -> Seq<char> {
    let t = terminated(prefixed(mode, lines(s)));
    if ends_with_newline(s) {
        t
    } else {
        t.drop_last()
    }
}

pub proof fn lemma_split_nonempty(s: Seq<char>, sep: char)
    ensures
        split_on(s, sep).len() >= 1,
    decreases s.len(),
{
    if s.len() > 0 {
        lemma_split_nonempty(s.drop_last(), sep);
    }
}

proof fn lemma_prefixed_push(mode: IndentMode, ls: Seq<Seq<char>>, x: Seq<char>)
    ensures
        terminated(prefixed(mode, ls.push(x))) == terminated(prefixed(mode, ls))
            + line_prefix(mode, ls.len()) + x + seq!['\n'],
{
    let a = prefixed(mode, ls.push(x));
    assert(a.drop_last() =~= prefixed(mode, ls));
    assert(a.last() == line_prefix(mode, ls.len()) + x);
    assert(terminated(a) == terminated(a.drop_last()) + a.last() + seq!['\n']);
    assert(line_prefix(mode, ls.len()) + x + seq!['\n'] =~= a.last() + seq!['\n']);
    assert(terminated(prefixed(mode, ls)) + a.last() + seq!['\n'] =~= terminated(prefixed(mode, ls))
        + line_prefix(mode, ls.len()) + x + seq!['\n']);
}

fn digit_str(d: u128) -> (r: &'static str)
    requires
        d < 10,
    ensures
        r@ == seq![digit_char(d as nat)],
{
    proof {
        reveal_strlit("0");
        reveal_strlit("1");
        reveal_strlit("2");
        reveal_strlit("3");
        reveal_strlit("4");
        reveal_strlit("5");
        reveal_strlit("6");
        reveal_strlit("7");
        reveal_strlit("8");
        reveal_strlit("9");
    }
    let r = if d == 0 { "0" }
    else if d == 1 { "1" }
    else if d == 2 { "2" }
    else if d == 3 { "3" }
    else if d == 4 { "4" }
    else if d == 5 { "5" }
    else if d == 6 { "6" }
    else if d == 7 { "7" }
    else if d == 8 { "8" }
    else { "9" };
    assert(r@ =~= seq![digit_char(d as nat)]);
    r
}

/// The decimal notation of `n`.
pub fn decimal_string(n: u128) -> (r: String)
    ensures
        r@ == decimal(n as nat),
    decreases n,
{
    if n < 10 {
        String::from_str(digit_str(n))
    } else {
        let mut r = decimal_string(n / 10);
        r.append(digit_str(n % 10));
        assert(r@ =~= decimal(n as nat));
        r
    }
}

fn push_prefix(out: &mut String, mode: &IndentMode, k: usize)
    ensures
        final(out)@ == old(out)@ + line_prefix(*mode, k as nat),
{
    match mode {
        IndentMode::Spaces => {
            proof {
                reveal_strlit("    ");
            }
            out.append("    ");
            assert(final(out)@ =~= old(out)@ + four_spaces());
        },
        IndentMode::Numbered(start) => {
            let num = decimal_string(*start as u128 + k as u128);
            out.append(num.as_str());
            proof {
                reveal_strlit(": ");
            }
            out.append(": ");
            assert(final(out)@ =~= old(out)@ + (decimal((*start + k) as nat) + seq![':', ' ']));
        },
        IndentMode::Custom(p) => {
            out.append(p.as_str());
        },
    }
}

/// Indents every line of `content` under `mode`.
pub fn indent(content: &str, mode: &IndentMode) -> (r: String)
    ensures
        r@ == indent_spec(content@, *mode),
{
    let n = content.unicode_len();
    let mut out = String::new();
    let mut start: usize = 0;
    let mut k: usize = 0;
    let mut i: usize = 0;
    proof {
        reveal_strlit("\n");
        assert(content@.subrange(0, 0) =~= Seq::<char>::empty());
    }
    while i < n
        invariant
            n == content@.len(),
            start <= i <= n,
            k <= i,
            pieces(content@.subrange(0, i as int)).len() == k + 1,
            pieces(content@.subrange(0, i as int)).last() == content@.subrange(start as int, i as int),
            out@ == terminated(prefixed(*mode, pieces(content@.subrange(0, i as int)).drop_last())),
            start == i <==> (i == 0 || content@[i - 1] == '\n'),
        decreases n - i,
    {
        let ghost before = content@.subrange(0, i as int);
        let ghost after = content@.subrange(0, i + 1);
        assert(after.drop_last() =~= before);
        let c = content.get_char(i);
        if c == '\n' {
            let line = content.substring_char(start, i);
            let ghost o = out@;
            push_prefix(&mut out, mode, k);
            out.append(line);
            out.append("\n");
            proof {
                reveal_strlit("\n");
                assert("\n"@ =~= seq!['\n']);
                assert(out@ =~= o + line_prefix(*mode, k as nat) + line@ + seq!['\n']);
                let ps = pieces(before);
                assert(pieces(after) == ps.push(Seq::<char>::empty()));
                assert(pieces(after).drop_last() =~= ps);
                assert(ps =~= ps.drop_last().push(ps.last()));
                lemma_prefixed_push(*mode, ps.drop_last(), ps.last());
                assert(line@ == ps.last());
                assert(ps.drop_last().len() == k);
                assert(out@ == terminated(prefixed(*mode, ps.drop_last())) + line_prefix(*mode, k as nat)
                    + ps.last() + seq!['\n']);
                assert(out@ == terminated(prefixed(*mode, ps)));
                assert(content@.subrange(i + 1, i + 1) =~= Seq::<char>::empty());
            }
            k = k + 1;
            start = i + 1;
        } else {
            proof {
                let ps = pieces(before);
                assert(pieces(after).drop_last() =~= ps.drop_last());
                assert(content@.subrange(start as int, i + 1) =~= content@.subrange(start as int, i as int).push(c));
            }
        }
        i = i + 1;
    }
    assert(content@.subrange(0, n as int) =~= content@);
    let ghost ps = pieces(content@);
    proof {
        lemma_split_nonempty(content@, '\n');
        assert(ps =~= ps.drop_last().push(ps.last()));
    }
    if !(n > 0 && start == n) {
        let line = content.substring_char(start, n);
        push_prefix(&mut out, mode, k);
        out.append(line);
        proof {
            lemma_prefixed_push(*mode, ps.drop_last(), ps.last());
            let t = terminated(prefixed(*mode, ps));
            assert(t.drop_last() =~= out@);
        }
    } else {
        assert(start > 0);
    }
    out
}

/// The template helper `indent`: `indent(content)` or `indent(mode, content)`,
/// where the mode is null (four spaces), a number (numbered from it) or a
/// string (a custom prefix).
pub struct IndentHelper;

/// The indentation mode that a first argument selects, if it selects one.
pub open spec fn mode_param(m: Json) -> Option<Result<IndentMode, HelperError>> {
    match m {
        Json::Null => Some(Ok(IndentMode::Spaces)),
        Json::Number(JsonNumber::Unsigned(u)) => if u <= usize::MAX {
            Some(Ok(IndentMode::Numbered(u)))
        } else {
            Some(Err(HelperError::NumberOutOfRange))
        },
        Json::Number(JsonNumber::Other(_)) => Some(Err(HelperError::NumberOutOfRange)),
        Json::String(p) => Some(Ok(IndentMode::Custom(p))),
        _ => None,
    }
}

/// What the `indent` helper yields for its arguments.
pub open spec fn indent_params_spec(params: Seq<Json>) -> Result<Seq<char>, HelperError> {
    if params.len() == 0 {
        Err(HelperError::TooFewParams)
    } else if params.len() > 2 {
        Err(HelperError::TooManyParams)
    } else if params.len() == 2 && mode_param(params[0]) is None {
        Err(HelperError::UnexpectedParamType)
    } else {
        match params.last() {
            Json::String(c) => if params.len() == 1 {
                Ok(indent_spec(c@, IndentMode::Spaces))
            } else {
                match mode_param(params[0]).unwrap() {
                    Ok(mode) => Ok(indent_spec(c@, mode)),
                    Err(e) => Err(e),
                }
            },
            _ => Err(HelperError::ContentNotString),
        }
    }
}

/// The mode that uses `s` verbatim as every line's prefix.
pub fn uniform(s: String) -> (r: IndentMode)
    ensures
        r == IndentMode::Custom(s),
{
    IndentMode::Custom(s)
}

/// The text of `v`, which the `indent` helper requires to be a string.
pub fn as_content(v: &Json) -> (r: Result<&String, HelperError>)
    ensures
        match *v {
            Json::String(s) => r == Ok::<&String, HelperError>(&s),
            _ => r == Err::<&String, HelperError>(HelperError::ContentNotString),
        },
{
    match v {
        Json::String(s) => Ok(s),
        _ => Err(HelperError::ContentNotString),
    }
}

fn mode_of(m: &Json) -> (r: Option<Result<IndentMode, HelperError>>)
    ensures
        r == mode_param(*m),
{
    match m {
        Json::Null => Some(Ok(IndentMode::Spaces)),
        Json::Number(JsonNumber::Unsigned(u)) => {
            if (*u as u128) <= (usize::MAX as u128) {
                Some(Ok(IndentMode::Numbered(*u)))
            } else {
                Some(Err(HelperError::NumberOutOfRange))
            }
        },
        Json::Number(JsonNumber::Other(_)) => Some(Err(HelperError::NumberOutOfRange)),
        Json::String(p) => Some(Ok(uniform(p.clone()))),
        _ => None,
    }
}

impl IndentHelper {
    /// Indents the last argument under the mode that the arguments select.
    pub fn render_params(&self, params: &Vec<Json>) -> (r: Result<String, HelperError>)
        ensures
            match r {
                Ok(s) => indent_params_spec(params@) == Ok::<Seq<char>, HelperError>(s@),
                Err(e) => indent_params_spec(params@) == Err::<Seq<char>, HelperError>(e),
            },
    {
        let n = params.len();
        if n == 0 {
            return Err(HelperError::TooFewParams);
        }
        if n > 2 {
            return Err(HelperError::TooManyParams);
        }
        let mode = if n == 2 {
            match mode_of(&params[0]) {
                Some(m) => Some(m),
                None => return Err(HelperError::UnexpectedParamType),
            }
        } else {
            None
        };
        let content = as_content(&params[n - 1])?;
        match mode {
            None => Ok(indent(content.as_str(), &IndentMode::Spaces)),
            Some(Ok(m)) => Ok(indent(content.as_str(), &m)),
            Some(Err(e)) => Err(e),
        }
    }
}

/// `t` holds no line feed.
pub open spec fn no_newline(t: Seq<char>) -> bool {
    forall|i: int| 0 <= i < t.len() ==> t[i] != '\n'
}

proof fn lemma_pieces_extend(t: Seq<char>, x: Seq<char>)
    requires
        no_newline(x),
    ensures
        pieces(t + x).len() == pieces(t).len(),
        pieces(t + x) == pieces(t).update(pieces(t).len() - 1, pieces(t).last() + x),
    decreases x.len(),
{
    lemma_split_nonempty(t, '\n');
    if x.len() == 0 {
        assert(t + x =~= t);
        assert(pieces(t).last() + x =~= pieces(t).last());
        assert(pieces(t).update(pieces(t).len() - 1, pieces(t).last()) =~= pieces(t));
    } else {
        let y = x.drop_last();
        lemma_pieces_extend(t, y);
        assert((t + x).drop_last() =~= t + y);
        assert((t + x).last() == x.last());
        assert(pieces(t).last() + y + seq![x.last()] =~= pieces(t).last() + x);
        let p = pieces(t + y);
        assert(p.last() == pieces(t).last() + y);
        assert(x[x.len() - 1] != '\n');
        assert(split_on(t + x, '\n') == p.update(p.len() - 1, p.last().push(x.last())));
        assert(p.last().push(x.last()) =~= pieces(t).last() + x);
        assert(p.len() == pieces(t).len());
        assert(pieces(t + x) =~= pieces(t).update(pieces(t).len() - 1, pieces(t).last() + x));
    }
}

proof fn lemma_pieces_of_terminated(ls: Seq<Seq<char>>)
    requires
        forall|i: int| 0 <= i < ls.len() ==> no_newline(#[trigger] ls[i]),
    ensures
        pieces(terminated(ls)) == ls.push(Seq::<char>::empty()),
    decreases ls.len(),
{
    if ls.len() == 0 {
        assert(pieces(Seq::<char>::empty()) =~= seq![Seq::<char>::empty()]);
    } else {
        let d = ls.drop_last();
        lemma_pieces_of_terminated(d);
        let body = terminated(d) + ls.last();
        assert(no_newline(ls[ls.len() - 1]));
        lemma_pieces_extend(terminated(d), ls.last());
        assert(pieces(body) =~= ls);
        let whole = terminated(ls);
        assert(whole == body + seq!['\n']);
        assert(whole.drop_last() =~= body);
        assert(whole.last() == '\n');
    }
}

proof fn lemma_decimal_no_newline(n: nat)
    ensures
        no_newline(decimal(n)),
    decreases n,
{
    if n >= 10 {
        lemma_decimal_no_newline(n / 10);
    }
}

proof fn lemma_pieces_no_newline(s: Seq<char>)
    ensures
        forall|i: int| 0 <= i < pieces(s).len() ==> no_newline(#[trigger] pieces(s)[i]),
    decreases s.len(),
{
    if s.len() > 0 {
        let d = s.drop_last();
        lemma_pieces_no_newline(d);
        lemma_split_nonempty(d, '\n');
        let p = pieces(d);
        if s.last() == '\n' {
            assert(pieces(s) == p.push(Seq::<char>::empty()));
            assert forall|i: int| 0 <= i < pieces(s).len() implies no_newline(#[trigger] pieces(s)[i]) by {
                if i < p.len() {
                    assert(pieces(s)[i] == p[i]);
                }
            }
        } else {
            assert(pieces(s) == p.update(p.len() - 1, p.last().push(s.last())));
            assert forall|i: int| 0 <= i < pieces(s).len() implies no_newline(#[trigger] pieces(s)[i]) by {
                if i < p.len() - 1 {
                    assert(pieces(s)[i] == p[i]);
                } else {
                    let q = p.last().push(s.last());
                    assert(pieces(s)[i] == q);
                    assert(no_newline(p[p.len() - 1]));
                    assert forall|j: int| 0 <= j < q.len() implies q[j] != '\n' by {
                        if j < q.len() - 1 {
                            assert(q[j] == p.last()[j]);
                        }
                    }
                }
            }
        }
    }
}

/// Every prefix that `mode` writes is free of line feeds.
pub open spec fn single_line_prefixes(mode: IndentMode) -> bool {
    match mode {
        IndentMode::Custom(p) => no_newline(p@),
        _ => true,
    }
}

/// Read back as lines, indented text has the lines of the input, in order,
/// each behind its prefix, provided no prefix holds a line feed.
pub proof fn lemma_indented_lines(s: Seq<char>, mode: IndentMode)
    requires
        single_line_prefixes(mode),
    ensures
        lines(indent_spec(s, mode)) == prefixed(mode, lines(s)),
{
    let ls = lines(s);
    let p = prefixed(mode, ls);
    lemma_split_nonempty(s, '\n');
    lemma_pieces_no_newline(s);
    assert forall|i: int| 0 <= i < p.len() implies no_newline(#[trigger] p[i]) by {
        let k = i as nat;
        assert(ls[i] == pieces(s)[i]);
        assert(no_newline(ls[i]));
        match mode {
            IndentMode::Numbered(start) => {
                lemma_decimal_no_newline((start + k) as nat);
            },
            _ => {},
        }
        let pre = line_prefix(mode, k);
        assert(no_newline(pre));
        assert(p[i] == pre + ls[i]);
        assert forall|j: int| 0 <= j < p[i].len() implies p[i][j] != '\n' by {
            if j < pre.len() {
                assert(p[i][j] == pre[j]);
            } else {
                assert(p[i][j] == ls[i][j - pre.len()]);
            }
        }
    }
    lemma_pieces_of_terminated(p);
    let t = terminated(p);
    if ends_with_newline(s) {
        lemma_split_nonempty(s.drop_last(), '\n');
        assert(pieces(s) == split_on(s.drop_last(), '\n').push(Seq::<char>::empty()));
        assert(pieces(s).len() >= 2);
        assert(p.len() >= 1);
        assert(t == terminated(p.drop_last()) + p.last() + seq!['\n']);
        assert(t.last() == '\n');
        assert(pieces(t).drop_last() =~= p);
    } else {
        assert(p.len() >= 1);
        let d = p.drop_last();
        lemma_pieces_of_terminated(d);
        assert(no_newline(p[p.len() - 1]));
        lemma_pieces_extend(terminated(d), p.last());
        assert(t == terminated(d) + p.last() + seq!['\n']);
        let out = t.drop_last();
        assert(out =~= terminated(d) + p.last());
        assert(pieces(out) =~= p);
        if out.len() > 0 && out.last() == '\n' {
            if p.last().len() > 0 {
                assert(out.last() == p.last().last());
                assert(p.last()[p.last().len() - 1] != '\n');
            } else {
                assert(s.len() == 0) by {
                    if s.len() > 0 {
                        let q = split_on(s.drop_last(), '\n');
                        lemma_split_nonempty(s.drop_last(), '\n');
                        assert(pieces(s) == q.update(q.len() - 1, q.last().push(s.last())));
                        assert(pieces(s).last().len() > 0);
                        assert(ls.last() == pieces(s).last());
                        assert(p.last() == line_prefix(mode, (p.len() - 1) as nat) + ls.last());
                    }
                }
                assert(pieces(s) =~= seq![Seq::<char>::empty()]);
                assert(d.len() == 0);
                assert(terminated(d) =~= Seq::<char>::empty());
            }
        }
    }
}

/// Numbered indentation puts before line `i` of `s` the number `n + i` and
/// `": "`, for every line, in order; the output has as many lines as `s`.
pub proof fn lemma_numbered_lines(s: Seq<char>, n: u64)
    ensures
        lines(indent_spec(s, IndentMode::Numbered(n))).len() == lines(s).len(),
        forall|i: int| 0 <= i < lines(s).len() ==> #[trigger] lines(indent_spec(s, IndentMode::Numbered(n)))[i]
            == decimal((n + i) as nat) + seq![':', ' '] + lines(s)[i],
{
    lemma_indented_lines(s, IndentMode::Numbered(n));
}

/// A custom prefix stands verbatim before every line of `s`, whatever it
/// holds, so long as it holds no line feed of its own.
pub proof fn lemma_custom_lines(s: Seq<char>, p: String)
    requires
        no_newline(p@),
    ensures
        lines(indent_spec(s, IndentMode::Custom(p))).len() == lines(s).len(),
        forall|i: int| 0 <= i < lines(s).len() ==> #[trigger] lines(indent_spec(s, IndentMode::Custom(p)))[i]
            == p@ + lines(s)[i],
{
    lemma_indented_lines(s, IndentMode::Custom(p));
}

} // verus!
