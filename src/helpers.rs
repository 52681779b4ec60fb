//! The helpers that templates call, as functions on plain values.
use itertools::Itertools;
use vstd::prelude::*;

use crate::engine::{bindings_of, data_of, render_error, use_context, wrap_context};
use crate::indent::split_on;
use crate::json::{entries_map, str_eq, Json};

verus! {

/// What a helper reports when its arguments do not fit.
#[derive(Debug, PartialEq, Eq)]
pub enum HelperError {
    TooFewParams,
    TooManyParams,
    UnexpectedParamType,
    NumberOutOfRange,
    ContentNotString,
    ConcatNonString,
    MissingParam,
    ConditionNotBool,
    StyleParamNotString,
    UnknownStyle(String),
    ExtendNonObject,
}

/// The text that names the helper and the fault.
pub open spec fn message_of(e: HelperError) -> Seq<char> {
    match e {
        HelperError::TooFewParams => "`indent` helper: too few parameters"@,
        HelperError::TooManyParams => "`indent` helper: too many parameters"@,
        HelperError::UnexpectedParamType => "`indent` helper: unexpected parameter type. Accepted: number, string or null."@,
        HelperError::NumberOutOfRange => "`indent` helper: number doesn't fit in u64 range"@,
        HelperError::ContentNotString => "`indent` helper: content is not a string"@,
        HelperError::ConcatNonString => "`concat` helper: only accepts string parameter(s)"@,
        HelperError::MissingParam => "helper: missing parameter"@,
        HelperError::ConditionNotBool => "`_if` helper: condition is not a boolean"@,
        HelperError::StyleParamNotString => "`style` helper: style and content must be strings"@,
        HelperError::ExtendNonObject => "`set` decorator: Cannot extend non-object data"@,
        HelperError::UnknownStyle(t) => "`style` helper: unknown style token: "@ + t@,
    }
}

impl HelperError {
    /// A sentence that names the helper and the fault.
    pub fn message(&self) -> (r: String)
        ensures
            r@ == message_of(*self),
    {
        match self {
            HelperError::TooFewParams => String::from_str("`indent` helper: too few parameters"),
            HelperError::TooManyParams => String::from_str("`indent` helper: too many parameters"),
            HelperError::UnexpectedParamType => String::from_str("`indent` helper: unexpected parameter type. Accepted: number, string or null."),
            HelperError::NumberOutOfRange => String::from_str("`indent` helper: number doesn't fit in u64 range"),
            HelperError::ContentNotString => String::from_str("`indent` helper: content is not a string"),
            HelperError::ConcatNonString => String::from_str("`concat` helper: only accepts string parameter(s)"),
            HelperError::MissingParam => String::from_str("helper: missing parameter"),
            HelperError::ConditionNotBool => String::from_str("`_if` helper: condition is not a boolean"),
            HelperError::StyleParamNotString => String::from_str("`style` helper: style and content must be strings"),
            HelperError::ExtendNonObject => String::from_str("`set` decorator: Cannot extend non-object data"),
            HelperError::UnknownStyle(t) => {
                let mut m = String::from_str("`style` helper: unknown style token: ");
                m.append(t.as_str());
                m
            },
        }
    }
}

/// `a` when `condition` holds, else `b`, unchanged.
pub fn inline_if<T>(condition: bool, a: T, b: T) -> (r: T)
    ensures
        r == (if condition { a } else { b }),
{
    if condition {
        a
    } else {
        b
    }
}

/// The template helper `_if condition a b`.
pub struct InlineIfHelper;

impl InlineIfHelper {
    /// The position of the argument that `_if` yields: the second when the
    /// first is `true`, the third when it is `false`.
    pub fn pick(&self, params: &Vec<Json>) -> (r: Result<usize, HelperError>)
        ensures
            params@.len() < 3 ==> r == Err::<usize, HelperError>(HelperError::MissingParam),
            params@.len() >= 3 ==> match params@[0] {
                Json::Bool(c) => r == Ok::<usize, HelperError>(if c { 1usize } else { 2usize }),
                _ => r == Err::<usize, HelperError>(HelperError::ConditionNotBool),
            },
    {
        if params.len() < 3 {
            return Err(HelperError::MissingParam);
        }
        match &params[0] {
            Json::Bool(c) => Ok(inline_if(*c, 1, 2)),
            _ => Err(HelperError::ConditionNotBool),
        }
    }
}

/// The characters of each string, one after another.
pub open spec fn strings_concat(parts: Seq<String>) -> Seq<char> {
    Seq::new(parts.len(), |i: int| parts[i]@).flatten()
}

/// Relies on `itertools::Itertools::join`: with an empty separator it writes
/// each element in turn and nothing between them.
#[verifier::external_body]
fn join_all(parts: &Vec<String>) -> (r: String)
    ensures
        r@ == strings_concat(parts@),
{
    parts.iter().join("")
}

/// Whether every argument is a string.
pub open spec fn all_strings(params: Seq<Json>) -> bool {
    forall|i: int| 0 <= i < params.len() ==> #[trigger] params[i] is String
}

/// The text of each argument, where each one is a string.
pub open spec fn texts(params: Seq<Json>) -> Seq<Seq<char>> {
    Seq::new(params.len(), |i: int| match params[i] {
        Json::String(s) => s@,
        _ => Seq::empty(),
    })
}

/// The template helper `concat`: its string arguments joined with nothing between.
pub struct ConcatHelper;

impl ConcatHelper {
    /// Joins the arguments, all of which must be strings.
    pub fn render_params(&self, params: &Vec<Json>) -> (r: Result<String, HelperError>)
        ensures
            all_strings(params@) ==> r is Ok && r->Ok_0@ == texts(params@).flatten(),
            !all_strings(params@) ==> r == Err::<String, HelperError>(HelperError::ConcatNonString),
    {
        let mut parts: Vec<String> = Vec::new();
        let mut i: usize = 0;
        while i < params.len()
            invariant
                i <= params@.len(),
                parts@.len() == i,
                forall|j: int| 0 <= j < i ==> params@[j] is String,
                forall|j: int| 0 <= j < i ==> #[trigger] parts@[j]@ == texts(params@)[j],
            decreases params@.len() - i,
        {
            match &params[i] {
                Json::String(s) => parts.push(s.clone()),
                _ => return Err(HelperError::ConcatNonString),
            }
            i = i + 1;
        }
        let r = join_all(&parts);
        assert(Seq::new(parts@.len(), |j: int| parts@[j]@) =~= texts(params@));
        Ok(r)
    }
}

/// The style names that a dotted style path may hold.
pub open spec fn is_style_name(t: Seq<char>) -> bool {
    t == "black"@
        || t == "red"@
        || t == "green"@
        || t == "yellow"@
        || t == "blue"@
        || t == "magenta"@
        || t == "cyan"@
        || t == "white"@
        || t == "bright"@
        || t == "on_black"@
        || t == "on_red"@
        || t == "on_green"@
        || t == "on_yellow"@
        || t == "on_blue"@
        || t == "on_magenta"@
        || t == "on_cyan"@
        || t == "on_white"@
        || t == "on_bright"@
        || t == "bold"@
        || t == "dim"@
        || t == "underlined"@
        || t == "blink"@
        || t == "blink_fast"@
        || t == "reverse"@
        || t == "hidden"@
        || t == "strikethrough"@
}

pub open spec fn is_digit(c: char) -> bool {
    '0' <= c && c <= '9'
}

/// The value of a string of decimal digits.
pub open spec fn digits_value(d: Seq<char>) -> nat
    decreases d.len(),
{
    if d.len() == 0 {
        0
    } else {
        digits_value(d.drop_last()) * 10 + ((d.last() as u32) as int - 48) as nat
    }
}

/// `t` without one leading `+`.
pub open spec fn unsigned_part(t: Seq<char>) -> Seq<char> {
    if t.len() > 0 && t[0] == '+' { t.drop_first() } else { t }
}

pub open spec fn all_digits(d: Seq<char>) -> bool {
    forall|i: int| 0 <= i < d.len() ==> is_digit(#[trigger] d[i])
}

/// Decimal digits, with an optional leading `+`, whose value fits in a byte.
pub open spec fn is_byte_text(t: Seq<char>) -> bool {
    let d = unsigned_part(t);
    d.len() > 0 && all_digits(d) && digits_value(d) <= 255
}

/// A token of a style path: a style name, a 256-colour number, or `on_` and
/// such a number for the background.
pub open spec fn is_style_token(t: Seq<char>) -> bool {
    is_style_name(t) || is_byte_text(t) || (t.len() >= 3 && t.take(3) == seq!['o', 'n', '_']
        && is_byte_text(t.skip(3)))
}

fn style_name(t: &str) -> (r: bool)
    ensures
        r == is_style_name(t@),
{
    str_eq(t, "black")
        || str_eq(t, "red")
        || str_eq(t, "green")
        || str_eq(t, "yellow")
        || str_eq(t, "blue")
        || str_eq(t, "magenta")
        || str_eq(t, "cyan")
        || str_eq(t, "white")
        || str_eq(t, "bright")
        || str_eq(t, "on_black")
        || str_eq(t, "on_red")
        || str_eq(t, "on_green")
        || str_eq(t, "on_yellow")
        || str_eq(t, "on_blue")
        || str_eq(t, "on_magenta")
        || str_eq(t, "on_cyan")
        || str_eq(t, "on_white")
        || str_eq(t, "on_bright")
        || str_eq(t, "bold")
        || str_eq(t, "dim")
        || str_eq(t, "underlined")
        || str_eq(t, "blink")
        || str_eq(t, "blink_fast")
        || str_eq(t, "reverse")
        || str_eq(t, "hidden")
        || str_eq(t, "strikethrough")
}

proof fn lemma_digits_monotone(d: Seq<char>, i: int)
    requires
        0 <= i <= d.len(),
        all_digits(d),
    ensures
        digits_value(d.take(i)) <= digits_value(d),
    decreases d.len(),
{
    if i < d.len() {
        let e = d.drop_last();
        assert(d.take(i) =~= e.take(i));
        lemma_digits_monotone(e, i);
        assert(is_digit(d.last()));
    } else {
        assert(d.take(i) =~= d);
    }
}

fn byte_text(t: &str) -> (r: bool)
    ensures
        r == is_byte_text(t@),
{
    let n = t.unicode_len();
    let start: usize = if n > 0 && t.get_char(0) == '+' { 1 } else { 0 };
    let ghost d = unsigned_part(t@);
    assert(d =~= t@.subrange(start as int, n as int));
    if start == n {
        return false;
    }
    let mut v: u32 = 0;
    let mut i: usize = start;
    while i < n
        invariant
            n == t@.len(),
            start <= i <= n,
            d == unsigned_part(t@),
            d =~= t@.subrange(start as int, n as int),
            forall|j: int| 0 <= j < i - start ==> is_digit(#[trigger] d[j]),
            v == digits_value(d.take(i - start)),
            v <= 255,
        decreases n - i,
    {
        let c = t.get_char(i);
        let ghost k = i - start;
        assert(d[k] == c);
        if !('0' <= c && c <= '9') {
            assert(!is_digit(d[k]));
            assert(k < d.len());
            assert(!is_byte_text(t@));
            return false;
        }
        assert(d.take(k + 1).drop_last() =~= d.take(k));
        assert(d.take(k + 1).last() == c);
        v = v * 10 + (c as u32 - 48);
        assert(v == digits_value(d.take(k + 1)));
        if v > 255 {
            proof {
                if all_digits(d) {
                    lemma_digits_monotone(d, k + 1);
                }
            }
            return false;
        }
        i = i + 1;
    }
    assert(d.take(n - start) =~= d);
    true
}

fn style_token(t: &str) -> (r: bool)
    ensures
        r == is_style_token(t@),
{
    if style_name(t) || byte_text(t) {
        return true;
    }
    let n = t.unicode_len();
    if n >= 3 && t.get_char(0) == 'o' && t.get_char(1) == 'n' && t.get_char(2) == '_' {
        assert(t@.take(3) =~= seq!['o', 'n', '_']);
        let rest = t.substring_char(3, n);
        assert(rest@ =~= t@.skip(3));
        byte_text(rest)
    } else {
        proof {
            if t@.len() >= 3 && t@.take(3) == seq!['o', 'n', '_'] {
                assert(t@.take(3)[0] == 'o');
                assert(t@.take(3)[1] == 'n');
                assert(t@.take(3)[2] == '_');
            }
        }
        false
    }
}

/// The pieces of `s` between occurrences of `sep`.
pub fn split_chars(s: &str, sep: char) -> (r: Vec<String>)
    ensures
        r@.len() == split_on(s@, sep).len(),
        forall|j: int| 0 <= j < r@.len() ==> #[trigger] r@[j]@ == split_on(s@, sep)[j],
{
    let n = s.unicode_len();
    let mut out: Vec<String> = Vec::new();
    let mut start: usize = 0;
    let mut i: usize = 0;
    assert(s@.subrange(0, 0) =~= Seq::<char>::empty());
    while i < n
        invariant
            n == s@.len(),
            start <= i <= n,
            split_on(s@.subrange(0, i as int), sep).len() == out@.len() + 1,
            split_on(s@.subrange(0, i as int), sep).last() == s@.subrange(start as int, i as int),
            forall|j: int| 0 <= j < out@.len() ==> #[trigger] out@[j]@ == split_on(s@.subrange(0, i as int), sep)[j],
        decreases n - i,
    {
        let ghost before = s@.subrange(0, i as int);
        let ghost after = s@.subrange(0, i + 1);
        assert(after.drop_last() =~= before);
        let c = s.get_char(i);
        if c == sep {
            let piece = s.substring_char(start, i);
            out.push(String::from_str(piece));
            start = i + 1;
            assert(s@.subrange(i + 1, i + 1) =~= Seq::<char>::empty());
        } else {
            assert(s@.subrange(start as int, i + 1) =~= s@.subrange(start as int, i as int).push(c));
        }
        i = i + 1;
    }
    assert(s@.subrange(0, n as int) =~= s@);
    let piece = s.substring_char(start, n);
    out.push(String::from_str(piece));
    out
}

/// An error from styling by `path` is `UnknownStyle` with the first token of
/// `path` that is not a style token.
pub open spec fn first_unknown_token(path: Seq<char>, r: Result<String, HelperError>) -> bool {
    match r {
        Err(HelperError::UnknownStyle(t)) => exists|j: int| 0 <= j < split_on(path, '.').len()
            && split_on(path, '.')[j] == t@ && !is_style_token(t@)
            && forall|k: int| 0 <= k < j ==> is_style_token(#[trigger] split_on(path, '.')[k]),
        Err(_) => false,
        Ok(_) => true,
    }
}

/// The template helper `style path text`.
pub struct StyleHelper;

/// Relies on `console::Style::from_dotted_str` and `apply_to`: the text comes
/// out whole, with the terminal's escape codes around it where colours are on.
#[verifier::external_body]
fn styled(path: &str, text: &str) -> (r: String)
    ensures
        exists|p: Seq<char>, q: Seq<char>| r@ == p + text@ + q,
{
    console::Style::from_dotted_str(path).apply_to(text).to_string()
}

/// Relies on `console::colors_enabled`: whether styled output carries colours.
#[verifier::external_body]
fn colors_enabled() -> (r: bool) {
    console::colors_enabled()
}

/// Checks that every token of `path` is known, then styles `text` when
/// `colors` is on and hands it back unchanged when it is off.
pub fn style_with(path: &str, text: &str, colors: bool) -> (r: Result<String, HelperError>)
    ensures
        (forall|j: int| 0 <= j < split_on(path@, '.').len()
            ==> is_style_token(#[trigger] split_on(path@, '.')[j])) <==> r is Ok,
        r is Ok && !colors ==> r->Ok_0@ == text@,
        r is Ok ==> exists|p: Seq<char>, q: Seq<char>| r->Ok_0@ == p + text@ + q,
        first_unknown_token(path@, r),
{
    let tokens = split_chars(path, '.');
    let mut i: usize = 0;
    while i < tokens.len()
        invariant
            i <= tokens@.len(),
            tokens@.len() == split_on(path@, '.').len(),
            forall|j: int| 0 <= j < tokens@.len() ==> #[trigger] tokens@[j]@ == split_on(path@, '.')[j],
            forall|k: int| 0 <= k < i ==> is_style_token(#[trigger] split_on(path@, '.')[k]),
        decreases tokens@.len() - i,
    {
        if !style_token(tokens[i].as_str()) {
            assert(tokens@[i as int]@ == split_on(path@, '.')[i as int]);
            return Err(HelperError::UnknownStyle(tokens[i].clone()));
        }
        i = i + 1;
    }
    if colors {
        Ok(styled(path, text))
    } else {
        let r = String::from_str(text);
        assert(r@ == Seq::<char>::empty() + text@ + Seq::<char>::empty());
        Ok(r)
    }
}

/// Styles `text` by the dotted style `path`, as far as the terminal takes colours.
pub fn style(path: &str, text: &str) -> (r: Result<String, HelperError>)
    ensures
        (forall|j: int| 0 <= j < split_on(path@, '.').len()
            ==> is_style_token(#[trigger] split_on(path@, '.')[j])) <==> r is Ok,
        r is Ok ==> exists|p: Seq<char>, q: Seq<char>| r->Ok_0@ == p + text@ + q,
        first_unknown_token(path@, r),
{
    style_with(path, text, colors_enabled())
}

impl StyleHelper {
    /// Styles the second argument by the first; both must be strings.
    pub fn render_params(&self, params: &Vec<Json>) -> (r: Result<String, HelperError>)
        ensures
            params@.len() < 2 ==> r == Err::<String, HelperError>(HelperError::MissingParam),
            params@.len() >= 2 ==> match (params@[0], params@[1]) {
                (Json::String(p), Json::String(t)) => (r is Ok <==> forall|j: int|
                    0 <= j < split_on(p@, '.').len() ==> is_style_token(#[trigger] split_on(p@, '.')[j]))
                    && (r is Ok ==> exists|a: Seq<char>, b: Seq<char>| r->Ok_0@ == a + t@ + b)
                    && first_unknown_token(p@, r),
                _ => r == Err::<String, HelperError>(HelperError::StyleParamNotString),
            },
    {
        if params.len() < 2 {
            return Err(HelperError::MissingParam);
        }
        match (&params[0], &params[1]) {
            (Json::String(p), Json::String(t)) => style(p.as_str(), t.as_str()),
            _ => Err(HelperError::StyleParamNotString),
        }
    }
}

/// The scope that `bindings` make of `parent`: a copy of `parent`'s entries
/// with each binding set over them. Only an object can be extended.
pub fn extend_scope(bindings: Vec<(String, Json)>, parent: Json) -> (r: Result<Json, HelperError>)
    ensures
        match parent {
            Json::Object(m) => match r {
                Ok(Json::Object(e)) => entries_map(e@) == entries_map(m@ + bindings@),
                _ => false,
            },
            _ => r == Err::<Json, HelperError>(HelperError::ExtendNonObject),
        },
{
    match parent {
        Json::Object(m) => {
            let mut entries = m;
            let ghost base = entries@;
            let mut rest = bindings;
            let ghost all = rest@;
            let n = rest.len();
            let mut i: usize = 0;
            while rest.len() > 0
                invariant
                    rest@ == all.skip(i as int),
                    i <= all.len(),
                    rest@.len() == all.len() - i,
                    all.len() == n,
                    entries@ == base + all.take(i as int),
                decreases rest@.len(),
            {
                let b = rest.remove(0);
                let ghost before = entries@;
                entries.push(b);
                assert(all.skip(i as int).drop_first() =~= all.skip(i + 1));
                assert(all.take(i + 1) =~= all.take(i as int).push(b));
                assert(entries@ =~= base + all.take(i + 1));
                i = i + 1;
            }
            assert(all.take(i as int) =~= all);
            Ok(Json::Object(entries))
        },
        _ => Err(HelperError::ExtendNonObject),
    }
}

/// The template decorator `set key=value ...`: the rest of the block sees a
/// copy of its data with the given keys set.
pub fn set_decorator(
    d: &handlebars::Decorator,
    _registry: &handlebars::Handlebars,
    ctx: &handlebars::Context,
    rc: &mut handlebars::RenderContext,
) -> Result<(), handlebars::RenderError> {
    match extend_scope(bindings_of(d), data_of(ctx)) {
        Ok(scope) => {
            let wrapped = wrap_context(&scope)?;
            use_context(rc, wrapped);
            Ok(())
        },
        Err(e) => Err(render_error(e.message())),
    }
}

} // verus!
