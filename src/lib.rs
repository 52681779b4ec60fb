//! Renders an error's chain of causes through a template, with helpers for
//! indentation, styling, conditional choice, concatenation and local bindings.
use vstd::prelude::*;

use handlebars::{Handlebars, RenderError};

use crate::engine::{
    add_helper, add_set_decorator, copy_registry, new_registry, parses, register_template, render,
    write_unescaped, TEMPLATE_NAME,
};
use crate::ext::{is_payload, Section, Sections};
use crate::helpers::{ConcatHelper, InlineIfHelper, StyleHelper};
use crate::indent::IndentHelper;
use crate::json::Json;
use crate::templates::{COLORED_SIMPLE, SIMPLE};

pub mod engine;
pub mod ext;
pub mod helpers;
pub mod indent;
pub mod json;
pub mod templates;

verus! {

/// Writes a value into the output as it is.
pub fn id_escape(s: &str) -> (r: String)
    ensures
        r@ == s@,
{
    String::from_str(s)
}

/// The causes that a validation render uses: `n` of them.
pub fn synthetic_sources(n: usize) -> (r: Vec<String>)
    ensures
        r@.len() == n,
        forall|i: int| 0 <= i < n ==> #[trigger] r@[i]@ == "cause"@,
{
    let mut r: Vec<String> = Vec::new();
    let mut i: usize = 0;
    while i < n
        invariant
            i <= n,
            r@.len() == i,
            forall|j: int| 0 <= j < i ==> #[trigger] r@[j]@ == "cause"@,
        decreases n - i,
    {
        r.push(String::from_str("cause"));
        i = i + 1;
    }
    r
}

/// The data of a validation render: an error with `n` causes and no sections.
pub fn synthetic_payload(n: usize) -> (r: Json)
    ensures
        exists|s: Seq<String>| s.len() == n && (forall|i: int| 0 <= i < n ==> #[trigger] s[i]@ == "cause"@)
            && is_payload(r, Map::empty(), "error"@, s),
{
    let sources = synthetic_sources(n);
    let ghost s = sources@;
    let r = Sections::new().into_payload(String::from_str("error"), sources);
    assert(is_payload(r, Map::empty(), "error"@, s));
    r
}

/// The decision on a template's trial renders: it passes when every trial
/// rendered, and otherwise fails with the first trial's error.
pub fn trial_outcome(trials: Vec<Result<String, RenderError>>) -> (r: Result<(), RenderError>)
    ensures
        r is Ok <==> forall|i: int| 0 <= i < trials@.len() ==> #[trigger] trials@[i] is Ok,
        r is Err ==> exists|i: int| 0 <= i < trials@.len() && trials@[i] == Err::<String, RenderError>(r->Err_0)
            && forall|j: int| 0 <= j < i ==> #[trigger] trials@[j] is Ok,
{
    let ghost all = trials@;
    let mut rest = trials;
    let n = rest.len();
    let mut i: usize = 0;
    while rest.len() > 0
        invariant
            all == trials@,
            rest@ == all.skip(i as int),
            rest@.len() == all.len() - i,
            all.len() == n,
            forall|j: int| 0 <= j < i ==> #[trigger] all[j] is Ok,
        decreases rest@.len(),
    {
        let t = rest.remove(0);
        assert(t == all[i as int]);
        match t {
            Ok(_) => {},
            Err(e) => {
                assert(all[i as int] == Err::<String, RenderError>(e));
                return Err(e);
            },
        }
        assert(all.skip(i as int).drop_first() =~= all.skip(i + 1));
        i = i + 1;
    }
    Ok(())
}

/// Renders the registered template against errors with one, two and three
/// causes, in that order.
fn trial_renders(hb: &Handlebars<'static>) -> (r: Vec<Result<String, RenderError>>)
    ensures
        r@.len() == 3,
{
    let mut trials: Vec<Result<String, RenderError>> = Vec::new();
    let mut n: usize = 1;
    while n <= 3
        invariant
            1 <= n <= 4,
            trials@.len() == n - 1,
        decreases 4 - n,
    {
        trials.push(render(hb, TEMPLATE_NAME, &synthetic_payload(n)));
        n = n + 1;
    }
    trials
}

/// A validated template with its helpers, from which each error's handler is made.
pub struct Hook {
    handlebars: Handlebars<'static>,
}

impl Hook {
    /// Parses `template`, registers the helpers, and renders it against
    /// errors with one, two and three causes; any failure is returned.
    pub fn new(template: &str) -> (r: Result<Hook, RenderError>)
        ensures
            r is Ok ==> parses(template@),
    {
        let mut handlebars = new_registry();
        write_unescaped(&mut handlebars);
        register_template(&mut handlebars, TEMPLATE_NAME, template)?;
        add_helper(&mut handlebars, "style", StyleHelper);
        add_helper(&mut handlebars, "indent", IndentHelper);
        add_helper(&mut handlebars, "_if", InlineIfHelper);
        add_set_decorator(&mut handlebars);
        add_helper(&mut handlebars, "concat", ConcatHelper);
        trial_outcome(trial_renders(&handlebars))?;
        Ok(Hook { handlebars })
    }

    /// The hook with the plain built-in template.
    pub fn simple() -> (r: Result<Hook, RenderError>)
        ensures
            r is Ok ==> parses(SIMPLE@),
    {
        Hook::new(SIMPLE)
    }

    /// The hook with the coloured built-in template.
    pub fn colored_simple() -> (r: Result<Hook, RenderError>)
        ensures
            r is Ok ==> parses(COLORED_SIMPLE@),
    {
        Hook::new(COLORED_SIMPLE)
    }

    /// A handler for one error, with this hook's template and no sections yet.
    pub fn make_handler(&self) -> (r: Handler)
        ensures
            r@ == Map::<Seq<char>, Json>::empty(),
    {
        Handler { handlebars: copy_registry(&self.handlebars), sections: Sections::new() }
    }
}

/// Renders one error report through a hook's template.
pub struct Handler {
    handlebars: Handlebars<'static>,
    sections: Sections,
}

impl View for Handler {
    type V = Map<Seq<char>, Json>;

    /// The sections attached so far.
    closed spec fn view(&self) -> Map<Seq<char>, Json> {
        self.sections@
    }
}

impl Handler {
    /// Sets section `key` to `value` on this handler.
    pub fn attach(&mut self, key: &str, value: Json)
        ensures
            final(self)@ == old(self)@.insert(key@, value),
    {
        self.sections.attach(String::from_str(key), value);
    }

    /// The data that the template sees for an error with text `error` and
    /// causes `sources`, outermost first, beside this handler's sections.
    pub fn payload(&self, error: String, sources: Vec<String>) -> (r: Json)
        ensures
            is_payload(r, self@, error@, sources@),
    {
        self.sections.payload(error, sources)
    }

    /// Renders an error with text `error` and causes `sources`, outermost first,
    /// beside this handler's sections.
    pub fn render_chain(&self, error: String, sources: Vec<String>) -> Result<String, RenderError> {
        let data = self.payload(error, sources);
        render(&self.handlebars, TEMPLATE_NAME, &data)
    }
}

impl Section for Handler {
    type Output = Handler;

    open spec fn sections_of(&self) -> Option<Map<Seq<char>, Json>> {
        Some(self@)
    }

    open spec fn attached(&self, out: &Handler, key: Seq<char>, value: Json) -> bool {
        out@ == self@.insert(key, value)
    }

    fn section(self, key: &str, value: Json) -> (r: Handler) {
        let mut h = self;
        h.attach(key, value);
        h
    }

    fn get_section(&self, key: &str) -> (r: Option<&Json>) {
        self.sections.get(key)
    }

    fn get_section_str(&self, key: &str) -> (r: Option<&str>) {
        self.sections.get_str(key)
    }
}

} // verus!
