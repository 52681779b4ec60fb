//! The built-in templates.
use vstd::prelude::*;

verus! {

/// The error, then its causes under "Caused by:", numbered when there are
/// several; lines are joined by line feeds, with none at the end.
pub const SIMPLE: &'static str = "{{error}}\
    {{#if (gt (len sources) 0)}}\nCaused by:\
    {{#if (gt (len sources) 1)}}\
    {{#each sources}}\n{{indent @index this}}{{/each}}\
    {{else}}\
    {{#each sources}}\n{{indent this}}{{/each}}\
    {{/if}}\
    {{/if}}";

/// The layout of `SIMPLE`, with the error in red and the causes in yellow.
pub const COLORED_SIMPLE: &'static str = "{{style \"red\" error}}\
    {{#if (gt (len sources) 0)}}\n{{style \"black.bright\" \"Caused by:\"}}\
    {{#if (gt (len sources) 1)}}\
    {{#each sources}}\n{{indent @index (style \"yellow\" this)}}{{/each}}\
    {{else}}\
    {{#each sources}}\n{{indent (style \"yellow\" this)}}{{/each}}\
    {{/if}}\
    {{/if}}";

} // verus!
