//! Template rendering.
//!
//! The enterprise-bus target and the request processor build payloads and
//! endpoints by rendering a configured template against data extracted from
//! the event in flight.  The rendering itself is done by the template
//! engine; what it produces is a function of the template and the data
//! alone, named here by [`rendered_of`].
//!
//! The engine is only handed *plain* templates: value substitutions and a
//! bounded number of blocks.  Templates that reference or define partials,
//! use subexpressions, or nest blocks past the bound are rejected before
//! the engine sees them, because the engine recurses on those constructs
//! without a depth guard and a hostile template could exhaust the stack.
//! [`spec_template_plain`] states the accepted shape over the raw bytes.

use vstd::prelude::*;

verus! {

/// How many block openings a template may carry: a fixed bound on the
/// engine's parse and render recursion.
pub const MAX_TEMPLATE_BLOCKS: u64 = 64;

/// What the template engine produces for a plain template and its data:
/// the rendered text, or nothing when it rejects the template.
pub uninterp spec fn rendered_of(template: Seq<u8>, data: Map<Seq<u8>, Seq<u8>>) -> Option<
    Seq<u8>,
>;

/// The data map described by a key/value list: later entries win.
pub open spec fn spec_data_map(pairs: Seq<(Seq<u8>, Seq<u8>)>) -> Map<Seq<u8>, Seq<u8>>
    decreases pairs.len(),
{
    if pairs.len() == 0 {
        Map::empty()
    } else {
        spec_data_map(pairs.drop_last()).insert(pairs.last().0, pairs.last().1)
    }
}

/// The model of a render outcome.
pub open spec fn view_rendered(r: Option<Vec<u8>>) -> Option<Seq<u8>> {
    match r {
        Some(v) => Some(v@),
        None => None,
    }
}

/// The scanner state after some prefix of the template: whether the scan
/// stands inside a `{{... }}` tag, the previous byte, how many `#` bytes
/// were seen inside tags (an upper bound on block nesting), and whether a
/// byte that could summon a partial, a decorator or a subexpression was
/// seen inside a tag.
pub struct ScanState {
    pub in_tag: bool,
    pub prev: u8,
    pub hashes: nat,
    pub bad: bool,
}

/// One byte of the scan.
pub open spec fn spec_scan_step(s: ScanState, b: u8) -> ScanState {
    ScanState {
        in_tag: if !s.in_tag && s.prev == '{' as u8 && b == '{' as u8 {
            true
        } else if s.in_tag && s.prev == '}' as u8 && b == '}' as u8 {
            false
        } else {
            s.in_tag
        },
        prev: b,
        hashes: if s.in_tag && b == '#' as u8 {
            s.hashes + 1
        } else {
            s.hashes
        },
        bad: s.bad || (s.in_tag && (b == '>' as u8 || b == '*' as u8 || b == '(' as u8)),
    }
}

/// The scanner state after the first `i` bytes.
pub open spec fn spec_scan(t: Seq<u8>, i: int) -> ScanState
    decreases i,
{
    if i <= 0 {
        ScanState { in_tag: false, prev: 0u8, hashes: 0, bad: false }
    } else {
        spec_scan_step(spec_scan(t, i - 1), t[i - 1])
    }
}

/// Whether a template is plain: inside its tags there is no `>` (partial
/// reference), `*` (decorator, so no partial can even be defined) or `(`
/// (subexpression), and it opens at most [`MAX_TEMPLATE_BLOCKS`] blocks.
/// The engine neither recurses unboundedly nor aborts on such a template.
pub open spec fn spec_template_plain(t: Seq<u8>) -> bool {
    let s = spec_scan(t, t.len() as int);
    !s.bad && s.hashes <= MAX_TEMPLATE_BLOCKS
}

/// Whether a template is plain; see [`spec_template_plain`].
pub fn template_plain(t: &Vec<u8>) -> (r: bool)
    ensures
        r == spec_template_plain(t@),
{
    let mut in_tag = false;
    let mut prev: u8 = 0;
    let mut hashes: u64 = 0;
    let mut bad = false;
    let mut i: usize = 0;
    while i < t.len()
        invariant
            i <= t@.len(),
            hashes <= i,
            in_tag == spec_scan(t@, i as int).in_tag,
            prev == spec_scan(t@, i as int).prev,
            hashes as nat == spec_scan(t@, i as int).hashes,
            bad == spec_scan(t@, i as int).bad,
        decreases t@.len() - i,
    {
        let b = t[i];
        proof {
            assert(spec_scan(t@, i + 1) == spec_scan_step(spec_scan(t@, i as int), t@[i as int]));
        }
        if in_tag && (b == '>' as u8 || b == '*' as u8 || b == '(' as u8) {
            bad = true;
        }
        if in_tag && b == '#' as u8 {
            hashes = hashes + 1;
        }
        if !in_tag && prev == '{' as u8 && b == '{' as u8 {
            in_tag = true;
        } else if in_tag && prev == '}' as u8 && b == '}' as u8 {
            in_tag = false;
        }
        prev = b;
        i = i + 1;
    }
    !bad && hashes <= MAX_TEMPLATE_BLOCKS
}

/// Relies on handlebars' `Handlebars::render_template`: renders a template
/// string against a data object built from the given entries.  The outcome
/// is a function of the template and the data alone; entries whose key is
/// not valid UTF-8 contribute nothing to the data object.  The engine
/// recurses on partials, decorators, subexpressions and nested blocks
/// without a depth guard, so only plain templates may be handed to it;
/// everything else goes through [`render_template`], which rejects them.
#[verifier::external_body]
fn render_with_engine(template: &Vec<u8>, data: &Vec<(Vec<u8>, Vec<u8>)>) -> (r: Option<Vec<u8>>)
    requires
        spec_template_plain(template@),
    ensures
        view_rendered(r) == rendered_of(template@, spec_data_map(crate::text::view_pairs(data@))),
{
    let mut map = std::collections::HashMap::new();
    for (k, v) in data.iter() {
        if let Ok(key) = String::from_utf8(k.clone()) {
            map.insert(key, String::from_utf8_lossy(v).into_owned());
        }
    }
    let registry = handlebars::Handlebars::new();
    match registry.render_template(&String::from_utf8_lossy(template), &map) {
        Ok(s) => Some(s.into_bytes()),
        Err(_) => None,
    }
}

/// Render a template against the given data entries.  A plain template is
/// rendered by the engine; a template that is not plain is rejected, so
/// the engine never sees one it could recurse on unboundedly.
pub fn render_template(template: &Vec<u8>, data: &Vec<(Vec<u8>, Vec<u8>)>) -> (r: Option<Vec<u8>>)
    ensures
        view_rendered(r) == (if spec_template_plain(template@) {
            rendered_of(template@, spec_data_map(crate::text::view_pairs(data@)))
        } else {
            None::<Seq<u8>>
        }),
{
    if template_plain(template) {
        render_with_engine(template, data)
    } else {
        None
    }
}

} // verus!
