//! The colour policy, the render context of a job, and the call into the
//! template engine.
use vstd::prelude::*;

use crate::jobs::{svg_path, svg_path_spec, template_id, template_id_spec, JobView, RenderJob};
use crate::paths::Polarity;
use crate::text::{lower_of, str_eq, to_lowercase, to_uppercase, upper_of};

verus! {

/// The main colour of an organisation, from its lower-cased identifier.
pub open spec fn main_color_of(lower: Seq<char>) -> Seq<char> {
    if lower == "alle"@ {
        "#000"@
    } else {
        "#fff"@
    }
}

/// The secondary colour of an organisation, from its lower-cased identifier.
pub open spec fn secondary_color_of(lower: Seq<char>) -> Seq<char> {
    if lower == "thw"@ {
        "#003399"@
    } else if lower == "fw"@ {
        "#FF0000"@
    } else if lower == "zoll"@ || lower == "pol"@ {
        "#13A538"@
    } else if lower == "bw"@ {
        "#996633"@
    } else if lower == "kats"@ {
        "#DF6711"@
    } else if lower == "alle"@ {
        "#fff"@
    } else {
        "#000"@
    }
}

/// The colours of an organisation.
#[derive(Clone, Debug)]
pub struct ColorPair {
    pub main: String,
    pub secondary: String,
}

/// Looks up the colours of an organisation by its lower-cased identifier;
/// unknown identifiers get the default pair.
pub fn colors_for_lower(lower: &str) -> (r: ColorPair)
    ensures
        r.main@ == main_color_of(lower@),
        r.secondary@ == secondary_color_of(lower@),
{
    let main = if str_eq(lower, "alle") {
        "#000"
    } else {
        "#fff"
    };
    let secondary = if str_eq(lower, "thw") {
        "#003399"
    } else if str_eq(lower, "fw") {
        "#FF0000"
    } else if str_eq(lower, "zoll") || str_eq(lower, "pol") {
        "#13A538"
    } else if str_eq(lower, "bw") {
        "#996633"
    } else if str_eq(lower, "kats") {
        "#DF6711"
    } else if str_eq(lower, "alle") {
        "#fff"
    } else {
        "#000"
    };
    ColorPair { main: String::from_str(main), secondary: String::from_str(secondary) }
}

/// The colours of an organisation, looked up case-insensitively.
pub fn colors_for(organisation: &str) -> (r: ColorPair)
    ensures
        r.main@ == main_color_of(lower_of(organisation@)),
        r.secondary@ == secondary_color_of(lower_of(organisation@)),
{
    let lower = to_lowercase(organisation);
    colors_for_lower(lower.as_str())
}

/// The render context of a job, given its organisation lower-cased and
/// upper-cased, as key/value pairs in a fixed order. The colours of the
/// organisation are swapped for an inverted job.
pub open spec fn context_of(j: JobView, lower: Seq<char>, upper: Seq<char>) -> Seq<
    (Seq<char>, Seq<char>),
> {
    let main = main_color_of(lower);
    let secondary = secondary_color_of(lower);
    let (first, second) = match j.polarity {
        Polarity::Original => (main, secondary),
        Polarity::Inverted => (secondary, main),
    };
    seq![
        ("value"@, j.display_name),
        ("organisation"@, if lower == "alle"@ { Seq::<char>::empty() } else { upper }),
        ("ort"@, Seq::<char>::empty()),
        ("volunteer"@, j.extra_label),
        ("helfer"@, j.extra_label),
        ("special"@, j.special),
        ("main_color"@, first),
        ("secondary_color"@, second),
    ]
}

/// The views of a list of key/value pairs.
pub open spec fn pair_views(s: Seq<(String, String)>) -> Seq<(Seq<char>, Seq<char>)> {
    s.map_values(|p: (String, String)| (p.0@, p.1@))
}

fn pair(k: &str, v: &str) -> (r: (String, String))
    ensures
        r.0@ == k@,
        r.1@ == v@,
{
    (String::from_str(k), String::from_str(v))
}

/// The render context of a job from its organisation already lower-cased
/// and upper-cased.
pub fn context_with(job: &RenderJob, lower: &str, upper: &str) -> (r: Vec<(String, String)>)
    ensures
        pair_views(r@) == context_of(job@, lower@, upper@),
{
    let colors = colors_for_lower(lower);
    let (first, second) = match job.polarity {
        Polarity::Original => (colors.main, colors.secondary),
        Polarity::Inverted => (colors.secondary, colors.main),
    };
    let organisation = if str_eq(lower, "alle") {
        ""
    } else {
        upper
    };
    let mut ctx: Vec<(String, String)> = Vec::new();
    ctx.push(pair("value", job.display_name.as_str()));
    ctx.push(pair("organisation", organisation));
    ctx.push(pair("ort", ""));
    ctx.push(pair("volunteer", job.extra_label.as_str()));
    ctx.push(pair("helfer", job.extra_label.as_str()));
    ctx.push(pair("special", job.special.as_str()));
    ctx.push(pair("main_color", first.as_str()));
    ctx.push(pair("secondary_color", second.as_str()));
    proof {
        reveal_strlit("");
        assert(organisation@ == (if lower@ == "alle"@ { Seq::<char>::empty() } else { upper@ }));
        assert(pair_views(ctx@)[1] == ("organisation"@, organisation@));
        let c = context_of(job@, lower@, upper@);
        let v = pair_views(ctx@);
        assert(v[0] == c[0]);
        assert(v[1] == c[1]);
        assert(v[2] == c[2]);
        assert(v[3] == c[3]);
        assert(v[4] == c[4]);
        assert(v[5] == c[5]);
        assert(v[6] == c[6]);
        assert(v[7] == c[7]);
        assert(pair_views(ctx@) =~= context_of(job@, lower@, upper@));
    }
    ctx
}

/// The render context of a job: its display name, its organisation
/// upper-cased (empty for the catch-all organisation), an empty location,
/// its label, its special variant, and the organisation's colours, swapped
/// for an inverted job.
pub fn build_context(job: &RenderJob) -> (r: Vec<(String, String)>)
    ensures
        pair_views(r@) == context_of(
            job@,
            lower_of(job.organisation@),
            upper_of(job.organisation@),
        ),
{
    let lower = to_lowercase(job.organisation.as_str());
    let upper = to_uppercase(job.organisation.as_str());
    context_with(job, lower.as_str(), upper.as_str())
}

/// For any job, the inverted context is the original context with the
/// values of its `main_color` and `secondary_color` entries exchanged, and
/// the inverted main colour is the organisation's secondary colour.
pub proof fn lemma_polarity_symmetry(j: JobView, lower: Seq<char>, upper: Seq<char>)
    ensures
        ({
            let inv = context_of(JobView { polarity: Polarity::Inverted, ..j }, lower, upper);
            let orig = context_of(JobView { polarity: Polarity::Original, ..j }, lower, upper);
            &&& orig[6] == ("main_color"@, main_color_of(lower))
            &&& orig[7] == ("secondary_color"@, secondary_color_of(lower))
            &&& inv == orig.update(6, ("main_color"@, orig[7].1)).update(
                7,
                ("secondary_color"@, orig[6].1),
            )
        }),
{
    let inv = context_of(JobView { polarity: Polarity::Inverted, ..j }, lower, upper);
    let orig = context_of(JobView { polarity: Polarity::Original, ..j }, lower, upper);
    assert(inv =~= orig.update(6, ("main_color"@, orig[7].1)).update(
        7,
        ("secondary_color"@, orig[6].1),
    ));
}

#[verifier::external_type_specification]
#[verifier::external_body]
pub struct ExTera(tera::Tera);

#[verifier::external_type_specification]
#[verifier::external_body]
pub struct ExTeraError(tera::Error);

/// Relies on `tera::Context::insert`, which carries the key/value pairs of
/// `context` over, and `tera::Tera::render`, which renders the template named
/// `id` with them. The outcome depends on the templates the engine has
/// loaded, so nothing is promised of it.
#[verifier::external_body]
fn tera_render(engine: &tera::Tera, id: &str, context: &Vec<(String, String)>) -> (r: Result<
    String,
    tera::Error,
>) {
    let mut ctx = tera::Context::new();
    for (key, value) in context.iter() {
        ctx.insert(key.as_str(), value);
    }
    engine.render(id, &ctx)
}

/// A rendered vector file and the path it is written to.
#[derive(Clone, Debug)]
pub struct RenderedSvg {
    pub path: String,
    pub content: String,
}

/// Why a job produced no vector file.
#[derive(Clone, Debug)]
pub enum RenderError {
    /// Neither template file of the job exists; the job is skipped.
    TemplateMissing { template: String },
    /// The template engine failed on the template; the run is aborted.
    Template { template: String },
}

impl RenderError {
    /// Whether the run must stop on this error.
    pub fn is_fatal(&self) -> (r: bool)
        ensures
            r == (self is Template),
    {
        match self {
            RenderError::TemplateMissing { .. } => false,
            RenderError::Template { .. } => true,
        }
    }
}

/// What rendering a job gives for a given engine outcome: a job missing its
/// template fails with `TemplateMissing` whatever the outcome; otherwise a
/// rendered text is written to the job's vector path, and an engine failure
/// is `Template`. Both errors name the job's template identifier.
pub fn finish_render(job: &RenderJob, rendered: Option<String>) -> (r: Result<
    RenderedSvg,
    RenderError,
>)
    ensures
        job.template_missing ==> (r matches Err(RenderError::TemplateMissing { template })
            && template@ == template_id_spec(job@)),
        !job.template_missing && rendered is None ==> (r matches Err(
            RenderError::Template { template },
        ) && template@ == template_id_spec(job@)),
        !job.template_missing && rendered is Some ==> (r matches Ok(out) && out.path@
            == svg_path_spec(job@) && out.content@ == rendered->Some_0@),
{
    if job.template_missing {
        return Err(RenderError::TemplateMissing { template: template_id(job) });
    }
    match rendered {
        Some(content) => Ok(RenderedSvg { path: svg_path(job), content: content }),
        None => Err(RenderError::Template { template: template_id(job) }),
    }
}

/// Renders a job with the template engine. A job missing its template is not
/// handed to the engine and fails with `TemplateMissing`; otherwise the
/// engine gets the job's template identifier and context, and its text goes
/// to the job's vector path, or its failure becomes `Template`.
pub fn process_file_common(engine: &tera::Tera, job: &RenderJob) -> (r: Result<
    RenderedSvg,
    RenderError,
>)
    ensures
        job.template_missing ==> (r matches Err(RenderError::TemplateMissing { template })
            && template@ == template_id_spec(job@)),
        !job.template_missing ==> match r {
            Ok(out) => out.path@ == svg_path_spec(job@),
            Err(RenderError::Template { template }) => template@ == template_id_spec(job@),
            Err(RenderError::TemplateMissing { .. }) => false,
        },
{
    if job.template_missing {
        return finish_render(job, None);
    }
    let id = template_id(job);
    let context = build_context(job);
    match tera_render(engine, id.as_str(), &context) {
        Ok(content) => finish_render(job, Some(content)),
        Err(_) => finish_render(job, None),
    }
}

} // verus!
