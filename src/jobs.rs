//! The configuration model and the job expander: every combination of name,
//! polarity and special variant of a configured icon becomes one render job.
use vstd::prelude::*;

use crate::paths::{
    icon_svg_path, join_filename, join_paths, person_svg_path, Polarity,
};
use crate::text::{split_on, split_spec, title_case, uppercase_first_letter, views};

verus! {

/// One configured icon family: a template, the group it belongs to, a
/// comma-separated list of names, a comma-separated list of special variants
/// and the icon directory.
#[derive(Clone, Debug)]
pub struct DescriptionObjects {
    pub template: String,
    pub zug: String,
    pub names: String,
    pub special: String,
    pub dir: String,
}

/// The icon families of every organisation, and whether rasters are built.
#[derive(Clone, Debug)]
pub struct Config {
    pub enable_png: bool,
    pub thw: Vec<DescriptionObjects>,
    pub fw: Vec<DescriptionObjects>,
    pub zoll: Vec<DescriptionObjects>,
    pub rettung: Vec<DescriptionObjects>,
    pub pol: Vec<DescriptionObjects>,
    pub bw: Vec<DescriptionObjects>,
    pub kats: Vec<DescriptionObjects>,
    pub alle: Vec<DescriptionObjects>,
}

/// One configured person entry: comma-separated labels and values rendered
/// with one template.
#[derive(Clone, Debug)]
pub struct Person {
    pub volunteer: String,
    pub organisation: String,
    pub zug: String,
    pub template: String,
    pub value: String,
}

/// The person entries, used only when `enabled` holds.
#[derive(Clone, Debug)]
pub struct VolunteerConfig {
    pub enabled: bool,
    pub personen: Option<Vec<Person>>,
}

/// Which path grammar a job follows.
#[derive(PartialEq, Eq, Structural, Clone, Copy, Debug)]
pub enum JobKind {
    Icon,
    Person,
}

/// One unit of template rendering.
#[derive(Clone, Debug)]
pub struct RenderJob {
    pub kind: JobKind,
    pub organisation: String,
    pub group: String,
    pub directory: String,
    pub template_name: String,
    pub display_name: String,
    pub special: String,
    pub polarity: Polarity,
    pub extra_label: String,
    pub template_missing: bool,
}

/// The value of a render job, with its strings as character sequences.
pub struct JobView {
    pub kind: JobKind,
    pub organisation: Seq<char>,
    pub group: Seq<char>,
    pub directory: Seq<char>,
    pub template_name: Seq<char>,
    pub display_name: Seq<char>,
    pub special: Seq<char>,
    pub polarity: Polarity,
    pub extra_label: Seq<char>,
    pub template_missing: bool,
}

impl View for RenderJob {
    type V = JobView;

    open spec fn view(&self) -> JobView {
        JobView {
            kind: self.kind,
            organisation: self.organisation@,
            group: self.group@,
            directory: self.directory@,
            template_name: self.template_name@,
            display_name: self.display_name@,
            special: self.special@,
            polarity: self.polarity,
            extra_label: self.extra_label@,
            template_missing: self.template_missing,
        }
    }
}

/// The views of a list of jobs.
pub open spec fn job_views(s: Seq<RenderJob>) -> Seq<JobView> {
    s.map_values(|j: RenderJob| j@)
}

/// The vector output path of a job.
pub open spec fn svg_path_spec(j: JobView) -> Seq<char> {
    match j.kind {
        JobKind::Icon => icon_svg_path(
            j.polarity,
            j.organisation,
            j.group,
            title_case(j.directory),
            j.display_name,
            j.special,
            j.template_name,
        ),
        JobKind::Person => person_svg_path(
            j.polarity,
            j.organisation,
            j.group,
            j.extra_label,
            j.template_name,
            j.display_name,
        ),
    }
}

/// The identifier under which the template of a job is rendered:
/// `{directory}/{template}.template.svg`.
pub open spec fn template_id_spec(j: JobView) -> Seq<char> {
    j.directory + seq!['/'] + j.template_name + ".template.svg"@
}

/// The template file looked up first for an icon family:
/// `icons/{organisation}/{group}/{template}.template.svg`.
pub open spec fn group_template_file(org: Seq<char>, group: Seq<char>, template: Seq<char>) -> Seq<
    char,
> {
    "icons/"@ + org + seq!['/'] + group + seq!['/'] + template + ".template.svg"@
}

/// The template file looked up when the group has none:
/// `icons/{organisation}/{template}.template.svg`.
pub open spec fn org_template_file(org: Seq<char>, template: Seq<char>) -> Seq<char> {
    "icons/"@ + org + seq!['/'] + template + ".template.svg"@
}

/// Whether neither template file of an icon family is among `existing`.
pub open spec fn template_missing_spec(
    org: Seq<char>,
    group: Seq<char>,
    template: Seq<char>,
    existing: Seq<Seq<char>>,
) -> bool {
    !existing.contains(group_template_file(org, group, template)) && !existing.contains(
        org_template_file(org, template),
    )
}

/// The icon job of one name, polarity and special variant.
pub open spec fn icon_job(
    org: Seq<char>,
    d: DescriptionObjects,
    name: Seq<char>,
    polarity: Polarity,
    special: Seq<char>,
    missing: bool,
) -> JobView {
    JobView {
        kind: JobKind::Icon,
        organisation: org,
        group: d.zug@,
        directory: d.dir@,
        template_name: d.template@,
        display_name: name,
        special: special,
        polarity: polarity,
        extra_label: Seq::<char>::empty(),
        template_missing: missing,
    }
}

/// The jobs of one name and polarity: one per special variant.
pub open spec fn icon_jobs_for(
    org: Seq<char>,
    d: DescriptionObjects,
    name: Seq<char>,
    polarity: Polarity,
    specials: Seq<Seq<char>>,
    missing: bool,
) -> Seq<JobView> {
    specials.map_values(|s: Seq<char>| icon_job(org, d, name, polarity, s, missing))
}

/// The jobs of one name: the inverted ones, then the original ones.
pub open spec fn icon_jobs_for_name(
    org: Seq<char>,
    d: DescriptionObjects,
    name: Seq<char>,
    specials: Seq<Seq<char>>,
    missing: bool,
) -> Seq<JobView> {
    icon_jobs_for(org, d, name, Polarity::Inverted, specials, missing) + icon_jobs_for(
        org,
        d,
        name,
        Polarity::Original,
        specials,
        missing,
    )
}

/// The jobs of a list of names, name by name.
pub open spec fn icon_jobs_for_names(
    org: Seq<char>,
    d: DescriptionObjects,
    names: Seq<Seq<char>>,
    specials: Seq<Seq<char>>,
    missing: bool,
) -> Seq<JobView>
    decreases names.len(),
{
    if names.len() == 0 {
        Seq::<JobView>::empty()
    } else {
        icon_jobs_for_names(org, d, names.drop_last(), specials, missing) + icon_jobs_for_name(
            org,
            d,
            names.last(),
            specials,
            missing,
        )
    }
}

/// The jobs of one icon family of organisation `org`.
pub open spec fn description_jobs(
    org: Seq<char>,
    d: DescriptionObjects,
    existing: Seq<Seq<char>>,
) -> Seq<JobView> {
    icon_jobs_for_names(
        org,
        d,
        split_spec(d.names@, ','),
        split_spec(d.special@, ','),
        template_missing_spec(org, d.zug@, d.template@, existing),
    )
}

/// The jobs of a list of icon families of organisation `org`, in order.
pub open spec fn descriptions_jobs(
    org: Seq<char>,
    ds: Seq<DescriptionObjects>,
    existing: Seq<Seq<char>>,
) -> Seq<JobView>
    decreases ds.len(),
{
    if ds.len() == 0 {
        Seq::<JobView>::empty()
    } else {
        descriptions_jobs(org, ds.drop_last(), existing) + description_jobs(
            org,
            ds.last(),
            existing,
        )
    }
}

/// The views of a list of strings.
pub open spec fn string_views(s: Seq<String>) -> Seq<Seq<char>> {
    s.map_values(|x: String| x@)
}

/// Whether `s` is among `v`.
fn contains_string(v: &Vec<String>, s: &String) -> (r: bool)
    ensures
        r == string_views(v@).contains(s@),
{
    let mut i: usize = 0;
    while i < v.len()
        invariant
            i <= v@.len(),
            forall|j: int| 0 <= j < i ==> v@[j]@ != s@,
        decreases v@.len() - i,
    {
        if v[i] == *s {
            assert(string_views(v@)[i as int] == s@);
            return true;
        }
        i = i + 1;
    }
    proof {
        if string_views(v@).contains(s@) {
            let j = choose|j: int| 0 <= j < string_views(v@).len() && string_views(v@)[j] == s@;
            assert(v@[j]@ == s@);
        }
    }
    false
}

/// The two template files of an icon family, in the order they are looked up.
pub fn template_candidates(organisation: &str, group: &str, template: &str) -> (r: (
    String,
    String,
))
    ensures
        r.0@ == group_template_file(organisation@, group@, template@),
        r.1@ == org_template_file(organisation@, template@),
{
    let mut first = String::from_str("icons/");
    first.append(organisation);
    first.append("/");
    first.append(group);
    first.append("/");
    first.append(template);
    first.append(".template.svg");
    let mut second = String::from_str("icons/");
    second.append(organisation);
    second.append("/");
    second.append(template);
    second.append(".template.svg");
    proof {
        reveal_strlit("/");
        assert(first@ =~= group_template_file(organisation@, group@, template@));
        assert(second@ =~= org_template_file(organisation@, template@));
    }
    (first, second)
}

/// Whether neither template file of an icon family is among the existing
/// template files.
pub fn is_template_missing(
    organisation: &str,
    group: &str,
    template: &str,
    existing: &Vec<String>,
) -> (r: bool)
    ensures
        r == template_missing_spec(organisation@, group@, template@, string_views(existing@)),
{
    let (first, second) = template_candidates(organisation, group, template);
    if contains_string(existing, &first) {
        false
    } else {
        !contains_string(existing, &second)
    }
}

/// Appends the jobs of one name and polarity, one per special variant.
fn push_icon_jobs(
    out: &mut Vec<RenderJob>,
    org: &str,
    d: &DescriptionObjects,
    name: &str,
    polarity: Polarity,
    specials: &Vec<&str>,
    missing: bool,
)
    ensures
        job_views(final(out)@) == job_views(old(out)@) + icon_jobs_for(
            org@,
            *d,
            name@,
            polarity,
            views(specials@),
            missing,
        ),
{
    let ghost start = job_views(out@);
    let mut k: usize = 0;
    proof {
        assert(icon_jobs_for(org@, *d, name@, polarity, views(specials@).take(0), missing)
            =~= Seq::<JobView>::empty());
        assert(start + Seq::<JobView>::empty() =~= start);
    }
    while k < specials.len()
        invariant
            start == job_views(old(out)@),
            k <= specials@.len(),
            job_views(out@) == start + icon_jobs_for(
                org@,
                *d,
                name@,
                polarity,
                views(specials@).take(k as int),
                missing,
            ),
        decreases specials@.len() - k,
    {
        let job = RenderJob {
            kind: JobKind::Icon,
            organisation: String::from_str(org),
            group: d.zug.clone(),
            directory: d.dir.clone(),
            template_name: d.template.clone(),
            display_name: String::from_str(name),
            special: String::from_str(specials[k]),
            polarity: polarity,
            extra_label: String::new(),
            template_missing: missing,
        };
        let ghost before = out@;
        out.push(job);
        proof {
            assert(job@ == icon_job(org@, *d, name@, polarity, views(specials@)[k as int], missing));
            assert(job_views(out@) =~= job_views(before).push(job@));
            assert(icon_jobs_for(org@, *d, name@, polarity, views(specials@).take(k + 1), missing)
                =~= icon_jobs_for(
                org@,
                *d,
                name@,
                polarity,
                views(specials@).take(k as int),
                missing,
            ).push(job@));
        }
        k = k + 1;
    }
    proof {
        assert(views(specials@).take(specials@.len() as int) =~= views(specials@));
    }
}

/// The render jobs of a list of icon families of one organisation: for each
/// family, each name, both polarities (inverted first) and each special
/// variant, one job. A family none of whose template files is among
/// `existing` gives jobs marked as missing their template.
pub fn generate_svg_jobs(
    descriptions: &Vec<DescriptionObjects>,
    organisation: &str,
    existing: &Vec<String>,
) -> (r: Vec<RenderJob>)
    ensures
        job_views(r@) == descriptions_jobs(organisation@, descriptions@, string_views(existing@)),
{
    let mut out: Vec<RenderJob> = Vec::new();
    let mut i: usize = 0;
    proof {
        assert(job_views(out@) =~= Seq::<JobView>::empty());
        assert(descriptions@.take(0) =~= Seq::<DescriptionObjects>::empty());
    }
    while i < descriptions.len()
        invariant
            i <= descriptions@.len(),
            job_views(out@) == descriptions_jobs(
                organisation@,
                descriptions@.take(i as int),
                string_views(existing@),
            ),
        decreases descriptions@.len() - i,
    {
        let d = &descriptions[i];
        let missing = is_template_missing(organisation, d.zug.as_str(), d.template.as_str(), existing);
        let names = split_on(d.names.as_str(), ',');
        let specials = split_on(d.special.as_str(), ',');
        let ghost names_v = views(names@);
        let ghost before = job_views(out@);
        let mut n: usize = 0;
        proof {
            assert(names_v.take(0) =~= Seq::<Seq<char>>::empty());
            assert(before + Seq::<JobView>::empty() =~= before);
        }
        while n < names.len()
            invariant
                names_v == views(names@),
                n <= names@.len(),
                job_views(out@) == before + icon_jobs_for_names(
                    organisation@,
                    *d,
                    names_v.take(n as int),
                    views(specials@),
                    missing,
                ),
            decreases names@.len() - n,
        {
            push_icon_jobs(&mut out, organisation, d, names[n], Polarity::Inverted, &specials, missing);
            push_icon_jobs(&mut out, organisation, d, names[n], Polarity::Original, &specials, missing);
            proof {
                assert(names_v.take(n + 1).drop_last() =~= names_v.take(n as int));
            }
            n = n + 1;
        }
        proof {
            assert(names_v.take(names@.len() as int) =~= names_v);
            assert(descriptions@.take(i + 1).drop_last() =~= descriptions@.take(i as int));
        }
        i = i + 1;
    }
    proof {
        assert(descriptions@.take(descriptions@.len() as int) =~= descriptions@);
    }
    out
}

/// The person job of one label, value and polarity.
pub open spec fn person_job(p: Person, label: Seq<char>, value: Seq<char>, polarity: Polarity) -> JobView {
    JobView {
        kind: JobKind::Person,
        organisation: p.organisation@,
        group: p.zug@,
        directory: "personen"@,
        template_name: p.template@,
        display_name: value,
        special: Seq::<char>::empty(),
        polarity: polarity,
        extra_label: label,
        template_missing: false,
    }
}

/// The jobs of one label and polarity: one per value.
pub open spec fn person_jobs_for_label(
    p: Person,
    polarity: Polarity,
    label: Seq<char>,
    values: Seq<Seq<char>>,
) -> Seq<JobView> {
    values.map_values(|v: Seq<char>| person_job(p, label, v, polarity))
}

/// The jobs of one polarity, label by label.
pub open spec fn person_jobs_for_labels(
    p: Person,
    polarity: Polarity,
    labels: Seq<Seq<char>>,
    values: Seq<Seq<char>>,
) -> Seq<JobView>
    decreases labels.len(),
{
    if labels.len() == 0 {
        Seq::<JobView>::empty()
    } else {
        person_jobs_for_labels(p, polarity, labels.drop_last(), values) + person_jobs_for_label(
            p,
            polarity,
            labels.last(),
            values,
        )
    }
}

/// The jobs of one person entry: the inverted ones, then the original ones.
pub open spec fn person_jobs(p: Person) -> Seq<JobView> {
    person_jobs_for_labels(
        p,
        Polarity::Inverted,
        split_spec(p.volunteer@, ','),
        split_spec(p.value@, ','),
    ) + person_jobs_for_labels(
        p,
        Polarity::Original,
        split_spec(p.volunteer@, ','),
        split_spec(p.value@, ','),
    )
}

/// The jobs of a list of person entries, in order.
pub open spec fn persons_jobs(ps: Seq<Person>) -> Seq<JobView>
    decreases ps.len(),
{
    if ps.len() == 0 {
        Seq::<JobView>::empty()
    } else {
        persons_jobs(ps.drop_last()) + person_jobs(ps.last())
    }
}

/// Appends the jobs of one label and polarity, one per value.
fn push_person_jobs(
    out: &mut Vec<RenderJob>,
    p: &Person,
    polarity: Polarity,
    label: &str,
    values: &Vec<&str>,
)
    ensures
        job_views(final(out)@) == job_views(old(out)@) + person_jobs_for_label(
            *p,
            polarity,
            label@,
            views(values@),
        ),
{
    let ghost start = job_views(out@);
    let mut k: usize = 0;
    proof {
        assert(person_jobs_for_label(*p, polarity, label@, views(values@).take(0))
            =~= Seq::<JobView>::empty());
        assert(start + Seq::<JobView>::empty() =~= start);
    }
    while k < values.len()
        invariant
            start == job_views(old(out)@),
            k <= values@.len(),
            job_views(out@) == start + person_jobs_for_label(
                *p,
                polarity,
                label@,
                views(values@).take(k as int),
            ),
        decreases values@.len() - k,
    {
        let job = RenderJob {
            kind: JobKind::Person,
            organisation: p.organisation.clone(),
            group: p.zug.clone(),
            directory: String::from_str("personen"),
            template_name: p.template.clone(),
            display_name: String::from_str(values[k]),
            special: String::new(),
            polarity: polarity,
            extra_label: String::from_str(label),
            template_missing: false,
        };
        let ghost before = out@;
        out.push(job);
        proof {
            assert(job@ == person_job(*p, label@, views(values@)[k as int], polarity));
            assert(job_views(out@) =~= job_views(before).push(job@));
            assert(person_jobs_for_label(*p, polarity, label@, views(values@).take(k + 1))
                =~= person_jobs_for_label(*p, polarity, label@, views(values@).take(k as int)).push(
                job@,
            ));
        }
        k = k + 1;
    }
    proof {
        assert(views(values@).take(values@.len() as int) =~= views(values@));
    }
}

/// Appends the jobs of one polarity of a person entry, label by label.
fn push_person_labels(
    out: &mut Vec<RenderJob>,
    p: &Person,
    polarity: Polarity,
    labels: &Vec<&str>,
    values: &Vec<&str>,
)
    ensures
        job_views(final(out)@) == job_views(old(out)@) + person_jobs_for_labels(
            *p,
            polarity,
            views(labels@),
            views(values@),
        ),
{
    let ghost start = job_views(out@);
    let mut k: usize = 0;
    proof {
        assert(views(labels@).take(0) =~= Seq::<Seq<char>>::empty());
        assert(start + Seq::<JobView>::empty() =~= start);
    }
    while k < labels.len()
        invariant
            start == job_views(old(out)@),
            k <= labels@.len(),
            job_views(out@) == start + person_jobs_for_labels(
                *p,
                polarity,
                views(labels@).take(k as int),
                views(values@),
            ),
        decreases labels@.len() - k,
    {
        push_person_jobs(out, p, polarity, labels[k], values);
        proof {
            assert(views(labels@).take(k + 1).drop_last() =~= views(labels@).take(k as int));
        }
        k = k + 1;
    }
    proof {
        assert(views(labels@).take(labels@.len() as int) =~= views(labels@));
    }
}

/// The render jobs of the person entries: for each entry, both polarities
/// (inverted first), each comma-separated label and each comma-separated
/// value, one job in the `personen` directory.
pub fn copy_volunteer(volunteer: &Vec<Person>) -> (r: Vec<RenderJob>)
    ensures
        job_views(r@) == persons_jobs(volunteer@),
{
    let mut out: Vec<RenderJob> = Vec::new();
    let mut i: usize = 0;
    proof {
        assert(job_views(out@) =~= Seq::<JobView>::empty());
        assert(volunteer@.take(0) =~= Seq::<Person>::empty());
    }
    while i < volunteer.len()
        invariant
            i <= volunteer@.len(),
            job_views(out@) == persons_jobs(volunteer@.take(i as int)),
        decreases volunteer@.len() - i,
    {
        let p = &volunteer[i];
        let labels = split_on(p.volunteer.as_str(), ',');
        let values = split_on(p.value.as_str(), ',');
        push_person_labels(&mut out, p, Polarity::Inverted, &labels, &values);
        push_person_labels(&mut out, p, Polarity::Original, &labels, &values);
        proof {
            assert(volunteer@.take(i + 1).drop_last() =~= volunteer@.take(i as int));
        }
        i = i + 1;
    }
    proof {
        assert(volunteer@.take(volunteer@.len() as int) =~= volunteer@);
    }
    out
}

/// The jobs of every organisation's icon families, in the order THW, FW,
/// POL, Zoll, BW, Rettung, KatS, Alle.
pub open spec fn config_jobs(cfg: Config, existing: Seq<Seq<char>>) -> Seq<JobView> {
    descriptions_jobs("THW"@, cfg.thw@, existing) + descriptions_jobs("FW"@, cfg.fw@, existing)
        + descriptions_jobs("POL"@, cfg.pol@, existing) + descriptions_jobs(
        "Zoll"@,
        cfg.zoll@,
        existing,
    ) + descriptions_jobs("BW"@, cfg.bw@, existing) + descriptions_jobs(
        "Rettung"@,
        cfg.rettung@,
        existing,
    ) + descriptions_jobs("KatS"@, cfg.kats@, existing) + descriptions_jobs(
        "Alle"@,
        cfg.alle@,
        existing,
    )
}

/// The jobs of the person entries, when they are enabled.
pub open spec fn volunteer_config_jobs(v: VolunteerConfig) -> Seq<JobView> {
    if v.enabled {
        match v.personen {
            Some(ps) => persons_jobs(ps@),
            None => Seq::<JobView>::empty(),
        }
    } else {
        Seq::<JobView>::empty()
    }
}

/// All jobs of a configuration: the icon jobs, then the person jobs.
pub open spec fn expand_spec(cfg: Config, v: VolunteerConfig, existing: Seq<Seq<char>>) -> Seq<
    JobView,
> {
    config_jobs(cfg, existing) + volunteer_config_jobs(v)
}

/// Moves the jobs of `more` to the end of `out`.
fn append_jobs(out: &mut Vec<RenderJob>, more: Vec<RenderJob>)
    ensures
        job_views(final(out)@) == job_views(old(out)@) + job_views(more@),
{
    let mut more = more;
    let ghost a = out@;
    let ghost b = more@;
    out.append(&mut more);
    assert(job_views(a + b) =~= job_views(a) + job_views(b));
}

/// Every render job of a configuration: the icon jobs of each organisation,
/// then the person jobs when they are enabled. `existing` lists the template
/// files that exist.
pub fn expand_jobs(cfg: &Config, volunteers: &VolunteerConfig, existing: &Vec<String>) -> (r: Vec<
    RenderJob,
>)
    ensures
        job_views(r@) == expand_spec(*cfg, *volunteers, string_views(existing@)),
{
    let mut out: Vec<RenderJob> = Vec::new();
    proof {
        assert(job_views(out@) =~= Seq::<JobView>::empty());
    }
    let ghost e = string_views(existing@);
    append_jobs(&mut out, generate_svg_jobs(&cfg.thw, "THW", existing));
    assert(job_views(out@) =~= descriptions_jobs("THW"@, cfg.thw@, e));
    append_jobs(&mut out, generate_svg_jobs(&cfg.fw, "FW", existing));
    append_jobs(&mut out, generate_svg_jobs(&cfg.pol, "POL", existing));
    append_jobs(&mut out, generate_svg_jobs(&cfg.zoll, "Zoll", existing));
    append_jobs(&mut out, generate_svg_jobs(&cfg.bw, "BW", existing));
    append_jobs(&mut out, generate_svg_jobs(&cfg.rettung, "Rettung", existing));
    append_jobs(&mut out, generate_svg_jobs(&cfg.kats, "KatS", existing));
    append_jobs(&mut out, generate_svg_jobs(&cfg.alle, "Alle", existing));
    assert(job_views(out@) =~= config_jobs(*cfg, e));
    if volunteers.enabled {
        match &volunteers.personen {
            Some(ps) => {
                append_jobs(&mut out, copy_volunteer(ps));
            },
            None => {},
        }
    }
    assert(job_views(out@) =~= expand_spec(*cfg, *volunteers, e));
    out
}

/// The vector output path of a job.
pub fn svg_path(job: &RenderJob) -> (r: String)
    ensures
        r@ == svg_path_spec(job@),
{
    proof {
        reveal_strlit("/");
        reveal_strlit("-");
        reveal_strlit("build/custom/svg/");
    }
    match job.kind {
        JobKind::Icon => {
            let dir = uppercase_first_letter(job.directory.as_str());
            let mut head_parts: Vec<&str> = Vec::new();
            head_parts.push("build");
            head_parts.push(job.polarity.name());
            head_parts.push("svg");
            head_parts.push(job.organisation.as_str());
            head_parts.push(job.group.as_str());
            head_parts.push(dir.as_str());
            let mut name_parts: Vec<&str> = Vec::new();
            name_parts.push(job.display_name.as_str());
            name_parts.push(job.special.as_str());
            name_parts.push(job.template_name.as_str());
            proof {
                assert(views(head_parts@) =~= seq![
                    "build"@,
                    crate::paths::polarity_name(job.polarity),
                    "svg"@,
                    job.organisation@,
                    job.group@,
                    title_case(job.directory@),
                ]);
                assert(views(name_parts@) =~= seq![
                    job.display_name@,
                    job.special@,
                    job.template_name@,
                ]);
            }
            let mut out = join_paths(head_parts);
            out.append(join_filename(name_parts).as_str());
            out.append(".svg");
            out
        },
        JobKind::Person => {
            let mut out = String::from_str("build/custom/svg/");
            out.append(job.polarity.name());
            out.append("/");
            out.append(job.organisation.as_str());
            out.append("/");
            out.append(job.group.as_str());
            out.append("/");
            out.append(job.extra_label.as_str());
            out.append("-");
            out.append(job.template_name.as_str());
            out.append("-");
            out.append(job.display_name.as_str());
            out.append(".svg");
            proof {
                assert(out@ =~= svg_path_spec(job@));
            }
            out
        },
    }
}

/// The identifier of the template a job is rendered with.
pub fn template_id(job: &RenderJob) -> (r: String)
    ensures
        r@ == template_id_spec(job@),
{
    let mut out = job.directory.clone();
    out.append("/");
    out.append(job.template_name.as_str());
    out.append(".template.svg");
    proof {
        reveal_strlit("/");
        assert(out@ =~= template_id_spec(job@));
    }
    out
}

/// The output paths of a list of jobs, in order.
pub open spec fn paths_of(jobs: Seq<JobView>) -> Seq<Seq<char>> {
    jobs.map_values(|j: JobView| svg_path_spec(j))
}

/// The output paths of a list of jobs, in order.
pub fn job_paths(jobs: &Vec<RenderJob>) -> (r: Vec<String>)
    ensures
        string_views(r@) == paths_of(job_views(jobs@)),
{
    let mut out: Vec<String> = Vec::new();
    let mut i: usize = 0;
    while i < jobs.len()
        invariant
            i <= jobs@.len(),
            out@.len() == i,
            forall|k: int| 0 <= k < i ==> out@[k]@ == svg_path_spec(jobs@[k]@),
        decreases jobs@.len() - i,
    {
        out.push(svg_path(&jobs[i]));
        i = i + 1;
    }
    assert(string_views(out@) =~= paths_of(job_views(jobs@)));
    out
}

proof fn lemma_paths_concat(x: Seq<JobView>, y: Seq<JobView>)
    ensures
        paths_of(x + y) == paths_of(x) + paths_of(y),
{
    assert(paths_of(x + y) =~= paths_of(x) + paths_of(y));
}

/// The paths of the jobs of a list of names do not depend on whether the
/// template is missing.
proof fn lemma_names_paths(
    org: Seq<char>,
    d: DescriptionObjects,
    names: Seq<Seq<char>>,
    specials: Seq<Seq<char>>,
    m1: bool,
    m2: bool,
)
    ensures
        paths_of(icon_jobs_for_names(org, d, names, specials, m1)) == paths_of(
            icon_jobs_for_names(org, d, names, specials, m2),
        ),
    decreases names.len(),
{
    if names.len() > 0 {
        lemma_names_paths(org, d, names.drop_last(), specials, m1, m2);
        let n = names.last();
        let i1 = icon_jobs_for(org, d, n, Polarity::Inverted, specials, m1);
        let i2 = icon_jobs_for(org, d, n, Polarity::Inverted, specials, m2);
        let o1 = icon_jobs_for(org, d, n, Polarity::Original, specials, m1);
        let o2 = icon_jobs_for(org, d, n, Polarity::Original, specials, m2);
        assert(paths_of(i1) =~= paths_of(i2));
        assert(paths_of(o1) =~= paths_of(o2));
        lemma_paths_concat(i1, o1);
        lemma_paths_concat(i2, o2);
        lemma_paths_concat(
            icon_jobs_for_names(org, d, names.drop_last(), specials, m1),
            i1 + o1,
        );
        lemma_paths_concat(
            icon_jobs_for_names(org, d, names.drop_last(), specials, m2),
            i2 + o2,
        );
    }
}

/// The paths of the jobs of a list of icon families do not depend on which
/// template files exist.
proof fn lemma_descriptions_paths(
    org: Seq<char>,
    ds: Seq<DescriptionObjects>,
    e1: Seq<Seq<char>>,
    e2: Seq<Seq<char>>,
)
    ensures
        paths_of(descriptions_jobs(org, ds, e1)) == paths_of(descriptions_jobs(org, ds, e2)),
    decreases ds.len(),
{
    if ds.len() > 0 {
        let d = ds.last();
        lemma_descriptions_paths(org, ds.drop_last(), e1, e2);
        lemma_names_paths(
            org,
            d,
            split_spec(d.names@, ','),
            split_spec(d.special@, ','),
            template_missing_spec(org, d.zug@, d.template@, e1),
            template_missing_spec(org, d.zug@, d.template@, e2),
        );
        lemma_paths_concat(descriptions_jobs(org, ds.drop_last(), e1), description_jobs(org, d, e1));
        lemma_paths_concat(descriptions_jobs(org, ds.drop_last(), e2), description_jobs(org, d, e2));
    }
}

/// Path purity: the output paths of the jobs of a configuration, in order,
/// depend on the configuration alone, not on which template files exist; so
/// expanding the same configuration twice gives the same paths.
pub proof fn lemma_path_purity(
    cfg: Config,
    volunteers: VolunteerConfig,
    existing1: Seq<Seq<char>>,
    existing2: Seq<Seq<char>>,
)
    ensures
        paths_of(expand_spec(cfg, volunteers, existing1)) == paths_of(
            expand_spec(cfg, volunteers, existing2),
        ),
{
    let e1 = existing1;
    let e2 = existing2;
    lemma_descriptions_paths("THW"@, cfg.thw@, e1, e2);
    lemma_descriptions_paths("FW"@, cfg.fw@, e1, e2);
    lemma_descriptions_paths("POL"@, cfg.pol@, e1, e2);
    lemma_descriptions_paths("Zoll"@, cfg.zoll@, e1, e2);
    lemma_descriptions_paths("BW"@, cfg.bw@, e1, e2);
    lemma_descriptions_paths("Rettung"@, cfg.rettung@, e1, e2);
    lemma_descriptions_paths("KatS"@, cfg.kats@, e1, e2);
    lemma_descriptions_paths("Alle"@, cfg.alle@, e1, e2);
    let a1 = descriptions_jobs("THW"@, cfg.thw@, e1);
    let a2 = descriptions_jobs("FW"@, cfg.fw@, e1);
    let a3 = descriptions_jobs("POL"@, cfg.pol@, e1);
    let a4 = descriptions_jobs("Zoll"@, cfg.zoll@, e1);
    let a5 = descriptions_jobs("BW"@, cfg.bw@, e1);
    let a6 = descriptions_jobs("Rettung"@, cfg.rettung@, e1);
    let a7 = descriptions_jobs("KatS"@, cfg.kats@, e1);
    let a8 = descriptions_jobs("Alle"@, cfg.alle@, e1);
    let b1 = descriptions_jobs("THW"@, cfg.thw@, e2);
    let b2 = descriptions_jobs("FW"@, cfg.fw@, e2);
    let b3 = descriptions_jobs("POL"@, cfg.pol@, e2);
    let b4 = descriptions_jobs("Zoll"@, cfg.zoll@, e2);
    let b5 = descriptions_jobs("BW"@, cfg.bw@, e2);
    let b6 = descriptions_jobs("Rettung"@, cfg.rettung@, e2);
    let b7 = descriptions_jobs("KatS"@, cfg.kats@, e2);
    let b8 = descriptions_jobs("Alle"@, cfg.alle@, e2);
    let v = volunteer_config_jobs(volunteers);
    let ja = a1 + a2 + a3 + a4 + a5 + a6 + a7 + a8 + v;
    let jb = b1 + b2 + b3 + b4 + b5 + b6 + b7 + b8 + v;
    assert(expand_spec(cfg, volunteers, e1) == ja);
    assert(expand_spec(cfg, volunteers, e2) == jb);
    assert(paths_of(ja) =~= paths_of(a1) + paths_of(a2) + paths_of(a3) + paths_of(a4) + paths_of(a5)
        + paths_of(a6) + paths_of(a7) + paths_of(a8) + paths_of(v));
    assert(paths_of(jb) =~= paths_of(b1) + paths_of(b2) + paths_of(b3) + paths_of(b4) + paths_of(b5)
        + paths_of(b6) + paths_of(b7) + paths_of(b8) + paths_of(v));
}

} // verus!
