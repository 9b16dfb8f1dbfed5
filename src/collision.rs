//! Distinct jobs get distinct output paths: the path grammar can be read
//! back into the fields it was built from.
use vstd::prelude::*;

use crate::jobs::{
    config_jobs, descriptions_jobs, expand_spec, icon_job, icon_jobs_for, icon_jobs_for_name,
    icon_jobs_for_names, person_job, person_jobs, person_jobs_for_label, person_jobs_for_labels,
    persons_jobs, svg_path_spec, template_missing_spec, volunteer_config_jobs, Config,
    DescriptionObjects, JobKind, JobView, Person, VolunteerConfig,
};
use crate::paths::{icon_svg_path, person_svg_path, polarity_name, Polarity};
use crate::text::{has_char, join_nonempty, split_spec, title_case};

verus! {

/// Whether a job's fields can be read back from its output path: no field
/// holds a `/`; the name parts of the file name hold no `-`; and for an icon
/// job, the organisation, group, title-cased directory and template are
/// non-empty, and the name is non-empty unless the special variant is empty.
pub open spec fn path_safe(j: JobView) -> bool {
    &&& !has_char(j.organisation, '/')
    &&& !has_char(j.group, '/')
    &&& !has_char(j.template_name, '/')
    &&& !has_char(j.template_name, '-')
    &&& !has_char(j.display_name, '/')
    &&& !has_char(j.display_name, '-')
    &&& match j.kind {
        JobKind::Icon => {
            &&& j.organisation.len() > 0
            &&& j.group.len() > 0
            &&& title_case(j.directory).len() > 0
            &&& (j.display_name.len() > 0 || j.special.len() == 0)
            &&& j.template_name.len() > 0
            &&& !has_char(j.special, '/')
            &&& !has_char(j.special, '-')
        },
        JobKind::Person => {
            &&& !has_char(j.extra_label, '/')
            &&& !has_char(j.extra_label, '-')
        },
    }
}

/// Whether two jobs agree on every field their output paths are built from.
pub open spec fn same_path_fields(a: JobView, b: JobView) -> bool {
    &&& a.kind == b.kind
    &&& a.polarity == b.polarity
    &&& a.organisation == b.organisation
    &&& a.group == b.group
    &&& a.template_name == b.template_name
    &&& a.display_name == b.display_name
    &&& match a.kind {
        JobKind::Icon => a.special == b.special && title_case(a.directory) == title_case(
            b.directory,
        ),
        JobKind::Person => a.extra_label == b.extra_label,
    }
}

proof fn lemma_has_char_concat(a: Seq<char>, b: Seq<char>, c: char)
    ensures
        has_char(a + b, c) == (has_char(a, c) || has_char(b, c)),
{
    if has_char(a + b, c) {
        let i = choose|i: int| 0 <= i < (a + b).len() && (a + b)[i] == c;
        if i >= a.len() {
            assert(b[i - a.len()] == c);
        }
    }
    if has_char(b, c) {
        let i = choose|i: int| 0 <= i < b.len() && b[i] == c;
        assert((a + b)[a.len() + i] == c);
    }
    if has_char(a, c) {
        let i = choose|i: int| 0 <= i < a.len() && a[i] == c;
        assert((a + b)[i] == c);
    }
}

/// Two strings built as `head`, separator, `rest`, where neither head holds
/// the separator, have the same head and rest.
proof fn lemma_split_left(a1: Seq<char>, r1: Seq<char>, a2: Seq<char>, r2: Seq<char>, c: char)
    requires
        !has_char(a1, c),
        !has_char(a2, c),
        a1 + seq![c] + r1 == a2 + seq![c] + r2,
    ensures
        a1 == a2,
        r1 == r2,
{
    let s = a1 + seq![c] + r1;
    if a1.len() < a2.len() {
        assert(s[a1.len() as int] == c);
        assert((a2 + seq![c] + r2)[a1.len() as int] == a2[a1.len() as int]);
        assert(false);
    }
    if a2.len() < a1.len() {
        assert((a2 + seq![c] + r2)[a2.len() as int] == c);
        assert(s[a2.len() as int] == a1[a2.len() as int]);
        assert(false);
    }
    assert(a1 =~= s.take(a1.len() as int));
    assert(a2 =~= (a2 + seq![c] + r2).take(a2.len() as int));
    assert(r1 =~= s.skip(a1.len() + 1 as int));
    assert(r2 =~= (a2 + seq![c] + r2).skip(a2.len() + 1 as int));
}

/// Two strings built as `rest`, separator, `tail`, where neither tail holds
/// the separator, have the same rest and tail.
proof fn lemma_split_right(r1: Seq<char>, b1: Seq<char>, r2: Seq<char>, b2: Seq<char>, c: char)
    requires
        !has_char(b1, c),
        !has_char(b2, c),
        r1 + seq![c] + b1 == r2 + seq![c] + b2,
    ensures
        r1 == r2,
        b1 == b2,
{
    let s = r1 + seq![c] + b1;
    let t = r2 + seq![c] + b2;
    if b1.len() < b2.len() {
        let k = s.len() - 1 - b1.len();
        assert(s[k] == c);
        assert(t[k] == b2[k - r2.len() - 1]);
        assert(false);
    }
    if b2.len() < b1.len() {
        let k = t.len() - 1 - b2.len();
        assert(t[k] == c);
        assert(s[k] == b1[k - r1.len() - 1]);
        assert(false);
    }
    assert(r1 =~= s.take(r1.len() as int));
    assert(r2 =~= t.take(r2.len() as int));
    assert(b1 =~= s.skip(r1.len() + 1 as int));
    assert(b2 =~= t.skip(r2.len() + 1 as int));
}

proof fn lemma_drop_suffix(a: Seq<char>, b: Seq<char>, s: Seq<char>)
    requires
        a + s == b + s,
    ensures
        a == b,
{
    assert((a + s).len() == a.len() + s.len());
    assert((b + s).len() == b.len() + s.len());
    assert(a.len() == b.len());
    assert forall|i: int| 0 <= i < a.len() implies a[i] == b[i] by {
        assert((a + s)[i] == a[i]);
        assert((b + s)[i] == b[i]);
    }
    assert(a =~= b);
}

proof fn lemma_join_six(
    a: Seq<char>,
    b: Seq<char>,
    c: Seq<char>,
    d: Seq<char>,
    e: Seq<char>,
    f: Seq<char>,
    sep: char,
)
    requires
        a.len() > 0,
        b.len() > 0,
        c.len() > 0,
        d.len() > 0,
        e.len() > 0,
        f.len() > 0,
    ensures
        join_nonempty(seq![a, b, c, d, e, f], sep) == a + seq![sep] + b + seq![sep] + c + seq![sep]
            + d + seq![sep] + e + seq![sep] + f,
{
    let s6 = seq![a, b, c, d, e, f];
    let s5 = seq![a, b, c, d, e];
    let s4 = seq![a, b, c, d];
    let s3 = seq![a, b, c];
    let s2 = seq![a, b];
    let s1 = seq![a];
    assert(s6.drop_last() =~= s5);
    assert(s5.drop_last() =~= s4);
    assert(s4.drop_last() =~= s3);
    assert(s3.drop_last() =~= s2);
    assert(s2.drop_last() =~= s1);
    assert(s1.drop_last() =~= Seq::<Seq<char>>::empty());
    assert(join_nonempty(Seq::<Seq<char>>::empty(), sep) == Seq::<char>::empty());
    assert(s1.last() == a);
    assert(join_nonempty(s1, sep) == a);
    assert(join_nonempty(s2, sep) == a + seq![sep] + b);
    assert(join_nonempty(s3, sep) == a + seq![sep] + b + seq![sep] + c);
    assert(join_nonempty(s4, sep) == a + seq![sep] + b + seq![sep] + c + seq![sep] + d);
    assert(join_nonempty(s5, sep) == a + seq![sep] + b + seq![sep] + c + seq![sep] + d + seq![sep]
        + e);
}

/// The file name part of an icon path, when the template is non-empty and
/// the name is non-empty unless the special variant is empty.
proof fn lemma_join_three(a: Seq<char>, b: Seq<char>, c: Seq<char>, sep: char)
    requires
        a.len() > 0 || b.len() == 0,
        c.len() > 0,
    ensures
        join_nonempty(seq![a, b, c], sep) == if a.len() == 0 {
            c
        } else if b.len() == 0 {
            a + seq![sep] + c
        } else {
            a + seq![sep] + (b + seq![sep] + c)
        },
{
    let s3 = seq![a, b, c];
    let s2 = seq![a, b];
    let s1 = seq![a];
    assert(s3.drop_last() =~= s2);
    assert(s2.drop_last() =~= s1);
    assert(s1.drop_last() =~= Seq::<Seq<char>>::empty());
    assert(join_nonempty(Seq::<Seq<char>>::empty(), sep) == Seq::<char>::empty());
    assert(s1.last() == a);
    assert(join_nonempty(s1, sep) == a);
    if a.len() == 0 {
        assert(join_nonempty(s2, sep) == Seq::<char>::empty());
    } else if b.len() == 0 {
        assert(join_nonempty(s2, sep) == a);
    } else {
        assert(join_nonempty(s2, sep) == a + seq![sep] + b);
        assert(a + seq![sep] + b + seq![sep] + c =~= a + seq![sep] + (b + seq![sep] + c));
    }
}

proof fn lemma_literals()
    ensures
        !has_char("build"@, '/'),
        !has_char("svg"@, '/'),
        !has_char("custom"@, '/'),
        !has_char(".svg"@, '/'),
        !has_char("original"@, '/'),
        !has_char("inverted"@, '/'),
        "original"@ != "inverted"@,
        "original"@ != "custom"@,
        "inverted"@ != "custom"@,
        "build/custom/svg/"@ == "build"@ + seq!['/'] + "custom"@ + seq!['/'] + "svg"@ + seq!['/'],
{
    reveal_strlit("build");
    reveal_strlit("svg");
    reveal_strlit("custom");
    reveal_strlit(".svg");
    reveal_strlit("original");
    reveal_strlit("inverted");
    reveal_strlit("build/custom/svg/");
    assert("original"@[0] != "inverted"@[0]);
    assert("build/custom/svg/"@ =~= "build"@ + seq!['/'] + "custom"@ + seq!['/'] + "svg"@ + seq![
        '/',
    ]);
}

/// An icon path read as `build`, then the rest after the first `/`.
proof fn lemma_icon_shape(j: JobView)
    requires
        path_safe(j),
        j.kind == JobKind::Icon,
    ensures
        svg_path_spec(j) == "build"@ + seq!['/'] + (polarity_name(j.polarity) + seq!['/'] + (
        "svg"@ + seq!['/'] + (j.organisation + seq!['/'] + (j.group + seq!['/'] + (title_case(
            j.directory,
        ) + seq!['/'] + (join_nonempty(seq![j.display_name, j.special, j.template_name], '-')
            + ".svg"@)))))),
{
    lemma_literals();
    reveal_strlit("build");
    reveal_strlit("svg");
    reveal_strlit("original");
    reveal_strlit("inverted");
    let t = title_case(j.directory);
    assert(t.len() > 0);
    lemma_join_six(
        "build"@,
        polarity_name(j.polarity),
        "svg"@,
        j.organisation,
        j.group,
        t,
        '/',
    );
    let f = join_nonempty(seq![j.display_name, j.special, j.template_name], '-');
    assert(svg_path_spec(j) == icon_svg_path(
        j.polarity,
        j.organisation,
        j.group,
        t,
        j.display_name,
        j.special,
        j.template_name,
    ));
    assert(svg_path_spec(j) =~= "build"@ + seq!['/'] + (polarity_name(j.polarity) + seq!['/'] + (
    "svg"@ + seq!['/'] + (j.organisation + seq!['/'] + (j.group + seq!['/'] + (t + seq!['/'] + (f
        + ".svg"@)))))));
}

/// A person path read as `build`, then the rest after the first `/`.
proof fn lemma_person_shape(j: JobView)
    requires
        j.kind == JobKind::Person,
    ensures
        svg_path_spec(j) == "build"@ + seq!['/'] + ("custom"@ + seq!['/'] + ("svg"@ + seq!['/'] + (
        polarity_name(j.polarity) + seq!['/'] + (j.organisation + seq!['/'] + (j.group + seq!['/']
            + (j.extra_label + seq!['-'] + (j.template_name + seq!['-'] + (j.display_name
            + ".svg"@)))))))),
{
    lemma_literals();
    assert(svg_path_spec(j) =~= "build"@ + seq!['/'] + ("custom"@ + seq!['/'] + ("svg"@ + seq![
        '/',
    ] + (polarity_name(j.polarity) + seq!['/'] + (j.organisation + seq!['/'] + (j.group + seq![
        '/',
    ] + (j.extra_label + seq!['-'] + (j.template_name + seq!['-'] + (j.display_name
        + ".svg"@)))))))));
}

proof fn lemma_polarity_name_injective(a: JobView, b: JobView)
    requires
        polarity_name(a.polarity) == polarity_name(b.polarity),
    ensures
        a.polarity == b.polarity,
{
    lemma_literals();
}

/// When one of two icon jobs with the same file name has an empty name, so
/// does the other, and their templates agree.
proof fn lemma_no_dash_file_name(a: JobView, b: JobView)
    requires
        path_safe(a),
        path_safe(b),
        a.kind == JobKind::Icon,
        b.kind == JobKind::Icon,
        a.display_name.len() == 0,
        join_nonempty(seq![a.display_name, a.special, a.template_name], '-') == join_nonempty(
            seq![b.display_name, b.special, b.template_name],
            '-',
        ),
    ensures
        b.display_name.len() == 0,
        a.special == b.special,
        a.template_name == b.template_name,
{
    lemma_join_three(a.display_name, a.special, a.template_name, '-');
    lemma_join_three(b.display_name, b.special, b.template_name, '-');
    if b.display_name.len() > 0 {
        let fb = join_nonempty(seq![b.display_name, b.special, b.template_name], '-');
        assert(fb[b.display_name.len() as int] == '-');
        assert(has_char(a.template_name, '-'));
        assert(false);
    }
    assert(a.special.len() == 0);
}

/// Collision freedom: two jobs whose fields can be read back from their
/// paths and that have the same output path agree on every field the path is
/// built from. Icon jobs whose directories differ only in the case of the
/// first letter do share a path.
pub proof fn lemma_collision_freedom(a: JobView, b: JobView)
    requires
        path_safe(a),
        path_safe(b),
        svg_path_spec(a) == svg_path_spec(b),
    ensures
        same_path_fields(a, b),
{
    lemma_literals();
    let pa = polarity_name(a.polarity);
    let pb = polarity_name(b.polarity);
    reveal_strlit("original");
    reveal_strlit("inverted");
    assert(!has_char(pa, '/'));
    assert(!has_char(pb, '/'));
    match (a.kind, b.kind) {
        (JobKind::Icon, JobKind::Icon) => {
            lemma_icon_shape(a);
            lemma_icon_shape(b);
            let fa = join_nonempty(seq![a.display_name, a.special, a.template_name], '-');
            let fb = join_nonempty(seq![b.display_name, b.special, b.template_name], '-');
            let ta = title_case(a.directory);
            let tb = title_case(b.directory);
            let ra1 = pa + seq!['/'] + ("svg"@ + seq!['/'] + (a.organisation + seq!['/'] + (a.group
                + seq!['/'] + (ta + seq!['/'] + (fa + ".svg"@)))));
            let rb1 = pb + seq!['/'] + ("svg"@ + seq!['/'] + (b.organisation + seq!['/'] + (b.group
                + seq!['/'] + (tb + seq!['/'] + (fb + ".svg"@)))));
            lemma_split_left("build"@, ra1, "build"@, rb1, '/');
            let ra2 = "svg"@ + seq!['/'] + (a.organisation + seq!['/'] + (a.group + seq!['/'] + (ta
                + seq!['/'] + (fa + ".svg"@))));
            let rb2 = "svg"@ + seq!['/'] + (b.organisation + seq!['/'] + (b.group + seq!['/'] + (tb
                + seq!['/'] + (fb + ".svg"@))));
            lemma_split_left(pa, ra2, pb, rb2, '/');
            lemma_polarity_name_injective(a, b);
            let ra3 = a.organisation + seq!['/'] + (a.group + seq!['/'] + (ta + seq!['/'] + (fa
                + ".svg"@)));
            let rb3 = b.organisation + seq!['/'] + (b.group + seq!['/'] + (tb + seq!['/'] + (fb
                + ".svg"@)));
            lemma_split_left("svg"@, ra3, "svg"@, rb3, '/');
            let ra4 = a.group + seq!['/'] + (ta + seq!['/'] + (fa + ".svg"@));
            let rb4 = b.group + seq!['/'] + (tb + seq!['/'] + (fb + ".svg"@));
            lemma_split_left(a.organisation, ra4, b.organisation, rb4, '/');
            let ra5 = ta + seq!['/'] + (fa + ".svg"@);
            let rb5 = tb + seq!['/'] + (fb + ".svg"@);
            lemma_split_left(a.group, ra5, b.group, rb5, '/');
            lemma_join_three(a.display_name, a.special, a.template_name, '-');
            lemma_join_three(b.display_name, b.special, b.template_name, '-');
            lemma_has_char_concat(a.display_name, seq!['-'], '/');
            lemma_has_char_concat(b.display_name, seq!['-'], '/');
            lemma_has_char_concat(a.special, seq!['-'], '/');
            lemma_has_char_concat(b.special, seq!['-'], '/');
            lemma_has_char_concat(a.special + seq!['-'], a.template_name, '/');
            lemma_has_char_concat(b.special + seq!['-'], b.template_name, '/');
            lemma_has_char_concat(a.display_name + seq!['-'], a.template_name, '/');
            lemma_has_char_concat(b.display_name + seq!['-'], b.template_name, '/');
            lemma_has_char_concat(
                a.display_name + seq!['-'],
                a.special + seq!['-'] + a.template_name,
                '/',
            );
            lemma_has_char_concat(
                b.display_name + seq!['-'],
                b.special + seq!['-'] + b.template_name,
                '/',
            );
            assert(!has_char(fa, '/'));
            assert(!has_char(fb, '/'));
            lemma_has_char_concat(fa, ".svg"@, '/');
            lemma_has_char_concat(fb, ".svg"@, '/');
            lemma_split_right(ta, fa + ".svg"@, tb, fb + ".svg"@, '/');
            lemma_drop_suffix(fa, fb, ".svg"@);
            if a.display_name.len() == 0 {
                lemma_no_dash_file_name(a, b);
            } else if b.display_name.len() == 0 {
                lemma_no_dash_file_name(b, a);
            } else {
                let qa = if a.special.len() == 0 {
                    a.template_name
                } else {
                    a.special + seq!['-'] + a.template_name
                };
                let qb = if b.special.len() == 0 {
                    b.template_name
                } else {
                    b.special + seq!['-'] + b.template_name
                };
                assert(a.display_name + seq!['-'] + qa == b.display_name + seq!['-'] + qb);
                lemma_split_left(a.display_name, qa, b.display_name, qb, '-');
                if a.special.len() == 0 && b.special.len() > 0 {
                    lemma_has_char_concat(b.special, seq!['-'], '-');
                    lemma_has_char_concat(b.special + seq!['-'], b.template_name, '-');
                    assert((b.special + seq!['-'])[b.special.len() as int] == '-');
                    assert(false);
                }
                if b.special.len() == 0 && a.special.len() > 0 {
                    lemma_has_char_concat(a.special, seq!['-'], '-');
                    lemma_has_char_concat(a.special + seq!['-'], a.template_name, '-');
                    assert((a.special + seq!['-'])[a.special.len() as int] == '-');
                    assert(false);
                }
                if a.special.len() > 0 && b.special.len() > 0 {
                    lemma_split_left(a.special, a.template_name, b.special, b.template_name, '-');
                }
            }
            assert(a.polarity == b.polarity);
            assert(a.organisation == b.organisation);
            assert(a.group == b.group);
            assert(a.display_name == b.display_name);
            assert(a.special == b.special);
            assert(a.template_name == b.template_name);
            assert(title_case(a.directory) == title_case(b.directory));
        },
        (JobKind::Person, JobKind::Person) => {
            lemma_person_shape(a);
            lemma_person_shape(b);
            let ra6 = a.extra_label + seq!['-'] + (a.template_name + seq!['-'] + (a.display_name
                + ".svg"@));
            let rb6 = b.extra_label + seq!['-'] + (b.template_name + seq!['-'] + (b.display_name
                + ".svg"@));
            let ra5 = a.group + seq!['/'] + ra6;
            let rb5 = b.group + seq!['/'] + rb6;
            let ra4 = a.organisation + seq!['/'] + ra5;
            let rb4 = b.organisation + seq!['/'] + rb5;
            let ra3 = pa + seq!['/'] + ra4;
            let rb3 = pb + seq!['/'] + rb4;
            let ra2 = "svg"@ + seq!['/'] + ra3;
            let rb2 = "svg"@ + seq!['/'] + rb3;
            let ra1 = "custom"@ + seq!['/'] + ra2;
            let rb1 = "custom"@ + seq!['/'] + rb2;
            lemma_split_left("build"@, ra1, "build"@, rb1, '/');
            lemma_split_left("custom"@, ra2, "custom"@, rb2, '/');
            lemma_split_left("svg"@, ra3, "svg"@, rb3, '/');
            lemma_split_left(pa, ra4, pb, rb4, '/');
            lemma_polarity_name_injective(a, b);
            lemma_split_left(a.organisation, ra5, b.organisation, rb5, '/');
            lemma_split_left(a.group, ra6, b.group, rb6, '/');
            let ra7 = a.template_name + seq!['-'] + (a.display_name + ".svg"@);
            let rb7 = b.template_name + seq!['-'] + (b.display_name + ".svg"@);
            lemma_split_left(a.extra_label, ra7, b.extra_label, rb7, '-');
            lemma_split_left(
                a.template_name,
                a.display_name + ".svg"@,
                b.template_name,
                b.display_name + ".svg"@,
                '-',
            );
            lemma_drop_suffix(a.display_name, b.display_name, ".svg"@);
            assert(a.polarity == b.polarity);
            assert(a.extra_label == b.extra_label);
        },
        (JobKind::Icon, JobKind::Person) => {
            lemma_icon_shape(a);
            lemma_person_shape(b);
            let ra1 = pa + seq!['/'] + ("svg"@ + seq!['/'] + (a.organisation + seq!['/'] + (a.group
                + seq!['/'] + (title_case(a.directory) + seq!['/'] + (join_nonempty(
                seq![a.display_name, a.special, a.template_name],
                '-',
            ) + ".svg"@)))));
            let rb2 = "svg"@ + seq!['/'] + (pb + seq!['/'] + (b.organisation + seq!['/'] + (b.group
                + seq!['/'] + (b.extra_label + seq!['-'] + (b.template_name + seq!['-'] + (
            b.display_name + ".svg"@))))));
            let rb1 = "custom"@ + seq!['/'] + rb2;
            lemma_split_left("build"@, ra1, "build"@, rb1, '/');
            let ra2 = "svg"@ + seq!['/'] + (a.organisation + seq!['/'] + (a.group + seq!['/'] + (
            title_case(a.directory) + seq!['/'] + (join_nonempty(
                seq![a.display_name, a.special, a.template_name],
                '-',
            ) + ".svg"@))));
            lemma_split_left(pa, ra2, "custom"@, rb2, '/');
        },
        (JobKind::Person, JobKind::Icon) => {
            lemma_icon_shape(b);
            lemma_person_shape(a);
            let rb1 = pb + seq!['/'] + ("svg"@ + seq!['/'] + (b.organisation + seq!['/'] + (b.group
                + seq!['/'] + (title_case(b.directory) + seq!['/'] + (join_nonempty(
                seq![b.display_name, b.special, b.template_name],
                '-',
            ) + ".svg"@)))));
            let ra2 = "svg"@ + seq!['/'] + (pa + seq!['/'] + (a.organisation + seq!['/'] + (a.group
                + seq!['/'] + (a.extra_label + seq!['-'] + (a.template_name + seq!['-'] + (
            a.display_name + ".svg"@))))));
            let ra1 = "custom"@ + seq!['/'] + ra2;
            lemma_split_left("build"@, ra1, "build"@, rb1, '/');
            let rb2 = "svg"@ + seq!['/'] + (b.organisation + seq!['/'] + (b.group + seq!['/'] + (
            title_case(b.directory) + seq!['/'] + (join_nonempty(
                seq![b.display_name, b.special, b.template_name],
                '-',
            ) + ".svg"@))));
            lemma_split_left("custom"@, ra2, pb, rb2, '/');
        },
    }
}

/// Whether the jobs of an icon family can be read back from their paths:
/// the group and the title-cased directory are non-empty, the group holds no
/// `/`, the template is non-empty, and the template, every name and every
/// special variant hold no `/` or `-`; a name is empty only when every
/// special variant is.
pub open spec fn safe_description(d: DescriptionObjects) -> bool {
    let names = split_spec(d.names@, ',');
    let specials = split_spec(d.special@, ',');
    &&& d.zug@.len() > 0
    &&& !has_char(d.zug@, '/')
    &&& title_case(d.dir@).len() > 0
    &&& d.template@.len() > 0
    &&& !has_char(d.template@, '/')
    &&& !has_char(d.template@, '-')
    &&& forall|k: int|
        0 <= k < names.len() ==> !has_char(#[trigger] names[k], '/') && !has_char(names[k], '-')
    &&& forall|k: int|
        0 <= k < specials.len() ==> !has_char(#[trigger] specials[k], '/') && !has_char(
            specials[k],
            '-',
        )
    &&& forall|k: int, m: int|
        0 <= k < names.len() && 0 <= m < specials.len() ==> #[trigger] names[k].len() > 0
            || #[trigger] specials[m].len() == 0
}

/// Whether the jobs of a person entry can be read back from their paths:
/// organisation and group hold no `/`, and the template, every label and
/// every value hold no `/` or `-`.
pub open spec fn safe_person(p: Person) -> bool {
    let labels = split_spec(p.volunteer@, ',');
    let values = split_spec(p.value@, ',');
    &&& !has_char(p.organisation@, '/')
    &&& !has_char(p.zug@, '/')
    &&& !has_char(p.template@, '/')
    &&& !has_char(p.template@, '-')
    &&& forall|k: int|
        0 <= k < labels.len() ==> !has_char(#[trigger] labels[k], '/') && !has_char(labels[k], '-')
    &&& forall|k: int|
        0 <= k < values.len() ==> !has_char(#[trigger] values[k], '/') && !has_char(values[k], '-')
}

/// Whether every family of a list is safe.
pub open spec fn safe_descriptions(ds: Seq<DescriptionObjects>) -> bool {
    forall|i: int| 0 <= i < ds.len() ==> safe_description(#[trigger] ds[i])
}

/// Whether the jobs of a configuration can be read back from their paths.
pub open spec fn safe_config(cfg: Config, v: VolunteerConfig) -> bool {
    &&& safe_descriptions(cfg.thw@)
    &&& safe_descriptions(cfg.fw@)
    &&& safe_descriptions(cfg.pol@)
    &&& safe_descriptions(cfg.zoll@)
    &&& safe_descriptions(cfg.bw@)
    &&& safe_descriptions(cfg.rettung@)
    &&& safe_descriptions(cfg.kats@)
    &&& safe_descriptions(cfg.alle@)
    &&& (v.personen matches Some(ps) ==> forall|i: int|
        0 <= i < ps@.len() ==> safe_person(#[trigger] ps@[i]))
}

/// The fields of a job that its path does not show are fixed by its kind:
/// an icon job has no label and is missing its template exactly when
/// neither template file exists; a person job sits in `personen`, has no
/// special variant and never misses its template.
pub open spec fn fixed_by_kind(j: JobView, existing: Seq<Seq<char>>) -> bool {
    match j.kind {
        JobKind::Icon => j.extra_label == Seq::<char>::empty() && j.template_missing
            == template_missing_spec(j.organisation, j.group, j.template_name, existing),
        JobKind::Person => j.directory == "personen"@ && j.special == Seq::<char>::empty()
            && !j.template_missing,
    }
}

proof fn lemma_contains_concat<A>(x: Seq<A>, y: Seq<A>, a: A)
    requires
        (x + y).contains(a),
    ensures
        x.contains(a) || y.contains(a),
{
    let i = choose|i: int| 0 <= i < (x + y).len() && (x + y)[i] == a;
    if i < x.len() {
        assert(x[i] == a);
    } else {
        assert(y[i - x.len()] == a);
    }
}

/// A job of a list of names of an icon family takes one of the names and
/// one of the special variants.
proof fn lemma_names_member(
    org: Seq<char>,
    d: DescriptionObjects,
    names: Seq<Seq<char>>,
    specials: Seq<Seq<char>>,
    missing: bool,
    j: JobView,
)
    requires
        icon_jobs_for_names(org, d, names, specials, missing).contains(j),
    ensures
        exists|k: int, m: int|
            0 <= k < names.len() && 0 <= m < specials.len() && j == icon_job(
                org,
                d,
                names[k],
                j.polarity,
                specials[m],
                missing,
            ),
    decreases names.len(),
{
    if names.len() > 0 {
        let init = icon_jobs_for_names(org, d, names.drop_last(), specials, missing);
        let last = icon_jobs_for_name(org, d, names.last(), specials, missing);
        lemma_contains_concat(init, last, j);
        if init.contains(j) {
            lemma_names_member(org, d, names.drop_last(), specials, missing, j);
            let (k, m) = choose|k: int, m: int|
                0 <= k < names.drop_last().len() && 0 <= m < specials.len() && j == icon_job(
                    org,
                    d,
                    names.drop_last()[k],
                    j.polarity,
                    specials[m],
                    missing,
                );
            assert(names.drop_last()[k] == names[k]);
        } else {
            let inv = icon_jobs_for(org, d, names.last(), Polarity::Inverted, specials, missing);
            let orig = icon_jobs_for(org, d, names.last(), Polarity::Original, specials, missing);
            lemma_contains_concat(inv, orig, j);
            let k = names.len() - 1;
            if inv.contains(j) {
                let m = choose|m: int| 0 <= m < inv.len() && inv[m] == j;
                assert(j == icon_job(org, d, names[k], j.polarity, specials[m], missing));
            } else {
                let m = choose|m: int| 0 <= m < orig.len() && orig[m] == j;
                assert(j == icon_job(org, d, names[k], j.polarity, specials[m], missing));
            }
        }
    }
}

/// Every job of a list of safe icon families of an organisation whose name
/// is non-empty and holds no `/` can be read back from its path.
proof fn lemma_descriptions_safe(
    org: Seq<char>,
    ds: Seq<DescriptionObjects>,
    existing: Seq<Seq<char>>,
    j: JobView,
)
    requires
        descriptions_jobs(org, ds, existing).contains(j),
        safe_descriptions(ds),
        org.len() > 0,
        !has_char(org, '/'),
    ensures
        path_safe(j),
        fixed_by_kind(j, existing),
    decreases ds.len(),
{
    if ds.len() > 0 {
        let init = descriptions_jobs(org, ds.drop_last(), existing);
        let d = ds.last();
        let last = crate::jobs::description_jobs(org, d, existing);
        lemma_contains_concat(init, last, j);
        if init.contains(j) {
            assert forall|i: int| 0 <= i < ds.drop_last().len() implies safe_description(
                #[trigger] ds.drop_last()[i],
            ) by {
                assert(ds.drop_last()[i] == ds[i]);
            }
            lemma_descriptions_safe(org, ds.drop_last(), existing, j);
        } else {
            assert(safe_description(ds[ds.len() - 1]));
            let names = split_spec(d.names@, ',');
            let specials = split_spec(d.special@, ',');
            let missing = template_missing_spec(org, d.zug@, d.template@, existing);
            lemma_names_member(org, d, names, specials, missing, j);
            let (k, m) = choose|k: int, m: int|
                0 <= k < names.len() && 0 <= m < specials.len() && j == icon_job(
                    org,
                    d,
                    names[k],
                    j.polarity,
                    specials[m],
                    missing,
                );
            assert(!has_char(names[k], '/'));
            assert(!has_char(specials[m], '/'));
            assert(names[k].len() > 0 || specials[m].len() == 0);
        }
    }
}

/// A job of one polarity of a person entry takes one of the labels and one
/// of the values.
proof fn lemma_labels_member(
    p: Person,
    polarity: Polarity,
    labels: Seq<Seq<char>>,
    values: Seq<Seq<char>>,
    j: JobView,
)
    requires
        person_jobs_for_labels(p, polarity, labels, values).contains(j),
    ensures
        exists|k: int, m: int|
            0 <= k < labels.len() && 0 <= m < values.len() && j == person_job(
                p,
                labels[k],
                values[m],
                polarity,
            ),
    decreases labels.len(),
{
    if labels.len() > 0 {
        let init = person_jobs_for_labels(p, polarity, labels.drop_last(), values);
        let last = person_jobs_for_label(p, polarity, labels.last(), values);
        lemma_contains_concat(init, last, j);
        if init.contains(j) {
            lemma_labels_member(p, polarity, labels.drop_last(), values, j);
            let (k, m) = choose|k: int, m: int|
                0 <= k < labels.drop_last().len() && 0 <= m < values.len() && j == person_job(
                    p,
                    labels.drop_last()[k],
                    values[m],
                    polarity,
                );
            assert(labels.drop_last()[k] == labels[k]);
        } else {
            let m = choose|m: int| 0 <= m < last.len() && last[m] == j;
            assert(j == person_job(p, labels[labels.len() - 1], values[m], polarity));
        }
    }
}

/// Every job of a list of safe person entries can be read back from its
/// path.
proof fn lemma_persons_safe(ps: Seq<Person>, existing: Seq<Seq<char>>, j: JobView)
    requires
        persons_jobs(ps).contains(j),
        forall|i: int| 0 <= i < ps.len() ==> safe_person(#[trigger] ps[i]),
    ensures
        path_safe(j),
        fixed_by_kind(j, existing),
    decreases ps.len(),
{
    if ps.len() > 0 {
        let init = persons_jobs(ps.drop_last());
        let p = ps.last();
        lemma_contains_concat(init, person_jobs(p), j);
        if init.contains(j) {
            assert forall|i: int| 0 <= i < ps.drop_last().len() implies safe_person(
                #[trigger] ps.drop_last()[i],
            ) by {
                assert(ps.drop_last()[i] == ps[i]);
            }
            lemma_persons_safe(ps.drop_last(), existing, j);
        } else {
            assert(safe_person(ps[ps.len() - 1]));
            let labels = split_spec(p.volunteer@, ',');
            let values = split_spec(p.value@, ',');
            let inv = person_jobs_for_labels(p, Polarity::Inverted, labels, values);
            let orig = person_jobs_for_labels(p, Polarity::Original, labels, values);
            lemma_contains_concat(inv, orig, j);
            let pol = if inv.contains(j) {
                Polarity::Inverted
            } else {
                Polarity::Original
            };
            lemma_labels_member(p, pol, labels, values, j);
            let (k, m) = choose|k: int, m: int|
                0 <= k < labels.len() && 0 <= m < values.len() && j == person_job(
                    p,
                    labels[k],
                    values[m],
                    pol,
                );
            assert(!has_char(labels[k], '/'));
            assert(!has_char(values[m], '/'));
        }
    }
}

proof fn lemma_org_literals()
    ensures
        "THW"@.len() > 0 && !has_char("THW"@, '/'),
        "FW"@.len() > 0 && !has_char("FW"@, '/'),
        "POL"@.len() > 0 && !has_char("POL"@, '/'),
        "Zoll"@.len() > 0 && !has_char("Zoll"@, '/'),
        "BW"@.len() > 0 && !has_char("BW"@, '/'),
        "Rettung"@.len() > 0 && !has_char("Rettung"@, '/'),
        "KatS"@.len() > 0 && !has_char("KatS"@, '/'),
        "Alle"@.len() > 0 && !has_char("Alle"@, '/'),
{
    reveal_strlit("THW");
    reveal_strlit("FW");
    reveal_strlit("POL");
    reveal_strlit("Zoll");
    reveal_strlit("BW");
    reveal_strlit("Rettung");
    reveal_strlit("KatS");
    reveal_strlit("Alle");
}

/// Every job of a safe configuration can be read back from its path.
proof fn lemma_expansion_safe(cfg: Config, v: VolunteerConfig, existing: Seq<Seq<char>>, j: JobView)
    requires
        expand_spec(cfg, v, existing).contains(j),
        safe_config(cfg, v),
    ensures
        path_safe(j),
        fixed_by_kind(j, existing),
{
    lemma_org_literals();
    let e = existing;
    let a1 = descriptions_jobs("THW"@, cfg.thw@, e);
    let a2 = descriptions_jobs("FW"@, cfg.fw@, e);
    let a3 = descriptions_jobs("POL"@, cfg.pol@, e);
    let a4 = descriptions_jobs("Zoll"@, cfg.zoll@, e);
    let a5 = descriptions_jobs("BW"@, cfg.bw@, e);
    let a6 = descriptions_jobs("Rettung"@, cfg.rettung@, e);
    let a7 = descriptions_jobs("KatS"@, cfg.kats@, e);
    let a8 = descriptions_jobs("Alle"@, cfg.alle@, e);
    let c7 = a1 + a2 + a3 + a4 + a5 + a6 + a7;
    let c6 = a1 + a2 + a3 + a4 + a5 + a6;
    let c5 = a1 + a2 + a3 + a4 + a5;
    let c4 = a1 + a2 + a3 + a4;
    let c3 = a1 + a2 + a3;
    let c2 = a1 + a2;
    assert(config_jobs(cfg, e) == c7 + a8);
    lemma_contains_concat(config_jobs(cfg, e), volunteer_config_jobs(v), j);
    if volunteer_config_jobs(v).contains(j) {
        let ps = v.personen->Some_0;
        lemma_persons_safe(ps@, e, j);
        return;
    }
    lemma_contains_concat(c7, a8, j);
    if a8.contains(j) {
        lemma_descriptions_safe("Alle"@, cfg.alle@, e, j);
        return;
    }
    lemma_contains_concat(c6, a7, j);
    if a7.contains(j) {
        lemma_descriptions_safe("KatS"@, cfg.kats@, e, j);
        return;
    }
    lemma_contains_concat(c5, a6, j);
    if a6.contains(j) {
        lemma_descriptions_safe("Rettung"@, cfg.rettung@, e, j);
        return;
    }
    lemma_contains_concat(c4, a5, j);
    if a5.contains(j) {
        lemma_descriptions_safe("BW"@, cfg.bw@, e, j);
        return;
    }
    lemma_contains_concat(c3, a4, j);
    if a4.contains(j) {
        lemma_descriptions_safe("Zoll"@, cfg.zoll@, e, j);
        return;
    }
    lemma_contains_concat(c2, a3, j);
    if a3.contains(j) {
        lemma_descriptions_safe("POL"@, cfg.pol@, e, j);
        return;
    }
    lemma_contains_concat(a1, a2, j);
    if a2.contains(j) {
        lemma_descriptions_safe("FW"@, cfg.fw@, e, j);
        return;
    }
    lemma_descriptions_safe("THW"@, cfg.thw@, e, j);
}

/// Collision freedom of the expander: two jobs of one expansion of a safe
/// configuration that share an output path are the same job, unless they
/// are icon jobs whose directories differ only in the case of the first
/// letter (such as `foo` and `Foo`).
pub proof fn lemma_expansion_collision_free(
    cfg: Config,
    v: VolunteerConfig,
    existing: Seq<Seq<char>>,
    i: int,
    k: int,
)
    requires
        safe_config(cfg, v),
        0 <= i < expand_spec(cfg, v, existing).len(),
        0 <= k < expand_spec(cfg, v, existing).len(),
        svg_path_spec(expand_spec(cfg, v, existing)[i]) == svg_path_spec(
            expand_spec(cfg, v, existing)[k],
        ),
    ensures
        ({
            let a = expand_spec(cfg, v, existing)[i];
            let b = expand_spec(cfg, v, existing)[k];
            a == b || (a.directory != b.directory && title_case(a.directory) == title_case(
                b.directory,
            ))
        }),
{
    let jobs = expand_spec(cfg, v, existing);
    let a = jobs[i];
    let b = jobs[k];
    assert(jobs.contains(a));
    assert(jobs.contains(b));
    lemma_expansion_safe(cfg, v, existing, a);
    lemma_expansion_safe(cfg, v, existing, b);
    lemma_collision_freedom(a, b);
    if a.directory == b.directory {
        assert(a == b);
    }
}

/// Every icon path lies under `build/{polarity}/svg/{organisation}/` and
/// every person path under `build/custom/svg/{polarity}/`, so icon and
/// person jobs never share a path, nor do jobs of different polarity.
pub proof fn lemma_path_prefixes(j: JobView)
    requires
        path_safe(j),
    ensures
        j.kind == JobKind::Icon ==> {
            let prefix = "build/"@ + polarity_name(j.polarity) + "/svg/"@ + j.organisation + seq!['/'];
            &&& prefix.len() <= svg_path_spec(j).len()
            &&& svg_path_spec(j).take(prefix.len() as int) == prefix
        },
        j.kind == JobKind::Person ==> {
            let prefix = "build/custom/svg/"@ + polarity_name(j.polarity) + seq!['/'];
            &&& prefix.len() <= svg_path_spec(j).len()
            &&& svg_path_spec(j).take(prefix.len() as int) == prefix
        },
{
    reveal_strlit("build/");
    reveal_strlit("/svg/");
    lemma_literals();
    reveal_strlit("build");
    reveal_strlit("svg");
    reveal_strlit("custom");
    let p = svg_path_spec(j);
    if j.kind == JobKind::Icon {
        lemma_icon_shape(j);
        let prefix = "build/"@ + polarity_name(j.polarity) + "/svg/"@ + j.organisation + seq!['/'];
        let rest = j.group + seq!['/'] + (title_case(j.directory) + seq!['/'] + (join_nonempty(
            seq![j.display_name, j.special, j.template_name],
            '-',
        ) + ".svg"@));
        assert(p =~= prefix + rest);
        assert(p.take(prefix.len() as int) =~= prefix);
    } else {
        lemma_person_shape(j);
        let prefix = "build/custom/svg/"@ + polarity_name(j.polarity) + seq!['/'];
        let rest = j.organisation + seq!['/'] + (j.group + seq!['/'] + (j.extra_label + seq!['-'] + (
        j.template_name + seq!['-'] + (j.display_name + ".svg"@))));
        assert(p =~= prefix + rest);
        assert(p.take(prefix.len() as int) =~= prefix);
    }
}

} // verus!
