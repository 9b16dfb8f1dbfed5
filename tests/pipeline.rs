use icon_builder::context::{
    build_context, colors_for, colors_for_lower, context_with, finish_render, process_file_common,
    RenderError,
};
use icon_builder::hashes::{
    calc_hash, is_svg_file, raster_plan, raster_units_for, read_in_hashes, HashIndex,
};
use icon_builder::jobs::{
    copy_volunteer, expand_jobs, generate_svg_jobs, is_template_missing, job_paths, svg_path,
    template_candidates, template_id, Config, DescriptionObjects, JobKind, Person, RenderJob,
    VolunteerConfig,
};
use icon_builder::library::{
    data_uri, file_group_id, file_to_base64, frame_library, make_entry, manifest_path, path_to_id,
    path_to_title, process_entries,
};
use icon_builder::paths::{decimal_string, join_filename, join_paths, raster_path, replace_first_exec, Polarity};
use icon_builder::text::{split_on, str_eq, uppercase_first_letter};

fn description(template: &str, zug: &str, names: &str, special: &str, dir: &str) -> DescriptionObjects {
    DescriptionObjects {
        template: template.to_string(),
        zug: zug.to_string(),
        names: names.to_string(),
        special: special.to_string(),
        dir: dir.to_string(),
    }
}

fn config_with_thw(thw: Vec<DescriptionObjects>) -> Config {
    Config {
        enable_png: false,
        thw,
        fw: vec![],
        zoll: vec![],
        rettung: vec![],
        pol: vec![],
        bw: vec![],
        kats: vec![],
        alle: vec![],
    }
}

fn no_volunteers() -> VolunteerConfig {
    VolunteerConfig { enabled: false, personen: None }
}

fn icon_job(org: &str, dir: &str, name: &str, special: &str, polarity: Polarity) -> RenderJob {
    RenderJob {
        kind: JobKind::Icon,
        organisation: org.to_string(),
        group: "Zug1".to_string(),
        directory: dir.to_string(),
        template_name: "bar".to_string(),
        display_name: name.to_string(),
        special: special.to_string(),
        polarity,
        extra_label: String::new(),
        template_missing: false,
    }
}

fn value_of(ctx: &[(String, String)], key: &str) -> String {
    ctx.iter().find(|(k, _)| k == key).map(|(_, v)| v.clone()).unwrap()
}

#[test]
fn end_to_end_expansion_gives_four_jobs() {
    let cfg = config_with_thw(vec![description("bar", "Zug1", "X,Y", "", "Foo")]);
    let jobs = expand_jobs(&cfg, &no_volunteers(), &vec![]);
    assert_eq!(jobs.len(), 4);
    let paths = job_paths(&jobs);
    assert_eq!(
        paths,
        vec![
            "build/inverted/svg/THW/Zug1/Foo/X-bar.svg".to_string(),
            "build/original/svg/THW/Zug1/Foo/X-bar.svg".to_string(),
            "build/inverted/svg/THW/Zug1/Foo/Y-bar.svg".to_string(),
            "build/original/svg/THW/Zug1/Foo/Y-bar.svg".to_string(),
        ]
    );
    assert!(jobs.iter().all(|j| j.template_missing));
}

#[test]
fn expansion_is_repeatable() {
    let cfg = config_with_thw(vec![
        description("bar", "Zug1", "X,Y", "a,b", "foo"),
        description("baz", "Zug2", "", "", "foo"),
    ]);
    let first = job_paths(&expand_jobs(&cfg, &no_volunteers(), &vec![]));
    let second = job_paths(&expand_jobs(&cfg, &no_volunteers(), &vec![]));
    assert_eq!(first, second);
    assert_eq!(first.len(), 2 * 2 * 2 + 2);
}

#[test]
fn expanded_paths_are_distinct() {
    let cfg = config_with_thw(vec![
        description("bar", "Zug1", "X,Y", "a,b", "foo"),
        description("bar", "Zug2", "X,Y", "", "foo"),
    ]);
    let volunteers = VolunteerConfig {
        enabled: true,
        personen: Some(vec![Person {
            volunteer: "Anna,Ben".to_string(),
            organisation: "THW".to_string(),
            zug: "Zug1".to_string(),
            template: "helfer".to_string(),
            value: "1,2".to_string(),
        }]),
    };
    let paths = job_paths(&expand_jobs(&cfg, &volunteers, &vec![]));
    assert_eq!(paths.len(), 8 + 4 + 8);
    let mut sorted = paths.clone();
    sorted.sort();
    sorted.dedup();
    assert_eq!(sorted.len(), paths.len());
}

#[test]
fn empty_special_and_names_give_one_empty_part() {
    let jobs = generate_svg_jobs(&vec![description("bar", "Zug1", "", "", "foo")], "FW", &vec![]);
    assert_eq!(jobs.len(), 2);
    assert_eq!(jobs[0].display_name, "");
    assert_eq!(svg_path(&jobs[0]), "build/inverted/svg/FW/Zug1/Foo/bar.svg");
}

#[test]
fn special_variants_join_into_file_name() {
    let jobs = generate_svg_jobs(&vec![description("bar", "Zug1", "X", "a,b", "foo")], "THW", &vec![]);
    let paths = job_paths(&jobs);
    assert_eq!(
        paths,
        vec![
            "build/inverted/svg/THW/Zug1/Foo/X-a-bar.svg".to_string(),
            "build/inverted/svg/THW/Zug1/Foo/X-b-bar.svg".to_string(),
            "build/original/svg/THW/Zug1/Foo/X-a-bar.svg".to_string(),
            "build/original/svg/THW/Zug1/Foo/X-b-bar.svg".to_string(),
        ]
    );
}

#[test]
fn template_resolution_looks_in_group_then_organisation() {
    let (first, second) = template_candidates("THW", "Zug1", "bar");
    assert_eq!(first, "icons/THW/Zug1/bar.template.svg");
    assert_eq!(second, "icons/THW/bar.template.svg");
    assert!(!is_template_missing("THW", "Zug1", "bar", &vec![first.clone()]));
    assert!(!is_template_missing("THW", "Zug1", "bar", &vec![second.clone()]));
    assert!(is_template_missing("THW", "Zug1", "bar", &vec!["icons/Zug1/bar.template.svg".to_string()]));
    let jobs = generate_svg_jobs(&vec![description("bar", "Zug1", "X", "", "foo")], "THW", &vec![second]);
    assert!(jobs.iter().all(|j| !j.template_missing));
}

#[test]
fn person_jobs_follow_custom_grammar() {
    let people = vec![Person {
        volunteer: "Anna,Ben".to_string(),
        organisation: "THW".to_string(),
        zug: "Zug1".to_string(),
        template: "helfer".to_string(),
        value: "1".to_string(),
    }];
    let jobs = copy_volunteer(&people);
    assert_eq!(jobs.len(), 4);
    assert_eq!(jobs[0].directory, "personen");
    assert_eq!(jobs[0].extra_label, "Anna");
    assert_eq!(
        job_paths(&jobs),
        vec![
            "build/custom/svg/inverted/THW/Zug1/Anna-helfer-1.svg".to_string(),
            "build/custom/svg/inverted/THW/Zug1/Ben-helfer-1.svg".to_string(),
            "build/custom/svg/original/THW/Zug1/Anna-helfer-1.svg".to_string(),
            "build/custom/svg/original/THW/Zug1/Ben-helfer-1.svg".to_string(),
        ]
    );
    assert_eq!(template_id(&jobs[0]), "personen/helfer.template.svg");
}

#[test]
fn disabled_volunteers_give_no_jobs() {
    let volunteers = VolunteerConfig {
        enabled: false,
        personen: Some(vec![Person {
            volunteer: "Anna".to_string(),
            organisation: "THW".to_string(),
            zug: "Zug1".to_string(),
            template: "helfer".to_string(),
            value: "1".to_string(),
        }]),
    };
    assert!(expand_jobs(&config_with_thw(vec![]), &volunteers, &vec![]).is_empty());
}

#[test]
fn split_keeps_empty_pieces() {
    assert_eq!(split_on("", ','), vec![""]);
    assert_eq!(split_on("a,", ','), vec!["a", ""]);
    assert_eq!(split_on("X,Y", ','), vec!["X", "Y"]);
}

#[test]
fn joins_skip_empty_parts() {
    assert_eq!(join_paths(vec!["build", "", "x"]), "build/x/");
    assert_eq!(join_paths(vec![]), "/");
    assert_eq!(join_filename(vec!["X", "", "bar"]), "X-bar");
    assert_eq!(join_filename(vec!["", "", ""]), "");
}

#[test]
fn first_letter_is_upper_cased() {
    assert_eq!(uppercase_first_letter("foo"), "Foo");
    assert_eq!(uppercase_first_letter(""), "");
    assert_eq!(uppercase_first_letter("ßx"), "SSx");
}

#[test]
fn string_equality() {
    assert!(str_eq("abc", "abc"));
    assert!(!str_eq("abc", "abd"));
    assert!(!str_eq("ab", "abc"));
}

#[test]
fn color_policy_table() {
    let thw = colors_for("THW");
    assert_eq!((thw.main.as_str(), thw.secondary.as_str()), ("#fff", "#003399"));
    let alle = colors_for("Alle");
    assert_eq!((alle.main.as_str(), alle.secondary.as_str()), ("#000", "#fff"));
    let kats = colors_for_lower("kats");
    assert_eq!((kats.main.as_str(), kats.secondary.as_str()), ("#fff", "#DF6711"));
    let other = colors_for("unknown");
    assert_eq!((other.main.as_str(), other.secondary.as_str()), ("#fff", "#000"));
    let fw = colors_for_lower("FW");
    assert_eq!(fw.secondary, "#000");
}

#[test]
fn inverted_context_swaps_colors() {
    let original = build_context(&icon_job("thw", "foo", "X", "", Polarity::Original));
    let inverted = build_context(&icon_job("thw", "foo", "X", "", Polarity::Inverted));
    assert_eq!(value_of(&original, "main_color"), "#fff");
    assert_eq!(value_of(&original, "secondary_color"), "#003399");
    assert_eq!(value_of(&inverted, "main_color"), value_of(&original, "secondary_color"));
    assert_eq!(value_of(&inverted, "secondary_color"), value_of(&original, "main_color"));
    assert_eq!(value_of(&original, "organisation"), "THW");
    assert_eq!(value_of(&original, "value"), "X");
    assert_eq!(value_of(&original, "ort"), "");
}

#[test]
fn catch_all_organisation_has_empty_name() {
    let ctx = build_context(&icon_job("Alle", "foo", "X", "s", Polarity::Original));
    assert_eq!(value_of(&ctx, "organisation"), "");
    assert_eq!(value_of(&ctx, "special"), "s");
    let direct = context_with(&icon_job("Alle", "foo", "X", "s", Polarity::Original), "alle", "ALLE");
    assert_eq!(direct, ctx);
}

#[test]
fn render_stage_outcomes() {
    let mut engine = tera::Tera::default();
    engine
        .add_raw_template("foo/bar.template.svg", "<svg>{{ value }} {{ main_color }}</svg>")
        .unwrap();
    let job = icon_job("THW", "foo", "X", "", Polarity::Inverted);
    let out = process_file_common(&engine, &job).unwrap();
    assert_eq!(out.path, "build/inverted/svg/THW/Zug1/Foo/X-bar.svg");
    assert_eq!(out.content, "<svg>X #003399</svg>");

    let unknown = icon_job("THW", "other", "X", "", Polarity::Original);
    match process_file_common(&engine, &unknown) {
        Err(RenderError::Template { template }) => assert_eq!(template, "other/bar.template.svg"),
        _ => panic!("expected a template error"),
    }

    let mut missing = job.clone();
    missing.template_missing = true;
    let err = process_file_common(&engine, &missing).unwrap_err();
    assert!(!err.is_fatal());
    assert!(finish_render(&job, None).unwrap_err().is_fatal());
}

#[test]
fn content_hash_is_upper_hex_sha256() {
    assert_eq!(
        calc_hash(&b"abc".to_vec()),
        "BA7816BF8F01CFEA414140DE5DAE2223B00361A396177A9CB410FF61F20015AD"
    );
}

#[test]
fn svg_file_names() {
    assert!(is_svg_file("build/a.svg"));
    assert!(!is_svg_file("build/.svg"));
    assert!(!is_svg_file("build/a.png"));
    assert!(!is_svg_file(".svg"));
}

#[test]
fn raster_paths_per_size() {
    assert_eq!(decimal_string(2048), "2048");
    assert_eq!(decimal_string(0), "0");
    assert_eq!(replace_first_exec("a/svg/b/svg/", "svg/", "png/1/"), "a/png/1/b/svg/");
    assert_eq!(
        raster_path("build/original/svg/THW/Zug1/Foo/a.svg", 256),
        "build/original/png/256/THW/Zug1/Foo/a.png"
    );
}

#[test]
fn unchanged_asset_is_not_rasterized() {
    let path = "build/original/svg/THW/a.svg";
    let h = calc_hash(&b"<svg/>".to_vec());
    assert!(raster_units_for(path, &Some(h.clone()), &h).is_empty());
    let units = raster_units_for(path, &Some("OTHER".to_string()), &h);
    let sizes: Vec<u32> = units.iter().map(|u| u.size).collect();
    assert_eq!(sizes, vec![128, 256, 512, 1024, 2048]);
    assert_eq!(units[4].png_path, "build/original/png/2048/THW/a.png");
    assert_eq!(units[0].svg_path, path);
    assert_eq!(raster_units_for(path, &None, &h).len(), 5);
}

#[test]
fn second_run_plans_no_rasters() {
    let files = vec![
        ("build/original/svg/THW/a.svg".to_string(), b"<svg>a</svg>".to_vec()),
        ("build/original/svg/THW/b.svg".to_string(), b"<svg>b</svg>".to_vec()),
        ("build/original/png/128/THW/a.png".to_string(), b"png".to_vec()),
    ];
    let mut index = HashIndex::new();
    assert_eq!(raster_plan(&index, &files).len(), 10);
    read_in_hashes(&mut index, &files);
    assert!(raster_plan(&index, &files).is_empty());
    let mut changed = files.clone();
    changed[1].1 = b"<svg>c</svg>".to_vec();
    let plan = raster_plan(&index, &changed);
    assert_eq!(plan.len(), 5);
    assert!(plan.iter().all(|u| u.svg_path == "build/original/svg/THW/b.svg"));
}

#[test]
fn hash_index_keeps_last_record() {
    let mut index = HashIndex::new();
    index.insert("p".to_string(), "1".to_string());
    index.insert("q".to_string(), "2".to_string());
    index.insert("p".to_string(), "3".to_string());
    assert_eq!(index.get("p"), Some("3".to_string()));
    assert_eq!(index.get("r"), None);
}

#[test]
fn manifest_group_ids_put_polarity_last() {
    assert_eq!(path_to_id("build", "build/original/svg/THW/Zug1/Foo"), "THW-Zug1-Foo-original");
    assert_eq!(path_to_id("build", "build/inverted/svg/THW/Zug1/Foo"), "THW-Zug1-Foo-inverted");
    assert_eq!(file_group_id("build", "build/original/svg/THW/Zug1/Foo/a.svg"), "THW-Zug1-Foo-original");
    assert_eq!(file_group_id("build", "build/inverted/svg/THW/Zug1/Foo/a.svg"), "THW-Zug1-Foo-inverted");
    assert_eq!(path_to_id("build", "x/build/custom/svg/inverted/THW"), "custom-THW-inverted");
}

#[test]
fn manifest_titles() {
    assert_eq!(
        path_to_title("build", "build/original/svg/THW/Zug1/Foo/X-bar.svg"),
        "THW Zug1 Foo X bar original"
    );
    assert_eq!(path_to_title("build", "build/svg/a.svg"), "a");
}

#[test]
fn manifest_entries_and_groups() {
    let e = make_entry("build", "build/original/svg/THW/a.svg", &b"hello".to_vec());
    assert_eq!(e.data, "data:image/svg+xml;base64,aGVsbG8=");
    assert_eq!((e.w, e.h), (256, 256));
    assert_eq!(e.aspect, "fixed");
    assert_eq!(e.title, "THW a original");
    assert_eq!(data_uri(&vec![]), "data:image/svg+xml;base64,");
    assert_eq!(file_to_base64(&b"abc".to_vec()), "YWJj");
    assert_eq!(file_to_base64(&b"ab".to_vec()), "YWI=");
    assert_eq!(file_to_base64(&vec![]), "");
    assert_eq!(file_to_base64(&vec![0xfb, 0xff]), "+/8=");

    let files = vec![
        ("build/original/svg/THW/a.svg".to_string(), b"a".to_vec()),
        ("build/original/png/128/THW/a.png".to_string(), b"p".to_vec()),
        ("build/inverted/svg/THW/a.svg".to_string(), b"b".to_vec()),
        ("build/original/svg/THW/b.svg".to_string(), b"c".to_vec()),
    ];
    let groups = process_entries("build", &files);
    assert_eq!(groups.len(), 2);
    assert_eq!(groups[0].id, "THW-original");
    assert_eq!(groups[0].entries.len(), 2);
    assert_eq!(groups[0].entries[1].title, "THW b original");
    assert_eq!(groups[1].id, "THW-inverted");
    assert_eq!(groups[1].entries.len(), 1);
    assert_eq!(manifest_path("THW-original"), "build/drawio/THW-original.xml");
    assert_eq!(frame_library("[]"), "<mxlibrary>[]</mxlibrary>");
}

#[test]
fn directories_differing_in_first_letter_case_share_a_path() {
    let lower = icon_job("THW", "foo", "X", "", Polarity::Original);
    let upper = icon_job("THW", "Foo", "X", "", Polarity::Original);
    assert_eq!(svg_path(&lower), svg_path(&upper));
}

#[test]
fn empty_name_with_special_shares_a_path() {
    let empty_name = icon_job("THW", "foo", "", "X", Polarity::Original);
    let empty_special = icon_job("THW", "foo", "X", "", Polarity::Original);
    assert_eq!(svg_path(&empty_name), svg_path(&empty_special));
}
