use std::path::PathBuf;

use beanifier::cli::{
    plan_file, stdout_chunk, BeanArgs, FilePlan, Outcome, OutputArgs, Sink, Summary,
};
use beanifier::paths::{lone_file_root_of, mirror_path, parent};

fn comps(parts: &[&str]) -> Vec<Vec<u8>> {
    parts.iter().map(|p| p.as_bytes().to_vec()).collect()
}

#[test]
fn to_config_raises_zero_syllables_and_negates_case_flag() {
    let args = BeanArgs {
        seed: 7,
        signature_frequency: 3,
        max_syllables: 0,
        no_preserve_case: true,
    };
    let c = args.to_config();
    assert_eq!(c.seed, 7);
    assert_eq!(c.signature_frequency, 3);
    assert_eq!(c.max_syllables, 1);
    assert!(!c.preserve_case);
    let args = BeanArgs {
        seed: 1,
        signature_frequency: 0,
        max_syllables: 5,
        no_preserve_case: false,
    };
    let c = args.to_config();
    assert_eq!(c.max_syllables, 5);
    assert!(c.preserve_case);
}

#[test]
fn sink_resolution() {
    let o = OutputArgs { in_place: true, output: None };
    assert!(matches!(o.into_sink(false, 1), Sink::InPlace));
    let o = OutputArgs { in_place: false, output: Some(PathBuf::from("out")) };
    match o.into_sink(true, 3) {
        Sink::Dir(d) => assert_eq!(d, PathBuf::from("out")),
        other => panic!("unexpected sink {:?}", other),
    }
    let o = OutputArgs { in_place: false, output: None };
    assert!(matches!(o.into_sink(false, 1), Sink::Stdout { headers: false }));
    let o = OutputArgs { in_place: false, output: None };
    assert!(matches!(o.into_sink(true, 1), Sink::Stdout { headers: true }));
    let o = OutputArgs { in_place: false, output: None };
    assert!(matches!(o.into_sink(false, 2), Sink::Stdout { headers: true }));
}

#[test]
fn file_plans() {
    let stdout = Sink::Stdout { headers: false };
    let dir = Sink::Dir(PathBuf::from("o"));
    assert_eq!(plan_file(11, 3, true, &stdout, false), FilePlan::SkipOversized);
    assert_eq!(plan_file(3, 3, true, &stdout, false), FilePlan::Beanify { write: true });
    assert_eq!(plan_file(3, 3, true, &stdout, true), FilePlan::Beanify { write: false });
    assert_eq!(plan_file(4, 10, false, &dir, false), FilePlan::SkipBinary { copy: true });
    assert_eq!(plan_file(4, 10, false, &dir, true), FilePlan::SkipBinary { copy: false });
    assert_eq!(plan_file(4, 10, false, &Sink::InPlace, false), FilePlan::SkipBinary { copy: false });
    assert_eq!(FilePlan::Beanify { write: false }.outcome(), Outcome::Processed);
    assert_eq!(FilePlan::SkipOversized.outcome(), Outcome::Skipped);
    assert_eq!(FilePlan::SkipBinary { copy: true }.outcome(), Outcome::Skipped);
}

#[test]
fn stdout_chunks() {
    assert_eq!(stdout_chunk(None, "abc"), "abc\n");
    assert_eq!(stdout_chunk(None, "abc\n"), "abc\n");
    assert_eq!(stdout_chunk(None, ""), "\n");
    assert_eq!(stdout_chunk(Some("a/1.txt"), "xyz"), "==> a/1.txt <==\nxyz\n");
    assert_eq!(stdout_chunk(Some("b"), "x\n"), "==> b <==\nx\n");
}

#[test]
fn summary_tally() {
    let mut s = Summary::default();
    assert_eq!(s, Summary { processed: 0, skipped: 0, errors: 0 });
    s.record(Outcome::Processed);
    s.record(Outcome::Processed);
    s.record(Outcome::Skipped);
    s.record_error();
    assert_eq!(s, Summary { processed: 2, skipped: 1, errors: 1 });
}

#[test]
fn mirror_keeps_relative_tree() {
    let dir = comps(&["/", "dst"]);
    let root = comps(&["/", "src"]);
    let file = comps(&["/", "src", "nested", "x.txt"]);
    assert_eq!(mirror_path(&dir, &root, &file), comps(&["/", "dst", "nested", "x.txt"]));
}

#[test]
fn mirror_lone_file_under_its_parent() {
    let dir = comps(&["out"]);
    let root = comps(&[]);
    let file = comps(&["hello.txt"]);
    assert_eq!(mirror_path(&dir, &root, &file), comps(&["out", "hello.txt"]));
}

#[test]
fn mirror_falls_back_to_file_name() {
    let dir = comps(&["out"]);
    let root = comps(&["a", "b"]);
    let file = comps(&["c", "d.txt"]);
    assert_eq!(mirror_path(&dir, &root, &file), comps(&["out", "d.txt"]));
    // No file name: the whole path is joined; an absolute one replaces `dir`.
    let file = comps(&["/", "c", ".."]);
    assert_eq!(mirror_path(&dir, &root, &file), comps(&["/", "c", ".."]));
    let file = comps(&["c", ".."]);
    assert_eq!(mirror_path(&dir, &root, &file), comps(&["out", "c", ".."]));
}

#[test]
fn parent_of_paths() {
    assert_eq!(parent(&comps(&["a", "b.txt"])), Some(comps(&["a"])));
    assert_eq!(parent(&comps(&["b.txt"])), Some(comps(&[])));
    assert_eq!(parent(&comps(&["/", "b.txt"])), Some(comps(&["/"])));
    assert_eq!(parent(&comps(&["/"])), None);
    assert_eq!(parent(&comps(&[])), None);
    assert_eq!(parent(&comps(&["a", ".."])), Some(comps(&["a"])));
}

#[test]
fn lone_file_mirrors_under_its_name() {
    let dir = comps(&["out"]);
    for file in [comps(&["hello.txt"]), comps(&["a", "b", "c.txt"]), comps(&["/", "x", "c.txt"])] {
        let root = lone_file_root_of(&file);
        let mut expected = dir.clone();
        expected.push(file[file.len() - 1].clone());
        assert_eq!(mirror_path(&dir, &root, &file), expected);
    }
    assert_eq!(lone_file_root_of(&comps(&["/"])), comps(&[]));
}
