use bear::execution::ExecutionRecord;
use bear::interpreters::Engine;
use bear::recognition::Recognition;
use bear::semantic::{CompilerPass, Interpreter, Meaning, Recognition as Outcome};

fn record(executable: &str, args: &[&str], working_dir: &str) -> ExecutionRecord {
    let arguments: Vec<String> = args.iter().map(|a| a.to_string()).collect();
    let environment = vec![("PATH".to_string(), "/usr/bin".to_string())];
    ExecutionRecord::new(executable.to_string(), arguments, working_dir.to_string(), environment)
        .unwrap()
}

fn strings(items: &[&str]) -> Vec<String> {
    items.iter().map(|s| s.to_string()).collect()
}

#[test]
fn cc_family_single_source_round_trip() {
    let driver = Recognition::new(vec![], vec![]);
    let rec = record("/usr/bin/real-tool", &["cc", "-c", "a.c", "-o", "a.o"], "/proj");
    let meaning = driver.apply(rec).expect("a compiler call");
    match meaning {
        Meaning::Compiler { compiler, working_dir, passes } => {
            assert_eq!(compiler, "/usr/bin/real-tool");
            assert_eq!(working_dir, "/proj");
            assert_eq!(passes.len(), 1);
            match &passes[0] {
                CompilerPass::Compile { source, output, flags } => {
                    assert_eq!(source, "a.c");
                    assert_eq!(output.as_deref(), Some("a.o"));
                    assert!(flags.is_empty());
                }
                other => panic!("expected a compile pass, got {:?}", other),
            }
        }
        Meaning::Ignored => panic!("expected a compiler meaning"),
    }
}

#[test]
fn excluded_executable_is_ignored_whatever_the_arguments() {
    let engine = Engine::new(vec![], strings(&["/usr/bin/cc1"]));
    let rec = record("/usr/bin/cc1", &["cc1", "-c", "a.c"], "/proj");
    match engine.recognize(&rec) {
        Outcome::Success(Meaning::Ignored) => {}
        other => panic!("expected ignored, got {:?}", other),
    }
    let rec2 = record("/usr/bin/cc1", &["cc1", "--strange", "args"], "/elsewhere");
    match engine.recognize(&rec2) {
        Outcome::Success(Meaning::Ignored) => {}
        other => panic!("expected ignored, got {:?}", other),
    }
}

#[test]
fn unexcluded_cc1_matches_the_built_in_rule() {
    // the same record as in the exclusion scenario, with no exclusions
    let engine = Engine::new(vec![], vec![]);
    let rec = record("/usr/bin/cc1", &["cc1", "-c", "a.c"], "/proj");
    match engine.recognize(&rec) {
        Outcome::Success(Meaning::Compiler { .. }) => {}
        other => panic!("expected a compiler call, got {:?}", other),
    }
}

#[test]
fn excluded_executable_yields_nothing_from_apply() {
    let driver = Recognition::new(vec![], strings(&["/usr/bin/cc1"]));
    let rec = record("/usr/bin/cc1", &["cc1", "-c", "a.c"], "/proj");
    assert!(driver.apply(rec).is_none());
}

#[test]
fn unmatched_executable_is_unknown() {
    let engine = Engine::new(vec![], vec![]);
    let rec = record("/usr/bin/tar", &["tar", "-xf", "archive.tar"], "/proj");
    match engine.recognize(&rec) {
        Outcome::Unknown => {}
        other => panic!("expected unknown, got {:?}", other),
    }
    let driver = Recognition::new(vec![], vec![]);
    let rec2 = record("/usr/bin/tar", &["tar", "-xf", "archive.tar"], "/proj");
    assert!(driver.apply(rec2).is_none());
}

#[test]
fn recognition_error_yields_nothing_from_apply() {
    let engine = Engine::new(vec![], vec![]);
    let rec = record("/usr/bin/cc", &["cc", "-Wall", "main.o"], "/proj");
    match engine.recognize(&rec) {
        Outcome::Error(reason) => assert_eq!(reason, "no source files recognized"),
        other => panic!("expected an error, got {:?}", other),
    }
    let driver = Recognition::new(vec![], vec![]);
    let rec2 = record("/usr/bin/cc", &["cc", "-Wall", "main.o"], "/proj");
    assert!(driver.apply(rec2).is_none());
}

#[test]
fn preprocess_only_invocation() {
    let driver = Recognition::new(vec![], vec![]);
    let rec = record("/usr/bin/gcc", &["gcc", "-E", "a.c"], "/proj");
    let meaning = driver.apply(rec).expect("a compiler call");
    match meaning {
        Meaning::Compiler { passes, .. } => {
            assert_eq!(passes.len(), 1);
            assert!(matches!(passes[0], CompilerPass::Preprocess));
        }
        Meaning::Ignored => panic!("expected a compiler meaning"),
    }
}

#[test]
fn multi_source_invocation_decomposes_in_argument_order() {
    let driver = Recognition::new(vec![], vec![]);
    let rec = record(
        "/usr/bin/cc",
        &["cc", "-DFOO=1", "-c", "a.c", "-Iinclude", "b.c", "-Wall", "-o", "all.o"],
        "/proj",
    );
    let meaning = driver.apply(rec).expect("a compiler call");
    match meaning {
        Meaning::Compiler { passes, .. } => {
            assert_eq!(passes.len(), 2);
            let expect = ["a.c", "b.c"];
            for (pass, want) in passes.iter().zip(expect.iter()) {
                match pass {
                    CompilerPass::Compile { source, output, flags } => {
                        assert_eq!(source, want);
                        // with several sources a single -o value is ambiguous
                        assert!(output.is_none());
                        assert_eq!(flags, &strings(&["-DFOO=1", "-Iinclude"]));
                    }
                    other => panic!("expected a compile pass, got {:?}", other),
                }
            }
        }
        Meaning::Ignored => panic!("expected a compiler meaning"),
    }
}

#[test]
fn included_executable_gets_a_generic_meaning() {
    let driver = Recognition::new(strings(&["/opt/mycc"]), vec![]);
    let rec = record("/opt/mycc", &["mycc", "x.c", "--strange"], "/proj");
    let meaning = driver.apply(rec).expect("a compiler call");
    match meaning {
        Meaning::Compiler { compiler, working_dir, passes } => {
            assert_eq!(compiler, "/opt/mycc");
            assert_eq!(working_dir, "/proj");
            assert_eq!(passes.len(), 1);
            match &passes[0] {
                CompilerPass::Compile { source, output, flags } => {
                    assert_eq!(source, "x.c");
                    assert!(output.is_none());
                    assert_eq!(flags, &strings(&["x.c", "--strange"]));
                }
                other => panic!("expected a compile pass, got {:?}", other),
            }
        }
        Meaning::Ignored => panic!("expected a compiler meaning"),
    }
}

#[test]
fn exclusion_takes_priority_over_inclusion() {
    let driver = Recognition::new(strings(&["/opt/mycc"]), strings(&["/opt/mycc"]));
    let rec = record("/opt/mycc", &["mycc", "x.c"], "/proj");
    assert!(driver.apply(rec).is_none());
}

#[test]
fn later_output_flag_wins() {
    let driver = Recognition::new(vec![], vec![]);
    let rec = record("/usr/bin/cc", &["cc", "-c", "a.c", "-o", "first.o", "-o", "second.o"], "/p");
    let meaning = driver.apply(rec).expect("a compiler call");
    match meaning {
        Meaning::Compiler { passes, .. } => match &passes[0] {
            CompilerPass::Compile { output, .. } => {
                assert_eq!(output.as_deref(), Some("second.o"));
            }
            other => panic!("expected a compile pass, got {:?}", other),
        },
        Meaning::Ignored => panic!("expected a compiler meaning"),
    }
}

#[test]
fn invoked_name_matches_even_when_executable_does_not() {
    // a stand-in reports the resolved path, while argument 0 keeps the
    // name the build called
    let engine = Engine::new(vec![], vec![]);
    let rec = record("/wrap/real-tool", &["/usr/bin/g++", "-c", "m.cpp"], "/proj");
    match engine.recognize(&rec) {
        Outcome::Success(Meaning::Compiler { compiler, .. }) => {
            assert_eq!(compiler, "/wrap/real-tool");
        }
        other => panic!("expected a compiler call, got {:?}", other),
    }
}

#[test]
fn record_construction_rejects_bad_inputs() {
    assert!(ExecutionRecord::new("/bin/cc".to_string(), vec![], "/p".to_string(), vec![]).is_none());
    let dup_env = vec![
        ("A".to_string(), "1".to_string()),
        ("A".to_string(), "2".to_string()),
    ];
    assert!(ExecutionRecord::new(
        "/bin/cc".to_string(),
        strings(&["cc"]),
        "/p".to_string(),
        dup_env,
    )
    .is_none());
    let ok = ExecutionRecord::new(
        "/bin/cc".to_string(),
        strings(&["cc"]),
        "/p".to_string(),
        vec![("A".to_string(), "1".to_string()), ("B".to_string(), "1".to_string())],
    );
    assert!(ok.is_some());
}
