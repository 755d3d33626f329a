use bear::wrapper::{
    candidate_paths, exit_code_for, forwarded_arguments, invoked_name, next_action_after_report,
    resolve_real_executable, Candidate, ReportOutcome, ResolutionError, StartupError,
    TransportError,
};

fn strings(items: &[&str]) -> Vec<String> {
    items.iter().map(|s| s.to_string()).collect()
}

#[test]
fn invoked_name_strips_directories() {
    assert_eq!(invoked_name(&strings(&["/wrap/cc", "-c", "a.c"])).unwrap(), "cc");
    assert_eq!(invoked_name(&strings(&["cc"])).unwrap(), "cc");
}

#[test]
fn invoked_name_fails_without_arguments() {
    assert_eq!(invoked_name(&vec![]).unwrap_err(), StartupError::MissingArguments);
}

#[test]
fn invoked_name_ignores_a_trailing_separator() {
    assert_eq!(invoked_name(&strings(&["/wrap/cc/"])).unwrap(), "cc");
    assert_eq!(invoked_name(&strings(&["/wrap/cc/."])).unwrap(), "cc");
}

#[test]
fn invoked_name_fails_without_a_file_name_component() {
    assert_eq!(invoked_name(&strings(&[""])).unwrap_err(), StartupError::NoFileName);
    assert_eq!(invoked_name(&strings(&["/"])).unwrap_err(), StartupError::NoFileName);
    assert_eq!(invoked_name(&strings(&["."])).unwrap_err(), StartupError::NoFileName);
    assert_eq!(invoked_name(&strings(&[".."])).unwrap_err(), StartupError::NoFileName);
    assert_eq!(invoked_name(&strings(&["/wrap/.."])).unwrap_err(), StartupError::NoFileName);
}

#[test]
fn candidates_follow_search_path_order() {
    assert_eq!(
        candidate_paths("/wrap:/usr/bin", "cc"),
        strings(&["/wrap/cc", "/usr/bin/cc"])
    );
}

#[test]
fn empty_search_path_entries_stand_for_the_current_directory() {
    assert_eq!(candidate_paths("a::b", "cc"), strings(&["a/cc", "cc", "b/cc"]));
}

#[test]
fn resolution_skips_the_stand_in_itself() {
    // the stand-in's own directory comes first on the search path
    let candidates = vec![
        Candidate {
            path: "/wrap/cc".to_string(),
            is_file: true,
            canonical: Some("/wrap/cc".to_string()),
        },
        Candidate {
            path: "/usr/bin/cc".to_string(),
            is_file: true,
            canonical: Some("/usr/bin/cc".to_string()),
        },
    ];
    let resolved = resolve_real_executable(&candidates, "/wrap/cc").unwrap();
    assert_eq!(resolved, "/usr/bin/cc");
}

#[test]
fn resolution_fails_when_only_the_stand_in_exists() {
    let candidates = vec![
        Candidate {
            path: "/wrap/cc".to_string(),
            is_file: true,
            canonical: Some("/wrap/cc".to_string()),
        },
        Candidate { path: "/usr/bin/cc".to_string(), is_file: false, canonical: None },
    ];
    assert_eq!(
        resolve_real_executable(&candidates, "/wrap/cc").unwrap_err(),
        ResolutionError::NotFound
    );
}

#[test]
fn resolution_skips_non_files_and_unresolvable_candidates() {
    let candidates = vec![
        Candidate { path: "/a/cc".to_string(), is_file: false, canonical: Some("/a/cc".to_string()) },
        Candidate { path: "/b/cc".to_string(), is_file: true, canonical: None },
        Candidate { path: "/c/cc".to_string(), is_file: true, canonical: Some("/real/cc".to_string()) },
    ];
    assert_eq!(resolve_real_executable(&candidates, "/wrap/cc").unwrap(), "/c/cc");
}

#[test]
fn report_outcome_never_changes_the_execution_phase() {
    let real = "/usr/bin/cc".to_string();
    let args = strings(&["cc", "-c", "a.c"]);
    let outcomes = [
        ReportOutcome::Delivered,
        ReportOutcome::AddressUnset,
        ReportOutcome::Failed(TransportError::ConnectionFailed),
        ReportOutcome::Failed(TransportError::SendFailed),
        ReportOutcome::Failed(TransportError::AddressUnresolvable),
    ];
    for outcome in outcomes.iter() {
        let (program, forwarded) = next_action_after_report(&real, &args, outcome);
        assert_eq!(program, "/usr/bin/cc");
        assert_eq!(forwarded, strings(&["-c", "a.c"]));
    }
    // and the exit code mapping is untouched by reporting as well
    assert_eq!(exit_code_for(Some(3)), 3);
    assert_eq!(exit_code_for(Some(0)), 0);
    assert_eq!(exit_code_for(None), 1);
}

#[test]
fn forwarded_arguments_drop_only_the_invoked_name() {
    assert_eq!(forwarded_arguments(&strings(&["cc", "-c", "a.c"])), strings(&["-c", "a.c"]));
    assert_eq!(forwarded_arguments(&strings(&["cc"])), Vec::<String>::new());
}

#[test]
fn error_messages_name_the_failure() {
    assert_eq!(StartupError::MissingArguments.message(), "cannot get first argument");
    assert_eq!(ResolutionError::NotFound.message(), "cannot find the real executable");
    assert_eq!(TransportError::SendFailed.message(), "sending the event failed");
}
