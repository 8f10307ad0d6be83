use swaypad::compile::{start, step, Action, Event, State};
use swaypad::response::{ApiError, CompileResponse};

const CONTRACT: &str = "contract;\n\nabi Counter {\n    fn get() -> u64;\n}\n";

/// Reports `events` one by one from the start and collects the actions.
fn drive(contract: &str, toolchain: &str, events: Vec<Event>) -> (State, Vec<Action>) {
    let (mut state, first) = start(contract.to_string(), toolchain.to_string());
    let mut actions = vec![first];
    for event in events {
        let (next, action) = step(state, event).expect("the machine waits for this event");
        state = next;
        actions.push(action);
    }
    (state, actions)
}

fn up_to_build(project: &str) -> Vec<Event> {
    vec![
        Event::ToolchainSwitched,
        Event::ForcVersion("0.46.0".to_string()),
        Event::ProjectCreated(Some(project.to_string())),
        Event::MainFileWritten(true),
    ]
}

fn success_events(project: &str, removed: bool) -> Vec<Event> {
    let mut events = up_to_build(project);
    events.push(Event::Built {
        success: true,
        stderr: "warning: unused".to_string(),
    });
    events.push(Event::Artifacts {
        abi: format!("{{\"source\": \"/srv/projects/{}/src/main.sw\"}}\n", project),
        bytecode: vec![0x90, 0x00, 0x00, 0x04, 0x47],
        storage_slots: b"[]\n".to_vec(),
    });
    events.push(Event::ProjectRemoved(removed));
    events
}

fn failure_events(project: &str, removed: bool) -> Vec<Event> {
    let mut events = up_to_build(project);
    events.push(Event::Built {
        success: false,
        stderr: format!(
            "  Compiling /srv/projects/{p}\nerror\n --> /srv/projects/{p}/src/main.sw:3:1\n  | bad\n",
            p = project
        ),
    });
    events.push(Event::ProjectRemoved(removed));
    events
}

fn success_response() -> CompileResponse {
    CompileResponse {
        abi: "{\"source\": main.sw\"}".to_string(),
        bytecode: "9000000447".to_string(),
        storage_slots: "[]".to_string(),
        forc_version: "0.46.0".to_string(),
        error: None,
    }
}

fn failure_response() -> CompileResponse {
    CompileResponse {
        abi: String::new(),
        bytecode: String::new(),
        storage_slots: String::new(),
        forc_version: "0.46.0".to_string(),
        error: Some("main.sw:3:1\n  | bad".to_string()),
    }
}

fn filesystem(step: &str) -> Action {
    Action::Finish(Err(ApiError::Filesystem(step.to_string())))
}

#[test]
fn an_empty_contract_is_answered_at_once() {
    let (state, action) = start(String::new(), "latest".to_string());
    assert_eq!(state, State::Finished);
    assert_eq!(
        action,
        Action::Finish(Ok(CompileResponse {
            abi: String::new(),
            bytecode: String::new(),
            storage_slots: String::new(),
            forc_version: String::new(),
            error: Some("No contract.".to_string()),
        }))
    );
}

#[test]
fn an_empty_contract_waits_for_nothing() {
    let (state, _) = start(String::new(), "latest".to_string());
    assert_eq!(step(state, Event::ToolchainSwitched), None);
}

#[test]
fn a_contract_has_the_toolchain_switched_first() {
    let (state, action) = start(CONTRACT.to_string(), "beta-4".to_string());
    assert_eq!(
        state,
        State::SwitchingToolchain {
            contract: CONTRACT.to_string()
        }
    );
    assert_eq!(
        action,
        Action::SwitchToolchain {
            toolchain: "beta-4".to_string()
        }
    );
}

#[test]
fn a_blank_contract_is_a_contract() {
    let (_, action) = start(" ".to_string(), "latest".to_string());
    assert_eq!(
        action,
        Action::SwitchToolchain {
            toolchain: "latest".to_string()
        }
    );
}

#[test]
fn a_build_that_succeeds_goes_all_the_way() {
    let (state, actions) = drive(CONTRACT, "latest", success_events("ab12", true));
    assert_eq!(state, State::Finished);
    assert_eq!(
        actions,
        vec![
            Action::SwitchToolchain {
                toolchain: "latest".to_string()
            },
            Action::QueryVersion,
            Action::CreateProject,
            Action::WriteMainFile {
                project: "ab12".to_string(),
                contents: CONTRACT.as_bytes().to_vec()
            },
            Action::BuildProject {
                project: "ab12".to_string()
            },
            Action::ReadArtifacts {
                abi: "projects/ab12/out/debug/swaypad-abi.json".to_string(),
                bytecode: "projects/ab12/out/debug/swaypad.bin".to_string(),
                storage_slots: "projects/ab12/out/debug/swaypad-storage_slots.json".to_string()
            },
            Action::RemoveProject {
                project: "ab12".to_string()
            },
            Action::Finish(Ok(success_response())),
        ]
    );
}

#[test]
fn a_build_that_fails_goes_to_removal_without_reading() {
    let (state, actions) = drive(CONTRACT, "latest", failure_events("ab12", true));
    assert_eq!(state, State::Finished);
    assert_eq!(
        actions,
        vec![
            Action::SwitchToolchain {
                toolchain: "latest".to_string()
            },
            Action::QueryVersion,
            Action::CreateProject,
            Action::WriteMainFile {
                project: "ab12".to_string(),
                contents: CONTRACT.as_bytes().to_vec()
            },
            Action::BuildProject {
                project: "ab12".to_string()
            },
            Action::RemoveProject {
                project: "ab12".to_string()
            },
            Action::Finish(Ok(failure_response())),
        ]
    );
}

#[test]
fn the_states_follow_the_course() {
    let (state, _) = drive(CONTRACT, "latest", vec![Event::ToolchainSwitched]);
    assert_eq!(
        state,
        State::QueryingVersion {
            contract: CONTRACT.to_string()
        }
    );
    let (state, _) = drive(
        CONTRACT,
        "latest",
        vec![
            Event::ToolchainSwitched,
            Event::ForcVersion("0.46.0".to_string()),
        ],
    );
    assert_eq!(
        state,
        State::CreatingProject {
            contract: CONTRACT.to_string(),
            forc_version: "0.46.0".to_string()
        }
    );
    let (state, _) = drive(
        CONTRACT,
        "latest",
        vec![
            Event::ToolchainSwitched,
            Event::ForcVersion("0.46.0".to_string()),
            Event::ProjectCreated(Some("ab12".to_string())),
        ],
    );
    assert_eq!(
        state,
        State::WritingSource {
            project: "ab12".to_string(),
            forc_version: "0.46.0".to_string()
        }
    );
    let (state, _) = drive(CONTRACT, "latest", up_to_build("ab12"));
    assert_eq!(
        state,
        State::Building {
            project: "ab12".to_string(),
            forc_version: "0.46.0".to_string()
        }
    );
    let mut events = success_events("ab12", true);
    events.truncate(5);
    let (state, _) = drive(CONTRACT, "latest", events);
    assert_eq!(
        state,
        State::ReadingArtifacts {
            project: "ab12".to_string(),
            forc_version: "0.46.0".to_string()
        }
    );
    let mut events = success_events("ab12", true);
    events.truncate(6);
    let (state, _) = drive(CONTRACT, "latest", events);
    assert_eq!(
        state,
        State::RemovingBuilt {
            response: success_response()
        }
    );
    let mut events = failure_events("ab12", true);
    events.truncate(5);
    let (state, _) = drive(CONTRACT, "latest", events);
    assert_eq!(
        state,
        State::RemovingFailed {
            response: failure_response()
        }
    );
}

#[test]
fn a_project_that_cannot_be_created_fails_the_operation() {
    let (state, actions) = drive(
        CONTRACT,
        "latest",
        vec![
            Event::ToolchainSwitched,
            Event::ForcVersion("0.46.0".to_string()),
            Event::ProjectCreated(None),
        ],
    );
    assert_eq!(state, State::Finished);
    assert_eq!(actions.len(), 4);
    assert_eq!(actions[3], filesystem("create project"));
}

#[test]
fn a_source_that_cannot_be_written_fails_the_operation() {
    for removed in [true, false] {
        let (state, actions) = drive(
            CONTRACT,
            "latest",
            vec![
                Event::ToolchainSwitched,
                Event::ForcVersion("0.46.0".to_string()),
                Event::ProjectCreated(Some("ab12".to_string())),
                Event::MainFileWritten(false),
                Event::ProjectRemoved(removed),
            ],
        );
        assert_eq!(state, State::Finished);
        assert_eq!(actions.len(), 6);
        assert_eq!(
            actions[4],
            Action::RemoveProject {
                project: "ab12".to_string()
            }
        );
        assert_eq!(actions[5], filesystem("write main file"));
    }
}

#[test]
fn a_source_that_cannot_be_written_has_the_project_removed() {
    let (state, actions) = drive(
        CONTRACT,
        "latest",
        vec![
            Event::ToolchainSwitched,
            Event::ForcVersion("0.46.0".to_string()),
            Event::ProjectCreated(Some("ab12".to_string())),
            Event::MainFileWritten(false),
        ],
    );
    assert_eq!(state, State::RemovingUnwritten);
    assert_eq!(
        actions.last(),
        Some(&Action::RemoveProject {
            project: "ab12".to_string()
        })
    );
}

#[test]
fn a_removal_that_fails_after_success_fails_the_operation() {
    let (state, actions) = drive(CONTRACT, "latest", success_events("ab12", false));
    assert_eq!(state, State::Finished);
    assert_eq!(actions.len(), 8);
    assert_eq!(
        actions[6],
        Action::RemoveProject {
            project: "ab12".to_string()
        }
    );
    assert_eq!(actions[7], filesystem("remove project"));
}

#[test]
fn a_removal_that_fails_after_failure_is_passed_over() {
    let (state, actions) = drive(CONTRACT, "latest", failure_events("ab12", false));
    assert_eq!(state, State::Finished);
    assert_eq!(actions.len(), 7);
    assert_eq!(
        actions[5],
        Action::RemoveProject {
            project: "ab12".to_string()
        }
    );
    assert_eq!(actions[6], Action::Finish(Ok(failure_response())));
}

#[test]
fn the_result_does_not_depend_on_the_name_of_the_project() {
    let (_, first) = drive(CONTRACT, "latest", success_events("1111", true));
    let (_, second) = drive(CONTRACT, "latest", success_events("2222-3333", true));
    assert_eq!(first.last(), second.last());
    assert_eq!(first.last(), Some(&Action::Finish(Ok(success_response()))));
    let (_, first) = drive(CONTRACT, "latest", failure_events("1111", true));
    let (_, second) = drive(CONTRACT, "latest", failure_events("2222-3333", false));
    assert_eq!(first.last(), second.last());
    assert_eq!(first.last(), Some(&Action::Finish(Ok(failure_response()))));
}

#[test]
fn the_contract_is_written_byte_for_byte() {
    let contract = "contract; // \u{4e2d}\u{6587} \u{1F600}\r\n";
    let (_, actions) = drive(
        contract,
        "latest",
        vec![
            Event::ToolchainSwitched,
            Event::ForcVersion(String::new()),
            Event::ProjectCreated(Some("p".to_string())),
        ],
    );
    assert_eq!(
        actions[3],
        Action::WriteMainFile {
            project: "p".to_string(),
            contents: contract.as_bytes().to_vec()
        }
    );
}

#[test]
fn missing_bytecode_and_storage_slots_give_empty_fields() {
    let mut events = up_to_build("ab12");
    events.push(Event::Built {
        success: true,
        stderr: String::new(),
    });
    events.push(Event::Artifacts {
        abi: "{}".to_string(),
        bytecode: Vec::new(),
        storage_slots: Vec::new(),
    });
    events.push(Event::ProjectRemoved(true));
    let (_, actions) = drive(CONTRACT, "latest", events);
    assert_eq!(
        actions[7],
        Action::Finish(Ok(CompileResponse {
            abi: "{}".to_string(),
            bytecode: String::new(),
            storage_slots: String::new(),
            forc_version: "0.46.0".to_string(),
            error: None,
        }))
    );
}

#[test]
fn storage_slots_that_are_no_text_are_read_with_replacements() {
    let mut events = up_to_build("ab12");
    events.push(Event::Built {
        success: true,
        stderr: String::new(),
    });
    events.push(Event::Artifacts {
        abi: "{}".to_string(),
        bytecode: vec![0xff],
        storage_slots: vec![b'[', 0xff, b'a', 0xc3, b']', b'\n'],
    });
    events.push(Event::ProjectRemoved(true));
    let (_, actions) = drive(CONTRACT, "latest", events);
    assert_eq!(
        actions[7],
        Action::Finish(Ok(CompileResponse {
            abi: "{}".to_string(),
            bytecode: "ff".to_string(),
            storage_slots: "[\u{FFFD}a\u{FFFD}]".to_string(),
            forc_version: "0.46.0".to_string(),
            error: None,
        }))
    );
}

#[test]
fn storage_slots_in_utf8_are_read_as_they_stand() {
    let mut events = up_to_build("ab12");
    events.push(Event::Built {
        success: true,
        stderr: String::new(),
    });
    events.push(Event::Artifacts {
        abi: "{}".to_string(),
        bytecode: Vec::new(),
        storage_slots: " [\"\u{e9}\u{4e2d}\u{1F600}\"] ".as_bytes().to_vec(),
    });
    events.push(Event::ProjectRemoved(true));
    let (_, actions) = drive(CONTRACT, "latest", events);
    match &actions[7] {
        Action::Finish(Ok(response)) => {
            assert_eq!(response.storage_slots, "[\"\u{e9}\u{4e2d}\u{1F600}\"]")
        }
        other => panic!("unexpected action {:?}", other),
    }
}

#[test]
fn the_error_stream_of_a_build_that_succeeded_is_not_shown() {
    let mut events = success_events("ab12", true);
    events[4] = Event::Built {
        success: true,
        stderr: "error --> /srv/projects/ab12/src/main.sw:1:1".to_string(),
    };
    let (_, actions) = drive(CONTRACT, "latest", events);
    assert_eq!(actions[7], Action::Finish(Ok(success_response())));
}

#[test]
fn an_event_that_is_not_waited_for_is_refused() {
    let waiting = || State::Building {
        project: "ab12".to_string(),
        forc_version: "0.46.0".to_string(),
    };
    assert_eq!(step(waiting(), Event::ToolchainSwitched), None);
    assert_eq!(step(waiting(), Event::ForcVersion("x".to_string())), None);
    assert_eq!(step(waiting(), Event::ProjectCreated(None)), None);
    assert_eq!(step(waiting(), Event::MainFileWritten(true)), None);
    assert_eq!(step(waiting(), Event::ProjectRemoved(true)), None);
    assert_eq!(
        step(
            waiting(),
            Event::Artifacts {
                abi: String::new(),
                bytecode: Vec::new(),
                storage_slots: Vec::new()
            }
        ),
        None
    );
    assert_eq!(
        step(
            State::SwitchingToolchain {
                contract: CONTRACT.to_string()
            },
            Event::ProjectRemoved(true)
        ),
        None
    );
    assert_eq!(
        step(
            State::RemovingBuilt {
                response: success_response()
            },
            Event::MainFileWritten(true)
        ),
        None
    );
}

#[test]
fn a_finished_operation_waits_for_nothing() {
    assert_eq!(step(State::Finished, Event::ToolchainSwitched), None);
    assert_eq!(step(State::Finished, Event::ProjectRemoved(true)), None);
    assert_eq!(step(State::Finished, Event::ProjectCreated(None)), None);
    assert_eq!(
        step(
            State::Finished,
            Event::Built {
                success: true,
                stderr: String::new()
            }
        ),
        None
    );
}

#[test]
fn every_staged_project_is_removed() {
    let mut unwritten = up_to_build("ab12");
    unwritten[3] = Event::MainFileWritten(false);
    unwritten.push(Event::ProjectRemoved(true));
    for events in [
        success_events("ab12", true),
        success_events("ab12", false),
        failure_events("ab12", true),
        failure_events("ab12", false),
        unwritten,
    ] {
        let (state, actions) = drive(CONTRACT, "latest", events);
        assert_eq!(state, State::Finished);
        let staged = actions
            .iter()
            .position(|a| matches!(a, Action::WriteMainFile { project, .. } if project == "ab12"))
            .expect("the project is staged");
        let removed = actions
            .iter()
            .position(|a| matches!(a, Action::RemoveProject { project } if project == "ab12"))
            .expect("the project is removed");
        assert!(staged < removed);
        assert!(matches!(actions.last(), Some(Action::Finish(_))));
    }
}

#[test]
fn every_build_is_followed_by_a_removal() {
    for events in [
        success_events("ab12", true),
        success_events("ab12", false),
        failure_events("ab12", true),
        failure_events("ab12", false),
    ] {
        let (state, actions) = drive(CONTRACT, "latest", events);
        assert_eq!(state, State::Finished);
        let built = actions
            .iter()
            .position(|a| matches!(a, Action::BuildProject { project } if project == "ab12"))
            .expect("the project is built");
        let removed = actions
            .iter()
            .position(|a| matches!(a, Action::RemoveProject { project } if project == "ab12"))
            .expect("the project is removed");
        assert!(built < removed);
        assert!(matches!(actions.last(), Some(Action::Finish(_))));
    }
}

#[test]
fn the_version_is_trimmed_of_what_surrounds_it() {
    let (state, _) = drive(
        CONTRACT,
        "latest",
        vec![
            Event::ToolchainSwitched,
            Event::ForcVersion("  forc 0.46.0\n".to_string()),
        ],
    );
    assert_eq!(
        state,
        State::CreatingProject {
            contract: CONTRACT.to_string(),
            forc_version: "forc 0.46.0".to_string()
        }
    );
}

#[test]
fn the_version_shows_in_both_kinds_of_response() {
    let mut events = success_events("ab12", true);
    events[1] = Event::ForcVersion("0.50.1\r\n".to_string());
    let (_, actions) = drive(CONTRACT, "latest", events);
    match actions.last() {
        Some(Action::Finish(Ok(response))) => assert_eq!(response.forc_version, "0.50.1"),
        other => panic!("unexpected action {:?}", other),
    }
    let mut events = failure_events("ab12", true);
    events[1] = Event::ForcVersion("0.50.1\r\n".to_string());
    let (_, actions) = drive(CONTRACT, "latest", events);
    match actions.last() {
        Some(Action::Finish(Ok(response))) => assert_eq!(response.forc_version, "0.50.1"),
        other => panic!("unexpected action {:?}", other),
    }
}
