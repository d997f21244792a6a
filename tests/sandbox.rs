use cs453_pap_worker::util_docker::{
    bind_spec, confirm_built, containers_of_image, ephemeral_container_name, get_container, get_image,
    prepare, sideline_name, Action, ContainerInfo, Event, ExitStatus, Fault, ImageInfo, Phase, Prepare, Run,
};

fn sandboxed(timeout_ms: Option<u64>) -> Run {
    let (run, first) = Run::sandbox("worker-0", "gcov", vec!["true".to_string()], timeout_ms, vec![bind_spec("/data/h", "/test")], None);
    match first {
        Action::LookupContainer(n) => assert_eq!(n, "gcov-ephemeral-worker-0"),
        _ => panic!("expected a lookup of the ephemeral name"),
    }
    run
}

fn to_following(run: &mut Run) {
    let tag = run.tag.clone();
    assert!(matches!(run.step(Event::NameLookup(None)), Action::LookupImage(t) if t == tag));
    assert!(matches!(run.step(Event::ImageLookup(Some("sha:1".to_string()))), Action::Create(i) if i == "sha:1"));
    assert!(matches!(run.step(Event::Created { id: "c1".to_string(), warnings: false }), Action::Start(c) if c == "c1"));
    assert!(matches!(run.step(Event::Started), Action::NextFrame(c) if c == "c1"));
}

#[test]
fn sandbox_defaults() {
    let run = sandboxed(None);
    assert_eq!(run.timeout_ms, Some(60000));
    assert!(!run.net);
    assert!(run.tty);
    assert!(!run.console);
    assert_eq!(run.binds, vec!["/data/h:/test".to_string()]);
    assert_eq!(run.phase, Phase::LookupName);
    assert!(!run.attach_stdin && run.attach_output);
    assert_eq!(run.stack_limit, -1);
    assert_eq!(ephemeral_container_name("afl", "worker-3"), "afl-ephemeral-worker-3");
    assert_eq!(sideline_name("worker-3"), "worker-3-sideline");
}

#[test]
fn successful_run_removes_its_container() {
    let mut run = sandboxed(Some(10000));
    to_following(&mut run);
    assert!(matches!(run.step(Event::Frame { stdin: false, elapsed_ms: 5 }), Action::NextFrame(_)));
    assert!(matches!(run.step(Event::Transient), Action::NextFrame(_)));
    assert!(matches!(run.step(Event::LogsEnd), Action::NextCode(_)));
    assert!(matches!(run.step(Event::Code(0)), Action::NextCode(_)));
    assert!(matches!(run.step(Event::WaitEnd), Action::Remove(c) if c == "c1"));
    assert!(run.live);
    assert!(matches!(run.step(Event::Removed), Action::Finish(Ok(ExitStatus::Success))));
    assert!(!run.live);
    assert_eq!(run.phase, Phase::Done);
}

#[test]
fn nonzero_exit_is_failure() {
    let mut run = sandboxed(None);
    to_following(&mut run);
    run.step(Event::LogsEnd);
    run.step(Event::Code(139));
    assert!(matches!(run.step(Event::WaitEnd), Action::Remove(_)));
    assert!(matches!(run.step(Event::Removed), Action::Finish(Ok(ExitStatus::Failure))));
}

#[test]
fn timeout_removes_the_running_container() {
    let mut run = sandboxed(Some(10000));
    to_following(&mut run);
    assert!(matches!(run.step(Event::Frame { stdin: false, elapsed_ms: 10000 }), Action::NextFrame(_)));
    assert!(matches!(run.step(Event::Frame { stdin: false, elapsed_ms: 10001 }), Action::Remove(c) if c == "c1"));
    assert!(matches!(run.step(Event::Removed), Action::Finish(Ok(ExitStatus::Timeout))));
    assert!(!run.live);
}

#[test]
fn faults_after_creation_still_remove() {
    let mut run = sandboxed(None);
    run.step(Event::NameLookup(None));
    run.step(Event::ImageLookup(Some("sha:1".to_string())));
    assert!(matches!(run.step(Event::Created { id: "c9".to_string(), warnings: true }), Action::Remove(c) if c == "c9"));
    assert!(matches!(run.step(Event::Removed), Action::Finish(Err(Fault::CreateWarning))));

    let mut run = sandboxed(None);
    to_following(&mut run);
    run.step(Event::LogsEnd);
    run.step(Event::Code(0));
    assert!(matches!(run.step(Event::Code(1)), Action::Remove(_)));
    assert!(matches!(run.step(Event::Removed), Action::Finish(Err(Fault::ConflictingStatus))));

    let mut run = sandboxed(None);
    to_following(&mut run);
    run.step(Event::LogsEnd);
    assert!(matches!(run.step(Event::WaitEnd), Action::Remove(_)));
    assert!(matches!(run.step(Event::Removed), Action::Finish(Err(Fault::NoStatus))));

    let mut run = sandboxed(None);
    to_following(&mut run);
    assert!(matches!(run.step(Event::Failed), Action::Remove(_)));
    assert!(matches!(run.step(Event::Failed), Action::Finish(Err(Fault::Engine))));
}

#[test]
fn faults_before_creation_finish_at_once() {
    let mut run = sandboxed(None);
    assert!(matches!(run.step(Event::NameLookup(Some("old".to_string()))), Action::Finish(Err(Fault::ContainerExists))));
    let mut run = sandboxed(None);
    run.step(Event::NameLookup(None));
    assert!(matches!(run.step(Event::ImageLookup(None)), Action::Finish(Err(Fault::ImageMissing))));
    assert!(!Fault::ImageMissing.message().is_empty());
}

#[test]
fn commit_only_after_success() {
    let (mut run, _) = Run::new("provision", "symcc-base", Some("symcc".to_string()), vec!["bash".to_string()], true, false, true, None, vec![], None);
    to_following(&mut run);
    run.step(Event::LogsEnd);
    run.step(Event::Code(0));
    assert!(matches!(run.step(Event::WaitEnd), Action::Commit(c, r) if c == "c1" && r == "symcc"));
    assert!(matches!(run.step(Event::Committed), Action::Remove(_)));
    assert!(matches!(run.step(Event::Removed), Action::Finish(Ok(ExitStatus::Success))));

    let (mut run, _) = Run::new("provision", "symcc-base", Some("symcc".to_string()), vec!["bash".to_string()], true, false, true, None, vec![], None);
    to_following(&mut run);
    run.step(Event::LogsEnd);
    run.step(Event::Code(2));
    assert!(matches!(run.step(Event::WaitEnd), Action::Remove(_)));
    assert!(matches!(run.step(Event::Removed), Action::Finish(Err(Fault::AbortCommit))));
}

fn image(id: &str, tags: &[&str]) -> ImageInfo {
    ImageInfo { id: id.to_string(), repo_tags: tags.iter().map(|t| t.to_string()).collect() }
}

#[test]
fn images_are_found_by_latest_tag() {
    let list = vec![image("i1", &["gcov:latest"]), image("i2", &["afl:latest", "afl:v1"]), image("i1", &["gcov:latest"])];
    assert_eq!(get_image(&list, "gcov"), Ok(Some("i1".to_string())));
    assert_eq!(get_image(&list, "afl"), Ok(Some("i2".to_string())));
    assert_eq!(get_image(&list, "klee"), Ok(None));
    let twice = vec![image("i1", &["gcov:latest"]), image("i3", &["gcov:latest"])];
    assert_eq!(get_image(&twice, "gcov"), Err(Fault::AmbiguousImage));
}

fn container(id: Option<&str>, names: &[&str], image: Option<&str>, image_id: Option<&str>) -> ContainerInfo {
    ContainerInfo {
        id: id.map(|s| s.to_string()),
        names: Some(names.iter().map(|n| n.to_string()).collect()),
        image: image.map(|s| s.to_string()),
        image_id: image_id.map(|s| s.to_string()),
    }
}

#[test]
fn containers_are_found_by_name_and_image() {
    let list = vec![
        container(Some("c1"), &["/gcov-ephemeral-worker-0"], Some("gcov"), Some("i1")),
        container(Some("c2"), &["other"], Some("i1"), None),
        container(None, &["gcov-ephemeral-worker-1"], None, Some("i1")),
        container(Some("c3"), &["gcov-ephemeral-worker-2"], None, Some("i2")),
    ];
    assert_eq!(get_container(&list, "gcov-ephemeral-worker-0"), Ok(Some("c1".to_string())));
    assert_eq!(get_container(&list, "gcov-ephemeral-worker-1"), Ok(None));
    assert_eq!(get_container(&list, "gcov-ephemeral-worker-2"), Ok(Some("c3".to_string())));
    assert_eq!(containers_of_image(&list, "i1"), vec!["c1".to_string(), "c2".to_string()]);
    let dup = vec![container(Some("a"), &["n"], None, None), container(Some("b"), &["/n"], None, None)];
    assert_eq!(get_container(&dup, "n"), Err(Fault::AmbiguousContainer));
}

#[test]
fn build_preparation() {
    assert_eq!(prepare(None, true), Prepare::Fresh);
    assert_eq!(prepare(Some("i1".to_string()), false), Prepare::Reuse);
    assert_eq!(prepare(Some("i1".to_string()), true), Prepare::Replace("i1".to_string()));
    assert_eq!(confirm_built(Some("i1".to_string())), Ok("i1".to_string()));
    assert_eq!(confirm_built(None), Err(Fault::BuildMissing));
}
