use cs453_pap_worker::tool_gcov::{baseline_result, gcov_result, parse_gcov_json_report, GcovReport};
use cs453_pap_worker::util_docker::ExitStatus;
use cs453_pap_worker::packet::{DockedPacket, Lookup, Packet, Registry, RegistryError, ScanEntry, Status};
use cs453_pap_worker::server::submit_message;
use cs453_pap_worker::submission::{Entry, EntryKind, Malformed};

fn entry(name: &str, kind: EntryKind, size: u64) -> Entry {
    Entry { name: name.to_string(), kind, size }
}

/// Registers an upload whose entries match the given contents.
fn register(r: &mut Registry, program: &[u8], inputs: &[&[u8]], crashes: &[&[u8]]) -> Result<(Packet, bool), Malformed> {
    let top = vec![
        entry("main.c", EntryKind::File, program.len() as u64),
        entry("input", EntryKind::Dir, 0),
        entry("crash", EntryKind::Dir, 0),
    ];
    let listed = |cases: &[&[u8]]| -> Option<Vec<Entry>> {
        Some(cases.iter().enumerate().map(|(i, c)| entry(&format!("c{}", i), EntryKind::File, c.len() as u64)).collect())
    };
    let in_data: Vec<Vec<u8>> = inputs.iter().map(|c| c.to_vec()).collect();
    let cr_data: Vec<Vec<u8>> = crashes.iter().map(|c| c.to_vec()).collect();
    r.register(&top, Some(program.len() as u64), &listed(inputs), &listed(crashes), &program.to_vec(), &in_data, &cr_data)
}

fn scan(hash: &str, has_result: bool, has_error: bool) -> ScanEntry {
    ScanEntry { hash: hash.to_string(), has_result, has_error }
}

fn queued_position(r: &Registry, h: &str) -> Option<(usize, String)> {
    match r.load_packet_status(h.to_string()) {
        Ok(Lookup::Queued { position, message }) => Some((position, message)),
        _ => None,
    }
}

#[test]
fn first_submit_is_queued_at_position_zero() {
    let mut r = Registry::new("/data".to_string(), vec![]);
    let (p, existed) = register(&mut r, b"int main(){}", &[b"0123456789"], &[b"9876543210"]).ok().expect("accepted");
    assert!(!existed);
    let msg = submit_message(existed, &p);
    assert!(msg.contains("is scheduled for analysis"));
    assert!(msg.contains(&format!("/status/{}", p.id())));
    r.queue(p.clone());
    assert_eq!(queued_position(&r, p.id()), Some((0, "queued at position 0".to_string())));
}

#[test]
fn duplicate_submit_is_not_queued_again() {
    let mut r = Registry::new("/data".to_string(), vec![]);
    let (p, existed) = register(&mut r, b"x", &[], &[]).ok().expect("accepted");
    assert!(!existed);
    r.queue(p.clone());
    let (q, existed) = register(&mut r, b"x", &[], &[]).ok().expect("accepted");
    assert!(existed);
    assert_eq!(p.id(), q.id());
    let msg = submit_message(existed, &q);
    assert!(msg.contains("has been submitted before"));
    assert_eq!(r.snapshot().len(), 1);
}

#[test]
fn unknown_status_is_no_such_package() {
    let r = Registry::new("/data".to_string(), vec![]);
    let zeros = "0".repeat(64);
    assert!(matches!(r.load_packet_status(zeros), Ok(Lookup::Unknown)));
}

#[test]
fn restart_requeues_pending_and_clears_errors() {
    let entries = vec![scan("aa", false, false), scan("bb", true, false), scan("cc", false, true)];
    assert!(!entries[0].stale_error());
    assert!(!entries[1].stale_error());
    assert!(entries[2].stale_error());
    assert!(!scan("dd", true, true).stale_error());
    let r = Registry::new("/data".to_string(), entries);
    let snap = r.snapshot();
    let found: Vec<(String, Status)> = snap.iter().map(|(p, s)| (p.id().to_string(), *s)).collect();
    assert_eq!(
        found,
        vec![
            ("aa".to_string(), Status::Received),
            ("bb".to_string(), Status::Completed),
            ("cc".to_string(), Status::Received),
        ]
    );
    assert_eq!(queued_position(&r, "aa").map(|x| x.0), Some(0));
    assert_eq!(queued_position(&r, "cc").map(|x| x.0), Some(1));
    match r.load_packet_status("bb".to_string()) {
        Ok(Lookup::Completed { path }) => assert_eq!(path, "/data/bb/result.json"),
        _ => panic!("expected a completed packet"),
    }
}

#[test]
fn crash_recovery_requeues_at_position_zero() {
    let r = Registry::new("/data".to_string(), vec![scan("ab12", false, false)]);
    assert_eq!(queued_position(&r, "ab12"), Some((0, "queued at position 0".to_string())));
}

#[test]
fn queueing_twice_keeps_one_entry() {
    let mut r = Registry::new("/data".to_string(), vec![scan("aa", false, false)]);
    r.queue(Packet::new("aa".to_string()));
    r.queue(Packet::new("bb".to_string()));
    assert_eq!(queued_position(&r, "aa").map(|x| x.0), Some(0));
    assert_eq!(queued_position(&r, "bb").map(|x| x.0), Some(1));
}

#[test]
fn saving_moves_packets_out_of_the_queue() {
    let mut r = Registry::new("/data".to_string(), vec![scan("aa", false, false), scan("bb", false, false)]);
    r.save_result(Packet::new("aa".to_string()));
    assert_eq!(queued_position(&r, "bb").map(|x| x.0), Some(0));
    match r.load_packet_status("aa".to_string()) {
        Ok(Lookup::Completed { path }) => assert_eq!(path, "/data/aa/result.json"),
        _ => panic!("expected a completed packet"),
    }
    r.save_error(Packet::new("bb".to_string()));
    match r.load_packet_status("bb".to_string()) {
        Ok(Lookup::Failed { path }) => assert_eq!(path, "/data/bb/error"),
        _ => panic!("expected a failed packet"),
    }
    r.save_result(Packet::new("aa".to_string()));
    assert_eq!(r.snapshot().len(), 2);
    assert_eq!(RegistryError::NotQueued.message(), "unable to find packet in queue");
}

#[test]
fn paths_of_a_docked_packet() {
    let r = Registry::new("/data".to_string(), vec![]);
    let p = Packet::new("h1".to_string());
    assert_eq!(r.stage_dir(&p, "gcov"), "/data/h1/output/gcov");
    let d: DockedPacket = r.mk_dockerized_packet(&p, "gcov", "/test", &vec!["0".to_string(), "1".to_string()], &vec!["0".to_string()]);
    assert_eq!(d.host_base, "/data/h1");
    assert_eq!(d.host_output, "/data/h1/output/gcov");
    assert_eq!(d.path_program, "/test/main.c");
    assert_eq!(d.path_input, "/test/input");
    assert_eq!(d.path_input_cases, vec!["/test/input/0".to_string(), "/test/input/1".to_string()]);
    assert_eq!(d.path_crash_cases, vec!["/test/crash/0".to_string()]);
    assert_eq!(d.path_output, "/test/output/gcov");
    assert_eq!(d.wks_path("main"), ("/data/h1/output/gcov/main".to_string(), "/test/output/gcov/main".to_string()));
    let root = Registry::new("/".to_string(), vec![]);
    assert_eq!(root.packet_dir(&p), "/h1");
}

#[test]
fn happy_path_completion_is_recorded() {
    let mut r = Registry::new("/data".to_string(), vec![]);
    let (p, existed) = register(&mut r, b"int main(){return 0;}", &[b"0123456789"], &[b"9876543210"]).ok().expect("accepted");
    assert!(!existed);
    r.queue(p.clone());
    let baseline = baseline_result(&vec![ExitStatus::Success, ExitStatus::Success, ExitStatus::Failure], 1, 1);
    assert!(baseline.compiled);
    assert_eq!(baseline.input_pass + baseline.input_fail, 1);
    assert_eq!(baseline.crash_pass + baseline.crash_fail, 1);
    let gcov = gcov_result(parse_gcov_json_report(&GcovReport { files: vec![] })).expect("report");
    assert!(gcov.completed && gcov.num_blocks >= gcov.cov_blocks);
    r.save_result(p.clone());
    match r.load_packet_status(p.id().to_string()) {
        Ok(Lookup::Completed { path }) => assert_eq!(path, format!("/data/{}/result.json", p.id())),
        _ => panic!("expected a completed packet"),
    }
}

#[test]
fn oversized_submissions_are_refused_without_a_trace() {
    let mut r = Registry::new("/data".to_string(), vec![]);
    let big = vec![b' '; 262145];
    match register(&mut r, &big, &[], &[]) {
        Err(e) => assert_eq!(e.message(), "main.c is too big"),
        Ok(_) => panic!("expected a refusal"),
    }
    let case = vec![b'a'; 1025];
    match register(&mut r, b"int main(){return 0;}\n", &[&case], &[]) {
        Err(e) => assert_eq!(e.message(), "input/c0 is too big"),
        Ok(_) => panic!("expected a refusal"),
    }
    assert!(r.snapshot().is_empty());
    let exact = vec![b' '; 262144];
    let (p, existed) = register(&mut r, &exact, &[], &[]).ok().expect("accepted");
    assert!(!existed);
    assert_eq!(p.id().len(), 64);
}

#[test]
fn released_claims_can_be_made_again() {
    let mut r = Registry::new("/data".to_string(), vec![]);
    let (p, existed) = register(&mut r, b"x", &[], &[]).ok().expect("accepted");
    assert!(!existed);
    r.release(&p);
    let (_, existed) = register(&mut r, b"x", &[], &[]).ok().expect("accepted");
    assert!(!existed);
    let (_, existed) = register(&mut r, b"x", &[], &[]).ok().expect("accepted");
    assert!(existed);
}
