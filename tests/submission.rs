use cs453_pap_worker::server::malformed_reply;
use cs453_pap_worker::submission::{
    check_layout, id_of_digest, index_bytes, probe_base, submission_bytes, submission_id, CaseDir,
    Entry, EntryKind, Malformed,
};

fn entry(name: &str, kind: EntryKind, size: u64) -> Entry {
    Entry { name: name.to_string(), kind, size }
}

fn top() -> Vec<Entry> {
    vec![
        entry("main.c", EntryKind::File, 100),
        entry("input", EntryKind::Dir, 0),
        entry("crash", EntryKind::Dir, 0),
    ]
}

fn cases(names: &[(&str, u64)]) -> Option<Vec<Entry>> {
    Some(names.iter().map(|(n, s)| entry(n, EntryKind::File, *s)).collect())
}

#[test]
fn program_of_exactly_256_kib_is_accepted() {
    let r = check_layout(&top(), Some(262144), &cases(&[]), &cases(&[]));
    assert!(r.is_ok());
}

#[test]
fn program_one_byte_over_256_kib_is_rejected() {
    let r = check_layout(&top(), Some(262145), &cases(&[]), &cases(&[]));
    match r {
        Err(Malformed::ProgramTooBig) => {}
        _ => panic!("expected a too big program"),
    }
    assert_eq!(Malformed::ProgramTooBig.message(), "main.c is too big");
}

#[test]
fn input_case_of_1024_bytes_is_accepted() {
    let r = check_layout(&top(), Some(10), &cases(&[("t1", 1024)]), &cases(&[]));
    let l = r.ok().expect("accepted");
    assert_eq!(l.inputs, vec!["t1".to_string()]);
}

#[test]
fn input_case_of_1025_bytes_is_rejected() {
    let r = check_layout(&top(), Some(10), &cases(&[("t1", 1025)]), &cases(&[]));
    match r {
        Err(e) => assert_eq!(e.message(), "input/t1 is too big"),
        Ok(_) => panic!("expected a refusal"),
    }
}

#[test]
fn empty_case_directories_are_accepted() {
    let l = check_layout(&top(), Some(10), &cases(&[]), &cases(&[])).ok().expect("accepted");
    assert!(l.inputs.is_empty());
    assert!(l.crashes.is_empty());
    assert!(l.remove.is_empty());
}

#[test]
fn only_main_c_reports_missing_inputs() {
    let t = vec![entry("main.c", EntryKind::File, 20)];
    let r = check_layout(&t, Some(20), &None, &None);
    match r {
        Err(e) => {
            assert_eq!(e.message(), "input/ is missing");
            let reply = malformed_reply(&e);
            assert_eq!(reply.code, 400);
            assert!(reply.body.starts_with("[error]"));
            assert!(reply.body.contains("input/ is missing"));
        }
        Ok(_) => panic!("expected a refusal"),
    }
}

#[test]
fn unknown_entry_is_unrecognized() {
    let mut t = top();
    t.push(entry("notes.txt", EntryKind::File, 3));
    t.push(entry("other", EntryKind::File, 3));
    match check_layout(&t, Some(10), &cases(&[]), &cases(&[])) {
        Err(e) => assert_eq!(e.message(), "unrecognized item: notes.txt"),
        Ok(_) => panic!("expected a refusal"),
    }
}

#[test]
fn readme_is_kept_and_output_is_stripped() {
    let mut t = top();
    t.push(entry("README.md", EntryKind::File, 3));
    t.push(entry("output", EntryKind::Dir, 0));
    t.push(entry("interface.h", EntryKind::File, 3));
    let l = check_layout(&t, Some(10), &cases(&[]), &cases(&[])).ok().expect("accepted");
    assert_eq!(l.remove, vec!["output".to_string()]);
}

#[test]
fn readme_directory_and_output_file_are_refused() {
    let mut t = top();
    t.push(entry("README", EntryKind::Dir, 0));
    match check_layout(&t, Some(10), &cases(&[]), &cases(&[])) {
        Err(e) => assert_eq!(e.message(), "unrecognized item: README"),
        Ok(_) => panic!("expected a refusal"),
    }
    let mut t = top();
    t.push(entry("output.log", EntryKind::File, 1));
    assert!(check_layout(&t, Some(10), &cases(&[]), &cases(&[])).is_err());
}

#[test]
fn missing_program_and_bad_cases_are_reported() {
    match check_layout(&top(), None, &cases(&[]), &cases(&[])) {
        Err(e) => assert_eq!(e.message(), "main.c is missing"),
        Ok(_) => panic!("expected a refusal"),
    }
    let crashes = Some(vec![entry("c1", EntryKind::Dir, 0)]);
    match check_layout(&top(), Some(1), &cases(&[("t1", 1)]), &crashes) {
        Err(Malformed::CaseInvalid(CaseDir::Crash, n)) => assert_eq!(n, "c1"),
        _ => panic!("expected an invalid crash case"),
    }
    match check_layout(&top(), Some(1), &cases(&[("t1", 1)]), &None) {
        Err(e) => assert_eq!(e.message(), "crash/ is missing"),
        Ok(_) => panic!("expected a refusal"),
    }
}

#[test]
fn nested_and_flat_uploads_reach_the_same_base() {
    assert!(!probe_base(&top()));
    assert!(probe_base(&vec![entry("submission", EntryKind::Dir, 0)]));
    assert!(!probe_base(&vec![entry("main.c", EntryKind::File, 3)]));
    assert!(!probe_base(&vec![]));
}

#[test]
fn index_is_eight_little_endian_bytes() {
    assert_eq!(index_bytes(0), vec![0u8; 8]);
    assert_eq!(index_bytes(258), vec![2u8, 1, 0, 0, 0, 0, 0, 0]);
    assert_eq!(index_bytes(u64::MAX), vec![255u8; 8]);
}

#[test]
fn stream_frames_program_and_cases() {
    let s = submission_bytes(&b"ab".to_vec(), &vec![b"x".to_vec()], &vec![]);
    let mut expect = b"programab".to_vec();
    expect.extend_from_slice(b"input");
    expect.extend_from_slice(&[0u8; 8]);
    expect.extend_from_slice(b"x");
    assert_eq!(s, expect);
}

#[test]
fn digest_is_written_in_lower_case_hex() {
    assert_eq!(id_of_digest(&vec![0x00, 0xab, 0x5f]), "00ab5f");
    assert_eq!(id_of_digest(&vec![]), "");
}

#[test]
fn identifier_is_the_sha3_of_the_stream() {
    let id = submission_id(&b"int main(){}".to_vec(), &vec![b"hello".to_vec()], &vec![b"boom".to_vec()]);
    assert_eq!(id, "0d94698c42ba73e69c2b79722c5fa0d1bfbd1882a676e8529b8a777c3c4fb256");
    let again =
        submission_id(&b"int main(){}".to_vec(), &vec![b"hello".to_vec()], &vec![b"boom".to_vec()]);
    assert_eq!(id, again);
    assert_eq!(
        submission_id(&b"x".to_vec(), &vec![], &vec![]),
        "cb8d15eb6b956f1228231026990fb7c49030fd2a874511722917b682732d3eb4"
    );
}
