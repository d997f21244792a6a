use cs453_pap_worker::packet::{Packet, Registry};
use cs453_pap_worker::process::{provision, AnalysisResult, ProvisionStep};
use cs453_pap_worker::server::{make_ok, make_sanity_error, make_server_error, Action, Method, RequestError};
use cs453_pap_worker::stage::{command, count_status, Expect, Next, Script, Step};
use cs453_pap_worker::tool_aflpp::{aflpp_script, count_crashes, ResultAFLpp};
use cs453_pap_worker::tool_gcov::{
    baseline_result, baseline_script, case_command, gcov_result, gcov_script, parse_gcov_json_report,
    GcovFile, GcovFunction, GcovLine, GcovReport, ResultBaseline, ResultGcov,
};
use cs453_pap_worker::tool_klee::{count_klee_crashes, klee_script, ResultKLEE};
use cs453_pap_worker::tool_symcc::{fuzzer_dirs, helper_step, readiness, side_fuzzer_step, symcc_script, Readiness, ResultSymCC};
use cs453_pap_worker::util_docker::ExitStatus;

fn docked(stage: &str) -> cs453_pap_worker::packet::DockedPacket {
    let r = Registry::new("/data".to_string(), vec![]);
    r.mk_dockerized_packet(&Packet::new("h".to_string()), stage, "/test", &vec!["0".to_string()], &vec!["0".to_string(), "1".to_string()])
}

fn strings(v: &[&str]) -> Vec<String> {
    v.iter().map(|s| s.to_string()).collect()
}

#[test]
fn baseline_commands() {
    let s = baseline_script(&docked("baseline"));
    assert_eq!(s.steps.len(), 4);
    assert_eq!(s.steps[0].cmd, strings(&["gcc", "/test/main.c", "-o", "/test/output/baseline/main"]));
    assert_eq!(s.steps[1].cmd, strings(&["bash", "-c", "timeout 10 /test/output/baseline/main < /test/input/0"]));
    assert_eq!(s.steps[3].cmd, strings(&["bash", "-c", "timeout 10 /test/output/baseline/main < /test/crash/1"]));
    assert_eq!(s.steps[1].timeout_ms, Some(10000));
    assert_eq!(s.steps[3].timeout_ms, Some(10000));
    assert_eq!(case_command("p", "c"), strings(&["bash", "-c", "timeout 10 p < c"]));
}

#[test]
fn baseline_counts() {
    let st = vec![ExitStatus::Success, ExitStatus::Success, ExitStatus::Timeout, ExitStatus::Failure, ExitStatus::Success];
    let r = baseline_result(&st, 2, 2);
    assert_eq!(r, ResultBaseline { compiled: true, input_pass: 1, input_fail: 1, crash_pass: 1, crash_fail: 1 });
    let r = baseline_result(&vec![ExitStatus::Failure], 3, 1);
    assert_eq!(r, ResultBaseline { compiled: false, input_pass: 0, input_fail: 0, crash_pass: 0, crash_fail: 0 });
    assert_eq!(count_status(&st, 1, 5, ExitStatus::Success), 2);
}

#[test]
fn baseline_verdicts() {
    let mut r = ResultBaseline { compiled: false, input_pass: 0, input_fail: 0, crash_pass: 0, crash_fail: 0 };
    assert_eq!(r.to_human_readable(), "[failure] unable to compile the program");
    r.compiled = true;
    r.input_fail = 3;
    assert_eq!(r.to_human_readable(), "[failure] none of the 3 test case(s) under 'input/' directory executes successfully");
    r.input_pass = 2;
    assert_eq!(r.to_human_readable(), "[failure] 3 out of 5 test case(s) under 'input/' directory crash or timeout");
    r.input_fail = 0;
    r.crash_fail = 4;
    assert_eq!(r.to_human_readable(), "[failure] none of the 4 test case(s) under 'crash/' directory actually crash the program");
    r.crash_pass = 1;
    assert_eq!(r.to_human_readable(), "[success] baseline check passed");
}

#[test]
fn script_stops_at_first_miss() {
    let steps = vec![
        Step { cmd: command(&["a"]), timeout_ms: None, expect: Expect::Success },
        Step { cmd: command(&["b"]), timeout_ms: Some(5), expect: Expect::Timeout },
    ];
    let mut s = Script::new(steps);
    assert_eq!(s.next(), Next::Run(0));
    s.record(ExitStatus::Success);
    assert_eq!(s.next(), Next::Run(1));
    s.record(ExitStatus::Timeout);
    assert_eq!(s.next(), Next::Complete);
    let mut s = Script::new(vec![Step { cmd: command(&["a"]), timeout_ms: None, expect: Expect::NotFailure }]);
    s.record(ExitStatus::Failure);
    assert_eq!(s.next(), Next::Incomplete);
}

fn func(name: &str, blocks: u64, executed: u64) -> GcovFunction {
    GcovFunction { name: name.to_string(), blocks, blocks_executed: executed }
}

fn line(name: Option<&str>, counts: &[u64]) -> GcovLine {
    GcovLine { function_name: name.map(|s| s.to_string()), branch_counts: counts.to_vec() }
}

#[test]
fn gcov_report_totals() {
    let report = GcovReport {
        files: vec![GcovFile {
            functions: vec![func("main", 10, 4), func("f", 5, 5), func("main", 8, 3)],
            lines: vec![line(Some("main"), &[0, 2, 0]), line(None, &[0]), line(Some("f"), &[1])],
        }],
    };
    assert_eq!(parse_gcov_json_report(&report), Some((13, 10)));
    let bad = GcovReport { files: vec![GcovFile { functions: vec![func("main", 1, 1)], lines: vec![line(Some("g"), &[])] }] };
    assert_eq!(parse_gcov_json_report(&bad), None);
    let big = GcovReport {
        files: vec![
            GcovFile { functions: vec![func("a", u64::MAX, 0)], lines: vec![] },
            GcovFile { functions: vec![func("a", u64::MAX, 0)], lines: vec![] },
        ],
    };
    assert_eq!(parse_gcov_json_report(&big), None);
    assert_eq!(parse_gcov_json_report(&GcovReport { files: vec![] }), Some((0, 0)));
    assert_eq!(gcov_result(Some((3, 2))), Some(ResultGcov { completed: true, num_blocks: 3, cov_blocks: 2 }));
    assert_eq!(gcov_result(None), None);
}

#[test]
fn gcov_commands_and_verdicts() {
    let s = gcov_script(&docked("gcov"));
    assert_eq!(s.steps.len(), 3);
    assert_eq!(s.steps[0].cmd, strings(&["gcc", "-fprofile-arcs", "-ftest-coverage", "-g", "/test/main.c", "-o", "/test/output/gcov/main"]));
    assert_eq!(s.steps[2].cmd, strings(&["bash", "-c", "gcov -a -b -o /test -n main.c -j -t > /test/output/gcov/report.json"]));
    assert_eq!(ResultGcov::incomplete().to_human_readable(), "[failure] unable to complete GCOV measurement");
    let r = ResultGcov { completed: true, num_blocks: 3, cov_blocks: 2 };
    assert_eq!(r.to_human_readable(), "[failure] GCOV coverage at 66.67%");
    let r = ResultGcov { completed: true, num_blocks: 200, cov_blocks: 1 };
    assert_eq!(r.to_human_readable(), "[failure] GCOV coverage at 0.50%");
    let r = ResultGcov { completed: true, num_blocks: 4, cov_blocks: 4 };
    assert_eq!(r.to_human_readable(), "[success] 100% GCOV coverage");
}

#[test]
fn fuzzing_commands_and_crashes() {
    let s = aflpp_script(&docked("aflpp"));
    assert_eq!(s.steps[1].cmd, strings(&["afl-fuzz", "-i", "/test/input", "-o", "/test/output/aflpp/output", "--", "/test/output/aflpp/main"]));
    assert_eq!(s.steps[1].expect, Expect::Timeout);
    assert_eq!(s.steps[2].cmd, strings(&["chmod", "-R", "777", "/test/output/aflpp/output"]));
    assert_eq!(count_crashes(&strings(&["README.txt", "id:000000", "id:000001"])), 2);
    let r = ResultAFLpp::from_crashes(&strings(&["README.txt"]));
    assert_eq!(r, ResultAFLpp { completed: true, num_crashes: 0 });
    assert_eq!(r.to_human_readable(), "[success] AFL++ found no crashes");
    assert_eq!(ResultAFLpp::incomplete().to_human_readable(), "[failure] unable to complete AFL++ fuzzing");
}

#[test]
fn klee_commands_and_crashes() {
    let s = klee_script(&docked("klee"));
    assert_eq!(s.steps[0].cmd, strings(&["clang", "-emit-llvm", "-g", "-O0", "-c", "/test/main.c", "-o", "/test/output/klee/main.bc"]));
    assert_eq!(s.steps[1].cmd[6], "--output-dir=/test/output/klee/output");
    assert_eq!(s.steps[1].expect, Expect::NotFailure);
    let names = strings(&["test000001.ktest", "test000001.ptr.err", "test000002.ktest", "test000003.ptr.err", "info", "test000002.err"]);
    assert_eq!(count_klee_crashes(&names), 2);
    let r = ResultKLEE::from_outputs(&names);
    assert_eq!(ResultKLEE { completed: true, num_crashes: 0 }.to_human_readable(), "[success] KLEE found no crashes");
    assert_eq!(ResultKLEE::incomplete().to_human_readable(), "[failure] unable to complete KLEE symbolic execution");
    assert_eq!(r.to_human_readable(), "[failure] KLEE found 2 crashes");
    assert_eq!(ResultKLEE::incomplete(), ResultKLEE { completed: false, num_crashes: 0 });
}

#[test]
fn hybrid_commands_and_result() {
    let d = docked("symcc");
    let s = symcc_script(&d);
    assert_eq!(s.steps[0].cmd, strings(&["/afl/afl-clang", "/test/main.c", "-o", "/test/output/symcc/main-afl"]));
    assert_eq!(s.steps[1].cmd, strings(&["symcc", "/test/main.c", "-o", "/test/output/symcc/main-sym"]));
    let side = side_fuzzer_step(&d);
    assert_eq!(side.cmd[2], "afl-0");
    assert_eq!(side.timeout_ms, Some(5000));
    let helper = helper_step(&d);
    assert_eq!(helper.cmd[3], "/test/output/symcc/output");
    assert_eq!(helper.expect, Expect::Timeout);
    assert_eq!(readiness(true, true), Readiness::Ready);
    assert_eq!(readiness(false, true), Readiness::Failed);
    assert_eq!(readiness(false, false), Readiness::Wait);
    assert_eq!(fuzzer_dirs(&d), ("/data/h/output/symcc/output/afl-0/queue".to_string(), "/data/h/output/symcc/output/afl-0/crashes".to_string()));
    let names = strings(&["README.txt", "id:1"]);
    assert_eq!(ResultSymCC::from_run(ExitStatus::Timeout, ExitStatus::Timeout, &names), ResultSymCC { completed: true, num_crashes: 1 });
    assert_eq!(ResultSymCC::from_run(ExitStatus::Success, ExitStatus::Timeout, &names), ResultSymCC { completed: false, num_crashes: 0 });
}

#[test]
fn whole_report() {
    let r = AnalysisResult {
        result_baseline: ResultBaseline { compiled: false, input_pass: 0, input_fail: 0, crash_pass: 0, crash_fail: 0 },
        result_gcov: ResultGcov { completed: true, num_blocks: 1, cov_blocks: 1 },
        result_aflpp: ResultAFLpp { completed: true, num_crashes: 3 },
        result_klee: ResultKLEE { completed: false, num_crashes: 0 },
        result_symcc: None,
    };
    assert_eq!(
        r.to_human_readable(),
        "==== Baseline ====\n[failure] unable to compile the program\n\n==== GCOV ====\n[success] 100% GCOV coverage\n\n==== AFL++ ====\n[failure] AFL++ found 3 crashes\n\n==== KLEE ====\n[failure] unable to complete KLEE symbolic execution\n"
    );
}

#[test]
fn provisioning_plan() {
    let plan = provision(true);
    assert_eq!(plan.len(), 5);
    match &plan[0] {
        ProvisionStep::Build { context, tag, force } => {
            assert_eq!(context, "deps/gcov");
            assert_eq!(tag, "gcov");
            assert!(*force);
        }
        _ => panic!("expected a build"),
    }
    match &plan[4] {
        ProvisionStep::Commit { base, tag, cmd, net, tty, force } => {
            assert_eq!(base, "symcc-base");
            assert_eq!(tag, "symcc");
            assert_eq!(cmd[2], "sudo apt-get update -y && sudo apt-get install -y screen");
            assert!(*net && !*tty && *force);
        }
        _ => panic!("expected a commit"),
    }
}

#[test]
fn requests_are_routed() {
    assert!(matches!(Action::parse(Method::Get, "/"), Ok(Action::Default)));
    assert!(matches!(Action::parse(Method::Get, ""), Ok(Action::Default)));
    assert!(matches!(Action::parse(Method::Post, "/submit"), Ok(Action::Submit)));
    match Action::parse(Method::Get, "/status/abc") {
        Ok(Action::Status(h)) => assert_eq!(h, "abc"),
        _ => panic!("expected a status request"),
    }
    assert!(matches!(Action::parse(Method::Get, "/other"), Err(RequestError::InvalidUrl)));
    assert!(matches!(Action::parse(Method::Post, "/status/x"), Err(RequestError::InvalidUrl)));
    assert!(matches!(Action::parse(Method::Other, "/"), Err(RequestError::InvalidMethod)));
    assert_eq!(RequestError::InvalidMethod.message(), "invalid method");
}

#[test]
fn replies() {
    let r = make_ok("Welcome");
    assert_eq!((r.code, r.body.as_str()), (200, "Welcome\n"));
    let r = make_ok("no such package");
    assert_eq!(r.body, "no such package\n");
    let r = make_sanity_error("invalid URL");
    assert_eq!((r.code, r.body.as_str()), (400, "[error] invalid URL"));
    let r = make_server_error("disk");
    assert_eq!((r.code, r.body.as_str()), (500, "[internal error] disk"));
}
