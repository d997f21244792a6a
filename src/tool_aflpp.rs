//! The fuzzing stage: coverage-guided fuzzing from the input cases.

use vstd::prelude::*;

use crate::packet::DockedPacket;
use crate::stage::{command, words, Expect, Script, Step};
use crate::text::{concat, decimal, decimal_string, path_join};

verus! {

/// Tag of the image.
pub const DOCKER_TAG: &'static str = "afl";

/// Wall-clock budget of the fuzzer, in milliseconds.
pub const TIMEOUT_FUZZ_MS: u64 = 5000;

/// Result for fuzzing.
#[derive(Clone, Copy, Debug, PartialEq, Eq, Structural)]
pub struct ResultAFLpp {
    pub completed: bool,
    pub num_crashes: u64,
}

/// Names in a crash directory that are crashes: all but the fuzzer's
/// `README.txt`.
pub open spec fn crash_count(names: Seq<Seq<char>>) -> nat
    decreases names.len(),
{
    if names.len() == 0 {
        0
    } else {
        crash_count(names.drop_last()) + if names.last() == "README.txt"@ {
            0nat
        } else {
            1nat
        }
    }
}

proof fn lemma_crash_count_bound(names: Seq<Seq<char>>)
    ensures
        crash_count(names) <= names.len(),
    decreases names.len(),
{
    if names.len() > 0 {
        lemma_crash_count_bound(names.drop_last());
    }
}

/// The number of crashes among the names found in a crash directory.
pub fn count_crashes(names: &Vec<String>) -> (r: u64)
    requires
        names@.len() <= u64::MAX,
    ensures
        r == crash_count(names@.map_values(|s: String| s@)),
{
    let ghost v = names@.map_values(|s: String| s@);
    let mut n: u64 = 0;
    let mut i: usize = 0;
    while i < names.len()
        invariant
            i <= names@.len() <= u64::MAX,
            v == names@.map_values(|s: String| s@),
            n == crash_count(v.subrange(0, i as int)),
        decreases names@.len() - i,
    {
        proof {
            assert(v.subrange(0, i + 1).drop_last() =~= v.subrange(0, i as int));
            lemma_crash_count_bound(v.subrange(0, i as int));
        }
        if !crate::text::same_text(names[i].as_str(), "README.txt") {
            n = n + 1;
        }
        i = i + 1;
    }
    proof {
        assert(v.subrange(0, names@.len() as int) =~= v);
    }
    n
}

/// The human-readable verdict on a crash-finding stage: `activity` names
/// what did not complete, `tool` what found the crashes.
pub open spec fn crashes_text(
    tool: Seq<char>,
    activity: Seq<char>,
    completed: bool,
    num_crashes: nat,
) -> Seq<char> {
    if !completed {
        "[failure] unable to complete "@ + activity
    } else if num_crashes != 0 {
        "[failure] "@ + tool + " found "@ + decimal(num_crashes) + " crashes"@
    } else {
        "[success] "@ + tool + " found no crashes"@
    }
}

/// The verdict of a crash-finding stage in words.
pub fn crashes_verdict(tool: &str, activity: &str, completed: bool, num_crashes: u64) -> (r:
    String)
    ensures
        r@ == crashes_text(tool@, activity@, completed, num_crashes as nat),
{
    if !completed {
        return concat("[failure] unable to complete ", activity);
    }
    if num_crashes != 0 {
        let a = concat("[failure] ", tool);
        let b = concat(a.as_str(), " found ");
        let n = decimal_string(num_crashes as u128);
        let c = concat(b.as_str(), n.as_str());
        return concat(c.as_str(), " crashes");
    }
    let a = concat("[success] ", tool);
    concat(a.as_str(), " found no crashes")
}

impl ResultAFLpp {
    /// The result of a stage whose commands did not all end as expected.
    pub fn incomplete() -> (r: ResultAFLpp)
        ensures
            r == (ResultAFLpp { completed: false, num_crashes: 0 }),
    {
        ResultAFLpp { completed: false, num_crashes: 0 }
    }

    /// The result of a completed stage from the names in its crash
    /// directory.
    pub fn from_crashes(names: &Vec<String>) -> (r: ResultAFLpp)
        requires
            names@.len() <= u64::MAX,
        ensures
            r.completed,
            r.num_crashes == crash_count(names@.map_values(|s: String| s@)),
    {
        ResultAFLpp { completed: true, num_crashes: count_crashes(names) }
    }

    /// The verdict in words.
    pub fn to_human_readable(&self) -> (r: String)
        ensures
            r@ == crashes_text("AFL++"@, "AFL++ fuzzing"@, self.completed, self.num_crashes as nat),
    {
        crashes_verdict("AFL++", "AFL++ fuzzing", self.completed, self.num_crashes)
    }
}

/// The fuzzing stage: build with the fuzzer's compiler, fuzz from the input
/// cases until the budget runs out, then open the output to the host.
pub fn aflpp_script(docked: &DockedPacket) -> (r: Script)
    ensures
        r.statuses@.len() == 0,
        r.steps@.len() == 3,
        words(r.steps@[0].cmd@) == seq![
            "afl-cc"@,
            docked.path_program@,
            "-o"@,
            path_join(docked.path_output@, "main"@),
        ],
        r.steps@[0].expect == Expect::Success,
        words(r.steps@[1].cmd@) == seq![
            "afl-fuzz"@,
            "-i"@,
            docked.path_input@,
            "-o"@,
            path_join(docked.path_output@, "output"@),
            "--"@,
            path_join(docked.path_output@, "main"@),
        ],
        r.steps@[1].timeout_ms == Some(TIMEOUT_FUZZ_MS),
        r.steps@[1].expect == Expect::Timeout,
        words(r.steps@[2].cmd@) == seq![
            "chmod"@,
            "-R"@,
            "777"@,
            path_join(docked.path_output@, "output"@),
        ],
        r.steps@[2].expect == Expect::Any,
{
    let (_, compiled) = docked.wks_path("main");
    let (_, out) = docked.wks_path("output");
    let cc = command(&["afl-cc", docked.path_program.as_str(), "-o", compiled.as_str()]);
    let fuzz = command(
        &[
            "afl-fuzz",
            "-i",
            docked.path_input.as_str(),
            "-o",
            out.as_str(),
            "--",
            compiled.as_str(),
        ],
    );
    let chmod = command(&["chmod", "-R", "777", out.as_str()]);
    proof {
        assert(words(cc@) =~= seq!["afl-cc"@, docked.path_program@, "-o"@, compiled@]);
        assert(words(fuzz@) =~= seq![
            "afl-fuzz"@,
            "-i"@,
            docked.path_input@,
            "-o"@,
            out@,
            "--"@,
            compiled@,
        ]);
        assert(words(chmod@) =~= seq!["chmod"@, "-R"@, "777"@, out@]);
    }
    let mut steps: Vec<Step> = Vec::new();
    steps.push(Step { cmd: cc, timeout_ms: None, expect: Expect::Success });
    steps.push(Step { cmd: fuzz, timeout_ms: Some(TIMEOUT_FUZZ_MS), expect: Expect::Timeout });
    steps.push(Step { cmd: chmod, timeout_ms: None, expect: Expect::Any });
    Script::new(steps)
}

} // verus!
