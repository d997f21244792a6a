//! The whole analysis of a packet, and the images it needs.

use vstd::prelude::*;

use crate::stage::{command, words};
use crate::tool_aflpp::{crashes_text, ResultAFLpp};
use crate::tool_gcov::{baseline_text, gcov_text, ResultBaseline, ResultGcov};
use crate::tool_klee::ResultKLEE;
use crate::tool_symcc::ResultSymCC;

verus! {

/// The results of all stages of one analysis.
#[derive(Clone, Copy, Debug, PartialEq, Eq, Structural)]
pub struct AnalysisResult {
    pub result_baseline: ResultBaseline,
    pub result_gcov: ResultGcov,
    pub result_aflpp: ResultAFLpp,
    pub result_klee: ResultKLEE,
    /// Absent where the hybrid stage is not deployed.
    pub result_symcc: Option<ResultSymCC>,
}

/// One section of a report: a title line and a verdict line.
pub open spec fn section(title: Seq<char>, body: Seq<char>) -> Seq<char> {
    title + "\n"@ + body + "\n"@
}

/// The report of an analysis, one section per stage.
pub open spec fn report_text(r: AnalysisResult) -> Seq<char> {
    let head = section("==== Baseline ===="@, baseline_text(r.result_baseline)) + "\n"@ + section(
        "==== GCOV ===="@,
        gcov_text(r.result_gcov),
    ) + "\n"@ + section(
        "==== AFL++ ===="@,
        crashes_text(
            "AFL++"@,
            "AFL++ fuzzing"@,
            r.result_aflpp.completed,
            r.result_aflpp.num_crashes as nat,
        ),
    ) + "\n"@ + section(
        "==== KLEE ===="@,
        crashes_text(
            "KLEE"@,
            "KLEE symbolic execution"@,
            r.result_klee.completed,
            r.result_klee.num_crashes as nat,
        ),
    );
    match r.result_symcc {
        None => head,
        Some(s) => head + "\n"@ + section(
            "==== SymCC ===="@,
            crashes_text("SymCC"@, "SymCC hybrid fuzzing"@, s.completed, s.num_crashes as nat),
        ),
    }
}

fn push_section(out: &mut String, title: &str, body: &String)
    ensures
        final(out)@ == old(out)@ + section(title@, body@),
{
    out.append(title);
    out.append("\n");
    out.append(body.as_str());
    out.append("\n");
    proof {
        reveal_strlit("\n");
        assert(final(out)@ =~= old(out)@ + section(title@, body@));
    }
}

impl AnalysisResult {
    /// The report in words, one section per stage.
    pub fn to_human_readable(&self) -> (r: String)
        ensures
            r@ == report_text(*self),
    {
        let mut out = String::new();
        push_section(&mut out, "==== Baseline ====", &self.result_baseline.to_human_readable());
        out.append("\n");
        push_section(&mut out, "==== GCOV ====", &self.result_gcov.to_human_readable());
        out.append("\n");
        push_section(&mut out, "==== AFL++ ====", &self.result_aflpp.to_human_readable());
        out.append("\n");
        push_section(&mut out, "==== KLEE ====", &self.result_klee.to_human_readable());
        match &self.result_symcc {
            None => {},
            Some(s) => {
                out.append("\n");
                push_section(&mut out, "==== SymCC ====", &s.to_human_readable());
            },
        }
        proof {
            assert(out@ =~= report_text(*self));
        }
        out
    }
}

/// One image to provide.
pub enum ProvisionStep {
    /// Build the image `tag` from the build context `context`, a directory
    /// relative to the worker's own.
    Build { context: String, tag: String, force: bool },
    /// Derive the image `tag` from `base` by running `cmd` and committing.
    Commit { base: String, tag: String, cmd: Vec<String>, net: bool, tty: bool, force: bool },
}

/// The command that adds the terminal multiplexer to the hybrid image.
pub open spec fn apt_line() -> Seq<char> {
    "sudo apt-get update -y && sudo apt-get install -y screen"@
}

/// The images that the analysis needs, in the order they are provided:
/// the coverage image, the fuzzer image, the symbolic executor image, the
/// hybrid base image, and the hybrid image derived from it. `force`
/// rebuilds those that exist.
pub fn provision(force: bool) -> (r: Vec<ProvisionStep>)
    ensures
        r@.len() == 5,
        r@[0] matches ProvisionStep::Build { context, tag, force: f } && context@ == "deps/gcov"@
            && tag@ == "gcov"@ && f == force,
        r@[1] matches ProvisionStep::Build { context, tag, force: f } && context@
            == "deps/AFLplusplus"@ && tag@ == "afl"@ && f == force,
        r@[2] matches ProvisionStep::Build { context, tag, force: f } && context@ == "deps/klee"@
            && tag@ == "klee"@ && f == force,
        r@[3] matches ProvisionStep::Build { context, tag, force: f } && context@ == "deps/symcc"@
            && tag@ == "symcc-base"@ && f == force,
        r@[4] matches ProvisionStep::Commit { base, tag, cmd, net, tty, force: f } && base@
            == "symcc-base"@ && tag@ == "symcc"@ && words(cmd@) == seq![
            "bash"@,
            "-c"@,
            apt_line(),
        ] && net && !tty && f == force,
{
    let mut r: Vec<ProvisionStep> = Vec::new();
    r.push(
        ProvisionStep::Build {
            context: String::from_str("deps/gcov"),
            tag: String::from_str("gcov"),
            force,
        },
    );
    r.push(
        ProvisionStep::Build {
            context: String::from_str("deps/AFLplusplus"),
            tag: String::from_str("afl"),
            force,
        },
    );
    r.push(
        ProvisionStep::Build {
            context: String::from_str("deps/klee"),
            tag: String::from_str("klee"),
            force,
        },
    );
    r.push(
        ProvisionStep::Build {
            context: String::from_str("deps/symcc"),
            tag: String::from_str("symcc-base"),
            force,
        },
    );
    let cmd = command(&["bash", "-c", "sudo apt-get update -y && sudo apt-get install -y screen"]);
    proof {
        assert(words(cmd@) =~= seq!["bash"@, "-c"@, apt_line()]);
    }
    r.push(
        ProvisionStep::Commit {
            base: String::from_str("symcc-base"),
            tag: String::from_str("symcc"),
            cmd,
            net: true,
            tty: false,
            force,
        },
    );
    r
}

} // verus!
