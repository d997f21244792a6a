//! What a submission must hold, and how its content names it.

use vstd::prelude::*;

use crate::text::{concat, has_prefix, same_text, starts_with};

verus! {

/// Largest accepted `main.c`, in bytes.
pub const MAX_PROGRAM_SIZE: u64 = 262144;

/// Largest accepted test case, in bytes.
pub const MAX_CASE_SIZE: u64 = 1024;

/// What a directory entry is.
#[derive(Clone, Copy, Debug, PartialEq, Eq, Structural)]
pub enum EntryKind {
    File,
    Dir,
    Other,
}

/// One entry of an uploaded directory.
pub struct Entry {
    pub name: String,
    pub kind: EntryKind,
    /// Length in bytes.
    pub size: u64,
}

/// The two directories of test cases.
#[derive(Clone, Copy, Debug, PartialEq, Eq, Structural)]
pub enum CaseDir {
    Input,
    Crash,
}

/// The directory's name.
pub open spec fn case_dir_name(d: CaseDir) -> Seq<char> {
    match d {
        CaseDir::Input => "input"@,
        CaseDir::Crash => "crash"@,
    }
}

/// Why a submission is refused, as a mathematical value.
pub enum Defect {
    Unrecognized(Seq<char>),
    ProgramMissing,
    ProgramTooBig,
    CasesMissing(CaseDir),
    CaseInvalid(CaseDir, Seq<char>),
    CaseTooBig(CaseDir, Seq<char>),
}

/// Why a submission is refused.
pub enum Malformed {
    /// An entry that a submission may not hold.
    Unrecognized(String),
    /// No `main.c` file.
    ProgramMissing,
    /// `main.c` is over the size limit.
    ProgramTooBig,
    /// No directory of test cases.
    CasesMissing(CaseDir),
    /// A test case that is not a regular file.
    CaseInvalid(CaseDir, String),
    /// A test case over the size limit.
    CaseTooBig(CaseDir, String),
}

impl View for Malformed {
    type V = Defect;

    open spec fn view(&self) -> Defect {
        match self {
            Malformed::Unrecognized(n) => Defect::Unrecognized(n@),
            Malformed::ProgramMissing => Defect::ProgramMissing,
            Malformed::ProgramTooBig => Defect::ProgramTooBig,
            Malformed::CasesMissing(d) => Defect::CasesMissing(*d),
            Malformed::CaseInvalid(d, n) => Defect::CaseInvalid(*d, n@),
            Malformed::CaseTooBig(d, n) => Defect::CaseTooBig(*d, n@),
        }
    }
}

/// The text that reports a defect.
pub open spec fn defect_text(d: Defect) -> Seq<char> {
    match d {
        Defect::Unrecognized(n) => "unrecognized item: "@ + n,
        Defect::ProgramMissing => "main.c is missing"@,
        Defect::ProgramTooBig => "main.c is too big"@,
        Defect::CasesMissing(c) => case_dir_name(c) + "/ is missing"@,
        Defect::CaseInvalid(c, n) => case_dir_name(c) + "/"@ + n + " is invalid"@,
        Defect::CaseTooBig(c, n) => case_dir_name(c) + "/"@ + n + " is too big"@,
    }
}

fn case_dir_str(d: CaseDir) -> (r: &'static str)
    ensures
        r@ == case_dir_name(d),
{
    match d {
        CaseDir::Input => "input",
        CaseDir::Crash => "crash",
    }
}

impl Malformed {
    /// A description of the defect.
    pub fn message(&self) -> (r: String)
        ensures
            r@ == defect_text(self@),
    {
        match self {
            Malformed::Unrecognized(n) => concat("unrecognized item: ", n.as_str()),
            Malformed::ProgramMissing => String::from_str("main.c is missing"),
            Malformed::ProgramTooBig => String::from_str("main.c is too big"),
            Malformed::CasesMissing(d) => concat(case_dir_str(*d), "/ is missing"),
            Malformed::CaseInvalid(d, n) => {
                let a = concat(case_dir_str(*d), "/");
                let b = concat(a.as_str(), n.as_str());
                concat(b.as_str(), " is invalid")
            },
            Malformed::CaseTooBig(d, n) => {
                let a = concat(case_dir_str(*d), "/");
                let b = concat(a.as_str(), n.as_str());
                concat(b.as_str(), " is too big")
            },
        }
    }
}

/// An entry that may stand at the top of a submission: the program, the
/// interface header, the two case directories, a `README*` file, or an
/// `output*` directory.
pub open spec fn allowed(e: Entry) -> bool {
    ||| e.name@ == "main.c"@
    ||| e.name@ == "interface.h"@
    ||| e.name@ == "input"@
    ||| e.name@ == "crash"@
    ||| (has_prefix(e.name@, "README"@) && e.kind == EntryKind::File)
    ||| (has_prefix(e.name@, "output"@) && e.kind == EntryKind::Dir)
}

/// An entry that is removed before the submission is installed: an
/// `output*` directory.
pub open spec fn stripped(e: Entry) -> bool {
    has_prefix(e.name@, "output"@) && e.kind == EntryKind::Dir
}

/// The names of the entries of `s` that are stripped, in order.
pub open spec fn stripped_names_of(s: Seq<Entry>) -> Seq<Seq<char>>
    decreases s.len(),
{
    if s.len() == 0 {
        Seq::empty()
    } else if stripped(s.last()) {
        stripped_names_of(s.drop_last()).push(s.last().name@)
    } else {
        stripped_names_of(s.drop_last())
    }
}

/// A test case that is accepted.
pub open spec fn case_ok(e: Entry) -> bool {
    e.kind == EntryKind::File && e.size <= MAX_CASE_SIZE
}

/// The defect that a refused test case reports.
pub open spec fn case_defect(d: CaseDir, e: Entry) -> Defect {
    if e.kind != EntryKind::File {
        Defect::CaseInvalid(d, e.name@)
    } else {
        Defect::CaseTooBig(d, e.name@)
    }
}

/// `i` is the first top entry that may not stand in a submission.
pub open spec fn first_unallowed(s: Seq<Entry>, i: int) -> bool {
    0 <= i < s.len() && !allowed(s[i]) && forall|j: int| 0 <= j < i ==> allowed(#[trigger] s[j])
}

/// Every top entry may stand in a submission.
pub open spec fn all_allowed(s: Seq<Entry>) -> bool {
    forall|j: int| 0 <= j < s.len() ==> allowed(#[trigger] s[j])
}

/// `i` is the first refused test case.
pub open spec fn first_bad_case(s: Seq<Entry>, i: int) -> bool {
    0 <= i < s.len() && !case_ok(s[i]) && forall|j: int| 0 <= j < i ==> case_ok(#[trigger] s[j])
}

/// The test cases of one directory, when it exists, are all accepted.
pub open spec fn cases_valid(cases: Option<Vec<Entry>>) -> bool {
    match cases {
        Some(v) => forall|j: int| 0 <= j < v@.len() ==> case_ok(#[trigger] v@[j]),
        None => false,
    }
}

/// `d` is what a directory of test cases reports first, if anything.
pub open spec fn cases_report(dir: CaseDir, cases: Option<Vec<Entry>>, d: Defect) -> bool {
    match cases {
        None => d == Defect::CasesMissing(dir),
        Some(v) => exists|i: int| first_bad_case(v@, i) && d == case_defect(dir, v@[i]),
    }
}

/// A submission with these top entries, program size and case directories
/// is accepted.
pub open spec fn submission_valid(
    top: Seq<Entry>,
    program: Option<u64>,
    inputs: Option<Vec<Entry>>,
    crashes: Option<Vec<Entry>>,
) -> bool {
    &&& all_allowed(top)
    &&& program matches Some(n) && n <= MAX_PROGRAM_SIZE
    &&& cases_valid(inputs)
    &&& cases_valid(crashes)
}

/// `d` is the first defect of a refused submission: the checks run over the
/// top entries, then the program, then the inputs, then the crashes.
pub open spec fn reported(
    top: Seq<Entry>,
    program: Option<u64>,
    inputs: Option<Vec<Entry>>,
    crashes: Option<Vec<Entry>>,
    d: Defect,
) -> bool {
    if !all_allowed(top) {
        exists|i: int| first_unallowed(top, i) && d == Defect::Unrecognized(top[i].name@)
    } else if program is None {
        d == Defect::ProgramMissing
    } else if program->0 > MAX_PROGRAM_SIZE {
        d == Defect::ProgramTooBig
    } else if !cases_valid(inputs) {
        cases_report(CaseDir::Input, inputs, d)
    } else if !cases_valid(crashes) {
        cases_report(CaseDir::Crash, crashes, d)
    } else {
        false
    }
}

/// What an accepted submission is made of.
pub struct Layout {
    /// Top entries to remove before installation.
    pub remove: Vec<String>,
    /// Names of the input cases, in listing order.
    pub inputs: Vec<String>,
    /// Names of the crash cases, in listing order.
    pub crashes: Vec<String>,
}

/// The names of the entries of `s`.
pub open spec fn names(s: Seq<Entry>) -> Seq<Seq<char>> {
    s.map_values(|e: Entry| e.name@)
}

/// The views of a sequence of strings.
pub open spec fn views(s: Seq<String>) -> Seq<Seq<char>> {
    s.map_values(|x: String| x@)
}

fn allowed_entry(e: &Entry) -> (r: bool)
    ensures
        r == allowed(*e),
{
    let n = e.name.as_str();
    same_text(n, "main.c") || same_text(n, "interface.h") || same_text(n, "input")
        || same_text(n, "crash") || (starts_with(n, "README") && e.kind == EntryKind::File)
        || (starts_with(n, "output") && e.kind == EntryKind::Dir)
}

/// The first top entry that may not stand in a submission.
fn first_unrecognized(top: &Vec<Entry>) -> (r: Option<usize>)
    ensures
        match r {
            Some(i) => first_unallowed(top@, i as int),
            None => all_allowed(top@),
        },
{
    let mut i: usize = 0;
    while i < top.len()
        invariant
            i <= top@.len(),
            forall|j: int| 0 <= j < i ==> allowed(#[trigger] top@[j]),
        decreases top@.len() - i,
    {
        if !allowed_entry(&top[i]) {
            return Some(i);
        }
        i = i + 1;
    }
    None
}

/// Check one directory of test cases and list its names.
fn check_cases(dir: CaseDir, cases: &Option<Vec<Entry>>) -> (r: Result<Vec<String>, Malformed>)
    ensures
        match r {
            Ok(v) => cases_valid(*cases) && views(v@) == names(cases->0@),
            Err(e) => !cases_valid(*cases) && cases_report(dir, *cases, e@),
        },
{
    match cases {
        None => Err(Malformed::CasesMissing(dir)),
        Some(v) => {
            assert(*cases == Some(*v));
            let mut out: Vec<String> = Vec::new();
            let mut i: usize = 0;
            while i < v.len()
                invariant
                    *cases == Some(*v),
                    i <= v@.len(),
                    forall|j: int| 0 <= j < i ==> case_ok(#[trigger] v@[j]),
                    views(out@) == names(v@).subrange(0, i as int),
                decreases v@.len() - i,
            {
                let e = &v[i];
                if !(e.kind == EntryKind::File && e.size <= MAX_CASE_SIZE) {
                    let name = e.name.clone();
                    proof {
                        assert(first_bad_case(v@, i as int));
                        assert(!case_ok(v@[i as int]));
                        let w = (*cases)->0;
                        assert(w == *v);
                        assert(w@[i as int] == v@[i as int]);
                        assert(!case_ok(w@[i as int]));
                        assert(!cases_valid(*cases));
                    }
                    let err = if e.kind != EntryKind::File {
                        Malformed::CaseInvalid(dir, name)
                    } else {
                        Malformed::CaseTooBig(dir, name)
                    };
                    proof {
                        assert(err@ == case_defect(dir, v@[i as int]));
                    }
                    return Err(err);
                }
                let ghost prev = out@;
                out.push(e.name.clone());
                proof {
                    assert(views(out@) =~= views(prev).push(v@[i as int].name@));
                    assert(views(out@) =~= names(v@).subrange(0, i + 1));
                }
                i = i + 1;
            }
            proof {
                assert(names(v@).subrange(0, v@.len() as int) =~= names(v@));
            }
            Ok(out)
        },
    }
}

/// The names of the `output*` directories among the top entries.
fn stripped_names(top: &Vec<Entry>) -> (r: Vec<String>)
    ensures
        views(r@) == stripped_names_of(top@),
{
    let mut out: Vec<String> = Vec::new();
    let mut i: usize = 0;
    while i < top.len()
        invariant
            i <= top@.len(),
            views(out@) == stripped_names_of(top@.subrange(0, i as int)),
        decreases top@.len() - i,
    {
        let e = &top[i];
        let ghost prev = out@;
        proof {
            assert(top@.subrange(0, i + 1).drop_last() =~= top@.subrange(0, i as int));
        }
        if starts_with(e.name.as_str(), "output") && e.kind == EntryKind::Dir {
            out.push(e.name.clone());
            proof {
                assert(views(out@) =~= views(prev).push(e.name@));
            }
        }
        i = i + 1;
    }
    proof {
        assert(top@.subrange(0, top@.len() as int) =~= top@);
    }
    out
}

/// Check an uploaded submission: its top entries `top`, the size of
/// `main.c` when it is a file, and the entries of `input/` and `crash/` when
/// they are directories. An accepted one yields the entries to strip and
/// the names of its test cases in listing order; a refused one its first
/// defect.
pub fn check_layout(
    top: &Vec<Entry>,
    program: Option<u64>,
    inputs: &Option<Vec<Entry>>,
    crashes: &Option<Vec<Entry>>,
) -> (r: Result<Layout, Malformed>)
    ensures
        r is Ok <==> submission_valid(top@, program, *inputs, *crashes),
        match r {
            Ok(l) => {
                &&& views(l.remove@) == stripped_names_of(top@)
                &&& views(l.inputs@) == names(inputs->0@)
                &&& views(l.crashes@) == names(crashes->0@)
            },
            Err(e) => reported(top@, program, *inputs, *crashes, e@),
        },
{
    match first_unrecognized(top) {
        Some(i) => {
            return Err(Malformed::Unrecognized(top[i].name.clone()));
        },
        None => {},
    }
    match program {
        None => {
            return Err(Malformed::ProgramMissing);
        },
        Some(n) => {
            if n > MAX_PROGRAM_SIZE {
                return Err(Malformed::ProgramTooBig);
            }
        },
    }
    let inputs = match check_cases(CaseDir::Input, inputs) {
        Ok(v) => v,
        Err(e) => {
            return Err(e);
        },
    };
    let crashes = match check_cases(CaseDir::Crash, crashes) {
        Ok(v) => v,
        Err(e) => {
            return Err(e);
        },
    };
    Ok(Layout { remove: stripped_names(top), inputs, crashes })
}


/// The `k` low bytes of `n`, least significant first.
pub open spec fn le_bytes(n: nat, k: nat) -> Seq<u8>
    decreases k,
{
    if k == 0 {
        Seq::empty()
    } else {
        seq![(n % 256) as u8] + le_bytes(n / 256, (k - 1) as nat)
    }
}

/// The tag that precedes the program in the hashed stream: `program`.
pub open spec fn program_tag() -> Seq<u8> {
    seq![0x70u8, 0x72u8, 0x6fu8, 0x67u8, 0x72u8, 0x61u8, 0x6du8]
}

/// The tag that precedes each input case: `input`.
pub open spec fn input_tag() -> Seq<u8> {
    seq![0x69u8, 0x6eu8, 0x70u8, 0x75u8, 0x74u8]
}

/// The tag that precedes each crash case: `crash`.
pub open spec fn crash_tag() -> Seq<u8> {
    seq![0x63u8, 0x72u8, 0x61u8, 0x73u8, 0x68u8]
}

/// Each case preceded by `tag` and by its index as eight little-endian
/// bytes.
pub open spec fn cases_stream(tag: Seq<u8>, cases: Seq<Seq<u8>>) -> Seq<u8>
    decreases cases.len(),
{
    if cases.len() == 0 {
        Seq::empty()
    } else {
        cases_stream(tag, cases.drop_last()) + tag + le_bytes((cases.len() - 1) as nat, 8)
            + cases.last()
    }
}

/// The byte stream whose digest identifies a submission.
pub open spec fn submission_stream(
    program: Seq<u8>,
    inputs: Seq<Seq<u8>>,
    crashes: Seq<Seq<u8>>,
) -> Seq<u8> {
    program_tag() + program + cases_stream(input_tag(), inputs) + cases_stream(
        crash_tag(),
        crashes,
    )
}

/// The contents of a sequence of byte vectors.
pub open spec fn contents(v: Seq<Vec<u8>>) -> Seq<Seq<u8>> {
    v.map_values(|b: Vec<u8>| b@)
}

/// The SHA3-256 digest of a byte sequence.
pub uninterp spec fn sha3_256_of(data: Seq<u8>) -> Seq<u8>;

/// Relies on `sha3::Sha3_256` through `digest::Digest::digest`: the SHA3-256
/// digest of the bytes, whose output size is 32 bytes.
#[verifier::external_body]
fn sha3_256(data: &Vec<u8>) -> (r: Vec<u8>)
    ensures
        r@ == sha3_256_of(data@),
        r@.len() == 32,
{
    <sha3::Sha3_256 as sha3::Digest>::digest(data.as_slice()).to_vec()
}

/// A hexadecimal digit in lower case.
pub open spec fn hex_digit(d: nat) -> char {
    if d < 10 {
        crate::text::digit_char(d)
    } else if d == 10 {
        'a'
    } else if d == 11 {
        'b'
    } else if d == 12 {
        'c'
    } else if d == 13 {
        'd'
    } else if d == 14 {
        'e'
    } else {
        'f'
    }
}

/// Two lower-case hexadecimal digits for each byte, high nibble first.
pub open spec fn hex_lower(b: Seq<u8>) -> Seq<char>
    decreases b.len(),
{
    if b.len() == 0 {
        Seq::empty()
    } else {
        hex_lower(b.drop_last()) + seq![hex_digit(b.last() as nat / 16), hex_digit(b.last() as nat % 16)]
    }
}

/// Relies on `hex::encode`: two lower-case digits for each byte, high nibble
/// first.
#[verifier::external_body]
fn hex_encode(b: &Vec<u8>) -> (r: String)
    ensures
        r@ == hex_lower(b@),
{
    hex::encode(b)
}

/// The packet identifier that a digest gives.
pub fn id_of_digest(digest: &Vec<u8>) -> (r: String)
    ensures
        r@ == hex_lower(digest@),
{
    hex_encode(digest)
}

fn push_all(out: &mut Vec<u8>, data: &Vec<u8>)
    ensures
        final(out)@ == old(out)@ + data@,
{
    let mut i: usize = 0;
    while i < data.len()
        invariant
            i <= data@.len(),
            out@ == old(out)@ + data@.subrange(0, i as int),
        decreases data@.len() - i,
    {
        out.push(data[i]);
        proof {
            assert(out@ =~= old(out)@ + data@.subrange(0, i + 1));
        }
        i = i + 1;
    }
    proof {
        assert(data@.subrange(0, data@.len() as int) =~= data@);
    }
}

/// `n` as eight little-endian bytes.
pub fn index_bytes(n: u64) -> (r: Vec<u8>)
    ensures
        r@ == le_bytes(n as nat, 8),
{
    let mut r: Vec<u8> = Vec::new();
    let mut v: u64 = n;
    let mut k: usize = 0;
    while k < 8
        invariant
            k <= 8,
            r@ + le_bytes(v as nat, (8 - k) as nat) == le_bytes(n as nat, 8),
        decreases 8 - k,
    {
        proof {
            assert(le_bytes(v as nat, (8 - k) as nat) == seq![(v as nat % 256) as u8] + le_bytes(
                v as nat / 256,
                (8 - k - 1) as nat,
            ));
        }
        r.push((v % 256) as u8);
        proof {
            assert(r@ + le_bytes((v / 256) as nat, (8 - (k + 1)) as nat) =~= le_bytes(n as nat, 8));
        }
        v = v / 256;
        k = k + 1;
    }
    proof {
        assert(r@ =~= r@ + le_bytes(v as nat, 0));
    }
    r
}

fn push_cases(out: &mut Vec<u8>, tag: &Vec<u8>, cases: &Vec<Vec<u8>>)
    ensures
        final(out)@ == old(out)@ + cases_stream(tag@, contents(cases@)),
{
    let mut i: usize = 0;
    while i < cases.len()
        invariant
            i <= cases@.len(),
            out@ == old(out)@ + cases_stream(tag@, contents(cases@).subrange(0, i as int)),
        decreases cases@.len() - i,
    {
        let ghost before = out@;
        push_all(out, tag);
        let idx = index_bytes(i as u64);
        push_all(out, &idx);
        push_all(out, &cases[i]);
        proof {
            let c = contents(cases@);
            assert(c.subrange(0, i + 1).drop_last() =~= c.subrange(0, i as int));
            assert(c.subrange(0, i + 1).last() == cases@[i as int]@);
            assert(out@ =~= old(out)@ + cases_stream(tag@, c.subrange(0, i + 1)));
        }
        i = i + 1;
    }
    proof {
        assert(contents(cases@).subrange(0, cases@.len() as int) =~= contents(cases@));
    }
}

/// The byte stream whose digest identifies a submission: the program, then
/// each input case, then each crash case, each behind its tag.
pub fn submission_bytes(program: &Vec<u8>, inputs: &Vec<Vec<u8>>, crashes: &Vec<Vec<u8>>) -> (r:
    Vec<u8>)
    ensures
        r@ == submission_stream(program@, contents(inputs@), contents(crashes@)),
{
    let mut out: Vec<u8> = vec![0x70u8, 0x72u8, 0x6fu8, 0x67u8, 0x72u8, 0x61u8, 0x6du8];
    proof {
        assert(out@ =~= program_tag());
    }
    push_all(&mut out, program);
    let input_tag_v: Vec<u8> = vec![0x69u8, 0x6eu8, 0x70u8, 0x75u8, 0x74u8];
    let crash_tag_v: Vec<u8> = vec![0x63u8, 0x72u8, 0x61u8, 0x73u8, 0x68u8];
    proof {
        assert(input_tag_v@ =~= input_tag());
        assert(crash_tag_v@ =~= crash_tag());
    }
    push_cases(&mut out, &input_tag_v, inputs);
    push_cases(&mut out, &crash_tag_v, crashes);
    out
}

/// The identifier of a submission with this program and these cases.
pub open spec fn packet_hash(program: Seq<u8>, inputs: Seq<Seq<u8>>, crashes: Seq<Seq<u8>>) -> Seq<
    char,
> {
    hex_lower(sha3_256_of(submission_stream(program, inputs, crashes)))
}

/// Whether the upload's base is its single child directory rather than the
/// upload itself.
pub open spec fn descends(children: Seq<Entry>) -> bool {
    children.len() == 1 && children[0].kind == EntryKind::Dir
}

/// Whether an upload whose root holds `children` is based in its single
/// child directory.
pub fn probe_base(children: &Vec<Entry>) -> (r: bool)
    ensures
        r == descends(children@),
{
    children.len() == 1 && children[0].kind == EntryKind::Dir
}

/// The identifier of a submission: the hex digest of its byte stream.
pub fn submission_id(program: &Vec<u8>, inputs: &Vec<Vec<u8>>, crashes: &Vec<Vec<u8>>) -> (r:
    String)
    ensures
        r@ == packet_hash(program@, contents(inputs@), contents(crashes@)),
        r@.len() == 64,
{
    let stream = submission_bytes(program, inputs, crashes);
    let digest = sha3_256(&stream);
    let r = id_of_digest(&digest);
    proof {
        lemma_hex_len(digest@);
    }
    r
}

/// Hex encoding doubles the length.
pub proof fn lemma_hex_len(b: Seq<u8>)
    ensures
        hex_lower(b).len() == 2 * b.len(),
    decreases b.len(),
{
    if b.len() > 0 {
        lemma_hex_len(b.drop_last());
    }
}


/// An upload that holds the program and the inputs directly is its own
/// base, and an upload that holds a single directory is based in it: both
/// forms reach the same entries, so they are checked and named alike.
pub proof fn lemma_nesting_transparent(flat: Seq<Entry>, nested: Entry, i: int, j: int)
    requires
        0 <= i < flat.len(),
        0 <= j < flat.len(),
        flat[i].name@ == "main.c"@,
        flat[j].name@ == "input"@,
        nested.kind == EntryKind::Dir,
    ensures
        !descends(flat),
        descends(seq![nested]),
{
    reveal_strlit("main.c");
    reveal_strlit("input");
    if flat.len() == 1 {
        assert(i == j);
        assert(flat[i].name@[0] == 'm');
        assert(flat[j].name@[0] == 'i');
    }
}

/// The identifier is a function of the program and of the cases in index
/// order alone.
pub proof fn lemma_hash_deterministic(
    prog_a: Seq<u8>,
    ins_a: Seq<Seq<u8>>,
    crs_a: Seq<Seq<u8>>,
    prog_b: Seq<u8>,
    ins_b: Seq<Seq<u8>>,
    crs_b: Seq<Seq<u8>>,
)
    requires
        prog_a == prog_b,
        ins_a == ins_b,
        crs_a == crs_b,
    ensures
        packet_hash(prog_a, ins_a, crs_a) == packet_hash(prog_b, ins_b, crs_b),
{
}

} // verus!
