//! The registry of packets: what it knows of each submission, the queue of
//! pending analyses, and the paths under which a packet lives.

use vstd::prelude::*;

use crate::submission::{
    check_layout, contents, packet_hash, reported, submission_id, submission_valid, Entry, Malformed,
};
use crate::text::{concat, decimal, decimal_string, join_path, path_join};

verus! {

/// Uniquely identifies a packet: the hex digest of its canonical content.
#[derive(Clone, Debug, PartialEq, Eq, PartialOrd, Ord, Hash)]
pub struct Packet {
    hash: String,
}

impl View for Packet {
    type V = Seq<char>;

    closed spec fn view(&self) -> Seq<char> {
        self.hash@
    }
}

impl Packet {
    /// The packet named by `hash`.
    pub fn new(hash: String) -> (r: Packet)
        ensures
            r@ == hash@,
    {
        Packet { hash }
    }

    /// Get the unique ID for this packet.
    pub fn id(&self) -> (r: &str)
        ensures
            r@ == self@,
    {
        self.hash.as_str()
    }

    /// A second handle on the same packet.
    pub fn copy(&self) -> (r: Packet)
        ensures
            r@ == self@,
    {
        Packet { hash: self.hash.clone() }
    }
}

/// Packet analysis status.
#[derive(Clone, Copy, Debug, PartialEq, Eq, Structural)]
pub enum Status {
    Received,
    Error,
    Completed,
}

/// The hashes of a sequence of packets.
pub open spec fn hashes(v: Seq<Packet>) -> Seq<Seq<char>> {
    v.map_values(|p: Packet| p@)
}

/// What a registry knows, as mathematical values.
pub struct RegistryView {
    /// The registry root on the host.
    pub root: Seq<char>,
    /// Packets waiting for analysis, oldest first.
    pub queue: Seq<Seq<char>>,
    /// Packets with a status, in the order they were first recorded.
    pub order: Seq<Seq<char>>,
    /// The status of each recorded packet.
    pub status: Map<Seq<char>, Status>,
    /// Hashes whose directory has been claimed under the root.
    pub installed: Set<Seq<char>>,
}

impl RegistryView {
    /// A registry over `root` that knows of nothing.
    pub open spec fn empty(root: Seq<char>) -> RegistryView {
        RegistryView {
            root,
            queue: Seq::empty(),
            order: Seq::empty(),
            status: Map::empty(),
            installed: Set::empty(),
        }
    }

    /// `order` extended by `h` when `h` had no status yet.
    pub open spec fn order_with(self, h: Seq<char>) -> Seq<Seq<char>> {
        if self.status.contains_key(h) {
            self.order
        } else {
            self.order.push(h)
        }
    }

    /// `h` is recorded as waiting for analysis, and appended to the queue
    /// unless it waits there already.
    pub open spec fn queued(self, h: Seq<char>) -> RegistryView {
        RegistryView {
            queue: if self.status.contains_key(h) && self.status[h] == Status::Received {
                self.queue
            } else {
                self.queue.push(h)
            },
            order: self.order_with(h),
            status: self.status.insert(h, Status::Received),
            ..self
        }
    }

    /// `h` reaches the terminal status `s` and leaves the queue.
    pub open spec fn settled(self, h: Seq<char>, s: Status) -> RegistryView {
        RegistryView {
            queue: self.queue.remove_value(h),
            order: self.order_with(h),
            status: self.status.insert(h, s),
            ..self
        }
    }

    /// The directory of `h` is claimed.
    pub open spec fn claimed(self, h: Seq<char>) -> RegistryView {
        RegistryView { installed: self.installed.insert(h), ..self }
    }

    /// A packet directory found at start-up: believed complete when it holds
    /// a result, else queued again. A hash seen before is left as it was.
    pub open spec fn recovered(self, h: Seq<char>, completed: bool) -> RegistryView {
        if self.status.contains_key(h) {
            self
        } else {
            RegistryView {
                queue: if completed {
                    self.queue
                } else {
                    self.queue.push(h)
                },
                order: self.order.push(h),
                status: self.status.insert(
                    h,
                    if completed {
                        Status::Completed
                    } else {
                        Status::Received
                    },
                ),
                installed: self.installed.insert(h),
                ..self
            }
        }
    }
}

/// Marker for unexpected internal error.
pub const MARKER_ERROR: &'static str = "error";

/// Marker for completed analysis.
pub const MARKER_RESULT: &'static str = "result.json";

/// The message for a packet waiting at `position` in the queue.
pub open spec fn queued_message(position: nat) -> Seq<char> {
    "queued at position "@ + decimal(position)
}

/// What a status request finds.
pub enum Lookup {
    /// No such packet.
    Unknown,
    /// Waiting at `position` in the queue; `message` says so.
    Queued { position: usize, message: String },
    /// Complete: the result lies in the file at `path`.
    Completed { path: String },
    /// Failed: the diagnostic lies in the file at `path`.
    Failed { path: String },
}

/// A registry that contradicts itself.
#[derive(Clone, Copy, Debug, PartialEq, Eq, Structural)]
pub enum RegistryError {
    /// A received packet is missing from the queue.
    NotQueued,
}

impl RegistryError {
    /// A description of the error.
    pub fn message(&self) -> (r: String)
        ensures
            r@ == "unable to find packet in queue"@,
    {
        String::from_str("unable to find packet in queue")
    }
}

/// A packet's paths as seen from the host and from inside a sandbox that
/// mounts the packet directory, for one stage.
pub struct DockedPacket {
    pub host_base: String,
    pub host_output: String,
    pub path_base: String,
    pub path_program: String,
    pub path_input: String,
    pub path_input_cases: Vec<String>,
    pub path_crash: String,
    pub path_crash_cases: Vec<String>,
    pub path_output: String,
}

impl DockedPacket {
    /// Derive a workspace path inside the stage's output directory, on the
    /// host and in the sandbox.
    pub fn wks_path(&self, seg: &str) -> (r: (String, String))
        ensures
            r.0@ == path_join(self.host_output@, seg@),
            r.1@ == path_join(self.path_output@, seg@),
    {
        (join_path(self.host_output.as_str(), seg), join_path(self.path_output.as_str(), seg))
    }
}

/// Each name of `names` joined under `dir`.
pub open spec fn joined_all(dir: Seq<char>, names: Seq<String>) -> Seq<Seq<char>> {
    names.map_values(|n: String| path_join(dir, n@))
}

fn join_each(dir: &str, names: &Vec<String>) -> (r: Vec<String>)
    ensures
        r@.map_values(|s: String| s@) == joined_all(dir@, names@),
{
    let mut r: Vec<String> = Vec::new();
    let mut i: usize = 0;
    while i < names.len()
        invariant
            i <= names@.len(),
            r@.map_values(|s: String| s@) == joined_all(dir@, names@).subrange(0, i as int),
        decreases names@.len() - i,
    {
        let ghost prev = r@;
        let s = join_path(dir, names[i].as_str());
        r.push(s);
        proof {
            assert(r@.map_values(|s: String| s@) =~= prev.map_values(|s: String| s@).push(
                path_join(dir@, names@[i as int]@),
            ));
            assert(r@.map_values(|s: String| s@) =~= joined_all(dir@, names@).subrange(
                0,
                i + 1,
            ));
        }
        i = i + 1;
    }
    proof {
        assert(joined_all(dir@, names@).subrange(0, names@.len() as int) =~= joined_all(
            dir@,
            names@,
        ));
    }
    r
}

/// A packet directory found under the root at start-up.
pub struct ScanEntry {
    /// The directory's name, the packet's hash.
    pub hash: String,
    /// Whether it holds the result marker.
    pub has_result: bool,
    /// Whether it holds the error marker.
    pub has_error: bool,
}

impl ScanEntry {
    /// Whether the error marker must be cleared before the packet is queued
    /// again: an error without a result.
    pub fn stale_error(&self) -> (r: bool)
        ensures
            r == (self.has_error && !self.has_result),
    {
        self.has_error && !self.has_result
    }
}

/// The registry rebuilt from the directories found under `root`, in order.
pub open spec fn recover(root: Seq<char>, scan: Seq<ScanEntry>) -> RegistryView
    decreases scan.len(),
{
    if scan.len() == 0 {
        RegistryView::empty(root)
    } else {
        recover(root, scan.drop_last()).recovered(scan.last().hash@, scan.last().has_result)
    }
}

/// The strings of `v`, as a set.
pub open spec fn string_set(v: Seq<String>) -> Set<Seq<char>> {
    v.map_values(|s: String| s@).to_set()
}

/// Registry of packets.
pub struct Registry {
    root: String,
    queue: Vec<Packet>,
    order: Vec<Packet>,
    states: Vec<Status>,
    installed: Vec<String>,
    status_map: Ghost<Map<Seq<char>, Status>>,
}

impl View for Registry {
    type V = RegistryView;

    closed spec fn view(&self) -> RegistryView {
        RegistryView {
            root: self.root@,
            queue: hashes(self.queue@),
            order: hashes(self.order@),
            status: self.status_map@,
            installed: string_set(self.installed@),
        }
    }
}

/// Index of the first packet of `v` named `h`.
fn find(v: &Vec<Packet>, h: &String) -> (r: Option<usize>)
    ensures
        match r {
            Some(i) => i < v@.len() && hashes(v@)[i as int] == h@ && forall|j: int|
                0 <= j < i ==> hashes(v@)[j] != h@,
            None => !hashes(v@).contains(h@),
        },
{
    let mut i: usize = 0;
    while i < v.len()
        invariant
            i <= v@.len(),
            forall|j: int| 0 <= j < i ==> hashes(v@)[j] != h@,
        decreases v@.len() - i,
    {
        if v[i].hash == *h {
            return Some(i);
        }
        i = i + 1;
    }
    proof {
        assert forall|j: int| 0 <= j < hashes(v@).len() implies hashes(v@)[j] != h@ by {}
    }
    None
}

impl Registry {
    /// The registry's own consistency: statuses and queue agree, and no hash
    /// is recorded or queued twice.
    pub closed spec fn inv(&self) -> bool {
        let order = hashes(self.order@);
        let queue = hashes(self.queue@);
        let status = self.status_map@;
        &&& self.order@.len() == self.states@.len()
        &&& order.no_duplicates()
        &&& queue.no_duplicates()
        &&& forall|h: Seq<char>| status.contains_key(h) <==> order.contains(h)
        &&& forall|i: int| 0 <= i < order.len() ==> status[#[trigger] order[i]] == self.states@[i]
        &&& forall|h: Seq<char>|
            queue.contains(h) <==> (status.contains_key(h) && status[h] == Status::Received)
    }

    /// Give `h` the status `s`, recording it first when it has none.
    fn set_status(&mut self, packet: &Packet, s: Status)
        requires
            old(self).order@.len() == old(self).states@.len(),
            hashes(old(self).order@).no_duplicates(),
            forall|h: Seq<char>|
                old(self).status_map@.contains_key(h) <==> hashes(old(self).order@).contains(h),
            forall|i: int|
                0 <= i < hashes(old(self).order@).len() ==> old(self).status_map@[#[trigger] hashes(
                    old(self).order@,
                )[i]] == old(self).states@[i],
        ensures
            final(self).order@.len() == final(self).states@.len(),
            hashes(final(self).order@).no_duplicates(),
            forall|h: Seq<char>|
                final(self).status_map@.contains_key(h) <==> hashes(
                    final(self).order@,
                ).contains(h),
            forall|i: int|
                0 <= i < hashes(final(self).order@).len() ==> final(self).status_map@[#[trigger] hashes(
                    final(self).order@,
                )[i]] == final(self).states@[i],
            final(self).status_map@ == old(self).status_map@.insert(packet@, s),
            hashes(final(self).order@) == old(self)@.order_with(packet@),
            final(self).queue == old(self).queue,
            final(self).root == old(self).root,
            final(self).installed == old(self).installed,
    {
        let ghost h = packet@;
        match find(&self.order, &packet.hash) {
            Some(i) => {
                self.states.set(i, s);
                proof {
                    self.status_map@ = self.status_map@.insert(h, s);
                    assert(hashes(self.order@).contains(h));
                }
            },
            None => {
                self.order.push(packet.copy());
                self.states.push(s);
                proof {
                    self.status_map@ = self.status_map@.insert(h, s);
                    assert(hashes(self.order@) =~= hashes(old(self).order@).push(h));
                    let ghost o = hashes(old(self).order@);
                    let ghost n = hashes(self.order@);
                    assert forall|x: Seq<char>| self.status_map@.contains_key(x) <==> n.contains(x) by {
                        if x == h {
                            assert(n[o.len() as int] == h);
                        } else {
                            if o.contains(x) {
                                let k = choose|k: int| 0 <= k < o.len() && o[k] == x;
                                assert(n[k] == x);
                            }
                            if n.contains(x) {
                                let k = choose|k: int| 0 <= k < n.len() && n[k] == x;
                                assert(o[k] == x);
                            }
                        }
                    }
                }
            },
        }
    }

    /// Record one directory found at start-up.
    fn recover_one(&mut self, e: &ScanEntry)
        requires
            old(self).inv(),
        ensures
            final(self).inv(),
            final(self)@ == old(self)@.recovered(e.hash@, e.has_result),
    {
        let ghost h = e.hash@;
        match find(&self.order, &e.hash) {
            Some(i) => {
                proof {
                    assert(hashes(self.order@)[i as int] == h);
                    assert(hashes(self.order@).contains(h));
                    assert(self@.status.contains_key(h));
                }
            },
            None => {
                proof {
                    assert(!self@.status.contains_key(h));
                }
                let p = Packet { hash: e.hash.clone() };
                let st = if e.has_result {
                    Status::Completed
                } else {
                    Status::Received
                };
                self.set_status(&p, st);
                if !e.has_result {
                    self.queue.push(p);
                    proof {
                        assert(hashes(self.queue@) =~= hashes(old(self).queue@).push(h));
                        lemma_push_keeps_distinct(hashes(old(self).queue@), h);
                    }
                }
                self.installed.push(e.hash.clone());
                proof {
                    lemma_string_set_push(old(self).installed@, e.hash);
                    let o = hashes(old(self).queue@);
                    let n = hashes(self.queue@);
                    assert forall|x: Seq<char>|
                        n.contains(x) <==> (self.status_map@.contains_key(x)
                            && self.status_map@[x] == Status::Received) by {
                        if !e.has_result {
                            if x != h && n.contains(x) {
                                let k = choose|k: int| 0 <= k < n.len() && n[k] == x;
                                assert(o[k] == x);
                            }
                            if x == h {
                                assert(n[o.len() as int] == h);
                            }
                            if x != h && o.contains(x) {
                                let k = choose|k: int| 0 <= k < o.len() && o[k] == x;
                                assert(n[k] == x);
                            }
                        }
                    }
                    assert(self@.queue == old(self)@.recovered(h, e.has_result).queue);
                    assert(self@.order == old(self)@.recovered(h, e.has_result).order);
                    assert(self@.status == old(self)@.recovered(h, e.has_result).status);
                    assert(self@.installed == old(self)@.recovered(h, e.has_result).installed);
                }
            },
        }
    }

    /// Add the packet to the queue and mark it as received. A packet that
    /// already waits keeps its place.
    pub fn queue(&mut self, packet: Packet)
        requires
            old(self).inv(),
        ensures
            final(self).inv(),
            final(self)@ == old(self)@.queued(packet@),
    {
        let ghost h = packet@;
        let waiting = match find(&self.order, &packet.hash) {
            Some(i) => {
                proof {
                    assert(hashes(self.order@)[i as int] == h);
                    assert(hashes(self.order@).contains(h));
                }
                matches!(self.states[i], Status::Received)
            },
            None => false,
        };
        self.set_status(&packet, Status::Received);
        if !waiting {
            self.queue.push(packet);
            proof {
                assert(hashes(self.queue@) =~= hashes(old(self).queue@).push(h));
                lemma_push_keeps_distinct(hashes(old(self).queue@), h);
            }
        }
        proof {
            let o = hashes(old(self).queue@);
            let n = hashes(self.queue@);
            assert forall|x: Seq<char>|
                n.contains(x) <==> (self.status_map@.contains_key(x) && self.status_map@[x]
                    == Status::Received) by {
                if !waiting {
                    if x != h && n.contains(x) {
                        let k = choose|k: int| 0 <= k < n.len() && n[k] == x;
                        assert(o[k] == x);
                    }
                    if x == h {
                        assert(n[o.len() as int] == h);
                    }
                    if x != h && o.contains(x) {
                        let k = choose|k: int| 0 <= k < o.len() && o[k] == x;
                        assert(n[k] == x);
                    }
                }
            }
        }
    }

    /// Give the packet the terminal status `s` and take it out of the queue.
    fn settle(&mut self, packet: Packet, s: Status)
        requires
            old(self).inv(),
            s != Status::Received,
        ensures
            final(self).inv(),
            final(self)@ == old(self)@.settled(packet@, s),
    {
        let ghost h = packet@;
        self.set_status(&packet, s);
        match find(&self.queue, &packet.hash) {
            Some(i) => {
                self.queue.remove(i);
                proof {
                    let o = hashes(old(self).queue@);
                    let n = hashes(self.queue@);
                    assert(n =~= o.remove(i as int));
                    o.index_of_first_ensures(h);
                    assert(o.remove_value(h) == o.remove(i as int));
                    assert forall|a: int, b: int|
                        0 <= a < n.len() && 0 <= b < n.len() && a != b implies n[a] != n[b] by {
                        let a2 = if a < i { a } else { a + 1 };
                        let b2 = if b < i { b } else { b + 1 };
                        assert(n[a] == o[a2] && n[b] == o[b2]);
                    }
                    assert forall|x: Seq<char>|
                        n.contains(x) <==> (self.status_map@.contains_key(x)
                            && self.status_map@[x] == Status::Received) by {
                        if n.contains(x) {
                            let k = choose|k: int| 0 <= k < n.len() && n[k] == x;
                            let k2 = if k < i { k } else { k + 1 };
                            assert(o[k2] == x);
                            assert(k2 != i);
                        }
                        if x != h && o.contains(x) {
                            let k = choose|k: int| 0 <= k < o.len() && o[k] == x;
                            assert(k != i);
                            if k < i {
                                assert(n[k] == x);
                            } else {
                                assert(n[k - 1] == x);
                            }
                        }
                    }
                }
            },
            None => {
                proof {
                    hashes(old(self).queue@).index_of_first_ensures(h);
                }
            },
        }
    }

    /// Record a completed analysis: the packet is complete and leaves the
    /// queue. The caller writes the result marker first.
    pub fn save_result(&mut self, packet: Packet)
        requires
            old(self).inv(),
        ensures
            final(self).inv(),
            final(self)@ == old(self)@.settled(packet@, Status::Completed),
    {
        self.settle(packet, Status::Completed)
    }

    /// Record a failed analysis: the packet is in error and leaves the queue.
    /// The caller writes the error marker first.
    pub fn save_error(&mut self, packet: Packet)
        requires
            old(self).inv(),
        ensures
            final(self).inv(),
            final(self)@ == old(self)@.settled(packet@, Status::Error),
    {
        self.settle(packet, Status::Error)
    }

    /// Report a snapshot of all packets the registry knows, in the order
    /// they were first recorded.
    pub fn snapshot(&self) -> (r: Vec<(Packet, Status)>)
        requires
            self.inv(),
        ensures
            r@.len() == self@.order.len(),
            forall|i: int|
                0 <= i < r@.len() ==> (#[trigger] r@[i]).0@ == self@.order[i] && r@[i].1
                    == self@.status[self@.order[i]],
    {
        let mut r: Vec<(Packet, Status)> = Vec::new();
        let mut i: usize = 0;
        while i < self.order.len()
            invariant
                self.inv(),
                i <= self.order@.len(),
                r@.len() == i,
                forall|k: int|
                    0 <= k < i ==> (#[trigger] r@[k]).0@ == self@.order[k] && r@[k].1
                        == self@.status[self@.order[k]],
            decreases self.order@.len() - i,
        {
            r.push((self.order[i].copy(), self.states[i]));
            proof {
                assert(hashes(self.order@)[i as int] == self.order@[i as int]@);
            }
            i = i + 1;
        }
        r
    }

    /// Claim the directory of `hash` under the root: the one point where
    /// submissions are told apart. `existed` says whether it was claimed
    /// before.
    pub fn claim(&mut self, hash: String) -> (r: (Packet, bool))
        requires
            old(self).inv(),
        ensures
            final(self).inv(),
            r.0@ == hash@,
            r.1 == old(self)@.installed.contains(hash@),
            final(self)@ == old(self)@.claimed(hash@),
    {
        let mut existed = false;
        let mut i: usize = 0;
        while i < self.installed.len()
            invariant
                i <= self.installed@.len(),
                existed <==> exists|k: int| 0 <= k < i && (#[trigger] self.installed@[k])@ == hash@,
            decreases self.installed@.len() - i,
        {
            if self.installed[i] == hash {
                existed = true;
            }
            i = i + 1;
        }
        proof {
            let v = self.installed@.map_values(|s: String| s@);
            if existed {
                let k = choose|k: int| 0 <= k < i && (#[trigger] self.installed@[k])@ == hash@;
                assert(v[k] == hash@);
            }
            if v.contains(hash@) {
                let k = choose|k: int| 0 <= k < v.len() && v[k] == hash@;
                assert(self.installed@[k]@ == hash@);
            }
        }
        if !existed {
            self.installed.push(hash.clone());
            proof {
                lemma_string_set_push(old(self).installed@, hash);
            }
        } else {
            proof {
                assert(old(self)@.installed.insert(hash@) =~= old(self)@.installed);
            }
        }
        (Packet { hash }, existed)
    }

    /// Register an upload: check its layout (its top entries, the size of
    /// `main.c` when that is a file, the entries of `input/` and `crash/`
    /// when those are directories), and if it is accepted compute the
    /// identifier of its content (`program`, then the input and crash cases
    /// in listing order) and claim its directory. `existed` says whether the
    /// same content was registered before. A refused upload reports its
    /// first defect and leaves the registry as it was.
    pub fn register(
        &mut self,
        top: &Vec<Entry>,
        program_size: Option<u64>,
        inputs: &Option<Vec<Entry>>,
        crashes: &Option<Vec<Entry>>,
        program: &Vec<u8>,
        input_data: &Vec<Vec<u8>>,
        crash_data: &Vec<Vec<u8>>,
    ) -> (r: Result<(Packet, bool), Malformed>)
        requires
            old(self).inv(),
        ensures
            final(self).inv(),
            r is Ok <==> submission_valid(top@, program_size, *inputs, *crashes),
            match r {
                Ok((p, existed)) => {
                    &&& p@ == packet_hash(program@, contents(input_data@), contents(crash_data@))
                    &&& p@.len() == 64
                    &&& existed == old(self)@.installed.contains(p@)
                    &&& final(self)@ == old(self)@.claimed(p@)
                },
                Err(e) => {
                    &&& reported(top@, program_size, *inputs, *crashes, e@)
                    &&& final(self)@ == old(self)@
                },
            },
    {
        match check_layout(top, program_size, inputs, crashes) {
            Err(e) => Err(e),
            Ok(_) => {
                let hash = submission_id(program, input_data, crash_data);
                Ok(self.claim(hash))
            },
        }
    }

    /// Give up the claim on a packet's directory, when creating it failed.
    pub fn release(&mut self, packet: &Packet)
        requires
            old(self).inv(),
        ensures
            final(self).inv(),
            final(self)@ == (RegistryView { installed: old(self)@.installed.remove(packet@), ..old(self)@ }),
    {
        let mut kept: Vec<String> = Vec::new();
        let mut i: usize = 0;
        while i < self.installed.len()
            invariant
                i <= self.installed@.len(),
                string_set(kept@) == string_set(self.installed@.subrange(0, i as int)).remove(packet@),
            decreases self.installed@.len() - i,
        {
            let ghost prev = kept@;
            proof {
                assert(self.installed@.subrange(0, i + 1) =~= self.installed@.subrange(0, i as int).push(
                    self.installed@[i as int],
                ));
                lemma_string_set_push(self.installed@.subrange(0, i as int), self.installed@[i as int]);
            }
            if self.installed[i] != packet.hash {
                kept.push(self.installed[i].clone());
                proof {
                    lemma_string_set_push(prev, self.installed@[i as int]);
                    assert(string_set(kept@) =~= string_set(self.installed@.subrange(0, i + 1)).remove(
                        packet@,
                    ));
                }
            } else {
                proof {
                    assert(string_set(kept@) =~= string_set(self.installed@.subrange(0, i + 1)).remove(
                        packet@,
                    ));
                }
            }
            i = i + 1;
        }
        proof {
            assert(self.installed@.subrange(0, self.installed@.len() as int) =~= self.installed@);
        }
        self.installed = kept;
    }

    /// The packet's directory on the host.
    pub fn packet_dir(&self, packet: &Packet) -> (r: String)
        ensures
            r@ == path_join(self@.root, packet@),
    {
        join_path(self.root.as_str(), packet.hash.as_str())
    }

    /// Where the result marker of the packet lies on the host.
    pub fn result_path(&self, packet: &Packet) -> (r: String)
        ensures
            r@ == path_join(path_join(self@.root, packet@), MARKER_RESULT@),
    {
        let dir = self.packet_dir(packet);
        join_path(dir.as_str(), MARKER_RESULT)
    }

    /// Where the error marker of the packet lies on the host.
    pub fn error_path(&self, packet: &Packet) -> (r: String)
        ensures
            r@ == path_join(path_join(self@.root, packet@), MARKER_ERROR@),
    {
        let dir = self.packet_dir(packet);
        join_path(dir.as_str(), MARKER_ERROR)
    }

    /// The host directory of one stage's workspace, which the caller creates
    /// afresh before docking the packet.
    pub fn stage_dir(&self, packet: &Packet, name: &str) -> (r: String)
        ensures
            r@ == path_join(path_join(path_join(self@.root, packet@), "output"@), name@),
    {
        let dir = self.packet_dir(packet);
        let out = join_path(dir.as_str(), "output");
        join_path(out.as_str(), name)
    }

    /// The packet's paths for stage `name`, in a sandbox that mounts the
    /// packet directory at `mnt`; `inputs` and `crashes` name the test cases
    /// found in the packet.
    pub fn mk_dockerized_packet(
        &self,
        pkt: &Packet,
        name: &str,
        mnt: &str,
        inputs: &Vec<String>,
        crashes: &Vec<String>,
    ) -> (r: DockedPacket)
        ensures
            r.host_base@ == path_join(self@.root, pkt@),
            r.host_output@ == path_join(path_join(path_join(self@.root, pkt@), "output"@), name@),
            r.path_base@ == mnt@,
            r.path_program@ == path_join(mnt@, "main.c"@),
            r.path_input@ == path_join(mnt@, "input"@),
            r.path_input_cases@.map_values(|s: String| s@) == joined_all(
                path_join(mnt@, "input"@),
                inputs@,
            ),
            r.path_crash@ == path_join(mnt@, "crash"@),
            r.path_crash_cases@.map_values(|s: String| s@) == joined_all(
                path_join(mnt@, "crash"@),
                crashes@,
            ),
            r.path_output@ == path_join(path_join(mnt@, "output"@), name@),
    {
        let host_base = self.packet_dir(pkt);
        let host_output = self.stage_dir(pkt, name);
        let path_input = join_path(mnt, "input");
        let path_crash = join_path(mnt, "crash");
        let out = join_path(mnt, "output");
        DockedPacket {
            host_base,
            host_output,
            path_base: String::from_str(mnt),
            path_program: join_path(mnt, "main.c"),
            path_input_cases: join_each(path_input.as_str(), inputs),
            path_input,
            path_crash_cases: join_each(path_crash.as_str(), crashes),
            path_crash,
            path_output: join_path(out.as_str(), name),
        }
    }

    /// Look up a packet's status. A waiting packet is reported with its place
    /// in the queue; a finished one with the marker file to read.
    pub fn load_packet_status(&self, hash: String) -> (r: Result<Lookup, RegistryError>)
        requires
            self.inv(),
        ensures
            !self@.status.contains_key(hash@) ==> r matches Ok(Lookup::Unknown),
            self@.status.contains_key(hash@) && self@.status[hash@] == Status::Received ==> (
            match r {
                Ok(Lookup::Queued { position, message }) => position < self@.queue.len()
                    && self@.queue[position as int] == hash@ && (forall|j: int|
                    0 <= j < position ==> self@.queue[j] != hash@) && message@ == queued_message(
                    position as nat,
                ),
                _ => false,
            }),
            self@.status.contains_key(hash@) && self@.status[hash@] == Status::Completed ==> (
            match r {
                Ok(Lookup::Completed { path }) => path@ == path_join(
                    path_join(self@.root, hash@),
                    MARKER_RESULT@,
                ),
                _ => false,
            }),
            self@.status.contains_key(hash@) && self@.status[hash@] == Status::Error ==> (
            match r {
                Ok(Lookup::Failed { path }) => path@ == path_join(
                    path_join(self@.root, hash@),
                    MARKER_ERROR@,
                ),
                _ => false,
            }),
    {
        let packet = Packet { hash };
        match find(&self.order, &packet.hash) {
            None => {
                proof {
                    assert(!self@.status.contains_key(packet@));
                }
                Ok(Lookup::Unknown)
            },
            Some(i) => {
                proof {
                    assert(hashes(self.order@)[i as int] == packet@);
                    assert(hashes(self.order@).contains(packet@));
                }
                match self.states[i] {
                    Status::Received => match find(&self.queue, &packet.hash) {
                        None => Err(RegistryError::NotQueued),
                        Some(pos) => {
                            let n = decimal_string(pos as u128);
                            let message = concat("queued at position ", n.as_str());
                            proof {
                                reveal_strlit("queued at position ");
                            }
                            Ok(Lookup::Queued { position: pos, message })
                        },
                    },
                    Status::Completed => Ok(Lookup::Completed { path: self.result_path(&packet) }),
                    Status::Error => Ok(Lookup::Failed { path: self.error_path(&packet) }),
                }
            },
        }
    }

    /// Create a registry over `root` from the packet directories found there.
    /// Each directory holding a result is complete; every other one waits in
    /// the queue, in the order found.
    pub fn new(root: String, scan: Vec<ScanEntry>) -> (r: Registry)
        ensures
            r.inv(),
            r@ == recover(root@, scan@),
    {
        let ghost root_v = root@;
        let mut r = Registry {
            root,
            queue: Vec::new(),
            order: Vec::new(),
            states: Vec::new(),
            installed: Vec::new(),
            status_map: Ghost(Map::empty()),
        };
        proof {
            assert(hashes(r.order@) =~= Seq::<Seq<char>>::empty());
            assert(hashes(r.queue@) =~= Seq::<Seq<char>>::empty());
            assert(string_set(r.installed@) =~= Set::<Seq<char>>::empty());
            assert(r@ == RegistryView::empty(root_v));
            assert(scan@.subrange(0, 0) =~= Seq::<ScanEntry>::empty());
        }
        let mut i: usize = 0;
        while i < scan.len()
            invariant
                i <= scan@.len(),
                r.inv(),
                r@ == recover(root_v, scan@.subrange(0, i as int)),
            decreases scan@.len() - i,
        {
            r.recover_one(&scan[i]);
            proof {
                assert(scan@.subrange(0, i + 1).drop_last() =~= scan@.subrange(0, i as int));
            }
            i = i + 1;
        }
        proof {
            assert(scan@.subrange(0, scan@.len() as int) =~= scan@);
        }
        r
    }
}

/// Pushing one string adds it to the set.
proof fn lemma_string_set_push(v: Seq<String>, s: String)
    ensures
        string_set(v.push(s)) == string_set(v).insert(s@),
{
    let a = v.map_values(|x: String| x@);
    let b = v.push(s).map_values(|x: String| x@);
    assert(b =~= a.push(s@));
    assert forall|x: Seq<char>| b.contains(x) <==> (a.contains(x) || x == s@) by {
        if b.contains(x) && x != s@ {
            let k = choose|k: int| 0 <= k < b.len() && b[k] == x;
            assert(a[k] == x);
        }
        if a.contains(x) {
            let k = choose|k: int| 0 <= k < a.len() && a[k] == x;
            assert(b[k] == x);
        }
        if x == s@ {
            assert(b[a.len() as int] == x);
        }
    }
    assert(string_set(v.push(s)) =~= string_set(v).insert(s@));
}

/// Appending an element that is absent keeps a sequence free of duplicates.
proof fn lemma_push_keeps_distinct(q: Seq<Seq<char>>, h: Seq<char>)
    requires
        q.no_duplicates(),
        !q.contains(h),
    ensures
        q.push(h).no_duplicates(),
{
    let n = q.push(h);
    assert forall|i: int, j: int| 0 <= i < n.len() && 0 <= j < n.len() && i != j implies n[i]
        != n[j] by {
        if i == q.len() {
            assert(q[j] == n[j]);
        } else if j == q.len() {
            assert(q[i] == n[i]);
        }
    }
}


/// Every packet that waits for analysis stands in the queue exactly once.
pub proof fn lemma_received_queued_once(r: &Registry, h: Seq<char>)
    requires
        r.inv(),
        r@.status.contains_key(h),
        r@.status[h] == Status::Received,
    ensures
        exists|i: int|
            0 <= i < r@.queue.len() && r@.queue[i] == h && forall|j: int|
                0 <= j < r@.queue.len() && r@.queue[j] == h ==> j == i,
{
    let q = r@.queue;
    assert(q.contains(h));
    let i = choose|i: int| 0 <= i < q.len() && q[i] == h;
    assert forall|j: int| 0 <= j < q.len() && q[j] == h implies j == i by {
        if j != i {
            assert(q[i] != q[j]);
        }
    }
}

/// Once a directory is claimed, every later claim of the same hash finds it
/// claimed: of two registrations of the same content, at most one is new.
pub proof fn lemma_claim_once(v: RegistryView, h: Seq<char>)
    ensures
        v.claimed(h).installed.contains(h),
        v.claimed(h).claimed(h) == v.claimed(h),
        v.claimed(h).queued(h).installed.contains(h),
        forall|s: Status| (#[trigger] v.claimed(h).settled(h, s)).installed.contains(h),
{
    assert(v.claimed(h).claimed(h).installed =~= v.claimed(h).installed);
}

/// Saving the outcome of a packet twice leaves the registry as saving it
/// once: re-running a finished analysis changes nothing but the result file.
pub proof fn lemma_settle_idempotent(v: RegistryView, h: Seq<char>, s: Status)
    requires
        v.queue.no_duplicates(),
    ensures
        v.settled(h, s).settled(h, s) == v.settled(h, s),
{
    let q = v.queue;
    q.index_of_first_ensures(h);
    let q1 = q.remove_value(h);
    assert(!q1.contains(h)) by {
        if q.contains(h) {
            let i = q.index_of_first(h)->0;
            if q1.contains(h) {
                let k = choose|k: int| 0 <= k < q1.len() && q1[k] == h;
                let k2 = if k < i { k } else { k + 1 };
                assert(q[k2] == h);
                assert(k2 != i);
            }
        }
    }
    q1.index_of_first_ensures(h);
    assert(v.settled(h, s).settled(h, s).status =~= v.settled(h, s).status);
}


/// The packets known after start-up are exactly the directories found.
proof fn lemma_recover_dom(root: Seq<char>, scan: Seq<ScanEntry>, h: Seq<char>)
    ensures
        recover(root, scan).status.contains_key(h) <==> exists|i: int|
            0 <= i < scan.len() && (#[trigger] scan[i]).hash@ == h,
    decreases scan.len(),
{
    if scan.len() > 0 {
        let pre = scan.drop_last();
        lemma_recover_dom(root, pre, h);
        if exists|i: int| 0 <= i < pre.len() && (#[trigger] pre[i]).hash@ == h {
            let i = choose|i: int| 0 <= i < pre.len() && (#[trigger] pre[i]).hash@ == h;
            assert(scan[i] == pre[i]);
        }
        if exists|i: int| 0 <= i < scan.len() && (#[trigger] scan[i]).hash@ == h {
            let i = choose|i: int| 0 <= i < scan.len() && (#[trigger] scan[i]).hash@ == h;
            if i < pre.len() {
                assert(pre[i] == scan[i]);
            }
        }
    }
}

/// After start-up, a packet whose directory holds the result marker is
/// complete and any other packet waits for analysis again: each packet is
/// in exactly one of the states that its markers describe, and a stale
/// error marker (see `ScanEntry::stale_error`) stands for a waiting packet.
pub proof fn lemma_recovered_status(root: Seq<char>, scan: Seq<ScanEntry>, k: int)
    requires
        0 <= k < scan.len(),
        forall|i: int, j: int|
            0 <= i < j < scan.len() ==> (#[trigger] scan[i]).hash@ != (#[trigger] scan[j]).hash@,
    ensures
        recover(root, scan).status.contains_key(scan[k].hash@),
        recover(root, scan).status[scan[k].hash@] == if scan[k].has_result {
            Status::Completed
        } else {
            Status::Received
        },
        recover(root, scan).queue.contains(scan[k].hash@) <==> !scan[k].has_result,
    decreases scan.len(),
{
    let pre = scan.drop_last();
    let h = scan[k].hash@;
    let last = scan.len() - 1;
    lemma_recover_dom(root, pre, h);
    lemma_recover_queue_known(root, pre, h);
    if k == last {
        assert forall|i: int| 0 <= i < pre.len() implies (#[trigger] pre[i]).hash@ != h by {
            assert(pre[i] == scan[i]);
        }
        let v = recover(root, pre);
        assert(!v.status.contains_key(h));
        assert(!v.queue.contains(h));
        if !scan[k].has_result {
            assert(v.queue.push(h)[v.queue.len() as int] == h);
        } else {
            assert(!v.queue.contains(h));
        }
    } else {
        assert(pre[k] == scan[k]);
        assert forall|i: int, j: int|
            0 <= i < j < pre.len() implies (#[trigger] pre[i]).hash@ != (#[trigger] pre[j]).hash@ by {
            assert(pre[i] == scan[i] && pre[j] == scan[j]);
        }
        lemma_recovered_status(root, pre, k);
        let v = recover(root, pre);
        let g = scan.last().hash@;
        assert(g != h);
        if !v.status.contains_key(g) && !scan.last().has_result {
            let q = v.queue.push(g);
            if v.queue.contains(h) {
                let i = choose|i: int| 0 <= i < v.queue.len() && v.queue[i] == h;
                assert(q[i] == h);
            }
            if q.contains(h) {
                let i = choose|i: int| 0 <= i < q.len() && q[i] == h;
                assert(i < v.queue.len());
                assert(v.queue[i] == h);
            }
        }
    }
}

/// A packet waits in the queue after start-up only if it was found.
proof fn lemma_recover_queue_known(root: Seq<char>, scan: Seq<ScanEntry>, h: Seq<char>)
    ensures
        recover(root, scan).queue.contains(h) ==> recover(root, scan).status.contains_key(h),
    decreases scan.len(),
{
    if scan.len() > 0 {
        let pre = scan.drop_last();
        lemma_recover_queue_known(root, pre, h);
        let v = recover(root, pre);
        let g = scan.last().hash@;
        if !v.status.contains_key(g) && !scan.last().has_result && v.queue.push(g).contains(h) {
            let i = choose|i: int| 0 <= i < v.queue.push(g).len() && v.queue.push(g)[i] == h;
            if i < v.queue.len() {
                assert(v.queue[i] == h);
            }
        }
    }
}


/// The packets found without a result marker, in the order found.
pub open spec fn pending(scan: Seq<ScanEntry>) -> Seq<Seq<char>>
    decreases scan.len(),
{
    if scan.len() == 0 {
        Seq::empty()
    } else if scan.last().has_result {
        pending(scan.drop_last())
    } else {
        pending(scan.drop_last()).push(scan.last().hash@)
    }
}

/// After start-up the queue holds exactly the packets found without a
/// result marker, in the order the directories were found; with the
/// registry's invariant, each of them stands there once.
pub proof fn lemma_recovered_queue(root: Seq<char>, scan: Seq<ScanEntry>)
    requires
        forall|i: int, j: int|
            0 <= i < j < scan.len() ==> (#[trigger] scan[i]).hash@ != (#[trigger] scan[j]).hash@,
    ensures
        recover(root, scan).queue == pending(scan),
    decreases scan.len(),
{
    if scan.len() > 0 {
        let pre = scan.drop_last();
        let h = scan.last().hash@;
        assert forall|i: int, j: int|
            0 <= i < j < pre.len() implies (#[trigger] pre[i]).hash@ != (#[trigger] pre[j]).hash@ by {
            assert(pre[i] == scan[i] && pre[j] == scan[j]);
        }
        lemma_recovered_queue(root, pre);
        lemma_recover_dom(root, pre, h);
        assert forall|i: int| 0 <= i < pre.len() implies (#[trigger] pre[i]).hash@ != h by {
            assert(pre[i] == scan[i]);
        }
        assert(!recover(root, pre).status.contains_key(h));
    }
}

} // verus!
