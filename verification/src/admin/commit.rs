//! Committing a document to the listeners.
//!
//! Every address that the document names must be bound before anything is applied: missing
//! listeners are started first, then every target is resolved, then all of them are configured,
//! and last the listeners that the document no longer names are stopped or emptied.

use crate::admin::requests;
use crate::admin::requests::{report, Reply, ReplyV};
use crate::duplicate::Duplicate;
use crate::text::{cat3, cat4, listed};
use vstd::prelude::*;

verus! {

/// What has been asked last.
#[derive(Debug, Clone, Copy, PartialEq, Eq, Structural)]
pub enum Stage {
    /// Whether an address is bound.
    Checking,
    /// To start a listener.
    Starting,
    /// Which addresses are bound by now.
    Resolving,
    /// To apply the servers to their listeners.
    Applying,
    /// Which listeners there are.
    Sweeping,
    /// Nothing: the commit has ended.
    Ended,
}

/// A commit under way.
#[derive(Debug, PartialEq, Eq)]
pub struct Commit {
    /// The addresses of each server of the document.
    pub servers: Vec<Vec<String>>,
    /// Whether listeners can be started and stopped.
    pub dynamic: bool,
    /// The listeners that this commit has started.
    pub started: Vec<String>,
    /// The server that is being looked at.
    pub server: usize,
    /// Which of its addresses is being looked at.
    pub address: usize,
    pub stage: Stage,
}

/// The mathematical value of a [`Commit`].
#[verifier::ext_equal]
pub struct CommitV {
    pub servers: Seq<Seq<Seq<char>>>,
    pub dynamic: bool,
    pub started: Seq<Seq<char>>,
    pub server: nat,
    pub address: nat,
    pub stage: Stage,
}

impl View for Commit {
    type V = CommitV;

    open spec fn view(&self) -> CommitV {
        CommitV {
            servers: self.servers.deep_view(),
            dynamic: self.dynamic,
            started: self.started.deep_view(),
            server: self.server as nat,
            address: self.address as nat,
            stage: self.stage,
        }
    }
}

/// What to do next.
#[derive(Debug, PartialEq, Eq)]
pub enum Step {
    /// Tell whether this address is bound.
    Check(String),
    /// Start a listener on this address for the server with this number.
    Start(String, usize),
    /// Tell which addresses are bound.
    Resolve,
    /// Configure each of these listeners with the server of that number.
    Apply(Vec<(String, usize)>),
    /// Tell which listeners there are, and which of them were started at runtime.
    Survey,
    /// Stop (true) or empty (false) each of these listeners; the commit has succeeded.
    Retire(Vec<(String, bool)>),
    /// Stop these listeners; the commit has failed, with this answer.
    Fail(Vec<String>, Reply),
}

/// The mathematical value of a [`Step`].
#[verifier::ext_equal]
pub enum StepV {
    Check(Seq<char>),
    Start(Seq<char>, nat),
    Resolve,
    Apply(Seq<(Seq<char>, nat)>),
    Survey,
    Retire(Seq<(Seq<char>, bool)>),
    Fail(Seq<Seq<char>>, ReplyV),
}

/// The value of a list of numbered addresses.
pub open spec fn numbered_view(s: Seq<(String, usize)>) -> Seq<(Seq<char>, nat)> {
    Seq::new(s.len(), |i: int| (s[i].0@, s[i].1 as nat))
}

/// The value of a list of marked addresses.
pub open spec fn marked_view(s: Seq<(String, bool)>) -> Seq<(Seq<char>, bool)> {
    Seq::new(s.len(), |i: int| (s[i].0@, s[i].1))
}

impl View for Step {
    type V = StepV;

    open spec fn view(&self) -> StepV {
        match self {
            Step::Check(addr) => StepV::Check(addr@),
            Step::Start(addr, server) => StepV::Start(addr@, *server as nat),
            Step::Resolve => StepV::Resolve,
            Step::Apply(targets) => StepV::Apply(numbered_view(targets@)),
            Step::Survey => StepV::Survey,
            Step::Retire(list) => StepV::Retire(marked_view(list@)),
            Step::Fail(stop, reply) => StepV::Fail(stop.deep_view(), reply@),
        }
    }
}

// ---------------------------------------------------------------------------
// Transitions
// ---------------------------------------------------------------------------
/// A commit that has not looked at anything yet.
pub open spec fn fresh(servers: Seq<Seq<Seq<char>>>, dynamic: bool) -> CommitV {
    CommitV {
        servers,
        dynamic,
        started: Seq::empty(),
        server: 0,
        address: 0,
        stage: Stage::Checking,
    }
}

/// Moves on to the next address that has not been looked at. A server without addresses ends
/// the commit; the listeners that were started are stopped.
pub open spec fn onward(c: CommitV) -> (CommitV, StepV)
    decreases c.servers.len() - c.server,
{
    if c.server >= c.servers.len() {
        (CommitV { stage: Stage::Resolving, ..c }, StepV::Resolve)
    } else {
        let addresses = c.servers[c.server as int];
        if addresses.len() == 0 {
            (
                CommitV { stage: Stage::Ended, ..c },
                StepV::Fail(
                    c.started,
                    requests::problem(400, "a server declares no listen address"@),
                ),
            )
        } else if c.address >= addresses.len() {
            onward(CommitV { server: c.server + 1, address: 0, ..c })
        } else {
            (
                CommitV { stage: Stage::Checking, ..c },
                StepV::Check(addresses[c.address as int]),
            )
        }
    }
}

/// The address that is being looked at.
pub open spec fn current(c: CommitV) -> Seq<char> {
    c.servers[c.server as int][c.address as int]
}

/// Looking at an address: there is one to look at.
pub open spec fn attentive(c: CommitV) -> bool {
    c.server < c.servers.len() && c.address < c.servers[c.server as int].len()
}

/// After it was told whether the address is bound.
pub open spec fn checked(c: CommitV, bound: bool) -> (CommitV, StepV) {
    if bound {
        onward(CommitV { address: c.address + 1, ..c })
    } else if c.dynamic {
        (CommitV { stage: Stage::Starting, ..c }, StepV::Start(current(c), c.server))
    } else {
        (
            CommitV { stage: Stage::Ended, ..c },
            StepV::Fail(
                c.started,
                requests::answer(
                    503,
                    "listener "@ + current(c)
                        + " is not bound and runtime listener creation is unavailable"@,
                ),
            ),
        )
    }
}

/// After a listener was started, or could not be, for this reason. In that case those that were
/// started before are stopped.
pub open spec fn launched(c: CommitV, error: Option<Seq<char>>) -> (CommitV, StepV) {
    match error {
        None => onward(
            CommitV { address: c.address + 1, started: c.started.push(current(c)), ..c },
        ),
        Some(reason) => (
            CommitV { stage: Stage::Ended, ..c },
            StepV::Fail(
                c.started,
                requests::answer(
                    400,
                    "failed to create listener "@ + current(c) + ": "@ + reason,
                ),
            ),
        ),
    }
}

/// Each address of the document, with the number of its server, from the server `from` on.
pub open spec fn targets(servers: Seq<Seq<Seq<char>>>, from: nat) -> Seq<(Seq<char>, nat)>
    decreases servers.len() - from,
{
    if from >= servers.len() {
        Seq::empty()
    } else {
        let addresses = servers[from as int];
        Seq::new(addresses.len(), |i: int| (addresses[i], from)) + targets(servers, from + 1)
    }
}

/// The first of the targets that is not bound.
pub open spec fn unresolved(list: Seq<(Seq<char>, nat)>, bound: Seq<Seq<char>>) -> Option<
    Seq<char>,
>
    decreases list.len(),
{
    if list.len() == 0 {
        None
    } else if bound.contains(list[0].0) {
        unresolved(list.skip(1), bound)
    } else {
        Some(list[0].0)
    }
}

/// After it was told which addresses are bound. Either all targets are configured, or none is
/// and the listeners that were started are stopped.
pub open spec fn resolved(c: CommitV, bound: Seq<Seq<char>>) -> (CommitV, StepV) {
    match unresolved(targets(c.servers, 0), bound) {
        None => (
            CommitV { stage: Stage::Applying, ..c },
            StepV::Apply(targets(c.servers, 0)),
        ),
        Some(addr) => (
            CommitV { stage: Stage::Ended, ..c },
            StepV::Fail(
                c.started,
                requests::problem(
                    404,
                    "no listener is bound to "@ + addr + "; nothing was applied"@,
                ),
            ),
        ),
    }
}

/// After the targets were configured.
pub open spec fn applied(c: CommitV) -> (CommitV, StepV) {
    if c.dynamic {
        (CommitV { stage: Stage::Sweeping, ..c }, StepV::Survey)
    } else {
        (CommitV { stage: Stage::Ended, ..c }, StepV::Retire(Seq::empty()))
    }
}

/// Whether the document names this address.
pub open spec fn wanted(servers: Seq<Seq<Seq<char>>>, addr: Seq<char>) -> bool {
    exists|i: int| 0 <= i < servers.len() && (#[trigger] servers[i]).contains(addr)
}

/// The listeners that the document does not name.
pub open spec fn leftover(
    servers: Seq<Seq<Seq<char>>>,
    existing: Seq<(Seq<char>, bool)>,
) -> Seq<(Seq<char>, bool)> {
    existing.filter(|entry: (Seq<char>, bool)| !wanted(servers, entry.0))
}

/// After it was told which listeners there are.
pub open spec fn surveyed(c: CommitV, existing: Seq<(Seq<char>, bool)>) -> (CommitV, StepV) {
    (CommitV { stage: Stage::Ended, ..c }, StepV::Retire(leftover(c.servers, existing)))
}

// ---------------------------------------------------------------------------
// Execution
// ---------------------------------------------------------------------------
impl Commit {
    fn move_on(&mut self) -> (r: Step)
        ensures
            (final(self)@, r@) == onward(old(self)@),
    {
        loop
            invariant
                onward(self@) == onward(old(self)@),
            decreases self.servers@.len() - self.server,
        {
            if self.server >= self.servers.len() {
                self.stage = Stage::Resolving;
                return Step::Resolve;
            }
            assert(self@.servers[self.server as int]
                == self.servers@[self.server as int].deep_view());
            let n: usize = self.servers[self.server].len();
            if n == 0 {
                self.stage = Stage::Ended;
                return Step::Fail(
                    self.started.duplicate(),
                    report(400, "a server declares no listen address"),
                );
            }
            if self.address < n {
                self.stage = Stage::Checking;
                let addr = self.servers[self.server][self.address].clone();
                return Step::Check(addr);
            }
            self.server = self.server + 1;
            self.address = 0;
        }
    }

    /// Begins to commit a document whose servers have these addresses. With `dynamic`,
    /// listeners can be started and stopped.
    pub fn begin(servers: Vec<Vec<String>>, dynamic: bool) -> (r: (Commit, Step))
        ensures
            sound(r.0@),
            (r.0@, r.1@) == onward(fresh(servers.deep_view(), dynamic)),
    {
        let mut c = Commit {
            servers,
            dynamic,
            started: Vec::new(),
            server: 0,
            address: 0,
            stage: Stage::Checking,
        };
        assert(c@ =~= fresh(servers.deep_view(), dynamic));
        proof {
            a_commit_begins_sound(servers.deep_view(), dynamic);
        }
        let step = c.move_on();
        (c, step)
    }

    /// Tells whether the address is bound.
    pub fn check(&mut self, bound: bool) -> (r: Step)
        requires
            old(self).stage == Stage::Checking,
            sound(old(self)@),
        ensures
            sound(final(self)@),
            (final(self)@, r@) == checked(old(self)@, bound),
    {
        assert(self@.servers[self.server as int] == self.servers@[self.server as int].deep_view());
        assert(self.address < self.servers@[self.server as int].len());
        proof {
            a_commit_stays_sound(self@, Event::Checked(bound));
        }
        if bound {
            self.address = self.address + 1;
            return self.move_on();
        }
        let addr = self.servers[self.server][self.address].clone();
        assert(addr@ == current(self@));
        if self.dynamic {
            self.stage = Stage::Starting;
            return Step::Start(addr, self.server);
        }
        self.stage = Stage::Ended;
        let body = cat3(
            "listener ",
            addr.as_str(),
            " is not bound and runtime listener creation is unavailable",
        );
        Step::Fail(self.started.duplicate(), Reply { status: 503, body })
    }

    /// Tells whether the listener was started, or why not.
    pub fn start(&mut self, error: Option<&str>) -> (r: Step)
        requires
            old(self).stage == Stage::Starting,
            sound(old(self)@),
        ensures
            sound(final(self)@),
            (final(self)@, r@) == launched(
                old(self)@,
                match error {
                    Some(reason) => Some(reason@),
                    None => None,
                },
            ),
    {
        assert(self@.servers[self.server as int] == self.servers@[self.server as int].deep_view());
        let addr = self.servers[self.server][self.address].clone();
        assert(addr@ == current(self@));
        assert(self.address < self.servers@[self.server as int].len());
        proof {
            a_commit_stays_sound(
                self@,
                Event::Launched(
                    match error {
                        Some(reason) => Some(reason@),
                        None => None,
                    },
                ),
            );
        }
        match error {
            None => {
                let ghost before = self.started.deep_view();
                self.started.push(addr);
                assert(self.started.deep_view() =~= before.push(addr@));
                self.address = self.address + 1;
                self.move_on()
            },
            Some(reason) => {
                self.stage = Stage::Ended;
                let body = cat4("failed to create listener ", addr.as_str(), ": ", reason);
                Step::Fail(self.started.duplicate(), Reply { status: 400, body })
            },
        }
    }

    fn list_targets(&self) -> (r: Vec<(String, usize)>)
        ensures
            numbered_view(r@) == targets(self@.servers, 0),
    {
        let ghost servers = self@.servers;
        let mut out: Vec<(String, usize)> = Vec::new();
        let mut i: usize = 0;
        assert(numbered_view(out@) + targets(servers, 0) =~= targets(servers, 0));
        while i < self.servers.len()
            invariant
                i <= self.servers.len(),
                servers == self.servers.deep_view(),
                numbered_view(out@) + targets(servers, i as nat) == targets(servers, 0),
            decreases self.servers.len() - i,
        {
            let addresses = &self.servers[i];
            let ghost a = servers[i as int];
            assert(a == addresses.deep_view());
            let ghost head = Seq::new(a.len(), |k: int| (a[k], i as nat));
            let ghost before = numbered_view(out@);
            let mut j: usize = 0;
            assert(before + head.take(0) =~= before);
            while j < addresses.len()
                invariant
                    j <= addresses.len(),
                    a == addresses.deep_view(),
                    head == Seq::new(a.len(), |k: int| (a[k], i as nat)),
                    numbered_view(out@) == before + head.take(j as int),
                decreases addresses.len() - j,
            {
                let ghost now = numbered_view(out@);
                out.push((addresses[j].clone(), i));
                assert(numbered_view(out@) =~= now.push((a[j as int], i as nat)));
                j += 1;
                assert(head.take(j as int) =~= head.take(j - 1).push(head[j - 1]));
            }
            assert(head.take(j as int) =~= head);
            i += 1;
            assert((before + head) + targets(servers, i as nat) =~= before + (head + targets(
                servers,
                i as nat,
            )));
        }
        assert(numbered_view(out@) + targets(servers, i as nat) =~= numbered_view(out@));
        out
    }

    /// Tells which addresses are bound.
    pub fn resolve(&mut self, bound: &Vec<String>) -> (r: Step)
        requires
            old(self).stage == Stage::Resolving,
            sound(old(self)@),
        ensures
            sound(final(self)@),
            (final(self)@, r@) == resolved(old(self)@, bound.deep_view()),
    {
        let list = self.list_targets();
        let ghost t = numbered_view(list@);
        let mut i: usize = 0;
        assert(t.skip(0) =~= t);
        while i < list.len()
            invariant
                i <= list.len(),
                self@ == old(self)@,
                sound(old(self)@),
                t == numbered_view(list@),
                t == targets(old(self)@.servers, 0),
                unresolved(t, bound.deep_view()) == unresolved(
                    t.skip(i as int),
                    bound.deep_view(),
                ),
            decreases list.len() - i,
        {
            assert(t.skip(i as int)[0] == t[i as int]);
            assert(t.skip(i as int).skip(1) =~= t.skip(i + 1));
            if !listed(list[i].0.as_str(), bound) {
                self.stage = Stage::Ended;
                let message = cat3(
                    "no listener is bound to ",
                    list[i].0.as_str(),
                    "; nothing was applied",
                );
                return Step::Fail(self.started.duplicate(), report(404, message.as_str()));
            }
            i += 1;
        }
        self.stage = Stage::Applying;
        Step::Apply(list)
    }

    /// Tells that the targets were configured.
    pub fn apply(&mut self) -> (r: Step)
        requires
            old(self).stage == Stage::Applying,
            sound(old(self)@),
        ensures
            sound(final(self)@),
            (final(self)@, r@) == applied(old(self)@),
    {
        if self.dynamic {
            self.stage = Stage::Sweeping;
            return Step::Survey;
        }
        self.stage = Stage::Ended;
        let none: Vec<(String, bool)> = Vec::new();
        assert(marked_view(none@) =~= Seq::<(Seq<char>, bool)>::empty());
        Step::Retire(none)
    }

    fn names(&self, addr: &str) -> (r: bool)
        ensures
            r == wanted(self@.servers, addr@),
    {
        let mut i: usize = 0;
        while i < self.servers.len()
            invariant
                i <= self.servers.len(),
                forall|j: int| 0 <= j < i ==> !(#[trigger] self@.servers[j]).contains(addr@),
            decreases self.servers.len() - i,
        {
            assert(self@.servers[i as int] == self.servers@[i as int].deep_view());
            if listed(addr, &self.servers[i]) {
                return true;
            }
            i += 1;
        }
        false
    }

    /// Tells which listeners there are, and which of them were started at runtime.
    pub fn survey(&mut self, existing: &Vec<(String, bool)>) -> (r: Step)
        requires
            old(self).stage == Stage::Sweeping,
            sound(old(self)@),
        ensures
            sound(final(self)@),
            (final(self)@, r@) == surveyed(old(self)@, marked_view(existing@)),
    {
        let ghost e = marked_view(existing@);
        let ghost servers = self@.servers;
        let ghost keep = |entry: (Seq<char>, bool)| !wanted(servers, entry.0);
        let mut out: Vec<(String, bool)> = Vec::new();
        let mut i: usize = 0;
        proof {
            reveal(Seq::filter);
            assert(e.take(0).filter(keep) =~= Seq::<(Seq<char>, bool)>::empty());
            assert(marked_view(out@) =~= Seq::<(Seq<char>, bool)>::empty());
        }
        while i < existing.len()
            invariant
                i <= existing.len(),
                self@ == old(self)@,
                servers == self@.servers,
                e == marked_view(existing@),
                keep == (|entry: (Seq<char>, bool)| !wanted(servers, entry.0)),
                marked_view(out@) == e.take(i as int).filter(keep),
            decreases existing.len() - i,
        {
            proof {
                reveal(Seq::filter);
                assert(e.take(i + 1).drop_last() =~= e.take(i as int));
                assert(e.take(i + 1).last() == e[i as int]);
            }
            if !self.names(existing[i].0.as_str()) {
                let ghost before = marked_view(out@);
                out.push((existing[i].0.clone(), existing[i].1));
                assert(marked_view(out@) =~= before.push(e[i as int]));
            }
            i += 1;
        }
        assert(e.take(i as int) =~= e);
        self.stage = Stage::Ended;
        Step::Retire(out)
    }
}

// ---------------------------------------------------------------------------
// Laws
// ---------------------------------------------------------------------------
/// What a commit is told.
pub enum Event {
    /// Whether the address is bound.
    Checked(bool),
    /// Whether the listener was started, or why not.
    Launched(Option<Seq<char>>),
    /// Which addresses are bound.
    Resolved(Seq<Seq<char>>),
    /// The targets were configured.
    Applied,
    /// Which listeners there are.
    Surveyed(Seq<(Seq<char>, bool)>),
}

/// Whether the event answers what was asked last.
pub open spec fn expected(c: CommitV, e: Event) -> bool {
    match e {
        Event::Checked(_) => c.stage == Stage::Checking,
        Event::Launched(_) => c.stage == Stage::Starting,
        Event::Resolved(_) => c.stage == Stage::Resolving,
        Event::Applied => c.stage == Stage::Applying,
        Event::Surveyed(_) => c.stage == Stage::Sweeping,
    }
}

/// What an event leads to.
pub open spec fn advance(c: CommitV, e: Event) -> (CommitV, StepV) {
    match e {
        Event::Checked(bound) => checked(c, bound),
        Event::Launched(error) => launched(c, error),
        Event::Resolved(bound) => resolved(c, bound),
        Event::Applied => applied(c),
        Event::Surveyed(existing) => surveyed(c, existing),
    }
}

/// What holds of a commit between events: while it looks at an address there is one to look at,
/// and it has started only listeners that the document names, and none without the means.
pub open spec fn sound(c: CommitV) -> bool {
    &&& c.stage == Stage::Checking || c.stage == Stage::Starting ==> attentive(c)
    &&& forall|i: int| 0 <= i < c.started.len() ==> wanted(c.servers, #[trigger] c.started[i])
    &&& !c.dynamic ==> c.started.len() == 0 && c.stage != Stage::Starting
}

/// What was asked fits the stage: an address that is asked about is the one being looked at.
pub open spec fn asked(c: CommitV, s: StepV) -> bool {
    match s {
        StepV::Check(addr) => c.stage == Stage::Checking && addr == current(c),
        StepV::Start(addr, server) => c.stage == Stage::Starting && addr == current(c) && server
            == c.server,
        StepV::Resolve => c.stage == Stage::Resolving,
        StepV::Apply(_) => c.stage == Stage::Applying,
        StepV::Survey => c.stage == Stage::Sweeping,
        StepV::Retire(_) => c.stage == Stage::Ended,
        StepV::Fail(_, _) => c.stage == Stage::Ended,
    }
}

proof fn lemma_onward(c: CommitV)
    requires
        forall|i: int| 0 <= i < c.started.len() ==> wanted(c.servers, #[trigger] c.started[i]),
        !c.dynamic ==> c.started.len() == 0,
    ensures
        sound(onward(c).0),
        asked(onward(c).0, onward(c).1),
        onward(c).0.started == c.started,
        onward(c).0.servers == c.servers,
        onward(c).0.dynamic == c.dynamic,
        onward(c).1 is Check || onward(c).1 is Resolve || onward(c).1 is Fail,
    decreases c.servers.len() - c.server,
{
    if c.server < c.servers.len() {
        let addresses = c.servers[c.server as int];
        if addresses.len() > 0 && c.address >= addresses.len() {
            lemma_onward(CommitV { server: c.server + 1, address: 0, ..c });
        }
    }
}

/// A commit is sound when it begins.
pub proof fn a_commit_begins_sound(servers: Seq<Seq<Seq<char>>>, dynamic: bool)
    ensures
        sound(onward(fresh(servers, dynamic)).0),
        asked(onward(fresh(servers, dynamic)).0, onward(fresh(servers, dynamic)).1),
{
    lemma_onward(fresh(servers, dynamic));
}

/// A commit stays sound, asks for what fits its stage, and keeps count of the listeners that it
/// started: one more when a start succeeded, and otherwise the same.
pub proof fn a_commit_stays_sound(c: CommitV, e: Event)
    requires
        sound(c),
        expected(c, e),
    ensures
        sound(advance(c, e).0),
        asked(advance(c, e).0, advance(c, e).1),
        advance(c, e).0.servers == c.servers,
        advance(c, e).0.started == if e == Event::Launched(None) {
            c.started.push(current(c))
        } else {
            c.started
        },
{
    match e {
        Event::Checked(bound) => {
            if bound {
                lemma_onward(CommitV { address: c.address + 1, ..c });
            }
        },
        Event::Launched(error) => {
            if error is None {
                let more = c.started.push(current(c));
                assert forall|i: int| 0 <= i < more.len() implies wanted(
                    c.servers,
                    #[trigger] more[i],
                ) by {
                    if i == c.started.len() {
                        let addresses = c.servers[c.server as int];
                        assert(addresses[c.address as int] == current(c));
                        assert(c.servers[c.server as int].contains(current(c)));
                    } else {
                        assert(more[i] == c.started[i]);
                    }
                }
                lemma_onward(CommitV { address: c.address + 1, started: more, ..c });
            }
        },
        _ => {},
    }
}

proof fn lemma_onward_fails(c: CommitV)
    requires
        onward(c).1 is Fail,
    ensures
        onward(c).1->Fail_0 == c.started,
    decreases c.servers.len() - c.server,
{
    if c.server < c.servers.len() {
        let addresses = c.servers[c.server as int];
        if addresses.len() > 0 && c.address >= addresses.len() {
            lemma_onward_fails(CommitV { server: c.server + 1, address: 0, ..c });
        }
    }
}

/// A commit that fails leaves nothing behind: the failure comes before anything is applied, and
/// every listener that the commit has started, with the last event among them, is stopped.
pub proof fn a_failed_commit_has_applied_nothing(c: CommitV, e: Event)
    requires
        sound(c),
        expected(c, e),
        advance(c, e).1 is Fail,
    ensures
        c.stage == Stage::Checking || c.stage == Stage::Starting || c.stage == Stage::Resolving,
        advance(c, e).1->Fail_0 == if e == Event::Launched(None) {
            c.started.push(current(c))
        } else {
            c.started
        },
        advance(c, e).1->Fail_0 == advance(c, e).0.started,
{
    a_commit_stays_sound(c, e);
    match e {
        Event::Checked(bound) => {
            if bound {
                lemma_onward_fails(CommitV { address: c.address + 1, ..c });
            }
        },
        Event::Launched(error) => {
            if error is None {
                lemma_onward_fails(
                    CommitV { address: c.address + 1, started: c.started.push(current(c)), ..c },
                );
            }
        },
        _ => {},
    }
}

proof fn lemma_unresolved(list: Seq<(Seq<char>, nat)>, bound: Seq<Seq<char>>)
    requires
        unresolved(list, bound) is None,
    ensures
        forall|k: int| 0 <= k < list.len() ==> bound.contains((#[trigger] list[k]).0),
    decreases list.len(),
{
    if list.len() > 0 {
        let rest = list.skip(1);
        lemma_unresolved(rest, bound);
        assert forall|k: int| 0 <= k < list.len() implies bound.contains(
            (#[trigger] list[k]).0,
        ) by {
            if k > 0 {
                assert(list[k] == rest[k - 1]);
            }
        }
    }
}

proof fn lemma_targets(servers: Seq<Seq<Seq<char>>>, from: nat, i: int, j: int)
    requires
        from <= i < servers.len(),
        0 <= j < servers[i].len(),
    ensures
        targets(servers, from).contains((servers[i][j], i as nat)),
    decreases servers.len() - from,
{
    let addresses = servers[from as int];
    let head = Seq::new(addresses.len(), |k: int| (addresses[k], from));
    let rest = targets(servers, from + 1);
    if from == i {
        assert((head + rest)[j] == (servers[i][j], i as nat));
    } else {
        lemma_targets(servers, from + 1, i, j);
        let k = choose|k: int| 0 <= k < rest.len() && rest[k] == (servers[i][j], i as nat);
        assert((head + rest)[head.len() + k] == (servers[i][j], i as nat));
    }
}

/// What is applied is the whole document, and only once every address of it is bound.
pub proof fn everything_is_applied_or_nothing_is(c: CommitV, bound: Seq<Seq<char>>)
    ensures
        resolved(c, bound).1 matches StepV::Apply(list) ==> (forall|i: int, j: int|
            0 <= i < c.servers.len() && 0 <= j < c.servers[i].len() ==> list.contains(
                (#[trigger] c.servers[i][j], i as nat),
            )) && (forall|k: int| 0 <= k < list.len() ==> bound.contains((#[trigger] list[k]).0)),
{
    let list = targets(c.servers, 0);
    if unresolved(list, bound) is None {
        lemma_unresolved(list, bound);
        assert forall|i: int, j: int|
            0 <= i < c.servers.len() && 0 <= j < c.servers[i].len() implies list.contains(
            (#[trigger] c.servers[i][j], i as nat),
        ) by {
            lemma_targets(c.servers, 0, i, j);
        }
    }
}

/// A listener is retired if and only if the document does not name it.
pub proof fn exactly_the_unnamed_listeners_are_retired(
    c: CommitV,
    existing: Seq<(Seq<char>, bool)>,
    entry: (Seq<char>, bool),
)
    requires
        existing.contains(entry),
    ensures
        surveyed(c, existing).1 matches StepV::Retire(list) && (list.contains(entry) <==> !wanted(
            c.servers,
            entry.0,
        )),
{
    broadcast use vstd::seq_lib::group_filter_ensures;

    let keep = |e: (Seq<char>, bool)| !wanted(c.servers, e.0);
    let list = existing.filter(keep);
    if list.contains(entry) {
        let k = choose|k: int| 0 <= k < list.len() && list[k] == entry;
        assert(keep(list[k]));
    }
    if !wanted(c.servers, entry.0) {
        let k = choose|k: int| 0 <= k < existing.len() && existing[k] == entry;
        assert(keep(existing[k]));
        assert(list.contains(existing[k]));
    }
}

} // verus!
