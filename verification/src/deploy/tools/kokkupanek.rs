//! The notification stage: finding the cluster's leader and handing it the
//! new deployment.
//!
//! The stage is prepared from the resolved deployment and then driven as a
//! state machine: for every event that the network reports, [`Notifier::step`]
//! says what to do next. One attempt walks from resolving a candidate host to
//! submitting the deployment to the leader; a failure anywhere on the way
//! ends the attempt, and a bounded number of attempts ends the stage.

use vstd::prelude::*;
use rand::{thread_rng, Rng};
use crate::deploy::containers::Context;
use crate::deploy::resolve::{Command, Daemon, Deployment};
use crate::names::NameMap;
use crate::templates::pattern::{render_all, rendered, table_view};
use crate::templates::{Pattern, TemplateError};
use crate::text::joined;

verus! {

/// Whom to notify and what to send.
#[derive(Debug)]
pub struct Settings {
    pub hosts: Vec<Pattern>,
    pub slug: Pattern,
    pub deployment_graphql: Pattern,
}

/// A daemon of the deployment being announced.
#[derive(Debug)]
pub struct NewDaemon<'a> {
    /// The path of the descriptor file the daemon was resolved from.
    pub config: &'a String,
    /// The version of the container the daemon runs in.
    pub image: &'a String,
}

/// A command of the deployment being announced.
#[derive(Debug)]
pub struct NewCommand<'a> {
    /// The path of the descriptor file the command was resolved from.
    pub config: &'a String,
    /// The version of the container the command runs in.
    pub image: &'a String,
}

/// The deployment being announced: the version of the run and the
/// processes of the selected deployment, each role in name order.
#[derive(Debug)]
pub struct NewDeployment<'a> {
    pub version: &'a str,
    pub daemons: Vec<NewDaemon<'a>>,
    pub commands: Vec<NewCommand<'a>>,
}

/// Everything the stage sends, ready before the first connection.
#[derive(Debug)]
pub struct Submission<'a> {
    /// The rendered candidate hosts.
    pub hosts: Vec<String>,
    /// The rendered slug that tags the submission.
    pub slug: String,
    /// The rendered query.
    pub query: String,
    /// The snapshot of the selected deployment.
    pub config: NewDeployment<'a>,
}

/// Why the stage could not be prepared.
#[derive(Debug)]
pub enum PrepareError {
    HostPattern(TemplateError),
    SlugPattern(TemplateError),
    QueryPattern(TemplateError),
    /// The settings name no host.
    NoHosts,
    /// A process runs in a container that was not built.
    ContainerNotFound(String),
}

/// What a pattern renders to with the user's variables alone.
pub open spec fn renders(pattern: Pattern, vars: &NameMap<String>) -> Option<Seq<char>> {
    rendered(pattern@, table_view(vars@), None)
}

/// Whether every pattern of a list renders.
pub open spec fn all_render(patterns: Seq<Pattern>, vars: &NameMap<String>) -> bool {
    forall|i: int| 0 <= i < patterns.len() ==> renders(#[trigger] patterns[i], vars) is Some
}

/// The version of the build of a container: the version listed under the
/// container's name with the configured suffix appended.
pub open spec fn image_of(ctx: &Context, container: Seq<char>) -> Option<Seq<char>> {
    let key = container + ctx.spec_view().config.container_suffix@;
    if ctx.containers_view().dom().contains(key) {
        Some(ctx.containers_view()[key].version@)
    } else {
        None
    }
}

/// The selected deployment.
pub open spec fn selected(ctx: &Context) -> Deployment {
    ctx.spec_view().deployments@[ctx.deployment_view()]
}

/// Whether every daemon of a listing runs in a built container.
pub open spec fn daemons_built(ctx: &Context, daemons: Seq<Daemon>) -> bool {
    forall|i: int|
        0 <= i < daemons.len() ==> image_of(ctx, (#[trigger] daemons[i]).container@) is Some
}

/// Whether every command of a listing runs in a built container.
pub open spec fn commands_built(ctx: &Context, commands: Seq<Command>) -> bool {
    forall|i: int|
        0 <= i < commands.len() ==> image_of(ctx, (#[trigger] commands[i]).container@) is Some
}

/// The version of the build of a container, if it was built.
fn image<'a>(ctx: &'a Context, container: &str) -> (r: Option<&'a String>)
    ensures
        r is Some <==> image_of(ctx, container@) is Some,
        r matches Some(v) ==> Some(v@) == image_of(ctx, container@),
{
    let key = joined(container, ctx.spec().config.container_suffix.as_str());
    match ctx.containers().get(key.as_str()) {
        Some(c) => Some(&c.version),
        None => None,
    }
}

/// The daemons of a deployment as they are announced, in name order; or the
/// container of the first daemon that has no build.
fn announce_daemons<'a>(ctx: &'a Context, daemons: &'a NameMap<Daemon>) -> (r: Result<
    Vec<NewDaemon<'a>>,
    String,
>)
    ensures
        r is Ok <==> daemons_built(ctx, daemons.items()),
        r matches Ok(v) ==> v@.len() == daemons.items().len() && forall|i: int|
            0 <= i < v@.len() ==> (#[trigger] v@[i]).config@ == daemons.items()[i].config_path@
                && Some(v@[i].image@) == image_of(ctx, daemons.items()[i].container@),
        r matches Err(name) ==> exists|i: int|
            0 <= i < daemons.items().len() && name@ == (#[trigger] daemons.items()[i]).container@
                && image_of(ctx, daemons.items()[i].container@) is None,
{
    let mut out: Vec<NewDaemon<'a>> = Vec::new();
    let mut i: usize = 0;
    while i < daemons.len()
        invariant
            i <= daemons.items().len(),
            out@.len() == i,
            forall|j: int|
                0 <= j < i ==> (#[trigger] out@[j]).config@ == daemons.items()[j].config_path@
                    && Some(out@[j].image@) == image_of(ctx, daemons.items()[j].container@),
        decreases daemons.items().len() - i,
    {
        let daemon = daemons.item_at(i);
        match image(ctx, daemon.container.as_str()) {
            Some(version) => {
                out.push(NewDaemon { config: &daemon.config_path, image: version });
            },
            None => {
                return Err(daemon.container.clone());
            },
        }
        i = i + 1;
    }
    proof {
        assert forall|j: int| 0 <= j < daemons.items().len() implies image_of(
            ctx,
            (#[trigger] daemons.items()[j]).container@,
        ) is Some by {
            assert(Some(out@[j].image@) == image_of(ctx, daemons.items()[j].container@));
        }
    }
    Ok(out)
}

/// The commands of a deployment as they are announced, in name order; or
/// the container of the first command that has no build.
fn announce_commands<'a>(ctx: &'a Context, commands: &'a NameMap<Command>) -> (r: Result<
    Vec<NewCommand<'a>>,
    String,
>)
    ensures
        r is Ok <==> commands_built(ctx, commands.items()),
        r matches Ok(v) ==> v@.len() == commands.items().len() && forall|i: int|
            0 <= i < v@.len() ==> (#[trigger] v@[i]).config@ == commands.items()[i].config_path@
                && Some(v@[i].image@) == image_of(ctx, commands.items()[i].container@),
        r matches Err(name) ==> exists|i: int|
            0 <= i < commands.items().len() && name@ == (
            #[trigger] commands.items()[i]).container@ && image_of(
                ctx,
                commands.items()[i].container@,
            ) is None,
{
    let mut out: Vec<NewCommand<'a>> = Vec::new();
    let mut i: usize = 0;
    while i < commands.len()
        invariant
            i <= commands.items().len(),
            out@.len() == i,
            forall|j: int|
                0 <= j < i ==> (#[trigger] out@[j]).config@ == commands.items()[j].config_path@
                    && Some(out@[j].image@) == image_of(ctx, commands.items()[j].container@),
        decreases commands.items().len() - i,
    {
        let command = commands.item_at(i);
        match image(ctx, command.container.as_str()) {
            Some(version) => {
                out.push(NewCommand { config: &command.config_path, image: version });
            },
            None => {
                return Err(command.container.clone());
            },
        }
        i = i + 1;
    }
    proof {
        assert forall|j: int| 0 <= j < commands.items().len() implies image_of(
            ctx,
            (#[trigger] commands.items()[j]).container@,
        ) is Some by {
            assert(Some(out@[j].image@) == image_of(ctx, commands.items()[j].container@));
        }
    }
    Ok(out)
}

/// Whether the stage can be prepared as far as the patterns go.
pub open spec fn patterns_render(set: &Settings, vars: &NameMap<String>) -> bool {
    &&& all_render(set.hosts@, vars)
    &&& renders(set.slug, vars) is Some
    &&& renders(set.deployment_graphql, vars) is Some
}

/// Prepares the stage: renders the hosts, the slug and the query with the
/// user's variables, and takes the snapshot of the selected deployment.
///
/// The checks are made in this order, and the first that fails gives the
/// error: the host patterns, the slug pattern, the query pattern, that there
/// is a host at all, the builds of the daemons' containers, those of the
/// commands' containers.
pub fn prepare<'a>(ctx: &'a Context, set: &Settings, vars: &NameMap<String>) -> (r: Result<
    Submission<'a>,
    PrepareError,
>)
    ensures
        r is Ok <==> patterns_render(set, vars) && set.hosts@.len() > 0 && daemons_built(
            ctx,
            selected(ctx).daemons.items(),
        ) && commands_built(ctx, selected(ctx).commands.items()),
        r matches Err(PrepareError::HostPattern(_)) ==> !all_render(set.hosts@, vars),
        r matches Err(PrepareError::SlugPattern(_)) ==> all_render(set.hosts@, vars) && renders(
            set.slug,
            vars,
        ) is None,
        r matches Err(PrepareError::QueryPattern(_)) ==> all_render(set.hosts@, vars) && renders(
            set.slug,
            vars,
        ) is Some && renders(set.deployment_graphql, vars) is None,
        r matches Err(PrepareError::NoHosts) ==> patterns_render(set, vars) && set.hosts@.len()
            == 0,
        r matches Err(PrepareError::ContainerNotFound(name)) ==> patterns_render(set, vars)
            && set.hosts@.len() > 0 && (if daemons_built(ctx, selected(ctx).daemons.items()) {
            exists|i: int|
                0 <= i < selected(ctx).commands.items().len() && name@ == (
                #[trigger] selected(ctx).commands.items()[i]).container@ && image_of(
                    ctx,
                    selected(ctx).commands.items()[i].container@,
                ) is None
        } else {
            exists|i: int|
                0 <= i < selected(ctx).daemons.items().len() && name@ == (
                #[trigger] selected(ctx).daemons.items()[i]).container@ && image_of(
                    ctx,
                    selected(ctx).daemons.items()[i].container@,
                ) is None
        }),
        r matches Ok(s) ==> {
            &&& s.hosts@.len() == set.hosts@.len()
            &&& forall|i: int|
                0 <= i < s.hosts@.len() ==> renders(set.hosts@[i], vars) == Some(
                    #[trigger] s.hosts@[i]@,
                )
            &&& renders(set.slug, vars) == Some(s.slug@)
            &&& renders(set.deployment_graphql, vars) == Some(s.query@)
            &&& s.config.version@ == ctx.spec_view().version@
            &&& s.config.daemons@.len() == selected(ctx).daemons.items().len()
            &&& forall|i: int|
                0 <= i < s.config.daemons@.len() ==> (#[trigger] s.config.daemons@[i]).config@
                    == selected(ctx).daemons.items()[i].config_path@ && Some(
                    s.config.daemons@[i].image@,
                ) == image_of(ctx, selected(ctx).daemons.items()[i].container@)
            &&& s.config.commands@.len() == selected(ctx).commands.items().len()
            &&& forall|i: int|
                0 <= i < s.config.commands@.len() ==> (#[trigger] s.config.commands@[i]).config@
                    == selected(ctx).commands.items()[i].config_path@ && Some(
                    s.config.commands@[i].image@,
                ) == image_of(ctx, selected(ctx).commands.items()[i].container@)
        },
{
    let hosts = match render_all(&set.hosts, vars, None) {
        Ok(hosts) => hosts,
        Err(e) => {
            return Err(PrepareError::HostPattern(e));
        },
    };
    assert(all_render(set.hosts@, vars)) by {
        assert forall|i: int| 0 <= i < set.hosts@.len() implies renders(
            #[trigger] set.hosts@[i],
            vars,
        ) is Some by {
            assert(renders(set.hosts@[i], vars) == Some(hosts@[i]@));
        }
    }
    let slug = match set.slug.render_or_explain(vars, None) {
        Ok(slug) => slug,
        Err(e) => {
            return Err(PrepareError::SlugPattern(e));
        },
    };
    let query = match set.deployment_graphql.render_or_explain(vars, None) {
        Ok(query) => query,
        Err(e) => {
            return Err(PrepareError::QueryPattern(e));
        },
    };
    if hosts.len() == 0 {
        return Err(PrepareError::NoHosts);
    }
    let spec = ctx.spec();
    let dep = ctx.selected();
    let daemons = match announce_daemons(ctx, &dep.daemons) {
        Ok(daemons) => daemons,
        Err(name) => {
            return Err(PrepareError::ContainerNotFound(name));
        },
    };
    let commands = match announce_commands(ctx, &dep.commands) {
        Ok(commands) => commands,
        Err(name) => {
            return Err(PrepareError::ContainerNotFound(name));
        },
    };
    Ok(
        Submission {
            hosts,
            slug,
            query,
            config: NewDeployment { version: spec.version.as_str(), daemons, commands },
        },
    )
}

/// The port that candidates and the leader are reached at.
pub const PORT: u16 = 8379;

/// The most attempts one run of the stage makes.
pub const MAX_ATTEMPTS: u32 = 21;

/// The seconds between the end of a failed attempt and the next attempt.
pub const RETRY_DELAY_SECONDS: u64 = 1;

/// The status that a reply must carry to be accepted.
pub const STATUS_OK: u16 = 200;

/// Where the stage stands.
#[derive(Clone, Copy, Debug, PartialEq, Eq, Structural)]
pub enum Phase {
    ResolveCandidate,
    ConnectCandidate,
    RequestStatus,
    ResolveLeader,
    ConnectLeader,
    SubmitDeploymentRequest,
    /// Between two attempts.
    Waiting,
    /// The leader accepted the deployment.
    Done,
    /// The last attempt failed.
    Failed,
}

/// What ended an attempt.
#[derive(Clone, Copy, Debug, PartialEq, Eq, Structural)]
pub enum Failure {
    /// Resolving, connecting or the transport failed.
    NetworkError,
    /// A reply came with another status than 200 or with a body that could
    /// not be read.
    ProtocolError,
}

/// Why the stage failed: the attempts are used up, and this ended the last.
#[derive(Clone, Copy, Debug, PartialEq, Eq, Structural)]
pub struct RetryExhausted {
    pub attempts: u32,
    pub cause: Failure,
}

/// What the network reports back.
#[derive(Debug)]
pub enum Event {
    /// The last action could not be carried out.
    Failed,
    /// The name resolved and one of its addresses was picked.
    Resolved,
    /// The connection to the picked address is open.
    Connected,
    /// The reply to the status request: its status, and the name of the
    /// leader where the body named one.
    Status { code: u16, leader: Option<String> },
    /// The reply to the submission: its status, and whether its body was
    /// empty or could be read.
    Submitted { code: u16, readable: bool },
    /// The delay between two attempts is over; `pick` is the random number
    /// that selects the next candidate.
    Waited { pick: usize },
}

/// What to do next.
#[derive(Debug)]
pub enum Action {
    /// Resolve this candidate host and pick one of its addresses.
    ResolveCandidate(String),
    /// Resolve the leader of this name and pick one of its addresses.
    ResolveLeader(String),
    /// Open a connection to the address picked last.
    Connect,
    /// Send the status request on the open connection.
    RequestStatus,
    /// Send the deployment on the open connection.
    Submit,
    /// Wait for the delay between attempts.
    Wait,
    /// Nothing: the stage succeeded.
    Done,
    /// Nothing: the stage failed.
    GiveUp(RetryExhausted),
}

/// An action with its texts as sequences.
pub enum ActionView {
    ResolveCandidate(Seq<char>),
    ResolveLeader(Seq<char>),
    Connect,
    RequestStatus,
    Submit,
    Wait,
    Done,
    GiveUp(RetryExhausted),
}

impl View for Action {
    type V = ActionView;

    open spec fn view(&self) -> ActionView {
        match self {
            Action::ResolveCandidate(host) => ActionView::ResolveCandidate(host@),
            Action::ResolveLeader(name) => ActionView::ResolveLeader(name@),
            Action::Connect => ActionView::Connect,
            Action::RequestStatus => ActionView::RequestStatus,
            Action::Submit => ActionView::Submit,
            Action::Wait => ActionView::Wait,
            Action::Done => ActionView::Done,
            Action::GiveUp(e) => ActionView::GiveUp(*e),
        }
    }
}

/// Whether an attempt is under way in this phase.
pub open spec fn in_attempt(phase: Phase) -> bool {
    phase != Phase::Waiting && phase != Phase::Done && phase != Phase::Failed
}

/// The phase that an event leads to within an attempt; `None` where the
/// event ends the attempt as a failure.
pub open spec fn advance(phase: Phase, event: Event) -> Option<Phase> {
    match (phase, event) {
        (Phase::ResolveCandidate, Event::Resolved) => Some(Phase::ConnectCandidate),
        (Phase::ConnectCandidate, Event::Connected) => Some(Phase::RequestStatus),
        (Phase::RequestStatus, Event::Status { code, leader }) => if code == STATUS_OK
            && leader is Some {
            Some(Phase::ResolveLeader)
        } else {
            None
        },
        (Phase::ResolveLeader, Event::Resolved) => Some(Phase::ConnectLeader),
        (Phase::ConnectLeader, Event::Connected) => Some(Phase::SubmitDeploymentRequest),
        (Phase::SubmitDeploymentRequest, Event::Submitted { code, readable }) => if code
            == STATUS_OK && readable {
            Some(Phase::Done)
        } else {
            None
        },
        _ => None,
    }
}

/// The kind of failure that an event is, where it ends an attempt: a reply
/// that was asked for and is not acceptable is a protocol error, anything
/// else a network error.
pub open spec fn failure_of(phase: Phase, event: Event) -> Failure {
    match (phase, event) {
        (Phase::RequestStatus, Event::Status { .. }) => Failure::ProtocolError,
        (Phase::SubmitDeploymentRequest, Event::Submitted { .. }) => Failure::ProtocolError,
        _ => Failure::NetworkError,
    }
}

/// The state of the stage as far as its course depends on it.
pub struct Course {
    pub hosts: Seq<Seq<char>>,
    pub max_attempts: u32,
    /// The number of the attempt that is under way or was made last,
    /// counted from 1.
    pub attempt: u32,
    pub phase: Phase,
    /// What ended the last failed attempt.
    pub cause: Failure,
}

impl Course {
    /// There is a host to pick, the attempts are within their bound, and
    /// the stage waits only where an attempt is left.
    pub open spec fn wf(self) -> bool {
        &&& self.hosts.len() > 0
        &&& 1 <= self.attempt <= self.max_attempts
        &&& self.phase == Phase::Waiting ==> self.attempt < self.max_attempts
    }

    /// The state at the start of the first attempt.
    pub open spec fn begin(hosts: Seq<Seq<char>>, max_attempts: u32) -> Course {
        Course {
            hosts,
            max_attempts,
            attempt: 1,
            phase: Phase::ResolveCandidate,
            cause: Failure::NetworkError,
        }
    }

    /// The state after an event.
    pub open spec fn next(self, event: Event) -> Course {
        if in_attempt(self.phase) {
            match advance(self.phase, event) {
                Some(phase) => Course { phase, ..self },
                None => Course {
                    phase: if self.attempt >= self.max_attempts {
                        Phase::Failed
                    } else {
                        Phase::Waiting
                    },
                    cause: failure_of(self.phase, event),
                    ..self
                },
            }
        } else if self.phase == Phase::Waiting && event is Waited {
            Course {
                phase: Phase::ResolveCandidate,
                attempt: (self.attempt + 1) as u32,
                ..self
            }
        } else {
            self
        }
    }

    /// The candidate that a random number selects.
    pub open spec fn candidate(self, pick: usize) -> Seq<char> {
        self.hosts[pick as int % self.hosts.len() as int]
    }

    /// What is to be done after an event, `self` being the state before it.
    pub open spec fn action(self, event: Event) -> ActionView {
        match self.next(event).phase {
            Phase::ResolveCandidate => match event {
                Event::Waited { pick } => ActionView::ResolveCandidate(self.candidate(pick)),
                _ => ActionView::Wait,
            },
            Phase::ConnectCandidate => ActionView::Connect,
            Phase::RequestStatus => ActionView::RequestStatus,
            Phase::ResolveLeader => match event {
                Event::Status { leader: Some(name), .. } => ActionView::ResolveLeader(name@),
                _ => ActionView::Wait,
            },
            Phase::ConnectLeader => ActionView::Connect,
            Phase::SubmitDeploymentRequest => ActionView::Submit,
            Phase::Waiting => ActionView::Wait,
            Phase::Done => ActionView::Done,
            Phase::Failed => ActionView::GiveUp(
                RetryExhausted { attempts: self.attempt, cause: self.next(event).cause },
            ),
        }
    }

    /// The state after a sequence of events.
    pub open spec fn run(self, events: Seq<Event>) -> Course
        decreases events.len(),
    {
        if events.len() == 0 {
            self
        } else {
            self.run(events.drop_last()).next(events.last())
        }
    }

    /// The number of attempts that a sequence of events begins: the times
    /// that a delay ends while the stage is waiting.
    pub open spec fn attempts_begun(self, events: Seq<Event>) -> nat
        decreases events.len(),
    {
        if events.len() == 0 {
            0
        } else {
            let before = self.run(events.drop_last());
            let more: nat = if before.phase == Phase::Waiting && events.last() is Waited {
                1
            } else {
                0
            };
            self.attempts_begun(events.drop_last()) + more
        }
    }
}

/// The events of an attempt in which everything succeeds.
pub open spec fn smooth_attempt(leader: String) -> Seq<Event> {
    seq![
        Event::Resolved,
        Event::Connected,
        Event::Status { code: STATUS_OK, leader: Some(leader) },
        Event::Resolved,
        Event::Connected,
        Event::Submitted { code: STATUS_OK, readable: true },
    ]
}

/// Whatever the network reports, the stage makes no more attempts than its
/// bound: the attempt in hand is never past the bound, every attempt that
/// is begun is counted, and the stage fails only with its attempts used up.
pub proof fn lemma_attempts_bounded(start: Course, events: Seq<Event>)
    requires
        start.wf(),
    ensures
        start.run(events).wf(),
        start.run(events).hosts == start.hosts,
        start.run(events).max_attempts == start.max_attempts,
        start.run(events).attempt == start.attempt + start.attempts_begun(events),
        start.attempt + start.attempts_begun(events) <= start.max_attempts,
        start.phase != Phase::Failed && start.run(events).phase == Phase::Failed
            ==> start.run(events).attempt == start.max_attempts,
    decreases events.len(),
{
    if events.len() > 0 {
        lemma_attempts_bounded(start, events.drop_last());
    }
}

/// An attempt in which both replies carry status 200 ends the stage with
/// success, whatever attempt it is, and begins no further attempt.
pub proof fn lemma_first_success_ends(start: Course, leader: String, later: Seq<Event>)
    requires
        start.wf(),
        start.phase == Phase::ResolveCandidate,
    ensures
        start.run(smooth_attempt(leader)).phase == Phase::Done,
        start.run(smooth_attempt(leader)).attempt == start.attempt,
        start.run(smooth_attempt(leader)).run(later).phase == Phase::Done,
        start.run(smooth_attempt(leader)).run(later).attempt == start.attempt,
{
    let events = smooth_attempt(leader);
    let e5 = events.drop_last();
    let e4 = e5.drop_last();
    let e3 = e4.drop_last();
    let e2 = e3.drop_last();
    let e1 = e2.drop_last();
    assert(e1.drop_last().len() == 0);
    assert(start.run(e1.drop_last()) == start);
    assert(start.run(e1).phase == Phase::ConnectCandidate);
    assert(start.run(e2).phase == Phase::RequestStatus);
    assert(start.run(e3).phase == Phase::ResolveLeader);
    assert(start.run(e4).phase == Phase::ConnectLeader);
    assert(start.run(e5).phase == Phase::SubmitDeploymentRequest);
    assert(start.run(events).phase == Phase::Done);
    lemma_done_stays(start.run(events), later);
}

/// Once the stage has succeeded, nothing changes it.
pub proof fn lemma_done_stays(done: Course, later: Seq<Event>)
    requires
        done.phase == Phase::Done,
    ensures
        done.run(later) == done,
    decreases later.len(),
{
    if later.len() > 0 {
        lemma_done_stays(done, later.drop_last());
    }
}

/// `rand::Rng::gen_range` on the thread's generator, from 0 up to `n`: a
/// number below `n`; which one is left open.
#[verifier::external_body]
fn random_below(n: usize) -> (r: usize)
    requires
        n > 0,
    ensures
        r < n,
{
    thread_rng().gen_range(0, n)
}

/// A request as it is written to a connection.
#[derive(Debug)]
pub struct Request {
    pub method: &'static str,
    pub path: &'static str,
    /// The headers by name and value, in the order they are written.
    pub headers: Vec<(&'static str, String)>,
    /// The body, sent in chunks, where the request has one.
    pub body: Option<Vec<u8>>,
}

/// How the tool of the given version names itself to the cluster.
pub fn user_agent(version: &str) -> (r: String)
    ensures
        r@ == "wark/"@ + version@,
{
    joined("wark/", version)
}

/// The request for the status of a candidate, which names the leader.
pub fn status_request(version: &str) -> (r: Request)
    ensures
        r.method@ == "GET"@,
        r.path@ == "/v1/status"@,
        r.headers@.len() == 2,
        r.headers@[0].0@ == "Host"@ && r.headers@[0].1@ == "verwalter"@,
        r.headers@[1].0@ == "User-Agent"@ && r.headers@[1].1@ == "wark/"@ + version@,
        r.body is None,
{
    let mut headers: Vec<(&'static str, String)> = Vec::new();
    headers.push(("Host", "verwalter".to_owned()));
    headers.push(("User-Agent", user_agent(version)));
    Request { method: "GET", path: "/v1/status", headers, body: None }
}

/// The request that hands the encoded deployment to the leader.
pub fn submission_request(version: &str, body: Vec<u8>) -> (r: Request)
    ensures
        r.method@ == "GET"@,
        r.path@ == "/v1/wait_action"@,
        r.headers@.len() == 3,
        r.headers@[0].0@ == "Host"@ && r.headers@[0].1@ == "verwalter"@,
        r.headers@[1].0@ == "Content-Type"@ && r.headers@[1].1@ == "application/json"@,
        r.headers@[2].0@ == "User-Agent"@ && r.headers@[2].1@ == "wark/"@ + version@,
        r.body == Some(body),
{
    let mut headers: Vec<(&'static str, String)> = Vec::new();
    headers.push(("Host", "verwalter".to_owned()));
    headers.push(("Content-Type", "application/json".to_owned()));
    headers.push(("User-Agent", user_agent(version)));
    Request { method: "GET", path: "/v1/wait_action", headers, body: Some(body) }
}

/// The most bytes of a status reply's body that are read.
pub const STATUS_BODY_LIMIT: usize = 65536;

/// The most bytes of a submission reply's body that are read.
pub const SUBMISSION_BODY_LIMIT: usize = 1000;

/// Judges the head of a reply: a reply with status 200 is read, up to the
/// limit of the request it answers; any other status, or none, is a
/// protocol error.
pub fn accept_head(phase: Phase, status: Option<u16>) -> (r: Result<usize, Failure>)
    ensures
        r is Ok <==> status == Some(STATUS_OK),
        r matches Ok(limit) ==> limit == if phase == Phase::SubmitDeploymentRequest {
            SUBMISSION_BODY_LIMIT
        } else {
            STATUS_BODY_LIMIT
        },
        r matches Err(e) ==> e == Failure::ProtocolError,
{
    match status {
        Some(code) => if code == STATUS_OK {
            match phase {
                Phase::SubmitDeploymentRequest => Ok(SUBMISSION_BODY_LIMIT),
                _ => Ok(STATUS_BODY_LIMIT),
            }
        } else {
            Err(Failure::ProtocolError)
        },
        None => Err(Failure::ProtocolError),
    }
}

/// The notification stage while it runs.
#[derive(Debug)]
pub struct Notifier {
    hosts: Vec<String>,
    max_attempts: u32,
    attempt: u32,
    phase: Phase,
    cause: Failure,
}

impl View for Notifier {
    type V = Course;

    closed spec fn view(&self) -> Course {
        Course {
            hosts: self.hosts@.map_values(|h: String| h@),
            max_attempts: self.max_attempts,
            attempt: self.attempt,
            phase: self.phase,
            cause: self.cause,
        }
    }
}

impl Notifier {
    #[verifier::type_invariant]
    spec fn inv(&self) -> bool {
        self@.wf()
    }

    /// Begins the stage: the first attempt, with the candidate that the
    /// random number `pick` selects. There is no stage without a host or
    /// without an attempt to make.
    pub fn start(hosts: Vec<String>, max_attempts: u32, pick: usize) -> (r: Option<
        (Notifier, Action),
    >)
        ensures
            r is Some <==> hosts@.len() > 0 && max_attempts >= 1,
            r matches Some((n, a)) ==> {
                &&& n@ == Course::begin(hosts@.map_values(|h: String| h@), max_attempts)
                &&& n@.wf()
                &&& a@ == ActionView::ResolveCandidate(n@.candidate(pick))
            },
    {
        if hosts.len() == 0 || max_attempts < 1 {
            return None;
        }
        let host = hosts[pick % hosts.len()].clone();
        let n = Notifier {
            hosts,
            max_attempts,
            attempt: 1,
            phase: Phase::ResolveCandidate,
            cause: Failure::NetworkError,
        };
        Some((n, Action::ResolveCandidate(host)))
    }

    /// Draws the random number that selects the next candidate: it names
    /// one of the hosts, and any of them may come.
    pub fn draw(&self) -> (pick: usize)
        ensures
            pick < self@.hosts.len(),
    {
        proof {
            use_type_invariant(self);
        }
        random_below(self.hosts.len())
    }

    /// Draws the random number that selects the first candidate among
    /// `hosts`; `None` where there is no host.
    pub fn draw_among(hosts: &Vec<String>) -> (pick: Option<usize>)
        ensures
            pick is Some <==> hosts@.len() > 0,
            pick matches Some(p) ==> p < hosts@.len(),
    {
        if hosts.len() == 0 {
            None
        } else {
            Some(random_below(hosts.len()))
        }
    }

    /// Where the stage stands.
    pub fn phase(&self) -> (r: Phase)
        ensures
            r == self@.phase,
    {
        self.phase
    }

    /// The number of the attempt under way, counted from 1; it never
    /// passes the bound that the stage was begun with.
    pub fn attempt(&self) -> (r: u32)
        ensures
            r == self@.attempt,
            1 <= r <= self@.max_attempts,
    {
        proof {
            use_type_invariant(self);
        }
        self.attempt
    }

    /// Takes what the network reported and says what to do next.
    pub fn step(&mut self, event: Event) -> (r: Action)
        ensures
            final(self)@ == old(self)@.next(event),
            final(self)@.wf(),
            r@ == old(self)@.action(event),
    {
        proof {
            use_type_invariant(&*self);
        }
        let phase = self.phase;
        match phase {
            Phase::Done => {
                return Action::Done;
            },
            Phase::Failed => {
                return Action::GiveUp(RetryExhausted { attempts: self.attempt, cause: self.cause });
            },
            Phase::Waiting => {
                return match event {
                    Event::Waited { pick } => {
                        let host = self.hosts[pick % self.hosts.len()].clone();
                        let attempt = self.attempt + 1;
                        self.phase = Phase::ResolveCandidate;
                        self.attempt = attempt;
                        Action::ResolveCandidate(host)
                    },
                    _ => Action::Wait,
                };
            },
            _ => {},
        }
        let (next, action, cause) = match (phase, event) {
            (Phase::ResolveCandidate, Event::Resolved) => (
                Some(Phase::ConnectCandidate),
                Action::Connect,
                Failure::NetworkError,
            ),
            (Phase::ConnectCandidate, Event::Connected) => (
                Some(Phase::RequestStatus),
                Action::RequestStatus,
                Failure::NetworkError,
            ),
            (Phase::RequestStatus, Event::Status { code, leader }) => match leader {
                Some(name) => if code == STATUS_OK {
                    (Some(Phase::ResolveLeader), Action::ResolveLeader(name), Failure::ProtocolError)
                } else {
                    (None, Action::Wait, Failure::ProtocolError)
                },
                None => (None, Action::Wait, Failure::ProtocolError),
            },
            (Phase::ResolveLeader, Event::Resolved) => (
                Some(Phase::ConnectLeader),
                Action::Connect,
                Failure::NetworkError,
            ),
            (Phase::ConnectLeader, Event::Connected) => (
                Some(Phase::SubmitDeploymentRequest),
                Action::Submit,
                Failure::NetworkError,
            ),
            (Phase::SubmitDeploymentRequest, Event::Submitted { code, readable }) => if code
                == STATUS_OK && readable {
                (Some(Phase::Done), Action::Done, Failure::ProtocolError)
            } else {
                (None, Action::Wait, Failure::ProtocolError)
            },
            _ => (None, Action::Wait, Failure::NetworkError),
        };
        match next {
            Some(phase) => {
                self.phase = phase;
                action
            },
            None => {
                self.cause = cause;
                if self.attempt >= self.max_attempts {
                    self.phase = Phase::Failed;
                    Action::GiveUp(RetryExhausted { attempts: self.attempt, cause })
                } else {
                    self.phase = Phase::Waiting;
                    Action::Wait
                }
            },
        }
    }
}

} // verus!
