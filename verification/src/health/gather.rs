//! The probe phase: which probe comes next, given what is known so far.
//!
//! The agent is asked only when its socket resolved to a real socket, its
//! extensions only when it listed its identities, its upstreams only when
//! it advertises that report. The cards do not depend on the agent.
use crate::cmd::agent::upstream::{UpstreamStatus, UPSTREAM_STATUS_EXT};
use crate::health::{CardInfo, PcscProbe, Probes, ServiceProbe, SlotProbe, SocketProbe};
use crate::text::{cat2, list_has, opt_text, texts};
use vstd::prelude::*;

verus! {

// -------------------------------------------------------------- the socket

/// A variable's value where it is set to something.
pub open spec fn non_empty(v: Option<Seq<char>>) -> Option<Seq<char>> {
    match v {
        Some(s) => if s.len() > 0 {
            Some(s)
        } else {
            None
        },
        None => None,
    }
}

/// The variable that names the socket and its value: `PIGGY_AUTH_SOCK`
/// before `SSH_AUTH_SOCK`, an empty value counting as unset.
pub open spec fn socket_choice(
    piggy: Option<Seq<char>>,
    ssh: Option<Seq<char>>,
) -> Option<(Seq<char>, Seq<char>)> {
    match (non_empty(piggy), non_empty(ssh)) {
        (Some(p), _) => Some(("PIGGY_AUTH_SOCK"@, p)),
        (None, Some(p)) => Some(("SSH_AUTH_SOCK"@, p)),
        (None, None) => None,
    }
}

/// Chooses the agent socket from the two variables.
pub fn choose_socket(piggy: Option<String>, ssh: Option<String>) -> (r: Option<
    (&'static str, String),
>)
    ensures
        r is Some <==> socket_choice(opt_text(piggy), opt_text(ssh)) is Some,
        r is Some ==> ((r->0).0@, (r->0).1@) == socket_choice(opt_text(piggy), opt_text(ssh))->0,
{
    if let Some(p) = piggy {
        if !p.as_str().is_empty() {
            return Some(("PIGGY_AUTH_SOCK", p));
        }
    }
    if let Some(p) = ssh {
        if !p.as_str().is_empty() {
            return Some(("SSH_AUTH_SOCK", p));
        }
    }
    None
}

/// What lies at a path, as far as the socket point asks.
pub enum PathKind {
    Socket,
    RegularFile,
    Directory,
    Other,
    Missing,
    Unreadable(String),
}

/// Whether the path is a socket, and the words that explain it.
pub open spec fn path_verdict(k: PathKind) -> (bool, Seq<char>) {
    match k {
        PathKind::Socket => (true, "unix socket"@),
        PathKind::RegularFile => (false, "exists but is not a socket (regular file)"@),
        PathKind::Directory => (false, "exists but is not a socket (directory)"@),
        PathKind::Other => (false, "exists but is not a socket (non-socket special file)"@),
        PathKind::Missing => (false, "path does not exist"@),
        PathKind::Unreadable(e) => (false, "stat failed: "@ + e@),
    }
}

/// Explains what was found at the socket path.
pub fn stat_socket_path(kind: &PathKind) -> (r: (bool, String))
    ensures
        (r.0, r.1@) == path_verdict(*kind),
{
    match kind {
        PathKind::Socket => (true, "unix socket".to_owned()),
        PathKind::RegularFile => (false, "exists but is not a socket (regular file)".to_owned()),
        PathKind::Directory => (false, "exists but is not a socket (directory)".to_owned()),
        PathKind::Other => (
            false,
            "exists but is not a socket (non-socket special file)".to_owned(),
        ),
        PathKind::Missing => (false, "path does not exist".to_owned()),
        PathKind::Unreadable(e) => (false, cat2("stat failed: ", e.as_str())),
    }
}

/// The socket probe over plain values: source, path, whether it is a
/// socket, and the explanation.
pub open spec fn socket_parts(p: SocketProbe) -> Option<(Seq<char>, Seq<char>, bool, Seq<char>)> {
    match p {
        SocketProbe::Unresolved => None,
        SocketProbe::Resolved { source, path, is_socket, stat_detail } => Some(
            (source@, path@, is_socket, stat_detail@),
        ),
    }
}

/// The socket probe from the chosen variable and what lies at its path.
pub fn resolve_socket(choice: Option<(&'static str, String)>, kind: &PathKind) -> (r: SocketProbe)
    ensures
        match choice {
            None => r is Unresolved,
            Some((source, path)) => socket_parts(r) == Some(
                (source@, path@, path_verdict(*kind).0, path_verdict(*kind).1),
            ),
        },
{
    match choice {
        None => SocketProbe::Unresolved,
        Some((source, path)) => {
            let (is_socket, stat_detail) = stat_socket_path(kind);
            SocketProbe::Resolved { source, path, is_socket, stat_detail }
        },
    }
}

// --------------------------------------------------------------- the cards

/// What reading slot 9D of a card came to.
pub enum SlotRead {
    Certificate,
    NoCertificate,
    Failed(String),
}

/// A slot that could not be read is told apart from one that is empty.
pub fn slot_probe(read: SlotRead) -> (r: SlotProbe)
    ensures
        match read {
            SlotRead::Certificate => r is Populated,
            SlotRead::NoCertificate => r is Empty,
            SlotRead::Failed(e) => r == SlotProbe::Error(e),
        },
{
    match read {
        SlotRead::Certificate => SlotProbe::Populated,
        SlotRead::NoCertificate => SlotProbe::Empty,
        SlotRead::Failed(e) => SlotProbe::Error(e),
    }
}

/// Enumeration either gives the cards or fails the daemon's point.
pub fn cards_probe(cards: Result<Vec<CardInfo>, String>) -> (r: (PcscProbe, Option<Vec<CardInfo>>))
    ensures
        match cards {
            Ok(c) => r.0 is Reachable && r.1 == Some(c),
            Err(e) => r.0 == PcscProbe::Error(e) && r.1 is None,
        },
{
    match cards {
        Ok(c) => (PcscProbe::Reachable, Some(c)),
        Err(e) => (PcscProbe::Error(e), None),
    }
}

// --------------------------------------------------------------- the order

/// The probe to run next.
pub enum NextProbe {
    /// Ask the agent at this path for its identities.
    Identities(String),
    /// Ask it for the extensions it advertises.
    Extensions(String),
    /// Ask it about its upstreams.
    UpstreamStatus(String),
    /// Enumerate the cards.
    Cards,
    Finished,
}

/// [`NextProbe`] over plain text.
pub enum NextView {
    Identities(Seq<char>),
    Extensions(Seq<char>),
    UpstreamStatus(Seq<char>),
    Cards,
    Finished,
}

impl View for NextProbe {
    type V = NextView;

    open spec fn view(&self) -> NextView {
        match self {
            NextProbe::Identities(p) => NextView::Identities(p@),
            NextProbe::Extensions(p) => NextView::Extensions(p@),
            NextProbe::UpstreamStatus(p) => NextView::UpstreamStatus(p@),
            NextProbe::Cards => NextView::Cards,
            NextProbe::Finished => NextView::Finished,
        }
    }
}

/// The probes so far.
pub struct Gathering {
    pub service: ServiceProbe,
    pub socket: SocketProbe,
    pub agent: Option<Result<Vec<String>, String>>,
    pub extensions: Option<Result<Vec<String>, String>>,
    pub upstreams: Option<Result<Vec<UpstreamStatus>, String>>,
    pub cards: Option<Result<Vec<CardInfo>, String>>,
}

/// The path at which the agent can be asked.
pub open spec fn live_path(socket: SocketProbe) -> Option<Seq<char>> {
    match socket {
        SocketProbe::Resolved { path, is_socket, .. } => if is_socket {
            Some(path@)
        } else {
            None
        },
        SocketProbe::Unresolved => None,
    }
}

/// Whether the extensions include the report on upstreams.
pub open spec fn advertises_upstreams(e: Option<Result<Vec<String>, String>>) -> bool {
    e is Some && e->0 is Ok && texts(e->0->Ok_0@).contains(UPSTREAM_STATUS_EXT@)
}

/// Which agent probes may have been run.
pub open spec fn agent_order(
    socket: SocketProbe,
    agent: Option<Result<Vec<String>, String>>,
    extensions: Option<Result<Vec<String>, String>>,
    upstreams: Option<Result<Vec<UpstreamStatus>, String>>,
) -> bool {
    &&& agent is Some ==> live_path(socket) is Some
    &&& extensions is Some ==> agent is Some && agent->0 is Ok
    &&& upstreams is Some ==> advertises_upstreams(extensions)
}

impl Gathering {
    /// No probe was run without what it depends on.
    pub open spec fn wf(self) -> bool {
        agent_order(self.socket, self.agent, self.extensions, self.upstreams)
    }

    /// The probe to run next.
    pub open spec fn next_spec(self) -> NextView {
        match live_path(self.socket) {
            Some(p) => if self.agent is None {
                NextView::Identities(p)
            } else if self.agent->0 is Ok && self.extensions is None {
                NextView::Extensions(p)
            } else if advertises_upstreams(self.extensions) && self.upstreams is None {
                NextView::UpstreamStatus(p)
            } else if self.cards is None {
                NextView::Cards
            } else {
                NextView::Finished
            },
            None => if self.cards is None {
                NextView::Cards
            } else {
                NextView::Finished
            },
        }
    }

    /// Starts from the two probes that depend on nothing.
    pub fn new(service: ServiceProbe, socket: SocketProbe) -> (r: Gathering)
        ensures
            r.wf(),
            r.service == service,
            r.socket == socket,
            r.agent is None && r.extensions is None && r.upstreams is None && r.cards is None,
    {
        Gathering {
            service,
            socket,
            agent: None,
            extensions: None,
            upstreams: None,
            cards: None,
        }
    }

    /// Decides which probe comes next.
    pub fn next(&self) -> (r: NextProbe)
        requires
            self.wf(),
        ensures
            r@ == self.next_spec(),
    {
        if let SocketProbe::Resolved { path, is_socket, .. } = &self.socket {
            if *is_socket {
                match &self.agent {
                    None => return NextProbe::Identities(path.clone()),
                    Some(Ok(_)) => match &self.extensions {
                        None => return NextProbe::Extensions(path.clone()),
                        Some(Ok(names)) => {
                            if list_has(names, UPSTREAM_STATUS_EXT) && self.upstreams.is_none() {
                                return NextProbe::UpstreamStatus(path.clone());
                            }
                        },
                        Some(Err(_)) => {},
                    },
                    Some(Err(_)) => {},
                }
            }
        }
        if self.cards.is_none() {
            NextProbe::Cards
        } else {
            NextProbe::Finished
        }
    }

    /// Takes the agent's answer on its identities.
    pub fn identities(self, answer: Result<Vec<String>, String>) -> (r: Gathering)
        requires
            self.wf(),
            self.next_spec() is Identities,
        ensures
            r.wf(),
            r == (Gathering { agent: Some(answer), ..self }),
    {
        Gathering { agent: Some(answer), ..self }
    }

    /// Takes the agent's answer on its extensions.
    pub fn extensions(self, answer: Result<Vec<String>, String>) -> (r: Gathering)
        requires
            self.wf(),
            self.next_spec() is Extensions,
        ensures
            r.wf(),
            r == (Gathering { extensions: Some(answer), ..self }),
    {
        Gathering { extensions: Some(answer), ..self }
    }

    /// Takes the agent's answer on its upstreams.
    pub fn upstream_status(self, answer: Result<Vec<UpstreamStatus>, String>) -> (r: Gathering)
        requires
            self.wf(),
            self.next_spec() is UpstreamStatus,
        ensures
            r.wf(),
            r == (Gathering { upstreams: Some(answer), ..self }),
    {
        Gathering { upstreams: Some(answer), ..self }
    }

    /// Takes the outcome of enumerating the cards.
    pub fn cards(self, answer: Result<Vec<CardInfo>, String>) -> (r: Gathering)
        requires
            self.wf(),
            self.next_spec() is Cards,
        ensures
            r.wf(),
            r == (Gathering { cards: Some(answer), ..self }),
    {
        Gathering { cards: Some(answer), ..self }
    }
}

/// What holds of probes that were gathered in order: each dependent probe
/// was run exactly when what it depends on allowed it.
pub open spec fn gathered(p: Probes) -> bool {
    &&& p.agent is Some <==> live_path(p.socket) is Some
    &&& p.extensions is Some <==> p.agent is Some && p.agent->0 is Ok
    &&& p.upstreams is Some <==> advertises_upstreams(p.extensions)
    &&& p.cards is Some <==> p.pcsc is Reachable
}

/// The probes, once there is none left to run.
pub fn gather(g: Gathering) -> (r: Probes)
    requires
        g.wf(),
        g.next_spec() is Finished,
    ensures
        gathered(r),
        r.service == g.service,
        r.socket == g.socket,
        r.agent == g.agent,
        r.extensions == g.extensions,
        r.upstreams == g.upstreams,
        match g.cards->0 {
            Ok(c) => r.cards == Some(c),
            Err(e) => r.cards is None && r.pcsc == PcscProbe::Error(e),
        },
{
    let enumerated: Result<Vec<CardInfo>, String> = match g.cards {
        Some(c) => c,
        None => Ok(Vec::new()),
    };
    let (pcsc, cards) = cards_probe(enumerated);
    Probes {
        service: g.service,
        socket: g.socket,
        agent: g.agent,
        extensions: g.extensions,
        upstreams: g.upstreams,
        pcsc,
        cards,
    }
}

/// Each answer brings the probe phase closer to its end: the number of
/// probes still to run drops, so it ends after at most four.
pub open spec fn probes_left(g: Gathering) -> nat {
    (if live_path(g.socket) is Some && g.agent is None {
        3nat
    } else if live_path(g.socket) is Some && g.agent->0 is Ok && g.extensions is None {
        2nat
    } else if live_path(g.socket) is Some && advertises_upstreams(g.extensions)
        && g.upstreams is None {
        1nat
    } else {
        0nat
    }) + (if g.cards is None {
        1nat
    } else {
        0nat
    })
}

/// Answering the probe that is asked for leaves fewer probes to run.
pub proof fn law_gathering_ends(
    g: Gathering,
    ids: Result<Vec<String>, String>,
    exts: Result<Vec<String>, String>,
    ups: Result<Vec<UpstreamStatus>, String>,
    cards: Result<Vec<CardInfo>, String>,
)
    requires
        g.wf(),
    ensures
        probes_left(g) <= 4,
        probes_left(g) == 0 <==> g.next_spec() is Finished,
        g.next_spec() is Identities ==> probes_left(Gathering { agent: Some(ids), ..g })
            < probes_left(g),
        g.next_spec() is Extensions ==> probes_left(Gathering { extensions: Some(exts), ..g })
            < probes_left(g),
        g.next_spec() is UpstreamStatus ==> probes_left(Gathering { upstreams: Some(ups), ..g })
            < probes_left(g),
        g.next_spec() is Cards ==> probes_left(Gathering { cards: Some(cards), ..g }) < probes_left(
            g,
        ),
{
}

} // verus!
