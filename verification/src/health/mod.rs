//! `piggy health`: agent, card and service checks.
//!
//! Probing is the caller's work; this module decides which probe comes next
//! ([`gather::Gathering`]), turns the outcomes into the check plan ([`evaluate`]),
//! decides what is reported of each point ([`render::HealthSink`]) and computes the
//! exit code. All card operations behind the probes are read-only.
//!
//! The agent service is looked up in the service manager: `systemctl --user`
//! on Linux, `launchctl print` on macOS. Both answers are read into
//! [`ServiceProbe`].
use crate::cmd::agent::upstream::UpstreamStatus;
use crate::text::{cat2, cat3, dec, dec_usize, join, joined, list_has, same, texts};
use vstd::prelude::*;

pub mod gather;
pub mod laws;
pub mod render;
pub mod service;

verus! {

/// Seconds a probe may take.
pub const PROBE_TIMEOUT_SECS: u64 = 2;

/// Seconds one identity may take in the opt-in sign test: a real signature
/// may wait for a human to enter a PIN.
pub const SIGN_PROBE_TIMEOUT_SECS: u64 = 60;

/// The agent extension that decryption needs.
pub const ECDH_EXT: &'static str = "ecdh@joyent.com";

/// The name of the service point under systemd.
pub const SERVICE_POINT_NAME: &'static str = "service: piggy-agent.service active";

/// The name of the service point under launchd.
pub const LAUNCHD_POINT_NAME: &'static str = "service: piggy-agent launchd agent active";

/// Output format, as given with `--format`.
#[derive(Clone, Copy, Debug, PartialEq, Eq, Structural)]
pub enum Format {
    Auto,
    Tap,
    Ndjson,
}

/// The verdict on one point.
pub enum Status {
    Pass,
    Fail,
    Skip(String),
}

/// One point of the report.
pub struct CheckResult {
    pub name: String,
    pub status: Status,
    /// Failures always carry diagnostics; those of passes are shown only
    /// on request.
    pub diags: Vec<(String, String)>,
}

/// What the service manager says of the agent's unit.
pub enum ServiceProbe {
    /// No service manager to ask, or it failed; the reason why.
    NotAvailable(String),
    /// No unit is installed.
    UnitNotFound,
    Unit {
        load_state: String,
        active_state: String,
        sub_state: String,
        exec_main_status: String,
    },
}

/// Where the agent's socket is and what lies there.
pub enum SocketProbe {
    /// Neither variable is set to a non-empty value.
    Unresolved,
    Resolved {
        source: &'static str,
        path: String,
        is_socket: bool,
        stat_detail: String,
    },
}

/// Whether the smart-card daemon answered.
pub enum PcscProbe {
    Reachable,
    Error(String),
}

/// What reading the certificate object of slot 9D gave. An empty slot is
/// not a failed read.
pub enum SlotProbe {
    Populated,
    Empty,
    Error(String),
}

/// One attached card.
pub struct CardInfo {
    pub reader: String,
    pub guid: String,
    pub slot_9d: SlotProbe,
}

/// Everything [`evaluate`] looks at. `None` means that the probe was not
/// attempted because something it needs had failed.
pub struct Probes {
    pub service: ServiceProbe,
    pub socket: SocketProbe,
    /// The comments of the identities that the agent serves.
    pub agent: Option<Result<Vec<String>, String>>,
    /// The extensions that the agent advertises.
    pub extensions: Option<Result<Vec<String>, String>>,
    /// The agent's own report on its upstreams.
    pub upstreams: Option<Result<Vec<UpstreamStatus>, String>>,
    pub pcsc: PcscProbe,
    pub cards: Option<Vec<CardInfo>>,
}

// ------------------------------------------------------------------- model

/// [`Status`] over plain text.
pub enum StatusView {
    Pass,
    Fail,
    Skip(Seq<char>),
}

/// [`CheckResult`] over plain text.
pub struct CheckView {
    pub name: Seq<char>,
    pub status: StatusView,
    pub diags: Seq<(Seq<char>, Seq<char>)>,
}

impl View for Status {
    type V = StatusView;

    open spec fn view(&self) -> StatusView {
        match self {
            Status::Pass => StatusView::Pass,
            Status::Fail => StatusView::Fail,
            Status::Skip(why) => StatusView::Skip(why@),
        }
    }
}

/// Diagnostics over plain text.
pub open spec fn diags_view(d: Seq<(String, String)>) -> Seq<(Seq<char>, Seq<char>)> {
    d.map_values(|p: (String, String)| (p.0@, p.1@))
}

impl View for CheckResult {
    type V = CheckView;

    open spec fn view(&self) -> CheckView {
        CheckView { name: self.name@, status: self.status@, diags: diags_view(self.diags@) }
    }
}

/// A report over plain text.
pub open spec fn checks_view(r: Seq<CheckResult>) -> Seq<CheckView> {
    r.map_values(|c: CheckResult| c@)
}

/// A verdict without diagnostics.
pub open spec fn skip_point(name: Seq<char>, why: Seq<char>) -> CheckView {
    CheckView { name, status: StatusView::Skip(why), diags: seq![] }
}

/// A passing or failing point.
pub open spec fn point(
    name: Seq<char>,
    pass: bool,
    diags: Seq<(Seq<char>, Seq<char>)>,
) -> CheckView {
    CheckView {
        name,
        status: if pass {
            StatusView::Pass
        } else {
            StatusView::Fail
        },
        diags,
    }
}

/// The service point: skipped without a unit, else passing exactly when the
/// unit is active.
pub open spec fn service_point(name: Seq<char>, p: ServiceProbe) -> CheckView {
    match p {
        ServiceProbe::NotAvailable(why) => skip_point(name, why@),
        ServiceProbe::UnitNotFound => skip_point(name, "no piggy-agent service unit installed"@),
        ServiceProbe::Unit { load_state, active_state, sub_state, exec_main_status } => point(
            name,
            active_state@ == "active"@,
            seq![
                ("load_state"@, load_state@),
                ("active_state"@, active_state@),
                ("sub_state"@, sub_state@),
                ("exec_main_status"@, exec_main_status@),
            ],
        ),
    }
}

/// Whether a socket variable was set.
pub open spec fn socket_resolved_point(p: SocketProbe) -> CheckView {
    match p {
        SocketProbe::Unresolved => point(
            "agent: socket resolved"@,
            false,
            seq![("error"@, "neither PIGGY_AUTH_SOCK nor SSH_AUTH_SOCK is set non-empty"@)],
        ),
        SocketProbe::Resolved { source, path, .. } => point(
            "agent: socket resolved"@,
            true,
            seq![("source"@, source@), ("path"@, path@)],
        ),
    }
}

/// Whether the resolved path is a socket.
pub open spec fn socket_exists_point(p: SocketProbe) -> CheckView {
    match p {
        SocketProbe::Unresolved => skip_point("agent: socket exists"@, "socket unresolved"@),
        SocketProbe::Resolved { is_socket, stat_detail, .. } => point(
            "agent: socket exists"@,
            is_socket,
            seq![("stat"@, stat_detail@)],
        ),
    }
}

/// Why the agent was not asked, judged by how far the socket got.
pub open spec fn skip_reason(p: SocketProbe) -> Seq<char> {
    match p {
        SocketProbe::Unresolved => "socket unresolved"@,
        SocketProbe::Resolved { is_socket, .. } => if is_socket {
            "socket missing"@
        } else {
            "path is not a socket"@
        },
    }
}

/// Whether the agent listed its identities, however few.
pub open spec fn identities_point(p: Probes) -> CheckView {
    let name = "agent: answers request_identities"@;
    match p.agent {
        None => skip_point(name, skip_reason(p.socket)),
        Some(Err(e)) => point(name, false, seq![("error"@, e@)]),
        Some(Ok(ids)) => point(name, true, seq![("identities"@, dec(ids@.len()))]),
    }
}

/// Whether the agent advertises the extension that decryption needs.
pub open spec fn ecdh_point(p: Probes) -> CheckView {
    let name = "agent: advertises ecdh extension"@;
    match p.extensions {
        None => skip_point(
            name,
            if p.agent is None {
                skip_reason(p.socket)
            } else {
                "agent did not answer"@
            },
        ),
        Some(Err(e)) => point(name, false, seq![("error"@, e@)]),
        Some(Ok(names)) => point(
            name,
            texts(names@).contains(ECDH_EXT@),
            seq![("advertised"@, joined(texts(names@), ", "@))],
        ),
    }
}

/// Whether the smart-card daemon answered.
pub open spec fn pcsc_point(p: PcscProbe) -> CheckView {
    let name = "pcsc: daemon reachable"@;
    match p {
        PcscProbe::Reachable => point(name, true, seq![]),
        PcscProbe::Error(e) => point(name, false, seq![("error"@, e@)]),
    }
}

/// The reader and GUID of each of the first `n` cards, under keys that
/// carry the card's number.
pub open spec fn card_diags(cards: Seq<CardInfo>, n: nat) -> Seq<(Seq<char>, Seq<char>)>
    decreases n,
{
    if n == 0 {
        seq![]
    } else {
        let i = (n - 1) as nat;
        card_diags(cards, i) + seq![
            ("reader_"@ + dec(i), cards[i as int].reader@),
            ("guid_"@ + dec(i), cards[i as int].guid@),
        ]
    }
}

/// Whether a card is attached.
pub open spec fn card_point(cards: Option<Vec<CardInfo>>) -> CheckView {
    let name = "card: PIV card attached"@;
    match cards {
        None => skip_point(name, "pcscd unreachable"@),
        Some(c) => if c@.len() == 0 {
            point(name, false, seq![("cards"@, "0"@)])
        } else {
            point(name, true, card_diags(c@, c@.len()))
        },
    }
}

/// What is said of one card's slot 9D.
pub open spec fn slot_text(p: SlotProbe) -> Seq<char> {
    match p {
        SlotProbe::Populated => "9D populated"@,
        SlotProbe::Empty => "9D empty"@,
        SlotProbe::Error(e) => "9D read error: "@ + e@,
    }
}

/// Whether some attached card has its slot 9D populated.
pub open spec fn any_populated(cards: Seq<CardInfo>) -> bool {
    exists|i: int| 0 <= i < cards.len() && (#[trigger] cards[i]).slot_9d is Populated
}

/// Whether slot 9D is populated on some attached card.
pub open spec fn slot_point(cards: Option<Vec<CardInfo>>) -> CheckView {
    let name = "card: key-management slot 9D populated"@;
    match cards {
        None => skip_point(name, "pcscd unreachable"@),
        Some(c) => if c@.len() == 0 {
            skip_point(name, "no card attached"@)
        } else {
            point(
                name,
                any_populated(c@),
                c@.map_values(|i: CardInfo| (i.guid@, slot_text(i.slot_9d))),
            )
        },
    }
}

/// Whether a card is attached that the agent should be serving.
pub open spec fn provisioned(cards: Option<Vec<CardInfo>>) -> bool {
    cards is Some && any_populated(cards->0@)
}

/// Whether an agent that answers serves the provisioned card.
pub open spec fn serves_point(p: Probes) -> CheckView {
    let name = "agent serves attached card"@;
    if provisioned(p.cards) && p.agent is Some && p.agent->0 is Ok {
        let ids = p.agent->0->Ok_0;
        if ids@.len() == 0 {
            point(
                name,
                false,
                seq![("hint"@, "pcscd race or locked agent — restart piggy-agent"@)],
            )
        } else {
            point(name, true, seq![("identities"@, dec(ids@.len()))])
        }
    } else {
        skip_point(name, "agent or card data unavailable"@)
    }
}

/// One upstream's point.
pub open spec fn upstream_point(s: UpstreamStatus) -> CheckView {
    point(
        "agent: upstream "@ + s.name@ + " answers"@,
        s.reachable,
        seq![("keys"@, dec(s.keys as nat))],
    )
}

/// The points behind the base plan: one per upstream that the agent reports
/// on, or one failure where the report could not be had.
pub open spec fn upstream_points(
    u: Option<Result<Vec<UpstreamStatus>, String>>,
) -> Seq<CheckView> {
    match u {
        None => seq![],
        Some(Err(e)) => seq![point("agent: upstream status answers"@, false, seq![("error"@, e@)])],
        Some(Ok(list)) => list@.map_values(|s: UpstreamStatus| upstream_point(s)),
    }
}

/// The nine points that every report starts with.
pub open spec fn base_plan(service_name: Seq<char>, p: Probes) -> Seq<CheckView> {
    seq![
        service_point(service_name, p.service),
        socket_resolved_point(p.socket),
        socket_exists_point(p.socket),
        identities_point(p),
        ecdh_point(p),
        pcsc_point(p.pcsc),
        card_point(p.cards),
        slot_point(p.cards),
        serves_point(p),
    ]
}

/// The whole report.
pub open spec fn plan(service_name: Seq<char>, p: Probes) -> Seq<CheckView> {
    base_plan(service_name, p) + upstream_points(p.upstreams)
}

// -------------------------------------------------------------- evaluation

fn skip_result(name: &str, why: String) -> (r: CheckResult)
    ensures
        r@ == skip_point(name@, why@),
{
    let r: CheckResult = CheckResult {
        name: name.to_owned(),
        status: Status::Skip(why),
        diags: Vec::new(),
    };
    assert(r@.diags =~= seq![]);
    r
}

fn result(name: &str, pass: bool, diags: Vec<(String, String)>) -> (r: CheckResult)
    ensures
        r@ == point(name@, pass, diags_view(diags@)),
{
    CheckResult {
        name: name.to_owned(),
        status: if pass {
            Status::Pass
        } else {
            Status::Fail
        },
        diags,
    }
}

fn diag(diags: &mut Vec<(String, String)>, key: &str, value: &str)
    ensures
        diags_view(final(diags)@) == diags_view(old(diags)@).push((key@, value@)),
{
    diags.push((key.to_owned(), value.to_owned()));
    assert(diags_view(diags@) =~= diags_view(old(diags)@).push((key@, value@)));
}

fn one_diag(key: &str, value: &str) -> (r: Vec<(String, String)>)
    ensures
        diags_view(r@) == seq![(key@, value@)],
{
    let mut d: Vec<(String, String)> = Vec::new();
    diag(&mut d, key, value);
    assert(diags_view(d@) =~= seq![(key@, value@)]);
    d
}

fn service_result(name: &str, p: &ServiceProbe) -> (r: CheckResult)
    ensures
        r@ == service_point(name@, *p),
{
    match p {
        ServiceProbe::NotAvailable(why) => skip_result(name, why.clone()),
        ServiceProbe::UnitNotFound => skip_result(
            name,
            "no piggy-agent service unit installed".to_owned(),
        ),
        ServiceProbe::Unit { load_state, active_state, sub_state, exec_main_status } => {
            let mut d: Vec<(String, String)> = Vec::new();
            diag(&mut d, "load_state", load_state.as_str());
            diag(&mut d, "active_state", active_state.as_str());
            diag(&mut d, "sub_state", sub_state.as_str());
            diag(&mut d, "exec_main_status", exec_main_status.as_str());
            let r: CheckResult = result(name, same(active_state.as_str(), "active"), d);
            assert(r@.diags =~= service_point(name@, *p).diags);
            r
        },
    }
}

fn socket_resolved_result(p: &SocketProbe) -> (r: CheckResult)
    ensures
        r@ == socket_resolved_point(*p),
{
    let name: &str = "agent: socket resolved";
    match p {
        SocketProbe::Unresolved => result(
            name,
            false,
            one_diag("error", "neither PIGGY_AUTH_SOCK nor SSH_AUTH_SOCK is set non-empty"),
        ),
        SocketProbe::Resolved { source, path, .. } => {
            let mut d: Vec<(String, String)> = one_diag("source", source);
            diag(&mut d, "path", path.as_str());
            let r: CheckResult = result(name, true, d);
            assert(r@.diags =~= socket_resolved_point(*p).diags);
            r
        },
    }
}

fn socket_exists_result(p: &SocketProbe) -> (r: CheckResult)
    ensures
        r@ == socket_exists_point(*p),
{
    let name: &str = "agent: socket exists";
    match p {
        SocketProbe::Unresolved => skip_result(name, "socket unresolved".to_owned()),
        SocketProbe::Resolved { is_socket, stat_detail, .. } => result(
            name,
            *is_socket,
            one_diag("stat", stat_detail.as_str()),
        ),
    }
}

/// The reason given for agent points when the agent was never asked.
pub fn socket_skip_reason(socket: &SocketProbe) -> (r: String)
    ensures
        r@ == skip_reason(*socket),
{
    match socket {
        SocketProbe::Unresolved => "socket unresolved".to_owned(),
        SocketProbe::Resolved { is_socket, .. } => {
            if *is_socket {
                "socket missing".to_owned()
            } else {
                "path is not a socket".to_owned()
            }
        },
    }
}

fn identities_result(p: &Probes) -> (r: CheckResult)
    ensures
        r@ == identities_point(*p),
{
    let name: &str = "agent: answers request_identities";
    match &p.agent {
        None => skip_result(name, socket_skip_reason(&p.socket)),
        Some(Err(e)) => result(name, false, one_diag("error", e.as_str())),
        Some(Ok(ids)) => result(name, true, one_diag("identities", dec_usize(ids.len()).as_str())),
    }
}

fn ecdh_result(p: &Probes) -> (r: CheckResult)
    ensures
        r@ == ecdh_point(*p),
{
    let name: &str = "agent: advertises ecdh extension";
    match &p.extensions {
        None => {
            let why: String = if p.agent.is_none() {
                socket_skip_reason(&p.socket)
            } else {
                "agent did not answer".to_owned()
            };
            skip_result(name, why)
        },
        Some(Err(e)) => result(name, false, one_diag("error", e.as_str())),
        Some(Ok(names)) => result(
            name,
            list_has(names, ECDH_EXT),
            one_diag("advertised", join(names, ", ").as_str()),
        ),
    }
}

fn pcsc_result(p: &PcscProbe) -> (r: CheckResult)
    ensures
        r@ == pcsc_point(*p),
{
    let name: &str = "pcsc: daemon reachable";
    match p {
        PcscProbe::Reachable => {
            let r: CheckResult = result(name, true, Vec::new());
            assert(r@.diags =~= seq![]);
            r
        },
        PcscProbe::Error(e) => result(name, false, one_diag("error", e.as_str())),
    }
}

fn card_result(cards: &Option<Vec<CardInfo>>) -> (r: CheckResult)
    ensures
        r@ == card_point(*cards),
{
    let name: &str = "card: PIV card attached";
    match cards {
        None => skip_result(name, "pcscd unreachable".to_owned()),
        Some(c) => {
            if c.len() == 0 {
                return result(name, false, one_diag("cards", "0"));
            }
            let mut d: Vec<(String, String)> = Vec::new();
            assert(diags_view(d@) =~= seq![]);
            for i in 0..c.len()
                invariant
                    diags_view(d@) == card_diags(c@, i as nat),
            {
                let ghost before = diags_view(d@);
                let number: String = dec_usize(i);
                diag(&mut d, cat2("reader_", number.as_str()).as_str(), c[i].reader.as_str());
                diag(&mut d, cat2("guid_", number.as_str()).as_str(), c[i].guid.as_str());
                assert(diags_view(d@) =~= before + seq![
                    ("reader_"@ + dec(i as nat), c@[i as int].reader@),
                    ("guid_"@ + dec(i as nat), c@[i as int].guid@),
                ]);
            }
            result(name, true, d)
        },
    }
}

fn has_populated(cards: &Vec<CardInfo>) -> (r: bool)
    ensures
        r == any_populated(cards@),
{
    for i in 0..cards.len()
        invariant
            forall|j: int| 0 <= j < i ==> !((#[trigger] cards@[j]).slot_9d is Populated),
    {
        if let SlotProbe::Populated = cards[i].slot_9d {
            assert(cards@[i as int].slot_9d is Populated);
            return true;
        }
    }
    false
}

fn slot_9d_text(p: &SlotProbe) -> (r: String)
    ensures
        r@ == slot_text(*p),
{
    match p {
        SlotProbe::Populated => "9D populated".to_owned(),
        SlotProbe::Empty => "9D empty".to_owned(),
        SlotProbe::Error(e) => cat2("9D read error: ", e.as_str()),
    }
}

fn slot_result(cards: &Option<Vec<CardInfo>>) -> (r: CheckResult)
    ensures
        r@ == slot_point(*cards),
{
    let name: &str = "card: key-management slot 9D populated";
    match cards {
        None => skip_result(name, "pcscd unreachable".to_owned()),
        Some(c) => {
            if c.len() == 0 {
                return skip_result(name, "no card attached".to_owned());
            }
            let mut d: Vec<(String, String)> = Vec::new();
            let ghost all = c@.map_values(|i: CardInfo| (i.guid@, slot_text(i.slot_9d)));
            for i in 0..c.len()
                invariant
                    all == c@.map_values(|i: CardInfo| (i.guid@, slot_text(i.slot_9d))),
                    diags_view(d@) == all.take(i as int),
            {
                diag(&mut d, c[i].guid.as_str(), slot_9d_text(&c[i].slot_9d).as_str());
                assert(diags_view(d@) =~= all.take(i + 1));
            }
            assert(all.take(c@.len() as int) =~= all);
            result(name, has_populated(c), d)
        },
    }
}

fn serves_result(p: &Probes) -> (r: CheckResult)
    ensures
        r@ == serves_point(*p),
{
    let name: &str = "agent serves attached card";
    let provisioned_card: bool = match &p.cards {
        Some(c) => has_populated(c),
        None => false,
    };
    if provisioned_card {
        if let Some(Ok(ids)) = &p.agent {
            return if ids.len() == 0 {
                result(
                    name,
                    false,
                    one_diag("hint", "pcscd race or locked agent — restart piggy-agent"),
                )
            } else {
                result(name, true, one_diag("identities", dec_usize(ids.len()).as_str()))
            };
        }
    }
    skip_result(name, "agent or card data unavailable".to_owned())
}

fn upstream_result(s: &UpstreamStatus) -> (r: CheckResult)
    ensures
        r@ == upstream_point(*s),
{
    result(
        cat3("agent: upstream ", s.name.as_str(), " answers").as_str(),
        s.reachable,
        one_diag("keys", dec_usize(s.keys).as_str()),
    )
}

/// Derives the report from the probes under a given name for the service
/// point.
pub fn evaluate_as(service_name: &str, probes: &Probes) -> (r: Vec<CheckResult>)
    ensures
        checks_view(r@) == plan(service_name@, *probes),
{
    let mut out: Vec<CheckResult> = Vec::new();
    out.push(service_result(service_name, &probes.service));
    out.push(socket_resolved_result(&probes.socket));
    out.push(socket_exists_result(&probes.socket));
    out.push(identities_result(probes));
    out.push(ecdh_result(probes));
    out.push(pcsc_result(&probes.pcsc));
    out.push(card_result(&probes.cards));
    out.push(slot_result(&probes.cards));
    out.push(serves_result(probes));
    let ghost base = base_plan(service_name@, *probes);
    assert(checks_view(out@) =~= base);
    match &probes.upstreams {
        None => {
            assert(base + seq![] =~= base);
        },
        Some(Err(e)) => {
            out.push(result("agent: upstream status answers", false, one_diag("error", e.as_str())));
            assert(checks_view(out@) =~= plan(service_name@, *probes));
        },
        Some(Ok(list)) => {
            let ghost extra = upstream_points(probes.upstreams);
            for i in 0..list.len()
                invariant
                    extra == list@.map_values(|s: UpstreamStatus| upstream_point(s)),
                    checks_view(out@) == base + extra.take(i as int),
            {
                let ghost before = checks_view(out@);
                out.push(upstream_result(&list[i]));
                assert(checks_view(out@) =~= before.push(extra[i as int]));
                assert(extra.take(i + 1) =~= extra.take(i as int).push(extra[i as int]));
                assert(checks_view(out@) =~= base + extra.take(i + 1));
            }
            assert(extra.take(list@.len() as int) =~= extra);
        },
    }
    out
}

/// Derives the report from the probes: the nine base points in their fixed
/// order, then one point per upstream that the agent reports on.
pub fn evaluate(probes: &Probes) -> (r: Vec<CheckResult>)
    ensures
        checks_view(r@) == plan(SERVICE_POINT_NAME@, *probes),
{
    evaluate_as(SERVICE_POINT_NAME, probes)
}

/// Whether some point failed.
pub open spec fn any_fail(r: Seq<CheckResult>) -> bool {
    exists|i: int| 0 <= i < r.len() && (#[trigger] r[i]).status is Fail
}

/// One when some point failed, else zero; a skipped point is no failure.
pub fn exit_code(results: &[CheckResult]) -> (r: i32)
    ensures
        r == if any_fail(results@) {
            1i32
        } else {
            0i32
        },
{
    for i in 0..results.len()
        invariant
            forall|j: int| 0 <= j < i ==> !((#[trigger] results@[j]).status is Fail),
    {
        if let Status::Fail = results[i].status {
            assert(results@[i as int].status is Fail);
            return 1;
        }
    }
    0
}


} // verus!
