//! Other SSH agents that this one speaks for: keys that are not on a card
//! are served by an upstream.
//!
//! Talking to the upstreams is the caller's work. This module reads the
//! configuration, keeps the table that says which upstream holds which key,
//! and decides whom a request goes to. An upstream that does not answer
//! adds nothing and hides nothing.
use crate::cmd::agent::session::{
    copy_public_key, identities_view, AgentError, ErrorView, Identity,
};
use crate::crypto::KeyView;
use crate::text::{cat2, cat3, cat4, cut, debug_str, debug_text, list_has, same, split_once, texts};
use crate::wire::bytes_same;
use vstd::prelude::*;
use vstd::slice::slice_to_vec;

verus! {

/// The extension under which the agent reports on its upstreams. It is
/// served only where upstreams are configured.
pub const UPSTREAM_STATUS_EXT: &'static str = "upstream-status@piggy";

/// One upstream's health as the agent reports it.
#[derive(Debug)]
pub struct UpstreamStatus {
    pub name: String,
    pub reachable: bool,
    /// Identities that the upstream served; zero when it is unreachable.
    pub keys: usize,
}

/// One configured upstream: a name for people, and its socket.
#[derive(Debug)]
pub struct Upstream {
    pub name: String,
    pub path: String,
}

/// An upstream over plain text.
pub open spec fn upstream_view(u: Upstream) -> (Seq<char>, Seq<char>) {
    (u.name@, u.path@)
}

/// A list of upstreams over plain text.
pub open spec fn upstreams_view(u: Seq<Upstream>) -> Seq<(Seq<char>, Seq<char>)> {
    u.map_values(|x: Upstream| upstream_view(x))
}

// ------------------------------------------------------------ configuration

/// The upstream that `NAME=SOCKET_PATH` describes; the first equals sign
/// splits, and neither part may be empty.
pub open spec fn spec_meaning(spec: Seq<char>) -> Result<(Seq<char>, Seq<char>), Seq<char>> {
    match cut(spec, '=') {
        None => Err(
            "invalid --upstream spec "@ + debug_text(spec) + ": expected NAME=SOCKET_PATH"@,
        ),
        Some((name, path)) => if name.len() == 0 {
            Err("invalid --upstream spec "@ + debug_text(spec) + ": empty name"@)
        } else if path.len() == 0 {
            Err("invalid --upstream spec "@ + debug_text(spec) + ": empty socket path"@)
        } else {
            Ok((name, path))
        },
    }
}

/// Reads one `NAME=SOCKET_PATH`.
pub fn parse_upstream_spec(spec: &str) -> (r: Result<Upstream, String>)
    ensures
        match r {
            Ok(u) => spec_meaning(spec@) == Ok::<(Seq<char>, Seq<char>), Seq<char>>(
                upstream_view(u),
            ),
            Err(e) => spec_meaning(spec@) == Err::<(Seq<char>, Seq<char>), Seq<char>>(e@),
        },
{
    match split_once(spec, '=') {
        None => Err(
            cat3(
                "invalid --upstream spec ",
                debug_str(spec).as_str(),
                ": expected NAME=SOCKET_PATH",
            ),
        ),
        Some((name, path)) => {
            if name.as_str().is_empty() {
                return Err(
                    cat3("invalid --upstream spec ", debug_str(spec).as_str(), ": empty name"),
                );
            }
            if path.as_str().is_empty() {
                return Err(
                    cat3(
                        "invalid --upstream spec ",
                        debug_str(spec).as_str(),
                        ": empty socket path",
                    ),
                );
            }
            Ok(Upstream { name, path })
        },
    }
}

/// Whether a name is taken.
pub open spec fn name_taken(list: Seq<(Seq<char>, Seq<char>)>, name: Seq<char>) -> bool {
    exists|i: int| 0 <= i < list.len() && (#[trigger] list[i]).0 == name
}

/// The upstreams of a list of specs: the first bad spec, or the first name
/// that occurs again, is an error.
pub open spec fn specs_meaning(specs: Seq<Seq<char>>) -> Result<
    Seq<(Seq<char>, Seq<char>)>,
    Seq<char>,
>
    decreases specs.len(),
{
    if specs.len() == 0 {
        Ok(seq![])
    } else {
        match specs_meaning(specs.drop_last()) {
            Err(e) => Err(e),
            Ok(list) => match spec_meaning(specs.last()) {
                Err(e) => Err(e),
                Ok(u) => if name_taken(list, u.0) {
                    Err("duplicate --upstream name "@ + debug_text(u.0))
                } else {
                    Ok(list.push(u))
                },
            },
        }
    }
}

proof fn lemma_bad_prefix(specs: Seq<Seq<char>>, k: int)
    requires
        0 <= k <= specs.len(),
        specs_meaning(specs.take(k)) is Err,
    ensures
        specs_meaning(specs) == specs_meaning(specs.take(k)),
    decreases specs.len() - k,
{
    if k < specs.len() {
        assert(specs.take(k + 1).drop_last() =~= specs.take(k));
        lemma_bad_prefix(specs, k + 1);
    } else {
        assert(specs.take(k) =~= specs);
    }
}

fn has_name(list: &Vec<Upstream>, name: &str) -> (r: bool)
    ensures
        r == name_taken(upstreams_view(list@), name@),
{
    for i in 0..list.len()
        invariant
            forall|j: int| 0 <= j < i ==> (#[trigger] upstreams_view(list@)[j]).0 != name@,
    {
        assert(upstreams_view(list@)[i as int].0 == list@[i as int].name@);
        if same(list[i].name.as_str(), name) {
            return true;
        }
    }
    false
}

/// Reads a list of specs, whose names must differ.
pub fn parse_upstream_specs(specs: &[String]) -> (r: Result<Vec<Upstream>, String>)
    ensures
        match r {
            Ok(list) => specs_meaning(texts(specs@)) == Ok::<
                Seq<(Seq<char>, Seq<char>)>,
                Seq<char>,
            >(upstreams_view(list@)),
            Err(e) => specs_meaning(texts(specs@)) == Err::<
                Seq<(Seq<char>, Seq<char>)>,
                Seq<char>,
            >(e@),
        },
{
    let mut out: Vec<Upstream> = Vec::new();
    let ghost all = texts(specs@);
    assert(upstreams_view(out@) =~= seq![]);
    for i in 0..specs.len()
        invariant
            all == texts(specs@),
            specs_meaning(all.take(i as int)) == Ok::<Seq<(Seq<char>, Seq<char>)>, Seq<char>>(
                upstreams_view(out@),
            ),
    {
        let ghost before = upstreams_view(out@);
        proof {
            assert(all.take(i + 1).drop_last() =~= all.take(i as int));
            assert(all.take(i + 1).last() == specs@[i as int]@);
        }
        match parse_upstream_spec(specs[i].as_str()) {
            Err(e) => {
                proof {
                    lemma_bad_prefix(all, i + 1);
                }
                return Err(e);
            },
            Ok(u) => {
                if has_name(&out, u.name.as_str()) {
                    proof {
                        lemma_bad_prefix(all, i + 1);
                    }
                    return Err(
                        cat2("duplicate --upstream name ", debug_str(u.name.as_str()).as_str()),
                    );
                }
                out.push(u);
                assert(upstreams_view(out@) =~= before.push(upstream_view(u)));
            },
        }
    }
    assert(all.take(specs@.len() as int) =~= all);
    Ok(out)
}

/// The names of configured upstreams differ.
pub proof fn law_configured_names_differ(specs: Seq<Seq<char>>, i: int, j: int)
    requires
        specs_meaning(specs) is Ok,
        0 <= i < j < specs_meaning(specs)->Ok_0.len(),
    ensures
        (specs_meaning(specs)->Ok_0)[i].0 != (specs_meaning(specs)->Ok_0)[j].0,
    decreases specs.len(),
{
    if specs.len() > 0 {
        let init = specs_meaning(specs.drop_last())->Ok_0;
        if j < init.len() {
            law_configured_names_differ(specs.drop_last(), i, j);
        } else {
            assert(init[i].0 == (specs_meaning(specs)->Ok_0)[i].0);
        }
    }
}

// -------------------------------------------------------------------- pool

/// Which upstream holds which key: pairs of a key's SSH encoding and the
/// upstream's place in the list.
pub open spec fn routes_view(r: Seq<(Vec<u8>, usize)>) -> Seq<(Seq<u8>, nat)> {
    r.map_values(|x: (Vec<u8>, usize)| (x.0@, x.1 as nat))
}

/// The upstream that a key is routed to: the last one that listed it.
pub open spec fn route_of(routes: Seq<(Seq<u8>, nat)>, key: Seq<u8>) -> Option<nat>
    decreases routes.len(),
{
    if routes.len() == 0 {
        None
    } else if routes.last().0 == key {
        Some(routes.last().1)
    } else {
        route_of(routes.drop_last(), key)
    }
}

/// The configured upstreams, the one that takes added keys, and the table
/// of keys as of the last listing.
pub struct UpstreamPool {
    pub upstreams: Vec<Upstream>,
    pub timeout_secs: u64,
    pub known_keys: Vec<(Vec<u8>, usize)>,
    pub add_new_keys_to: Option<usize>,
}

/// The keys that one upstream listed, over plain bytes.
pub open spec fn listed_keys(ids: Seq<Identity>) -> Seq<Seq<u8>> {
    ids.map_values(|i: Identity| i.pubkey.blob@)
}

/// What the first `n` upstreams listed, in order; one that did not answer
/// adds nothing.
pub open spec fn all_listed(listings: Seq<Option<Vec<Identity>>>, n: nat) -> Seq<
    (KeyView, Seq<char>),
>
    decreases n,
{
    if n == 0 {
        seq![]
    } else {
        let i = (n - 1) as int;
        all_listed(listings, (n - 1) as nat) + match listings[i] {
            Some(ids) => identities_view(ids@),
            None => seq![],
        }
    }
}

/// The table after the first `n` upstreams were listed.
pub open spec fn all_routes(listings: Seq<Option<Vec<Identity>>>, n: nat) -> Seq<
    (Seq<u8>, nat),
>
    decreases n,
{
    if n == 0 {
        seq![]
    } else {
        let i = (n - 1) as int;
        all_routes(listings, (n - 1) as nat) + match listings[i] {
            Some(ids) => listed_keys(ids@).map_values(|k: Seq<u8>| (k, i as nat)),
            None => seq![],
        }
    }
}

/// Whom a signing request goes to.
pub enum Route {
    /// The upstream at this place holds the key.
    Ask(usize),
    /// No upstream is known to hold the key: list them again and retry.
    Refresh,
    Refuse(AgentError),
}

/// The next step of an extension that is passed on.
#[derive(Clone, Copy, Debug, PartialEq, Eq, Structural)]
pub enum Forward {
    /// Ask the upstream at this place.
    Ask(usize),
    /// Some upstream answered.
    Answered,
    /// None did.
    Exhausted,
}

/// The next step of an extension that is passed on, after so many of the
/// upstreams were asked.
pub open spec fn forward_step(upstreams: nat, asked: usize, answered: bool) -> Forward {
    if answered {
        Forward::Answered
    } else if asked < upstreams {
        Forward::Ask(asked)
    } else {
        Forward::Exhausted
    }
}

/// [`Route`] over plain values.
pub enum RouteView {
    Ask(nat),
    Refresh,
    Refuse(ErrorView),
}

impl View for Route {
    type V = RouteView;

    open spec fn view(&self) -> RouteView {
        match self {
            Route::Ask(i) => RouteView::Ask(*i as nat),
            Route::Refresh => RouteView::Refresh,
            Route::Refuse(e) => RouteView::Refuse(e@),
        }
    }
}

/// Whom a request to sign goes to.
pub open spec fn sign_route(
    routes: Seq<(Seq<u8>, nat)>,
    key: Seq<u8>,
    refreshed: bool,
) -> RouteView {
    match route_of(routes, key) {
        Some(i) => RouteView::Ask(i),
        None => if refreshed {
            RouteView::Refuse(ErrorView::Other("no upstream agent holds the requested key"@))
        } else {
            RouteView::Refresh
        },
    }
}

impl Forward {
    /// What the client is refused with where no upstream answered.
    pub fn refusal(self) -> (r: Option<AgentError>)
        ensures
            if self is Exhausted {
                r is Some && (r->0)@ == ErrorView::Failure
            } else {
                r is None
            },
    {
        match self {
            Forward::Exhausted => Some(AgentError::Failure),
            _ => None,
        }
    }
}

impl UpstreamPool {
    /// Whether every place in the tables is that of an upstream.
    pub open spec fn wf(self) -> bool {
        &&& forall|i: int|
            0 <= i < self.known_keys@.len() ==> (#[trigger] self.known_keys@[i]).1
                < self.upstreams@.len()
        &&& self.add_new_keys_to is Some ==> self.add_new_keys_to->0 < self.upstreams@.len()
    }

    /// A pool of the given upstreams that knows of no keys yet.
    pub fn new(upstreams: Vec<Upstream>, timeout_secs: u64) -> (r: UpstreamPool)
        ensures
            r.wf(),
            r.upstreams == upstreams,
            r.timeout_secs == timeout_secs,
            r.known_keys@ == Seq::<(Vec<u8>, usize)>::empty(),
            r.add_new_keys_to is None,
    {
        UpstreamPool { upstreams, timeout_secs, known_keys: Vec::new(), add_new_keys_to: None }
    }

    /// A pool without upstreams.
    pub fn empty() -> (r: UpstreamPool)
        ensures
            r.wf(),
            r.upstreams@.len() == 0,
            r.timeout_secs == 1,
            r.known_keys@.len() == 0,
            r.add_new_keys_to is None,
    {
        UpstreamPool::new(Vec::new(), 1)
    }

    /// Whether no upstream is configured.
    pub fn is_empty(&self) -> (r: bool)
        ensures
            r == (self.upstreams@.len() == 0),
    {
        self.upstreams.len() == 0
    }

    /// The number of upstreams.
    pub fn len(&self) -> (r: usize)
        ensures
            r == self.upstreams@.len(),
    {
        self.upstreams.len()
    }

    /// Lets the named upstream take the keys that are added.
    pub fn with_add_new_keys_to(self, name: &str) -> (r: Result<UpstreamPool, String>)
        requires
            self.wf(),
        ensures
            match r {
                Ok(p) => {
                    &&& p.wf()
                    &&& p.upstreams == self.upstreams
                    &&& p.timeout_secs == self.timeout_secs
                    &&& p.known_keys == self.known_keys
                    &&& p.add_new_keys_to is Some
                    &&& upstreams_view(self.upstreams@)[p.add_new_keys_to->0 as int].0 == name@
                    &&& forall|j: int|
                        0 <= j < p.add_new_keys_to->0 ==> (#[trigger] upstreams_view(
                            self.upstreams@,
                        )[j]).0 != name@
                },
                Err(e) => !name_taken(upstreams_view(self.upstreams@), name@) && e@
                    == "--add-new-keys-to "@ + debug_text(name@) + " matches no --upstream name"@,
            },
    {
        for i in 0..self.upstreams.len()
            invariant
                self.wf(),
                forall|j: int|
                    0 <= j < i ==> (#[trigger] upstreams_view(self.upstreams@)[j]).0 != name@,
        {
            assert(upstreams_view(self.upstreams@)[i as int].0 == self.upstreams@[i as int].name@);
            if same(self.upstreams[i].name.as_str(), name) {
                return Ok(UpstreamPool { add_new_keys_to: Some(i), ..self });
            }
        }
        Err(
            cat3(
                "--add-new-keys-to ",
                debug_str(name).as_str(),
                " matches no --upstream name",
            ),
        )
    }

    /// Rebuilds the table from what each upstream listed, in order, and
    /// gives all that was listed.
    pub fn refresh_identities(&mut self, listings: &Vec<Option<Vec<Identity>>>) -> (r: Vec<
        Identity,
    >)
        requires
            old(self).wf(),
            listings@.len() == old(self).upstreams@.len(),
        ensures
            final(self).wf(),
            final(self).upstreams == old(self).upstreams,
            final(self).timeout_secs == old(self).timeout_secs,
            final(self).add_new_keys_to == old(self).add_new_keys_to,
            identities_view(r@) == all_listed(listings@, listings@.len()),
            routes_view(final(self).known_keys@) == all_routes(listings@, listings@.len()),
    {
        let mut out: Vec<Identity> = Vec::new();
        let mut table: Vec<(Vec<u8>, usize)> = Vec::new();
        assert(identities_view(out@) =~= seq![]);
        assert(routes_view(table@) =~= seq![]);
        for i in 0..listings.len()
            invariant
                identities_view(out@) == all_listed(listings@, i as nat),
                routes_view(table@) == all_routes(listings@, i as nat),
                forall|j: int| 0 <= j < table@.len() ==> (#[trigger] table@[j]).1 < listings@.len(),
        {
            let ghost shown = identities_view(out@);
            let ghost routed = routes_view(table@);
            match &listings[i] {
                Some(ids) => {
                    let ghost a = identities_view(ids@);
                    let ghost b = listed_keys(ids@).map_values(|k: Seq<u8>| (k, i as nat));
                    assert(shown + a.take(0) =~= shown);
                    assert(routed + b.take(0) =~= routed);
                    for k in 0..ids.len()
                        invariant
                            i < listings@.len(),
                            a == identities_view(ids@),
                            b == listed_keys(ids@).map_values(|k: Seq<u8>| (k, i as nat)),
                            identities_view(out@) == shown + a.take(k as int),
                            routes_view(table@) == routed + b.take(k as int),
                            forall|j: int|
                                0 <= j < table@.len() ==> (#[trigger] table@[j]).1
                                    < listings@.len(),
                    {
                        let ghost x = identities_view(out@);
                        let ghost y = routes_view(table@);
                        let id: &Identity = &ids[k];
                        out.push(
                            Identity {
                                pubkey: copy_public_key(&id.pubkey),
                                comment: id.comment.clone(),
                            },
                        );
                        table.push((slice_to_vec(id.pubkey.blob.as_slice()), i));
                        assert(identities_view(out@) =~= x.push(a[k as int]));
                        assert(routes_view(table@) =~= y.push(b[k as int]));
                        assert(shown + a.take(k + 1) =~= (shown + a.take(k as int)).push(
                            a[k as int],
                        ));
                        assert(routed + b.take(k + 1) =~= (routed + b.take(k as int)).push(
                            b[k as int],
                        ));
                    }
                    assert(a.take(ids@.len() as int) =~= a);
                    assert(b.take(ids@.len() as int) =~= b);
                },
                None => {
                    assert(shown + Seq::<(KeyView, Seq<char>)>::empty() =~= shown);
                    assert(routed + Seq::<(Seq<u8>, nat)>::empty() =~= routed);
                },
            }
        }
        self.known_keys = table;
        out
    }

    fn find_route(&self, key: &[u8]) -> (r: Option<usize>)
        requires
            self.wf(),
        ensures
            match r {
                Some(i) => route_of(routes_view(self.known_keys@), key@) == Some(i as nat) && i
                    < self.upstreams@.len(),
                None => route_of(routes_view(self.known_keys@), key@) is None,
            },
    {
        let ghost all = routes_view(self.known_keys@);
        let mut n: usize = self.known_keys.len();
        assert(all.take(n as int) =~= all);
        while n > 0
            invariant
                self.wf(),
                n <= self.known_keys@.len(),
                all == routes_view(self.known_keys@),
                route_of(all, key@) == route_of(all.take(n as int), key@),
            decreases n,
        {
            assert(all.take(n as int).last() == all[n - 1]);
            assert(all.take(n as int).drop_last() =~= all.take(n - 1));
            if bytes_same(self.known_keys[n - 1].0.as_slice(), key) {
                return Some(self.known_keys[n - 1].1);
            }
            n = n - 1;
        }
        None
    }

    /// Decides whom a signing request goes to. A key that is not in the
    /// table may have appeared since: the upstreams are listed once more
    /// before the request is refused.
    pub fn sign(&self, key: &[u8], refreshed: bool) -> (r: Route)
        requires
            self.wf(),
        ensures
            r@ == sign_route(routes_view(self.known_keys@), key@, refreshed),
            match route_of(routes_view(self.known_keys@), key@) {
                Some(i) => r matches Route::Ask(j) && j == i && j < self.upstreams@.len(),
                None => if refreshed {
                    r matches Route::Refuse(e) && e@ == ErrorView::Other(
                        "no upstream agent holds the requested key"@,
                    )
                } else {
                    r is Refresh
                },
            },
    {
        match self.find_route(key) {
            Some(i) => Route::Ask(i),
            None => {
                if refreshed {
                    Route::Refuse(
                        AgentError::Other("no upstream agent holds the requested key".to_owned()),
                    )
                } else {
                    Route::Refresh
                }
            },
        }
    }

    /// The names that the upstreams advertise, in order; one that did not
    /// answer adds none.
    pub fn query_extension_names(&self, replies: &Vec<Option<Vec<String>>>) -> (r: Vec<String>)
        ensures
            texts(r@) == all_names(replies@, replies@.len()),
    {
        let mut out: Vec<String> = Vec::new();
        assert(texts(out@) =~= seq![]);
        for i in 0..replies.len()
            invariant
                texts(out@) == all_names(replies@, i as nat),
        {
            let ghost sofar = texts(out@);
            match &replies[i] {
                Some(names) => {
                    let ghost a = texts(names@);
                    assert(sofar + a.take(0) =~= sofar);
                    for k in 0..names.len()
                        invariant
                            a == texts(names@),
                            texts(out@) == sofar + a.take(k as int),
                    {
                        let ghost x = texts(out@);
                        out.push(names[k].clone());
                        assert(texts(out@) =~= x.push(a[k as int]));
                        assert(sofar + a.take(k + 1) =~= (sofar + a.take(k as int)).push(
                            a[k as int],
                        ));
                    }
                    assert(a.take(names@.len() as int) =~= a);
                },
                None => {
                    assert(sofar + Seq::<Seq<char>>::empty() =~= sofar);
                },
            }
        }
        out
    }

    /// Decides the next step of an extension that is passed on: the
    /// upstreams are asked in order until one answers.
    pub fn forward_extension(&self, asked: usize, answered: bool) -> (r: Forward)
        requires
            asked <= self.upstreams@.len(),
        ensures
            r == forward_step(self.upstreams@.len(), asked, answered),
            r == if answered {
                Forward::Answered
            } else if asked < self.upstreams@.len() {
                Forward::Ask(asked)
            } else {
                Forward::Exhausted
            },
    {
        if answered {
            Forward::Answered
        } else if asked < self.upstreams.len() {
            Forward::Ask(asked)
        } else {
            Forward::Exhausted
        }
    }

    /// The upstream that takes the keys that are added.
    pub fn add_target(&self) -> (r: Result<usize, AgentError>)
        requires
            self.wf(),
        ensures
            match self.add_new_keys_to {
                Some(i) => r == Ok::<usize, AgentError>(i) && i < self.upstreams@.len(),
                None => r is Err && r->Err_0@ == ErrorView::Other(
                    "no --add-new-keys-to upstream configured; refusing to add a key"@,
                ),
            },
    {
        match self.add_new_keys_to {
            Some(i) => Ok(i),
            None => Err(
                AgentError::Other(
                    "no --add-new-keys-to upstream configured; refusing to add a key".to_owned(),
                ),
            ),
        }
    }

    /// The report on the upstreams, from how many keys each one listed.
    pub fn status(&self, keys: &Vec<Option<usize>>) -> (r: Vec<UpstreamStatus>)
        requires
            keys@.len() == self.upstreams@.len(),
        ensures
            r@.len() == keys@.len(),
            forall|i: int|
                0 <= i < r@.len() ==> (#[trigger] r@[i]).name@ == self.upstreams@[i].name@
                    && r@[i].reachable == (keys@[i] is Some) && r@[i].keys == match keys@[i] {
                    Some(n) => n,
                    None => 0,
                },
    {
        let mut out: Vec<UpstreamStatus> = Vec::new();
        for i in 0..keys.len()
            invariant
                keys@.len() == self.upstreams@.len(),
                out@.len() == i,
                forall|k: int|
                    0 <= k < out@.len() ==> (#[trigger] out@[k]).name@ == self.upstreams@[k].name@
                        && out@[k].reachable == (keys@[k] is Some) && out@[k].keys
                        == match keys@[k] {
                        Some(n) => n,
                        None => 0,
                    },
        {
            let (reachable, n) = match keys[i] {
                Some(n) => (true, n),
                None => (false, 0),
            };
            out.push(
                UpstreamStatus { name: self.upstreams[i].name.clone(), reachable, keys: n },
            );
        }
        out
    }
}

/// The names that the first `n` upstreams advertise.
pub open spec fn all_names(replies: Seq<Option<Vec<String>>>, n: nat) -> Seq<Seq<char>>
    decreases n,
{
    if n == 0 {
        seq![]
    } else {
        all_names(replies, (n - 1) as nat) + match replies[n - 1] {
            Some(names) => texts(names@),
            None => seq![],
        }
    }
}

/// Names with more names behind them, each only once.
pub open spec fn merged(known: Seq<Seq<char>>, more: Seq<Seq<char>>) -> Seq<Seq<char>>
    decreases more.len(),
{
    if more.len() == 0 {
        known
    } else {
        let sofar = merged(known, more.drop_last());
        if sofar.contains(more.last()) {
            sofar
        } else {
            sofar.push(more.last())
        }
    }
}

/// Adds the names that are not there yet.
pub fn merge_names(known: Vec<String>, more: &Vec<String>) -> (r: Vec<String>)
    ensures
        texts(r@) == merged(texts(known@), texts(more@)),
{
    let mut out: Vec<String> = known;
    let ghost all = texts(more@);
    for i in 0..more.len()
        invariant
            all == texts(more@),
            texts(out@) == merged(texts(known@), all.take(i as int)),
    {
        assert(all.take(i + 1).drop_last() =~= all.take(i as int));
        assert(all.take(i + 1).last() == more@[i as int]@);
        if !list_has(&out, more[i].as_str()) {
            let ghost before = texts(out@);
            out.push(more[i].clone());
            assert(texts(out@) =~= before.push(more@[i as int]@));
        }
    }
    assert(all.take(all.len() as int) =~= all);
    out
}

/// Merged names are those of either list, and none was lost or made up.
pub proof fn law_merged_names_are_the_union(
    known: Seq<Seq<char>>,
    more: Seq<Seq<char>>,
    name: Seq<char>,
)
    ensures
        merged(known, more).contains(name) <==> known.contains(name) || more.contains(name),
        known.is_prefix_of(merged(known, more)),
    decreases more.len(),
{
    if more.len() > 0 {
        let before = more.drop_last();
        let sofar = merged(known, before);
        law_merged_names_are_the_union(known, before, name);
        law_merged_names_are_the_union(known, before, more.last());
        assert(more.contains(name) <==> before.contains(name) || more.last() == name) by {
            if more.contains(name) {
                let i = choose|i: int| 0 <= i < more.len() && more[i] == name;
                if i < more.len() - 1 {
                    assert(before[i] == name);
                }
            }
            if before.contains(name) {
                let i = choose|i: int| 0 <= i < before.len() && before[i] == name;
                assert(more[i] == name);
            }
            assert(more[more.len() - 1] == more.last());
        }
        if !sofar.contains(more.last()) {
            let now = sofar.push(more.last());
            assert(now.contains(name) <==> sofar.contains(name) || more.last() == name) by {
                if sofar.contains(name) {
                    let i = choose|i: int| 0 <= i < sofar.len() && sofar[i] == name;
                    assert(now[i] == name);
                }
                assert(now[sofar.len() as int] == more.last());
                if now.contains(name) {
                    let i = choose|i: int| 0 <= i < now.len() && now[i] == name;
                    if i < sofar.len() {
                        assert(sofar[i] == name);
                    }
                }
            }
            assert(now.subrange(0, known.len() as int) =~= sofar.subrange(0, known.len() as int));
        }
    } else {
        assert(known.subrange(0, known.len() as int) =~= known);
    }
}

/// The error of an upstream that took too long.
pub fn timed_out(name: &str, what: &str) -> (r: AgentError)
    ensures
        r@ == ErrorView::Other("upstream "@ + name@ + ": "@ + what@ + " timed out"@),
{
    let mut s: String = cat4("upstream ", name, ": ", what);
    s.append(" timed out");
    AgentError::Other(s)
}

// -------------------------------------------------------------------- laws

proof fn lemma_route_in_listing(listings: Seq<Option<Vec<Identity>>>, n: nat, key: Seq<u8>)
    requires
        n <= listings.len(),
    ensures
        match route_of(all_routes(listings, n), key) {
            Some(i) => i < n && listings[i as int] is Some && listed_keys(
                (listings[i as int]->0)@,
            ).contains(key),
            None => forall|i: int|
                0 <= i < n && (#[trigger] listings[i]) is Some ==> !listed_keys(
                    (listings[i]->0)@,
                ).contains(key),
        },
    decreases n,
{
    if n > 0 {
        let p = (n - 1) as int;
        lemma_route_in_listing(listings, p as nat, key);
        let before = all_routes(listings, p as nat);
        match listings[p] {
            None => {
                assert(before + Seq::<(Seq<u8>, nat)>::empty() =~= before);
            },
            Some(ids) => {
                let ks = listed_keys(ids@);
                let add = ks.map_values(|k: Seq<u8>| (k, p as nat));
                lemma_route_of_concat(before, add, key);
                lemma_route_among(ks, p as nat, key);
            },
        }
    }
}

proof fn lemma_route_of_concat(a: Seq<(Seq<u8>, nat)>, b: Seq<(Seq<u8>, nat)>, key: Seq<u8>)
    ensures
        route_of(a + b, key) == match route_of(b, key) {
            Some(i) => Some(i),
            None => route_of(a, key),
        },
    decreases b.len(),
{
    if b.len() == 0 {
        assert(a + b =~= a);
    } else {
        assert((a + b).drop_last() =~= a + b.drop_last());
        assert((a + b).last() == b.last());
        lemma_route_of_concat(a, b.drop_last(), key);
    }
}

proof fn lemma_route_among(ks: Seq<Seq<u8>>, p: nat, key: Seq<u8>)
    ensures
        route_of(ks.map_values(|k: Seq<u8>| (k, p)), key) == if ks.contains(key) {
            Some(p)
        } else {
            None::<nat>
        },
    decreases ks.len(),
{
    let m = ks.map_values(|k: Seq<u8>| (k, p));
    if ks.len() > 0 {
        let init = ks.drop_last();
        lemma_route_among(init, p, key);
        assert(m.drop_last() =~= init.map_values(|k: Seq<u8>| (k, p)));
        assert(m.last() == (ks.last(), p));
        if ks.last() == key {
            assert(ks[ks.len() - 1] == key);
        } else {
            if init.contains(key) {
                let j = choose|j: int| 0 <= j < init.len() && init[j] == key;
                assert(ks[j] == key);
            }
            if ks.contains(key) {
                let j = choose|j: int| 0 <= j < ks.len() && ks[j] == key;
                assert(init[j] == key);
            }
        }
    }
}

/// After the upstreams were listed, a key is routed to an upstream that
/// listed it, and it is routed somewhere exactly when some upstream did: a
/// dead upstream hides no other's keys.
pub proof fn law_key_goes_to_an_owner(listings: Seq<Option<Vec<Identity>>>, key: Seq<u8>)
    ensures
        match route_of(all_routes(listings, listings.len()), key) {
            Some(i) => i < listings.len() && listings[i as int] is Some && listed_keys(
                (listings[i as int]->0)@,
            ).contains(key),
            None => forall|i: int|
                0 <= i < listings.len() && (#[trigger] listings[i]) is Some ==> !listed_keys(
                    (listings[i]->0)@,
                ).contains(key),
        },
{
    lemma_route_in_listing(listings, listings.len(), key);
}

/// An upstream that does not answer changes nothing in what the others
/// contribute: leaving it silent gives the same list as leaving it out.
pub proof fn law_silent_upstream_adds_nothing(
    listings: Seq<Option<Vec<Identity>>>,
    n: nat,
)
    requires
        n < listings.len(),
        listings[n as int] is None,
    ensures
        all_listed(listings, n + 1) == all_listed(listings, n),
        all_routes(listings, n + 1) == all_routes(listings, n),
{
    assert(all_listed(listings, n) + Seq::<(KeyView, Seq<char>)>::empty() =~= all_listed(
        listings,
        n,
    ));
    assert(all_routes(listings, n) + Seq::<(Seq<u8>, nat)>::empty() =~= all_routes(listings, n));
}

/// A key that more than one upstream lists is asked of the last of them.
pub proof fn law_last_lister_gets_the_key(
    listings: Seq<Option<Vec<Identity>>>,
    key: Seq<u8>,
    n: nat,
    i: nat,
    refreshed: bool,
)
    requires
        i < n <= listings.len(),
        listings[i as int] is Some,
        listed_keys((listings[i as int]->0)@).contains(key),
        forall|j: int|
            i < j < n && (#[trigger] listings[j]) is Some ==> !listed_keys(
                (listings[j]->0)@,
            ).contains(key),
    ensures
        sign_route(all_routes(listings, n), key, refreshed) == RouteView::Ask(i),
    decreases n,
{
    let last = (n - 1) as int;
    let before = all_routes(listings, (n - 1) as nat);
    if last > i {
        law_last_lister_gets_the_key(listings, key, (n - 1) as nat, i, refreshed);
    }
    match listings[last] {
        Some(ids) => {
            let ks = listed_keys(ids@);
            let mine = ks.map_values(|k: Seq<u8>| (k, last as nat));
            lemma_route_of_concat(before, mine, key);
            lemma_route_among(ks, last as nat, key);
        },
        None => {
            assert(before + Seq::<(Seq<u8>, nat)>::empty() =~= before);
        },
    }
}

/// An extension goes to each upstream in turn, and no further once one of
/// them has answered.
pub proof fn law_upstreams_are_asked_in_turn(upstreams: nat, asked: usize)
    ensures
        asked < upstreams ==> forward_step(upstreams, asked, false) == Forward::Ask(asked),
        asked >= upstreams ==> forward_step(upstreams, asked, false) == Forward::Exhausted,
        forward_step(upstreams, asked, true) == Forward::Answered,
{
}

/// What any upstream advertises is among the names, and nothing else is.
pub proof fn law_every_advertised_name_is_known(
    replies: Seq<Option<Vec<String>>>,
    n: nat,
    name: Seq<char>,
)
    requires
        n <= replies.len(),
    ensures
        all_names(replies, n).contains(name) <==> exists|i: int|
            0 <= i < n && (#[trigger] replies[i]) is Some && texts((replies[i]->0)@).contains(name),
    decreases n,
{
    if n > 0 {
        law_every_advertised_name_is_known(replies, (n - 1) as nat, name);
        let before = all_names(replies, (n - 1) as nat);
        let more = match replies[n - 1] {
            Some(names) => texts(names@),
            None => seq![],
        };
        let all = before + more;
        if before.contains(name) {
            let k = choose|k: int| 0 <= k < before.len() && before[k] == name;
            assert(all[k] == name);
        }
        if more.contains(name) {
            let k = choose|k: int| 0 <= k < more.len() && more[k] == name;
            assert(all[before.len() + k] == name);
        }
        if all.contains(name) {
            let k = choose|k: int| 0 <= k < all.len() && all[k] == name;
            if k < before.len() {
                assert(before[k] == name);
            } else {
                assert(more[k - before.len()] == name);
                assert(replies[n - 1] is Some);
            }
        }
    }
}

} // verus!
