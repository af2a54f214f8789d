//! `piggy agent`: an SSH agent whose keys live on smart cards.
//!
//! This part decides how the agent starts: what the options mean together,
//! which cards' keys are loaded, what is printed for the shell, and which
//! loop watches the cards.
use crate::cmd::agent::session::{copy_public_key, keys_view, CachedKey, CachedView};
use crate::cmd::agent::upstream::{
    name_taken, parse_upstream_specs, specs_meaning, upstreams_view, UpstreamPool,
};
use crate::cmd::tool::algorithm_text;
use crate::crypto::{
    hex_text, openssh_key_of, openssh_line_of, ssh_key_from_openssh, ssh_key_line, KeyView, PublicKey,
};
use crate::piv::{is_valid_piv_slot, valid_slot, Guid, PivAlgorithm};
use crate::text::{
    cat2, cat3, cat4, cat5, debug_str, debug_text, dec, dec_int, dec_i64, dec_u64, ends_with, hex2,
    hex2_str, hex_byte, int32_of, parse_hex_byte, parse_i32, same, split, split_on, texts, trim,
    trimmed,
};
use vstd::prelude::*;

pub mod cak;
pub mod card;
pub mod laws;
pub mod load_laws;
pub mod mode;
pub mod pins;
pub mod rebox;
pub mod session;
pub mod state_laws;
pub mod upstream;

verus! {

/// The options of `piggy agent`.
pub struct AgentArgs {
    /// The card to use.
    pub guid: Option<String>,
    /// Serve the keys of all cards.
    pub all_cards: bool,
    /// The key that a card must prove to hold, in OpenSSH format.
    pub cak: Option<String>,
    pub socket: Option<String>,
    /// The slots to serve, separated by commas.
    pub slot_spec: Option<String>,
    /// Stop a running agent.
    pub kill: bool,
    pub debug: u8,
    pub foreground_debug: bool,
    /// Print the keys and exit.
    pub info: bool,
    pub sh_format: bool,
    pub csh_format: bool,
    /// Other agents to speak for, each as `NAME=SOCKET_PATH`.
    pub upstream: Vec<String>,
    pub agent_timeout: u64,
    /// The upstream that takes added keys.
    pub add_new_keys_to: Option<String>,
    /// Serve no keys of cards.
    pub proxy_only: bool,
    pub command: Vec<String>,
}

/// The log level that the options ask for.
pub open spec fn filter_of(debug: u8, foreground: bool) -> Seq<char> {
    if debug == 0 && !foreground {
        "piggy=info"@
    } else if debug <= 1 {
        "piggy=debug"@
    } else {
        "piggy=trace"@
    }
}

/// Decides the log level.
pub fn log_filter(debug: u8, foreground_debug: bool) -> (r: &'static str)
    ensures
        r@ == filter_of(debug, foreground_debug),
{
    if debug == 0 && !foreground_debug {
        "piggy=info"
    } else if debug <= 1 {
        "piggy=debug"
    } else {
        "piggy=trace"
    }
}

// ------------------------------------------------------------------- slots

/// The slot that one entry of the slot list names.
pub open spec fn slot_meaning(entry: Seq<char>) -> Result<u8, Seq<char>> {
    match hex_byte(trimmed(entry)) {
        None => Err("invalid slot in -S spec: "@ + debug_text(trimmed(entry))),
        Some(slot) => if valid_slot(slot) {
            Ok(slot)
        } else {
            Err(
                "unknown PIV slot 0x"@ + hex2(slot, false)
                    + " in -S spec (valid: 9a, 9c, 9d, 9e, 82-95, f9)"@,
            )
        },
    }
}

/// The slots that a list of entries names; the first bad entry is an error.
pub open spec fn slots_meaning(entries: Seq<Seq<char>>) -> Result<Seq<u8>, Seq<char>>
    decreases entries.len(),
{
    if entries.len() == 0 {
        Ok(seq![])
    } else {
        match slots_meaning(entries.drop_last()) {
            Err(e) => Err(e),
            Ok(list) => match slot_meaning(entries.last()) {
                Err(e) => Err(e),
                Ok(slot) => Ok(list.push(slot)),
            },
        }
    }
}

proof fn lemma_bad_slot(entries: Seq<Seq<char>>, k: int)
    requires
        0 <= k <= entries.len(),
        slots_meaning(entries.take(k)) is Err,
    ensures
        slots_meaning(entries) == slots_meaning(entries.take(k)),
    decreases entries.len() - k,
{
    if k < entries.len() {
        assert(entries.take(k + 1).drop_last() =~= entries.take(k));
        lemma_bad_slot(entries, k + 1);
    } else {
        assert(entries.take(k) =~= entries);
    }
}

/// Reads one entry of the slot list.
pub fn parse_slot(entry: &str) -> (r: Result<u8, String>)
    ensures
        match r {
            Ok(s) => slot_meaning(entry@) == Ok::<u8, Seq<char>>(s),
            Err(e) => slot_meaning(entry@) == Err::<u8, Seq<char>>(e@),
        },
{
    let t: String = trim(entry);
    match parse_hex_byte(t.as_str()) {
        None => Err(cat2("invalid slot in -S spec: ", debug_str(t.as_str()).as_str())),
        Some(slot) => {
            if is_valid_piv_slot(slot) {
                Ok(slot)
            } else {
                Err(
                    cat3(
                        "unknown PIV slot 0x",
                        hex2_str(slot, false).as_str(),
                        " in -S spec (valid: 9a, 9c, 9d, 9e, 82-95, f9)",
                    ),
                )
            }
        },
    }
}

/// Reads the slot list.
pub fn parse_slot_spec(spec: &str) -> (r: Result<Vec<u8>, String>)
    ensures
        match r {
            Ok(list) => slots_meaning(split_on(spec@, ',')) == Ok::<Seq<u8>, Seq<char>>(list@),
            Err(e) => slots_meaning(split_on(spec@, ',')) == Err::<Seq<u8>, Seq<char>>(e@),
        },
{
    let entries: Vec<String> = split(spec, ',');
    let ghost all = texts(entries@);
    let mut out: Vec<u8> = Vec::new();
    for i in 0..entries.len()
        invariant
            all == texts(entries@),
            all == split_on(spec@, ','),
            slots_meaning(all.take(i as int)) == Ok::<Seq<u8>, Seq<char>>(out@),
    {
        proof {
            assert(all.take(i + 1).drop_last() =~= all.take(i as int));
            assert(all.take(i + 1).last() == entries@[i as int]@);
        }
        match parse_slot(entries[i].as_str()) {
            Err(e) => {
                proof {
                    lemma_bad_slot(all, i + 1);
                }
                return Err(e);
            },
            Ok(slot) => {
                out.push(slot);
            },
        }
    }
    assert(all.take(entries@.len() as int) =~= all);
    Ok(out)
}

// ----------------------------------------------------------------- startup

/// What selects the keys to load. It is kept, so that the same selection
/// can be made again later.
pub struct KeyLoadConfig {
    pub guid_filter: Option<String>,
    pub all_cards: bool,
    pub allowed_slots: Option<Vec<u8>>,
    pub cak: Option<PublicKey>,
}

/// What the options come to.
pub struct RunPlan {
    pub config: KeyLoadConfig,
    pub pool: Option<UpstreamPool>,
    /// Whether the cards are looked at.
    pub load_cards: bool,
}

/// What the agent is started for.
pub enum Startup {
    /// Stop a running agent.
    Kill,
    /// The options make no sense; why.
    Refuse(String),
    Run(RunPlan),
}

/// The slots that the options select.
pub open spec fn selected_slots(args: AgentArgs) -> Result<Option<Seq<u8>>, Seq<char>> {
    match args.slot_spec {
        None => Ok(None),
        Some(spec) => match slots_meaning(split_on(spec@, ',')) {
            Ok(list) => Ok(Some(list)),
            Err(e) => Err(e),
        },
    }
}

/// What is wrong with the options, looked at in order: the slots, the key
/// that cards must prove to hold, the upstreams, and the upstream for added
/// keys, which only counts where upstreams are configured.
pub open spec fn startup_flaw(
    args: AgentArgs,
    cak: Option<Result<KeyView, Seq<char>>>,
) -> Option<Seq<char>> {
    match selected_slots(args) {
        Err(e) => Some(e),
        Ok(_) => match cak {
            Some(Err(e)) => Some("invalid -K Card Authentication Key: "@ + e),
            _ => match specs_meaning(texts(args.upstream@)) {
                Err(e) => Some(e),
                Ok(list) => match args.add_new_keys_to {
                    Some(name) => if list.len() > 0 && !name_taken(list, name@) {
                        Some(
                            "--add-new-keys-to "@ + debug_text(name@)
                                + " matches no --upstream name"@,
                        )
                    } else {
                        None
                    },
                    None => None,
                },
            },
        },
    }
}

/// Whether a plan is what the options come to.
pub open spec fn plan_follows(
    args: AgentArgs,
    cak: Option<Result<KeyView, Seq<char>>>,
    p: RunPlan,
) -> bool {
    let list = specs_meaning(texts(args.upstream@))->Ok_0;
    &&& p.config.guid_filter == args.guid
    &&& p.config.all_cards == args.all_cards
    &&& selected_slots(args) == Ok::<Option<Seq<u8>>, Seq<char>>(
        match p.config.allowed_slots {
            Some(s) => Some(s@),
            None => None,
        },
    )
    &&& match p.config.cak {
        Some(k) => cak == Some(Ok::<KeyView, Seq<char>>(k@)),
        None => cak is None,
    }
    &&& p.load_cards == !args.proxy_only
    &&& p.pool is None <==> list.len() == 0
    &&& p.pool matches Some(pool) ==> {
        &&& pool.wf()
        &&& upstreams_view(pool.upstreams@) == list
        &&& pool.timeout_secs == args.agent_timeout
        &&& pool.known_keys@.len() == 0
        &&& match args.add_new_keys_to {
            Some(name) => pool.add_new_keys_to is Some && list[pool.add_new_keys_to->0 as int].0
                == name@,
            None => pool.add_new_keys_to is None,
        }
    }
}

/// The key that cards must prove to hold, as it was read.
pub open spec fn cak_view(cak: Option<Result<PublicKey, String>>) -> Option<
    Result<KeyView, Seq<char>>,
> {
    match cak {
        None => None,
        Some(Ok(k)) => Some(Ok(k@)),
        Some(Err(e)) => Some(Err(e@)),
    }
}

/// Decides what the options come to, once the key that cards must prove to
/// hold was read.
pub fn plan_startup_with(args: &AgentArgs, cak: Option<Result<PublicKey, String>>) -> (r: Startup)
    requires
        cak is Some <==> args.cak is Some,
    ensures
        if args.kill {
            r is Kill
        } else {
            match startup_flaw(*args, cak_view(cak)) {
                Some(e) => r matches Startup::Refuse(said) && said@ == e,
                None => r matches Startup::Run(p) && plan_follows(*args, cak_view(cak), p),
            }
        },
{
    if args.kill {
        return Startup::Kill;
    }
    let allowed_slots: Option<Vec<u8>> = match &args.slot_spec {
        None => None,
        Some(spec) => match parse_slot_spec(spec.as_str()) {
            Err(e) => return Startup::Refuse(e),
            Ok(list) => Some(list),
        },
    };
    let cak_key: Option<PublicKey> = match cak {
        None => None,
        Some(Err(e)) => return Startup::Refuse(
            cat2("invalid -K Card Authentication Key: ", e.as_str()),
        ),
        Some(Ok(k)) => Some(k),
    };
    let upstreams = match parse_upstream_specs(args.upstream.as_slice()) {
        Err(e) => return Startup::Refuse(e),
        Ok(list) => list,
    };
    let pool: Option<UpstreamPool> = if upstreams.len() == 0 {
        None
    } else {
        let fresh: UpstreamPool = UpstreamPool::new(upstreams, args.agent_timeout);
        match &args.add_new_keys_to {
            None => Some(fresh),
            Some(name) => match fresh.with_add_new_keys_to(name.as_str()) {
                Err(e) => return Startup::Refuse(e),
                Ok(p) => {
                    assert(name_taken(upstreams_view(p.upstreams@), name@));
                    Some(p)
                },
            },
        }
    };
    Startup::Run(
        RunPlan {
            config: KeyLoadConfig {
                guid_filter: args.guid.clone(),
                all_cards: args.all_cards,
                allowed_slots,
                cak: cak_key,
            },
            pool,
            load_cards: !args.proxy_only,
        },
    )
}

/// Decides what the options come to.
pub fn run(args: &AgentArgs) -> (r: Startup)
    ensures
        ({
            let cak = match args.cak {
                None => None,
                Some(line) => Some(openssh_key_of(line@)),
            };
            if args.kill {
                r is Kill
            } else {
                match startup_flaw(*args, cak) {
                    Some(e) => r matches Startup::Refuse(said) && said@ == e,
                    None => r matches Startup::Run(p) && plan_follows(*args, cak, p),
                }
            }
        }),
{
    let cak: Option<Result<PublicKey, String>> = match &args.cak {
        None => None,
        Some(line) => Some(ssh_key_from_openssh(line.as_str())),
    };
    plan_startup_with(args, cak)
}

// ------------------------------------------------------------ loading keys

/// A key found in a slot.
pub struct SlotInfo {
    pub id: u8,
    pub algorithm: PivAlgorithm,
    pub public_key: PublicKey,
}

/// An attached card with the keys that could be read from it.
pub struct TokenInfo {
    pub guid: Guid,
    pub short_id: String,
    pub reader_name: String,
    pub slots: Vec<SlotInfo>,
}

/// Whether the options select the card: by its full or its short name, or
/// because they name none.
pub open spec fn card_selected(t: TokenInfo, config: KeyLoadConfig) -> bool {
    match config.guid_filter {
        None => true,
        Some(f) => f@ == hex_text(t.guid@, true) || f@ == t.short_id@,
    }
}

/// Whether the options select the slot.
pub open spec fn slot_selected(id: u8, config: KeyLoadConfig) -> bool {
    match config.allowed_slots {
        None => true,
        Some(list) => list@.contains(id),
    }
}

/// How a key of a card is served.
pub open spec fn served_key(t: TokenInfo, s: SlotInfo) -> CachedView {
    CachedView {
        guid: t.guid@,
        reader_name: t.reader_name@,
        slot_id: s.id,
        algorithm: s.algorithm,
        public_key: s.public_key@,
        comment: "PIV_slot_"@ + hex2(s.id, true) + " "@ + t.short_id@,
    }
}

/// The keys of the card's first `n` slots that the options select.
pub open spec fn card_keys(t: TokenInfo, config: KeyLoadConfig, n: nat) -> Seq<CachedView>
    decreases n,
{
    if n == 0 {
        seq![]
    } else {
        let before = card_keys(t, config, (n - 1) as nat);
        let s = t.slots@[n - 1];
        if slot_selected(s.id, config) {
            before.push(served_key(t, s))
        } else {
            before
        }
    }
}

/// The keys to serve from the cards from `i` on, and the first card that
/// is served. `authentic` tells which cards proved to hold the configured
/// key; without one, none has to. Unless all cards are wanted, the first
/// one that qualifies is the only one.
pub open spec fn load_from(
    tokens: Seq<TokenInfo>,
    config: KeyLoadConfig,
    authentic: Seq<bool>,
    i: int,
) -> (Seq<CachedView>, Option<Seq<u8>>)
    decreases tokens.len() - i,
{
    if i >= tokens.len() {
        (seq![], None)
    } else if !card_selected(tokens[i], config) || (config.cak is Some && !authentic[i]) {
        load_from(tokens, config, authentic, i + 1)
    } else {
        let mine = card_keys(tokens[i], config, tokens[i].slots@.len());
        if config.all_cards {
            (
                mine + load_from(tokens, config, authentic, i + 1).0,
                Some(tokens[i].guid@),
            )
        } else {
            (mine, Some(tokens[i].guid@))
        }
    }
}

fn selects_card(t: &TokenInfo, config: &KeyLoadConfig) -> (r: bool)
    ensures
        r == card_selected(*t, *config),
{
    match &config.guid_filter {
        None => true,
        Some(f) => same(f.as_str(), t.guid.to_hex().as_str()) || same(
            f.as_str(),
            t.short_id.as_str(),
        ),
    }
}

fn selects_slot(id: u8, config: &KeyLoadConfig) -> (r: bool)
    ensures
        r == slot_selected(id, *config),
{
    match &config.allowed_slots {
        None => true,
        Some(list) => {
            for i in 0..list.len()
                invariant
                    config.allowed_slots == Some(*list),
                    forall|j: int| 0 <= j < i ==> list@[j] != id,
            {
                if list[i] == id {
                    assert(list@[i as int] == id);
                    return true;
                }
            }
            false
        },
    }
}

fn add_token_keys(out: &mut Vec<CachedKey>, t: &TokenInfo, config: &KeyLoadConfig)
    ensures
        keys_view(final(out)@) == keys_view(old(out)@) + card_keys(*t, *config, t.slots@.len()),
{
    let ghost start = keys_view(out@);
    assert(start + card_keys(*t, *config, 0) =~= start);
    for i in 0..t.slots.len()
        invariant
            keys_view(out@) == start + card_keys(*t, *config, i as nat),
    {
        let ghost before = keys_view(out@);
        let s: &SlotInfo = &t.slots[i];
        if selects_slot(s.id, config) {
            out.push(
                CachedKey {
                    guid: t.guid,
                    reader_name: t.reader_name.clone(),
                    slot_id: s.id,
                    algorithm: s.algorithm,
                    public_key: copy_public_key(&s.public_key),
                    comment: cat4(
                        "PIV_slot_",
                        hex2_str(s.id, true).as_str(),
                        " ",
                        t.short_id.as_str(),
                    ),
                },
            );
            assert(keys_view(out@) =~= before.push(served_key(*t, *s)));
            assert(start + card_keys(*t, *config, (i + 1) as nat) =~= (start + card_keys(
                *t,
                *config,
                i as nat,
            )).push(served_key(*t, *s)));
        }
    }
}

/// Loading the keys card by card. Where a key is configured that cards must
/// prove to hold, a card is asked for the proof only when its turn comes.
pub struct KeyLoad {
    pub at: usize,
    pub keys: Vec<CachedKey>,
    pub primary: Option<Guid>,
    pub done: bool,
}

impl KeyLoad {
    /// What the load comes to from here on.
    pub open spec fn outcome(
        self,
        tokens: Seq<TokenInfo>,
        config: KeyLoadConfig,
        authentic: Seq<bool>,
    ) -> (Seq<CachedView>, Option<Seq<u8>>) {
        let rest = if self.done {
            (Seq::<CachedView>::empty(), None::<Seq<u8>>)
        } else {
            load_from(tokens, config, authentic, self.at as int)
        };
        (
            keys_view(self.keys@) + rest.0,
            match self.primary {
                Some(g) => Some(g@),
                None => rest.1,
            },
        )
    }

    /// Before the first card.
    pub fn new() -> (r: KeyLoad)
        ensures
            r.at == 0 && !r.done,
            forall|tokens: Seq<TokenInfo>, config: KeyLoadConfig, authentic: Seq<bool>| #[trigger]
                r.outcome(tokens, config, authentic) == load_from(tokens, config, authentic, 0),
    {
        let r: KeyLoad = KeyLoad { at: 0, keys: Vec::new(), primary: None, done: false };
        assert forall|tokens: Seq<TokenInfo>, config: KeyLoadConfig, authentic: Seq<bool>| #[trigger]
            r.outcome(tokens, config, authentic) == load_from(tokens, config, authentic, 0) by {
            assert(r.outcome(tokens, config, authentic).0 =~= load_from(
                tokens,
                config,
                authentic,
                0,
            ).0);
        }
        r
    }

    /// Takes the card whose turn it is.
    fn take_card(&mut self, tokens: &Vec<TokenInfo>, config: &KeyLoadConfig)
        requires
            !old(self).done,
            old(self).at < tokens@.len(),
            card_selected(tokens@[old(self).at as int], *config),
        ensures
            final(self).done == !config.all_cards,
            final(self).at == old(self).at + 1,
            forall|authentic: Seq<bool>|
                config.cak is None || authentic[old(self).at as int] ==> (
                #[trigger] final(self).outcome(tokens@, *config, authentic)) == old(self).outcome(
                    tokens@,
                    *config,
                    authentic,
                ),
    {
        let ghost start = *self;
        let i: usize = self.at;
        let count: usize = tokens.len();
        assert(i < count);
        add_token_keys(&mut self.keys, &tokens[i], config);
        if self.primary.is_none() {
            self.primary = Some(tokens[i].guid);
        }
        if !config.all_cards {
            self.done = true;
        }
        self.at = i + 1;
        proof {
            let mine = card_keys(tokens@[i as int], *config, tokens@[i as int].slots@.len());
            assert forall|authentic: Seq<bool>|
                config.cak is None || authentic[i as int] implies (#[trigger] self.outcome(
                tokens@,
                *config,
                authentic,
            )) == start.outcome(tokens@, *config, authentic) by {
                assert(self.outcome(tokens@, *config, authentic).0 =~= start.outcome(
                    tokens@,
                    *config,
                    authentic,
                ).0);
            }
        }
    }

    /// Goes on until a card has to prove itself, whose place is returned,
    /// or to the end.
    pub fn advance(&mut self, tokens: &Vec<TokenInfo>, config: &KeyLoadConfig) -> (r: Option<
        usize,
    >)
        requires
            old(self).at <= tokens@.len(),
        ensures
            final(self).at <= tokens@.len(),
            forall|authentic: Seq<bool>| (#[trigger] final(self).outcome(
                tokens@,
                *config,
                authentic,
            )) == old(self).outcome(tokens@, *config, authentic),
            match r {
                Some(i) => i == final(self).at && i < tokens@.len() && !final(self).done
                    && config.cak is Some && card_selected(tokens@[i as int], *config),
                None => final(self).done,
            },
    {
        let ghost start = *self;
        while !self.done && self.at < tokens.len()
            invariant
                self.at <= tokens@.len(),
                start == *old(self),
                forall|authentic: Seq<bool>| (#[trigger] self.outcome(tokens@, *config, authentic))
                    == start.outcome(tokens@, *config, authentic),
            decreases tokens@.len() - self.at,
        {
            let ghost before = *self;
            let i: usize = self.at;
            if !selects_card(&tokens[i], config) {
                self.at = i + 1;
                proof {
                    assert forall|authentic: Seq<bool>| (#[trigger] self.outcome(
                        tokens@,
                        *config,
                        authentic,
                    )) == start.outcome(tokens@, *config, authentic) by {
                        assert(before.outcome(tokens@, *config, authentic) == start.outcome(
                            tokens@,
                            *config,
                            authentic,
                        ));
                    }
                }
            } else if config.cak.is_some() {
                return Some(i);
            } else {
                self.take_card(tokens, config);
                proof {
                    assert forall|authentic: Seq<bool>| (#[trigger] self.outcome(
                        tokens@,
                        *config,
                        authentic,
                    )) == start.outcome(tokens@, *config, authentic) by {
                        assert(before.outcome(tokens@, *config, authentic) == start.outcome(
                            tokens@,
                            *config,
                            authentic,
                        ));
                    }
                }
            }
        }
        let ghost before = *self;
        self.done = true;
        proof {
            assert forall|authentic: Seq<bool>| (#[trigger] self.outcome(
                tokens@,
                *config,
                authentic,
            )) == start.outcome(tokens@, *config, authentic) by {
                assert(before.outcome(tokens@, *config, authentic) == start.outcome(
                    tokens@,
                    *config,
                    authentic,
                ));
                assert(load_from(tokens@, *config, authentic, before.at as int).0.len() == 0
                    || before.done);
                assert(self.outcome(tokens@, *config, authentic).0 =~= before.outcome(
                    tokens@,
                    *config,
                    authentic,
                ).0);
            }
        }
        None
    }

    /// Takes the outcome of a card's proof.
    pub fn authenticated(&mut self, tokens: &Vec<TokenInfo>, config: &KeyLoadConfig, ok: bool)
        requires
            !old(self).done,
            old(self).at < tokens@.len(),
            config.cak is Some,
            card_selected(tokens@[old(self).at as int], *config),
        ensures
            final(self).at == old(self).at + 1,
            forall|authentic: Seq<bool>|
                authentic[old(self).at as int] == ok ==> (#[trigger] final(self).outcome(
                    tokens@,
                    *config,
                    authentic,
                )) == old(self).outcome(tokens@, *config, authentic),
    {
        let count: usize = tokens.len();
        assert(self.at < count);
        if ok {
            self.take_card(tokens, config);
        } else {
            self.at = self.at + 1;
        }
    }
}

/// A finished load holds what the cards came to.
pub proof fn law_finished_load_is_the_outcome(
    load: KeyLoad,
    tokens: Seq<TokenInfo>,
    config: KeyLoadConfig,
    authentic: Seq<bool>,
)
    requires
        load.done,
        load.outcome(tokens, config, authentic) == load_from(tokens, config, authentic, 0),
    ensures
        keys_view(load.keys@) == load_from(tokens, config, authentic, 0).0,
        match load.primary {
            Some(g) => load_from(tokens, config, authentic, 0).1 == Some(g@),
            None => load_from(tokens, config, authentic, 0).1 is None,
        },
{
    assert(keys_view(load.keys@) + Seq::<CachedView>::empty() =~= keys_view(load.keys@));
}

/// A card that did not prove to hold the configured key has none of its
/// keys served.
pub proof fn law_unproven_card_is_not_served(
    tokens: Seq<TokenInfo>,
    config: KeyLoadConfig,
    authentic: Seq<bool>,
    i: int,
    k: int,
)
    requires
        config.cak is Some,
        0 <= i,
        0 <= k < load_from(tokens, config, authentic, i).0.len(),
    ensures
        exists|j: int|
            i <= j < tokens.len() && authentic[j] && card_selected(#[trigger] tokens[j], config)
                && tokens[j].guid@ == load_from(tokens, config, authentic, i).0[k].guid,
    decreases tokens.len() - i,
{
    if i < tokens.len() {
        let all = load_from(tokens, config, authentic, i).0;
        if !card_selected(tokens[i], config) || !authentic[i] {
            law_unproven_card_is_not_served(tokens, config, authentic, i + 1, k);
        } else {
            let mine = card_keys(tokens[i], config, tokens[i].slots@.len());
            if k < mine.len() {
                lemma_card_keys(tokens[i], config, tokens[i].slots@.len(), k);
                assert(all[k] == mine[k]);
            } else {
                law_unproven_card_is_not_served(tokens, config, authentic, i + 1, k - mine.len());
            }
        }
    }
}

proof fn lemma_card_keys(t: TokenInfo, config: KeyLoadConfig, n: nat, k: int)
    requires
        n <= t.slots@.len(),
        0 <= k < card_keys(t, config, n).len(),
    ensures
        card_keys(t, config, n)[k].guid == t.guid@,
        slot_selected(card_keys(t, config, n)[k].slot_id, config),
    decreases n,
{
    if n > 0 {
        let before = card_keys(t, config, (n - 1) as nat);
        if k < before.len() {
            lemma_card_keys(t, config, (n - 1) as nat, k);
        }
    }
}

// ------------------------------------------------------------------ output

/// The name of an algorithm in the key list.
pub fn algorithm_name(a: PivAlgorithm) -> (r: &'static str)
    ensures
        r@ == algorithm_text(a),
{
    match a {
        PivAlgorithm::EcP256 => "EcP256",
        PivAlgorithm::EcP384 => "EcP384",
        PivAlgorithm::Rsa1024 => "Rsa1024",
        PivAlgorithm::Rsa2048 => "Rsa2048",
        PivAlgorithm::Ed25519 => "Ed25519",
    }
}

/// One line of the key list: the slot, the algorithm and the key.
pub fn info_line(slot: u8, algorithm: &str, openssh: &str) -> (r: String)
    ensures
        r@ == hex2(slot, true) + " "@ + algorithm@ + " "@ + openssh@,
{
    cat5(hex2_str(slot, true).as_str(), " ", algorithm, " ", openssh)
}

/// How a key is listed; one that cannot be written is left out of its line.
pub open spec fn listed(k: CachedView) -> Seq<char> {
    hex2(k.slot_id, true) + " "@ + algorithm_text(k.algorithm) + " "@ + match openssh_line_of(
        k.public_key.blob,
        ""@,
    ) {
        Ok(line) => line,
        Err(_) => ""@,
    }
}

/// The list of the keys, line by line.
pub fn key_list(keys: &Vec<CachedKey>) -> (r: Vec<String>)
    ensures
        texts(r@) == keys_view(keys@).map_values(|k: CachedView| listed(k)),
{
    let ghost all = keys_view(keys@).map_values(|k: CachedView| listed(k));
    let mut out: Vec<String> = Vec::new();
    assert(texts(out@) =~= all.take(0));
    for i in 0..keys.len()
        invariant
            all == keys_view(keys@).map_values(|k: CachedView| listed(k)),
            texts(out@) == all.take(i as int),
    {
        let k: &CachedKey = &keys[i];
        let openssh: String = match ssh_key_line(k.public_key.blob.as_slice(), "") {
            Ok(line) => line,
            Err(_) => "".to_owned(),
        };
        let ghost before = texts(out@);
        out.push(info_line(k.slot_id, algorithm_name(k.algorithm), openssh.as_str()));
        assert(all[i as int] == listed(k@));
        assert(texts(out@) =~= before.push(listed(k@)));
        assert(all.take(i + 1) =~= all.take(i as int).push(all[i as int]));
    }
    assert(all.take(all.len() as int) =~= all);
    out
}

/// Whether the output is for a C shell.
pub open spec fn csh_wanted(csh_format: bool, sh_format: bool, shell: Option<Seq<char>>) -> bool {
    csh_format || (!sh_format && shell is Some && "csh"@.is_suffix_of(shell->0))
}

/// Whether the output is for a C shell: where it is asked for, or where no
/// other is and the user's shell is one.
pub fn use_csh(csh_format: bool, sh_format: bool, shell: &Option<String>) -> (r: bool)
    ensures
        r == csh_wanted(csh_format, sh_format, crate::text::opt_text(*shell)),
        r == (csh_format || (!sh_format && shell is Some && "csh"@.is_suffix_of(shell->0@))),
{
    if csh_format {
        return true;
    }
    if sh_format {
        return false;
    }
    match shell {
        Some(s) => ends_with(s.as_str(), "csh"),
        None => false,
    }
}

/// The shell commands that make the agent known.
pub open spec fn shell_block(csh: bool, socket: Seq<char>, pid: nat) -> Seq<char> {
    let p = dec(pid);
    if csh {
        "setenv SSH_AUTH_SOCK "@ + socket + ";\nsetenv SSH_AGENT_PID "@ + p
            + ";\necho Agent pid "@ + p + ";\n"@
    } else {
        "SSH_AUTH_SOCK="@ + socket + "; export SSH_AUTH_SOCK;\nSSH_AGENT_PID="@ + p
            + "; export SSH_AGENT_PID;\necho Agent pid "@ + p + ";\n"@
    }
}

/// Writes the shell commands that make the agent known.
pub fn shell_commands(csh: bool, socket: &str, pid: u32) -> (r: String)
    ensures
        r@ == shell_block(csh, socket@, pid as nat),
{
    let p: String = dec_u64(pid as u64);
    let mut s: String = if csh {
        cat4("setenv SSH_AUTH_SOCK ", socket, ";\nsetenv SSH_AGENT_PID ", p.as_str())
    } else {
        cat4("SSH_AUTH_SOCK=", socket, "; export SSH_AUTH_SOCK;\nSSH_AGENT_PID=", p.as_str())
    };
    if csh {
        s.append(";\necho Agent pid ");
    } else {
        s.append("; export SSH_AGENT_PID;\necho Agent pid ");
    }
    s.append(p.as_str());
    s.append(";\n");
    s
}

/// The process to stop.
pub fn kill_target(variable: Option<String>) -> (r: Result<i32, String>)
    ensures
        match variable {
            None => r is Err && r->Err_0@ == "SSH_AGENT_PID not set"@,
            Some(v) => match int32_of(v@) {
                Some(pid) => r is Ok && r->Ok_0 == pid,
                None => r is Err && r->Err_0@ == "invalid SSH_AGENT_PID"@,
            },
        },
{
    match variable {
        None => Err("SSH_AGENT_PID not set".to_owned()),
        Some(v) => match parse_i32(v.as_str()) {
            Some(pid) => Ok(pid),
            None => Err("invalid SSH_AGENT_PID".to_owned()),
        },
    }
}

/// The shell commands that forget the agent.
pub fn kill_commands(pid: i32) -> (r: String)
    ensures
        r@ == "unset SSH_AUTH_SOCK;\nunset SSH_AGENT_PID;\necho Agent pid "@ + dec_int(pid as int)
            + " killed;\n"@,
{
    cat3(
        "unset SSH_AUTH_SOCK;\nunset SSH_AGENT_PID;\necho Agent pid ",
        dec_i64(pid as i64).as_str(),
        " killed;\n",
    )
}

// -------------------------------------------------------------- the socket

/// What connecting to a socket that is in use came to.
#[derive(Clone, Copy, Debug, PartialEq, Eq, Structural)]
pub enum Contact {
    Answered,
    Refused,
    Failed,
}

/// Whether a socket that is in use may be taken over: only where nothing
/// listens on it, never from a live agent.
pub fn bind_reclaiming_stale(contact: Contact) -> (r: bool)
    ensures
        r == (contact is Refused),
{
    match contact {
        Contact::Refused => true,
        _ => false,
    }
}

/// The loop that watches the cards.
#[derive(Clone, Copy, Debug, PartialEq, Eq, Structural)]
pub enum Watch {
    /// Watch the card that is served; it has to keep proving itself.
    Reauthenticate,
    /// Watch that the card that is served stays.
    Presence,
    /// Look for a card until there is one.
    Recover,
    /// There will never be a card.
    Nothing,
}

/// How the cards are watched.
pub open spec fn watch_of(has_primary: bool, proxy_only: bool, has_cak: bool) -> Watch {
    if has_primary && has_cak {
        Watch::Reauthenticate
    } else if has_primary {
        Watch::Presence
    } else if proxy_only {
        Watch::Nothing
    } else {
        Watch::Recover
    }
}

/// Decides how the cards are watched. An agent that found no card when it
/// started keeps looking, unless it is not to serve cards at all.
pub fn spawn_probe_loop(has_primary: bool, proxy_only: bool, has_cak: bool) -> (r: Watch)
    ensures
        r == watch_of(has_primary, proxy_only, has_cak),
        r == if has_primary {
            if has_cak {
                Watch::Reauthenticate
            } else {
                Watch::Presence
            }
        } else if proxy_only {
            Watch::Nothing
        } else {
            Watch::Recover
        },
{
    if has_primary {
        if has_cak {
            Watch::Reauthenticate
        } else {
            Watch::Presence
        }
    } else if proxy_only {
        Watch::Nothing
    } else {
        Watch::Recover
    }
}

} // verus!
