//! `piggy box`: encrypted streams and the templates that name who can open
//! them. Keys and ciphers are elsewhere; here are the command line, the
//! division of a stream into chunks and of its file into frames, what a
//! template is made from and how it is shown.
use crate::agent_client::piggy_auth_sock_override;
use crate::cmd::agent::TokenInfo;
use crate::cmd::tool::algorithm_text;
use crate::crypto::{ec_convert, hex_text, law_hex_round_trip, sec1_point, EcCurve, EcStep, PublicKey};
use crate::piv::{guid_flaw, is_guid, Guid, PivAlgorithm, KEY_MANAGEMENT_SLOT};
use crate::store_path::{join_path, path_joined};
use crate::text::{
    cat2, cat3, cat4, cat5, dec, dec_u64, dec_usize, hex2, hex2_str, join, joined, opt_text, same,
    texts,
};
use crate::wire::{
    be32, field_at, find_field, lemma_be32_len, lemma_be32_round_trip, lemma_field_of_string,
    ssh_string,
};
use vstd::prelude::*;

verus! {

// ------------------------------------------------------------ command line

/// What an invocation asks for.
pub enum BoxAction {
    /// No such subcommand; what was attempted.
    Usage(String),
    /// The arguments make no sense; what is printed.
    Reject(String),
    Encrypt { template: String },
    Decrypt { file: Option<String> },
    CreateTemplate { name: String, guid: Guid },
    ShowTemplate { file: Option<String> },
}

/// [`BoxAction`] over plain text.
pub enum BoxView {
    Usage(Seq<char>),
    Reject(Seq<char>),
    Encrypt(Seq<char>),
    Decrypt(Option<Seq<char>>),
    CreateTemplate(Seq<char>, Seq<u8>),
    ShowTemplate(Option<Seq<char>>),
}

impl View for BoxAction {
    type V = BoxView;

    open spec fn view(&self) -> BoxView {
        match self {
            BoxAction::Usage(s) => BoxView::Usage(s@),
            BoxAction::Reject(s) => BoxView::Reject(s@),
            BoxAction::Encrypt { template } => BoxView::Encrypt(template@),
            BoxAction::Decrypt { file } => BoxView::Decrypt(opt_text(*file)),
            BoxAction::CreateTemplate { name, guid } => BoxView::CreateTemplate(name@, guid@),
            BoxAction::ShowTemplate { file } => BoxView::ShowTemplate(opt_text(*file)),
        }
    }
}

/// The argument at `i`, if there is one.
pub open spec fn arg_at(args: Seq<Seq<char>>, i: int) -> Option<Seq<char>> {
    if i < args.len() {
        Some(args[i])
    } else {
        None
    }
}

/// What `tpl create` asks for, with its arguments from the third on.
pub open spec fn create_meaning(args: Seq<Seq<char>>) -> BoxView {
    if args.len() > 2 && args[2] == "-i"@ {
        BoxView::Reject("piggy box tpl create: interactive mode not yet implemented"@)
    } else if args.len() < 6 {
        BoxView::Reject(
            "piggy box tpl create: usage: piggy box tpl create <name> primary local-guid <guid>"@,
        )
    } else if args[3] != "primary"@ {
        BoxView::Reject("piggy box tpl create: only 'primary' config type supported"@)
    } else if args[4] != "local-guid"@ {
        BoxView::Reject("piggy box tpl create: only 'local-guid' source supported"@)
    } else if !is_guid(args[5]) {
        BoxView::Reject("piggy box tpl create: invalid GUID: "@ + guid_flaw(args[5]))
    } else {
        BoxView::CreateTemplate(args[2], crate::crypto::hex_bytes(args[5]))
    }
}

/// What a command line asks for: a type and an operation, then arguments.
pub open spec fn box_meaning(args: Seq<Seq<char>>) -> BoxView {
    if args.len() >= 2 && args[0] == "stream"@ && args[1] == "encrypt"@ {
        if args.len() > 2 {
            BoxView::Encrypt(args[2])
        } else {
            BoxView::Reject("piggy box stream encrypt: template path required"@)
        }
    } else if args.len() >= 2 && args[0] == "stream"@ && args[1] == "decrypt"@ {
        BoxView::Decrypt(arg_at(args, 2))
    } else if args.len() >= 2 && args[0] == "tpl"@ && args[1] == "create"@ {
        create_meaning(args)
    } else if args.len() >= 2 && args[0] == "tpl"@ && args[1] == "show"@ {
        BoxView::ShowTemplate(arg_at(args, 2))
    } else {
        BoxView::Usage(joined(args, " "@))
    }
}

fn get_arg(args: &Vec<String>, i: usize) -> (r: Option<String>)
    ensures
        opt_text(r) == arg_at(texts(args@), i as int),
{
    if i < args.len() {
        Some(args[i].clone())
    } else {
        None
    }
}

fn is_arg(args: &Vec<String>, i: usize, word: &str) -> (r: bool)
    ensures
        r == (i < args@.len() && texts(args@)[i as int] == word@),
{
    if i < args.len() {
        same(args[i].as_str(), word)
    } else {
        false
    }
}

fn dispatch_tpl_create(args: &Vec<String>) -> (r: BoxAction)
    ensures
        r@ == create_meaning(texts(args@)),
{
    if is_arg(args, 2, "-i") {
        return BoxAction::Reject(
            "piggy box tpl create: interactive mode not yet implemented".to_owned(),
        );
    }
    if args.len() < 6 {
        return BoxAction::Reject(
            "piggy box tpl create: usage: piggy box tpl create <name> primary local-guid <guid>".to_owned(),
        );
    }
    if !is_arg(args, 3, "primary") {
        return BoxAction::Reject(
            "piggy box tpl create: only 'primary' config type supported".to_owned(),
        );
    }
    if !is_arg(args, 4, "local-guid") {
        return BoxAction::Reject(
            "piggy box tpl create: only 'local-guid' source supported".to_owned(),
        );
    }
    assert(texts(args@)[5] == args@[5]@);
    assert(texts(args@)[2] == args@[2]@);
    match Guid::from_hex(args[5].as_str()) {
        Err(e) => BoxAction::Reject(cat2("piggy box tpl create: invalid GUID: ", e.as_str())),
        Ok(guid) => BoxAction::CreateTemplate { name: args[2].clone(), guid },
    }
}

/// Decides what a command line asks for.
pub fn run(args: &Vec<String>) -> (r: BoxAction)
    ensures
        r@ == box_meaning(texts(args@)),
{
    if args.len() >= 2 && is_arg(args, 0, "stream") && is_arg(args, 1, "encrypt") {
        match get_arg(args, 2) {
            Some(template) => BoxAction::Encrypt { template },
            None => BoxAction::Reject(
                "piggy box stream encrypt: template path required".to_owned(),
            ),
        }
    } else if args.len() >= 2 && is_arg(args, 0, "stream") && is_arg(args, 1, "decrypt") {
        BoxAction::Decrypt { file: get_arg(args, 2) }
    } else if args.len() >= 2 && is_arg(args, 0, "tpl") && is_arg(args, 1, "create") {
        dispatch_tpl_create(args)
    } else if args.len() >= 2 && is_arg(args, 0, "tpl") && is_arg(args, 1, "show") {
        BoxAction::ShowTemplate { file: get_arg(args, 2) }
    } else {
        BoxAction::Usage(join(args, " "))
    }
}

/// The banner for a subcommand that does not exist.
pub open spec fn usage_banner(attempted: Seq<char>) -> Seq<char> {
    (if attempted.len() == 0 {
        "piggy box: missing subcommand"@
    } else {
        "piggy box: unknown subcommand: "@ + attempted
    })
        + "\nsupported: stream encrypt|decrypt, tpl create|show\nfor the rest of the pivy-box surface (tpl edit, key, challenge, …): piggy pivy box <args>\n"@
}

/// The banner for a subcommand that does not exist.
pub fn usage_text(attempted: &str) -> (r: String)
    ensures
        r@ == usage_banner(attempted@),
{
    let first: String = if attempted.is_empty() {
        "piggy box: missing subcommand".to_owned()
    } else {
        cat2("piggy box: unknown subcommand: ", attempted)
    };
    cat2(
        first.as_str(),
        "\nsupported: stream encrypt|decrypt, tpl create|show\nfor the rest of the pivy-box surface (tpl edit, key, challenge, …): piggy pivy box <args>\n",
    )
}

impl BoxAction {
    /// The exit code and what is printed, where nothing is left to be done.
    pub fn refused(&self) -> (r: Option<(i32, String)>)
        ensures
            match self@ {
                BoxView::Usage(s) => r is Some && (r->0).0 == 2 && (r->0).1@ == usage_banner(s),
                BoxView::Reject(s) => r is Some && (r->0).0 == 1 && (r->0).1@ == s + "\n"@,
                _ => r is None,
            },
    {
        match self {
            BoxAction::Usage(s) => Some((2, usage_text(s.as_str()))),
            BoxAction::Reject(s) => Some((1, cat2(s.as_str(), "\n"))),
            _ => None,
        }
    }
}

// ------------------------------------------------------------------ chunks

/// The number of chunks of a plaintext; an empty one has one empty chunk.
pub open spec fn chunk_count(len: nat, size: nat) -> nat
    recommends
        size > 0,
{
    if len == 0 {
        1
    } else {
        (len + size - 1) as nat / size
    }
}

/// Where chunk `i` of a plaintext starts and ends.
pub open spec fn chunk_range(len: nat, size: nat, i: nat) -> (int, int) {
    let from = (i * size) as int;
    let to = if from + size < len {
        from + size
    } else {
        len as int
    };
    (from, to)
}

/// The first `n` chunks of a plaintext in a row.
pub open spec fn chunks_joined(plain: Seq<u8>, size: nat, n: nat) -> Seq<u8>
    decreases n,
{
    if n == 0 {
        seq![]
    } else {
        let (from, to) = chunk_range(plain.len(), size, (n - 1) as nat);
        chunks_joined(plain, size, (n - 1) as nat) + plain.subrange(from, to)
    }
}

pub proof fn lemma_chunk_bounds(len: nat, size: nat, i: nat)
    requires
        size > 0,
        len > 0,
    ensures
        i < chunk_count(len, size) <==> i * size < len,
{
    let c = chunk_count(len, size);
    assert(c * size <= len + size - 1 < c * size + size) by (nonlinear_arith)
        requires
            size > 0,
            c == (len + size - 1) as nat / size,
    ;
    if i < c {
        assert(i * size <= (c - 1) * size) by (nonlinear_arith)
            requires
                i <= c - 1,
                size > 0,
        ;
        assert((c - 1) * size == c * size - size) by (nonlinear_arith);
    } else {
        assert(i * size >= c * size) by (nonlinear_arith)
            requires
                i >= c,
                size > 0,
        ;
    }
}

proof fn lemma_chunks_prefix(plain: Seq<u8>, size: nat, n: nat)
    requires
        size > 0,
        plain.len() > 0,
        n <= chunk_count(plain.len(), size),
    ensures
        chunks_joined(plain, size, n) == plain.subrange(
            0,
            if n * size < plain.len() {
                (n * size) as int
            } else {
                plain.len() as int
            },
        ),
    decreases n,
{
    if n == 0 {
        assert(0 * size == 0) by (nonlinear_arith);
        assert(plain.subrange(0, 0) =~= seq![]);
    } else {
        let m = (n - 1) as nat;
        lemma_chunks_prefix(plain, size, m);
        lemma_chunk_bounds(plain.len(), size, m);
        assert(n * size == m * size + size) by (nonlinear_arith)
            requires
                n == m + 1,
        ;
        let (from, to) = chunk_range(plain.len(), size, m);
        assert(plain.subrange(0, from) + plain.subrange(from, to) =~= plain.subrange(0, to));
    }
}

/// The chunks of a plaintext put together are the plaintext.
pub proof fn law_chunks_make_up_the_plaintext(plain: Seq<u8>, size: nat)
    requires
        size > 0,
    ensures
        chunks_joined(plain, size, chunk_count(plain.len(), size)) == plain,
{
    if plain.len() == 0 {
        assert(0 * size == 0) by (nonlinear_arith);
        reveal_with_fuel(chunks_joined, 2);
        assert(chunks_joined(plain, size, 1) =~= plain);
    } else {
        let c = chunk_count(plain.len(), size);
        lemma_chunks_prefix(plain, size, c);
        lemma_chunk_bounds(plain.len(), size, c);
        assert(plain.subrange(0, plain.len() as int) =~= plain);
    }
}

// ------------------------------------------------------------------ frames

/// One frame of an encrypted stream: a number, then a length-prefixed body.
pub open spec fn frame(seqnr: nat, body: Seq<u8>) -> Seq<u8> {
    be32(seqnr) + ssh_string(body)
}

/// The end of the frame at `at`, nothing at the end of the data, or why
/// there is no whole frame.
pub open spec fn frame_end(data: Seq<u8>, at: int) -> Result<Option<int>, Seq<char>> {
    if at >= data.len() {
        Ok(None)
    } else if data.len() - at < 8 {
        Err("truncated chunk frame"@)
    } else {
        match field_at(data, at + 4) {
            Ok((_, to)) => Ok(Some(to)),
            Err(_) => Err("truncated chunk data"@),
        }
    }
}

/// Who can unlock a stream: an agent behind a socket, which is not reached
/// before it is needed, and a card that is attached directly.
pub struct Decryptor {
    pub agent_socket: Option<Vec<u8>>,
    pub card: bool,
}

/// The socket of the agent: the one of this project's own variable, where
/// that is set to something, and the ambient one otherwise.
pub open spec fn socket_for(own: Option<Vec<u8>>, ambient: Option<Vec<u8>>) -> Option<Vec<u8>> {
    if own is Some && own->0@.len() > 0 {
        own
    } else {
        ambient
    }
}

impl Decryptor {
    /// What the environment offers: the socket that takes precedence where
    /// it is named, else the ambient one; and a card, where cards can be
    /// reached.
    pub fn from_env(
        piggy_auth_sock: Option<Vec<u8>>,
        ssh_auth_sock: Option<Vec<u8>>,
        cards_reachable: bool,
    ) -> (r: Decryptor)
        ensures
            r.agent_socket == socket_for(piggy_auth_sock, ssh_auth_sock),
            r.agent_socket == match piggy_auth_sock {
                Some(s) => if s@.len() > 0 {
                    Some(s)
                } else {
                    ssh_auth_sock
                },
                None => ssh_auth_sock,
            },
            r.card == cards_reachable,
    {
        let agent_socket: Option<Vec<u8>> = match piggy_auth_sock_override(piggy_auth_sock) {
            Some(s) => Some(s),
            None => ssh_auth_sock,
        };
        Decryptor { agent_socket, card: cards_reachable }
    }
}

/// A place in an encrypted stream, and the number that the next frame must
/// carry.
pub struct FrameReader {
    pub at: usize,
    pub seqnr: u32,
}

impl FrameReader {
    /// Behind the header of a stream.
    pub fn new(header_len: usize) -> (r: FrameReader)
        ensures
            r.at == header_len && r.seqnr == 0,
    {
        FrameReader { at: header_len, seqnr: 0 }
    }

    /// Where the next frame ends.
    pub fn next_frame(&self, data: &[u8]) -> (r: Result<Option<usize>, String>)
        ensures
            match r {
                Ok(None) => frame_end(data@, self.at as int) == Ok::<Option<int>, Seq<char>>(None),
                Ok(Some(to)) => frame_end(data@, self.at as int) == Ok::<
                    Option<int>,
                    Seq<char>,
                >(Some(to as int)) && self.at < to <= data@.len(),
                Err(e) => frame_end(data@, self.at as int) == Err::<Option<int>, Seq<char>>(e@),
            },
    {
        if self.at >= data.len() {
            return Ok(None);
        }
        if data.len() - self.at < 8 {
            return Err("truncated chunk frame".to_owned());
        }
        match find_field(data, self.at + 4) {
            Ok((_, to)) => Ok(Some(to)),
            Err(_) => Err("truncated chunk data".to_owned()),
        }
    }

    /// Goes on behind a frame that was read.
    pub fn accept(&mut self, to: usize)
        requires
            old(self).seqnr < u32::MAX,
        ensures
            final(self).at == to,
            final(self).seqnr == old(self).seqnr + 1,
    {
        self.at = to;
        self.seqnr = self.seqnr + 1;
    }

    /// The words for a frame that could not be opened.
    pub fn failure(&self, e: &str) -> (r: String)
        ensures
            r@ == "chunk "@ + dec(self.seqnr as nat) + ": "@ + e@,
    {
        cat4("chunk ", dec_u64(self.seqnr as u64).as_str(), ": ", e)
    }
}

/// A frame that was written is found again, whatever stands before and
/// behind it.
pub proof fn law_frame_is_found(before: Seq<u8>, seqnr: nat, body: Seq<u8>, after: Seq<u8>)
    requires
        body.len() < 0x1_0000_0000,
    ensures
        frame_end(before + frame(seqnr, body) + after, before.len() as int) == Ok::<
            Option<int>,
            Seq<char>,
        >(Some((before.len() + frame(seqnr, body).len()) as int)),
{
    let data = before + frame(seqnr, body) + after;
    lemma_be32_len(seqnr);
    lemma_be32_len(body.len() % 0x1_0000_0000);
    let head = before + be32(seqnr);
    lemma_field_of_string(head, body, after);
    assert(head + ssh_string(body) + after =~= data);
}

/// A stream that is cut off inside its last frame is refused: no prefix of
/// a frame passes for a frame or for the end.
pub proof fn law_cut_frame_is_refused(
    before: Seq<u8>,
    seqnr: nat,
    body: Seq<u8>,
    keep: nat,
)
    requires
        body.len() < 0x1_0000_0000,
        0 < keep < frame(seqnr, body).len(),
    ensures
        frame_end(before + frame(seqnr, body).take(keep as int), before.len() as int) is Err,
{
    let f = frame(seqnr, body);
    let data = before + f.take(keep as int);
    lemma_be32_len(seqnr);
    lemma_be32_len(body.len() % 0x1_0000_0000);
    lemma_be32_round_trip(body.len());
    if keep >= 8 {
        let at = before.len() + 4;
        assert(data.subrange(at as int, at as int + 4) =~= be32(body.len() % 0x1_0000_0000));
    }
}

/// The frames of some bodies in a row, numbered from `from` on.
pub open spec fn frames(bodies: Seq<Seq<u8>>, from: nat) -> Seq<u8>
    decreases bodies.len(),
{
    if bodies.len() == 0 {
        seq![]
    } else {
        frame(from, bodies[0]) + frames(bodies.skip(1), from + 1)
    }
}

/// A reader that is handed the end of each frame: what it goes through from
/// a position on.
pub open spec fn frame_ends(data: Seq<u8>, at: int, n: nat) -> Option<int>
    decreases n,
{
    if n == 0 {
        Some(at)
    } else {
        match frame_end(data, at) {
            Ok(Some(to)) => frame_ends(data, to, (n - 1) as nat),
            _ => None,
        }
    }
}

/// A stream is read frame by frame to its very end: behind a header, as many
/// frames are found as were written, and then nothing is left.
pub proof fn law_stream_is_read_to_its_end(header: Seq<u8>, bodies: Seq<Seq<u8>>, from: nat)
    requires
        forall|i: int| 0 <= i < bodies.len() ==> (#[trigger] bodies[i]).len() < 0x1_0000_0000,
    ensures
        ({
            let data = header + frames(bodies, from);
            &&& frame_ends(data, header.len() as int, bodies.len()) == Some(data.len() as int)
            &&& frame_end(data, data.len() as int) == Ok::<Option<int>, Seq<char>>(None)
        }),
    decreases bodies.len(),
{
    let data = header + frames(bodies, from);
    if bodies.len() > 0 {
        let rest = bodies.skip(1);
        let next = header + frame(from, bodies[0]);
        law_frame_is_found(header, from, bodies[0], frames(rest, from + 1));
        assert forall|i: int| 0 <= i < rest.len() implies (#[trigger] rest[i]).len()
            < 0x1_0000_0000 by {
            assert(rest[i] == bodies[i + 1]);
        }
        law_stream_is_read_to_its_end(next, rest, from + 1);
        assert(data =~= next + frames(rest, from + 1));
        assert(data =~= header + frame(from, bodies[0]) + frames(rest, from + 1));
    }
}

// --------------------------------------------------------------- templates

/// The part of a template that names a card's key.
pub struct TemplatePart {
    pub guid: Guid,
    pub slot: u8,
    pub pubkey: Vec<u8>,
    pub curve: EcCurve,
}

/// [`TemplatePart`] over plain values.
pub struct PartView {
    pub guid: Seq<u8>,
    pub slot: u8,
    pub pubkey: Seq<u8>,
    pub curve: EcCurve,
}

impl View for TemplatePart {
    type V = PartView;

    open spec fn view(&self) -> PartView {
        PartView { guid: self.guid@, slot: self.slot, pubkey: self.pubkey@, curve: self.curve }
    }
}

/// The words for a point that could not be compressed.
pub open spec fn compress_error(step: EcStep, e: Seq<char>) -> Seq<char> {
    match step {
        EcStep::Group => "EC group: "@ + e,
        EcStep::Context => "BN context: "@ + e,
        EcStep::Decode => "EC point: "@ + e,
        EcStep::Encode => "compress: "@ + e,
    }
}

/// Whether these are the words for a point that could not be compressed.
pub open spec fn is_compress_error(e: Seq<char>) -> bool {
    exists|step: EcStep, said: Seq<char>| e == #[trigger] compress_error(step, said)
}

/// Reports the outcome of compressing a point.
pub fn compress_outcome(converted: Result<Vec<u8>, (EcStep, String)>) -> (r: Result<
    Vec<u8>,
    String,
>)
    ensures
        match converted {
            Ok(p) => r == Ok::<Vec<u8>, String>(p),
            Err((step, e)) => r is Err && r->Err_0@ == compress_error(step, e@),
        },
{
    match converted {
        Ok(p) => Ok(p),
        Err((EcStep::Group, e)) => Err(cat2("EC group: ", e.as_str())),
        Err((EcStep::Context, e)) => Err(cat2("BN context: ", e.as_str())),
        Err((EcStep::Decode, e)) => Err(cat2("EC point: ", e.as_str())),
        Err((EcStep::Encode, e)) => Err(cat2("compress: ", e.as_str())),
    }
}

/// The compressed point of an elliptic-curve key.
pub fn extract_ec_compressed_point(key: &PublicKey, curve: EcCurve) -> (r: Result<
    Vec<u8>,
    String,
>)
    ensures
        match key@.sec1 {
            None => r is Err && r->Err_0@ == "not an EC key"@,
            Some(point) => match sec1_point(point, curve is NistP384, true) {
                Some(p) => r is Ok && r->Ok_0@ == p,
                None => r is Err && is_compress_error(r->Err_0@),
            },
        },
{
    match &key.sec1 {
        None => Err("not an EC key".to_owned()),
        Some(p) => {
            let converted: Result<Vec<u8>, (EcStep, String)> = ec_convert(
                p.as_slice(),
                curve,
                true,
            );
            let ghost failed = converted;
            let r: Result<Vec<u8>, String> = compress_outcome(converted);
            proof {
                if let Err((step, said)) = failed {
                    assert(r->Err_0@ == compress_error(step, said@));
                }
            }
            r
        },
    }
}

/// The curve of a key that can be sealed to.
pub open spec fn curve_of(a: PivAlgorithm) -> Option<EcCurve> {
    match a {
        PivAlgorithm::EcP256 => Some(EcCurve::NistP256),
        PivAlgorithm::EcP384 => Some(EcCurve::NistP384),
        _ => None,
    }
}

/// The first card from `i` on with the given GUID.
pub open spec fn card_place(cards: Seq<Guid>, g: Seq<u8>, i: int) -> int
    decreases cards.len() - i,
{
    if i >= cards.len() {
        cards.len() as int
    } else if cards[i]@ == g {
        i
    } else {
        card_place(cards, g, i + 1)
    }
}

/// The first key from `i` on in the slot for key management.
pub open spec fn slot_place(t: TokenInfo, i: int) -> int
    decreases t.slots@.len() - i,
{
    if i >= t.slots@.len() {
        t.slots@.len() as int
    } else if t.slots@[i].id == KEY_MANAGEMENT_SLOT {
        i
    } else {
        slot_place(t, i + 1)
    }
}

/// Finds the attached card with the given GUID.
pub fn find_card(cards: &Vec<Guid>, guid: &Guid) -> (r: Result<usize, String>)
    ensures
        match r {
            Ok(i) => i < cards@.len() && i == card_place(cards@, guid@, 0),
            Err(e) => card_place(cards@, guid@, 0) == cards@.len() && e@ == "PIV device "@
                + hex_text(guid@, true) + " not found"@,
        },
{
    let mut i: usize = 0;
    while i < cards.len()
        invariant
            i <= cards@.len(),
            card_place(cards@, guid@, 0) == card_place(cards@, guid@, i as int),
        decreases cards@.len() - i,
    {
        if cards[i].same(guid) {
            return Ok(i);
        }
        i = i + 1;
    }
    Err(cat3("PIV device ", guid.to_hex().as_str(), " not found"))
}

/// What a card lacks for a template, if anything.
pub open spec fn template_flaw(t: TokenInfo) -> Option<Seq<char>> {
    let i = slot_place(t, 0);
    if i >= t.slots@.len() {
        Some("slot 9D not found on device"@)
    } else if curve_of(t.slots@[i].algorithm) is None {
        Some("unsupported key algorithm: "@ + algorithm_text(t.slots@[i].algorithm))
    } else if t.slots@[i].public_key@.sec1 is None {
        Some("not an EC key"@)
    } else {
        None
    }
}

/// The template part for a card: its key-management key, compressed. `said`
/// are the words for a point that cannot be.
pub open spec fn part_of(t: TokenInfo, said: Seq<char>) -> Result<PartView, Seq<char>> {
    match template_flaw(t) {
        Some(flaw) => Err(flaw),
        None => {
            let key = t.slots@[slot_place(t, 0)];
            let curve = curve_of(key.algorithm)->0;
            match sec1_point(key.public_key@.sec1->0, curve is NistP384, true) {
                Some(pubkey) => Ok(
                    PartView { guid: t.guid@, slot: KEY_MANAGEMENT_SLOT, pubkey, curve },
                ),
                None => Err(said),
            }
        },
    }
}

/// Makes the template part for a card: its key-management key, compressed.
pub fn plan_template(t: &TokenInfo) -> (r: Result<TemplatePart, String>)
    ensures
        exists|said: Seq<char>|
            is_compress_error(said) && #[trigger] part_of(*t, said) == match r {
                Ok(p) => Ok::<PartView, Seq<char>>(p@),
                Err(e) => Err(e@),
            },
{
    let ghost some = compress_error(EcStep::Group, seq![]);
    assert(is_compress_error(some));
    let mut i: usize = 0;
    while i < t.slots.len() && t.slots[i].id != KEY_MANAGEMENT_SLOT
        invariant
            i <= t.slots@.len(),
            slot_place(*t, 0) == slot_place(*t, i as int),
        decreases t.slots@.len() - i,
    {
        i = i + 1;
    }
    if i >= t.slots.len() {
        let r: Result<TemplatePart, String> = Err("slot 9D not found on device".to_owned());
        assert(part_of(*t, some) == Err::<PartView, Seq<char>>((r->Err_0)@));
        return r;
    }
    let key = &t.slots[i];
    let curve: EcCurve = match key.algorithm {
        PivAlgorithm::EcP256 => EcCurve::NistP256,
        PivAlgorithm::EcP384 => EcCurve::NistP384,
        other => {
            let words: String = cat2(
                "unsupported key algorithm: ",
                crate::cmd::agent::algorithm_name(other),
            );
            assert(part_of(*t, some) == Err::<PartView, Seq<char>>(words@));
            return Err(words);
        },
    };
    match extract_ec_compressed_point(&key.public_key, curve) {
        Err(e) => {
            if key.public_key.sec1.is_none() {
                assert(part_of(*t, some) == Err::<PartView, Seq<char>>(e@));
            } else {
                assert(part_of(*t, e@) == Err::<PartView, Seq<char>>(e@));
            }
            Err(e)
        },
        Ok(pubkey) => {
            let part: TemplatePart = TemplatePart {
                guid: t.guid,
                slot: KEY_MANAGEMENT_SLOT,
                pubkey,
                curve,
            };
            assert(part_of(*t, some) == Ok::<PartView, Seq<char>>(part@));
            Ok(part)
        },
    }
}

proof fn lemma_first_slot(t: TokenInfo, i: int, from: int)
    requires
        0 <= from <= i < t.slots@.len(),
        t.slots@[i].id == 0x9D,
        forall|j: int| 0 <= j < i ==> (#[trigger] t.slots@[j]).id != 0x9D,
    ensures
        slot_place(t, from) == i,
    decreases i - from,
{
    if from < i {
        lemma_first_slot(t, i, from + 1);
    }
}

proof fn lemma_slot_place(t: TokenInfo, from: int)
    requires
        0 <= from <= t.slots@.len(),
    ensures
        from <= slot_place(t, from) <= t.slots@.len(),
        slot_place(t, from) < t.slots@.len() ==> t.slots@[slot_place(t, from)].id == 0x9D,
        forall|j: int| from <= j < slot_place(t, from) ==> (#[trigger] t.slots@[j]).id != 0x9D,
    decreases t.slots@.len() - from,
{
    if from < t.slots@.len() && t.slots@[from].id != 0x9D {
        lemma_slot_place(t, from + 1);
    }
}

/// Whether a part holds the key of a slot: the slot's own number and curve,
/// and the compressed form of the point of its key.
pub open spec fn is_part_of_slot(t: TokenInfo, i: int, part: PartView) -> bool {
    let key = t.slots@[i];
    &&& part.guid == t.guid@
    &&& part.slot == key.id
    &&& key.public_key@.sec1 is Some
    &&& match key.algorithm {
        PivAlgorithm::EcP256 => part.curve is NistP256 && sec1_point(
            key.public_key@.sec1->0,
            false,
            true,
        ) == Some(part.pubkey),
        PivAlgorithm::EcP384 => part.curve is NistP384 && sec1_point(
            key.public_key@.sec1->0,
            true,
            true,
        ) == Some(part.pubkey),
        _ => false,
    }
}

/// A template names the key that is in the slot it names: the first slot 9D
/// of the card, whatever other slots there are.
pub proof fn law_template_holds_the_key_of_its_slot(t: TokenInfo, said: Seq<char>, part: PartView)
    requires
        part_of(t, said) == Ok::<PartView, Seq<char>>(part),
    ensures
        exists|i: int|
            0 <= i < t.slots@.len() && t.slots@[i].id == 0x9D && #[trigger] is_part_of_slot(
                t,
                i,
                part,
            ) && forall|j: int| 0 <= j < i ==> (#[trigger] t.slots@[j]).id != 0x9D,
{
    lemma_slot_place(t, 0);
    assert(is_part_of_slot(t, slot_place(t, 0), part));
}

/// A card with an elliptic-curve key in slot 9D that can be compressed gets
/// its template; any other card does not.
pub proof fn law_template_is_made_where_it_can_be(t: TokenInfo, said: Seq<char>, i: int)
    requires
        0 <= i < t.slots@.len(),
        t.slots@[i].id == 0x9D,
        forall|j: int| 0 <= j < i ==> (#[trigger] t.slots@[j]).id != 0x9D,
    ensures
        part_of(t, said) is Ok <==> t.slots@[i].public_key@.sec1 is Some && ((
        t.slots@[i].algorithm is EcP256 && sec1_point(
            t.slots@[i].public_key@.sec1->0,
            false,
            true,
        ) is Some) || (t.slots@[i].algorithm is EcP384 && sec1_point(
            t.slots@[i].public_key@.sec1->0,
            true,
            true,
        ) is Some)),
{
    lemma_first_slot(t, i, 0);
}

/// A card without a slot 9D gets no template.
pub proof fn law_no_template_without_the_slot(t: TokenInfo, said: Seq<char>)
    requires
        forall|j: int| 0 <= j < t.slots@.len() ==> (#[trigger] t.slots@[j]).id != 0x9D,
    ensures
        part_of(t, said) == Err::<PartView, Seq<char>>("slot 9D not found on device"@),
{
    lemma_slot_place(t, 0);
}

/// The card that a template is made for is the first with the very GUID that
/// was named.
pub proof fn law_template_is_for_the_named_card(cards: Seq<Guid>, g: Seq<u8>, from: int)
    requires
        0 <= from <= cards.len(),
    ensures
        from <= card_place(cards, g, from) <= cards.len(),
        card_place(cards, g, from) < cards.len() ==> cards[card_place(cards, g, from)]@ == g,
        forall|j: int| from <= j < card_place(cards, g, from) ==> (#[trigger] cards[j])@ != g,
    decreases cards.len() - from,
{
    if from < cards.len() && cards[from]@ != g {
        law_template_is_for_the_named_card(cards, g, from + 1);
    }
}

/// The command line names the template and the card: the GUID in hexadecimal
/// is the card with those bytes.
pub proof fn law_create_names_the_card(name: Seq<char>, g: Seq<u8>, upper: bool)
    requires
        g.len() == 16,
        name != "-i"@,
    ensures
        box_meaning(
            seq!["tpl"@, "create"@, name, "primary"@, "local-guid"@, hex_text(g, upper)],
        ) == BoxView::CreateTemplate(name, g),
{
    law_hex_round_trip(g, upper);
    reveal_strlit("tpl");
    reveal_strlit("stream");
    reveal_strlit("create");
    assert("tpl"@.len() == 3 && "stream"@.len() == 6);
}

/// No chunk of a plaintext is longer than the size of a chunk, and all but
/// the last have that size.
pub proof fn law_chunks_have_their_size(len: nat, size: nat, i: nat)
    requires
        size > 0,
        i < chunk_count(len, size),
    ensures
        ({
            let (from, to) = chunk_range(len, size, i);
            &&& 0 <= from <= to <= len
            &&& to - from <= size
            &&& i + 1 < chunk_count(len, size) ==> to - from == size
            &&& i + 1 == chunk_count(len, size) ==> to == len
            &&& i == 0 ==> from == 0
        }),
{
    if len > 0 {
        lemma_chunk_bounds(len, size, i);
        lemma_chunk_bounds(len, size, i + 1);
        assert((i + 1) * size == i * size + size) by (nonlinear_arith);
        assert(0 * size == 0) by (nonlinear_arith);
    } else {
        assert(0 * size == 0) by (nonlinear_arith);
    }
}

/// The directory of templates below the home directory.
pub open spec fn tpl_dir_of(home: Option<Seq<char>>, macos: bool) -> Seq<char> {
    path_joined(
        match home {
            Some(h) => h,
            None => "/tmp"@,
        },
        if macos {
            "Library/Preferences/pivy/tpl"@
        } else {
            ".pivy/tpl"@
        },
    )
}

/// The directory that templates are kept in.
pub fn tpl_dir(home: &Option<String>, macos: bool) -> (r: String)
    ensures
        r@ == tpl_dir_of(opt_text(*home), macos),
{
    let base: &str = match home {
        Some(h) => h.as_str(),
        None => "/tmp",
    };
    if macos {
        join_path(base, "Library/Preferences/pivy/tpl")
    } else {
        join_path(base, ".pivy/tpl")
    }
}

// ------------------------------------------------------- showing a template

/// One part of a template, as it is shown.
pub struct ShownPart {
    pub guid: Option<Guid>,
    pub slot: u8,
    pub name: Option<String>,
    pub curve_name: String,
    pub pubkey_len: usize,
}

/// One configuration of a template, as it is shown.
pub struct ShownConfig {
    pub kind: String,
    pub n: u8,
    pub parts: Vec<ShownPart>,
}

/// A template, as it is shown.
pub struct ShownTemplate {
    pub version: u8,
    pub configs: Vec<ShownConfig>,
}

/// The lines of one part.
pub open spec fn part_text(p: ShownPart, j: nat) -> Seq<char> {
    let guid = match p.guid {
        Some(g) => hex_text(g@, true),
        None => "(none — piggy 2.x guid-less)"@,
    };
    let name = match p.name {
        Some(n) => "    name: "@ + n@ + "\n"@,
        None => seq![],
    };
    "  part "@ + dec(j) + ": guid="@ + guid + ", slot="@ + hex2(p.slot, false) + "\n"@ + name
        + "    pubkey: "@ + p.curve_name@ + " ("@ + dec(p.pubkey_len as nat) + " bytes)\n"@
}

/// The lines of the first `n` parts.
pub open spec fn parts_text(p: Seq<ShownPart>, n: nat) -> Seq<char>
    decreases n,
{
    if n == 0 {
        seq![]
    } else {
        parts_text(p, (n - 1) as nat) + part_text(p[n - 1], (n - 1) as nat)
    }
}

/// The lines of one configuration.
pub open spec fn config_text(c: ShownConfig, i: nat) -> Seq<char> {
    "configuration "@ + dec(i) + ": "@ + c.kind@ + ", n="@ + dec(c.n as nat) + ", parts="@ + dec(
        c.parts@.len(),
    ) + "\n"@ + parts_text(c.parts@, c.parts@.len())
}

/// The lines of the first `n` configurations.
pub open spec fn configs_text(c: Seq<ShownConfig>, n: nat) -> Seq<char>
    decreases n,
{
    if n == 0 {
        seq![]
    } else {
        configs_text(c, (n - 1) as nat) + config_text(c[n - 1], (n - 1) as nat)
    }
}

/// The lines of a template.
pub open spec fn template_text(t: ShownTemplate) -> Seq<char> {
    "-- template --\nversion: "@ + dec(t.version as nat) + "\n"@ + configs_text(
        t.configs@,
        t.configs@.len(),
    )
}

fn show_part(p: &ShownPart, j: usize) -> (r: String)
    ensures
        r@ == part_text(*p, j as nat),
{
    let guid: String = match &p.guid {
        Some(g) => g.to_hex(),
        None => "(none — piggy 2.x guid-less)".to_owned(),
    };
    let name: String = match &p.name {
        Some(n) => cat3("    name: ", n.as_str(), "\n"),
        None => String::new(),
    };
    let mut s: String = cat5(
        "  part ",
        dec_usize(j).as_str(),
        ": guid=",
        guid.as_str(),
        ", slot=",
    );
    s.append(hex2_str(p.slot, false).as_str());
    s.append("\n");
    s.append(name.as_str());
    s.append("    pubkey: ");
    s.append(p.curve_name.as_str());
    s.append(" (");
    s.append(dec_usize(p.pubkey_len).as_str());
    s.append(" bytes)\n");
    s
}

fn show_config(c: &ShownConfig, i: usize) -> (r: String)
    ensures
        r@ == config_text(*c, i as nat),
{
    let mut head: String = cat5(
        "configuration ",
        dec_usize(i).as_str(),
        ": ",
        c.kind.as_str(),
        ", n=",
    );
    head.append(dec_u64(c.n as u64).as_str());
    head.append(", parts=");
    head.append(dec_usize(c.parts.len()).as_str());
    head.append("\n");
    let mut body: String = String::new();
    for j in 0..c.parts.len()
        invariant
            body@ == parts_text(c.parts@, j as nat),
    {
        body.append(show_part(&c.parts[j], j).as_str());
    }
    head.append(body.as_str());
    head
}

/// Shows a template.
pub fn cmd_tpl_show(t: &ShownTemplate) -> (r: String)
    ensures
        r@ == template_text(*t),
{
    let mut body: String = String::new();
    for i in 0..t.configs.len()
        invariant
            body@ == configs_text(t.configs@, i as nat),
    {
        body.append(show_config(&t.configs[i], i).as_str());
    }
    let mut s: String = cat3(
        "-- template --\nversion: ",
        dec_u64(t.version as u64).as_str(),
        "\n",
    );
    s.append(body.as_str());
    s
}

/// A frame begins with its number, and its body follows with its length
/// before it.
pub proof fn law_frame_begins_with_its_number(number: nat, body: Seq<u8>)
    requires
        number < 0x1_0000_0000,
        body.len() < 0x1_0000_0000,
    ensures
        ({
            let f = frame(number, body);
            &&& f.len() == 8 + body.len()
            &&& f[0] * 16777216 + f[1] * 65536 + f[2] * 256 + f[3] == number
            &&& f[4] * 16777216 + f[5] * 65536 + f[6] * 256 + f[7] == body.len()
            &&& f.skip(8) == body
        }),
{
    crate::wire::law_highest_byte_comes_first(number, body);
    crate::wire::law_highest_byte_comes_first(body.len(), body);
    let s = ssh_string(body);
    let f = frame(number, body);
    let l = be32(body.len());
    assert(s.take(4) == l);
    assert(l[0] == s[0] && l[1] == s[1] && l[2] == s[2] && l[3] == s[3]) by {
        assert(s.take(4)[0] == s[0] && s.take(4)[1] == s[1] && s.take(4)[2] == s[2] && s.take(4)[3]
            == s[3]);
    }
    assert(f[4] == s[0] && f[5] == s[1] && f[6] == s[2] && f[7] == s[3]);
    assert(f.skip(8) =~= s.skip(4));
}

} // verus!
