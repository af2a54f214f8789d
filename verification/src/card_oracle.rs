//! Key agreement on a card that is attached directly: which card holds the
//! key, in what form points are handed to it, and where the PIN comes from.
use crate::card_map::CardMap;
use crate::crypto::{discard_all, discard_any, ec_convert, hex_text, opt_bytes, sec1_point, EcCurve, EcStep};
use crate::piv::Guid;
use crate::text::{cat2, cat3, dec, dec_u64, dec_usize, trim_end_chars, trim_end_two};
use crate::wire::bytes_same;
use vstd::prelude::*;
use vstd::slice::slice_to_vec;

verus! {

/// Why no secret could be derived.
pub enum OracleError {
    Transport(String),
    Protocol(String),
    NoKey,
    InvalidPubkey(String),
    Other(String),
}

/// [`OracleError`] over plain text.
pub enum OracleView {
    Transport(Seq<char>),
    Protocol(Seq<char>),
    NoKey,
    InvalidPubkey(Seq<char>),
    Other(Seq<char>),
}

impl View for OracleError {
    type V = OracleView;

    open spec fn view(&self) -> OracleView {
        match self {
            OracleError::Transport(e) => OracleView::Transport(e@),
            OracleError::Protocol(e) => OracleView::Protocol(e@),
            OracleError::NoKey => OracleView::NoKey,
            OracleError::InvalidPubkey(e) => OracleView::InvalidPubkey(e@),
            OracleError::Other(e) => OracleView::Other(e@),
        }
    }
}

/// How a card can refuse a PIN.
pub enum PinRefusal {
    Incorrect { retries: u32 },
    Blocked,
    Failed(String),
}

/// What a refused PIN is reported as: a wrong or blocked PIN is not a
/// problem of the transport, and trying again would not help.
pub open spec fn pin_error(e: PinRefusal) -> OracleView {
    match e {
        PinRefusal::Incorrect { retries } => OracleView::Other(
            "wrong PIN, "@ + dec(retries as nat) + " retries remaining"@,
        ),
        PinRefusal::Blocked => OracleView::Other("PIN blocked"@),
        PinRefusal::Failed(e) => OracleView::Transport("verify_pin: "@ + e@),
    }
}

/// Reports a refused PIN.
pub fn piv_to_oracle_pin_error(e: PinRefusal) -> (r: OracleError)
    ensures
        r@ == pin_error(e),
{
    match e {
        PinRefusal::Incorrect { retries } => OracleError::Other(
            cat3("wrong PIN, ", dec_u64(retries as u64).as_str(), " retries remaining"),
        ),
        PinRefusal::Blocked => OracleError::Other("PIN blocked".to_owned()),
        PinRefusal::Failed(e) => OracleError::Transport(cat2("verify_pin: ", e.as_str())),
    }
}

// ------------------------------------------------------------------ points

/// Whether a point is in uncompressed form already.
pub open spec fn is_uncompressed(point: Seq<u8>) -> bool {
    point.len() > 0 && point[0] == 0x04
}

/// The curve of a compressed point, by its length.
pub open spec fn compressed_curve(point: Seq<u8>) -> Option<EcCurve> {
    if point.len() == 33 {
        Some(EcCurve::NistP256)
    } else if point.len() == 49 {
        Some(EcCurve::NistP384)
    } else {
        None
    }
}

/// The uncompressed form of a point, if it has one.
pub open spec fn canonical_point(point: Seq<u8>) -> Option<Seq<u8>> {
    if is_uncompressed(point) {
        Some(point)
    } else {
        match compressed_curve(point) {
            Some(curve) => sec1_point(point, curve is NistP384, false),
            None => None,
        }
    }
}

/// What a failed conversion is reported as.
pub open spec fn point_error(step: EcStep, e: Seq<char>) -> OracleView {
    match step {
        EcStep::Group => OracleView::Other("openssl group: "@ + e),
        EcStep::Context => OracleView::Other("openssl bn ctx: "@ + e),
        EcStep::Decode => OracleView::InvalidPubkey("decompress: "@ + e),
        EcStep::Encode => OracleView::Other("openssl encode: "@ + e),
    }
}

/// Reports the outcome of a conversion.
pub fn canonical_outcome(converted: Result<Vec<u8>, (EcStep, String)>) -> (r: Result<
    Vec<u8>,
    OracleError,
>)
    ensures
        match converted {
            Ok(p) => r == Ok::<Vec<u8>, OracleError>(p),
            Err((step, e)) => r is Err && r->Err_0@ == point_error(step, e@),
        },
{
    match converted {
        Ok(p) => Ok(p),
        Err((EcStep::Group, e)) => Err(OracleError::Other(cat2("openssl group: ", e.as_str()))),
        Err((EcStep::Context, e)) => Err(OracleError::Other(cat2("openssl bn ctx: ", e.as_str()))),
        Err((EcStep::Decode, e)) => Err(
            OracleError::InvalidPubkey(cat2("decompress: ", e.as_str())),
        ),
        Err((EcStep::Encode, e)) => Err(OracleError::Other(cat2("openssl encode: ", e.as_str()))),
    }
}

/// Brings a point to uncompressed form. One that is so already is handed
/// back; another must have the length of a compressed point.
pub fn canonicalize_uncompressed(point: &[u8]) -> (r: Result<Vec<u8>, OracleError>)
    ensures
        match r {
            Ok(p) => canonical_point(point@) == Some(p@),
            Err(e) => canonical_point(point@) is None && if compressed_curve(point@) is None {
                e@ == OracleView::InvalidPubkey(
                    "compressed point of length "@ + dec(point@.len())
                        + " does not match P-256 or P-384"@,
                )
            } else {
                exists|step: EcStep, said: Seq<char>| e@ == #[trigger] point_error(step, said)
            },
        },
{
    if point.len() > 0 && point[0] == 0x04 {
        return Ok(slice_to_vec(point));
    }
    let curve: EcCurve = if point.len() == 33 {
        EcCurve::NistP256
    } else if point.len() == 49 {
        EcCurve::NistP384
    } else {
        return Err(
            OracleError::InvalidPubkey(
                cat3(
                    "compressed point of length ",
                    dec_usize(point.len()).as_str(),
                    " does not match P-256 or P-384",
                ),
            ),
        );
    };
    let converted: Result<Vec<u8>, (EcStep, String)> = ec_convert(point, curve, false);
    let ghost failed = converted;
    let r: Result<Vec<u8>, OracleError> = canonical_outcome(converted);
    proof {
        if let Err((step, said)) = failed {
            assert(r->Err_0@ == point_error(step, said@));
        }
    }
    r
}

// ---------------------------------------------------------- finding the card

/// The first card from `i` on whose key is the wanted one.
pub open spec fn card_with_point(points: Seq<Option<Vec<u8>>>, want: Seq<u8>, i: int) -> int
    decreases points.len() - i,
{
    if i >= points.len() {
        points.len() as int
    } else if opt_bytes(points[i]) == Some(want) {
        i
    } else {
        card_with_point(points, want, i + 1)
    }
}

/// Finds the card whose key-management key has the given point. A card
/// whose slot could not be read, or holds no elliptic-curve key, has none.
pub fn find_token_by_pubkey(points: &Vec<Option<Vec<u8>>>, want: &[u8]) -> (r: Option<usize>)
    ensures
        match r {
            Some(i) => i == card_with_point(points@, want@, 0) && i < points@.len(),
            None => card_with_point(points@, want@, 0) == points@.len(),
        },
{
    let mut i: usize = 0;
    while i < points.len()
        invariant
            i <= points@.len(),
            card_with_point(points@, want@, 0) == card_with_point(points@, want@, i as int),
        decreases points@.len() - i,
    {
        if let Some(p) = &points[i] {
            if bytes_same(p.as_slice(), want) {
                return Some(i);
            }
        }
        i = i + 1;
    }
    None
}

// ---------------------------------------------------------------- the PIN

/// Key agreement on the cards that are attached. The PINs that were asked for
/// are kept for the time of one command, so that each card is asked about
/// once.
pub struct CardEcdhOracle {
    pins: CardMap<String>,
}

impl CardEcdhOracle {
    /// The PIN of each card that was asked about.
    pub closed spec fn pins(self) -> Map<Seq<u8>, String> {
        self.pins@
    }

    /// The list is in order.
    pub closed spec fn wf(self) -> bool {
        self.pins.wf()
    }

    /// Before the first prompt.
    pub fn new() -> (r: CardEcdhOracle)
        ensures
            r.wf(),
            r.pins() == Map::<Seq<u8>, String>::empty(),
    {
        CardEcdhOracle { pins: CardMap::new() }
    }

    /// The PIN of a card that was asked about before.
    pub fn known(&self, guid: &Guid) -> (r: Option<String>)
        requires
            self.wf(),
        ensures
            r is Some <==> self.pins().dom().contains(guid@),
            r is Some ==> r->0 == self.pins()[guid@],
    {
        match self.pins.get(guid) {
            Some(p) => Some(p.clone()),
            None => None,
        }
    }

    /// Forgets every PIN, when the command is over.
    pub fn forget_all(&mut self)
        ensures
            final(self).wf(),
            final(self).pins() == Map::<Seq<u8>, String>::empty(),
    {
        let gone: Vec<String> = self.pins.clear();
        discard_all(gone);
    }

    /// Keeps the PIN that a prompt gave.
    pub fn remember(&mut self, guid: &Guid, pin: String)
        requires
            old(self).wf(),
        ensures
            final(self).wf(),
            final(self).pins() == old(self).pins().insert(guid@, pin),
    {
        let earlier: Option<String> = self.pins.insert(guid, pin);
        discard_any(earlier);
    }
}

/// The words of the prompt for a card's PIN.
pub fn pin_prompt(guid: &Guid) -> (r: String)
    ensures
        r@ == "PIV PIN for token "@ + hex_text(guid@, true),
{
    cat2("PIV PIN for token ", guid.to_hex().as_str())
}

/// Where the PIN for a key agreement comes from.
pub enum PinNeed {
    /// It was asked for before.
    Known(String),
    /// It is to be asked for, in these words.
    Ask(String),
}

/// [`PinNeed`] over plain values.
pub enum NeedView {
    Known(String),
    Ask(Seq<char>),
}

impl View for PinNeed {
    type V = NeedView;

    open spec fn view(&self) -> NeedView {
        match self {
            PinNeed::Known(pin) => NeedView::Known(*pin),
            PinNeed::Ask(prompt) => NeedView::Ask(prompt@),
        }
    }
}

/// The card for a key agreement, and where its PIN comes from.
pub open spec fn card_and_pin(
    guids: Seq<Guid>,
    points: Seq<Option<Vec<u8>>>,
    pins: Map<Seq<u8>, String>,
    want: Seq<u8>,
) -> Option<(int, NeedView)> {
    let i = card_with_point(points, want, 0);
    if i >= points.len() {
        None
    } else if pins.dom().contains(guids[i]@) {
        Some((i, NeedView::Known(pins[guids[i]@])))
    } else {
        Some((i, NeedView::Ask("PIV PIN for token "@ + hex_text(guids[i]@, true))))
    }
}

impl CardEcdhOracle {
    /// Finds the card for a key agreement, by the point of its key, and where
    /// its PIN comes from.
    pub fn ecdh(&self, guids: &Vec<Guid>, points: &Vec<Option<Vec<u8>>>, want: &[u8]) -> (r: Result<
        (usize, PinNeed),
        OracleError,
    >)
        requires
            self.wf(),
            guids@.len() == points@.len(),
        ensures
            match r {
                Ok((i, need)) => card_and_pin(guids@, points@, self.pins(), want@) == Some(
                    (i as int, need@),
                ),
                Err(_) => card_and_pin(guids@, points@, self.pins(), want@) is None,
            },
            match r {
                Err(e) => e is NoKey && card_with_point(points@, want@, 0) == points@.len(),
                Ok((i, PinNeed::Known(pin))) => {
                    &&& i == card_with_point(points@, want@, 0) < points@.len()
                    &&& self.pins().dom().contains(guids@[i as int]@)
                    &&& pin == self.pins()[guids@[i as int]@]
                },
                Ok((i, PinNeed::Ask(prompt))) => {
                    &&& i == card_with_point(points@, want@, 0) < points@.len()
                    &&& !self.pins().dom().contains(guids@[i as int]@)
                    &&& prompt@ == "PIV PIN for token "@ + hex_text(guids@[i as int]@, true)
                },
            },
    {
        match find_token_by_pubkey(points, want) {
            None => Err(OracleError::NoKey),
            Some(i) => match self.known(&guids[i]) {
                Some(pin) => Ok((i, PinNeed::Known(pin))),
                None => Ok((i, PinNeed::Ask(pin_prompt(&guids[i])))),
            },
        }
    }
}

/// The program that asks for the PIN.
pub fn askpass_program(variable: Option<String>) -> (r: Result<String, OracleError>)
    ensures
        match variable {
            Some(p) => if p@.len() > 0 {
                r == Ok::<String, OracleError>(p)
            } else {
                r is Err && r->Err_0@ == OracleView::Other("no PIN source: SSH_ASKPASS not set"@)
            },
            None => r is Err && r->Err_0@ == OracleView::Other(
                "no PIN source: SSH_ASKPASS not set"@,
            ),
        },
{
    if let Some(p) = variable {
        if !p.as_str().is_empty() {
            return Ok(p);
        }
    }
    Err(OracleError::Other("no PIN source: SSH_ASKPASS not set".to_owned()))
}

/// The PIN that the program gave, or what is said of it.
pub open spec fn given_pin(success: bool, status: Seq<char>, stdout: Seq<char>) -> Result<
    Seq<char>,
    OracleView,
> {
    let pin = trim_end_two(stdout, '\r', '\n');
    if !success {
        Err(OracleView::Other("askpass exited with "@ + status))
    } else if pin.len() == 0 {
        Err(OracleView::Other("askpass returned empty PIN"@))
    } else {
        Ok(pin)
    }
}

/// The PIN that the program gave: what it printed without the line end, as
/// long as it succeeded and printed something.
pub fn run_askpass(success: bool, status: &str, stdout: &str) -> (r: Result<String, OracleError>)
    ensures
        match r {
            Ok(pin) => given_pin(success, status@, stdout@) == Ok::<Seq<char>, OracleView>(pin@),
            Err(e) => given_pin(success, status@, stdout@) == Err::<Seq<char>, OracleView>(e@),
        },
        ({
            let pin = trim_end_two(stdout@, '\r', '\n');
            if !success {
                r is Err && r->Err_0@ == OracleView::Other("askpass exited with "@ + status@)
            } else if pin.len() == 0 {
                r is Err && r->Err_0@ == OracleView::Other("askpass returned empty PIN"@)
            } else {
                r is Ok && r->Ok_0@ == pin
            }
        }),
{
    if !success {
        return Err(OracleError::Other(cat2("askpass exited with ", status)));
    }
    let pin: String = trim_end_chars(stdout, '\r', '\n');
    if pin.as_str().is_empty() {
        return Err(OracleError::Other("askpass returned empty PIN".to_owned()));
    }
    Ok(pin)
}

// --------------------------------------------------------------------- laws

/// The PIN is the line that the program printed, without its end; a program
/// that fails or prints nothing gives none.
pub proof fn law_pin_is_the_printed_line(
    status: Seq<char>,
    line: Seq<char>,
    end: Seq<char>,
)
    requires
        forall|i: int| 0 <= i < end.len() ==> #[trigger] end[i] == '\r' || end[i] == '\n',
        line.len() > 0 ==> line.last() != '\r' && line.last() != '\n',
    ensures
        line.len() > 0 ==> given_pin(true, status, line + end) == Ok::<Seq<char>, OracleView>(line),
        line.len() == 0 ==> given_pin(true, status, line + end) is Err,
        given_pin(false, status, line + end) is Err,
{
    crate::text::law_trim_end_takes_only_these(line, end, '\r', '\n');
}

/// The card that is asked is the first whose key is the wanted one; where
/// none has it, none is asked.
pub proof fn law_first_card_with_the_key_is_asked(
    points: Seq<Option<Vec<u8>>>,
    want: Seq<u8>,
    i: int,
)
    requires
        0 <= i <= points.len(),
    ensures
        ({
            let k = card_with_point(points, want, i);
            &&& i <= k <= points.len()
            &&& k < points.len() ==> points[k] is Some && (points[k]->0)@ == want
            &&& forall|j: int|
                i <= j < k ==> (#[trigger] points[j]) is None || (points[j]->0)@ != want
        }),
    decreases points.len() - i,
{
    if i < points.len() && opt_bytes(points[i]) != Some(want) {
        law_first_card_with_the_key_is_asked(points, want, i + 1);
    }
}

/// A point that is spelled out is left as it is; a short one is spelled out
/// on the curve that its length says, and on no other.
pub proof fn law_short_points_are_spelled_out(point: Seq<u8>)
    ensures
        point.len() > 0 && point[0] == 4 ==> canonical_point(point) == Some(point),
        point.len() == 33 && point[0] != 4 ==> canonical_point(point) == sec1_point(
            point,
            false,
            false,
        ),
        point.len() == 49 && point[0] != 4 ==> canonical_point(point) == sec1_point(
            point,
            true,
            false,
        ),
        point.len() == 0 || (point[0] != 4 && point.len() != 33 && point.len() != 49)
            ==> canonical_point(point) is None,
{
}

/// The PIN that is given to a card is the one that was remembered for that
/// very card; for a card without one the question names that card.
pub proof fn law_pin_is_that_of_the_card(
    guids: Seq<Guid>,
    points: Seq<Option<Vec<u8>>>,
    pins: Map<Seq<u8>, String>,
    want: Seq<u8>,
)
    requires
        guids.len() == points.len(),
    ensures
        match card_and_pin(guids, points, pins, want) {
            None => forall|j: int|
                0 <= j < points.len() ==> (#[trigger] points[j]) is None || (points[j]->0)@ != want,
            Some((i, need)) => {
                &&& 0 <= i < points.len()
                &&& points[i] is Some && (points[i]->0)@ == want
                &&& need is Known <==> pins.dom().contains(guids[i]@)
                &&& need matches NeedView::Known(pin) ==> pin == pins[guids[i]@]
                &&& need matches NeedView::Ask(prompt) ==> hex_text(
                    guids[i]@,
                    true,
                ).is_suffix_of(prompt)
            },
        },
{
    law_first_card_with_the_key_is_asked(points, want, 0);
    if let Some((i, NeedView::Ask(prompt))) = card_and_pin(guids, points, pins, want) {
        let name = hex_text(guids[i]@, true);
        assert(prompt.subrange(prompt.len() - name.len(), prompt.len() as int) =~= name);
    }
}

} // verus!
