//! What holds of a whole run of a job on a box: what one step was told is
//! what the next one gets.
use crate::cmd::agent::TokenInfo;
use crate::cmd::box_job::{begun, next, EventView, JobView, StageView};
use crate::cmd::pivy_box::{
    box_meaning, card_place, part_of, socket_for, template_text, BoxView, PartView, ShownTemplate,
};
use crate::piv::Guid;
use crate::store_path::path_joined;
use vstd::prelude::*;

verus! {

/// A stream is made from the template at the path that was given, and holds
/// the plaintext and the header that were had for it.
pub proof fn law_stream_is_made_of_what_was_read(
    path: Seq<char>,
    dir: Seq<char>,
    template: Seq<u8>,
    size: nat,
    plain: Seq<u8>,
    header: Seq<u8>,
    said: Seq<char>,
)
    ensures
        ({
            let j = begun(BoxView::Encrypt(path), dir)->Ok_0;
            let read = next(j, EventView::Bytes(Ok(template)), said);
            let made = next(read, EventView::Done(None), said);
            let sized = next(made, EventView::Count(Ok(size)), said);
            let full = next(sized, EventView::Bytes(Ok(plain)), said);
            let headed = next(full, EventView::Bytes(Ok(header)), said);
            &&& j.stage == StageView::ReadTemplate(path)
            &&& read.stage == StageView::OpenTemplate(template)
            &&& sized.stage == StageView::ReadPlain(size)
            &&& full.stage == StageView::Header(plain, size)
            &&& headed.stage == StageView::WriteHeader(plain, size, header)
        }),
{
}

/// A stream is read from where it was said to be, and unlocked before any of
/// it is opened.
pub proof fn law_stream_is_unlocked_before_it_is_opened(
    file: Option<Seq<char>>,
    dir: Seq<char>,
    stream: Seq<u8>,
    said: Seq<char>,
    why: Seq<char>,
)
    ensures
        ({
            let j = begun(BoxView::Decrypt(file), dir)->Ok_0;
            let read = next(j, EventView::Bytes(Ok(stream)), said);
            let known = next(read, EventView::Done(None), said);
            let unlocked = next(known, EventView::Done(None), said);
            let refused = next(known, EventView::Done(Some(why)), said);
            &&& j.stage == StageView::ReadStream(file)
            &&& known.stage == StageView::Unlock(stream)
            &&& unlocked.stage == StageView::MeasureHeader(stream)
            &&& refused.stage is Ended && refused.stage->Ended_0 == 1
        }),
{
}

/// A template is made of the card that was named, and written under the name
/// that was given, in the folder of templates.
pub proof fn law_template_is_written_under_its_name(
    name: Seq<char>,
    guid: Seq<u8>,
    dir: Seq<char>,
    cards: Seq<Guid>,
    token: TokenInfo,
    part: PartView,
    text: Seq<char>,
    said: Seq<char>,
)
    requires
        card_place(cards, guid, 0) < cards.len(),
        part_of(token, said) == Ok::<PartView, Seq<char>>(part),
    ensures
        ({
            let j = begun(BoxView::CreateTemplate(name, guid), dir)->Ok_0;
            let found = next(j, EventView::Cards(Ok(cards)), said);
            let planned = next(found, EventView::Slots(Ok(token)), said);
            let ready = next(planned, EventView::Text(Ok(text)), said);
            let writing = next(ready, EventView::Done(None), said);
            let end = next(writing, EventView::Done(None), said);
            &&& found.stage == StageView::ReadSlots(name, card_place(cards, guid, 0))
            &&& planned.stage == StageView::Serialize(name, part)
            &&& writing.stage == StageView::WriteFile(path_joined(dir, name), text)
            &&& end.stage == StageView::Ended(0, None)
        }),
{
}

/// What is shown of a template is what was read from the file that was named,
/// and showing it changes nothing.
pub proof fn law_template_is_shown_as_it_was_read(
    file: Option<Seq<char>>,
    dir: Seq<char>,
    bytes: Seq<u8>,
    t: ShownTemplate,
    said: Seq<char>,
)
    ensures
        ({
            let j = begun(BoxView::ShowTemplate(file), dir)->Ok_0;
            let read = next(j, EventView::Bytes(Ok(bytes)), said);
            let open = next(read, EventView::Template(Ok(t)), said);
            &&& j.stage == StageView::ReadShown(file)
            &&& read.stage == StageView::OpenShown(bytes)
            &&& open.stage == StageView::Print(template_text(t))
            &&& next(open, EventView::Printed, said).stage == StageView::Ended(0, None)
        }),
{
}

/// A failed step ends the job with an error, whichever job it is.
pub proof fn law_failed_step_ends_the_job(j: JobView, why: Seq<char>, said: Seq<char>)
    requires
        j.stage is OpenTemplate || j.stage is WriteHeader || j.stage is WriteChunk || j.stage
            is OpenStream || j.stage is Unlock || j.stage is WritePlain || j.stage is MakeDir
            || j.stage is WriteFile,
    ensures
        next(j, EventView::Done(Some(why)), said).stage is Ended,
        next(j, EventView::Done(Some(why)), said).stage->Ended_0 == 1,
        next(j, EventView::Done(Some(why)), said).stage->Ended_1 is Some,
{
}

/// The agent is asked at the project's own socket before any other, and an
/// empty name is none.
pub proof fn law_own_socket_is_asked_first(own: Vec<u8>, ambient: Option<Vec<u8>>)
    ensures
        own@.len() > 0 ==> socket_for(Some(own), ambient) == Some(own),
        own@.len() == 0 ==> socket_for(Some(own), ambient) == ambient,
        socket_for(None, ambient) == ambient,
{
}

/// A command line asks for what its first two words say, with the file that
/// comes third; only encrypting needs one.
pub proof fn law_box_commands_are_told_apart(file: Seq<char>, more: Seq<Seq<char>>)
    ensures
        box_meaning(seq!["stream"@, "encrypt"@, file] + more) == BoxView::Encrypt(file),
        box_meaning(seq!["stream"@, "decrypt"@, file] + more) == BoxView::Decrypt(Some(file)),
        box_meaning(seq!["tpl"@, "show"@, file] + more) == BoxView::ShowTemplate(Some(file)),
        box_meaning(seq!["stream"@, "encrypt"@]) is Reject,
        box_meaning(seq!["stream"@, "decrypt"@]) == BoxView::Decrypt(None),
        box_meaning(seq!["tpl"@, "show"@]) == BoxView::ShowTemplate(None),
        box_meaning(seq!["stream"@]) is Usage,
        box_meaning(seq![]) is Usage,
{
    reveal_strlit("stream");
    reveal_strlit("tpl");
    reveal_strlit("encrypt");
    reveal_strlit("decrypt");
    reveal_strlit("create");
    reveal_strlit("show");
    assert("stream"@.len() == 6 && "tpl"@.len() == 3 && "encrypt"@[0] == 'e' && "decrypt"@[0]
        == 'd' && "create"@.len() == 6 && "show"@.len() == 4);
    let a = seq!["stream"@, "encrypt"@, file] + more;
    let b = seq!["stream"@, "decrypt"@, file] + more;
    let c = seq!["tpl"@, "show"@, file] + more;
    assert(a[0] == "stream"@ && a[1] == "encrypt"@ && a[2] == file);
    assert(b[0] == "stream"@ && b[1] == "decrypt"@ && b[2] == file);
    assert(c[0] == "tpl"@ && c[1] == "show"@ && c[2] == file);
}

} // verus!
