//! What holds of the commands on the store.
use crate::copy_move::{new_steps, old_steps, request, target_of, transfer_words, GitStepView, Op};
use crate::edit::{editor_of, parsed as edit_parsed, planned as edit_planned};
use crate::find::{ansi_end, digits_end, glob_of, shown, stripped, stripped_from, suffix_at};
use crate::git::{planned as git_planned, GitPlanView};
use crate::git_ops::{
    commit_step, commit_words, failure_code, is_ascii_white, trimmed_bytes,
    CommitStep, GitExit, GitReply,
};
use crate::init::{
    is_recipient, parsed as init_parsed, parsed_from, planned as init_planned, recipient_of,
    OptsView,
};
use crate::insert::{parsed as insert_parsed, planned as insert_planned, Mode};
use crate::luks::{call, secret_for, Action};
use crate::options::{
    first_unknown, given, is_option, operands_of, options_end, options_of, picked,
};
use crate::path_laws::{ends_in_component, is_component, law_parent_and_name};
use crate::store_path::{entry_file, is_sneaky};
use crate::text::{
    cut, either, is_digit, is_white, law_cut_is_at_the_first, law_trim_end_takes_only_these,
    law_trim_takes_white_space_around, occurs_at,
};
use crate::version::{unquoted, version_from, without_export};
use vstd::prelude::*;

verus! {

// ----------------------------------------------------------- command lines

proof fn lemma_options_end(args: Seq<Seq<char>>, i: int, k: int)
    requires
        0 <= i <= k <= args.len(),
        forall|j: int| i <= j < k ==> #[trigger] args[j] != "--"@,
        k == args.len() || args[k] == "--"@,
    ensures
        options_end(args, i) == k,
    decreases k - i,
{
    if i < k {
        lemma_options_end(args, i + 1, k);
    }
}

proof fn lemma_picked_add(x: Seq<Seq<char>>, y: Seq<Seq<char>>, options: bool)
    ensures
        picked(x + y, options) == picked(x, options) + picked(y, options),
    decreases y.len(),
{
    if y.len() == 0 {
        assert(x + y =~= x);
        assert(picked(x, options) + picked(y, options) =~= picked(x, options));
    } else {
        lemma_picked_add(x, y.drop_last(), options);
        assert((x + y).drop_last() =~= x + y.drop_last());
        assert((x + y).last() == y.last());
        assert(picked(x + y, options) =~= picked(x, options) + picked(y, options));
    }
}

proof fn lemma_picked_same(x: Seq<Seq<char>>, all: bool, options: bool)
    requires
        forall|i: int| 0 <= i < x.len() ==> is_option(#[trigger] x[i]) == all,
    ensures
        picked(x, options) == if all == options {
            x
        } else {
            seq![]
        },
    decreases x.len(),
{
    if x.len() > 0 {
        let y = x.drop_last();
        assert forall|i: int| 0 <= i < y.len() implies is_option(#[trigger] y[i]) == all by {
            assert(y[i] == x[i]);
        }
        lemma_picked_same(y, all, options);
        assert(is_option(x[x.len() - 1]) == all);
        assert(x =~= y.push(x.last()));
    } else {
        assert(x =~= seq![]);
    }
}

/// Whether a text is an option, and not the mark that ends them.
pub open spec fn opens_with_hyphen(a: Seq<char>) -> bool {
    a.len() > 0 && a[0] == '-' && a != seq!['-', '-']
}

/// A command line is parted without loss: what opens with a hyphen is an
/// option, the rest are operands, each in order, and behind a double hyphen
/// everything is an operand.
pub proof fn law_command_line_is_parted(
    options: Seq<Seq<char>>,
    operands: Seq<Seq<char>>,
    after: Seq<Seq<char>>,
)
    requires
        forall|i: int| 0 <= i < options.len() ==> opens_with_hyphen(#[trigger] options[i]),
        forall|i: int|
            0 <= i < operands.len() ==> (#[trigger] operands[i]).len() == 0 || operands[i][0]
                != '-',
    ensures
        options_of(options + operands) == options,
        operands_of(options + operands) == operands,
        options_of(operands + options) == options,
        operands_of(operands + options) == operands,
        options_of(options + operands + seq![seq!['-', '-']] + after) == options,
        operands_of(options + operands + seq![seq!['-', '-']] + after) == operands + after,
{
    reveal_strlit("--");
    let mark = seq!['-', '-'];
    assert("--"@ =~= mark);
    assert forall|i: int| 0 <= i < options.len() implies is_option(#[trigger] options[i]) by {
        assert(opens_with_hyphen(options[i]));
    }
    lemma_picked_same(options, true, true);
    lemma_picked_same(options, true, false);
    lemma_picked_same(operands, false, true);
    lemma_picked_same(operands, false, false);
    lemma_both(options, operands, seq![]);
    lemma_both(operands, options, seq![]);
    let x = options + operands;
    let y = operands + options;
    let behind = seq![mark] + after;
    lemma_both(options, operands, behind);
    assert(x + Seq::<Seq<char>>::empty() =~= x);
    assert(y + Seq::<Seq<char>>::empty() =~= y);
    assert(x + behind =~= x + seq![mark] + after);
    assert((x + behind).skip(x.len() as int + 1) =~= after);
    assert(options + Seq::<Seq<char>>::empty() =~= options);
    assert(Seq::<Seq<char>>::empty() + options =~= options);
    assert(operands + Seq::<Seq<char>>::empty() =~= operands);
    assert(Seq::<Seq<char>>::empty() + operands =~= operands);
}

proof fn lemma_both(a: Seq<Seq<char>>, b: Seq<Seq<char>>, behind: Seq<Seq<char>>)
    requires
        forall|i: int| 0 <= i < a.len() ==> #[trigger] a[i] != "--"@,
        forall|i: int| 0 <= i < b.len() ==> #[trigger] b[i] != "--"@,
        behind.len() == 0 || behind[0] == "--"@,
    ensures
        options_of(a + b + behind) == picked(a, true) + picked(b, true),
        operands_of(a + b + behind) == picked(a, false) + picked(b, false) + (if behind.len()
            > 0 {
            (a + b + behind).skip((a + b).len() as int + 1)
        } else {
            seq![]
        }),
{
    let x = a + b;
    let args = x + behind;
    assert forall|j: int| 0 <= j < x.len() implies #[trigger] args[j] != "--"@ by {
        if j < a.len() {
            assert(args[j] == a[j]);
        } else {
            assert(args[j] == b[j - a.len()]);
        }
    }
    lemma_options_end(args, 0, x.len() as int);
    assert(args.take(x.len() as int) =~= x);
    lemma_picked_add(a, b, true);
    lemma_picked_add(a, b, false);
}

/// An option is complained of exactly where it is not among the known ones,
/// and the first such one is named.
pub proof fn law_first_unknown_option_is_named(
    options: Seq<Seq<char>>,
    known: Seq<Seq<char>>,
    i: int,
)
    requires
        0 <= i <= options.len(),
    ensures
        match first_unknown(options, known, i) {
            None => forall|j: int|
                i <= j < options.len() ==> known.contains(#[trigger] options[j]),
            Some(o) => exists|k: int|
                {
                    &&& i <= k < options.len()
                    &&& o == #[trigger] options[k]
                    &&& !known.contains(o)
                    &&& forall|j: int| i <= j < k ==> known.contains(#[trigger] options[j])
                },
        },
    decreases options.len() - i,
{
    if i < options.len() {
        if known.contains(options[i]) {
            law_first_unknown_option_is_named(options, known, i + 1);
            if let Some(o) = first_unknown(options, known, i + 1) {
                let k = choose|k: int|
                    {
                        &&& i + 1 <= k < options.len()
                        &&& o == #[trigger] options[k]
                        &&& !known.contains(o)
                        &&& forall|j: int|
                            i + 1 <= j < k ==> known.contains(#[trigger] options[j])
                    };
                assert(options[k] == o);
            }
        } else {
            assert(options[i] == options[i]);
        }
    }
}

// -------------------------------------------------------- moving and copying

/// Two names are moved or copied from the first to the second, without a
/// question where that was asked for; any other number of names is refused.
pub proof fn law_first_name_goes_to_the_second(
    op: Op,
    flags: Seq<Seq<char>>,
    names: Seq<Seq<char>>,
)
    requires
        forall|i: int|
            0 <= i < flags.len() ==> #[trigger] flags[i] == "-f"@ || flags[i] == "--force"@,
        forall|i: int|
            0 <= i < names.len() ==> (#[trigger] names[i]).len() == 0 || names[i][0] != '-',
    ensures
        names.len() != 2 ==> request(op, flags + names) is Err,
        names.len() == 2 && !is_sneaky(names[0]) && !is_sneaky(names[1]) ==> request(
            op,
            flags + names,
        ) == Ok::<(bool, Seq<char>, Seq<char>), Seq<char>>((flags.len() > 0, names[0], names[1])),
{
    reveal_strlit("-f");
    reveal_strlit("--force");
    assert forall|i: int| 0 <= i < flags.len() implies opens_with_hyphen(#[trigger] flags[i]) by {
        assert(flags[i] == "-f"@ || flags[i] == "--force"@);
        if flags[i] == "-f"@ {
            assert(flags[i][1] == 'f');
        } else {
            assert(flags[i].len() == 7);
        }
    }
    law_command_line_is_parted(flags, names, seq![]);
    let known = seq!["-f"@, "--force"@];
    assert(known[0] == "-f"@ && known[1] == "--force"@);
    law_first_unknown_option_is_named(flags, known, 0);
    assert forall|i: int| 0 <= i < flags.len() implies known.contains(#[trigger] flags[i]) by {
        assert(flags[i] == "-f"@ || flags[i] == "--force"@);
    }
    assert(first_unknown(flags, known, 0) is None);
    if flags.len() > 0 {
        assert(flags[0] == "-f"@ || flags[0] == "--force"@);
        assert(given(flags, "-f"@, "--force"@));
    } else {
        assert(!given(flags, "-f"@, "--force"@));
    }
}

/// The program gets the two paths last, the old one first; only a copy goes
/// into folders; and it asks exactly where nothing else was wanted.
pub proof fn law_paths_come_last(op: Op, old_path: Seq<char>, new_path: Seq<char>, force: bool)
    ensures
        ({
            let w = transfer_words(op, old_path, new_path, force);
            let options = w.take(w.len() - 2);
            &&& w.len() >= 2
            &&& w[w.len() - 2] == old_path
            &&& w[w.len() - 1] == new_path
            &&& options.contains("-r"@) <==> op is Copy
            &&& options.contains("-f"@) <==> force
            &&& options.contains("-i"@) <==> !force
        }),
{
    reveal_strlit("-r");
    reveal_strlit("-f");
    reveal_strlit("-i");
    reveal_strlit("-v");
    assert("-r"@[1] == 'r' && "-f"@[1] == 'f' && "-i"@[1] == 'i' && "-v"@[1] == 'v');
    let w = transfer_words(op, old_path, new_path, force);
    let options = w.take(w.len() - 2);
    assert(options[0] == if force {
        "-f"@
    } else {
        "-i"@
    });
    if op is Copy {
        assert(options[1] == "-r"@);
        assert(options[2] == "-v"@);
        assert(options.len() == 3);
    } else {
        assert(options[1] == "-v"@);
        assert(options.len() == 2);
    }
}

/// An entry that does not go into a folder gets the suffix of entries, and
/// nothing else does.
pub proof fn law_only_an_entry_gets_the_suffix(path: Seq<char>, old_is_dir: bool, new_is_dir: bool)
    ensures
        target_of(path, old_is_dir, new_is_dir) == path || target_of(path, old_is_dir, new_is_dir)
            == path + ".ebox"@,
        target_of(path.push('/'), old_is_dir, new_is_dir) == path.push('/'),
        old_is_dir || new_is_dir ==> target_of(path, old_is_dir, new_is_dir) == path,
        !old_is_dir && !new_is_dir && path.len() > 0 && path.last() != '/' ==> target_of(
            path,
            old_is_dir,
            new_is_dir,
        ) == path + ".ebox"@,
{
}

/// A copy leaves the old path alone. A move that took it away has it removed
/// from both repositories, and the new path committed; one that left it
/// behind is not recorded.
pub proof fn law_move_is_recorded_once_done(
    op: Op,
    names: (Seq<char>, Seq<char>),
    old_path: Seq<char>,
    new_path: Seq<char>,
    gone: bool,
)
    ensures
        ({
            let n = new_steps(op, names, old_path, new_path, gone);
            let o = old_steps(names.0, old_path, gone);
            &&& n.contains(GitStepView::Rm(old_path)) <==> op is Move && gone
            &&& n.len() == 0 <==> op is Move && !gone
            &&& n.len() > 0 ==> n.last() is AddAndCommit && n.last()->AddAndCommit_0 == new_path
            &&& op is Copy ==> n.len() == 1
            &&& o.len() == 0 <==> !gone
            &&& gone ==> o[0] == GitStepView::Rm(old_path) && o.last() is CommitIfChanged
                && o.last()->CommitIfChanged_0 == old_path
        }),
{
    let n = new_steps(op, names, old_path, new_path, gone);
    if op is Move && gone {
        assert(n[0] == GitStepView::Rm(old_path));
    }
    if n.contains(GitStepView::Rm(old_path)) {
        let i = choose|i: int| 0 <= i < n.len() && n[i] == GitStepView::Rm(old_path);
        assert(op is Copy ==> n[0] is AddAndCommit);
    }
}

// ------------------------------------------------------ inserting and editing

/// An entry is inserted in the way that the options say, under its name
/// without the slashes at the end; both ways at once are refused, and so is
/// any number of names but one.
pub proof fn law_insert_follows_its_options(
    flags: Seq<Seq<char>>,
    name: Seq<char>,
    slashes: Seq<char>,
    more: Seq<char>,
)
    requires
        forall|i: int|
            0 <= i < flags.len() ==> #[trigger] flags[i] == "-m"@ || flags[i] == "-e"@ || flags[i]
                == "-f"@,
        name.len() > 0,
        name[0] != '-',
        name.last() != '/',
        more.len() > 0,
        more[0] != '-',
        forall|i: int| 0 <= i < slashes.len() ==> #[trigger] slashes[i] == '/',
    ensures
        ({
            let m = flags.contains("-m"@);
            let e = flags.contains("-e"@);
            let r = insert_parsed(flags + seq![name + slashes]);
            &&& m && e ==> r is Err
            &&& !(m && e) ==> r == Ok::<(Mode, bool, Seq<char>), Seq<char>>(
                (
                    if m {
                        Mode::Multiline
                    } else if e {
                        Mode::Echo
                    } else {
                        Mode::SilentTwice
                    },
                    flags.contains("-f"@),
                    name,
                ),
            )
            &&& insert_parsed(flags) is Err
            &&& insert_parsed(flags + seq![name, more]) is Err
        }),
{
    reveal_strlit("-m");
    reveal_strlit("-e");
    reveal_strlit("-f");
    reveal_strlit("--multiline");
    reveal_strlit("--echo");
    reveal_strlit("--force");
    assert forall|i: int| 0 <= i < flags.len() implies opens_with_hyphen(#[trigger] flags[i])
        && flags[i].len() == 2 by {
        assert(flags[i][1] == 'm' || flags[i][1] == 'e' || flags[i][1] == 'f');
    }
    assert(!flags.contains("--multiline"@) && !flags.contains("--echo"@) && !flags.contains(
        "--force"@,
    )) by {
        assert("--multiline"@.len() == 11 && "--echo"@.len() == 6 && "--force"@.len() == 7);
    }
    let given_name = name + slashes;
    assert(given_name[0] == name[0]);
    let known = crate::insert::known_options();
    assert(known[0] == "-m"@ && known[2] == "-e"@ && known[4] == "-f"@);
    assert forall|i: int| 0 <= i < flags.len() implies known.contains(#[trigger] flags[i]) by {
        assert(flags[i] == "-m"@ || flags[i] == "-e"@ || flags[i] == "-f"@);
    }
    law_first_unknown_option_is_named(flags, known, 0);
    assert(first_unknown(flags, known, 0) is None);
    law_command_line_is_parted(flags, seq![given_name], seq![]);
    law_command_line_is_parted(flags, seq![], seq![]);
    law_command_line_is_parted(flags, seq![name, more], seq![]);
    assert(flags + Seq::<Seq<char>>::empty() =~= flags);
    law_trim_end_takes_only_these(name, slashes, '/', '/');
}

/// One entry is edited, under its name without the slashes at the end; an
/// option or another number of names is refused.
pub proof fn law_edit_takes_one_name(
    name: Seq<char>,
    slashes: Seq<char>,
    more: Seq<char>,
    option: Seq<char>,
)
    requires
        name.len() > 0,
        name[0] != '-',
        name.last() != '/',
        more.len() > 0,
        more[0] != '-',
        opens_with_hyphen(option),
        forall|i: int| 0 <= i < slashes.len() ==> #[trigger] slashes[i] == '/',
    ensures
        edit_parsed(seq![name + slashes]) == Ok::<Seq<char>, Seq<char>>(name),
        edit_parsed(seq![name, more]) is Err,
        edit_parsed(seq![]) is Err,
        edit_parsed(seq![option, name]) is Err,
{
    let given_name = name + slashes;
    assert(given_name[0] == name[0]);
    let none = Seq::<Seq<char>>::empty();
    law_command_line_is_parted(none, seq![given_name], none);
    law_command_line_is_parted(none, seq![name, more], none);
    law_command_line_is_parted(none, none, none);
    law_command_line_is_parted(seq![option], seq![name], none);
    assert(none + seq![given_name] =~= seq![given_name]);
    assert(none + seq![name, more] =~= seq![name, more]);
    assert(none + none =~= none);
    assert(seq![option] + seq![name] =~= seq![option, name]);
    law_trim_end_takes_only_these(name, slashes, '/', '/');
}

/// An entry in a folder is edited and inserted as the file of its name in
/// that folder of the store, and encrypted to the recipients of the folder.
pub proof fn law_entry_is_kept_in_its_folder(
    root: Seq<char>,
    folder: Seq<char>,
    name: Seq<char>,
    mode: Mode,
    force: bool,
    args: Seq<Seq<char>>,
)
    requires
        ends_in_component(root),
        ends_in_component(folder),
        folder[0] != '/',
        is_component(name),
        name != seq!['.', '.'],
        !is_sneaky(folder),
    ensures
        ({
            let path = folder.push('/') + name;
            let file = root.push('/') + folder.push('/') + name + ".ebox"@;
            &&& edit_parsed(args) == Ok::<Seq<char>, Seq<char>>(path) ==> edit_planned(args, root)
                == Ok::<(Seq<char>, Seq<char>, Seq<char>), Seq<char>>((path, file, folder))
            &&& insert_parsed(args) == Ok::<(Mode, bool, Seq<char>), Seq<char>>(
                (mode, force, path),
            ) ==> insert_planned(args, root) == Ok::<
                (Seq<char>, Seq<char>, Seq<char>),
                Seq<char>,
            >((path, file, folder))
        }),
{
    reveal_strlit("/");
    let path = folder.push('/') + name;
    let file = root.push('/') + folder.push('/') + name + ".ebox"@;
    crate::path_laws::law_sneaky_is_a_double_dot_between_slashes(folder, name);
    crate::path_laws::law_sneaky_is_a_double_dot_between_slashes(name, seq![]);
    crate::path_laws::law_search_begins_in_the_folder(folder, name);
    assert(path[0] == folder[0]);
    assert((path + ".ebox"@)[0] == folder[0]);
    assert(entry_file(root, path) =~= file);
}

/// The editor that was named is used, and the usual one without one.
pub proof fn law_named_editor_is_used(editor: Seq<char>)
    ensures
        editor.len() > 0 ==> editor_of(Some(editor)) == editor,
        editor_of(Some(seq![])) == "vi"@,
        editor_of(None) == "vi"@,
{
}

// ---------------------------------------------------------------- setting up

/// Each option of `pass init` sets what it is named after, in whatever order
/// they come, and the last one counts; an option without a value is refused.
pub proof fn law_each_option_sets_its_own(
    p: Seq<char>,
    k: Seq<char>,
    g: Seq<char>,
    again: Seq<char>,
)
    ensures
        init_parsed(seq!["-p"@, p, "-k"@, k, "-g"@, g]) == Some(
            OptsView { id_path: p, key: k, guid: g },
        ),
        init_parsed(seq!["--guid"@, g, "--key"@, k, "--path"@, p]) == Some(
            OptsView { id_path: p, key: k, guid: g },
        ),
        init_parsed(seq!["-p"@, p, "-p"@, again]) == Some(
            OptsView { id_path: again, key: seq![], guid: seq![] },
        ),
        init_parsed(seq!["-p"@, p, "-k"@]) is None,
        init_parsed(seq![]) == Some(OptsView { id_path: seq![], key: seq![], guid: seq![] }),
{
    reveal_strlit("-p");
    reveal_strlit("-k");
    reveal_strlit("-g");
    reveal_strlit("--");
    reveal_strlit("--path");
    reveal_strlit("--key");
    reveal_strlit("--guid");
    assert("-p"@[1] == 'p' && "-k"@[1] == 'k' && "-g"@[1] == 'g' && "--"@[1] == '-');
    assert("--path"@.len() == 6 && "--key"@.len() == 5 && "--guid"@.len() == 6 && "--"@.len() == 2
        && "--path"@[2] == 'p' && "--guid"@[2] == 'g');
    reveal_with_fuel(parsed_from, 4);
}

/// The folder that is set up lies in the store under the name that was
/// given, and its recipients are in a file there; the store itself is set up
/// without a name. A key beside a card is refused, and so is a path that
/// leads up.
pub proof fn law_named_folder_is_set_up(args: Seq<Seq<char>>, root: Seq<char>, o: OptsView)
    requires
        init_parsed(args) == Some(o),
        ends_in_component(root),
        o.id_path.len() > 0 ==> is_component(o.id_path),
    ensures
        match init_planned(args, root) {
            Ok((opts, dir, ids)) => {
                &&& opts == o
                &&& o.key.len() == 0 || o.guid.len() == 0
                &&& o.id_path != seq!['.', '.']
                &&& dir == if o.id_path.len() == 0 {
                    root
                } else {
                    root.push('/') + o.id_path
                }
                &&& ids == dir.push('/') + "piggy-ids"@
            },
            Err(_) => o.key.len() > 0 && o.guid.len() > 0 || o.id_path == seq!['.', '.'],
        },
{
    reveal_strlit("piggy-ids");
    let name = "piggy-ids"@;
    assert forall|i: int| 0 <= i < name.len() implies #[trigger] name[i] != '/' by {}
    assert(is_component(name));
    law_parent_and_name(root, name);
    if o.id_path.len() > 0 {
        let d = root.push('/') + o.id_path;
        law_parent_and_name(root, o.id_path);
        crate::path_laws::law_sneaky_is_a_double_dot_between_slashes(o.id_path, seq![]);
        let n = o.id_path.len() as int;
        assert(d.last() == o.id_path[n - 1]);
        assert(o.id_path[n - 1] != '/');
        if n == 1 {
            if o.id_path[0] == '.' {
                assert(o.id_path =~= seq!['.']);
            }
        } else {
            assert(d[d.len() - 2] == o.id_path[n - 2]);
            assert(o.id_path[n - 2] != '/');
        }
        law_parent_and_name(d, name);
    } else {
        assert(o.id_path =~= seq![]);
    }
}

/// Entries are encrypted to the key that was given, and only without one to
/// that of the card, whatever line end it was printed with; and only to a key
/// of the right form.
pub proof fn law_given_key_comes_before_the_card(
    key: Seq<char>,
    detected: Option<Seq<char>>,
    line: Seq<char>,
    end: Seq<char>,
)
    requires
        forall|i: int| 0 <= i < end.len() ==> #[trigger] end[i] == '\n' || end[i] == '\r',
        line.len() > 0 ==> line.last() != '\n' && line.last() != '\r',
    ensures
        key.len() > 0 && is_recipient(key) ==> recipient_of(key, detected) == Ok::<
            Seq<char>,
            Seq<char>,
        >(key),
        key.len() > 0 && !is_recipient(key) ==> recipient_of(key, detected) is Err,
        is_recipient(line) ==> recipient_of(seq![], Some(line + end)) == Ok::<
            Seq<char>,
            Seq<char>,
        >(line),
        !is_recipient(line) ==> recipient_of(seq![], Some(line + end)) is Err,
        recipient_of(seq![], None) is Err,
        is_recipient(line) ==> exists|rest: Seq<char>|
            line == #[trigger] ("pivy_ecdh_p256_pub-"@ + rest) || line
                == "piggy-recipient-v1@"@ + ("pivy_ecdh_p256_pub-"@ + rest),
        is_recipient("pivy_ecdh_p256_pub-"@ + line),
        is_recipient("piggy-recipient-v1@pivy_ecdh_p256_pub-"@ + line),
{
    law_trim_end_takes_only_these(line, end, '\n', '\r');
    let a = "pivy_ecdh_p256_pub-"@;
    let b = "piggy-recipient-v1@pivy_ecdh_p256_pub-"@;
    assert((a + line).subrange(0, a.len() as int) =~= a);
    assert((b + line).subrange(0, b.len() as int) =~= b);
    if is_recipient(line) {
        reveal_strlit("pivy_ecdh_p256_pub-");
        reveal_strlit("piggy-recipient-v1@");
        reveal_strlit("piggy-recipient-v1@pivy_ecdh_p256_pub-");
        assert("piggy-recipient-v1@"@ + a =~= b);
        if a.is_prefix_of(line) {
            let rest = line.skip(a.len() as int);
            assert(line =~= a + rest);
        } else {
            let rest = line.skip(b.len() as int);
            assert(line =~= b + rest);
            assert(b + rest =~= "piggy-recipient-v1@"@ + (a + rest));
        }
    }
}

// ---------------------------------------------------------------------- git

proof fn lemma_trimmed_bytes(before: Seq<u8>, word: Seq<u8>, after: Seq<u8>)
    requires
        forall|i: int| 0 <= i < before.len() ==> is_ascii_white(#[trigger] before[i]),
        forall|i: int| 0 <= i < after.len() ==> is_ascii_white(#[trigger] after[i]),
        word.len() > 0,
        !is_ascii_white(word[0]),
        !is_ascii_white(word.last()),
    ensures
        trimmed_bytes(before + word + after) == word,
    decreases before.len() + after.len(),
{
    let s = before + word + after;
    if before.len() > 0 {
        let rest = before.skip(1);
        assert(s[0] == before[0]);
        assert(s.skip(1) =~= rest + word + after);
        assert forall|i: int| 0 <= i < rest.len() implies is_ascii_white(#[trigger] rest[i]) by {
            assert(rest[i] == before[i + 1]);
        }
        lemma_trimmed_bytes(rest, word, after);
    } else if after.len() > 0 {
        let rest = after.drop_last();
        assert(s[0] == word[0]);
        assert(s.last() == after[after.len() - 1]);
        assert(s.drop_last() =~= before + word + rest);
        assert forall|i: int| 0 <= i < rest.len() implies is_ascii_white(#[trigger] rest[i]) by {
            assert(rest[i] == after[i]);
        }
        lemma_trimmed_bytes(before, word, rest);
    } else {
        assert(s =~= word);
    }
}

/// A path that was added and has changes is committed, once, and signed
/// exactly where git says `true`, whatever white space surrounds it.
pub proof fn law_change_is_committed(
    added: GitReply,
    status: GitReply,
    signing: GitReply,
    last: GitReply,
    before: Seq<u8>,
    word: Seq<u8>,
    after: Seq<u8>,
)
    requires
        forall|i: int| 0 <= i < before.len() ==> is_ascii_white(#[trigger] before[i]),
        forall|i: int| 0 <= i < after.len() ==> is_ascii_white(#[trigger] after[i]),
        word.len() > 0,
        !is_ascii_white(word[0]),
        !is_ascii_white(word.last()),
        signing.stdout@ == before + word + after,
    ensures
        ({
            let one = commit_step(CommitStep::Add, added);
            let two = commit_step(one, status);
            let three = commit_step(two, signing);
            let changed = exists|i: int|
                0 <= i < status.stdout@.len() && !is_ascii_white(#[trigger] status.stdout@[i]);
            let commits = added.ran && added.success && status.ran && changed;
            &&& commits ==> three == CommitStep::Commit(
                signing.ran && signing.success && word == seq![116u8, 114u8, 117u8, 101u8],
            )
            &&& !commits ==> three == CommitStep::Done
            &&& commit_step(three, last) == CommitStep::Done
        }),
{
    lemma_trimmed_bytes(before, word, after);
}

/// Git's answers are read past spaces, tabs and the ends of lines and pages,
/// and past nothing else.
pub proof fn law_only_these_bytes_are_blank(b: u8)
    ensures
        is_ascii_white(b) <==> b == 0x20 || b == 0x09 || b == 0x0a || b == 0x0c || b == 0x0d,
{
}

/// A commit is signed exactly where that was asked for, and its message is
/// the last argument.
pub proof fn law_commit_has_its_message(tree: Seq<char>, sign: bool, message: Seq<char>)
    ensures
        ({
            let w = commit_words(tree, sign, message);
            &&& w.last() == message
            &&& w[1] == tree
            &&& w.len() == if sign {
                6nat
            } else {
                5nat
            }
            &&& sign ==> w[3] == "-S"@
        }),
{
}

/// A call of git hands on its own code; one that was killed or could not be
/// started is a failure all the same.
pub proof fn law_failed_call_has_a_code(e: GitExit, code: i32)
    ensures
        failure_code(e) is None <==> e is Success,
        failure_code(GitExit::Failure(Some(code))) == Some(code),
        failure_code(GitExit::Failure(None)) == Some(1i32),
        failure_code(GitExit::NotStarted) == Some(127i32),
{
}

/// Any command but `init` goes to git as it was written, in the store;
/// `init` does too, and then what is in the store is committed before the
/// settings are.
pub proof fn law_git_gets_the_command(root: Seq<char>, args: Seq<Seq<char>>)
    ensures
        match git_planned(root, args) {
            GitPlanView::Passthrough(a) => {
                &&& args.len() == 0 || args[0] != "init"@
                &&& a.len() == args.len() + 2
                &&& a[0] == "-C"@ && a[1] == root
                &&& a.skip(2) == args
            },
            GitPlanView::Init(steps) => {
                &&& args.len() > 0 && args[0] == "init"@
                &&& steps[0] is Git
                &&& steps[0]->Git_0.skip(2) == args
                &&& steps[1] is AddAndCommit && steps[1]->AddAndCommit_0 == root
                &&& steps[2] is Write
                &&& steps[3] is AddAndCommit
                &&& forall|i: int|
                    0 <= i < steps.len() && #[trigger] steps[i] is Git ==> steps[i]->Git_0[1]
                        == root
            },
        },
{
    let a = seq!["-C"@, root] + args;
    assert(a.skip(2) =~= args);
}

// --------------------------------------------------------------------- luks

/// The key comes from the input of `cryptsetup` in every action but closing;
/// the caller's own arguments stand as they are between that and the
/// operands, and a volume is named before what it is opened as or gets.
pub proof fn law_key_goes_to_the_input(action: Action, extra: Seq<Seq<char>>)
    ensures
        ({
            let c = call(action, extra);
            let n = c.len();
            match action {
                Action::Format { device } => c.last() == device@ && c[0] == "luksFormat"@ && c.subrange(
                    3,
                    5,
                ) == seq!["--key-file"@, "-"@] && c.subrange(5, n - 1) == extra,
                Action::Open { device, name } => c[n - 2] == device@ && c[n - 1] == name@ && c[0]
                    == "open"@ && c.subrange(1, 3) == seq!["--key-file"@, "-"@] && c.subrange(
                    3,
                    n - 2,
                ) == extra,
                Action::AddKey { device, new_key_file } => c[n - 2] == device@ && c[n - 1]
                    == new_key_file@ && c[0] == "luksAddKey"@ && c.subrange(1, 3) == seq![
                    "--key-file"@,
                    "-"@,
                ] && c.subrange(3, n - 2) == extra,
                Action::Close { name } => c[n - 1] == name@ && c[0] == "close"@ && c.subrange(
                    1,
                    n - 1,
                ) == extra,
            }
        }),
{
    let c = call(action, extra);
    let n = c.len();
    match action {
        Action::Format { device } => {
            assert(c.subrange(3, 5) =~= seq!["--key-file"@, "-"@]);
            assert(c.subrange(5, n - 1) =~= extra);
        },
        Action::Open { device, name } => {
            assert(c.subrange(1, 3) =~= seq!["--key-file"@, "-"@]);
            assert(c.subrange(3, n - 2) =~= extra);
        },
        Action::AddKey { device, new_key_file } => {
            assert(c.subrange(1, 3) =~= seq!["--key-file"@, "-"@]);
            assert(c.subrange(3, n - 2) =~= extra);
        },
        Action::Close { name } => {
            assert(c.subrange(1, n - 1) =~= extra);
        },
    }
}

/// Closing a volume needs no entry and gets none; everything else gets the
/// one that was named, and does not begin without.
pub proof fn law_only_closing_needs_no_entry(action: Action, secret: Option<String>)
    ensures
        secret_for(action, secret) is Err <==> !(action is Close) && secret is None,
        secret_for(action, secret) matches Ok(s) ==> (s is Some <==> !(action is Close)) && (s
            is Some ==> s == secret),
{
}

// ---------------------------------------------------------------- searching

/// A search finds any of its terms anywhere in a name: each stands between
/// stars, in order, with a bar between two.
pub proof fn law_every_term_is_searched(terms: Seq<Seq<char>>, t: Seq<char>)
    ensures
        glob_of(seq![t]) == seq!['*'] + t + seq!['*'],
        terms.len() > 0 ==> glob_of(terms.push(t)) == glob_of(terms) + seq!['|', '*'] + t + seq![
            '*',
        ],
{
    reveal_strlit("*");
    reveal_strlit("|");
    let f = |t: Seq<char>| crate::find::term_glob(t);
    let one = seq![t].map_values(f);
    assert("*"@ =~= seq!['*']);
    assert("|"@ =~= seq!['|']);
    assert(one[0] == seq!['*'] + t + seq!['*']);
    if terms.len() > 0 {
        let all = terms.push(t).map_values(f);
        assert(all.drop_last() =~= terms.map_values(f));
        assert(all.last() == seq!['*'] + t + seq!['*']);
        assert(glob_of(terms.push(t)) =~= glob_of(terms) + seq!['|', '*'] + t + seq!['*']);
    }
}

/// The first line that `tree` prints is the store's own and is not shown;
/// every other one is, in order.
pub proof fn law_all_but_the_first_line_is_shown(first: Seq<char>, rows: Seq<Seq<char>>, i: int)
    requires
        0 <= i < rows.len(),
    ensures
        shown(seq![first] + rows).len() == rows.len(),
        shown(seq![first] + rows)[i] == stripped(rows[i]),
{
    assert((seq![first] + rows).skip(1) =~= rows);
}

proof fn lemma_digits_to(s: Seq<char>, i: int, k: int)
    requires
        0 <= i <= k < s.len(),
        forall|j: int| i <= j < k ==> is_digit(#[trigger] s[j]),
        !is_digit(s[k]),
    ensures
        digits_end(s, i) == k,
    decreases k - i,
{
    if i < k {
        assert(is_digit(s[i]));
        lemma_digits_to(s, i + 1, k);
    }
}

/// Up to the suffix nothing changes.
proof fn lemma_kept_to(s: Seq<char>, i: int, end: int)
    requires
        0 <= i <= end <= s.len(),
        forall|j: int| i <= j < end ==> #[trigger] s[j] != '.',
    ensures
        stripped_from(s, i) == s.subrange(i, end) + stripped_from(s, end),
    decreases end - i,
{
    if i < end {
        lemma_kept_to(s, i + 1, end);
        reveal_strlit(".ebox");
        assert(s[i] != '.');
        if occurs_at(s, ".ebox"@, i) {
            assert(s.subrange(i, i + 5)[0] == '.');
        }
        assert(stripped_from(s, i) =~= s.subrange(i, end) + stripped_from(s, end));
    } else {
        assert(s.subrange(i, end) =~= seq![]);
        assert(stripped_from(s, i) =~= s.subrange(i, end) + stripped_from(s, end));
    }
}

/// The colour that ends behind an entry's name is kept where the suffix is
/// dropped.
pub proof fn law_colour_behind_an_entry_is_kept(name: Seq<char>, digits: Seq<char>)
    requires
        forall|i: int| 0 <= i < name.len() ==> #[trigger] name[i] != '.',
        digits.len() > 0,
        forall|i: int| 0 <= i < digits.len() ==> is_digit(#[trigger] digits[i]),
    ensures
        stripped(name + ".ebox"@ + seq!['\u{1b}', '['] + digits + seq!['m']) == name + seq![
            '\u{1b}',
            '[',
        ] + digits + seq!['m'],
{
    reveal_strlit(".ebox");
    let code = seq!['\u{1b}', '['] + digits + seq!['m'];
    let s = name + ".ebox"@ + seq!['\u{1b}', '['] + digits + seq!['m'];
    let n = name.len() as int;
    let k = n + 7 + digits.len();
    assert(s[n + 5] == '\u{1b}' && s[n + 6] == '[' && s[k] == 'm');
    assert(s.len() == k + 1);
    assert forall|j: int| n + 7 <= j < k implies is_digit(#[trigger] s[j]) by {
        assert(s[j] == digits[j - n - 7]);
    }
    lemma_digits_to(s, n + 7, k);
    assert(ansi_end(s, n + 5) == k + 1);
    assert(s.subrange(n, n + 5) =~= ".ebox"@);
    assert(suffix_at(s, n));
    assert(stripped_from(s, k + 1) =~= seq![]);
    assert(s.subrange(n + 5, k + 1) =~= code);
    assert(stripped_from(s, n) =~= code);
    assert forall|j: int| 0 <= j < n implies #[trigger] s[j] != '.' by {
        assert(s[j] == name[j]);
    }
    lemma_kept_to(s, 0, n);
    assert(s.subrange(0, n) =~= name);
    assert(name + code =~= name + seq!['\u{1b}', '['] + digits + seq!['m']);
}

// ------------------------------------------------------------------ version

proof fn lemma_first_char_kept(t: Seq<char>)
    requires
        t.len() > 0,
        !is_white(t[0]),
    ensures
        crate::text::trim_start_by(t, crate::text::white()) == t,
{
}

/// The version is the value of the first line that sets it, exported or not,
/// in quotes or not; remarks and other lines before it do not matter.
pub proof fn law_version_is_the_value(
    rows: Seq<Seq<char>>,
    i: int,
    quotes: Seq<char>,
    version: Seq<char>,
    exported: bool,
)
    requires
        0 <= i < rows.len(),
        forall|k: int| 0 <= k < i ==> (#[trigger] rows[k]).len() == 0 || rows[k][0] == '#',
        quotes == Seq::<char>::empty() || quotes == seq!['"'] || quotes == seq!['\''],
        version.len() > 0,
        !is_white(version[0]),
        !is_white(version.last()),
        version[0] != '"' && version[0] != '\'',
        version.last() != '"' && version.last() != '\'',
        rows[i] == (if exported {
            "export "@
        } else {
            seq![]
        }) + "PIGGY_VERSION"@ + seq!['='] + quotes + version + quotes,
    ensures
        version_from(rows, 0) == Some(version),
{
    lemma_version_row(rows, i, quotes, version, exported);
    lemma_skipped_rows(rows, 0, i);
}

proof fn lemma_skipped_rows(rows: Seq<Seq<char>>, a: int, b: int)
    requires
        0 <= a <= b <= rows.len(),
        forall|k: int| a <= k < b ==> (#[trigger] rows[k]).len() == 0 || rows[k][0] == '#',
    ensures
        version_from(rows, a) == version_from(rows, b),
    decreases b - a,
{
    if a < b {
        lemma_skipped_rows(rows, a + 1, b);
        assert(rows[a].len() == 0 || rows[a][0] == '#');
        if rows[a].len() > 0 {
            lemma_first_char_kept(rows[a]);
        }
    }
}

proof fn lemma_unquoted(quotes: Seq<char>, version: Seq<char>)
    requires
        quotes == Seq::<char>::empty() || quotes == seq!['"'] || quotes == seq!['\''],
        version.len() > 0,
        !is_white(version[0]),
        !is_white(version.last()),
        version[0] != '"' && version[0] != '\'',
        version.last() != '"' && version.last() != '\'',
    ensures
        unquoted(quotes + version + quotes) == version,
{
    let v = quotes + version + quotes;
    assert(quotes.len() <= 1);
    assert(v[0] == if quotes.len() == 1 {
        quotes[0]
    } else {
        version[0]
    });
    assert(v.last() == if quotes.len() == 1 {
        quotes[0]
    } else {
        version.last()
    });
    law_trim_takes_white_space_around(seq![], v, seq![]);
    assert(seq![] + v + Seq::<char>::empty() =~= v);
    let p = either('"', '\'');
    let w = version + quotes;
    assert(crate::text::trim_start_by(w, p) == w) by {
        assert(w[0] == version[0]);
        assert(!p(w[0]));
    }
    if quotes.len() == 1 {
        assert(p(v[0]));
        assert(v.subrange(1, v.len() as int) =~= w);
    } else {
        assert(v =~= w);
    }
    law_trim_end_takes_only_these(version, quotes, '"', '\'');
}

proof fn lemma_version_row(
    rows: Seq<Seq<char>>,
    i: int,
    quotes: Seq<char>,
    version: Seq<char>,
    exported: bool,
)
    requires
        0 <= i < rows.len(),
        quotes == Seq::<char>::empty() || quotes == seq!['"'] || quotes == seq!['\''],
        version.len() > 0,
        !is_white(version[0]),
        !is_white(version.last()),
        version[0] != '"' && version[0] != '\'',
        version.last() != '"' && version.last() != '\'',
        rows[i] == (if exported {
            "export "@
        } else {
            seq![]
        }) + "PIGGY_VERSION"@ + seq!['='] + quotes + version + quotes,
    ensures
        version_from(rows, i) == Some(version),
{
    reveal_strlit("export ");
    reveal_strlit("PIGGY_VERSION");
    let key = "PIGGY_VERSION"@;
    let value = quotes + version + quotes;
    let bare = key.push('=') + value;
    let row = rows[i];
    assert(key.len() == 13 && "export "@.len() == 7);
    assert(bare[0] == key[0] && key[0] == 'P');
    if exported {
        assert(row =~= "export "@ + bare);
        assert(row[0] == 'e');
        assert(row.subrange(0, 7) =~= "export "@);
        assert(row.skip(7) =~= bare);
    } else {
        assert(row =~= bare);
        if "export "@.is_prefix_of(row) {
            assert(row.subrange(0, 7)[0] == 'e');
        }
    }
    lemma_first_char_kept(row);
    assert(without_export(row) == bare);
    law_cut_is_at_the_first(bare, '=');
    assert(bare[13] == '=');
    match cut(bare, '=') {
        None => {
            assert(bare[13] != '=');
        },
        Some((a, b)) => {
            if a.len() < 13 {
                assert(bare[a.len() as int] == '=');
                assert(key[a.len() as int] != '=');
            }
            if a.len() > 13 {
                assert(a[13] == bare[13]);
            }
            assert(a =~= key) by {
                assert forall|j: int| 0 <= j < 13 implies a[j] == key[j] by {
                    assert(a[j] == bare[j]);
                }
            }
            assert(b =~= value) by {
                assert forall|j: int| 0 <= j < b.len() implies b[j] == value[j] by {
                    assert(b[j] == bare[14 + j]);
                }
            }
        },
    }
    law_trim_takes_white_space_around(seq![], key, seq![]);
    assert(seq![] + key + Seq::<char>::empty() =~= key);
    lemma_unquoted(quotes, version);
}

} // verus!
