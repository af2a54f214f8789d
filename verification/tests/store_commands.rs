//! The commands on the password store: command lines, paths, and what other
//! programs are asked.
use piggy::confirm::{confirm, question};
use piggy::copy_move::{
    dirname, new_place, parse_args as parse_move, record_new, record_old, resolve_new, resolve_old,
    run_copy, run_move, transfer_args, with_ebox_suffix, GitStep, Op,
};
use piggy::crypt::{first_line, missing_entry, secret_file};
use piggy::edit::{
    after_editor, commit_message as edit_message, editor_command, is_unchanged, make_tmp_file_name,
    parse_args as parse_edit, random_alphanumeric, run as run_edit, seed_of, AfterEdit,
};
use piggy::fallback::{exec_pivy, is_safe_pivy_tool_name, launch_failed, piggy_ids_binary};
use piggy::find::{build_glob, listing, plan as find_plan, strip_ebox_suffix};
use piggy::git::{not_a_repository, run as run_git, temp_dir, GitPlan, InitStep};
use piggy::git_ops::{
    add_and_commit, add_args, commit_args, git_at, has_staged_changes, inside_args, rm_args,
    said_true, signing_args, status_args, CommitStep, GitExit, GitReply,
};
use piggy::grep::{closed_block, has_matches, header, plan as grep_plan, split_display};
use piggy::init::{
    choose_recipient, detect_args, is_piggy_recipient_markl_id, messages, parse_args as parse_init,
    piggy_ids_text, run as run_init, target_conflict, tmp_sibling,
};
use piggy::insert::{
    commit_message as insert_message, echo_plaintext, overwrite_question,
    parse_args as parse_insert, prompts, run as run_insert, silent_plaintext,
    trim_trailing_newline, Mode,
};
use piggy::luks::{complaint, exit_code, plan as luks_plan, run as run_luks, Action};
use piggy::store_path::{
    ancestors, components, file_name, join_path, mkdir_report, parent, path_parent_for_search,
    relative_to, removable_folders, repository_candidates, same_path, sneaky_path_reason, under,
};
use piggy::version::{parse_piggy_version, version_or_dev};

fn s(v: &[&str]) -> Vec<String> {
    v.iter().map(|x| x.to_string()).collect()
}

// --------------------------------------------------------------------- find

#[test]
fn glob_single_term() {
    assert_eq!(build_glob(&s(&["foo"])), "*foo*");
}

#[test]
fn glob_multiple_terms() {
    assert_eq!(build_glob(&s(&["foo", "bar"])), "*foo*|*bar*");
}

#[test]
fn glob_three_terms() {
    assert_eq!(build_glob(&s(&["a", "b", "c"])), "*a*|*b*|*c*");
}

#[test]
fn strip_at_end_of_line() {
    assert_eq!(strip_ebox_suffix("foo.ebox"), "foo");
}

#[test]
fn strip_before_symlink_arrow() {
    assert_eq!(strip_ebox_suffix("foo.ebox -> ../bar.ebox"), "foo -> ../bar");
}

#[test]
fn strip_preserves_ansi_reset_at_eol() {
    let line = "├── \x1b[01;32mfoo.ebox\x1b[0m";
    assert_eq!(strip_ebox_suffix(line), "├── \x1b[01;32mfoo\x1b[0m");
}

#[test]
fn colour_code_needs_a_digit() {
    let line = "foo.ebox\x1b[m";
    assert_eq!(strip_ebox_suffix(line), line);
}

#[test]
fn strip_preserves_ansi_then_arrow() {
    let line = "foo.ebox\x1b[0m -> bar.ebox";
    assert_eq!(strip_ebox_suffix(line), "foo\x1b[0m -> bar");
}

#[test]
fn strip_leaves_unrelated_ebox_alone() {
    assert_eq!(strip_ebox_suffix("foo.eboxfoo"), "foo.eboxfoo");
}

#[test]
fn strip_empty() {
    assert_eq!(strip_ebox_suffix(""), "");
}

#[test]
fn strip_keeps_a_colour_code_that_has_no_end() {
    assert_eq!(strip_ebox_suffix("foo.ebox\x1b[0"), "foo.ebox\x1b[0");
    assert_eq!(strip_ebox_suffix("foo.ebox\x1b[0mx"), "foo.ebox\x1b[0mx");
}

#[test]
fn listing_drops_the_root_line() {
    assert_eq!(
        listing(&s(&["/store", "├── a.ebox", "└── b"])),
        s(&["├── a", "└── b"])
    );
    assert!(listing(&s(&[])).is_empty());
}

#[test]
fn find_asks_tree() {
    let p = find_plan(&s(&["foo", "bar"]), "/store").ok().unwrap();
    assert_eq!(p.heading, "Search Terms: foo,bar");
    assert_eq!(
        p.args,
        s(&[
            "-N",
            "-C",
            "-l",
            "--noreport",
            "-P",
            "*foo*|*bar*",
            "--prune",
            "--matchdirs",
            "--ignore-case",
            "/store"
        ])
    );
    assert_eq!(
        find_plan(&s(&[]), "/store").err().unwrap(),
        "Usage: piggy pass find <pass-names>..."
    );
}

// --------------------------------------------------------------------- grep

#[test]
fn split_display_strips_ebox_and_isolates_basename() {
    let (dir, name) = split_display("/store/folder/where/blah5.ebox", "/store");
    assert_eq!(dir, "folder/where/");
    assert_eq!(name, "blah5");
}

#[test]
fn split_display_top_level_entry_has_empty_dir() {
    let (dir, name) = split_display("/store/blah1.ebox", "/store");
    assert_eq!(dir, "");
    assert_eq!(name, "blah1");
}

#[test]
fn split_display_leaves_non_ebox_alone() {
    let (dir, name) = split_display("/store/folder/note.txt", "/store");
    assert_eq!(dir, "folder/");
    assert_eq!(name, "note.txt");
}

#[test]
fn split_display_outside_the_store_keeps_the_path() {
    let (dir, name) = split_display("/else/x.ebox", "/store");
    assert_eq!(dir, "/else/");
    assert_eq!(name, "x");
}

#[test]
fn grep_shows_matches_under_a_header() {
    assert_eq!(
        header("/store/a/b.ebox", "/store"),
        "\x1b[94ma/\x1b[1mb\x1b[0m:"
    );
    assert_eq!(closed_block(b"hit".to_vec()), b"hit\n".to_vec());
    assert_eq!(closed_block(b"hit\n".to_vec()), b"hit\n".to_vec());
    assert!(has_matches(true, &b"x".to_vec()));
    assert!(!has_matches(true, &Vec::new()));
    assert!(!has_matches(false, &b"x".to_vec()));
    assert_eq!(
        grep_plan(&s(&["-i", "x"])).unwrap(),
        s(&["--color=always", "-i", "x"])
    );
    assert_eq!(
        grep_plan(&s(&[])).unwrap_err(),
        "Usage: piggy pass grep [GREPOPTIONS] search-string"
    );
}

// ----------------------------------------------------------------- mv and cp

#[test]
fn parse_args_requires_two_positionals() {
    assert!(parse_move(Op::Move, &s(&["a"])).is_err());
    assert!(parse_move(Op::Move, &s(&["a", "b", "c"])).is_err());
    let o = parse_move(Op::Move, &s(&["a", "b"])).unwrap();
    assert!(!o.force);
    assert_eq!(o.old, "a");
    assert_eq!(o.new, "b");
}

#[test]
fn parse_args_force_flag() {
    let o = parse_move(Op::Copy, &s(&["-f", "a", "b"])).unwrap();
    assert!(o.force);
    let o = parse_move(Op::Copy, &s(&["--force", "a", "b"])).unwrap();
    assert!(o.force);
}

#[test]
fn parse_args_dashdash_terminates_flags() {
    let o = parse_move(Op::Move, &s(&["--", "-weird", "dst"])).unwrap();
    assert_eq!(o.old, "-weird");
    assert_eq!(o.new, "dst");
}

#[test]
fn with_ebox_suffix_appends_to_final_component() {
    assert_eq!(with_ebox_suffix("/store/a/cred"), "/store/a/cred.ebox");
}

#[test]
fn sneaky_path_rejects_parent_dir_component() {
    assert!(sneaky_path_reason("../etc").is_some());
    assert!(sneaky_path_reason("a/../b").is_some());
    assert!(sneaky_path_reason("a..b").is_none());
}

#[test]
fn move_and_copy_name_themselves_in_errors() {
    assert_eq!(
        run_move(&s(&["-x", "a", "b"])).unwrap_err(),
        "piggy pass mv: unknown flag: -x"
    );
    assert_eq!(
        run_copy(&s(&["a"])).unwrap_err(),
        "Usage: piggy pass cp [--force,-f] old-path new-path"
    );
    assert_eq!(
        run_move(&s(&["a", "../b"])).unwrap_err(),
        "Error: You've attempted to pass a sneaky path to piggy (`..` component). Go home."
    );
}

#[test]
fn old_path_is_an_entry_unless_a_folder_was_named() {
    let (path, dir) = resolve_old("/store", "a/b", true, true);
    assert_eq!((path.as_str(), dir.as_str()), ("/store/a/b.ebox", "/store/a"));
    let (path, dir) = resolve_old("/store", "a/b/", true, true);
    assert_eq!((path.as_str(), dir.as_str()), ("/store/a/b", "/store/a/b"));
    let (path, dir) = resolve_old("/store", "a/b/", false, true);
    assert_eq!((path.as_str(), dir.as_str()), ("/store/a/b.ebox", "/store/a"));
    let (path, _) = resolve_old("/store", "a/b", true, false);
    assert_eq!(path, "/store/a/b");
}

#[test]
fn new_path_gets_the_suffix_of_an_entry() {
    assert_eq!(
        resolve_new(new_place("/store", "c"), false, false),
        "/store/c.ebox"
    );
    assert_eq!(resolve_new(new_place("/store", "c"), true, false), "/store/c");
    assert_eq!(resolve_new(new_place("/store", "c"), false, true), "/store/c");
    assert_eq!(
        resolve_new(new_place("/store", "c/"), false, false),
        "/store/c/"
    );
    assert_eq!(dirname("/store/c/"), "/store/c");
    assert_eq!(dirname("/store/c"), "/store");
    assert_eq!(dirname("c"), "c");
}

#[test]
fn transfer_asks_only_where_someone_can_answer() {
    assert_eq!(transfer_args(Op::Move, "o", "n", true), s(&["-f", "-v", "o", "n"]));
    assert_eq!(
        transfer_args(Op::Copy, "o", "n", false),
        s(&["-i", "-r", "-v", "o", "n"])
    );
}

#[test]
fn moves_are_recorded_once_the_old_path_is_gone() {
    let o = parse_move(Op::Move, &s(&["a", "b"])).unwrap();
    assert_eq!(
        record_new(Op::Move, &o, "/s/a.ebox", "/s/b.ebox", true),
        vec![
            GitStep::Rm("/s/a.ebox".into()),
            GitStep::AddAndCommit("/s/b.ebox".into(), "Rename a to b.".into())
        ]
    );
    assert!(record_new(Op::Move, &o, "/s/a.ebox", "/s/b.ebox", false).is_empty());
    assert_eq!(
        record_new(Op::Copy, &o, "/s/a.ebox", "/s/b.ebox", false),
        vec![GitStep::AddAndCommit("/s/b.ebox".into(), "Copy a to b.".into())]
    );
    assert_eq!(
        record_old(&o, "/s/a.ebox", true),
        vec![
            GitStep::Rm("/s/a.ebox".into()),
            GitStep::CommitIfChanged("/s/a.ebox".into(), "Remove a.".into())
        ]
    );
    assert!(record_old(&o, "/s/a.ebox", false).is_empty());
}

// --------------------------------------------------------------------- edit

#[test]
fn parse_args_requires_one_positional() {
    assert!(parse_edit(&s(&[])).is_err());
    assert_eq!(parse_edit(&s(&["cred1"])).unwrap(), "cred1");
    assert!(parse_edit(&s(&["a", "b"])).is_err());
}

#[test]
fn parse_args_rejects_flags() {
    assert!(parse_edit(&s(&["-f", "cred1"])).is_err());
}

#[test]
fn parse_args_trims_trailing_slash() {
    assert_eq!(parse_edit(&s(&["folder/sub/"])).unwrap(), "folder/sub");
}

#[test]
fn parse_args_double_dash_terminator_accepts_positional() {
    assert_eq!(parse_edit(&s(&["--", "cred1"])).unwrap(), "cred1");
}

#[test]
fn make_tmp_file_name_converts_slashes_to_dashes() {
    let name = make_tmp_file_name("folder/subfolder/cred1", seed_of(12345, 678));
    assert!(name.ends_with("-folder-subfolder-cred1.txt"), "got: {name}");
}

#[test]
fn make_tmp_file_name_has_six_char_random_prefix() {
    let name = make_tmp_file_name("x", seed_of(987654321, 42));
    let (prefix, rest) = name.split_once('-').unwrap();
    assert_eq!(prefix.len(), 6);
    assert!(prefix.chars().all(|c| c.is_ascii_alphanumeric()));
    assert_eq!(rest, "x.txt");
}

#[test]
fn make_tmp_file_name_preserves_top_level_name() {
    let name = make_tmp_file_name("cred1", seed_of(1, 1));
    assert!(name.ends_with("-cred1.txt"), "got: {name}");
}

#[test]
fn make_tmp_file_lives_under_secure_tmpdir() {
    let secure = std::path::PathBuf::from("/tmp/secure");
    let name = make_tmp_file_name("folder/cred1", seed_of(7, 7));
    let joined = secure.join(&name);
    assert_eq!(joined.parent(), Some(secure.as_path()));
    assert!(name.contains("-folder-cred1.txt"));
}

#[test]
fn path_parent_for_search_strips_basename() {
    assert_eq!(path_parent_for_search("a/b/c"), "a/b");
}

#[test]
fn path_parent_for_search_returns_empty_for_top_level() {
    assert_eq!(path_parent_for_search("cred1"), "");
}

#[test]
fn sneaky_path_rejects_parent_component() {
    assert!(sneaky_path_reason("../etc").is_some());
    assert!(sneaky_path_reason("a/../b").is_some());
}

#[test]
fn edit_sneaky_path_accepts_normal() {
    assert!(sneaky_path_reason("a/b").is_none());
    assert!(sneaky_path_reason("foo..bar").is_none());
}

#[test]
fn is_unchanged_returns_false_when_passfile_missing() {
    assert!(!is_unchanged(&None, &Some(b"new content".to_vec())));
    assert!(!is_unchanged(&Some(b"old".to_vec()), &None));
    assert!(!is_unchanged(&Some(b"old".to_vec()), &Some(b"new".to_vec())));
    assert!(is_unchanged(&Some(b"old".to_vec()), &Some(b"old".to_vec())));
}

#[test]
fn seed_and_letters_follow_from_their_input() {
    assert_eq!(
        seed_of(u64::MAX, 5),
        u64::MAX
            .wrapping_mul(0x9e3779b97f4a7c15)
            .wrapping_add(5)
    );
    let mut seed: u64 = 99;
    let mut want = String::new();
    let alphabet: &[u8] = b"abcdefghijklmnopqrstuvwxyzABCDEFGHIJKLMNOPQRSTUVWXYZ0123456789";
    for _ in 0..8 {
        seed ^= seed << 13;
        seed ^= seed >> 7;
        seed ^= seed << 17;
        want.push(alphabet[(seed % 62) as usize] as char);
    }
    assert_eq!(random_alphanumeric(99, 8), want);
}

#[test]
fn edit_finds_the_entry_and_its_folder() {
    let p = run_edit(&s(&["a/b/"]), "/store").ok().unwrap();
    assert_eq!(p.path, "a/b");
    assert_eq!(p.passfile, "/store/a/b.ebox");
    assert_eq!(p.folder, "a");
    assert_eq!(
        run_edit(&s(&[]), "/store").err().unwrap(),
        "Usage: piggy pass edit pass-name"
    );
    assert!(run_edit(&s(&["a/../b"]), "/store")
        .err()
        .unwrap()
        .contains("sneaky path"));
}

#[test]
fn edit_ends_by_what_the_editor_left() {
    assert_eq!(after_editor(true, false), AfterEdit::Encrypt);
    assert_eq!(
        after_editor(false, false),
        AfterEdit::Stop("New password not saved.".into(), 1)
    );
    assert_eq!(
        after_editor(true, true),
        AfterEdit::Stop("Password unchanged.".into(), 0)
    );
    assert_eq!(editor_command(None), "vi");
    assert_eq!(editor_command(Some(String::new())), "vi");
    assert_eq!(editor_command(Some("nano".into())), "nano");
    assert_eq!(
        edit_message(true, "a", "vi"),
        "Edit password for a using vi."
    );
    assert_eq!(
        edit_message(false, "a", "vi"),
        "Add password for a using vi."
    );
}

#[test]
fn confirmation_needs_a_yes_at_a_terminal() {
    assert!(confirm(false, &None));
    assert!(confirm(true, &Some(" y\n".into())));
    assert!(confirm(true, &Some("Y".into())));
    assert!(!confirm(true, &Some("yes".into())));
    assert!(!confirm(true, &Some(String::new())));
    assert!(!confirm(true, &None));
    assert_eq!(question("Sure?"), "Sure? [y/N] ");
}

// ------------------------------------------------------------------- insert

#[test]
fn parse_default_silent_twice() {
    let o = parse_insert(&s(&["cred1"])).unwrap();
    assert_eq!(o.mode, Mode::SilentTwice);
    assert!(!o.force);
    assert_eq!(o.path, "cred1");
}

#[test]
fn parse_echo_short_and_long() {
    let o = parse_insert(&s(&["-e", "cred1"])).unwrap();
    assert_eq!(o.mode, Mode::Echo);
    let o = parse_insert(&s(&["--echo", "cred1"])).unwrap();
    assert_eq!(o.mode, Mode::Echo);
}

#[test]
fn parse_multiline_short_and_long() {
    let o = parse_insert(&s(&["-m", "cred1"])).unwrap();
    assert_eq!(o.mode, Mode::Multiline);
    let o = parse_insert(&s(&["--multiline", "cred1"])).unwrap();
    assert_eq!(o.mode, Mode::Multiline);
}

#[test]
fn parse_force_short_and_long() {
    let o = parse_insert(&s(&["-f", "cred1"])).unwrap();
    assert!(o.force);
    let o = parse_insert(&s(&["--force", "cred1"])).unwrap();
    assert!(o.force);
}

#[test]
fn parse_combines_echo_and_force() {
    let o = parse_insert(&s(&["-e", "-f", "cred1"])).unwrap();
    assert_eq!(o.mode, Mode::Echo);
    assert!(o.force);
}

#[test]
fn parse_rejects_echo_and_multiline_combined() {
    let err = parse_insert(&s(&["-e", "-m", "cred1"])).unwrap_err();
    assert!(err.contains("Usage"), "got: {err}");
}

#[test]
fn parse_rejects_zero_positionals() {
    let err = parse_insert(&s(&["-e"])).unwrap_err();
    assert!(err.contains("Usage"), "got: {err}");
}

#[test]
fn parse_rejects_extra_positionals() {
    let err = parse_insert(&s(&["-e", "a", "b"])).unwrap_err();
    assert!(err.contains("Usage"), "got: {err}");
}

#[test]
fn parse_strips_trailing_slash_from_path() {
    let o = parse_insert(&s(&["folder/sub/"])).unwrap();
    assert_eq!(o.path, "folder/sub");
}

#[test]
fn parent_for_search_strips_basename() {
    assert_eq!(path_parent_for_search("a/b/c"), "a/b");
}

#[test]
fn parent_for_search_returns_empty_for_top_level() {
    assert_eq!(path_parent_for_search("cred1"), "");
}

#[test]
fn sneaky_path_rejects_parent() {
    assert!(sneaky_path_reason("../etc").is_some());
    assert!(sneaky_path_reason("foo/../etc").is_some());
}

#[test]
fn insert_sneaky_path_accepts_normal() {
    assert!(sneaky_path_reason("a/b").is_none());
}

#[test]
fn trim_trailing_newline_strips_lf_and_crlf() {
    let mut s = "x\n".to_string();
    trim_trailing_newline(&mut s);
    assert_eq!(s, "x");
    let mut s = "x\r\n".to_string();
    trim_trailing_newline(&mut s);
    assert_eq!(s, "x");
    let mut s = "x".to_string();
    trim_trailing_newline(&mut s);
    assert_eq!(s, "x");
}

#[test]
fn insert_takes_what_was_typed_with_one_line_feed() {
    assert_eq!(echo_plaintext("pä\r\n".into()), "pä\n".as_bytes().to_vec());
    assert_eq!(
        silent_plaintext("a\n".into(), "a".into()).unwrap(),
        b"a\n".to_vec()
    );
    assert_eq!(
        silent_plaintext("a\n".into(), "b\n".into()).unwrap_err(),
        "Error: the entered passwords do not match."
    );
    assert_eq!(prompts(Mode::Echo, "x"), s(&["Enter password for x: "]));
    assert_eq!(
        prompts(Mode::SilentTwice, "x"),
        s(&["Enter password for x: ", "Retype password for x: "])
    );
    assert_eq!(
        prompts(Mode::Multiline, "x"),
        s(&["Enter contents of x and press Ctrl+D when finished:\n\n"])
    );
}

#[test]
fn insert_asks_before_it_overwrites() {
    let p = run_insert(&s(&["-m", "a/b"]), "/store").ok().unwrap();
    assert_eq!(p.mode, Mode::Multiline);
    assert_eq!(p.passfile, "/store/a/b.ebox");
    assert_eq!(p.folder, "a");
    assert!(run_insert(&s(&["../b"]), "/store").is_err());
    assert_eq!(
        overwrite_question(false, true, "a").unwrap(),
        "An entry already exists for a. Overwrite it?"
    );
    assert!(overwrite_question(true, true, "a").is_none());
    assert!(overwrite_question(false, false, "a").is_none());
    assert_eq!(insert_message("a"), "Add given password for a to store.");
}

// --------------------------------------------------------------------- init

#[test]
fn parse_args_empty() {
    let o = parse_init(&s(&[])).unwrap();
    assert!(o.id_path.is_empty());
    assert!(o.key.is_empty());
    assert!(o.guid.is_empty());
}

#[test]
fn parse_args_short_flags() {
    let o = parse_init(&s(&[
        "-p",
        "team-a",
        "-k",
        "pivy_ecdh_p256_pub-xxx",
        "-g",
        "GUIDHEX",
    ]))
    .unwrap();
    assert_eq!(o.id_path, "team-a");
    assert_eq!(o.key, "pivy_ecdh_p256_pub-xxx");
    assert_eq!(o.guid, "GUIDHEX");
}

#[test]
fn parse_args_long_flags() {
    let o = parse_init(&s(&[
        "--path",
        "team-a",
        "--key",
        "pivy_ecdh_p256_pub-xxx",
        "--guid",
        "GUIDHEX",
    ]))
    .unwrap();
    assert_eq!(o.id_path, "team-a");
    assert_eq!(o.key, "pivy_ecdh_p256_pub-xxx");
    assert_eq!(o.guid, "GUIDHEX");
}

#[test]
fn parse_args_flag_without_value_errors() {
    assert!(parse_init(&s(&["-p"])).is_err());
    assert!(parse_init(&s(&["-k"])).is_err());
    assert!(parse_init(&s(&["-g"])).is_err());
}

#[test]
fn parse_args_unknown_token_errors() {
    let err = parse_init(&s(&["bogus"])).unwrap_err();
    assert!(err.contains("Usage"), "got: {err}");
    let err = parse_init(&s(&["--unknown"])).unwrap_err();
    assert!(err.contains("Usage"), "got: {err}");
}

#[test]
fn parse_args_dashdash_terminates() {
    let o = parse_init(&s(&["-k", "pivy_ecdh_p256_pub-x", "--"])).unwrap();
    assert_eq!(o.key, "pivy_ecdh_p256_pub-x");
}

#[test]
fn sneaky_path_rejects_parent_dir() {
    assert!(sneaky_path_reason("../etc").is_some());
    assert!(sneaky_path_reason("a/../b").is_some());
    assert!(sneaky_path_reason("..").is_some());
}

#[test]
fn sneaky_path_accepts_double_dot_inside_name() {
    assert!(sneaky_path_reason("a..b").is_none());
    assert!(sneaky_path_reason("team-a").is_none());
    assert!(sneaky_path_reason("foo/bar").is_none());
}

#[test]
fn markl_id_accepts_bare_form() {
    assert!(is_piggy_recipient_markl_id(
        "pivy_ecdh_p256_pub-qqqsyqcyq5rqwzqfpg9scrgwpugpzysnzs23v9ccrydpk8qarc0jqr9fwqu"
    ));
}

#[test]
fn markl_id_accepts_purpose_tagged_form() {
    assert!(is_piggy_recipient_markl_id(
        "piggy-recipient-v1@pivy_ecdh_p256_pub-qqqsyqcyq5rqwzqfpg9scrgwpugpzysnzs23v9ccrydpk8qarc0jqr9fwqu"
    ));
}

#[test]
fn markl_id_rejects_wrong_format() {
    assert!(!is_piggy_recipient_markl_id(
        "sha256-qqqsyqcyq5rqwzqfpg9scrgwpugpzysnzs23v9ccrydpk8qarc0s7lcgm6"
    ));
    assert!(!is_piggy_recipient_markl_id(
        "age_x25519_pub-qqqsyqcyq5rqwzqfpg9scrgwpugpzysnzs23v9ccrydpk8qarc0jqr9fwqu"
    ));
    assert!(!is_piggy_recipient_markl_id(""));
    assert!(!is_piggy_recipient_markl_id("bogus"));
}

#[test]
fn tmp_sibling_is_in_same_dir() {
    let tmp = tmp_sibling("/store/work/piggy-ids", 4711);
    let tmp = std::path::Path::new(&tmp);
    assert_eq!(tmp.parent(), Some(std::path::Path::new("/store/work")));
    assert!(
        tmp.file_name()
            .and_then(|s| s.to_str())
            .is_some_and(|s| s.starts_with("piggy-ids.tmp.")),
        "unexpected tmp name: {:?}",
        tmp.file_name()
    );
    assert_eq!(tmp_sibling("/store/work/piggy-ids", 4711), "/store/work/piggy-ids.tmp.4711");
}

#[test]
fn write_piggy_ids_produces_three_lines() {
    let contents = piggy_ids_text("RECIPIENT_X");
    let lines: Vec<&str> = contents.lines().collect();
    assert_eq!(lines.len(), 3);
    assert_eq!(lines[0], "# piggy-ids — piggy 2.x recipient template");
    assert_eq!(
        lines[1],
        "# format: piggy-recipient-v1@pivy_ecdh_p256_pub-<blech32>  # optional comment"
    );
    assert_eq!(lines[2], "RECIPIENT_X");
}

#[test]
fn init_decides_on_folder_and_recipient() {
    let p = run_init(&s(&["-p", "team", "-k", "k"]), "/store").ok().unwrap();
    assert_eq!(p.tpl_dir, "/store/team");
    assert_eq!(p.piggy_ids, "/store/team/piggy-ids");
    assert_eq!(run_init(&s(&[]), "/store").ok().unwrap().tpl_dir, "/store");
    assert_eq!(
        run_init(&s(&["-k", "a", "-g", "b"]), "/store").err().unwrap(),
        "Error: -k and -g are mutually exclusive (-g only applies to auto-detect)."
    );
    assert!(run_init(&s(&["-p", ".."]), "/store").err().unwrap().contains("sneaky"));
    assert_eq!(
        target_conflict("x", "/store/x", true, false).unwrap(),
        "Error: /store/x exists but is not a directory."
    );
    assert!(target_conflict("", "/store", true, false).is_none());
    assert_eq!(detect_args(""), s(&["detect-pubkey"]));
    assert_eq!(detect_args("AB"), s(&["detect-pubkey", "--guid", "AB"]));
    assert_eq!(
        choose_recipient("", &Some("pivy_ecdh_p256_pub-q\n".into())).unwrap(),
        "pivy_ecdh_p256_pub-q"
    );
    assert_eq!(
        choose_recipient("sha256-q", &None).unwrap_err(),
        "Error: -k value must be a markl ID with format=pivy_ecdh_p256_pub (got: sha256...)."
    );
    assert_eq!(
        choose_recipient("", &None).unwrap_err(),
        "Error: piggy-ids detect-pubkey failed; pass -k <markl-id> if no PIV card is attached."
    );
    assert_eq!(messages("").0, "Password store initialized");
    assert_eq!(messages("t").1, "Set piggy recipients (t).");
    assert_eq!(
        messages("t").2,
        "Reencrypt password store using new piggy recipients (t)."
    );
}

// --------------------------------------------------------------------- luks

#[test]
fn format_puts_extra_before_device() {
    let p = luks_plan(
        &Action::Format {
            device: "/dev/vdb".into(),
        },
        &s(&["-q", "--pbkdf", "pbkdf2"]),
    );
    assert_eq!(
        p.argv,
        s(&[
            "luksFormat",
            "--type",
            "luks2",
            "--key-file",
            "-",
            "-q",
            "--pbkdf",
            "pbkdf2",
            "/dev/vdb"
        ])
    );
    assert!(p.needs_secret);
}

#[test]
fn open_orders_device_then_name() {
    let p = luks_plan(
        &Action::Open {
            device: "/dev/vdb".into(),
            name: "pigcrypt".into(),
        },
        &s(&[]),
    );
    assert_eq!(
        p.argv,
        s(&["open", "--key-file", "-", "/dev/vdb", "pigcrypt"])
    );
    assert!(p.needs_secret);
}

#[test]
fn add_key_takes_new_key_file_last() {
    let p = luks_plan(
        &Action::AddKey {
            device: "/dev/vdb".into(),
            new_key_file: "/root/pw2".into(),
        },
        &s(&["-q"]),
    );
    assert_eq!(
        p.argv,
        s(&[
            "luksAddKey",
            "--key-file",
            "-",
            "-q",
            "/dev/vdb",
            "/root/pw2"
        ])
    );
    assert!(p.needs_secret);
}

#[test]
fn close_needs_no_secret() {
    let p = luks_plan(
        &Action::Close {
            name: "pigcrypt".into(),
        },
        &s(&[]),
    );
    assert_eq!(p.argv, s(&["close", "pigcrypt"]));
    assert!(!p.needs_secret);
}

#[test]
fn missing_secret_is_a_piggy_side_error() {
    let (code, message) = run_luks(
        &Action::Open {
            device: "/dev/null".into(),
            name: "x".into(),
        },
        None,
        &s(&[]),
    )
    .err()
    .unwrap();
    assert_eq!(code, 1);
    assert_eq!(
        message,
        "piggy luks: --secret <pass-name> is required for this action"
    );
}

#[test]
fn luks_hands_the_secret_on() {
    let (plan, secret) = run_luks(
        &Action::Format {
            device: "/dev/vdb".into(),
        },
        Some("luks/x".into()),
        &s(&[]),
    )
    .ok()
    .unwrap();
    assert!(plan.needs_secret);
    assert_eq!(secret.as_deref(), Some("luks/x"));
    let (_, secret) = run_luks(
        &Action::Close { name: "x".into() },
        Some("ignored".into()),
        &s(&[]),
    )
    .ok()
    .unwrap();
    assert!(secret.is_none());
    assert_eq!(complaint("boom"), (1, "piggy luks: boom".to_string()));
    assert_eq!(exit_code(Some(5)), 5);
    assert_eq!(exit_code(None), 1);
}

#[test]
fn passphrase_is_the_first_line() {
    assert_eq!(
        secret_file("luks/x/", "/store").unwrap(),
        ("luks/x".to_string(), "/store/luks/x.ebox".to_string())
    );
    assert_eq!(
        secret_file("../x", "/store").unwrap_err(),
        "sneaky path (`..` component) in secret name \"../x\""
    );
    assert_eq!(missing_entry("x"), "x is not in the password store");
    assert_eq!(
        first_line("x", &b"key\nmore\n".to_vec()).unwrap(),
        b"key".to_vec()
    );
    assert_eq!(first_line("x", &b"key".to_vec()).unwrap(), b"key".to_vec());
    assert_eq!(
        first_line("x", &b"\nmore".to_vec()).unwrap_err(),
        "x: first line is empty"
    );
    assert!(first_line("x", &Vec::new()).is_err());
}

// ----------------------------------------------------------------- fallback

#[test]
fn accepts_known_pivy_tool_names() {
    for name in ["box", "tool", "agent", "ca", "luks", "zfs"] {
        assert!(is_safe_pivy_tool_name(name), "{name} should be accepted");
    }
}

#[test]
fn rejects_path_separators() {
    for bad in ["box/sh", "../bash", "tool/.."] {
        assert!(!is_safe_pivy_tool_name(bad), "{bad} should be rejected");
    }
}

#[test]
fn rejects_shell_metacharacters() {
    for bad in ["box;rm", "tool|cat", "box$X", "tool ", " tool", "box\n"] {
        assert!(!is_safe_pivy_tool_name(bad), "{bad:?} should be rejected");
    }
}

#[test]
fn rejects_empty() {
    assert!(!is_safe_pivy_tool_name(""));
}

#[test]
fn accepts_underscore_and_digits() {
    assert!(is_safe_pivy_tool_name("box2"));
    assert!(is_safe_pivy_tool_name("tool_v2"));
}

#[test]
fn exec_names_the_program() {
    assert_eq!(exec_pivy("box").unwrap(), "pivy-box");
    assert_eq!(
        exec_pivy("a\"b").unwrap_err(),
        (2, "piggy: invalid pivy tool name: \"a\\\"b\"".to_string())
    );
    assert_eq!(piggy_ids_binary(None), "piggy-ids");
    assert_eq!(piggy_ids_binary(Some("/x/ids".into())), "/x/ids");
    assert_eq!(
        launch_failed("pivy-box", "gone"),
        (127, "piggy: failed to launch pivy-box: gone".to_string())
    );
}

// ---------------------------------------------------------------------- git

#[test]
fn git_init_sets_up_the_diff() {
    match run_git("/store", &s(&["init"])) {
        GitPlan::Init(steps) => {
            assert_eq!(steps.len(), 6);
            match &steps[0] {
                InitStep::Git(a) => assert_eq!(a, &s(&["-C", "/store", "init"])),
                _ => panic!("git first"),
            }
            match &steps[2] {
                InitStep::Write(p, c) => {
                    assert_eq!(p, "/store/.gitattributes");
                    assert_eq!(c, "*.ebox diff=ebox\n");
                }
                _ => panic!("then the attributes"),
            }
            match &steps[5] {
                InitStep::Git(a) => assert_eq!(
                    a,
                    &s(&[
                        "-C",
                        "/store",
                        "config",
                        "--local",
                        "diff.ebox.textconv",
                        "pivy-box stream decrypt"
                    ])
                ),
                _ => panic!("configuration last"),
            }
        }
        GitPlan::Passthrough(_) => panic!("init is not passed through"),
    }
}

#[test]
fn git_passes_other_commands_through() {
    match run_git("/store", &s(&["log", "-p"])) {
        GitPlan::Passthrough(a) => assert_eq!(a, s(&["-C", "/store", "log", "-p"])),
        GitPlan::Init(_) => panic!("log is passed through"),
    }
    match run_git("/store", &s(&[])) {
        GitPlan::Passthrough(a) => assert_eq!(a, s(&["-C", "/store"])),
        GitPlan::Init(_) => panic!("nothing is passed through"),
    }
    assert!(not_a_repository().contains("piggy pass git init"));
    assert_eq!(temp_dir(Some(String::new())), None);
    assert_eq!(temp_dir(Some("/t".into())).as_deref(), Some("/t"));
    assert_eq!(temp_dir(None), None);
}

fn reply(ran: bool, success: bool, stdout: &[u8]) -> GitReply {
    GitReply {
        ran,
        success,
        stdout: stdout.to_vec(),
    }
}

#[test]
fn commit_follows_a_listed_change() {
    let step = add_and_commit(CommitStep::Add, &reply(true, true, b""));
    assert_eq!(step, CommitStep::Status);
    let step = add_and_commit(step, &reply(true, true, b" M a.ebox\n"));
    assert_eq!(step, CommitStep::AskSigning);
    assert_eq!(
        add_and_commit(step, &reply(true, true, b"true\n")),
        CommitStep::Commit(true)
    );
    assert_eq!(
        add_and_commit(step, &reply(true, false, b"true\n")),
        CommitStep::Commit(false)
    );
    assert_eq!(
        add_and_commit(CommitStep::Commit(true), &reply(false, false, b"")),
        CommitStep::Done
    );
    assert_eq!(
        add_and_commit(CommitStep::Add, &reply(true, false, b"")),
        CommitStep::Done
    );
    assert_eq!(
        add_and_commit(CommitStep::Status, &reply(true, true, b" \n")),
        CommitStep::Done
    );
}

#[test]
fn git_is_asked_in_its_own_words() {
    assert_eq!(add_args("/s", "p"), s(&["-C", "/s", "add", "p"]));
    assert_eq!(
        status_args("/s", "p"),
        s(&["-C", "/s", "status", "--porcelain", "p"])
    );
    assert_eq!(
        commit_args("/s", true, "m"),
        s(&["-C", "/s", "commit", "-S", "-m", "m"])
    );
    assert_eq!(
        commit_args("/s", false, "m"),
        s(&["-C", "/s", "commit", "-m", "m"])
    );
    assert_eq!(rm_args("/s", "p"), s(&["-C", "/s", "rm", "-qr", "p"]));
    assert_eq!(
        inside_args("/s"),
        s(&["-C", "/s", "rev-parse", "--is-inside-work-tree"])
    );
    assert_eq!(
        signing_args("/s"),
        s(&["-C", "/s", "config", "--bool", "--get", "piggy.signcommits"])
    );
    assert!(said_true(true, &b" true\n".to_vec()));
    assert!(!said_true(true, &b"truex".to_vec()));
    assert!(!said_true(false, &b"true".to_vec()));
    assert!(!has_staged_changes(&b" \t\r\n\x0c".to_vec()));
    assert!(has_staged_changes(&b" \x0b".to_vec()));
    assert_eq!(git_at(GitExit::Success), Ok(()));
    assert_eq!(git_at(GitExit::Failure(Some(3))), Err(3));
    assert_eq!(git_at(GitExit::Failure(None)), Err(1));
    assert_eq!(git_at(GitExit::NotStarted), Err(127));
}

// -------------------------------------------------------------------- paths

/// Each of these is what `std::path` makes of the same text.
#[test]
fn paths_agree_with_the_standard_library() {
    for p in [
        "", "/", "//", ".", "..", "a", "/a", "a/", "a/b", "a//b", "a/./b", "./a", "././a", "a/..",
        "../a", "/a/b/", "/a//b/./", "//a", "/.", "/./a", "a/.", "./", ".//.", "a/b/../c", "...",
    ] {
        let path = std::path::Path::new(p);
        let want_parent = path.parent().map(|x| x.to_str().unwrap().to_string());
        assert_eq!(parent(p), want_parent, "parent of {p:?}");
        let want_name = path.file_name().map(|x| x.to_str().unwrap().to_string());
        assert_eq!(file_name(p), want_name, "file name of {p:?}");
        let want: Vec<String> = path
            .components()
            .map(|c| c.as_os_str().to_str().unwrap().to_string())
            .collect();
        assert_eq!(components(p), want, "components of {p:?}");
        let sneaky = path
            .components()
            .any(|c| matches!(c, std::path::Component::ParentDir));
        assert_eq!(sneaky_path_reason(p).is_some(), sneaky, "sneaky {p:?}");
        for q in ["", "/", "a", "/a", "a/b", "./a", ".", "/a/b/c", "a/b/c"] {
            let other = std::path::Path::new(q);
            assert_eq!(under(p, q), path.starts_with(other), "{p:?} under {q:?}");
            assert_eq!(same_path(p, q), path == other, "{p:?} is {q:?}");
            assert_eq!(
                join_path(p, q),
                path.join(other).to_str().unwrap(),
                "{p:?} join {q:?}"
            );
            assert_eq!(
                relative_to(p, q),
                path.strip_prefix(other)
                    .ok()
                    .map(|x| x.to_str().unwrap().to_string()),
                "{p:?} in {q:?}"
            );
            assert_eq!(
                with_ebox_suffix(p),
                {
                    let mut name = path.file_name().map(|s| s.to_os_string()).unwrap_or_default();
                    name.push(".ebox");
                    path.with_file_name(name).to_str().unwrap().to_string()
                },
                "suffix on {p:?}"
            );
        }
    }
}

#[test]
fn repositories_are_looked_for_within_the_store() {
    assert_eq!(
        repository_candidates("/store/a/b/c.ebox", "/store"),
        s(&["/store/a/b", "/store/a", "/store"])
    );
    assert!(repository_candidates("/else/c.ebox", "/store").is_empty());
    assert_eq!(
        removable_folders("/store/a/b", "/store"),
        s(&["/store/a/b", "/store/a"])
    );
    assert!(removable_folders("/store", "/store").is_empty());
}

#[test]
fn made_folders_are_told_outermost_first() {
    assert_eq!(ancestors("a/b"), s(&["a/b", "a"]));
    assert_eq!(ancestors("/a/b"), s(&["/a/b", "/a", "/"]));
    assert_eq!(
        mkdir_report(&s(&["/s/a/b", "/s/a"])),
        s(&[
            "mkdir: created directory '/s/a'",
            "mkdir: created directory '/s/a/b'"
        ])
    );
}

// ------------------------------------------------------------------ version

#[test]
fn version_is_read_from_settings() {
    assert_eq!(
        parse_piggy_version("# remark\n\n  export PIGGY_VERSION = \"1.2.3\" \n").as_deref(),
        Some("1.2.3")
    );
    assert_eq!(
        parse_piggy_version("OTHER=1\nPIGGY_VERSION='2.0'\nPIGGY_VERSION=3\n").as_deref(),
        Some("2.0")
    );
    assert_eq!(
        parse_piggy_version("no setting\nPIGGY_VERSION=1\n").as_deref(),
        Some("1")
    );
    assert_eq!(parse_piggy_version("PIGGY_VERSION=\"\"\n"), None);
    assert_eq!(parse_piggy_version(""), None);
    assert_eq!(version_or_dev(&None), "dev");
    assert_eq!(version_or_dev(&Some("PIGGY_VERSION=1\r\n".into())), "1");
}
