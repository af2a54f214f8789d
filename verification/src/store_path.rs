//! Paths into the store, as text: their components, their parents, and the
//! ones that are refused.
//!
//! Components are what lies between slashes. Empty components and `.` do not
//! count, but for a `.` at the very start; a slash at the very start is a
//! component of its own.
use crate::text::{
    cat2, cat3, chars_of, find_char, find_from, lemma_find_from, opt_text, same, split, split_on,
    string_between, texts,
};
use vstd::prelude::*;
use vstd::slice::{slice_subrange, slice_to_vec};

verus! {

// --------------------------------------------------------------- components

/// How many characters stand before the first ordinary component: the slash
/// of a path from the root, or a `.` at the start.
pub open spec fn lead(p: Seq<char>) -> int {
    if p.len() > 0 && (p[0] == '/' || (p[0] == '.' && (p.len() == 1 || p[1] == '/'))) {
        1
    } else {
        0
    }
}

/// Whether what stands between two slashes does not count.
pub open spec fn skippable(c: Seq<char>) -> bool {
    c.len() == 0 || c == seq!['.']
}

/// The components among some pieces.
pub open spec fn kept(pieces: Seq<Seq<char>>) -> Seq<Seq<char>>
    decreases pieces.len(),
{
    if pieces.len() == 0 {
        seq![]
    } else if skippable(pieces.last()) {
        kept(pieces.drop_last())
    } else {
        kept(pieces.drop_last()).push(pieces.last())
    }
}

/// The components of a path.
pub open spec fn components_of(p: Seq<char>) -> Seq<Seq<char>> {
    (if lead(p) == 1 {
        seq![p.take(1)]
    } else {
        seq![]
    }) + kept(split_on(p.skip(lead(p)), '/'))
}

/// Whether a path lies at or below another.
pub open spec fn is_under(p: Seq<char>, root: Seq<char>) -> bool {
    components_of(root).is_prefix_of(components_of(p))
}

/// Whether two paths have the same components.
pub open spec fn same_place(a: Seq<char>, b: Seq<char>) -> bool {
    components_of(a) == components_of(b)
}

fn lead_len(v: &Vec<char>) -> (r: usize)
    ensures
        r == lead(v@),
        r <= v@.len(),
{
    if v.len() > 0 && (v[0] == '/' || (v[0] == '.' && (v.len() == 1 || v[1] == '/'))) {
        1
    } else {
        0
    }
}

fn is_skippable(c: &str) -> (r: bool)
    ensures
        r == skippable(c@),
{
    proof {
        reveal_strlit(".");
        assert("."@ =~= seq!['.']);
    }
    c.is_empty() || same(c, ".")
}

/// The components of a path.
pub fn components(p: &str) -> (r: Vec<String>)
    ensures
        texts(r@) == components_of(p@),
{
    let v: Vec<char> = chars_of(p);
    let n: usize = lead_len(&v);
    let mut out: Vec<String> = Vec::new();
    if n == 1 {
        out.push(string_between(v.as_slice(), 0, 1));
    }
    let ghost head = texts(out@);
    proof {
        if n == 1 {
            assert(head =~= seq![p@.take(1)]);
        } else {
            assert(head =~= seq![]);
        }
    }
    let rest: String = string_between(v.as_slice(), n, v.len());
    assert(rest@ =~= p@.skip(n as int));
    let pieces: Vec<String> = split(rest.as_str(), '/');
    let ghost all = texts(pieces@);
    assert(head + kept(all.take(0)) =~= head);
    for i in 0..pieces.len()
        invariant
            all == texts(pieces@),
            texts(out@) == head + kept(all.take(i as int)),
    {
        assert(all.take(i + 1).drop_last() =~= all.take(i as int));
        assert(all.take(i + 1).last() == pieces@[i as int]@);
        if !is_skippable(pieces[i].as_str()) {
            let ghost before = out@;
            out.push(pieces[i].clone());
            assert(texts(out@) =~= texts(before).push(pieces@[i as int]@));
            assert(texts(out@) =~= head + kept(all.take(i + 1)));
        }
    }
    assert(all.take(all.len() as int) =~= all);
    out
}

/// Whether a path lies at or below another.
pub fn under(p: &str, root: &str) -> (r: bool)
    ensures
        r == is_under(p@, root@),
{
    let a: Vec<String> = components(p);
    let b: Vec<String> = components(root);
    let ghost xs = texts(a@);
    let ghost ys = texts(b@);
    if a.len() < b.len() {
        return false;
    }
    for i in 0..b.len()
        invariant
            xs == texts(a@),
            ys == texts(b@),
            xs == components_of(p@),
            ys == components_of(root@),
            a@.len() >= b@.len(),
            forall|j: int| 0 <= j < i ==> xs[j] == ys[j],
    {
        assert(xs[i as int] == a@[i as int]@ && ys[i as int] == b@[i as int]@);
        if !same(a[i].as_str(), b[i].as_str()) {
            assert(xs.subrange(0, ys.len() as int)[i as int] != ys[i as int]);
            return false;
        }
    }
    assert(xs.subrange(0, ys.len() as int) =~= ys);
    true
}

/// Whether two paths have the same components.
pub fn same_path(a: &str, b: &str) -> (r: bool)
    ensures
        r == same_place(a@, b@),
{
    let x: bool = under(a, b);
    let y: bool = under(b, a);
    proof {
        if x && y {
            assert(components_of(a@) =~= components_of(b@));
        }
    }
    x && y
}

/// Why a path is refused: it has `..` as a component. Two dots inside a name
/// do no harm.
pub fn sneaky_path_reason(path: &str) -> (r: Option<&'static str>)
    ensures
        r is Some <==> is_sneaky(path@),
        r is Some ==> r->0@ == "`..` component"@,
{
    let pieces: Vec<String> = split(path, '/');
    let ghost all = texts(pieces@);
    for i in 0..pieces.len()
        invariant
            all == texts(pieces@),
            all == split_on(path@, '/'),
            forall|j: int| 0 <= j < i ==> all[j] != ".."@,
    {
        assert(all[i as int] == pieces@[i as int]@);
        if same(pieces[i].as_str(), "..") {
            return Some("`..` component");
        }
    }
    None
}

/// Whether a path leads up.
pub open spec fn is_sneaky(path: Seq<char>) -> bool {
    split_on(path, '/').contains(".."@)
}

/// The words for a path that is refused.
pub fn sneaky_message(reason: &str) -> (r: String)
    ensures
        r@ == "Error: You've attempted to pass a sneaky path to piggy ("@ + reason@
            + "). Go home."@,
{
    cat3(
        "Error: You've attempted to pass a sneaky path to piggy (",
        reason,
        "). Go home.",
    )
}

// ------------------------------------------------------------------ parents

/// Where the last component begins.
pub open spec fn last_start(p: Seq<char>, from: int) -> int
    decreases p.len(),
{
    if p.len() == 0 || p.len() <= from {
        from
    } else if p.last() == '/' {
        p.len() as int
    } else {
        last_start(p.drop_last(), from)
    }
}

/// What stands before the last component and its slash.
pub open spec fn before_last(p: Seq<char>, from: int) -> Seq<char> {
    let s = last_start(p, from);
    if s > from {
        p.take(s - 1)
    } else {
        p.take(s)
    }
}

proof fn lemma_last_start(p: Seq<char>, from: int)
    requires
        0 <= from <= p.len(),
    ensures
        from <= last_start(p, from) <= p.len(),
        before_last(p, from).len() <= p.len(),
        from < p.len() ==> before_last(p, from).len() < p.len(),
        from <= before_last(p, from).len(),
    decreases p.len(),
{
    if p.len() > from && p.last() != '/' {
        lemma_last_start(p.drop_last(), from);
    }
}

/// A path without what does not count at its end.
pub open spec fn trim_tail(p: Seq<char>, from: int) -> Seq<char>
    decreases p.len(),
    when 0 <= from <= p.len()
    via trim_tail_decreases
{
    if p.len() <= from {
        p
    } else if skippable(p.skip(last_start(p, from))) {
        trim_tail(before_last(p, from), from)
    } else {
        p
    }
}

#[via_fn]
proof fn trim_tail_decreases(p: Seq<char>, from: int) {
    lemma_last_start(p, from);
}

proof fn lemma_trim_tail(p: Seq<char>, from: int)
    requires
        0 <= from <= p.len(),
    ensures
        from <= trim_tail(p, from).len() <= p.len(),
    decreases p.len(),
{
    lemma_last_start(p, from);
    if p.len() > from && skippable(p.skip(last_start(p, from))) {
        lemma_trim_tail(before_last(p, from), from);
    }
}

/// The path without its last component; `None` for the root and for nothing.
pub open spec fn parent_of(p: Seq<char>) -> Option<Seq<char>> {
    let n = lead(p);
    let t = trim_tail(p, n);
    if t.len() > n {
        Some(trim_tail(before_last(t, n), n))
    } else if n == 1 && p[0] != '/' {
        Some(seq![])
    } else {
        None
    }
}

/// The last component, unless it is `..`.
pub open spec fn file_name_of(p: Seq<char>) -> Option<Seq<char>> {
    let n = lead(p);
    let t = trim_tail(p, n);
    if t.len() > n && t.skip(last_start(t, n)) != ".."@ {
        Some(t.skip(last_start(t, n)))
    } else {
        None
    }
}

/// A parent is shorter than its child.
pub proof fn lemma_parent_is_shorter(p: Seq<char>)
    ensures
        parent_of(p) is Some ==> parent_of(p)->0.len() < p.len(),
{
    let n = lead(p);
    lemma_trim_tail(p, n);
    let t = trim_tail(p, n);
    lemma_last_start(t, n);
    if t.len() > n {
        lemma_trim_tail(before_last(t, n), n);
    }
}

fn last_start_below(v: &Vec<char>, end: usize, from: usize) -> (r: usize)
    requires
        from <= end <= v@.len(),
    ensures
        r == last_start(v@.take(end as int), from as int),
        from <= r <= end,
{
    let mut i: usize = end;
    while i > from && v[i - 1] != '/'
        invariant
            from <= i <= end <= v@.len(),
            last_start(v@.take(end as int), from as int) == last_start(
                v@.take(i as int),
                from as int,
            ),
        decreases i,
    {
        assert(v@.take(i as int).drop_last() =~= v@.take(i - 1));
        i = i - 1;
    }
    i
}

fn before_last_below(v: &Vec<char>, end: usize, from: usize) -> (r: usize)
    requires
        from <= end <= v@.len(),
    ensures
        v@.take(r as int) == before_last(v@.take(end as int), from as int),
        from <= r <= end,
        from < end ==> r < end,
{
    let s: usize = last_start_below(v, end, from);
    proof {
        lemma_last_start(v@.take(end as int), from as int);
    }
    if s > from {
        assert(v@.take(s - 1) =~= v@.take(end as int).take(s - 1));
        s - 1
    } else {
        assert(v@.take(s as int) =~= v@.take(end as int).take(s as int));
        s
    }
}

fn trim_tail_below(v: &Vec<char>, end: usize, from: usize) -> (r: usize)
    requires
        from <= end <= v@.len(),
    ensures
        v@.take(r as int) == trim_tail(v@.take(end as int), from as int),
        from <= r <= end,
{
    let mut i: usize = end;
    while i > from
        invariant
            from <= i <= end <= v@.len(),
            trim_tail(v@.take(end as int), from as int) == trim_tail(
                v@.take(i as int),
                from as int,
            ),
        decreases i,
    {
        let s: usize = last_start_below(v, i, from);
        let last: String = string_between(v.as_slice(), s, i);
        assert(last@ =~= v@.take(i as int).skip(s as int));
        if !is_skippable(last.as_str()) {
            return i;
        }
        i = before_last_below(v, i, from);
    }
    i
}

/// The path without its last component.
pub fn parent(p: &str) -> (r: Option<String>)
    ensures
        match r {
            Some(s) => parent_of(p@) == Some(s@),
            None => parent_of(p@) is None,
        },
        r is Some ==> r->0@.len() < p@.len(),
{
    proof {
        lemma_parent_is_shorter(p@);
    }
    let v: Vec<char> = chars_of(p);
    let n: usize = lead_len(&v);
    assert(v@.take(v@.len() as int) =~= v@);
    let t: usize = trim_tail_below(&v, v.len(), n);
    if t > n {
        let b: usize = before_last_below(&v, t, n);
        let e: usize = trim_tail_below(&v, b, n);
        let s: String = string_between(v.as_slice(), 0, e);
        assert(s@ =~= v@.take(e as int));
        Some(s)
    } else if n == 1 && v[0] != '/' {
        let s: String = String::new();
        assert(s@ =~= seq![]);
        Some(s)
    } else {
        None
    }
}

/// The last component, unless it is `..`.
pub fn file_name(p: &str) -> (r: Option<String>)
    ensures
        match r {
            Some(s) => file_name_of(p@) == Some(s@),
            None => file_name_of(p@) is None,
        },
{
    let v: Vec<char> = chars_of(p);
    let n: usize = lead_len(&v);
    assert(v@.take(v@.len() as int) =~= v@);
    let t: usize = trim_tail_below(&v, v.len(), n);
    if t > n {
        let s: usize = last_start_below(&v, t, n);
        let last: String = string_between(v.as_slice(), s, t);
        assert(last@ =~= v@.take(t as int).skip(s as int));
        if same(last.as_str(), "..") {
            None
        } else {
            Some(last)
        }
    } else {
        None
    }
}

/// A path below another, or the path itself where it starts at the root.
pub open spec fn path_joined(a: Seq<char>, b: Seq<char>) -> Seq<char> {
    if b.len() > 0 && b[0] == '/' {
        b
    } else if a.len() == 0 || a.last() == '/' {
        a + b
    } else {
        a + "/"@ + b
    }
}

/// A path below another, or the path itself where it starts at the root.
pub fn join_path(a: &str, b: &str) -> (r: String)
    ensures
        r@ == path_joined(a@, b@),
{
    if b.unicode_len() > 0 && b.get_char(0) == '/' {
        return b.to_owned();
    }
    let n: usize = a.unicode_len();
    if n == 0 || a.get_char(n - 1) == '/' {
        cat2(a, b)
    } else {
        cat3(a, "/", b)
    }
}

/// Where an entry of the store lies in it; the folder that it is looked for
/// from, and nothing for an entry at the top.
pub open spec fn search_folder(path: Seq<char>) -> Seq<char> {
    match parent_of(path) {
        Some(p) => p,
        None => seq![],
    }
}

/// The folder of an entry, and nothing for one at the top.
pub fn path_parent_for_search(path: &str) -> (r: String)
    ensures
        r@ == search_folder(path@),
{
    match parent(path) {
        Some(p) => p,
        None => {
            let s: String = String::new();
            assert(s@ =~= seq![]);
            s
        },
    }
}

/// The file of an entry.
pub open spec fn entry_file(root: Seq<char>, name: Seq<char>) -> Seq<char> {
    path_joined(root, name + ".ebox"@)
}

/// The file of an entry.
pub fn passfile(root: &str, name: &str) -> (r: String)
    ensures
        r@ == entry_file(root@, name@),
{
    join_path(root, cat2(name, ".ebox").as_str())
}

// ----------------------------------------------------------------- climbing

/// A path and the folders above it, as long as they lie in the store.
/// `with_root` says whether the store's own folder counts.
pub open spec fn climb(p: Option<Seq<char>>, root: Seq<char>, with_root: bool) -> Seq<Seq<char>>
    decreases
            if p is Some {
                p->0.len() + 1
            } else {
                0
            },
    via climb_decreases
{
    match p {
        None => seq![],
        Some(c) => if is_under(c, root) && (with_root || !same_place(c, root)) {
            seq![c] + climb(parent_of(c), root, with_root)
        } else {
            seq![]
        },
    }
}

#[via_fn]
proof fn climb_decreases(p: Option<Seq<char>>, root: Seq<char>, with_root: bool) {
    if p is Some {
        lemma_parent_is_shorter(p->0);
    }
}

fn climb_from(start: Option<String>, root: &str, with_root: bool) -> (r: Vec<String>)
    ensures
        texts(r@) == climb(opt_text(start), root@, with_root),
{
    let mut out: Vec<String> = Vec::new();
    let mut current: Option<String> = start;
    let ghost whole = climb(opt_text(start), root@, with_root);
    assert(texts(out@) + whole =~= whole);
    loop
        invariant_except_break
            whole == texts(out@) + climb(opt_text(current), root@, with_root),
        ensures
            whole == texts(out@),
        decreases
                if current is Some {
                    current->0@.len() + 1
                } else {
                    0
                },
    {
        match current {
            None => {
                assert(texts(out@) + seq![] =~= texts(out@));
                break;
            },
            Some(c) => {
                if !under(c.as_str(), root) || (!with_root && same_path(c.as_str(), root)) {
                    assert(texts(out@) + seq![] =~= texts(out@));
                    break;
                }
                let ghost done = texts(out@);
                let up: Option<String> = parent(c.as_str());
                let ghost rest = climb(opt_text(up), root@, with_root);
                out.push(c);
                assert(texts(out@) =~= done.push(c@));
                assert(done.push(c@) + rest =~= done + (seq![c@] + rest));
                current = up;
            },
        }
    }
    out
}

/// The folders to ask, in order, for the repository of a path: those above
/// it, up to the store's own.
pub fn repository_candidates(path: &str, root: &str) -> (r: Vec<String>)
    ensures
        texts(r@) == climb(parent_of(path@), root@, true),
{
    climb_from(parent(path), root, true)
}

/// The folders to remove, in order, as long as each is empty: a folder and
/// those above it, but not the store's own.
pub fn removable_folders(start: &str, root: &str) -> (r: Vec<String>)
    ensures
        texts(r@) == climb(Some(start@), root@, false),
{
    climb_from(Some(start.to_owned()), root, false)
}

/// Nothing outside the store is ever asked or removed, and its own folder is
/// never removed.
pub proof fn law_climbing_stays_in_the_store(
    p: Option<Seq<char>>,
    root: Seq<char>,
    with_root: bool,
    i: int,
)
    requires
        0 <= i < climb(p, root, with_root).len(),
    ensures
        is_under(climb(p, root, with_root)[i], root),
        with_root || !same_place(climb(p, root, with_root)[i], root),
    decreases
            if p is Some {
                p->0.len() + 1
            } else {
                0
            },
{
    let c = p->0;
    lemma_parent_is_shorter(c);
    if i > 0 {
        law_climbing_stays_in_the_store(parent_of(c), root, with_root, i - 1);
    }
}

/// A path and the folders above it, as far as they have a name.
pub open spec fn ancestry(p: Option<Seq<char>>) -> Seq<Seq<char>>
    decreases
            if p is Some {
                p->0.len() + 1
            } else {
                0
            },
    via ancestry_decreases
{
    match p {
        None => seq![],
        Some(c) => if c.len() == 0 {
            seq![]
        } else {
            seq![c] + ancestry(parent_of(c))
        },
    }
}

#[via_fn]
proof fn ancestry_decreases(p: Option<Seq<char>>) {
    if p is Some {
        lemma_parent_is_shorter(p->0);
    }
}

/// A folder and those above it, in the order in which one asks whether they
/// are there.
pub fn ancestors(dir: &str) -> (r: Vec<String>)
    requires
        dir@.len() > 0,
    ensures
        texts(r@) == ancestry(Some(dir@)),
{
    let mut out: Vec<String> = Vec::new();
    let mut current: Option<String> = Some(dir.to_owned());
    let ghost whole = ancestry(Some(dir@));
    assert(texts(out@) + whole =~= whole);
    loop
        invariant_except_break
            whole == texts(out@) + ancestry(opt_text(current)),
        ensures
            whole == texts(out@),
        decreases
                if current is Some {
                    current->0@.len() + 1
                } else {
                    0
                },
    {
        match current {
            None => {
                assert(texts(out@) + seq![] =~= texts(out@));
                break;
            },
            Some(c) => {
                if c.as_str().is_empty() {
                    assert(texts(out@) + seq![] =~= texts(out@));
                    break;
                }
                let ghost done = texts(out@);
                let up: Option<String> = parent(c.as_str());
                let ghost rest = ancestry(opt_text(up));
                out.push(c);
                assert(texts(out@) =~= done.push(c@));
                assert(done.push(c@) + rest =~= done + (seq![c@] + rest));
                current = up;
            },
        }
    }
    out
}

/// One line for each folder that was made, the outermost first.
pub open spec fn made_lines(missing: Seq<Seq<char>>) -> Seq<Seq<char>>
    decreases missing.len(),
{
    if missing.len() == 0 {
        seq![]
    } else {
        seq!["mkdir: created directory '"@ + missing.last() + "'"@] + made_lines(
            missing.drop_last(),
        )
    }
}

/// Tells which folders were made; `missing` has the innermost first.
pub fn mkdir_report(missing: &Vec<String>) -> (r: Vec<String>)
    ensures
        texts(r@) == made_lines(texts(missing@)),
{
    let mut out: Vec<String> = Vec::new();
    let mut i: usize = missing.len();
    let ghost all = texts(missing@);
    assert(all.take(all.len() as int) =~= all);
    assert(texts(out@) + made_lines(all) =~= made_lines(all));
    while i > 0
        invariant
            i <= missing@.len(),
            all == texts(missing@),
            made_lines(all) == texts(out@) + made_lines(all.take(i as int)),
        decreases i,
    {
        i = i - 1;
        let ghost done = texts(out@);
        let ghost now = all.take(i + 1);
        assert(now.drop_last() =~= all.take(i as int));
        assert(now.last() == missing@[i as int]@);
        out.push(cat3("mkdir: created directory '", missing[i].as_str(), "'"));
        assert(texts(out@) =~= done.push(
            "mkdir: created directory '"@ + missing@[i as int]@ + "'"@,
        ));
        assert(texts(out@) + made_lines(all.take(i as int)) =~= done + made_lines(now));
    }
    assert(texts(out@) + made_lines(all.take(0)) =~= texts(out@));
    out
}

// ------------------------------------------------------------------ display

/// The text without what does not count at its start.
pub open spec fn trim_head(b: Seq<char>) -> Seq<char>
    decreases b.len(),
    via trim_head_decreases
{
    let e = find_from(b, '/', 0);
    if b.len() == 0 || !skippable(b.take(e)) {
        b
    } else if e < b.len() {
        trim_head(b.skip(e + 1))
    } else {
        seq![]
    }
}

#[via_fn]
proof fn trim_head_decreases(b: Seq<char>) {
    lemma_find_from(b, '/', 0);
}

/// The text behind its first `n` components.
pub open spec fn drop_components(b: Seq<char>, n: nat) -> Seq<char>
    decreases n,
{
    let t = trim_head(b);
    let e = find_from(t, '/', 0);
    if n == 0 {
        t
    } else if e < t.len() {
        drop_components(t.skip(e + 1), (n - 1) as nat)
    } else {
        seq![]
    }
}

/// The path of something in the store, relative to the store; `None` for
/// what does not lie in it.
pub open spec fn relative(p: Seq<char>, root: Seq<char>) -> Option<Seq<char>> {
    let n = components_of(root).len();
    if !is_under(p, root) {
        None
    } else if n == 0 {
        Some(trim_tail(p, lead(p)))
    } else {
        Some(trim_tail(drop_components(p.skip(lead(p)), (n - lead(p)) as nat), 0))
    }
}

fn trim_head_from(v: &Vec<char>, from: usize) -> (r: usize)
    requires
        from <= v@.len(),
    ensures
        from <= r <= v@.len(),
        v@.skip(r as int) == trim_head(v@.skip(from as int)),
{
    let mut i: usize = from;
    while i < v.len()
        invariant
            from <= i <= v@.len(),
            trim_head(v@.skip(from as int)) == trim_head(v@.skip(i as int)),
        decreases v@.len() - i,
    {
        let e: usize = find_char(v.as_slice(), '/', i);
        let piece: String = string_between(v.as_slice(), i, e);
        proof {
            lemma_find_in_tail(v@, i as int);
            assert(piece@ =~= v@.skip(i as int).take(e - i));
        }
        if !is_skippable(piece.as_str()) {
            return i;
        }
        if e < v.len() {
            assert(v@.skip(i as int).skip(e - i + 1) =~= v@.skip(e + 1));
            i = e + 1;
        } else {
            assert(v@.skip(v@.len() as int) =~= seq![]);
            return v.len();
        }
    }
    assert(v@.skip(v@.len() as int) =~= seq![]);
    i
}

/// Looking for a slash in the rest of a text is looking for it from there.
proof fn lemma_find_in_tail(s: Seq<char>, i: int)
    requires
        0 <= i <= s.len(),
    ensures
        find_from(s, '/', i) == i + find_from(s.skip(i), '/', 0),
{
    lemma_find_from(s, '/', i);
    lemma_find_from(s.skip(i), '/', 0);
    let a = find_from(s, '/', i);
    let b = find_from(s.skip(i), '/', 0);
    if a < i + b {
        assert(s.skip(i)[a - i] == s[a]);
    }
    if i + b < a {
        assert(s.skip(i)[b] == s[i + b]);
    }
}

/// The path of something in the store, relative to the store.
pub fn relative_to(p: &str, root: &str) -> (r: Option<String>)
    ensures
        match r {
            Some(s) => relative(p@, root@) == Some(s@),
            None => relative(p@, root@) is None,
        },
{
    if !under(p, root) {
        return None;
    }
    let v: Vec<char> = chars_of(p);
    let l: usize = lead_len(&v);
    let names: Vec<String> = components(root);
    let n: usize = names.len();
    assert(texts(names@).len() == n);
    if n == 0 {
        assert(v@.take(v@.len() as int) =~= v@);
        let e: usize = trim_tail_below(&v, v.len(), l);
        let s: String = string_between(v.as_slice(), 0, e);
        assert(s@ =~= v@.take(e as int));
        return Some(s);
    }
    let ghost want = drop_components(p@.skip(l as int), (n - l) as nat);
    let mut left: usize = n - l;
    let mut i: usize = l;
    loop
        invariant_except_break
            v@ == p@,
            i <= v@.len(),
            want == drop_components(v@.skip(i as int), left as nat),
        ensures
            v@ == p@,
            i <= v@.len(),
            want == v@.skip(i as int),
        decreases left,
    {
        i = trim_head_from(&v, i);
        if left == 0 {
            break;
        }
        let e: usize = find_char(v.as_slice(), '/', i);
        proof {
            lemma_find_in_tail(v@, i as int);
        }
        if e >= v.len() {
            i = v.len();
            assert(v@.skip(i as int) =~= seq![]);
            break;
        }
        assert(v@.skip(i as int).skip(e - i + 1) =~= v@.skip(e + 1));
        left = left - 1;
        i = e + 1;
    }
    let rest: Vec<char> = slice_to_vec(slice_subrange(v.as_slice(), i, v.len()));
    assert(rest@ =~= want);
    assert(rest@.take(rest@.len() as int) =~= rest@);
    let e: usize = trim_tail_below(&rest, rest.len(), 0);
    let s: String = string_between(rest.as_slice(), 0, e);
    assert(s@ =~= rest@.take(e as int));
    Some(s)
}

} // verus!
