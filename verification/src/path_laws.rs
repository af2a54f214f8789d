//! What holds of the paths of the store.
use crate::copy_move::{dirname_of, ebox_of, source_of};
use crate::grep::shown_path;
use crate::init::sibling;
use crate::store_path::{
    ancestry, before_last, climb, components_of, drop_components, entry_file, file_name_of,
    is_sneaky, is_under, kept, last_start, lead, made_lines, parent_of, path_joined, relative,
    same_place, search_folder, skippable, trim_head, trim_tail,
};
use crate::text::{
    dec, find_from, glued, law_trim_end_takes_only_these, lemma_find_from,
    rfind_below, split_from, split_on, trim_end_two, without_suffix,
};
use vstd::prelude::*;

verus! {

// --------------------------------------------------------------- splitting

proof fn lemma_find_tail(x: Seq<char>, s: Seq<char>, c: char, i: int)
    requires
        0 <= i <= s.len(),
    ensures
        find_from(x + s, c, x.len() + i) == x.len() + find_from(s, c, i),
    decreases s.len() - i,
{
    if i < s.len() {
        assert((x + s)[x.len() + i] == s[i]);
        if s[i] != c {
            lemma_find_tail(x, s, c, i + 1);
        }
    }
}

proof fn lemma_find_head(a: Seq<char>, b: Seq<char>, c: char, i: int)
    requires
        0 <= i <= a.len(),
    ensures
        find_from(a.push(c) + b, c, i) == find_from(a, c, i),
    decreases a.len() - i,
{
    let s = a.push(c) + b;
    assert(i < a.len() ==> s[i] == a[i]);
    assert(s[a.len() as int] == c);
    if i < a.len() && a[i] != c {
        lemma_find_head(a, b, c, i + 1);
    }
}

proof fn lemma_split_tail(x: Seq<char>, s: Seq<char>, c: char, i: int)
    requires
        0 <= i <= s.len(),
    ensures
        split_from(x + s, c, x.len() + i) == split_from(s, c, i),
    decreases s.len() - i,
{
    lemma_find_tail(x, s, c, i);
    lemma_find_from(s, c, i);
    let j = find_from(s, c, i);
    if j >= s.len() {
        assert((x + s).subrange(x.len() + i, (x + s).len() as int) =~= s.subrange(
            i,
            s.len() as int,
        ));
    } else {
        lemma_split_tail(x, s, c, j + 1);
        assert((x + s).subrange(x.len() + i, x.len() + j) =~= s.subrange(i, j));
    }
}

proof fn lemma_split_head(a: Seq<char>, b: Seq<char>, c: char, i: int)
    requires
        0 <= i <= a.len(),
    ensures
        split_from(a.push(c) + b, c, i) == split_from(a, c, i) + split_from(b, c, 0),
    decreases a.len() - i,
{
    lemma_find_head(a, b, c, i);
    lemma_find_from(a, c, i);
    let s = a.push(c) + b;
    let j = find_from(a, c, i);
    assert(s.subrange(i, j) =~= a.subrange(i, j));
    if j >= a.len() {
        lemma_split_tail(a.push(c), b, c, 0);
        assert(split_from(s, c, i) =~= split_from(a, c, i) + split_from(b, c, 0));
    } else {
        lemma_split_head(a, b, c, j + 1);
        assert(split_from(s, c, i) =~= split_from(a, c, i) + split_from(b, c, 0));
    }
}

proof fn lemma_split_whole(a: Seq<char>, c: char)
    requires
        forall|i: int| 0 <= i < a.len() ==> #[trigger] a[i] != c,
    ensures
        split_on(a, c) == seq![a],
{
    lemma_find_from(a, c, 0);
    assert(a.subrange(0, a.len() as int) =~= a);
}

/// Whether a text is a component that a path can have: it is not empty, no
/// dot, and has no slash.
pub open spec fn is_component(c: Seq<char>) -> bool {
    &&& c.len() > 0
    &&& c != seq!['.']
    &&& forall|i: int| 0 <= i < c.len() ==> #[trigger] c[i] != '/'
}

/// Whether these are components that a path can have.
pub open spec fn are_components(v: Seq<Seq<char>>) -> bool {
    forall|k: int| 0 <= k < v.len() ==> is_component(#[trigger] v[k])
}

proof fn lemma_split_glued(v: Seq<Seq<char>>)
    requires
        v.len() > 0,
        are_components(v),
    ensures
        split_on(glued(v, '/'), '/') == v,
    decreases v.len(),
{
    assert(is_component(v[0]));
    lemma_split_whole(v[0], '/');
    if v.len() == 1 {
        assert(v =~= seq![v[0]]);
    } else {
        let rest = v.skip(1);
        assert forall|k: int| 0 <= k < rest.len() implies is_component(#[trigger] rest[k]) by {
            assert(rest[k] == v[k + 1]);
        }
        lemma_split_glued(rest);
        lemma_split_head(v[0], glued(rest, '/'), '/', 0);
        assert(v =~= seq![v[0]] + rest);
    }
}

// ------------------------------------------------------------- leading up

/// A path leads up exactly where a component is a double dot: what a slash
/// parts is looked at by itself, and what has no slash must be those two
/// dots.
pub proof fn law_sneaky_is_a_double_dot_between_slashes(a: Seq<char>, b: Seq<char>)
    ensures
        is_sneaky(a.push('/') + b) == (is_sneaky(a) || is_sneaky(b)),
        (forall|i: int| 0 <= i < a.len() ==> #[trigger] a[i] != '/') ==> (is_sneaky(a) <==> a
            == seq!['.', '.']),
{
    reveal_strlit("..");
    assert(".."@ =~= seq!['.', '.']);
    lemma_split_head(a, b, '/', 0);
    let (x, y) = (split_on(a, '/'), split_on(b, '/'));
    if x.contains(".."@) {
        let k = choose|k: int| 0 <= k < x.len() && x[k] == ".."@;
        assert((x + y)[k] == ".."@);
    }
    if y.contains(".."@) {
        let k = choose|k: int| 0 <= k < y.len() && y[k] == ".."@;
        assert((x + y)[x.len() + k] == ".."@);
    }
    if (x + y).contains(".."@) {
        let k = choose|k: int| 0 <= k < (x + y).len() && (x + y)[k] == ".."@;
        if k < x.len() {
            assert(x[k] == ".."@);
        } else {
            assert(y[k - x.len()] == ".."@);
        }
    }
    if forall|i: int| 0 <= i < a.len() ==> #[trigger] a[i] != '/' {
        lemma_split_whole(a, '/');
        assert(seq![a][0] == a);
    }
}

// --------------------------------------------------------------- components

proof fn lemma_kept_add(x: Seq<Seq<char>>, y: Seq<Seq<char>>)
    ensures
        kept(x + y) == kept(x) + kept(y),
    decreases y.len(),
{
    if y.len() == 0 {
        assert(x + y =~= x);
        assert(kept(x) + kept(y) =~= kept(x));
    } else {
        lemma_kept_add(x, y.drop_last());
        assert((x + y).drop_last() =~= x + y.drop_last());
        assert((x + y).last() == y.last());
        assert(kept(x + y) =~= kept(x) + kept(y));
    }
}

proof fn lemma_kept_all(v: Seq<Seq<char>>)
    requires
        are_components(v),
    ensures
        kept(v) == v,
    decreases v.len(),
{
    if v.len() > 0 {
        let rest = v.drop_last();
        assert forall|k: int| 0 <= k < rest.len() implies is_component(#[trigger] rest[k]) by {
            assert(rest[k] == v[k]);
        }
        lemma_kept_all(rest);
        assert(is_component(v[v.len() - 1]));
        assert(v =~= rest.push(v.last()));
    } else {
        assert(kept(v) =~= v);
    }
}

proof fn lemma_kept_nothing(c: Seq<char>)
    requires
        c.len() == 0,
    ensures
        kept(seq![c]) == Seq::<Seq<char>>::empty(),
{
    let v = seq![c];
    assert(v.last() == c);
    assert(v.drop_last() =~= seq![]);
    assert(kept(v.drop_last()) =~= seq![]);
}

proof fn lemma_glued_first(v: Seq<Seq<char>>)
    requires
        v.len() > 0,
        are_components(v),
    ensures
        glued(v, '/').len() > 0,
        glued(v, '/')[0] == v[0][0],
        lead(glued(v, '/')) == 0,
{
    assert(is_component(v[0]));
    let g = glued(v, '/');
    let c = v[0];
    assert(g[0] == c[0]);
    if c.len() == 1 {
        if c[0] == '.' {
            assert(c =~= seq!['.']);
        }
    } else {
        assert(g[1] == c[1]);
        assert(c[1] != '/');
    }
}

/// The components of a path are those that it was made of, with the root
/// first where it begins there.
pub proof fn law_components_are_read_back(v: Seq<Seq<char>>)
    requires
        v.len() > 0,
        are_components(v),
    ensures
        components_of(glued(v, '/')) == v,
        components_of(seq!['/'] + glued(v, '/')) == seq![seq!['/']] + v,
{
    let g = glued(v, '/');
    lemma_glued_first(v);
    lemma_split_glued(v);
    lemma_kept_all(v);
    assert(g.skip(0) =~= g);
    assert(Seq::<Seq<char>>::empty() + v =~= v);
    let p = seq!['/'] + g;
    assert(p.skip(1) =~= g);
    assert(p.take(1) =~= seq!['/']);
}

/// What is joined to a folder lies below it: the components of the folder
/// come first, then the new one.
pub proof fn law_joined_path_lies_below(root: Seq<char>, name: Seq<char>)
    requires
        root.len() > 0,
        name.len() > 0 ==> name[0] != '/',
    ensures
        is_under(path_joined(root, name), root),
        is_component(name) ==> components_of(path_joined(root, name)) == components_of(root).push(
            name,
        ),
{
    reveal_strlit("/");
    assert("/"@ =~= seq!['/']);
    let p = path_joined(root, name);
    let l = lead(root);
    let pieces = split_on(name, '/');
    assert(p[0] == root[0]);
    assert(root.len() > 1 ==> p[1] == root[1]);
    assert(lead(p) == l);
    assert(p.take(1) =~= root.take(1));
    let head = if l == 1 {
        seq![root.take(1)]
    } else {
        seq![]
    };
    let below = root.skip(l);
    if below.len() == 0 {
        lemma_split_whole(below, '/');
        lemma_kept_nothing(below);
        if root.last() == '/' {
            assert(p.skip(l) =~= name);
            assert(components_of(p) =~= components_of(root) + kept(pieces));
        } else {
            assert(p.skip(l) =~= below.push('/') + name);
            lemma_split_head(below, name, '/', 0);
            lemma_kept_add(split_on(below, '/'), pieces);
            assert(components_of(p) =~= components_of(root) + kept(pieces));
        }
    } else if root.last() == '/' {
        let q = below.drop_last();
        assert(below =~= q.push('/') + Seq::<char>::empty());
        assert(p.skip(l) =~= q.push('/') + name);
        lemma_split_head(q, seq![], '/', 0);
        lemma_split_head(q, name, '/', 0);
        lemma_split_whole(seq![], '/');
        let nothing: Seq<Seq<char>> = seq![seq![]];
        lemma_kept_nothing(seq![]);
        lemma_kept_add(split_on(q, '/'), nothing);
        lemma_kept_add(split_on(q, '/'), pieces);
        assert(kept(split_on(q, '/')) + Seq::<Seq<char>>::empty() =~= kept(split_on(q, '/')));
        assert(components_of(p) =~= components_of(root) + kept(pieces));
    } else {
        assert(p.skip(l) =~= below.push('/') + name);
        lemma_split_head(below, name, '/', 0);
        lemma_kept_add(split_on(below, '/'), pieces);
        assert(components_of(p) =~= components_of(root) + kept(pieces));
    }
    assert(components_of(p) == components_of(root) + kept(pieces));
    let (r, k) = (components_of(root), kept(pieces));
    assert((r + k).subrange(0, r.len() as int) =~= r);
    if is_component(name) {
        lemma_split_whole(name, '/');
        assert forall|i: int| 0 <= i < seq![name].len() implies is_component(
            #[trigger] seq![name][i],
        ) by {}
        lemma_kept_all(seq![name]);
        assert(r + seq![name] =~= r.push(name));
    }
}

/// The file of an entry lies in the store, and its name is that of the entry
/// with the suffix behind it.
pub proof fn law_entry_lies_in_the_store(root: Seq<char>, name: Seq<char>)
    requires
        root.len() > 0,
        name.len() > 0,
        name[0] != '/',
    ensures
        is_under(entry_file(root, name), root),
        root.is_prefix_of(entry_file(root, name)),
        (name + ".ebox"@).is_suffix_of(entry_file(root, name)),
        entry_file(root, name).len() <= root.len() + 1 + name.len() + 5,
{
    reveal_strlit("/");
    reveal_strlit(".ebox");
    let f = name + ".ebox"@;
    assert(f[0] == name[0]);
    law_joined_path_lies_below(root, f);
    let p = entry_file(root, name);
    assert(p.subrange(0, root.len() as int) =~= root);
    assert(p.subrange(p.len() - f.len(), p.len() as int) =~= f);
}

// --------------------------------------------------------- parents and names

proof fn lemma_last_start_is(p: Seq<char>, from: int)
    requires
        0 <= from <= p.len(),
    ensures
        from <= last_start(p, from) <= p.len(),
        last_start(p, from) > from ==> p[last_start(p, from) - 1] == '/',
        forall|i: int| last_start(p, from) <= i < p.len() ==> #[trigger] p[i] != '/',
    decreases p.len(),
{
    if p.len() > from && p.last() != '/' {
        let q = p.drop_last();
        lemma_last_start_is(q, from);
        assert forall|i: int| last_start(p, from) <= i < p.len() implies #[trigger] p[i]
            != '/' by {
            if i < q.len() {
                assert(q[i] == p[i]);
            }
        }
        if last_start(p, from) > from {
            assert(q[last_start(p, from) - 1] == p[last_start(p, from) - 1]);
        }
    }
}

/// The position behind the last slash is the only one with a slash before it
/// and none behind it.
proof fn lemma_last_start_at(p: Seq<char>, from: int, s: int)
    requires
        0 <= from <= s <= p.len(),
        s == from || p[s - 1] == '/',
        forall|i: int| s <= i < p.len() ==> #[trigger] p[i] != '/',
    ensures
        last_start(p, from) == s,
{
    lemma_last_start_is(p, from);
    let t = last_start(p, from);
    if t < s {
        assert(p[s - 1] != '/');
    }
    if t > s {
        assert(p[t - 1] != '/');
    }
}

/// Whether a path ends in a component: not with a slash, and not with a dot
/// that stands alone.
pub open spec fn ends_in_component(d: Seq<char>) -> bool {
    &&& d.len() > 0
    &&& d.last() != '/'
    &&& d.last() == '.' ==> d.len() > 1 && d[d.len() - 2] != '/'
}

proof fn lemma_whole_tail(d: Seq<char>, from: int)
    requires
        ends_in_component(d),
        0 <= from < d.len(),
        from > 0 ==> d[from - 1] == '/' || from == lead(d),
    ensures
        trim_tail(d, from) == d,
{
    lemma_last_start_is(d, from);
    let s = last_start(d, from);
    let t = d.skip(s);
    if s == d.len() {
        assert(d[s - 1] == '/');
    }
    if t == seq!['.'] {
        assert(t.len() == 1);
        assert(t[0] == d[s]);
        assert(s == d.len() - 1);
        if s > from {
            assert(d[s - 1] == '/');
        } else if from > 0 {
            assert(d[d.len() - 2] == d[from - 1]);
        }
    }
}

/// The folder of something in a folder is that folder, and its name is the
/// one that it has there; only a double dot is no name.
pub proof fn law_parent_and_name(d: Seq<char>, n: Seq<char>)
    requires
        ends_in_component(d),
        is_component(n),
    ensures
        path_joined(d, n) == d.push('/') + n,
        parent_of(d.push('/') + n) == Some(d),
        file_name_of(d.push('/') + n) == if n == seq!['.', '.'] {
            None
        } else {
            Some(n)
        },
{
    reveal_strlit("/");
    reveal_strlit("..");
    assert("/"@ =~= seq!['/']);
    assert(".."@ =~= seq!['.', '.']);
    let p = d.push('/') + n;
    assert(n[0] != '/');
    assert(path_joined(d, n) =~= p);
    let l = lead(d);
    assert(p[0] == d[0]);
    assert(d.len() > 1 ==> p[1] == d[1]);
    assert(lead(p) == l);
    assert(l < d.len());
    let s = d.len() + 1;
    assert forall|i: int| s <= i < p.len() implies #[trigger] p[i] != '/' by {
        assert(p[i] == n[i - s]);
    }
    assert(p[s - 1] == '/');
    lemma_last_start_at(p, l, s as int);
    assert(p.skip(s as int) =~= n);
    assert(!skippable(n));
    assert(trim_tail(p, l) == p);
    assert(p.take(s - 1) =~= d);
    assert(before_last(p, l) == d);
    lemma_whole_tail(d, l);
}

/// The folder of a name by itself is the empty path, and that of a name at
/// the root is the root.
pub proof fn law_parent_of_a_name(n: Seq<char>)
    requires
        is_component(n),
        n != seq!['.', '.'],
    ensures
        parent_of(n) == Some(Seq::<char>::empty()),
        file_name_of(n) == Some(n),
        parent_of(seq!['/'] + n) == Some(seq!['/']),
        file_name_of(seq!['/'] + n) == Some(n),
        parent_of(seq!['/']) is None,
        file_name_of(seq!['/']) is None,
{
    reveal_strlit("..");
    assert(".."@ =~= seq!['.', '.']);
    if n.len() == 1 && n[0] == '.' {
        assert(n =~= seq!['.']);
    }
    assert(n.len() > 1 ==> n[1] != '/');
    assert(n[0] != '/');
    assert(lead(n) == 0);
    lemma_last_start_at(n, 0, 0);
    assert(n.skip(0) =~= n);
    assert(trim_tail(n, 0) == n);
    assert(n.take(0) =~= seq![]);
    assert(before_last(n, 0) =~= seq![]);
    assert(trim_tail(Seq::<char>::empty(), 0) == Seq::<char>::empty());
    let p = seq!['/'] + n;
    assert forall|i: int| 1 <= i < p.len() implies #[trigger] p[i] != '/' by {
        assert(p[i] == n[i - 1]);
    }
    lemma_last_start_at(p, 1, 1);
    assert(p.skip(1) =~= n);
    assert(trim_tail(p, 1) == p);
    assert(before_last(p, 1) =~= seq!['/']);
    assert(trim_tail(seq!['/'], 1) == seq!['/']);
}

proof fn lemma_named(d: Seq<char>, n: Seq<char>, tail: Seq<char>)
    requires
        ends_in_component(d),
        is_component(n),
        n != seq!['.', '.'],
        tail.len() > 0,
        tail[0] == '.',
        tail.len() > 1,
        forall|i: int| 0 <= i < tail.len() ==> #[trigger] tail[i] != '/',
    ensures
        path_joined(parent_of(d.push('/') + n)->0, file_name_of(d.push('/') + n)->0 + tail)
            == d.push('/') + n + tail,
{
    law_parent_and_name(d, n);
    let m = n + tail;
    assert(m.len() > 1);
    assert forall|i: int| 0 <= i < m.len() implies #[trigger] m[i] != '/' by {
        if i < n.len() {
            assert(m[i] == n[i]);
        } else {
            assert(m[i] == tail[i - n.len()]);
        }
    }
    law_parent_and_name(d, m);
    assert(d.push('/') + m =~= d.push('/') + n + tail);
}

/// The file of an entry is beside the folder of the same name, and the file
/// that becomes another one is beside it.
pub proof fn law_files_stay_in_their_folder(d: Seq<char>, n: Seq<char>, pid: u32)
    requires
        ends_in_component(d),
        is_component(n),
        n != seq!['.', '.'],
    ensures
        ebox_of(d.push('/') + n) == d.push('/') + n + ".ebox"@,
        sibling(d.push('/') + n, pid) == d.push('/') + n + ".tmp."@ + dec(pid as nat),
{
    reveal_strlit(".ebox");
    reveal_strlit(".tmp.");
    let p = d.push('/') + n;
    law_parent_and_name(d, n);
    lemma_named(d, n, ".ebox"@);
    crate::text::law_decimal_round_trip(pid as nat);
    let tail = ".tmp."@ + dec(pid as nat);
    assert forall|i: int| 0 <= i < tail.len() implies #[trigger] tail[i] != '/' by {
        if i >= 5 {
            assert(tail[i] == dec(pid as nat)[i - 5]);
            assert(crate::text::is_digit(dec(pid as nat)[i - 5]));
        }
    }
    lemma_named(d, n, tail);
    assert(p + tail =~= p + ".tmp."@ + dec(pid as nat));
}

/// Moving or copying takes the entry in its folder; where there is none, or
/// a slash says that the folder is meant, it takes the folder.
pub proof fn law_source_is_in_the_store(
    root: Seq<char>,
    n: Seq<char>,
    slashes: Seq<char>,
    is_dir: bool,
    is_file: bool,
)
    requires
        ends_in_component(root),
        is_component(n),
        n != seq!['.', '.'],
        forall|i: int| 0 <= i < slashes.len() ==> #[trigger] slashes[i] == '/',
    ensures
        source_of(root, n + slashes, is_dir, is_file) == if is_file && !(is_dir && slashes.len()
            > 0) {
            (root.push('/') + n + ".ebox"@, root)
        } else {
            (root.push('/') + n, root.push('/') + n)
        },
{
    assert(n.last() != '/') by {
        assert(n[n.len() - 1] != '/');
    }
    law_trim_end_takes_only_these(n, slashes, '/', '/');
    assert(trim_end_two(n + slashes, '/', '/') == n);
    assert(slashes.len() > 0 ==> (n + slashes).len() > n.len());
    assert(slashes.len() == 0 ==> n + slashes =~= n);
    law_parent_and_name(root, n);
    law_files_stay_in_their_folder(root, n, 0);
}

proof fn lemma_rfind_at(s: Seq<char>, end: int, k: int)
    requires
        0 < k <= end <= s.len(),
        s[k - 1] == '/',
        forall|i: int| k <= i < end ==> #[trigger] s[i] != '/',
    ensures
        rfind_below(s, '/', end) == k,
    decreases end,
{
    if end > k {
        assert(s[end - 1] != '/');
        lemma_rfind_at(s, end - 1, k);
    }
}

proof fn lemma_rfind_none(s: Seq<char>, end: int)
    requires
        0 <= end <= s.len(),
        forall|i: int| 0 <= i < s.len() ==> #[trigger] s[i] != '/',
    ensures
        rfind_below(s, '/', end) == 0,
    decreases end,
{
    if end > 0 {
        assert(s[end - 1] != '/');
        lemma_rfind_none(s, end - 1);
    }
}

/// The folder of a path is what stands before its last slash; a path without
/// one is left as it is.
pub proof fn law_dirname_ends_at_the_last_slash(d: Seq<char>, n: Seq<char>)
    requires
        forall|i: int| 0 <= i < n.len() ==> #[trigger] n[i] != '/',
    ensures
        dirname_of(d.push('/') + n) == d,
        dirname_of(n) == n,
{
    let p = d.push('/') + n;
    assert forall|i: int| d.len() + 1 <= i < p.len() implies #[trigger] p[i] != '/' by {
        assert(p[i] == n[i - d.len() - 1]);
    }
    lemma_rfind_at(p, p.len() as int, d.len() as int + 1);
    assert(p.take(d.len() as int) =~= d);
    lemma_rfind_none(n, n.len() as int);
}

/// The recipients of an entry are looked for from its folder on; those of an
/// entry at the top from the top.
pub proof fn law_search_begins_in_the_folder(d: Seq<char>, n: Seq<char>)
    requires
        ends_in_component(d),
        is_component(n),
        n != seq!['.', '.'],
    ensures
        search_folder(d.push('/') + n) == d,
        search_folder(n) == Seq::<char>::empty(),
{
    law_parent_and_name(d, n);
    law_parent_of_a_name(n);
}

// ----------------------------------------------------------------- climbing

/// Climbing begins where it is told to, goes from each folder to the one
/// above it, and ends only where that is none or lies outside.
pub proof fn law_climbing_goes_from_folder_to_parent(
    p: Seq<char>,
    root: Seq<char>,
    with_root: bool,
)
    requires
        is_under(p, root),
        with_root || !same_place(p, root),
    ensures
        ({
            let c = climb(Some(p), root, with_root);
            &&& c.len() > 0
            &&& c[0] == p
            &&& forall|i: int|
                0 <= i < c.len() - 1 ==> parent_of(#[trigger] c[i]) == Some(c[i + 1])
            &&& match parent_of(c.last()) {
                None => true,
                Some(q) => !is_under(q, root) || !with_root && same_place(q, root),
            }
        }),
    decreases p.len(),
{
    let c = climb(Some(p), root, with_root);
    crate::store_path::lemma_parent_is_shorter(p);
    let rest = climb(parent_of(p), root, with_root);
    assert(c == seq![p] + rest);
    match parent_of(p) {
        None => {
            assert(rest =~= seq![]);
            assert(c =~= seq![p]);
        },
        Some(q) => {
            if is_under(q, root) && (with_root || !same_place(q, root)) {
                law_climbing_goes_from_folder_to_parent(q, root, with_root);
                assert forall|i: int| 0 <= i < c.len() - 1 implies parent_of(#[trigger] c[i])
                    == Some(c[i + 1]) by {
                    if i > 0 {
                        assert(c[i] == rest[i - 1]);
                        assert(c[i + 1] == rest[i]);
                    } else {
                        assert(c[1] == rest[0]);
                    }
                }
                assert(c.last() == rest.last());
            } else {
                assert(rest =~= seq![]);
                assert(c =~= seq![p]);
            }
        },
    }
}

/// The folders above a folder begin with itself, and go on from each to the
/// one above it.
pub proof fn law_ancestry_goes_from_folder_to_parent(p: Seq<char>)
    requires
        p.len() > 0,
    ensures
        ({
            let c = ancestry(Some(p));
            &&& c.len() > 0
            &&& c[0] == p
            &&& forall|i: int|
                0 <= i < c.len() - 1 ==> parent_of(#[trigger] c[i]) == Some(c[i + 1])
            &&& match parent_of(c.last()) {
                None => true,
                Some(q) => q.len() == 0,
            }
        }),
    decreases p.len(),
{
    let c = ancestry(Some(p));
    crate::store_path::lemma_parent_is_shorter(p);
    let rest = ancestry(parent_of(p));
    assert(c == seq![p] + rest);
    match parent_of(p) {
        None => {
            assert(rest =~= seq![]);
            assert(c =~= seq![p]);
        },
        Some(q) => {
            if q.len() > 0 {
                law_ancestry_goes_from_folder_to_parent(q);
                assert forall|i: int| 0 <= i < c.len() - 1 implies parent_of(#[trigger] c[i])
                    == Some(c[i + 1]) by {
                    if i > 0 {
                        assert(c[i] == rest[i - 1]);
                        assert(c[i + 1] == rest[i]);
                    } else {
                        assert(c[1] == rest[0]);
                    }
                }
                assert(c.last() == rest.last());
            } else {
                assert(rest =~= seq![]);
                assert(c =~= seq![p]);
            }
        },
    }
}

/// Folders are reported in the order in which they come to be: the one
/// furthest up first, each once.
pub proof fn law_made_folders_are_reported_from_above(missing: Seq<Seq<char>>, i: int)
    requires
        0 <= i < missing.len(),
    ensures
        made_lines(missing).len() == missing.len(),
        made_lines(missing)[i] == "mkdir: created directory '"@ + missing[missing.len() - 1 - i]
            + "'"@,
    decreases missing.len(),
{
    let rest = missing.drop_last();
    if rest.len() > 0 {
        law_made_folders_are_reported_from_above(rest, if i > 0 {
            i - 1
        } else {
            0
        });
    } else {
        assert(made_lines(rest) =~= seq![]);
    }
}

// -------------------------------------------------------- within the store

proof fn lemma_glued_add(x: Seq<Seq<char>>, y: Seq<Seq<char>>)
    requires
        x.len() > 0,
        y.len() > 0,
    ensures
        glued(x + y, '/') == glued(x, '/').push('/') + glued(y, '/'),
    decreases x.len(),
{
    let all = x + y;
    assert(all[0] == x[0]);
    if x.len() == 1 {
        assert(all.skip(1) =~= y);
    } else {
        lemma_glued_add(x.skip(1), y);
        assert(all.skip(1) =~= x.skip(1) + y);
        assert(glued(all, '/') =~= glued(x, '/').push('/') + glued(y, '/'));
    }
}

proof fn lemma_skip_clean(v: Seq<Seq<char>>, n: int)
    requires
        0 <= n <= v.len(),
        are_components(v),
    ensures
        are_components(v.skip(n)),
{
    let r = v.skip(n);
    assert forall|k: int| 0 <= k < r.len() implies is_component(#[trigger] r[k]) by {
        assert(r[k] == v[n + k]);
    }
}

proof fn lemma_trim_head_glued(v: Seq<Seq<char>>)
    requires
        v.len() > 0,
        are_components(v),
    ensures
        trim_head(glued(v, '/')) == glued(v, '/'),
        find_from(glued(v, '/'), '/', 0) == v[0].len(),
        v.len() > 1 ==> glued(v, '/').skip(v[0].len() as int + 1) == glued(v.skip(1), '/'),
        v.len() == 1 ==> glued(v, '/') == v[0],
        v.len() > 1 ==> v[0].len() < glued(v, '/').len(),
{
    let g = glued(v, '/');
    assert(is_component(v[0]));
    lemma_find_from(v[0], '/', 0);
    if v.len() > 1 {
        lemma_find_head(v[0], glued(v.skip(1), '/'), '/', 0);
        assert(g.skip(v[0].len() as int + 1) =~= glued(v.skip(1), '/'));
    }
    assert(g.take(v[0].len() as int) =~= v[0]);
    assert(!skippable(v[0]));
}

proof fn lemma_drop_glued(x: Seq<Seq<char>>, y: Seq<Seq<char>>)
    requires
        y.len() > 0,
        are_components(x),
        are_components(y),
    ensures
        drop_components(glued(x + y, '/'), x.len()) == glued(y, '/'),
    decreases x.len(),
{
    let all = x + y;
    assert forall|k: int| 0 <= k < all.len() implies is_component(#[trigger] all[k]) by {
        if k < x.len() {
            assert(all[k] == x[k]);
        } else {
            assert(all[k] == y[k - x.len()]);
        }
    }
    lemma_trim_head_glued(all);
    if x.len() == 0 {
        assert(all =~= y);
    } else {
        lemma_skip_clean(x, 1);
        lemma_drop_glued(x.skip(1), y);
        assert(all.skip(1) =~= x.skip(1) + y);
    }
}

proof fn lemma_ends(g: Seq<char>, h: Seq<char>, c: Seq<char>)
    requires
        is_component(c),
        g == h + c,
        h.len() > 0 ==> h.last() == '/',
    ensures
        ends_in_component(g),
        g.last() == c.last(),
{
    let n = c.len() as int;
    assert(c[n - 1] != '/');
    assert(g[g.len() - 1] == c[n - 1]);
    if n == 1 {
        if c[0] == '.' {
            assert(c =~= seq!['.']);
        }
    } else {
        assert(c[n - 2] != '/');
        assert(g[g.len() - 2] == c[n - 2]);
    }
}

proof fn lemma_glued_ends(v: Seq<Seq<char>>)
    requires
        v.len() > 0,
        are_components(v),
    ensures
        ends_in_component(glued(v, '/')),
        glued(v, '/').last() == v.last().last(),
{
    let c = v.last();
    assert(is_component(v[v.len() - 1]));
    if v.len() == 1 {
        assert(seq![] + c =~= c);
        lemma_ends(c, seq![], c);
    } else {
        let head = v.drop_last();
        let last = seq![c];
        assert(v =~= head + last);
        lemma_glued_add(head, last);
        assert(glued(last, '/') == c);
        lemma_ends(glued(v, '/'), glued(head, '/').push('/'), c);
    }
}

/// The path of something in the store, relative to the store, is what was
/// joined to the store.
pub proof fn law_relative_takes_the_store_away(root: Seq<Seq<char>>, below: Seq<Seq<char>>)
    requires
        root.len() > 0,
        below.len() > 0,
        are_components(root),
        are_components(below),
    ensures
        ({
            let store = seq!['/'] + glued(root, '/');
            let rel = glued(below, '/');
            relative(path_joined(store, rel), store) == Some(rel)
        }),
{
    reveal_strlit("/");
    let store = seq!['/'] + glued(root, '/');
    let rel = glued(below, '/');
    lemma_glued_ends(root);
    lemma_glued_ends(below);
    lemma_glued_first(root);
    lemma_glued_first(below);
    assert(is_component(below[0]));
    assert(below[0][0] != '/');
    let all = root + below;
    assert forall|k: int| 0 <= k < all.len() implies is_component(#[trigger] all[k]) by {
        if k < root.len() {
            assert(all[k] == root[k]);
        } else {
            assert(all[k] == below[k - root.len()]);
        }
    }
    lemma_glued_add(root, below);
    let p = path_joined(store, rel);
    assert(store.last() != '/');
    assert(p =~= seq!['/'] + glued(all, '/'));
    law_components_are_read_back(root);
    law_components_are_read_back(all);
    assert(components_of(p).subrange(0, components_of(store).len() as int) =~= components_of(
        store,
    ));
    assert(lead(p) == 1);
    assert(p.skip(1) =~= glued(all, '/'));
    lemma_drop_glued(root, below);
    lemma_whole_tail(rel, 0);
}

/// A match is shown under the name of its entry: within the store, and
/// without the suffix.
pub proof fn law_match_is_shown_by_its_entry(root: Seq<Seq<char>>, below: Seq<Seq<char>>)
    requires
        root.len() > 0,
        below.len() > 0,
        are_components(root),
        are_components(below),
    ensures
        ({
            let store = seq!['/'] + glued(root, '/');
            let name = glued(below, '/');
            shown_path(entry_file(store, name), store) == name
        }),
{
    reveal_strlit(".ebox");
    let store = seq!['/'] + glued(root, '/');
    let name = glued(below, '/');
    let last = below.last() + ".ebox"@;
    let file = below.drop_last().push(last);
    assert forall|k: int| 0 <= k < file.len() implies is_component(#[trigger] file[k]) by {
        assert(is_component(below[k]));
        if k < below.len() - 1 {
            assert(file[k] == below[k]);
        } else {
            let c = below[below.len() - 1];
            assert(file[k] == c + ".ebox"@);
            assert forall|i: int| 0 <= i < last.len() implies #[trigger] last[i] != '/' by {
                if i < c.len() {
                    assert(last[i] == c[i]);
                }
            }
            assert(last.len() > 1);
        }
    }
    if below.len() > 1 {
        let head = below.drop_last();
        assert(below =~= head + seq![below.last()]);
        assert(file =~= head + seq![last]);
        lemma_glued_add(head, seq![below.last()]);
        lemma_glued_add(head, seq![last]);
        assert(glued(file, '/') =~= name + ".ebox"@);
    } else {
        assert(glued(file, '/') =~= name + ".ebox"@);
    }
    law_relative_takes_the_store_away(root, file);
    let f = name + ".ebox"@;
    assert(f.subrange(f.len() - 5, f.len() as int) =~= ".ebox"@);
    assert(f.subrange(0, f.len() - 5) =~= name);
    assert(f.take(f.len() - 5) =~= name);
    assert(without_suffix(f, ".ebox"@) == name);
}

} // verus!
