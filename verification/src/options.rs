//! Command lines of the simplest kind: options begin with a hyphen, and a
//! double hyphen ends them.
use crate::text::{list_has, same, texts};
use vstd::prelude::*;

verus! {

/// Where the options end: at the first double hyphen, or at the end.
pub open spec fn options_end(args: Seq<Seq<char>>, i: int) -> int
    decreases args.len() - i,
{
    if i >= args.len() || args[i] == "--"@ {
        i
    } else {
        options_end(args, i + 1)
    }
}

/// Whether an argument begins with a hyphen.
pub open spec fn is_option(a: Seq<char>) -> bool {
    a.len() > 0 && a[0] == '-'
}

/// The arguments that begin with a hyphen, or those that do not.
pub open spec fn picked(args: Seq<Seq<char>>, options: bool) -> Seq<Seq<char>>
    decreases args.len(),
{
    if args.len() == 0 {
        seq![]
    } else if is_option(args.last()) == options {
        picked(args.drop_last(), options).push(args.last())
    } else {
        picked(args.drop_last(), options)
    }
}

/// The options of a command line.
pub open spec fn options_of(args: Seq<Seq<char>>) -> Seq<Seq<char>> {
    picked(args.take(options_end(args, 0)), true)
}

/// The operands of a command line: what is no option, and everything behind
/// the double hyphen.
pub open spec fn operands_of(args: Seq<Seq<char>>) -> Seq<Seq<char>> {
    let k = options_end(args, 0);
    picked(args.take(k), false) + (if k < args.len() {
        args.skip(k + 1)
    } else {
        seq![]
    })
}

fn looks_like_option(a: &str) -> (r: bool)
    ensures
        r == is_option(a@),
{
    a.unicode_len() > 0 && a.get_char(0) == '-'
}

/// Parts a command line into options and operands.
pub fn scan(args: &Vec<String>) -> (r: (Vec<String>, Vec<String>))
    ensures
        texts(r.0@) == options_of(texts(args@)),
        texts(r.1@) == operands_of(texts(args@)),
{
    let mut options: Vec<String> = Vec::new();
    let mut operands: Vec<String> = Vec::new();
    let ghost all = texts(args@);
    let n: usize = args.len();
    let mut i: usize = 0;
    assert(texts(options@) =~= picked(all.take(0), true));
    assert(texts(operands@) =~= picked(all.take(0), false));
    while i < n && !same(args[i].as_str(), "--")
        invariant
            n == args@.len(),
            i <= n,
            all == texts(args@),
            options_end(all, 0) == options_end(all, i as int),
            texts(options@) == picked(all.take(i as int), true),
            texts(operands@) == picked(all.take(i as int), false),
        decreases n - i,
    {
        let ghost a = args@[i as int]@;
        assert(all[i as int] == a);
        assert(all.take(i + 1).drop_last() =~= all.take(i as int));
        assert(all.take(i + 1).last() == a);
        if looks_like_option(args[i].as_str()) {
            let ghost before = texts(options@);
            options.push(args[i].clone());
            assert(texts(options@) =~= before.push(a));
        } else {
            let ghost before = texts(operands@);
            operands.push(args[i].clone());
            assert(texts(operands@) =~= before.push(a));
        }
        i = i + 1;
    }
    assert(i < n ==> all[i as int] == "--"@);
    assert(options_end(all, 0) == i);
    let ghost head = texts(operands@);
    if i < n {
        let mut j: usize = i + 1;
        assert(head + all.skip(i + 1).take(0) =~= head);
        while j < n
            invariant
                n == args@.len(),
                i + 1 <= j <= n,
                all == texts(args@),
                texts(operands@) == head + all.skip(i + 1).take(j - i - 1),
            decreases n - j,
        {
            let ghost before = texts(operands@);
            operands.push(args[j].clone());
            assert(texts(operands@) =~= before.push(args@[j as int]@));
            assert(all.skip(i + 1).take(j - i) =~= all.skip(i + 1).take(j - i - 1).push(
                args@[j as int]@,
            ));
            j = j + 1;
        }
        assert(all.skip(i + 1).take(n - i - 1) =~= all.skip(i + 1));
    } else {
        assert(head + seq![] =~= head);
    }
    (options, operands)
}

/// The first option that is not among the known ones.
pub open spec fn first_unknown(options: Seq<Seq<char>>, known: Seq<Seq<char>>, i: int) -> Option<
    Seq<char>,
>
    decreases options.len() - i,
{
    if i >= options.len() {
        None
    } else if !known.contains(options[i]) {
        Some(options[i])
    } else {
        first_unknown(options, known, i + 1)
    }
}

/// Finds the first option that is not among the known ones.
pub fn unknown_option(options: &Vec<String>, known: &Vec<String>) -> (r: Option<String>)
    ensures
        crate::text::opt_text(r) == first_unknown(texts(options@), texts(known@), 0),
{
    let n: usize = options.len();
    let mut i: usize = 0;
    while i < n
        invariant
            n == options@.len(),
            i <= n,
            first_unknown(texts(options@), texts(known@), 0) == first_unknown(
                texts(options@),
                texts(known@),
                i as int,
            ),
        decreases n - i,
    {
        assert(texts(options@)[i as int] == options@[i as int]@);
        if !list_has(known, options[i].as_str()) {
            return Some(options[i].clone());
        }
        i = i + 1;
    }
    None
}

/// Whether an option was given, under either of its two names.
pub open spec fn given(options: Seq<Seq<char>>, short: Seq<char>, long: Seq<char>) -> bool {
    options.contains(short) || options.contains(long)
}

/// Whether an option was given, under either of its two names.
pub fn has_option(options: &Vec<String>, short: &str, long: &str) -> (r: bool)
    ensures
        r == given(texts(options@), short@, long@),
{
    list_has(options, short) || list_has(options, long)
}

} // verus!
