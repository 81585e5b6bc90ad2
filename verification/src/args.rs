//! Command-line options of the form `--arg=value` or `--arg value`.
use vstd::prelude::*;
use vstd::string::StrSliceExecFns;

verus! {

/// `s` holds an `=`.
pub open spec fn has_eq(s: Seq<char>) -> bool {
    exists|i: int| 0 <= i < s.len() && s[i] == '='
}

/// The position of the first `=` in `s`.
pub open spec fn first_eq(s: Seq<char>) -> int {
    choose|i: int| 0 <= i < s.len() && s[i] == '=' && forall|j: int| 0 <= j < i ==> s[j] != '='
}

/// `arg.splitn(2, '=')`: the text before the first `=`, and the text after it
/// when there is an `=`.
pub open spec fn split_option(s: Seq<char>) -> (Seq<char>, Option<Seq<char>>) {
    if has_eq(s) {
        (s.subrange(0, first_eq(s)), Some(s.subrange(first_eq(s) + 1, s.len() as int)))
    } else {
        (s, None)
    }
}

/// The values offered for the option `find` by `args`, in order: for each
/// argument whose text before its first `=` is `find`, the text after the
/// `=`, or, without an `=`, the next argument, which is then consumed.
pub open spec fn option_values(args: Seq<Seq<char>>, find: Seq<char>) -> Seq<Seq<char>>
    decreases args.len(),
{
    if args.len() == 0 {
        Seq::empty()
    } else {
        let (key, inline) = split_option(args[0]);
        let rest = args.drop_first();
        if key != find {
            option_values(rest, find)
        } else {
            match inline {
                Some(v) => seq![v] + option_values(rest, find),
                None => if rest.len() == 0 {
                    Seq::empty()
                } else {
                    seq![rest[0]] + option_values(rest.drop_first(), find)
                },
            }
        }
    }
}

/// The views of a slice of strings.
pub open spec fn views<'a>(args: Seq<&'a str>) -> Seq<Seq<char>> {
    args.map_values(|a: &'a str| a@)
}

/// `pred` may answer `false` for a string with the text `s`.
pub open spec fn rejects<F: Fn(&str) -> bool>(pred: F, s: Seq<char>) -> bool {
    exists|x: &str| x@ == s && call_ensures(pred, (x,), false)
}

/// If there is an `=` in `s`, the first one is found by `first_eq`.
proof fn lemma_first_eq(s: Seq<char>, i: int)
    requires
        0 <= i < s.len(),
        s[i] == '=',
        forall|j: int| 0 <= j < i ==> s[j] != '=',
    ensures
        has_eq(s),
        first_eq(s) == i,
{
    let k = first_eq(s);
    assert(0 <= k < s.len() && s[k] == '=' && forall|j: int| 0 <= j < k ==> s[j] != '=');
    if k < i {
        assert(s[k] != '=');
    } else if k > i {
        assert(s[i] != '=');
    }
}

/// Compares two strings character by character.
pub(crate) fn str_eq(a: &str, b: &str) -> (r: bool)
    ensures
        r == (a@ == b@),
{
    let n = a.unicode_len();
    let m = b.unicode_len();
    if n != m {
        return false;
    }
    let mut i: usize = 0;
    while i < n
        invariant
            0 <= i <= n,
            n == a@.len(),
            m == b@.len(),
            n == m,
            forall|j: int| 0 <= j < i ==> a@[j] == b@[j],
        decreases n - i,
    {
        if a.get_char(i) != b.get_char(i) {
            return false;
        }
        i = i + 1;
    }
    assert(a@ =~= b@);
    true
}

/// Splits `arg` at its first `=`, as `arg.splitn(2, '=')` does.
fn split_at_first_eq<'a>(arg: &'a str) -> (r: (&'a str, Option<&'a str>))
    ensures
        r.0@ == split_option(arg@).0,
        match r.1 {
            Some(v) => split_option(arg@).1 == Some(v@),
            None => split_option(arg@).1.is_none(),
        },
{
    let n = arg.unicode_len();
    let mut i: usize = 0;
    while i < n
        invariant
            0 <= i <= n,
            n == arg@.len(),
            forall|j: int| 0 <= j < i ==> arg@[j] != '=',
        decreases n - i,
    {
        if arg.get_char(i) == '=' {
            proof {
                lemma_first_eq(arg@, i as int);
            }
            return (arg.substring_char(0, i), Some(arg.substring_char(i + 1, n)));
        }
        i = i + 1;
    }
    assert(!has_eq(arg@));
    (arg, None)
}

/// If a command-line option matches `find_arg`, then apply the predicate
/// `pred` on its value. If true, then return it. The option is either
/// `--arg=value` or `--arg value`.
///
/// The values offered for `find_arg` are tried in order: the result is the
/// first one that `pred` accepts, or `None` when `pred` rejects them all.
pub fn arg_value<'a>(args: &[&'a str], find_arg: &str, pred: impl Fn(&str) -> bool) -> (r: Option<
    &'a str,
>)
    requires
        forall|x: &str| call_requires(pred, (x,)),
    ensures
        ({
            let values = option_values(views(args@), find_arg@);
            match r {
                Some(v) => exists|k: int|
                    0 <= k < values.len() && values[k] == v@ && call_ensures(pred, (v,), true)
                        && forall|j: int| 0 <= j < k ==> rejects(pred, #[trigger] values[j]),
                None => forall|j: int| 0 <= j < values.len() ==> rejects(pred, #[trigger] values[j]),
            }
        }),
{
    let ghost all = views(args@);
    let ghost find = find_arg@;
    let n = args.len();
    let mut i: usize = 0;
    let ghost mut seen: Seq<Seq<char>> = Seq::empty();
    assert(all.skip(0) =~= all);
    assert(seen + option_values(all, find) =~= option_values(all, find));
    while i < n
        invariant
            0 <= i <= n,
            n == args@.len(),
            all == views(args@),
            find == find_arg@,
            forall|x: &str| call_requires(pred, (x,)),
            option_values(all, find) == seen + option_values(all.skip(i as int), find),
            forall|j: int| 0 <= j < seen.len() ==> rejects(pred, #[trigger] seen[j]),
        decreases n - i,
    {
        let ghost here = all.skip(i as int);
        assert(here[0] == args@[i as int]@);
        assert(here.drop_first() =~= all.skip(i + 1));
        let (key, inline) = split_at_first_eq(args[i]);
        i = i + 1;
        if !str_eq(key, find_arg) {
            continue;
        }
        let value = match inline {
            Some(v) => Some(v),
            None => if i < n {
                let v = args[i];
                proof {
                    assert(all.skip(i as int)[0] == v@);
                    assert(all.skip(i as int).drop_first() =~= all.skip(i + 1));
                }
                i = i + 1;
                Some(v)
            } else {
                None
            },
        };
        match value {
            Some(v) => {
                let accepted = pred(v);
                if accepted {
                    proof {
                        let values = option_values(all, find);
                        assert(values[seen.len() as int] == v@);
                    }
                    return Some(v);
                }
                proof {
                    seen = seen.push(v@);
                    assert(rejects(pred, v@));
                }
            },
            None => {},
        }
        assert(option_values(all, find) == seen + option_values(all.skip(i as int), find));
    }
    assert(all.skip(n as int) =~= Seq::<Seq<char>>::empty());
    assert(option_values(all, find) =~= seen);
    None
}

} // verus!
