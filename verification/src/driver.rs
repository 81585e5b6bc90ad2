//! The compiler driver's decisions: from the command line and the
//! environment to the compiler run to perform.
use crate::args::{arg_value, option_values, rejects, str_eq, views};
use std::path::Path;
use vstd::prelude::*;
use vstd::string::StrSliceExecFns;

verus! {

/// `Path::new(path).file_stem()`, as text: the file name without its
/// extension. Its rules (separators, components, leading dots) are those of
/// `std::path` for the target the library is built for.
pub uninterp spec fn path_file_stem(path: Seq<char>) -> Option<Seq<char>>;

/// `Path::file_stem` on a path given as text. The path is valid UTF-8, so
/// the stem is too and converts without loss.
#[verifier::external_body]
fn file_stem(path: &str) -> (r: Option<String>)
    ensures
        match r {
            Some(s) => path_file_stem(path@) == Some(s@),
            None => path_file_stem(path@).is_none(),
        },
{
    match Path::new(path).file_stem() {
        Some(stem) => Some(stem.to_string_lossy().into_owned()),
        None => None,
    }
}

/// The separator between the arguments that Cargo passes to Clippy in
/// `CLIPPY_ARGS`.
pub open spec fn hackery() -> Seq<char> {
    "__CLIPPY_HACKERY__"@
}

/// `sep` occurs in `s` at `i`.
pub open spec fn occurs_at(s: Seq<char>, sep: Seq<char>, i: int) -> bool {
    0 <= i && i + sep.len() <= s.len() && s.subrange(i, i + sep.len()) == sep
}

pub open spec fn occurs(s: Seq<char>, sep: Seq<char>) -> bool {
    exists|i: int| occurs_at(s, sep, i)
}

/// The first occurrence of `sep` in `s`.
pub open spec fn first_occurrence(s: Seq<char>, sep: Seq<char>) -> int {
    choose|i: int| occurs_at(s, sep, i) && forall|j: int| 0 <= j < i ==> !occurs_at(s, sep, j)
}

/// `s.split(sep)`: the pieces between the occurrences of `sep`, found from
/// the left without overlapping.
#[verifier::opaque]
pub open spec fn split_on(s: Seq<char>, sep: Seq<char>) -> Seq<Seq<char>>
    decreases s.len(),
{
    if sep.len() > 0 && occurs(s, sep) {
        let i = first_occurrence(s, sep);
        if 0 <= i && i + sep.len() <= s.len() {
            seq![s.subrange(0, i)] + split_on(s.subrange(i + sep.len(), s.len() as int), sep)
        } else {
            seq![s]
        }
    } else {
        seq![s]
    }
}

/// The pieces that Clippy receives: all but the empty ones and `--no-deps`.
pub open spec fn passed_on(pieces: Seq<Seq<char>>) -> Seq<Seq<char>>
    decreases pieces.len(),
{
    if pieces.len() == 0 {
        Seq::empty()
    } else {
        let rest = passed_on(pieces.drop_last());
        let p = pieces.last();
        if p.len() == 0 || p == "--no-deps"@ {
            rest
        } else {
            rest.push(p)
        }
    }
}

/// The arguments that Clippy adds, from the value of `CLIPPY_ARGS`, and
/// whether that value asks for `--no-deps`.
pub open spec fn clippy_args_of(var: Option<Seq<char>>) -> (Seq<Seq<char>>, bool) {
    let text = match var {
        Some(v) => v,
        None => Seq::empty(),
    };
    let pieces = split_on(text, hackery());
    (passed_on(pieces) + seq!["--cfg"@, "feature=\"cargo-clippy\""@], pieces.contains("--no-deps"@))
}

/// `pattern` occurs in `s` at `i`.
proof fn lemma_occurs_at(s: Seq<char>, sep: Seq<char>, i: int)
    requires
        occurs_at(s, sep, i),
        forall|j: int| 0 <= j < i ==> !occurs_at(s, sep, j),
    ensures
        occurs(s, sep),
        first_occurrence(s, sep) == i,
{
    let k = first_occurrence(s, sep);
    assert(occurs_at(s, sep, k) && forall|j: int| 0 <= j < k ==> !occurs_at(s, sep, j));
    if k < i {
        assert(!occurs_at(s, sep, k));
    } else if k > i {
        assert(!occurs_at(s, sep, i));
    }
}

/// Whether `sep` occurs in `s` at `i`, comparing characters.
fn matches_at(s: &str, n: usize, sep: &str, m: usize, i: usize) -> (r: bool)
    requires
        n == s@.len(),
        m == sep@.len(),
        i <= n,
    ensures
        r == occurs_at(s@, sep@, i as int),
{
    if m > n - i {
        return false;
    }
    let mut k: usize = 0;
    while k < m
        invariant
            0 <= k <= m,
            i + m <= n,
            n == s@.len(),
            m == sep@.len(),
            forall|j: int| 0 <= j < k ==> s@[i + j] == sep@[j],
        decreases m - k,
    {
        if s.get_char(i + k) != sep.get_char(k) {
            assert(s@.subrange(i as int, i + m)[k as int] != sep@[k as int]);
            return false;
        }
        k = k + 1;
    }
    assert(s@.subrange(i as int, i + m) =~= sep@);
    true
}

/// `s.contains(pattern)`.
pub fn str_contains(s: &str, pattern: &str) -> (r: bool)
    ensures
        r == occurs(s@, pattern@),
{
    let n = s.unicode_len();
    let m = pattern.unicode_len();
    let mut i: usize = 0;
    while i < n
        invariant
            0 <= i <= n,
            n == s@.len(),
            m == pattern@.len(),
            forall|j: int| 0 <= j < i ==> !occurs_at(s@, pattern@, j),
        decreases n - i,
    {
        if matches_at(s, n, pattern, m, i) {
            return true;
        }
        i = i + 1;
    }
    if matches_at(s, n, pattern, m, n) {
        return true;
    }
    assert forall|j: int| !occurs_at(s@, pattern@, j) by {
        if j > n as int {
            assert(!occurs_at(s@, pattern@, j));
        }
    }
    false
}

/// The first occurrence of `sep` in `s` from `start` on is at `i`: the text
/// from `start` splits into the piece before `i` and the pieces after the
/// separator.
proof fn lemma_split_step(s: Seq<char>, sep: Seq<char>, start: int, i: int)
    requires
        sep.len() > 0,
        0 <= start <= i,
        occurs_at(s, sep, i),
        forall|j: int| start <= j < i ==> !occurs_at(s, sep, j),
    ensures
        split_on(s.subrange(start, s.len() as int), sep) == seq![s.subrange(start, i)] + split_on(
            s.subrange(i + sep.len(), s.len() as int),
            sep,
        ),
{
    let m = sep.len() as int;
    let rest = s.subrange(start, s.len() as int);
    let k = i - start;
    assert(occurs_at(rest, sep, k)) by {
        assert(rest.subrange(k, k + m) =~= s.subrange(i, i + m));
    }
    assert forall|j: int| 0 <= j < k implies !occurs_at(rest, sep, j) by {
        if occurs_at(rest, sep, j) {
            assert(rest.subrange(j, j + m) =~= s.subrange(start + j, start + j + m));
            assert(occurs_at(s, sep, start + j));
        }
    }
    lemma_occurs_at(rest, sep, k);
    reveal(split_on);
    assert(rest.subrange(0, k) =~= s.subrange(start, i));
    assert(rest.subrange(k + m, rest.len() as int) =~= s.subrange(i + m, s.len() as int));
}

/// Without an occurrence of `sep` from `start` on, the text from `start` is
/// a single piece.
proof fn lemma_split_last(s: Seq<char>, sep: Seq<char>, start: int)
    requires
        sep.len() > 0,
        0 <= start <= s.len(),
        forall|j: int| start <= j <= s.len() ==> !occurs_at(s, sep, j),
    ensures
        split_on(s.subrange(start, s.len() as int), sep) == seq![s.subrange(start, s.len() as int)],
{
    let m = sep.len() as int;
    let rest = s.subrange(start, s.len() as int);
    assert forall|j: int| !occurs_at(rest, sep, j) by {
        if occurs_at(rest, sep, j) {
            assert(rest.subrange(j, j + m) =~= s.subrange(start + j, start + j + m));
            assert(occurs_at(s, sep, start + j));
        }
    }
    reveal(split_on);
}

/// `s.split(sep)` for a non-empty separator.
fn split_by(s: &str, sep: &str) -> (r: Vec<String>)
    requires
        sep@.len() > 0,
    ensures
        r@.len() == split_on(s@, sep@).len(),
        forall|k: int| 0 <= k < r@.len() ==> #[trigger] r@[k]@ == split_on(s@, sep@)[k],
{
    let n = s.unicode_len();
    let m = sep.unicode_len();
    let mut pieces: Vec<String> = Vec::new();
    let ghost mut acc: Seq<Seq<char>> = Seq::empty();
    let mut start: usize = 0;
    let mut i: usize = 0;
    assert(s@.subrange(0, n as int) =~= s@);
    while i < n
        invariant
            0 <= start <= i <= n,
            n == s@.len(),
            m == sep@.len(),
            m > 0,
            pieces@.len() == acc.len(),
            forall|k: int| 0 <= k < acc.len() ==> #[trigger] pieces@[k]@ == acc[k],
            acc + split_on(s@.subrange(start as int, n as int), sep@) == split_on(s@, sep@),
            forall|j: int| start <= j < i ==> !occurs_at(s@, sep@, j),
        decreases n - i,
    {
        if matches_at(s, n, sep, m, i) {
            proof {
                lemma_split_step(s@, sep@, start as int, i as int);
                assert(acc + (seq![s@.subrange(start as int, i as int)] + split_on(
                    s@.subrange(i + m, n as int),
                    sep@,
                )) =~= acc.push(s@.subrange(start as int, i as int)) + split_on(
                    s@.subrange(i + m, n as int),
                    sep@,
                ));
            }
            let piece = s.substring_char(start, i).to_string();
            pieces.push(piece);
            proof {
                acc = acc.push(piece@);
            }
            start = i + m;
            i = start;
        } else {
            i = i + 1;
        }
    }
    let last_match = matches_at(s, n, sep, m, n);
    proof {
        assert(!last_match);
        lemma_split_last(s@, sep@, start as int);
    }
    let piece = s.substring_char(start, n).to_string();
    pieces.push(piece);
    proof {
        assert(acc + seq![s@.subrange(start as int, n as int)] =~= acc.push(piece@));
        acc = acc.push(piece@);
    }
    pieces
}

/// The texts of a sequence of strings.
pub open spec fn strings(v: Seq<String>) -> Seq<Seq<char>> {
    v.map_values(|s: String| s@)
}

/// The arguments that Clippy adds, from the value of `CLIPPY_ARGS`, and
/// whether that value asks for `--no-deps`.
pub fn clippy_args(var: Option<&str>) -> (r: (Vec<String>, bool))
    ensures
        strings(r.0@) == clippy_args_of(
            match var {
                Some(v) => Some(v@),
                None => None,
            },
        ).0,
        r.1 == clippy_args_of(
            match var {
                Some(v) => Some(v@),
                None => None,
            },
        ).1,
{
    let text: &str = match var {
        Some(v) => v,
        None => "",
    };
    proof {
        reveal_strlit("");
        reveal_strlit("__CLIPPY_HACKERY__");
        reveal_strlit("--no-deps");
        reveal_strlit("--cfg");
        reveal_strlit("feature=\"cargo-clippy\"");
    }
    assert(text@ == match var {
        Some(v) => v@,
        None => Seq::<char>::empty(),
    });
    let pieces = split_by(text, "__CLIPPY_HACKERY__");
    let ghost ps = split_on(text@, hackery());
    let mut out: Vec<String> = Vec::new();
    let mut no_deps = false;
    let mut k: usize = 0;
    while k < pieces.len()
        invariant
            0 <= k <= pieces@.len(),
            pieces@.len() == ps.len(),
            forall|j: int| 0 <= j < ps.len() ==> #[trigger] pieces@[j]@ == ps[j],
            strings(out@) == passed_on(ps.subrange(0, k as int)),
            no_deps == ps.subrange(0, k as int).contains("--no-deps"@),
        decreases pieces.len() - k,
    {
        let piece = &pieces[k];
        let ghost pre = ps.subrange(0, k as int);
        let ghost post = ps.subrange(0, k + 1);
        assert(post.drop_last() =~= pre);
        assert(post.last() == piece@);
        let ghost before = strings(out@);
        if piece.as_str().unicode_len() == 0 {
        } else if str_eq(piece.as_str(), "--no-deps") {
            no_deps = true;
        } else {
            out.push(piece.clone());
            assert(strings(out@) =~= before.push(piece@));
        }
        proof {
            reveal_strlit("--no-deps");
            assert(post.contains("--no-deps"@) == (pre.contains("--no-deps"@) || piece@ == "--no-deps"@)) by {
                if post.contains("--no-deps"@) {
                    let j = choose|j: int| 0 <= j < post.len() && post[j] == "--no-deps"@;
                    if j < k {
                        assert(pre[j] == post[j]);
                    }
                }
                if pre.contains("--no-deps"@) {
                    let j = choose|j: int| 0 <= j < pre.len() && pre[j] == "--no-deps"@;
                    assert(post[j] == pre[j]);
                }
            }
        }
        k = k + 1;
    }
    assert(ps.subrange(0, ps.len() as int) =~= ps);
    let ghost before = strings(out@);
    out.push("--cfg".to_string());
    out.push("feature=\"cargo-clippy\"".to_string());
    assert(strings(out@) =~= before + seq!["--cfg"@, "feature=\"cargo-clippy\""@]);
    (out, no_deps)
}

/// Which compiler callbacks a run uses.
#[derive(Clone, Copy, Debug, PartialEq, Eq, Structural)]
pub enum Callbacks {
    /// Plain `rustc`.
    Default,
    /// `rustc`, with Cargo told to track `CLIPPY_ARGS`.
    Rustc,
    /// Clippy.
    Clippy,
}

/// What the driver does: exit at once, or run the compiler on `args`.
#[derive(Debug, PartialEq, Eq)]
pub enum DriverPlan {
    Exit,
    Run { args: Vec<String>, callbacks: Callbacks },
}

/// A plan as mathematical values.
pub enum PlanView {
    Exit,
    Run(Seq<Seq<char>>, Callbacks),
}

impl View for DriverPlan {
    type V = PlanView;

    open spec fn view(&self) -> PlanView {
        match self {
            DriverPlan::Exit => PlanView::Exit,
            DriverPlan::Run { args, callbacks } => PlanView::Run(strings(args@), *callbacks),
        }
    }
}

/// The first position of `x` in `s`.
pub open spec fn first_index(s: Seq<Seq<char>>, x: Seq<char>) -> int {
    choose|i: int| 0 <= i < s.len() && s[i] == x && forall|j: int| 0 <= j < i ==> s[j] != x
}

/// `args` with `--sysroot` and the `SYSROOT` value appended, when that value
/// is given and the command line names no sysroot.
pub open spec fn with_sysroot(args: Seq<Seq<char>>, env: Option<Seq<char>>, has_sysroot: bool) -> Seq<
    Seq<char>,
> {
    match env {
        Some(root) => if has_sysroot {
            args
        } else {
            args + seq!["--sysroot"@, root]
        },
        None => args,
    }
}

/// Clippy is kept out of the run: lints are capped at `allow` and no
/// Clippy lint is forced to warn.
pub open spec fn caps_lints(args: Seq<Seq<char>>) -> bool {
    option_values(args, "--cap-lints"@).contains("allow"@) && !(exists|j: int|
        0 <= j < option_values(args, "--force-warn"@).len() && occurs(
            #[trigger] option_values(args, "--force-warn"@)[j],
            "clippy::"@,
        ))
}

/// The driver's plan for the command line `orig`, the `SYSROOT` value
/// `env`, the `CLIPPY_ARGS` value `var`, whether Cargo builds the primary
/// package, and the file stem `stem` of the second argument.
pub open spec fn plan_of(
    orig: Seq<Seq<char>>,
    env: Option<Seq<char>>,
    var: Option<Seq<char>>,
    in_primary_package: bool,
    stem: Option<Seq<char>>,
) -> PlanView {
    let has_sysroot = option_values(orig, "--sysroot"@).len() > 0;
    if orig.contains("--rustc"@) {
        let a = orig.remove(first_index(orig, "--rustc"@)).update(0, "rustc"@);
        PlanView::Run(with_sysroot(a, env, has_sysroot), Callbacks::Default)
    } else if orig.contains("--version"@) || orig.contains("-V"@) {
        PlanView::Exit
    } else {
        let wrapper_mode = orig.len() > 1 && stem == Some("rustc"@);
        let o = if wrapper_mode {
            orig.remove(1)
        } else {
            orig
        };
        if !wrapper_mode && (o.contains("--help"@) || o.contains("-h"@) || o.len() == 1) {
            PlanView::Exit
        } else {
            let args = with_sysroot(o, env, has_sysroot);
            let (extra, no_deps) = clippy_args_of(var);
            if !caps_lints(o) && (!no_deps || in_primary_package) {
                PlanView::Run(args + extra, Callbacks::Clippy)
            } else {
                PlanView::Run(args, Callbacks::Rustc)
            }
        }
    }
}

/// The string slices of a vector of strings.
fn as_strs<'a>(v: &'a Vec<String>) -> (r: Vec<&'a str>)
    ensures
        views(r@) == strings(v@),
{
    let mut r: Vec<&'a str> = Vec::new();
    let mut i: usize = 0;
    while i < v.len()
        invariant
            0 <= i <= v@.len(),
            r@.len() == i,
            forall|j: int| 0 <= j < i ==> #[trigger] r@[j]@ == v@[j]@,
        decreases v.len() - i,
    {
        r.push(v[i].as_str());
        i = i + 1;
    }
    assert(views(r@) =~= strings(v@));
    r
}

/// The position of `x` in `v`, if `x` is there.
fn position(v: &Vec<String>, x: &str) -> (r: Option<usize>)
    ensures
        match r {
            Some(i) => i < v@.len() && strings(v@).contains(x@) && i == first_index(strings(v@), x@),
            None => !strings(v@).contains(x@),
        },
{
    let ghost sv = strings(v@);
    let mut i: usize = 0;
    while i < v.len()
        invariant
            0 <= i <= v@.len(),
            sv == strings(v@),
            forall|j: int| 0 <= j < i ==> sv[j] != x@,
        decreases v.len() - i,
    {
        if str_eq(v[i].as_str(), x) {
            proof {
                let k = first_index(sv, x@);
                assert(sv[i as int] == x@);
                assert(0 <= k < sv.len() && sv[k] == x@ && forall|j: int| 0 <= j < k ==> sv[j] != x@);
                if k < i {
                    assert(sv[k] != x@);
                } else if k > i {
                    assert(sv[i as int] != x@);
                }
            }
            return Some(i);
        }
        i = i + 1;
    }
    None
}

/// Appends `--sysroot` and the `SYSROOT` value when that value is given and
/// the command line names no sysroot.
fn pass_sysroot_env_if_given(args: &mut Vec<String>, sys_root_env: &Option<String>, has_sysroot_arg: bool)
    ensures
        strings(final(args)@) == with_sysroot(
            strings(old(args)@),
            match sys_root_env {
                Some(s) => Some(s@),
                None => None,
            },
            has_sysroot_arg,
        ),
{
    proof {
        reveal_strlit("--sysroot");
    }
    if let Some(sys_root) = sys_root_env {
        if !has_sysroot_arg {
            let ghost before = strings(args@);
            args.push("--sysroot".to_string());
            args.push(sys_root.clone());
            assert(strings(args@) =~= before + seq!["--sysroot"@, sys_root@]);
        }
    }
}

/// A copy of a vector of strings.
fn copy_strings(v: &Vec<String>) -> (r: Vec<String>)
    ensures
        strings(r@) == strings(v@),
{
    let mut r: Vec<String> = Vec::new();
    let mut i: usize = 0;
    while i < v.len()
        invariant
            0 <= i <= v@.len(),
            r@.len() == i,
            forall|j: int| 0 <= j < i ==> #[trigger] r@[j]@ == v@[j]@,
        decreases v.len() - i,
    {
        r.push(v[i].clone());
        i = i + 1;
    }
    assert(strings(r@) =~= strings(v@));
    r
}

/// Accepts every value.
fn any_value(_v: &str) -> (b: bool)
    ensures
        b,
{
    true
}

/// Whether the command line offers a value for the option `find`.
fn has_option(args: &Vec<String>, find: &str) -> (r: bool)
    ensures
        r == (option_values(strings(args@), find@).len() > 0),
{
    let strs = as_strs(args);
    let found = arg_value(strs.as_slice(), find, any_value);
    proof {
        let values = option_values(strings(args@), find@);
        if found.is_none() && values.len() > 0 {
            assert(rejects(any_value, values[0]));
        }
    }
    found.is_some()
}

/// Accepts the value `allow`.
fn is_allow(v: &str) -> (b: bool)
    ensures
        b == (v@ == "allow"@),
{
    str_eq(v, "allow")
}

/// Accepts a value that names a Clippy lint.
fn names_clippy_lint(v: &str) -> (b: bool)
    ensures
        b == occurs(v@, "clippy::"@),
{
    str_contains(v, "clippy::")
}

/// Whether the lints of this run are capped at `allow`, with no Clippy lint
/// forced to warn.
fn cap_lints_allow(args: &Vec<String>) -> (r: bool)
    ensures
        r == caps_lints(strings(args@)),
{
    let strs = as_strs(args);
    let ghost a = strings(args@);
    let capped = arg_value(strs.as_slice(), "--cap-lints", is_allow);
    let forced = arg_value(strs.as_slice(), "--force-warn", names_clippy_lint);
    proof {
        let caps = option_values(a, "--cap-lints"@);
        let warns = option_values(a, "--force-warn"@);
        match capped {
            Some(v) => {
                let k = choose|k: int|
                    0 <= k < caps.len() && caps[k] == v@ && call_ensures(is_allow, (v,), true)
                        && forall|j: int| 0 <= j < k ==> rejects(is_allow, #[trigger] caps[j]);
                assert(caps[k] == "allow"@);
            },
            None => {
                assert forall|j: int| 0 <= j < caps.len() implies caps[j] != "allow"@ by {
                    assert(rejects(is_allow, caps[j]));
                }
            },
        }
        match forced {
            Some(v) => {
                let k = choose|k: int|
                    0 <= k < warns.len() && warns[k] == v@ && call_ensures(names_clippy_lint, (v,), true)
                        && forall|j: int| 0 <= j < k ==> rejects(names_clippy_lint, #[trigger] warns[j]);
                assert(occurs(warns[k], "clippy::"@));
            },
            None => {
                assert forall|j: int| 0 <= j < warns.len() implies !occurs(#[trigger] warns[j], "clippy::"@) by {
                    assert(rejects(names_clippy_lint, warns[j]));
                }
            },
        }
    }
    capped.is_some() && forced.is_none()
}

/// The texts of an optional string.
pub open spec fn opt_view(s: Option<String>) -> Option<Seq<char>> {
    match s {
        Some(t) => Some(t@),
        None => None,
    }
}

/// The driver's plan, given the file stem of the second argument (`None`
/// when there is no second argument or it has no stem).
///
/// `--rustc` makes the driver run plain `rustc` on the other arguments;
/// `--version` and `-V` make it exit; under `RUSTC_WRAPPER` Cargo passes
/// `rustc` as the second argument, which is dropped; `--help`, `-h` or no
/// argument make it exit. Otherwise Clippy runs, unless the lints are capped
/// at `allow` or `--no-deps` keeps it to the primary package.
pub fn plan_with_stem(
    orig_args: Vec<String>,
    sys_root_env: Option<String>,
    clippy_args_var: Option<String>,
    in_primary_package: bool,
    stem: Option<String>,
) -> (r: DriverPlan)
    requires
        strings(orig_args@).contains("--rustc"@) ==> orig_args@.len() >= 2,
    ensures
        r@ == plan_of(
            strings(orig_args@),
            opt_view(sys_root_env),
            opt_view(clippy_args_var),
            in_primary_package,
            opt_view(stem),
        ),
{
    proof {
        reveal_strlit("rustc");
    }
    let ghost orig = strings(orig_args@);
    let mut orig_args = orig_args;
    let has_sysroot_arg = has_option(&orig_args, "--sysroot");
    if let Some(pos) = position(&orig_args, "--rustc") {
        orig_args.remove(pos);
        assert(strings(orig_args@) =~= orig.remove(pos as int));
        let ghost removed = strings(orig_args@);
        orig_args.set(0, "rustc".to_string());
        assert(strings(orig_args@) =~= removed.update(0, "rustc"@));
        pass_sysroot_env_if_given(&mut orig_args, &sys_root_env, has_sysroot_arg);
        return DriverPlan::Run { args: orig_args, callbacks: Callbacks::Default };
    }
    if position(&orig_args, "--version").is_some() || position(&orig_args, "-V").is_some() {
        return DriverPlan::Exit;
    }
    let wrapper_mode = orig_args.len() > 1 && match &stem {
        Some(s) => str_eq(s.as_str(), "rustc"),
        None => false,
    };
    if wrapper_mode {
        orig_args.remove(1);
        assert(strings(orig_args@) =~= orig.remove(1));
    }
    if !wrapper_mode && (position(&orig_args, "--help").is_some() || position(
        &orig_args,
        "-h",
    ).is_some() || orig_args.len() == 1) {
        return DriverPlan::Exit;
    }
    let mut args = copy_strings(&orig_args);
    pass_sysroot_env_if_given(&mut args, &sys_root_env, has_sysroot_arg);
    let var: Option<&str> = match &clippy_args_var {
        Some(v) => Some(v.as_str()),
        None => None,
    };
    let (mut extra, no_deps) = clippy_args(var);
    let capped = cap_lints_allow(&orig_args);
    if !capped && (!no_deps || in_primary_package) {
        let ghost before = strings(args@);
        let ghost added = strings(extra@);
        args.append(&mut extra);
        assert(strings(args@) =~= before + added);
        DriverPlan::Run { args, callbacks: Callbacks::Clippy }
    } else {
        DriverPlan::Run { args, callbacks: Callbacks::Rustc }
    }
}

/// The file stem of the second argument, if there is one.
pub open spec fn second_arg_stem(orig: Seq<Seq<char>>) -> Option<Seq<char>> {
    if orig.len() > 1 {
        path_file_stem(orig[1])
    } else {
        None
    }
}

/// The driver's plan for the command line `orig_args`, the values of the
/// `SYSROOT` and `CLIPPY_ARGS` variables, and whether Cargo builds the
/// primary package (`CARGO_PRIMARY_PACKAGE` is set).
pub fn plan(
    orig_args: Vec<String>,
    sys_root_env: Option<String>,
    clippy_args_var: Option<String>,
    in_primary_package: bool,
) -> (r: DriverPlan)
    requires
        strings(orig_args@).contains("--rustc"@) ==> orig_args@.len() >= 2,
    ensures
        r@ == plan_of(
            strings(orig_args@),
            opt_view(sys_root_env),
            opt_view(clippy_args_var),
            in_primary_package,
            second_arg_stem(strings(orig_args@)),
        ),
{
    let stem = if orig_args.len() > 1 {
        file_stem(orig_args[1].as_str())
    } else {
        None
    };
    assert(opt_view(stem) == second_arg_stem(strings(orig_args@)));
    plan_with_stem(orig_args, sys_root_env, clippy_args_var, in_primary_package, stem)
}

/// `with` is `without` with `--sysroot` and `root` put in at one place.
pub open spec fn inserts_sysroot(with: Seq<Seq<char>>, without: Seq<Seq<char>>, root: Seq<char>) -> bool {
    exists|k: int|
        #![trigger with[k]]
        0 <= k && k + 2 <= with.len() && with[k] == "--sysroot"@ && with[k + 1] == root
            && with.subrange(0, k) == without.subrange(0, k)
            && with.subrange(k + 2, with.len() as int) == without.subrange(k, without.len() as int)
}

/// The plan `with` is the plan `without` with the sysroot `root` passed
/// on: both exit, or both run with the same callbacks, the first with
/// `--sysroot root` put in among the second's arguments.
pub open spec fn sysroot_appended(with: PlanView, without: PlanView, root: Seq<char>) -> bool {
    match with {
        PlanView::Run(w, c1) => match without {
            PlanView::Run(v, c2) => c1 == c2 && w.len() == v.len() + 2 && inserts_sysroot(w, v, root),
            PlanView::Exit => false,
        },
        PlanView::Exit => without == PlanView::Exit,
    }
}

/// The `SYSROOT` value is passed on only when the command line names no
/// sysroot: when it names one, the plan is the same whatever `SYSROOT` holds.
/// When it names none and `SYSROOT` is set, every planned run passes
/// `--sysroot` with that value, right after the command line's arguments.
pub proof fn law_sysroot_env_only_without_sysroot_argument(
    orig: Seq<Seq<char>>,
    root: Seq<char>,
    var: Option<Seq<char>>,
    in_primary_package: bool,
    stem: Option<Seq<char>>,
)
    ensures
        option_values(orig, "--sysroot"@).len() > 0 ==> plan_of(
            orig,
            Some(root),
            var,
            in_primary_package,
            stem,
        ) == plan_of(orig, None, var, in_primary_package, stem),
        option_values(orig, "--sysroot"@).len() == 0 ==> sysroot_appended(
            plan_of(orig, Some(root), var, in_primary_package, stem),
            plan_of(orig, None, var, in_primary_package, stem),
            root,
        ),
{
    let named = option_values(orig, "--sysroot"@).len() > 0;
    if !named {
        let a = plan_of(orig, Some(root), var, in_primary_package, stem);
        let b = plan_of(orig, None, var, in_primary_package, stem);
        if orig.contains("--rustc"@) {
            let base = orig.remove(first_index(orig, "--rustc"@)).update(0, "rustc"@);
            let k = base.len() as int;
            let with = base + seq!["--sysroot"@, root];
            assert(a == PlanView::Run(with, Callbacks::Default));
            assert(b == PlanView::Run(base, Callbacks::Default));
            assert(with[k] == "--sysroot"@ && with[k + 1] == root);
            assert(with.subrange(0, k) =~= base.subrange(0, k));
            assert(with.subrange(k + 2, with.len() as int) =~= base.subrange(k, base.len() as int));
            assert(inserts_sysroot(with, base, root));
            assert(sysroot_appended(a, b, root));
        } else if !(orig.contains("--version"@) || orig.contains("-V"@)) {
            let wrapper_mode = orig.len() > 1 && stem == Some("rustc"@);
            let o = if wrapper_mode {
                orig.remove(1)
            } else {
                orig
            };
            if !wrapper_mode && (o.contains("--help"@) || o.contains("-h"@) || o.len() == 1) {
                assert(a == PlanView::Exit && b == PlanView::Exit);
            } else {
                let k = o.len() as int;
                let (extra, no_deps) = clippy_args_of(var);
                let with = o + seq!["--sysroot"@, root];
                if !caps_lints(o) && (!no_deps || in_primary_package) {
                    let w = with + extra;
                    let v = o + extra;
                    assert(a == PlanView::Run(w, Callbacks::Clippy));
                    assert(b == PlanView::Run(v, Callbacks::Clippy));
                    assert(w[k] == "--sysroot"@ && w[k + 1] == root);
                    assert(w.subrange(0, k) =~= v.subrange(0, k));
                    assert(w.subrange(k + 2, w.len() as int) =~= v.subrange(k, v.len() as int));
                    assert(w.len() == v.len() + 2);
                    assert(inserts_sysroot(w, v, root));
                    assert(sysroot_appended(a, b, root));
                } else {
                    assert(a == PlanView::Run(with, Callbacks::Rustc));
                    assert(b == PlanView::Run(o, Callbacks::Rustc));
                    assert(with[k] == "--sysroot"@ && with[k + 1] == root);
                    assert(with.subrange(0, k) =~= o.subrange(0, k));
                    assert(with.subrange(k + 2, with.len() as int) =~= o.subrange(k, o.len() as int));
                    assert(inserts_sysroot(with, o, root));
                    assert(sysroot_appended(a, b, root));
                }
            }
        } else {
            assert(a == PlanView::Exit && b == PlanView::Exit);
        }
    }
}

} // verus!
