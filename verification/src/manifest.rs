//! The hexagonal dependency rule for the client crates, and the manifest reading it rests on.
//!
//! The port and core crates are the interior of the hexagon: they may not name a transport,
//! a storage mechanism or a UI framework. A shell may not name an adapter, and nothing
//! shared may name a platform crate.
use vstd::prelude::*;

use crate::text::{chars_of, same_text, string_of, trim, trim_bounds};

verus! {

broadcast use vstd::seq_lib::group_seq_properties;

/// The longest prefix of `s` holding no character that `stop` accepts.
pub open spec fn prefix_until(s: Seq<char>, stop: spec_fn(char) -> bool) -> Seq<char>
    decreases s.len(),
{
    if s.len() == 0 || stop(s[0]) {
        Seq::empty()
    } else {
        seq![s[0]] + prefix_until(s.drop_first(), stop)
    }
}

/// A line with any `#` comment removed.
pub open spec fn before_comment(line: Seq<char>) -> Seq<char> {
    prefix_until(line, |c: char| c == '#')
}

/// The part of a `key = value` line before the first `=`, `.` or space.
pub open spec fn first_token(line: Seq<char>) -> Seq<char> {
    prefix_until(line, |c: char| c == '=' || c == '.' || c == ' ')
}

/// Where the last occurrence of `pat` in `s` starts.
pub open spec fn last_match(s: Seq<char>, pat: Seq<char>) -> Option<int>
    decreases s.len(),
{
    if s.len() < pat.len() {
        None
    } else if s.subrange(s.len() - pat.len(), s.len() as int) == pat {
        Some(s.len() - pat.len())
    } else {
        last_match(s.drop_last(), pat)
    }
}

/// Whether `c` reads as a `[section]` header.
pub open spec fn is_section(c: Seq<char>) -> bool {
    c.len() >= 2 && c[0] == '[' && c.last() == ']'
}

/// The dependency a manifest line declares, if any.
///
/// Both spellings count, because they are equivalent to cargo: `dioxus = "0.7"` declares
/// `dioxus`, and so does the header `[dependencies.dioxus]` (or its `dev-` and `target`
/// forms). Any other header declares nothing, and a comment is removed first.
pub open spec fn line_key(line: Seq<char>) -> Option<Seq<char>> {
    let c = trim(before_comment(line));
    if c.len() == 0 {
        None
    } else if is_section(c) {
        let section = c.subrange(1, c.len() - 1);
        match last_match(section, "dependencies."@) {
            Some(i) => Some(trim(section.subrange(i + "dependencies."@.len(), section.len() as int))),
            None => None,
        }
    } else {
        Some(first_token(c))
    }
}

/// The key of `line` when it is a non-empty one.
pub open spec fn nonempty_key(line: Seq<char>) -> Seq<Seq<char>> {
    match line_key(line) {
        Some(k) => if k.len() > 0 {
            seq![k]
        } else {
            Seq::empty()
        },
        None => Seq::empty(),
    }
}

/// The keys declared by the text `s`, whose current line so far is `line`.
pub open spec fn keys_from(s: Seq<char>, line: Seq<char>) -> Seq<Seq<char>>
    decreases s.len(),
{
    if s.len() == 0 {
        nonempty_key(line)
    } else if s[0] == '\n' {
        nonempty_key(line) + keys_from(s.drop_first(), Seq::empty())
    } else {
        keys_from(s.drop_first(), line.push(s[0]))
    }
}

/// Every dependency name a manifest declares, line by line, in order.
pub open spec fn dependency_keys(manifest: Seq<char>) -> Seq<Seq<char>> {
    keys_from(manifest, Seq::empty())
}

proof fn lemma_comment_cut(code: Seq<char>, note: Seq<char>)
    ensures
        before_comment(code + seq!['#'] + note) == before_comment(code),
    decreases code.len(),
{
    let whole = code + seq!['#'] + note;
    if code.len() == 0 {
        assert(whole[0] == '#');
    } else if code[0] != '#' {
        assert(whole[0] == code[0]);
        assert(whole.drop_first() =~= code.drop_first() + seq!['#'] + note);
        lemma_comment_cut(code.drop_first(), note);
    } else {
        assert(whole[0] == '#');
    }
}

/// A crate named in a `#` note is no dependency: whatever follows a `#` on a line leaves
/// what the line declares unchanged, and a line that is only a note declares nothing.
pub proof fn lemma_comment_is_ignored(code: Seq<char>, note: Seq<char>)
    ensures
        line_key(code + seq!['#'] + note) == line_key(code),
        line_key(seq!['#'] + note) is None,
{
    lemma_comment_cut(code, note);
    lemma_comment_cut(Seq::empty(), note);
    assert(Seq::<char>::empty() + seq!['#'] + note =~= seq!['#'] + note);
    assert(before_comment(Seq::<char>::empty()) =~= Seq::<char>::empty());
    assert(trim(Seq::<char>::empty()) =~= Seq::<char>::empty());
}

proof fn lemma_prefix_until(s: Seq<char>, stop: spec_fn(char) -> bool, i: int)
    requires
        0 <= i <= s.len(),
        forall|k: int| 0 <= k < i ==> !stop(#[trigger] s[k]),
        i == s.len() || stop(s[i]),
    ensures
        prefix_until(s, stop) == s.take(i),
    decreases i,
{
    if i == 0 {
        assert(s.take(0) =~= Seq::<char>::empty());
    } else {
        lemma_prefix_until(s.drop_first(), stop, i - 1);
        assert(seq![s[0]] + s.drop_first().take(i - 1) =~= s.take(i));
    }
}

/// Whether `c` ends a key (`separators`) or a comment-free prefix (otherwise).
fn is_stop(c: char, separators: bool) -> (r: bool)
    ensures
        r == (if separators {
            c == '=' || c == '.' || c == ' '
        } else {
            c == '#'
        }),
{
    if separators {
        c == '=' || c == '.' || c == ' '
    } else {
        c == '#'
    }
}

/// The length of the longest prefix of `v[..]` free of `stop` characters.
fn stop_index(v: &Vec<char>, separators: bool) -> (r: usize)
    ensures
        r <= v.len(),
        separators ==> prefix_until(v@, |c: char| c == '=' || c == '.' || c == ' ') == v@.take(
            r as int,
        ),
        !separators ==> prefix_until(v@, |c: char| c == '#') == v@.take(r as int),
{
    let ghost stop = if separators {
        |c: char| c == '=' || c == '.' || c == ' '
    } else {
        |c: char| c == '#'
    };
    let mut i: usize = 0;
    while i < v.len() && !is_stop(v[i], separators)
        invariant
            i <= v.len(),
            stop == (if separators {
                |c: char| c == '=' || c == '.' || c == ' '
            } else {
                |c: char| c == '#'
            }),
            forall|k: int| 0 <= k < i ==> !stop(#[trigger] v@[k]),
        decreases v.len() - i,
    {
        i = i + 1;
    }
    proof {
        lemma_prefix_until(v@, stop, i as int);
    }
    i
}

proof fn lemma_last_match_skip(s: Seq<char>, pat: Seq<char>, e: int)
    requires
        pat.len() <= e <= s.len(),
        forall|f: int|
            e < f <= s.len() ==> #[trigger] s.subrange(f - pat.len(), f) != pat,
    ensures
        last_match(s, pat) == last_match(s.take(e), pat),
    decreases s.len() - e,
{
    if e < s.len() {
        assert(s.subrange(s.len() - pat.len(), s.len() as int) != pat);
        assert(s.drop_last() =~= s.take(s.len() - 1));
        assert forall|f: int| e < f <= s.drop_last().len() implies #[trigger] s.drop_last().subrange(
            f - pat.len(),
            f,
        ) != pat by {
            assert(s.drop_last().subrange(f - pat.len(), f) =~= s.subrange(f - pat.len(), f));
        }
        lemma_last_match_skip(s.drop_last(), pat, e);
        assert(s.drop_last().take(e) =~= s.take(e));
    } else {
        assert(s.take(e) =~= s);
    }
}

proof fn lemma_last_match_none(s: Seq<char>, pat: Seq<char>)
    requires
        pat.len() > 0,
        forall|f: int|
            pat.len() <= f <= s.len() ==> #[trigger] s.subrange(f - pat.len(), f) != pat,
    ensures
        last_match(s, pat) is None,
    decreases s.len(),
{
    if s.len() >= pat.len() {
        assert(s.subrange(s.len() - pat.len(), s.len() as int) != pat);
        assert forall|f: int|
            pat.len() <= f <= s.drop_last().len() implies #[trigger] s.drop_last().subrange(
            f - pat.len(),
            f,
        ) != pat by {
            assert(s.drop_last().subrange(f - pat.len(), f) =~= s.subrange(f - pat.len(), f));
        }
        lemma_last_match_none(s.drop_last(), pat);
    }
}

/// Whether `v[from..from + pat.len()]` is `pat`.
fn matches_at(v: &Vec<char>, from: usize, pat: &Vec<char>) -> (r: bool)
    requires
        from + pat.len() <= v.len(),
    ensures
        r == (v@.subrange(from as int, from + pat.len()) == pat@),
{
    let mut k: usize = 0;
    while k < pat.len()
        invariant
            from + pat.len() <= v.len(),
            k <= pat.len(),
            forall|j: int| 0 <= j < k ==> v@[from + j] == pat@[j],
        decreases pat.len() - k,
    {
        if v[from + k] != pat[k] {
            assert(v@.subrange(from as int, from + pat.len())[k as int] != pat@[k as int]);
            return false;
        }
        k = k + 1;
    }
    assert(v@.subrange(from as int, from + pat.len()) =~= pat@);
    true
}

/// Where the last `pat` in `v` starts.
fn find_last(v: &Vec<char>, pat: &Vec<char>) -> (r: Option<usize>)
    requires
        pat.len() > 0,
    ensures
        r matches Some(i) ==> last_match(v@, pat@) == Some(i as int) && i + pat.len() <= v.len(),
        r is None ==> last_match(v@, pat@) is None,
{
    let p = pat.len();
    if v.len() < p {
        return None;
    }
    let mut e: usize = v.len();
    while e >= p
        invariant
            p == pat.len() > 0,
            e <= v.len(),
            p <= v.len(),
            forall|f: int| e < f <= v@.len() ==> #[trigger] v@.subrange(f - p, f) != pat@,
        decreases e,
    {
        if matches_at(v, e - p, pat) {
            proof {
                lemma_last_match_skip(v@, pat@, e as int);
                assert(v@.take(e as int).subrange(e - p, e as int) =~= v@.subrange(e - p, e as int));
            }
            return Some(e - p);
        }
        if e == p {
            proof {
                assert forall|f: int| p <= f <= v@.len() implies #[trigger] v@.subrange(f - p, f)
                    != pat@ by {
                    if f == p {
                    }
                }
                lemma_last_match_none(v@, pat@);
            }
            return None;
        }
        e = e - 1;
    }
    proof {
        lemma_last_match_none(v@, pat@);
    }
    None
}

/// A copy of `v[from..to]`.
fn slice_of(v: &Vec<char>, from: usize, to: usize) -> (r: Vec<char>)
    requires
        from <= to <= v.len(),
    ensures
        r@ == v@.subrange(from as int, to as int),
{
    let mut r: Vec<char> = Vec::new();
    let mut i = from;
    while i < to
        invariant
            from <= i <= to <= v.len(),
            r@ == v@.subrange(from as int, i as int),
        decreases to - i,
    {
        r.push(v[i]);
        proof {
            assert(v@.subrange(from as int, i + 1) =~= v@.subrange(from as int, i as int).push(
                v@[i as int],
            ));
        }
        i = i + 1;
    }
    r
}

/// `v` trimmed, as a new vector.
fn trim_chars(v: &Vec<char>) -> (r: Vec<char>)
    ensures
        r@ == trim(v@),
{
    let (i, j) = trim_bounds(v);
    slice_of(v, i, j)
}

/// The key `line` declares, if any.
fn key_of_line(line: &Vec<char>, pat: &Vec<char>) -> (r: Option<Vec<char>>)
    requires
        pat@ == "dependencies."@,
    ensures
        r matches Some(k) ==> line_key(line@) == Some(k@),
        r is None ==> line_key(line@) is None,
{
    let h = stop_index(line, false);
    let uncommented = slice_of(line, 0, h);
    let c = trim_chars(&uncommented);
    assert(c@ == trim(before_comment(line@)));
    if c.len() == 0 {
        return None;
    }
    let n = c.len();
    if n >= 2 && c[0] == '[' && c[n - 1] == ']' {
        assert(is_section(c@));
        let section = slice_of(&c, 1, n - 1);
        proof {
            reveal_strlit("dependencies.");
            assert("dependencies."@.len() == 13);
        }
        match find_last(&section, pat) {
            Some(i) => {
                let rest = slice_of(&section, i + pat.len(), section.len());
                let key = trim_chars(&rest);
                assert(last_match(section@, "dependencies."@) == Some(i as int));
                assert(line_key(line@) == Some(key@));
                Some(key)
            },
            None => None,
        }
    } else {
        assert(!is_section(c@));
        let t = stop_index(&c, true);
        assert(c@.subrange(0, t as int) =~= c@.take(t as int));
        let key = slice_of(&c, 0, t);
        assert(line_key(line@) == Some(key@));
        Some(key)
    }
}

/// Extracts every dependency name a manifest declares, in order.
///
/// Handles both spellings, `dioxus = "0.7"` and `[dependencies.dioxus]`, because a rule
/// that sees only one can be walked around by accident. Comments are stripped first, so a
/// crate named in a `#` note does not count.
pub fn declared_dependency_keys(manifest: &str) -> (r: Vec<String>)
    ensures
        r@.map_values(|k: String| k@) == dependency_keys(manifest@),
{
    proof {
        reveal_strlit("dependencies.");
    }
    let pat = chars_of("dependencies.");
    let s = chars_of(manifest);
    let mut out: Vec<String> = Vec::new();
    let mut line: Vec<char> = Vec::new();
    let mut i: usize = 0;
    while i < s.len()
        invariant
            pat@ == "dependencies."@,
            s@ == manifest@,
            i <= s.len(),
            out@.map_values(|k: String| k@) + keys_from(s@.skip(i as int), line@) == dependency_keys(
                manifest@,
            ),
        decreases s.len() - i,
    {
        let ghost rest = s@.skip(i as int);
        assert(rest.drop_first() =~= s@.skip(i + 1));
        let c = s[i];
        if c == '\n' {
            let ghost before = out@.map_values(|k: String| k@);
            match key_of_line(&line, &pat) {
                Some(k) => {
                    if k.len() > 0 {
                        out.push(string_of(&k, 0, k.len()));
                        assert(k@.subrange(0, k@.len() as int) =~= k@);
                    }
                },
                None => {},
            }
            assert(out@.map_values(|k: String| k@) =~= before + nonempty_key(line@));
            line = Vec::new();
        } else {
            line.push(c);
        }
        i = i + 1;
    }
    let ghost before = out@.map_values(|k: String| k@);
    assert(s@.skip(i as int).len() == 0);
    match key_of_line(&line, &pat) {
        Some(k) => {
            if k.len() > 0 {
                out.push(string_of(&k, 0, k.len()));
                assert(k@.subrange(0, k@.len() as int) =~= k@);
            }
        },
        None => {},
    }
    assert(out@.map_values(|k: String| k@) =~= before + nonempty_key(line@));
    out
}

/// Adapter technologies. Any of these inside the hexagon means a port was bypassed.
pub open spec fn forbidden_names() -> Seq<Seq<char>> {
    seq![
        "dioxus"@, "dioxus-router"@, "web-sys"@, "js-sys"@, "wasm-bindgen"@,
        "wasm-bindgen-futures"@, "gloo-storage"@, "gloo-net"@, "gloo-timers"@, "jni"@, "ndk"@,
        "ndk-context"@, "android-activity"@, "objc2"@, "objc2-foundation"@, "reqwest"@, "tokio"@,
    ]
}

/// Adapter crates of the client workspace. A shell must not name one directly.
pub open spec fn adapter_crate_names() -> Seq<Seq<char>> {
    seq![
        "fingest-client-http"@, "fingest-client-events"@, "fingest-web-storage"@,
        "fingest-mobile-storage"@,
    ]
}

/// Shells and their adapters. Nothing shared may depend on one.
pub open spec fn platform_crate_names() -> Seq<Seq<char>> {
    seq![
        "fingest-web-shell"@, "fingest-web-storage"@, "fingest-web-bootstrap"@,
        "fingest-mobile-shell"@, "fingest-mobile-storage"@, "fingest-mobile-bootstrap"@,
    ]
}

/// Whether `name` is one of `names`.
fn listed(names: &Vec<&'static str>, name: &str) -> (r: bool)
    ensures
        r == names@.map_values(|n: &'static str| n@).contains(name@),
{
    let ghost view = names@.map_values(|n: &'static str| n@);
    let mut i: usize = 0;
    while i < names.len()
        invariant
            i <= names.len(),
            view == names@.map_values(|n: &'static str| n@),
            forall|k: int| 0 <= k < i ==> #[trigger] view[k] != name@,
        decreases names.len() - i,
    {
        if same_text(names[i], name) {
            assert(view[i as int] == name@);
            return true;
        }
        i = i + 1;
    }
    proof {
        if view.contains(name@) {
            let k = view.index_of(name@);
            assert(view[k] == name@);
        }
    }
    false
}

/// Whether `name` is an adapter technology the interior may not declare.
pub fn is_forbidden(name: &str) -> (r: bool)
    ensures
        r == forbidden_names().contains(name@),
{
    let names = vec![
        "dioxus", "dioxus-router", "web-sys", "js-sys", "wasm-bindgen", "wasm-bindgen-futures",
        "gloo-storage", "gloo-net", "gloo-timers", "jni", "ndk", "ndk-context",
        "android-activity", "objc2", "objc2-foundation", "reqwest", "tokio",
    ];
    assert(names@.map_values(|n: &'static str| n@) =~= forbidden_names());
    listed(&names, name)
}

/// Whether `name` is an adapter crate of the client workspace.
pub fn is_adapter_crate(name: &str) -> (r: bool)
    ensures
        r == adapter_crate_names().contains(name@),
{
    let names = vec![
        "fingest-client-http", "fingest-client-events", "fingest-web-storage",
        "fingest-mobile-storage",
    ];
    assert(names@.map_values(|n: &'static str| n@) =~= adapter_crate_names());
    listed(&names, name)
}

/// Whether `name` is a platform crate.
pub fn is_platform_crate(name: &str) -> (r: bool)
    ensures
        r == platform_crate_names().contains(name@),
{
    let names = vec![
        "fingest-web-shell", "fingest-web-storage", "fingest-web-bootstrap",
        "fingest-mobile-shell", "fingest-mobile-storage", "fingest-mobile-bootstrap",
    ];
    assert(names@.map_values(|n: &'static str| n@) =~= platform_crate_names());
    listed(&names, name)
}

/// Whether `s` starts with `p`.
fn has_prefix(s: &Vec<char>, p: &Vec<char>) -> (r: bool)
    ensures
        r == (p@.len() <= s@.len() && s@.take(p@.len() as int) == p@),
{
    if p.len() > s.len() {
        return false;
    }
    let r = matches_at(s, 0, p);
    assert(s@.subrange(0, p@.len() as int) =~= s@.take(p@.len() as int));
    r
}

/// Whether `s` ends with `p`.
fn has_suffix(s: &Vec<char>, p: &Vec<char>) -> (r: bool)
    ensures
        r == (p@.len() <= s@.len() && s@.skip(s@.len() - p@.len()) == p@),
{
    if p.len() > s.len() {
        return false;
    }
    let r = matches_at(s, s.len() - p.len(), p);
    assert(s@.subrange(s@.len() - p@.len(), s@.len() as int) =~= s@.skip(s@.len() - p@.len()));
    r
}

/// The interior of the hexagon: the ports, the module gate and every core crate.
pub open spec fn pure_crate(name: Seq<char>) -> bool {
    ||| name == "fingest-client-ports"@
    ||| name == "fingest-client-modules"@
    ||| ("-core"@.len() <= name.len() && name.skip(name.len() - "-core"@.len()) == "-core"@)
}

/// Crates every client shares.
pub open spec fn shared_crate(name: Seq<char>) -> bool {
    "fingest-client-"@.len() <= name.len() && name.take("fingest-client-"@.len() as int)
        == "fingest-client-"@
}

/// Whether the crate `name` belongs to the interior of the hexagon.
pub fn is_pure(name: &str) -> (r: bool)
    ensures
        r == pure_crate(name@),
{
    let n = chars_of(name);
    let suffix = chars_of("-core");
    same_text(name, "fingest-client-ports") || same_text(name, "fingest-client-modules")
        || has_suffix(&n, &suffix)
}

/// Whether the crate `name` is shared by every client.
pub fn is_shared(name: &str) -> (r: bool)
    ensures
        r == shared_crate(name@),
{
    let n = chars_of(name);
    let prefix = chars_of("fingest-client-");
    has_prefix(&n, &prefix)
}

} // verus!
