//! Expansion of the `Exec` value of a freedesktop.org desktop entry into a
//! command line that `sh -c` runs with every argument intact.
use std::borrow::Cow;
use vstd::prelude::*;
use vstd::string::*;
use crate::text::{chars_of, is_ascii_alphanumeric, is_ascii_alphanumeric_spec, is_whitespace, is_whitespace_spec, push_char};

verus! {

broadcast use vstd::string::group_string_axioms;

/// The characters that a backslash escapes inside double quotes.
pub open spec fn quoted_escapable(c: char) -> bool {
    c == '"' || c == '`' || c == '$' || c == '\\'
}

/// The tokenizer of `Exec` values, from the state it is in (the arguments
/// so far, the argument being built, whether one is open, whether a quote
/// is open) over the characters that are left.
pub open spec fn exec_args_from(
    rest: Seq<char>,
    args: Seq<Seq<char>>,
    cur: Seq<char>,
    has_arg: bool,
    in_quotes: bool,
) -> Seq<Seq<char>>
    decreases rest.len(),
{
    if rest.len() == 0 {
        if has_arg {
            args.push(cur)
        } else {
            args
        }
    } else {
        let c = rest[0];
        let r = rest.drop_first();
        if in_quotes {
            if c == '"' {
                exec_args_from(r, args, cur, has_arg, false)
            } else if c == '\\' {
                if r.len() == 0 {
                    exec_args_from(r, args, cur.push('\\'), has_arg, true)
                } else if quoted_escapable(r[0]) {
                    exec_args_from(r.drop_first(), args, cur.push(r[0]), has_arg, true)
                } else {
                    exec_args_from(r.drop_first(), args, cur.push('\\').push(r[0]), has_arg, true)
                }
            } else {
                exec_args_from(r, args, cur.push(c), has_arg, true)
            }
        } else {
            if c == '"' {
                exec_args_from(r, args, cur, true, true)
            } else if c == '\\' {
                if r.len() == 0 {
                    exec_args_from(r, args, cur.push('\\'), true, false)
                } else {
                    exec_args_from(r.drop_first(), args, cur.push(r[0]), true, false)
                }
            } else if is_whitespace_spec(c) {
                if has_arg {
                    exec_args_from(r, args.push(cur), Seq::empty(), false, false)
                } else {
                    exec_args_from(r, args, cur, false, false)
                }
            } else {
                exec_args_from(r, args, cur.push(c), true, false)
            }
        }
    }
}

/// The arguments of an `Exec` value.
pub open spec fn exec_args(s: Seq<char>) -> Seq<Seq<char>> {
    exec_args_from(s, Seq::empty(), Seq::empty(), false, false)
}

/// The words of `s` split at whitespace: the maximal runs of characters
/// that are not whitespace, in order (as `str::split_whitespace` gives
/// them), from the words so far and the word being read.
pub open spec fn split_ws_from(rest: Seq<char>, words: Seq<Seq<char>>, cur: Seq<char>) -> Seq<
    Seq<char>,
>
    decreases rest.len(),
{
    if rest.len() == 0 {
        if cur.len() > 0 {
            words.push(cur)
        } else {
            words
        }
    } else if is_whitespace_spec(rest[0]) {
        if cur.len() > 0 {
            split_ws_from(rest.drop_first(), words.push(cur), Seq::empty())
        } else {
            split_ws_from(rest.drop_first(), words, cur)
        }
    } else {
        split_ws_from(rest.drop_first(), words, cur.push(rest[0]))
    }
}

/// The words of `s` split at whitespace.
pub open spec fn split_whitespace_spec(s: Seq<char>) -> Seq<Seq<char>> {
    split_ws_from(s, Seq::empty(), Seq::empty())
}

proof fn lemma_unquoted_splits(rest: Seq<char>, args: Seq<Seq<char>>, cur: Seq<char>, has_arg: bool)
    requires
        forall|i: int| 0 <= i < rest.len() ==> #[trigger] rest[i] != '"' && rest[i] != '\\',
        has_arg <==> cur.len() > 0,
    ensures
        exec_args_from(rest, args, cur, has_arg, false) == split_ws_from(rest, args, cur),
    decreases rest.len(),
{
    if rest.len() > 0 {
        let r = rest.drop_first();
        assert(rest[0] != '"' && rest[0] != '\\');
        assert forall|i: int| 0 <= i < r.len() implies #[trigger] r[i] != '"' && r[i] != '\\' by {
            assert(r[i] == rest[i + 1]);
        }
        if is_whitespace_spec(rest[0]) {
            if has_arg {
                lemma_unquoted_splits(r, args.push(cur), Seq::empty(), false);
            } else {
                lemma_unquoted_splits(r, args, cur, false);
            }
        } else {
            lemma_unquoted_splits(r, args, cur.push(rest[0]), true);
        }
    }
}

/// An `Exec` value without double quotes or backslashes splits into the
/// same arguments as splitting it at whitespace.
pub proof fn law_unquoted_exec_splits_at_whitespace(s: Seq<char>)
    requires
        !s.contains('"'),
        !s.contains('\\'),
    ensures
        exec_args(s) == split_whitespace_spec(s),
{
    assert forall|i: int| 0 <= i < s.len() implies #[trigger] s[i] != '"' && s[i] != '\\' by {
        if s[i] == '"' || s[i] == '\\' {
            assert(s.contains(s[i]));
        }
    }
    lemma_unquoted_splits(s, Seq::empty(), Seq::empty(), false);
}

/// Splits the `Exec` value of a desktop entry into arguments, by the quoting
/// rules of the Desktop Entry Specification: unquoted whitespace separates
/// arguments; double quotes keep whitespace; inside them a backslash escapes
/// only `"`, `` ` ``, `$` and `\` and is kept before anything else; single
/// quotes are not special; outside quotes a backslash escapes the next
/// character; an unterminated quote runs to the end.
pub fn parse_desktop_exec_args(s: &str) -> (r: Vec<String>)
    ensures
        r.deep_view() == exec_args(s@),
{
    let cs = chars_of(s);
    let mut args: Vec<String> = Vec::new();
    let mut current = String::new();
    let mut has_arg = false;
    let mut in_quotes = false;
    let mut i: usize = 0;
    proof {
        assert(cs@.skip(0) =~= cs@);
        assert(args.deep_view() =~= Seq::<Seq<char>>::empty());
    }
    while i < cs.len()
        invariant
            i <= cs.len(),
            cs@ == s@,
            exec_args_from(cs@.skip(i as int), args.deep_view(), current@, has_arg, in_quotes)
                == exec_args(s@),
        decreases cs.len() - i,
    {
        let ghost rest = cs@.skip(i as int);
        let c = cs[i];
        assert(rest[0] == c);
        assert(rest.drop_first() =~= cs@.skip(i + 1));
        i = i + 1;
        if in_quotes {
            if c == '"' {
                in_quotes = false;
            } else if c == '\\' {
                if i < cs.len() {
                    let e = cs[i];
                    assert(cs@.skip(i as int)[0] == e);
                    assert(cs@.skip(i as int).drop_first() =~= cs@.skip(i + 1));
                    i = i + 1;
                    if e == '"' || e == '`' || e == '$' || e == '\\' {
                        push_char(&mut current, e);
                    } else {
                        push_char(&mut current, '\\');
                        push_char(&mut current, e);
                    }
                } else {
                    push_char(&mut current, '\\');
                }
            } else {
                push_char(&mut current, c);
            }
        } else {
            if c == '"' {
                in_quotes = true;
                has_arg = true;
            } else if c == '\\' {
                has_arg = true;
                if i < cs.len() {
                    let e = cs[i];
                    assert(cs@.skip(i as int)[0] == e);
                    assert(cs@.skip(i as int).drop_first() =~= cs@.skip(i + 1));
                    i = i + 1;
                    push_char(&mut current, e);
                } else {
                    push_char(&mut current, '\\');
                }
            } else if is_whitespace(c) {
                if has_arg {
                    let ghost before = args.deep_view();
                    args.push(current);
                    current = String::new();
                    has_arg = false;
                    assert(args.deep_view() =~= before.push(args@.last()@));
                }
            } else {
                push_char(&mut current, c);
                has_arg = true;
            }
        }
    }
    proof {
        assert(cs@.skip(i as int).len() == 0);
    }
    if has_arg {
        let ghost before = args.deep_view();
        args.push(current);
        assert(args.deep_view() =~= before.push(args@.last()@));
    }
    args
}

/// Characters that the shell takes literally as they are.
pub open spec fn sh_safe(c: char) -> bool {
    is_ascii_alphanumeric_spec(c) || c == '_' || c == '.' || c == '/' || c == '-' || c == ':'
        || c == '@' || c == '%' || c == '+' || c == '=' || c == ',' || (c as u32) >= 0x80
}

/// `s` with a backslash before every character that the shell would not
/// take literally.
pub open spec fn sh_escape(s: Seq<char>) -> Seq<char>
    decreases s.len(),
{
    if s.len() == 0 {
        Seq::empty()
    } else {
        let init = sh_escape(s.drop_last());
        if sh_safe(s.last()) {
            init.push(s.last())
        } else {
            init.push('\\').push(s.last())
        }
    }
}

/// Whether every character of `s` is taken literally by the shell.
pub open spec fn all_sh_safe(s: Seq<char>) -> bool {
    forall|i: int| 0 <= i < s.len() ==> #[trigger] sh_safe(s[i])
}

/// A string of safe characters needs no escape.
pub proof fn lemma_sh_escape_safe(s: Seq<char>)
    requires
        all_sh_safe(s),
    ensures
        sh_escape(s) == s,
    decreases s.len(),
{
    if s.len() > 0 {
        assert(sh_safe(s[s.len() - 1]));
        lemma_sh_escape_safe(s.drop_last());
        assert(s.drop_last().push(s.last()) =~= s);
    }
}

fn is_sh_safe(c: char) -> (r: bool)
    ensures
        r == sh_safe(c),
{
    is_ascii_alphanumeric(c) || c == '_' || c == '.' || c == '/' || c == '-' || c == ':' || c
        == '@' || c == '%' || c == '+' || c == '=' || c == ',' || (c as u32) >= 0x80
}

/// Escapes `arg` so that `sh -c` passes it on as one literal argument; an
/// argument with nothing to escape is handed back as it is.
pub fn escape_sh_arg(arg: &str) -> (r: Cow<'_, str>)
    ensures
        r@ == sh_escape(arg@),
        r is Borrowed <==> all_sh_safe(arg@),
{
    let cs = chars_of(arg);
    let mut all_safe = true;
    let mut i: usize = 0;
    while i < cs.len()
        invariant
            i <= cs.len(),
            cs@ == arg@,
            all_safe <==> (forall|j: int| 0 <= j < i ==> #[trigger] sh_safe(cs@[j])),
        decreases cs.len() - i,
    {
        if !is_sh_safe(cs[i]) {
            all_safe = false;
        }
        i = i + 1;
    }
    if all_safe {
        proof {
            lemma_sh_escape_safe(arg@);
        }
        return Cow::Borrowed(arg);
    }
    let mut escaped = String::new();
    let mut k: usize = 0;
    proof {
        assert(cs@.take(0) =~= Seq::<char>::empty());
    }
    while k < cs.len()
        invariant
            k <= cs.len(),
            cs@ == arg@,
            escaped@ == sh_escape(cs@.take(k as int)),
        decreases cs.len() - k,
    {
        let c = cs[k];
        if !is_sh_safe(c) {
            push_char(&mut escaped, '\\');
        }
        push_char(&mut escaped, c);
        proof {
            let next = cs@.take(k + 1);
            assert(next.drop_last() =~= cs@.take(k as int));
            assert(next.last() == c);
        }
        k = k + 1;
    }
    proof {
        assert(cs@.take(cs.len() as int) =~= cs@);
    }
    Cow::Owned(escaped)
}

/// Whether `pat` occurs in `s` at character position `i`.
pub open spec fn occurs_at(s: Seq<char>, pat: Seq<char>, i: int) -> bool {
    0 <= i && i + pat.len() <= s.len() && s.subrange(i, i + pat.len()) == pat
}

/// The first position at or after `i` where `pat` occurs in `s`.
pub open spec fn find_from(s: Seq<char>, pat: Seq<char>, i: int) -> Option<int>
    decreases s.len() + 1 - i,
{
    if i < 0 || i + pat.len() > s.len() {
        None
    } else if occurs_at(s, pat, i) {
        Some(i)
    } else {
        find_from(s, pat, i + 1)
    }
}

/// The first position where `pat` occurs in `s`, as `str::find` gives it
/// (counted in characters rather than bytes).
pub open spec fn find_spec(s: Seq<char>, pat: Seq<char>) -> Option<int> {
    find_from(s, pat, 0)
}

/// What `find_from` gives is an occurrence, and the first one.
pub proof fn lemma_find_from(s: Seq<char>, pat: Seq<char>, i: int)
    requires
        0 <= i,
    ensures
        find_from(s, pat, i) matches Some(p) ==> i <= p && occurs_at(s, pat, p) && forall|q: int|
            i <= q < p ==> !#[trigger] occurs_at(s, pat, q),
        find_from(s, pat, i) is None ==> forall|q: int| i <= q ==> !#[trigger] occurs_at(s, pat, q),
    decreases s.len() + 1 - i,
{
    if i + pat.len() > s.len() {
    } else if occurs_at(s, pat, i) {
    } else {
        lemma_find_from(s, pat, i + 1);
    }
}

/// The first position at or after `from` where `pat` occurs in `cs`.
fn find_chars(cs: &Vec<char>, pat: &Vec<char>, from: usize) -> (r: Option<usize>)
    requires
        from <= cs.len(),
    ensures
        r matches Some(p) ==> find_from(cs@, pat@, from as int) == Some(p as int),
        r is None ==> find_from(cs@, pat@, from as int) is None,
{
    let mut i = from;
    while i <= cs.len() && pat.len() <= cs.len() - i
        invariant
            from <= i,
            i <= cs.len() + 1,
            find_from(cs@, pat@, from as int) == find_from(cs@, pat@, i as int),
        decreases cs.len() + 1 - i,
    {
        let mut j: usize = 0;
        let mut same = true;
        while j < pat.len()
            invariant
                i + pat.len() <= cs.len(),
                j <= pat.len(),
                same <==> (forall|k: int| 0 <= k < j ==> cs@[i + k] == pat@[k]),
            decreases pat.len() - j,
        {
            if cs[i + j] != pat[j] {
                same = false;
            }
            j = j + 1;
        }
        proof {
            if same {
                assert(cs@.subrange(i as int, i + pat.len()) =~= pat@);
            } else {
                let k = choose|k: int| 0 <= k < pat.len() && cs@[i + k] != pat@[k];
                assert(cs@.subrange(i as int, i + pat.len())[k] != pat@[k]);
            }
        }
        if same {
            return Some(i);
        }
        i = i + 1;
    }
    None
}

/// `s` with every occurrence of `pat`, scanned from the left, removed, as
/// `str::replace` with an empty replacement gives it.
pub open spec fn remove_all(s: Seq<char>, pat: Seq<char>) -> Seq<char>
    decreases s.len(),
{
    if pat.len() == 0 || s.len() == 0 {
        s
    } else if s.len() >= pat.len() && s.take(pat.len() as int) == pat {
        remove_all(s.skip(pat.len() as int), pat)
    } else {
        seq![s[0]] + remove_all(s.drop_first(), pat)
    }
}

/// `s` with every occurrence of `pat` removed.
fn remove_code(s: &str, pat: &str) -> (r: String)
    ensures
        r@ == remove_all(s@, pat@),
{
    let cs = chars_of(s);
    let ps = chars_of(pat);
    let mut out = String::new();
    if ps.len() == 0 {
        out.append(s);
        return out;
    }
    let mut i: usize = 0;
    proof {
        assert(cs@.skip(0) =~= cs@);
    }
    while i < cs.len()
        invariant
            i <= cs.len(),
            cs@ == s@,
            ps@ == pat@,
            ps.len() > 0,
            out@ + remove_all(cs@.skip(i as int), ps@) == remove_all(s@, pat@),
        decreases cs.len() - i,
    {
        let ghost rest = cs@.skip(i as int);
        let mut j: usize = 0;
        let mut same = ps.len() <= cs.len() - i;
        if same {
            while j < ps.len()
                invariant
                    i + ps.len() <= cs.len(),
                    j <= ps.len(),
                    same <==> (forall|k: int| 0 <= k < j ==> cs@[i + k] == ps@[k]),
                decreases ps.len() - j,
            {
                if cs[i + j] != ps[j] {
                    same = false;
                }
                j = j + 1;
            }
        }
        proof {
            if same {
                assert(rest.take(ps.len() as int) =~= ps@);
            } else if ps.len() <= rest.len() {
                let k = choose|k: int| 0 <= k < ps.len() && cs@[i + k] != ps@[k];
                assert(rest.take(ps.len() as int)[k] != ps@[k]);
            }
        }
        if same {
            proof {
                assert(rest.skip(ps.len() as int) =~= cs@.skip(i + ps.len()));
            }
            i = i + ps.len();
        } else {
            let c = cs[i];
            push_char(&mut out, c);
            proof {
                assert(rest.drop_first() =~= cs@.skip(i + 1));
                assert(rest[0] == c);
                assert(out@ + remove_all(rest.drop_first(), ps@) =~= (out@.drop_last()) + (seq![c]
                    + remove_all(rest.drop_first(), ps@)));
            }
            i = i + 1;
        }
    }
    proof {
        assert(cs@.skip(i as int) =~= Seq::<char>::empty());
        assert(out@ + Seq::<char>::empty() =~= out@);
    }
    out
}

/// `s` with the `n` characters at position `p` replaced by `rep`.
pub open spec fn replace_at(s: Seq<char>, p: int, n: int, rep: Seq<char>) -> Seq<char> {
    s.take(p) + rep + s.skip(p + n)
}

/// The arguments after the first occurrence of `code`, in the first
/// argument from `k` on that holds it, is replaced by `rep`; `None` where
/// no argument holds it.
pub open spec fn substitute_from(args: Seq<Seq<char>>, code: Seq<char>, rep: Seq<char>, k: int) -> Option<
    Seq<Seq<char>>,
>
    decreases args.len() - k,
{
    if k < 0 || k >= args.len() {
        None
    } else {
        match find_spec(args[k], code) {
            Some(p) => Some(args.update(k, replace_at(args[k], p, code.len() as int, rep))),
            None => substitute_from(args, code, rep, k + 1),
        }
    }
}

/// The arguments after the first occurrence of `code` is replaced by `rep`
/// (the replacement is not scanned again); `None` where none holds it.
pub open spec fn substitute_spec(args: Seq<Seq<char>>, code: Seq<char>, rep: Seq<char>) -> Option<
    Seq<Seq<char>>,
> {
    substitute_from(args, code, rep, 0)
}

/// Replaces the first occurrence of `code` in `args` with `replacement`;
/// the substituted value is not scanned again. Says whether there was one.
pub fn substitute_field_code(args: &mut Vec<String>, code: &str, replacement: &str) -> (found: bool)
    ensures
        match substitute_spec(old(args).deep_view(), code@, replacement@) {
            Some(next) => found && final(args).deep_view() == next,
            None => !found && final(args).deep_view() == old(args).deep_view(),
        },
{
    let code_chars = chars_of(code);
    let mut k: usize = 0;
    while k < args.len()
        invariant
            k <= args.len(),
            code_chars@ == code@,
            args.deep_view() == old(args).deep_view(),
            substitute_spec(old(args).deep_view(), code@, replacement@) == substitute_from(
                old(args).deep_view(),
                code@,
                replacement@,
                k as int,
            ),
        decreases args.len() - k,
    {
        let ghost before = args.deep_view();
        let arg_chars = chars_of(args[k].as_str());
        assert(arg_chars@ == before[k as int]);
        if let Some(p) = find_chars(&arg_chars, &code_chars, 0) {
            proof {
                lemma_find_from(arg_chars@, code_chars@, 0);
            }
            let n = arg_chars.len();
            let head = args[k].as_str().substring_char(0, p);
            let tail = args[k].as_str().substring_char(p + code_chars.len(), n);
            let mut replaced = String::from_str(head);
            replaced.append(replacement);
            replaced.append(tail);
            proof {
                assert(head@ =~= arg_chars@.take(p as int));
                assert(tail@ =~= arg_chars@.skip(p + code_chars.len()));
            }
            args.set(k, replaced);
            proof {
                assert(args.deep_view() =~= before.update(
                    k as int,
                    replace_at(before[k as int], p as int, code@.len() as int, replacement@),
                ));
            }
            return true;
        }
        k = k + 1;
    }
    false
}

/// The words of `v` joined by single spaces.
pub open spec fn join_words(v: Seq<Seq<char>>) -> Seq<char>
    decreases v.len(),
{
    if v.len() == 0 {
        Seq::empty()
    } else if v.len() == 1 {
        v[0]
    } else {
        join_words(v.drop_last()) + seq![' '] + v.last()
    }
}

/// An argument with the field codes `%i`, `%c` and `%k` removed.
pub open spec fn purge(a: Seq<char>) -> Seq<char> {
    remove_all(remove_all(remove_all(a, seq!['%', 'i']), seq!['%', 'c']), seq!['%', 'k'])
}

/// The arguments, purged, without those that purge to nothing.
pub open spec fn purged_args(raw: Seq<Seq<char>>) -> Seq<Seq<char>>
    decreases raw.len(),
{
    if raw.len() == 0 {
        Seq::empty()
    } else {
        let init = purged_args(raw.drop_last());
        let a = purge(raw.last());
        if a.len() == 0 {
            init
        } else {
            init.push(a)
        }
    }
}

/// The URL handed to `%u` and `%U`: `path` itself when it is one, else a
/// `file://` URL.
pub open spec fn url_of(path: Seq<char>, is_url: bool) -> Seq<char> {
    if is_url {
        path
    } else {
        seq!['f', 'i', 'l', 'e', ':', '/', '/'] + path
    }
}

/// The arguments once the first of `%f`, `%F`, `%u`, `%U` (in that order)
/// that occurs is expanded, or with the path appended where none does.
pub open spec fn with_target(args: Seq<Seq<char>>, path: Seq<char>, url: Seq<char>) -> Seq<Seq<char>> {
    match substitute_spec(args, seq!['%', 'f'], path) {
        Some(a) => a,
        None => match substitute_spec(args, seq!['%', 'F'], path) {
            Some(a) => a,
            None => match substitute_spec(args, seq!['%', 'u'], url) {
                Some(a) => a,
                None => match substitute_spec(args, seq!['%', 'U'], url) {
                    Some(a) => a,
                    None => args.push(path),
                },
            },
        },
    }
}

/// Each argument escaped for the shell.
pub open spec fn escaped_args(v: Seq<Seq<char>>) -> Seq<Seq<char>> {
    Seq::new(v.len(), |i: int| sh_escape(v[i]))
}

/// The command line that [`desktop_exec_to_command`] builds.
pub open spec fn desktop_command_spec(command: Seq<char>, path: Seq<char>, is_url: bool) -> Seq<char> {
    join_words(escaped_args(with_target(purged_args(exec_args(command)), path, url_of(path, is_url))))
}

/// Expands the field codes of a desktop entry `Exec` value for one `path`
/// (a URL when `is_url`) into a command line that `sh -c` runs with every
/// argument intact.
pub fn desktop_exec_to_command(command: &str, path: String, is_url: bool) -> (r: String)
    ensures
        r@ == desktop_command_spec(command@, path@, is_url),
{
    let url = if is_url {
        path.clone()
    } else {
        let mut u = String::from_str("file://");
        u.append(path.as_str());
        u
    };
    proof {
        reveal_strlit("file://");
        assert(url@ =~= url_of(path@, is_url));
    }
    let raw = parse_desktop_exec_args(command);
    let mut args: Vec<String> = Vec::new();
    let mut i: usize = 0;
    proof {
        assert(raw.deep_view().take(0) =~= Seq::<Seq<char>>::empty());
        assert(args.deep_view() =~= Seq::<Seq<char>>::empty());
    }
    while i < raw.len()
        invariant
            i <= raw.len(),
            args.deep_view() == purged_args(raw.deep_view().take(i as int)),
        decreases raw.len() - i,
    {
        let a = remove_code(raw[i].as_str(), "%i");
        let b = remove_code(a.as_str(), "%c");
        let c = remove_code(b.as_str(), "%k");
        proof {
            reveal_strlit("%i");
            reveal_strlit("%c");
            reveal_strlit("%k");
            assert("%i"@ =~= seq!['%', 'i']);
            assert("%c"@ =~= seq!['%', 'c']);
            assert("%k"@ =~= seq!['%', 'k']);
            let next = raw.deep_view().take(i + 1);
            assert(next.drop_last() =~= raw.deep_view().take(i as int));
            assert(next.last() == raw@[i as int]@);
        }
        let ghost before = args.deep_view();
        if c.as_str().unicode_len() > 0 {
            args.push(c);
            assert(args.deep_view() =~= before.push(args@.last()@));
        }
        i = i + 1;
    }
    proof {
        assert(raw.deep_view().take(raw.len() as int) =~= raw.deep_view());
        reveal_strlit("%f");
        reveal_strlit("%F");
        reveal_strlit("%u");
        reveal_strlit("%U");
        assert("%f"@ =~= seq!['%', 'f']);
        assert("%F"@ =~= seq!['%', 'F']);
        assert("%u"@ =~= seq!['%', 'u']);
        assert("%U"@ =~= seq!['%', 'U']);
    }
    let ghost purged = args.deep_view();
    if !substitute_field_code(&mut args, "%f", path.as_str()) && !substitute_field_code(
        &mut args,
        "%F",
        path.as_str(),
    ) && !substitute_field_code(&mut args, "%u", url.as_str()) && !substitute_field_code(
        &mut args,
        "%U",
        url.as_str(),
    ) {
        let ghost before = args.deep_view();
        args.push(path);
        assert(args.deep_view() =~= before.push(args@.last()@));
    }
    assert(args.deep_view() == with_target(purged, path@, url@));
    let mut out = String::new();
    let mut k: usize = 0;
    proof {
        assert(escaped_args(args.deep_view()).take(0) =~= Seq::<Seq<char>>::empty());
    }
    while k < args.len()
        invariant
            k <= args.len(),
            out@ == join_words(escaped_args(args.deep_view()).take(k as int)),
        decreases args.len() - k,
    {
        let e = escape_sh_arg(args[k].as_str());
        let ghost prev = escaped_args(args.deep_view()).take(k as int);
        if k > 0 {
            out.append(" ");
        }
        match &e {
            Cow::Borrowed(b) => out.append(b),
            Cow::Owned(o) => out.append(o.as_str()),
        }
        proof {
            reveal_strlit(" ");
            let next = escaped_args(args.deep_view()).take(k + 1);
            assert(next.drop_last() =~= prev);
            assert(next.last() == e@);
            if k == 0 {
                assert(next.len() == 1);
                assert(out@ =~= next[0]);
            } else {
                assert(out@ =~= join_words(prev) + seq![' '] + e@);
            }
        }
        k = k + 1;
    }
    proof {
        assert(escaped_args(args.deep_view()).take(args.len() as int) =~= escaped_args(
            args.deep_view(),
        ));
    }
    out
}

} // verus!
