//! Shortcut bindings: up to two keys for one command, written
//! comma-separated in configuration (`Up,k`), with their display, hint
//! and configuration forms.
use vstd::prelude::*;
use vstd::string::*;
use smallvec::SmallVec;
use crate::keys::{Key, KeyView, key_display, key_hint, parse_key, parse_key_spec, parse_view, config_spec, key_to_config_string, configurable, law_config_string_parses_back, parse_u8_spec, strip_plus, all_digits, is_digit};
use crate::text::{chars_of, split_chars, split_spec, split_from, string_of, rows, utf8_len, char_width, lemma_char_width};

verus! {

broadcast use vstd::string::group_string_axioms;

/// The keys of a binding, held in `smallvec`'s inline vector (room for
/// two keys before it allocates).
#[verifier::external_body]
pub struct KeyVec {
    inner: SmallVec<[Key; 2]>,
}

/// The keys a binding vector holds, in order.
pub uninterp spec fn bound_keys(v: KeyVec) -> Seq<KeyView>;

/// Calls `SmallVec::new`. Claimed: the vector holds no key.
#[verifier::external_body]
fn keys_new() -> (r: KeyVec)
    ensures
        bound_keys(r) == Seq::<KeyView>::empty(),
{
    KeyVec { inner: SmallVec::new() }
}

/// Calls `SmallVec::push`. Claimed: the key is appended and the others
/// stay as they were.
#[verifier::external_body]
fn keys_push(v: &mut KeyVec, k: Key)
    requires
        bound_keys(*old(v)).len() < usize::MAX,
    ensures
        bound_keys(*final(v)) == bound_keys(*old(v)).push(k@),
{
    v.inner.push(k)
}

/// Calls `SmallVec::len`. Claimed: the number of keys held.
#[verifier::external_body]
fn keys_len(v: &KeyVec) -> (r: usize)
    ensures
        r == bound_keys(*v).len(),
{
    v.inner.len()
}

/// Indexes the vector (`Index` of `SmallVec`). Claimed: the key at `i`.
#[verifier::external_body]
fn keys_get(v: &KeyVec, i: usize) -> (r: &Key)
    requires
        i < bound_keys(*v).len(),
    ensures
        r@ == bound_keys(*v)[i as int],
{
    &v.inner[i]
}

/// Up to two key bindings for one shortcut; either key triggers it.
pub struct ShortcutKeys(pub KeyVec);

impl View for ShortcutKeys {
    type V = Seq<KeyView>;

    open spec fn view(&self) -> Seq<KeyView> {
        bound_keys(self.0)
    }
}

/// Whether two keys are the same key.
pub fn key_eq(a: &Key, b: &Key) -> (r: bool)
    ensures
        r == (a@ == b@),
{
    match (a, b) {
        (Key::Backspace, Key::Backspace) => true,
        (Key::Left, Key::Left) => true,
        (Key::Right, Key::Right) => true,
        (Key::Up, Key::Up) => true,
        (Key::Down, Key::Down) => true,
        (Key::Home, Key::Home) => true,
        (Key::End, Key::End) => true,
        (Key::PageUp, Key::PageUp) => true,
        (Key::PageDown, Key::PageDown) => true,
        (Key::Delete, Key::Delete) => true,
        (Key::Insert, Key::Insert) => true,
        (Key::F(x), Key::F(y)) => *x == *y,
        (Key::Char(x), Key::Char(y)) => *x == *y,
        (Key::Alt(x), Key::Alt(y)) => *x == *y,
        (Key::Ctrl(x), Key::Ctrl(y)) => *x == *y,
        (Key::Null, Key::Null) => true,
        (Key::Esc, Key::Esc) => true,
        (Key::Mouse(x), Key::Mouse(y)) => *x == *y,
        (Key::Paste(x), Key::Paste(y)) => *x == *y,
        _ => false,
    }
}

/// The pieces joined with `sep` between each two.
pub open spec fn join_with(parts: Seq<Seq<char>>, sep: Seq<char>) -> Seq<char>
    decreases parts.len(),
{
    if parts.len() == 0 {
        Seq::empty()
    } else if parts.len() == 1 {
        parts[0]
    } else {
        join_with(parts.drop_last(), sep) + sep + parts.last()
    }
}

/// The display forms of the keys.
pub open spec fn displays(keys: Seq<KeyView>) -> Seq<Seq<char>> {
    keys.map_values(|k: KeyView| key_display(k))
}

/// The hint forms of the keys.
pub open spec fn hints(keys: Seq<KeyView>) -> Seq<Seq<char>> {
    keys.map_values(|k: KeyView| key_hint(k))
}

/// The configuration forms of the keys.
pub open spec fn configs(keys: Seq<KeyView>) -> Seq<Seq<char>> {
    keys.map_values(|k: KeyView| config_spec(k))
}

/// The message of a binding with more than two keys.
pub open spec fn too_many_keys_msg() -> Seq<char> {
    "at most two comma-separated keys are allowed"@
}

/// The message of a pair with a comma key, which has no configuration
/// form.
pub open spec fn comma_pair_msg() -> Seq<char> {
    "a comma key cannot be serialized together with a second binding key"@
}

/// The keys named by `pieces`, or the message of the first piece that
/// names none.
pub open spec fn parse_all(pieces: Seq<Seq<char>>) -> Result<Seq<KeyView>, Seq<char>>
    decreases pieces.len(),
{
    if pieces.len() == 0 {
        Ok(Seq::empty())
    } else {
        match parse_all(pieces.drop_last()) {
            Err(e) => Err(e),
            Ok(ks) => match parse_key_spec(pieces.last()) {
                Ok(k) => Ok(ks.push(k)),
                Err(e) => Err(e),
            },
        }
    }
}

/// The binding written `s` in configuration: the one key `s` names when
/// it names one (a lone comma is the comma key); else the keys of its
/// comma-separated pieces, not trimmed, at most two of them.
pub open spec fn from_config_spec(s: Seq<char>) -> Result<Seq<KeyView>, Seq<char>> {
    match parse_key_spec(s) {
        Ok(k) => Ok(seq![k]),
        Err(_) => match parse_all(split_spec(s, ',')) {
            Err(e) => Err(e),
            Ok(ks) => if ks.len() > 2 {
                Err(too_many_keys_msg())
            } else {
                Ok(ks)
            },
        },
    }
}

/// The configuration form of a binding: the keys' forms joined with
/// commas; a pair one of whose forms holds a comma has none.
pub open spec fn to_config_spec(keys: Seq<KeyView>) -> Result<Seq<char>, Seq<char>> {
    let parts = configs(keys);
    if parts.len() > 1 && exists|i: int| 0 <= i < parts.len() && #[trigger] parts[i].contains(',') {
        Err(comma_pair_msg())
    } else {
        Ok(join_with(parts, ","@))
    }
}

/// The view of a parsed binding.
pub open spec fn binding_view(r: Result<ShortcutKeys, String>) -> Result<Seq<KeyView>, Seq<char>> {
    match r {
        Ok(b) => Ok(b@),
        Err(e) => Err(e@),
    }
}

/// The view of a configuration form.
pub open spec fn text_view(r: Result<String, String>) -> Result<Seq<char>, Seq<char>> {
    match r {
        Ok(s) => Ok(s@),
        Err(e) => Err(e@),
    }
}

impl ShortcutKeys {
    /// The number of bound keys.
    pub fn len(&self) -> (r: usize)
        ensures
            r == self@.len(),
    {
        keys_len(&self.0)
    }

    /// The bound key at `i`.
    pub fn get(&self, i: usize) -> (r: &Key)
        requires
            i < self@.len(),
        ensures
            r@ == self@[i as int],
    {
        keys_get(&self.0, i)
    }

    /// A binding of one key.
    pub fn single(k: Key) -> (r: ShortcutKeys)
        ensures
            r@ == seq![k@],
    {
        let mut v = keys_new();
        keys_push(&mut v, k);
        ShortcutKeys(v)
    }

    /// A binding of two keys; either triggers the shortcut.
    pub fn double(a: Key, b: Key) -> (r: ShortcutKeys)
        ensures
            r@ == seq![a@, b@],
    {
        let mut v = keys_new();
        keys_push(&mut v, a);
        keys_push(&mut v, b);
        ShortcutKeys(v)
    }

    /// Whether `k` is one of the bound keys.
    pub fn contains(&self, k: &Key) -> (r: bool)
        ensures
            r == self@.contains(k@),
    {
        let n = keys_len(&self.0);
        let mut i: usize = 0;
        while i < n
            invariant
                n == self@.len(),
                i <= n,
                forall|j: int| 0 <= j < i ==> self@[j] != k@,
            decreases n - i,
        {
            if key_eq(keys_get(&self.0, i), k) {
                return true;
            }
            i = i + 1;
        }
        false
    }

    /// The binding as the interface shows it: the keys' display forms
    /// joined with `/`.
    pub fn to_string(&self) -> (r: String)
        ensures
            r@ == join_with(displays(self@), "/"@),
    {
        let n = keys_len(&self.0);
        let mut out = String::new();
        let mut i: usize = 0;
        proof {
            reveal_strlit("/");
        }
        while i < n
            invariant
                n == self@.len(),
                i <= n,
                out@ == join_with(displays(self@.take(i as int)), "/"@),
            decreases n - i,
        {
            let ghost before = self@.take(i as int);
            if i > 0 {
                out.append("/");
            }
            let d = keys_get(&self.0, i).to_string();
            out.append(d.as_str());
            proof {
                let after = self@.take(i + 1);
                assert(after.drop_last() =~= before);
                assert(displays(after).drop_last() =~= displays(before));
                if i == 0 {
                    assert(displays(after) =~= seq![key_display(self@[0])]);
                }
            }
            i = i + 1;
        }
        assert(self@.take(n as int) =~= self@);
        out
    }

    /// The binding in status-bar hint form: the keys' hint forms joined
    /// with `/`, such as `<Up>/k`.
    pub fn hint_display(&self) -> (r: String)
        ensures
            r@ == join_with(hints(self@), "/"@),
    {
        let n = keys_len(&self.0);
        let mut out = String::new();
        let mut i: usize = 0;
        while i < n
            invariant
                n == self@.len(),
                i <= n,
                out@ == join_with(hints(self@.take(i as int)), "/"@),
            decreases n - i,
        {
            let ghost before = self@.take(i as int);
            if i > 0 {
                out.append("/");
            }
            let d = keys_get(&self.0, i).hint_display();
            out.append(d.as_str());
            proof {
                let after = self@.take(i + 1);
                assert(after.drop_last() =~= before);
                assert(hints(after).drop_last() =~= hints(before));
                if i == 0 {
                    assert(hints(after) =~= seq![key_hint(self@[0])]);
                }
            }
            i = i + 1;
        }
        assert(self@.take(n as int) =~= self@);
        out
    }
}


/// An error in the first `i` pieces is the error of all of them.
proof fn lemma_parse_all_err(pieces: Seq<Seq<char>>, i: int, e: Seq<char>)
    requires
        0 <= i <= pieces.len(),
        parse_all(pieces.take(i)) == Err::<Seq<KeyView>, Seq<char>>(e),
    ensures
        parse_all(pieces) == Err::<Seq<KeyView>, Seq<char>>(e),
    decreases pieces.len() - i,
{
    if i == pieces.len() {
        assert(pieces.take(i) =~= pieces);
    } else {
        assert(pieces.take(i + 1).drop_last() =~= pieces.take(i));
        lemma_parse_all_err(pieces, i + 1, e);
    }
}

/// Whether `s` holds the character `c`.
fn has_char(s: &str, c: char) -> (r: bool)
    ensures
        r == s@.contains(c),
{
    let cs = chars_of(s);
    let mut i: usize = 0;
    while i < cs.len()
        invariant
            cs@ == s@,
            i <= cs@.len(),
            forall|j: int| 0 <= j < i ==> cs@[j] != c,
        decreases cs@.len() - i,
    {
        if cs[i] == c {
            return true;
        }
        i = i + 1;
    }
    false
}

impl ShortcutKeys {
    /// Reads a binding from its configuration form, as
    /// [`from_config_spec`] states it.
    pub fn from_config(value: &str) -> (r: Result<ShortcutKeys, String>)
        ensures
            binding_view(r) == from_config_spec(value@),
    {
        match parse_key(value) {
            Ok(k) => {
                return Ok(Self::single(k));
            },
            Err(_) => {},
        }
        let cs = chars_of(value);
        let pieces = split_chars(&cs, ',');
        let ghost ps = rows(pieces@);
        let mut keys = keys_new();
        let mut i: usize = 0;
        proof {
            assert(ps.take(0) =~= Seq::<Seq<char>>::empty());
        }
        while i < pieces.len()
            invariant
                ps == rows(pieces@),
                ps == split_spec(value@, ','),
                parse_key_spec(value@) is Err,
                i <= pieces@.len(),
                parse_all(ps.take(i as int)) == Ok::<Seq<KeyView>, Seq<char>>(bound_keys(keys)),
                bound_keys(keys).len() == i,
            decreases pieces@.len() - i,
        {
            let piece = string_of(&pieces[i]);
            let parsed = parse_key(piece.as_str());
            proof {
                assert(ps.take(i + 1).drop_last() =~= ps.take(i as int));
                assert(ps.take(i + 1).last() == piece@);
            }
            match parsed {
                Ok(k) => {
                    keys_push(&mut keys, k);
                },
                Err(e) => {
                    proof {
                        lemma_parse_all_err(ps, i + 1, e@);
                    }
                    return Err(e);
                },
            }
            i = i + 1;
        }
        proof {
            assert(ps.take(i as int) =~= ps);
        }
        if keys_len(&keys) > 2 {
            return Err(String::from_str("at most two comma-separated keys are allowed"));
        }
        Ok(ShortcutKeys(keys))
    }

    /// The configuration form of the binding, as [`to_config_spec`]
    /// states it.
    pub fn to_config(&self) -> (r: Result<String, String>)
        ensures
            text_view(r) == to_config_spec(self@),
    {
        let n = keys_len(&self.0);
        let mut parts: Vec<String> = Vec::new();
        let mut i: usize = 0;
        while i < n
            invariant
                n == self@.len(),
                i <= n,
                parts@.len() == i,
                forall|j: int| 0 <= j < i ==> #[trigger] parts@[j]@ == config_spec(self@[j]),
            decreases n - i,
        {
            let p = key_to_config_string(keys_get(&self.0, i));
            parts.push(p);
            i = i + 1;
        }
        let ghost cfg = configs(self@);
        assert(cfg.len() == n);
        if n > 1 {
            let mut j: usize = 0;
            while j < n
                invariant
                    n == self@.len(),
                    n > 1,
                    cfg == configs(self@),
                    parts@.len() == n,
                    forall|k: int| 0 <= k < n ==> #[trigger] parts@[k]@ == config_spec(self@[k]),
                    j <= n,
                    forall|k: int| 0 <= k < j ==> !(#[trigger] cfg[k]).contains(','),
                decreases n - j,
            {
                if has_char(parts[j].as_str(), ',') {
                    assert(cfg[j as int] == parts@[j as int]@);
                    assert(cfg[j as int].contains(','));
                    return Err(String::from_str(
                        "a comma key cannot be serialized together with a second binding key",
                    ));
                }
                assert(cfg[j as int] == parts@[j as int]@);
                j = j + 1;
            }
        }
        let mut out = String::new();
        let mut k: usize = 0;
        while k < n
            invariant
                n == self@.len(),
                cfg == configs(self@),
                parts@.len() == n,
                forall|m: int| 0 <= m < n ==> #[trigger] parts@[m]@ == config_spec(self@[m]),
                k <= n,
                out@ == join_with(cfg.take(k as int), ","@),
            decreases n - k,
        {
            let ghost before = cfg.take(k as int);
            if k > 0 {
                out.append(",");
            }
            out.append(parts[k].as_str());
            proof {
                let after = cfg.take(k + 1);
                assert(after.drop_last() =~= before);
                assert(after.last() == parts@[k as int]@);
                if k == 0 {
                    assert(after =~= seq![parts@[0]@]);
                }
            }
            k = k + 1;
        }
        assert(cfg.take(n as int) =~= cfg);
        Ok(out)
    }
}


/// Splitting a piece without separators gives it whole.
proof fn lemma_split_nosep(rest: Seq<char>, sep: char, cur: Seq<char>)
    requires
        !rest.contains(sep),
    ensures
        split_from(rest, sep, cur) == seq![cur + rest],
    decreases rest.len(),
{
    if rest.len() > 0 {
        assert(rest[0] != sep);
        let d = rest.drop_first();
        assert(!d.contains(sep)) by {
            if d.contains(sep) {
                let k = choose|k: int| 0 <= k < d.len() && d[k] == sep;
                assert(rest[k + 1] == sep);
            }
        }
        lemma_split_nosep(d, sep, cur.push(rest[0]));
        assert(cur.push(rest[0]) + d =~= cur + rest);
    } else {
        assert(cur + rest =~= cur);
    }
}

/// Splitting at the first separator.
proof fn lemma_split_one(a: Seq<char>, b: Seq<char>, sep: char, cur: Seq<char>)
    requires
        !a.contains(sep),
    ensures
        split_from(a + seq![sep] + b, sep, cur) == seq![cur + a] + split_from(b, sep, Seq::empty()),
    decreases a.len(),
{
    let s = a + seq![sep] + b;
    if a.len() == 0 {
        assert(s[0] == sep);
        assert(s.drop_first() =~= b);
        assert(cur + a =~= cur);
    } else {
        assert(a[0] != sep);
        assert(s[0] == a[0]);
        let d = a.drop_first();
        assert(s.drop_first() =~= d + seq![sep] + b);
        assert(!d.contains(sep)) by {
            if d.contains(sep) {
                let k = choose|k: int| 0 <= k < d.len() && d[k] == sep;
                assert(a[k + 1] == sep);
            }
        }
        lemma_split_one(d, b, sep, cur.push(a[0]));
        assert(cur.push(a[0]) + d =~= cur + a);
    }
}

/// Each character takes at least one byte.
proof fn lemma_utf8_len_ge(s: Seq<char>)
    ensures
        utf8_len(s) >= s.len(),
    decreases s.len(),
{
    if s.len() > 0 {
        lemma_char_width(s[0]);
        lemma_utf8_len_ge(s.drop_first());
    }
}

/// Two non-empty pieces without commas, joined by a comma, name no key.
proof fn lemma_joined_names_no_key(p1: Seq<char>, p2: Seq<char>)
    requires
        p1.len() > 0,
        p2.len() > 0,
        !p1.contains(','),
        !p2.contains(','),
    ensures
        parse_key_spec(p1 + seq![','] + p2) is Err,
{
    reveal_strlit("Backspace");
    reveal_strlit("backspace");
    reveal_strlit("Left");
    reveal_strlit("left");
    reveal_strlit("Right");
    reveal_strlit("right");
    reveal_strlit("Up");
    reveal_strlit("up");
    reveal_strlit("Down");
    reveal_strlit("down");
    reveal_strlit("Home");
    reveal_strlit("home");
    reveal_strlit("End");
    reveal_strlit("end");
    reveal_strlit("PageUp");
    reveal_strlit("pageup");
    reveal_strlit("PageDown");
    reveal_strlit("pagedown");
    reveal_strlit("Delete");
    reveal_strlit("delete");
    reveal_strlit("Insert");
    reveal_strlit("insert");
    reveal_strlit("Enter");
    reveal_strlit("enter");
    reveal_strlit("Tab");
    reveal_strlit("tab");
    reveal_strlit("Esc");
    reveal_strlit("esc");
    let s = p1 + seq![','] + p2;
    let j = p1.len() as int;
    assert(s[j] == ',');
    assert(!("Backspace"@).contains(','));
    assert(!("backspace"@).contains(','));
    assert(!("Left"@).contains(','));
    assert(!("left"@).contains(','));
    assert(!("Right"@).contains(','));
    assert(!("right"@).contains(','));
    assert(!("Up"@).contains(','));
    assert(!("up"@).contains(','));
    assert(!("Down"@).contains(','));
    assert(!("down"@).contains(','));
    assert(!("Home"@).contains(','));
    assert(!("home"@).contains(','));
    assert(!("End"@).contains(','));
    assert(!("end"@).contains(','));
    assert(!("PageUp"@).contains(','));
    assert(!("pageup"@).contains(','));
    assert(!("PageDown"@).contains(','));
    assert(!("pagedown"@).contains(','));
    assert(!("Delete"@).contains(','));
    assert(!("delete"@).contains(','));
    assert(!("Insert"@).contains(','));
    assert(!("insert"@).contains(','));
    assert(!("Enter"@).contains(','));
    assert(!("enter"@).contains(','));
    assert(!("Tab"@).contains(','));
    assert(!("tab"@).contains(','));
    assert(!("Esc"@).contains(','));
    assert(!("esc"@).contains(','));
    assert(s.contains(','));
    lemma_utf8_len_ge(s);
    assert(s.len() >= 3);
    if s.len() > 0 && s[0] == 'F' && (utf8_len(s) == 2 || utf8_len(s) == 3) {
        assert(s.len() == 3);
        assert(p1.len() == 1);
        let t = s.drop_first();
        assert(t[0] == ',');
        assert(strip_plus(t) == t);
        assert(!is_digit(t[0]));
        assert(!all_digits(t));
        assert(parse_u8_spec(t) is None);
    }
    if s.len() >= 2 && (s[0] == 'M' || s[0] == 'C') && s[1] == '-' && utf8_len(s) == 3 {
        assert(s.len() == 3);
        assert(p1.len() == 1);
        assert(s[1] == ',');
    }
}

/// An empty name names no key.
proof fn lemma_empty_names_no_key()
    ensures
        parse_key_spec(Seq::<char>::empty()) is Err,
{
    reveal_strlit("Backspace");
    reveal_strlit("backspace");
    reveal_strlit("Left");
    reveal_strlit("left");
    reveal_strlit("Right");
    reveal_strlit("right");
    reveal_strlit("Up");
    reveal_strlit("up");
    reveal_strlit("Down");
    reveal_strlit("down");
    reveal_strlit("Home");
    reveal_strlit("home");
    reveal_strlit("End");
    reveal_strlit("end");
    reveal_strlit("PageUp");
    reveal_strlit("pageup");
    reveal_strlit("PageDown");
    reveal_strlit("pagedown");
    reveal_strlit("Delete");
    reveal_strlit("delete");
    reveal_strlit("Insert");
    reveal_strlit("insert");
    reveal_strlit("Enter");
    reveal_strlit("enter");
    reveal_strlit("Tab");
    reveal_strlit("tab");
    reveal_strlit("Esc");
    reveal_strlit("esc");
}

/// A binding of one or two keys that have configuration forms, where a
/// pair holds no key whose form has a comma (the comma key), prints to a
/// configuration form that reads back as the same binding.
pub proof fn law_binding_config_round_trip(keys: Seq<KeyView>)
    requires
        1 <= keys.len() <= 2,
        forall|i: int| 0 <= i < keys.len() ==> configurable(#[trigger] keys[i]),
        keys.len() == 2 ==> !config_spec(keys[0]).contains(',') && !config_spec(keys[1]).contains(','),
    ensures
        match to_config_spec(keys) {
            Ok(s) => from_config_spec(s) == Ok::<Seq<KeyView>, Seq<char>>(keys),
            Err(_) => false,
        },
{
    reveal_strlit(",");
    let parts = configs(keys);
    assert(parts.len() == keys.len());
    law_config_string_parses_back(keys[0]);
    let c0 = config_spec(keys[0]);
    assert(parts[0] == c0);
    if keys.len() == 1 {
        assert(keys =~= seq![keys[0]]);
        assert(to_config_spec(keys) == Ok::<Seq<char>, Seq<char>>(c0));
    } else {
        law_config_string_parses_back(keys[1]);
        let c1 = config_spec(keys[1]);
        assert(parts[1] == c1);
        assert(!(exists|i: int| 0 <= i < parts.len() && #[trigger] parts[i].contains(','))) by {
            if exists|i: int| 0 <= i < parts.len() && #[trigger] parts[i].contains(',') {
                let i = choose|i: int| 0 <= i < parts.len() && #[trigger] parts[i].contains(',');
                assert(i == 0 || i == 1);
            }
        }
        assert(parts.drop_last() =~= seq![c0]);
        assert(join_with(parts.drop_last(), ","@) == c0);
        let s = c0 + ","@ + c1;
        assert(","@ =~= seq![',']);
        assert(join_with(parts, ","@) == s);
        assert(to_config_spec(keys) == Ok::<Seq<char>, Seq<char>>(s));
        lemma_empty_names_no_key();
        assert(c0.len() > 0) by {
            if c0.len() == 0 {
                assert(c0 =~= Seq::<char>::empty());
            }
        }
        assert(c1.len() > 0) by {
            if c1.len() == 0 {
                assert(c1 =~= Seq::<char>::empty());
            }
        }
        assert(s =~= c0 + seq![','] + c1);
        lemma_joined_names_no_key(c0, c1);
        lemma_split_one(c0, c1, ',', Seq::empty());
        lemma_split_nosep(c1, ',', Seq::empty());
        assert(Seq::<char>::empty() + c0 =~= c0);
        assert(Seq::<char>::empty() + c1 =~= c1);
        let ps = split_spec(s, ',');
        assert(ps =~= seq![c0, c1]);
        assert(ps.drop_last() =~= seq![c0]);
        assert(ps.drop_last().drop_last() =~= Seq::<Seq<char>>::empty());
        assert(parse_all(ps.drop_last().drop_last()) == Ok::<Seq<KeyView>, Seq<char>>(Seq::empty()));
        assert(ps.drop_last().last() == c0);
        assert(Seq::<KeyView>::empty().push(keys[0]) =~= seq![keys[0]]);
        assert(parse_all(ps.drop_last()) == Ok::<Seq<KeyView>, Seq<char>>(seq![keys[0]]));
        assert(ps.last() == c1);
        assert(seq![keys[0]].push(keys[1]) =~= seq![keys[0], keys[1]]);
        assert(parse_all(ps) == Ok::<Seq<KeyView>, Seq<char>>(seq![keys[0], keys[1]]));
        assert(keys =~= seq![keys[0], keys[1]]);
    }
}

} // verus!
