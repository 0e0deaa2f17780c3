//! Which keys the thread view claims: its own table of bindings (less the
//! keys that the mailbox's thread-view commands take), three page keys of
//! the general table, and the commands' own keys.
use vstd::prelude::*;
use crate::keys::{Key, KeyView};
use crate::shortcut::key_eq;

verus! {

broadcast use vstd::seq_lib::group_filter_ensures;

/// A table of named bindings over plain values.
pub open spec fn binding_views(s: Seq<(String, Key)>) -> Seq<(Seq<char>, KeyView)> {
    s.map_values(|b: (String, Key)| (b.0@, b.1@))
}

/// Keys over plain values.
pub open spec fn key_views(v: Seq<Key>) -> Seq<KeyView> {
    v.map_values(|k: Key| k@)
}

/// The keys of the mailbox's thread-view commands, `None` where the
/// mailbox has no settings of its own.
pub open spec fn commands_view(c: Option<Vec<Key>>) -> Option<Seq<KeyView>> {
    match c {
        Some(v) => Some(key_views(v@)),
        None => None,
    }
}

/// Whether a command of the mailbox is bound to `k`.
pub open spec fn command_key(cmds: Option<Seq<KeyView>>, k: KeyView) -> bool {
    match cmds {
        Some(c) => c.contains(k),
        None => false,
    }
}

/// Whether a binding keeps its place in the thread-view table: no
/// command takes its key.
pub open spec fn not_a_command(cmds: Option<Seq<KeyView>>) -> spec_fn((Seq<char>, KeyView)) -> bool {
    |b: (Seq<char>, KeyView)| !command_key(cmds, b.1)
}

/// Whether `name` is bound to `key` in `table`: its first binding of that
/// name has that key.
pub open spec fn binds(table: Seq<(Seq<char>, KeyView)>, name: Seq<char>, key: KeyView) -> bool {
    exists|i: int|
        0 <= i < table.len() && #[trigger] table[i].0 == name && table[i].1 == key && forall|j: int|
            0 <= j < i ==> (#[trigger] table[j]).0 != name
}

/// Whether the thread view claims `key`: a binding of its table (the
/// commands' keys taken out) other than the two focus moves, the page
/// keys `home_page`, `end_page` and `open_entry` of the general table, or
/// a command of the mailbox.
pub open spec fn is_thread_view_input_spec(
    thread_view: Seq<(Seq<char>, KeyView)>,
    general: Seq<(Seq<char>, KeyView)>,
    cmds: Option<Seq<KeyView>>,
    key: KeyView,
) -> bool {
    let f = thread_view.filter(not_a_command(cmds));
    ||| exists|b: (Seq<char>, KeyView)|
        #[trigger] f.contains(b) && b.0 != "focus_left"@ && b.0 != "focus_right"@ && b.1 == key
    ||| binds(general, "home_page"@, key)
    ||| binds(general, "end_page"@, key)
    ||| binds(general, "open_entry"@, key)
    ||| command_key(cmds, key)
}

/// The thread view claims every key of its own table other than the two
/// focus moves (a binding that a command's key removes from the table is
/// still claimed, through the command), every key the mailbox's commands
/// take, and the general page keys.
pub proof fn law_thread_view_claims_its_keys(
    thread_view: Seq<(Seq<char>, KeyView)>,
    general: Seq<(Seq<char>, KeyView)>,
    cmds: Option<Seq<KeyView>>,
    key: KeyView,
)
    ensures
        (exists|i: int|
            0 <= i < thread_view.len() && #[trigger] thread_view[i].1 == key && thread_view[i].0
                != "focus_left"@ && thread_view[i].0 != "focus_right"@) ==> is_thread_view_input_spec(
            thread_view,
            general,
            cmds,
            key,
        ),
        command_key(cmds, key) ==> is_thread_view_input_spec(thread_view, general, cmds, key),
        binds(general, "home_page"@, key) || binds(general, "end_page"@, key) || binds(
            general,
            "open_entry"@,
            key,
        ) ==> is_thread_view_input_spec(thread_view, general, cmds, key),
{
    let p = not_a_command(cmds);
    if exists|i: int|
        0 <= i < thread_view.len() && #[trigger] thread_view[i].1 == key && thread_view[i].0
            != "focus_left"@ && thread_view[i].0 != "focus_right"@ {
        let i = choose|i: int|
            0 <= i < thread_view.len() && #[trigger] thread_view[i].1 == key && thread_view[i].0
                != "focus_left"@ && thread_view[i].0 != "focus_right"@;
        if !command_key(cmds, key) {
            thread_view.lemma_filter_contains(p, i);
            let b = thread_view[i];
            assert(thread_view.filter(p).contains(b));
        }
    }
}

/// Whether a command of the mailbox is bound to `k`.
pub fn is_command_key(commands: &Option<Vec<Key>>, k: &Key) -> (r: bool)
    ensures
        r == command_key(commands_view(*commands), k@),
{
    match commands {
        None => false,
        Some(c) => {
            let ghost cv = key_views(c@);
            let mut i: usize = 0;
            while i < c.len()
                invariant
                    i <= c.len(),
                    cv == key_views(c@),
                    commands_view(*commands) == Some(cv),
                    forall|j: int| 0 <= j < i ==> cv[j] != k@,
                decreases c.len() - i,
            {
                if key_eq(&c[i], k) {
                    assert(cv[i as int] == k@);
                    assert(cv.contains(k@));
                    return true;
                }
                i = i + 1;
            }
            proof {
                assert forall|x: KeyView| cv.contains(x) implies x != k@ by {
                    let j = choose|j: int| 0 <= j < cv.len() && cv[j] == x;
                }
            }
            false
        },
    }
}

/// The thread view's table without the bindings whose key a command of
/// the mailbox takes, in the order given.
pub fn thread_view_shortcuts(thread_view: Vec<(String, Key)>, commands: &Option<Vec<Key>>) -> (r: Vec<
    (String, Key),
>)
    ensures
        binding_views(r@) == binding_views(thread_view@).filter(
            not_a_command(commands_view(*commands)),
        ),
{
    let ghost p = not_a_command(commands_view(*commands));
    let ghost all = binding_views(thread_view@);
    let mut rest = thread_view;
    let mut out: Vec<(String, Key)> = Vec::new();
    let ghost mut taken: Seq<(Seq<char>, KeyView)> = Seq::empty();
    while rest.len() > 0
        invariant
            all == taken + binding_views(rest@),
            binding_views(out@) == taken.filter(p),
            p == not_a_command(commands_view(*commands)),
        decreases rest.len(),
    {
        let ghost before = binding_views(rest@);
        let b = rest.remove(0);
        proof {
            assert(binding_views(rest@) =~= before.drop_first());
            assert(before[0] == (b.0@, b.1@));
        }
        let keep = !is_command_key(commands, &b.1);
        let ghost bv = (b.0@, b.1@);
        let ghost out_before = binding_views(out@);
        if keep {
            out.push(b);
            assert(binding_views(out@) =~= out_before.push(bv));
        }
        proof {
            let one = seq![bv];
            assert(taken.push(bv) =~= taken + one);
            reveal_with_fuel(Seq::filter, 2);
            assert(one.drop_last() =~= Seq::<(Seq<char>, KeyView)>::empty());
            Seq::filter_distributes_over_add(taken, one, p);
            if keep {
                assert(one.filter(p) =~= one);
            } else {
                assert(one.filter(p) =~= Seq::<(Seq<char>, KeyView)>::empty());
            }
            assert(all =~= taken.push(bv) + binding_views(rest@));
            taken = taken.push(bv);
        }
    }
    proof {
        assert(all =~= taken);
    }
    out
}

/// Whether `name` is bound to `key` in `table`, by its first binding of
/// that name.
pub fn table_binds(table: &Vec<(String, Key)>, name: &str, key: &Key) -> (r: bool)
    ensures
        r == binds(binding_views(table@), name@, key@),
{
    let ghost t = binding_views(table@);
    let wanted = name.to_owned();
    let mut i: usize = 0;
    while i < table.len()
        invariant
            i <= table.len(),
            t == binding_views(table@),
            wanted@ == name@,
            forall|j: int| 0 <= j < i ==> (#[trigger] t[j]).0 != name@,
        decreases table.len() - i,
    {
        assert(t[i as int] == (table@[i as int].0@, table@[i as int].1@));
        if table[i].0 == wanted {
            let r = key_eq(&table[i].1, key);
            proof {
                if r {
                    assert(t[i as int].0 == name@ && t[i as int].1 == key@);
                    assert(binds(t, name@, key@));
                }
                if !r {
                    assert forall|k: int|
                        0 <= k < t.len() && #[trigger] t[k].0 == name@ && t[k].1 == key@ implies exists|j: int|
                        0 <= j < k && (#[trigger] t[j]).0 == name@ by {
                        assert(k != i);
                        if k > i {
                            assert(t[i as int].0 == name@);
                        }
                    }
                }
            }
            return r;
        }
        i = i + 1;
    }
    false
}

/// Whether the thread view claims `key`, as [`is_thread_view_input_spec`]
/// states it, from its own table, the general table and the mailbox's
/// commands (`None` where the mailbox has no settings of its own).
pub fn is_thread_view_input(
    thread_view: &Vec<(String, Key)>,
    general: &Vec<(String, Key)>,
    commands: &Option<Vec<Key>>,
    key: &Key,
) -> (r: bool)
    ensures
        r == is_thread_view_input_spec(
            binding_views(thread_view@),
            binding_views(general@),
            commands_view(*commands),
            key@,
        ),
{
    let ghost tv = binding_views(thread_view@);
    let ghost p = not_a_command(commands_view(*commands));
    let left = "focus_left".to_owned();
    let right = "focus_right".to_owned();
    let mut i: usize = 0;
    while i < thread_view.len()
        invariant
            i <= thread_view.len(),
            tv == binding_views(thread_view@),
            p == not_a_command(commands_view(*commands)),
            left@ == "focus_left"@,
            right@ == "focus_right"@,
            forall|j: int|
                0 <= j < i ==> !(p(#[trigger] tv[j]) && tv[j].0 != "focus_left"@ && tv[j].0
                    != "focus_right"@ && tv[j].1 == key@),
        decreases thread_view.len() - i,
    {
        assert(tv[i as int] == (thread_view@[i as int].0@, thread_view@[i as int].1@));
        let name = &thread_view[i].0;
        if !(*name == left) && !(*name == right) && key_eq(&thread_view[i].1, key)
            && !is_command_key(commands, &thread_view[i].1) {
            proof {
                tv.lemma_filter_contains(p, i as int);
            }
            return true;
        }
        i = i + 1;
    }
    proof {
        let f = tv.filter(p);
        assert forall|b: (Seq<char>, KeyView)| #[trigger] f.contains(b) implies !(b.0
            != "focus_left"@ && b.0 != "focus_right"@ && b.1 == key@) by {
            tv.lemma_filter_contains_rev(p, b);
            let k = choose|k: int| 0 <= k < f.len() && f[k] == b;
            tv.lemma_filter_pred(p, k);
            let j = choose|j: int| 0 <= j < tv.len() && tv[j] == b;
            assert(p(tv[j]));
        }
    }
    if table_binds(general, "home_page", key) || table_binds(general, "end_page", key)
        || table_binds(general, "open_entry", key) {
        return true;
    }
    is_command_key(commands, key)
}

} // verus!
