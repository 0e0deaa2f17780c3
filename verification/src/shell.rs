//! How a POSIX shell reads back the words that the library quotes, and the
//! laws that its two quoting schemes read back as the value they quote.
use vstd::prelude::*;
use crate::desktop::{sh_escape, sh_safe};
use crate::mailcap::{sq_body, sq_piece, sq_quote};

verus! {

/// The value a POSIX shell gives a word made of plain characters,
/// backslash escapes and single-quoted runs; `in_quote` says whether a
/// single quote is open. A backslash before a newline is a line
/// continuation: both go.
pub open spec fn sh_read(w: Seq<char>, in_quote: bool) -> Seq<char>
    decreases w.len(),
{
    if w.len() == 0 {
        Seq::empty()
    } else if in_quote {
        if w[0] == '\'' {
            sh_read(w.drop_first(), false)
        } else {
            seq![w[0]] + sh_read(w.drop_first(), true)
        }
    } else if w[0] == '\'' {
        sh_read(w.drop_first(), true)
    } else if w[0] == '\\' && w.len() >= 2 {
        if w[1] == '\n' {
            sh_read(w.skip(2), false)
        } else {
            seq![w[1]] + sh_read(w.skip(2), false)
        }
    } else {
        seq![w[0]] + sh_read(w.drop_first(), false)
    }
}

/// Inside single quotes, the quoted characters read back as themselves.
proof fn lemma_read_sq_body(s: Seq<char>, t: Seq<char>)
    ensures
        sh_read(sq_body(s) + t, true) == s + sh_read(t, true),
    decreases s.len(),
{
    if s.len() == 0 {
        assert(sq_body(s) + t =~= t);
        assert(s + sh_read(t, true) =~= sh_read(t, true));
    } else {
        let c = s[0];
        let rest = sq_body(s.drop_first()) + t;
        lemma_read_sq_body(s.drop_first(), t);
        assert(sq_body(s) + t =~= sq_piece(c) + rest);
        let w = sq_piece(c) + rest;
        if c == '\'' {
            assert(w.drop_first() =~= seq!['\\', '\'', '\''] + rest);
            let w1 = w.drop_first();
            assert(w1.skip(2) =~= seq!['\''] + rest);
            let w2 = w1.skip(2);
            assert(w2.drop_first() =~= rest);
            assert(sh_read(w, true) == sh_read(w1, false));
            assert(sh_read(w1, false) == seq!['\''] + sh_read(w2, false));
            assert(sh_read(w2, false) == sh_read(rest, true));
        } else {
            assert(w.drop_first() =~= rest);
            assert(sh_read(w, true) == seq![c] + sh_read(rest, true));
        }
        assert(s =~= seq![c] + s.drop_first());
        assert(s + sh_read(t, true) =~= seq![c] + (s.drop_first() + sh_read(t, true)));
    }
}

/// A value quoted by `quote_shell_word` reads back, in the shell, as the
/// value itself, whatever characters it holds.
pub proof fn law_quote_shell_word_reads_back(s: Seq<char>)
    ensures
        sh_read(sq_quote(s), false) == s,
{
    let w = sq_quote(s);
    assert(w.drop_first() =~= sq_body(s) + seq!['\'']);
    lemma_read_sq_body(s, seq!['\'']);
    let last = seq!['\''];
    assert(last.drop_first() =~= Seq::<char>::empty());
    assert(sh_read(last, true) == sh_read(last.drop_first(), false));
    assert(s + Seq::<char>::empty() =~= s);
}

/// Outside quotes, escaped characters read back as themselves, as long as
/// none of them is a newline.
proof fn lemma_read_sh_escape(s: Seq<char>, t: Seq<char>)
    requires
        !s.contains('\n'),
    ensures
        sh_read(sh_escape(s) + t, false) == s + sh_read(t, false),
    decreases s.len(),
{
    if s.len() == 0 {
        assert(sh_escape(s) + t =~= t);
        assert(s + sh_read(t, false) =~= sh_read(t, false));
    } else {
        let init = s.drop_last();
        let c = s.last();
        assert(!init.contains('\n')) by {
            if init.contains('\n') {
                let j = choose|j: int| 0 <= j < init.len() && init[j] == '\n';
                assert(s[j] == '\n');
            }
        }
        assert(c != '\n') by {
            assert(s[s.len() - 1] == c);
        }
        let piece = if sh_safe(c) {
            seq![c]
        } else {
            seq!['\\', c]
        };
        assert(sh_escape(s) =~= sh_escape(init) + piece);
        assert(sh_escape(s) + t =~= sh_escape(init) + (piece + t));
        lemma_read_sh_escape(init, piece + t);
        let w = piece + t;
        if sh_safe(c) {
            assert(c != '\'' && c != '\\');
            assert(w.drop_first() =~= t);
            assert(sh_read(w, false) == seq![c] + sh_read(t, false));
        } else {
            assert(w.skip(2) =~= t);
            assert(w[1] == c);
            assert(sh_read(w, false) == seq![c] + sh_read(t, false));
        }
        assert(s =~= init + seq![c]);
        assert(s + sh_read(t, false) =~= init + (seq![c] + sh_read(t, false)));
    }
}

/// A value escaped by `escape_sh_arg` reads back, in the shell, as the
/// value itself, as long as it holds no newline (a backslash before a
/// newline is a line continuation, and the shell drops both).
pub proof fn law_escape_sh_arg_reads_back(s: Seq<char>)
    requires
        !s.contains('\n'),
    ensures
        sh_read(sh_escape(s), false) == s,
{
    lemma_read_sh_escape(s, Seq::empty());
    assert(sh_escape(s) + Seq::<char>::empty() =~= sh_escape(s));
    assert(s + Seq::<char>::empty() =~= s);
}

} // verus!
