//! Character classes and UTF-8 lengths of text, over the `Seq<char>` view of
//! strings.
use vstd::prelude::*;
use vstd::string::*;
use vstd::utf8::*;

verus! {

broadcast use vstd::string::group_string_axioms;

/// Number of bytes of the UTF-8 encoding of `c`.
pub open spec fn char_width(c: char) -> nat {
    if (c as u32) < 0x80 {
        1
    } else if (c as u32) < 0x800 {
        2
    } else if (c as u32) < 0x10000 {
        3
    } else {
        4
    }
}

/// Number of bytes of the UTF-8 encoding of `s`.
pub open spec fn utf8_len(s: Seq<char>) -> nat
    decreases s.len(),
{
    if s.len() == 0 {
        0
    } else {
        char_width(s[0]) + utf8_len(s.drop_first())
    }
}

/// The UTF-8 encoding of `c` is [`char_width`] bytes long.
pub proof fn lemma_char_width(c: char)
    ensures
        encode_scalar(c as u32).len() == char_width(c),
        1 <= char_width(c) <= 4,
{
    char_is_scalar(c);
}

/// The UTF-8 encoding of `s` is [`utf8_len`] bytes long.
pub proof fn lemma_utf8_len(s: Seq<char>)
    ensures
        encode_utf8(s).len() == utf8_len(s),
    decreases s.len(),
{
    if s.len() > 0 {
        lemma_char_width(s[0]);
        lemma_utf8_len(s.drop_first());
    }
}

/// Byte lengths add up over concatenation.
pub proof fn lemma_utf8_len_concat(a: Seq<char>, b: Seq<char>)
    ensures
        utf8_len(a + b) == utf8_len(a) + utf8_len(b),
    decreases a.len(),
{
    if a.len() > 0 {
        assert((a + b).drop_first() =~= a.drop_first() + b);
        lemma_utf8_len_concat(a.drop_first(), b);
    } else {
        assert(a + b =~= b);
    }
}

/// Appending one character adds its width.
pub proof fn lemma_utf8_len_push(a: Seq<char>, c: char)
    ensures
        utf8_len(a.push(c)) == utf8_len(a) + char_width(c),
{
    let single = seq![c];
    lemma_utf8_len_concat(a, single);
    assert(a.push(c) =~= a + single);
    assert(single.drop_first() =~= Seq::<char>::empty());
    assert(utf8_len(Seq::<char>::empty()) == 0);
    assert(utf8_len(single) == char_width(c) + utf8_len(single.drop_first()));
}

/// A prefix is never longer in bytes than the whole.
pub proof fn lemma_utf8_len_prefix(a: Seq<char>, k: int)
    requires
        0 <= k <= a.len(),
    ensures
        utf8_len(a.take(k)) <= utf8_len(a),
        utf8_len(a) == utf8_len(a.take(k)) + utf8_len(a.skip(k)),
{
    assert(a =~= a.take(k) + a.skip(k));
    lemma_utf8_len_concat(a.take(k), a.skip(k));
}

/// The byte length of a string slice is the UTF-8 length of its characters.
pub proof fn lemma_str_len(s: &str)
    ensures
        s.spec_bytes().len() == utf8_len(s@),
{
    lemma_utf8_len(s@);
}

/// Number of bytes of the UTF-8 encoding of `c`.
pub fn len_utf8(c: char) -> (r: usize)
    ensures
        r == char_width(c),
{
    let v = c as u32;
    if v < 0x80 {
        1
    } else if v < 0x800 {
        2
    } else if v < 0x10000 {
        3
    } else {
        4
    }
}

/// The characters of `s`, in order.
pub fn chars_of(s: &str) -> (r: Vec<char>)
    ensures
        r@ == s@,
{
    let mut r: Vec<char> = Vec::new();
    proof {
        broadcast use vstd::string::axiom_spec_iter;
    }
    for c in it: s.chars()
        invariant
            it.seq() == s@,
            r@ == s@.take(it.index()),
    {
        r.push(c);
        proof {
            assert(s@.take(it.index() + 1) =~= s@.take(it.index()).push(c));
        }
    }
    assert(r@ =~= s@);
    r
}

/// Appends `c` to `s` (`String::push`).
#[verifier::external_body]
pub(crate) fn push_char(s: &mut String, c: char)
    ensures
        final(s)@ == old(s)@.push(c),
{
    s.push(c)
}

/// Unicode `White_Space`, as `char::is_whitespace` decides it.
pub open spec fn is_whitespace_spec(c: char) -> bool {
    let v = c as u32;
    (0x9 <= v <= 0xD) || v == 0x20 || v == 0x85 || v == 0xA0 || v == 0x1680 || (0x2000 <= v
        <= 0x200A) || v == 0x2028 || v == 0x2029 || v == 0x202F || v == 0x205F || v == 0x3000
}

/// Whether `c` is Unicode `White_Space`.
pub fn is_whitespace(c: char) -> (r: bool)
    ensures
        r == is_whitespace_spec(c),
{
    let v = c as u32;
    (0x9 <= v && v <= 0xD) || v == 0x20 || v == 0x85 || v == 0xA0 || v == 0x1680 || (0x2000 <= v
        && v <= 0x200A) || v == 0x2028 || v == 0x2029 || v == 0x202F || v == 0x205F || v == 0x3000
}

/// Unicode general category `Cc`, as `char::is_control` decides it.
pub open spec fn is_control_spec(c: char) -> bool {
    let v = c as u32;
    v <= 0x1F || (0x7F <= v <= 0x9F)
}

/// Whether `c` is a control character.
pub fn is_control(c: char) -> (r: bool)
    ensures
        r == is_control_spec(c),
{
    let v = c as u32;
    v <= 0x1F || (0x7F <= v && v <= 0x9F)
}

/// ASCII letters and digits.
pub open spec fn is_ascii_alphanumeric_spec(c: char) -> bool {
    ('a' <= c && c <= 'z') || ('A' <= c && c <= 'Z') || ('0' <= c && c <= '9')
}

/// Whether `c` is an ASCII letter or digit.
pub fn is_ascii_alphanumeric(c: char) -> (r: bool)
    ensures
        r == is_ascii_alphanumeric_spec(c),
{
    ('a' <= c && c <= 'z') || ('A' <= c && c <= 'Z') || ('0' <= c && c <= '9')
}

/// The character sequences held by a sequence of character vectors.
pub open spec fn rows(v: Seq<Vec<char>>) -> Seq<Seq<char>> {
    Seq::new(v.len(), |i: int| v[i]@)
}

/// A line as `str::lines` hands it out: without a `\r` that stood before
/// its `\n`.
pub open spec fn strip_cr(line: Seq<char>) -> Seq<char> {
    if line.len() > 0 && line.last() == '\r' {
        line.drop_last()
    } else {
        line
    }
}

/// The lines of `rest`, the line being read being `cur`.
pub open spec fn lines_from(rest: Seq<char>, cur: Seq<char>) -> Seq<Seq<char>>
    decreases rest.len(),
{
    if rest.len() == 0 {
        if cur.len() == 0 {
            Seq::empty()
        } else {
            seq![cur]
        }
    } else if rest[0] == '\n' {
        seq![strip_cr(cur)] + lines_from(rest.drop_first(), Seq::empty())
    } else {
        lines_from(rest.drop_first(), cur.push(rest[0]))
    }
}

/// The lines of `s`, as `str::lines` gives them: split at `\n` or `\r\n`,
/// without the terminators, the last terminator being optional.
pub open spec fn lines_spec(s: Seq<char>) -> Seq<Seq<char>> {
    lines_from(s, Seq::empty())
}

/// The lines of `cs`, as [`lines_spec`] states them.
pub fn split_lines(cs: &Vec<char>) -> (r: Vec<Vec<char>>)
    ensures
        rows(r@) == lines_spec(cs@),
{
    let mut out: Vec<Vec<char>> = Vec::new();
    let mut cur: Vec<char> = Vec::new();
    let mut i: usize = 0;
    proof {
        assert(cs@.skip(0) =~= cs@);
        assert(rows(out@) =~= Seq::<Seq<char>>::empty());
    }
    while i < cs.len()
        invariant
            i <= cs.len(),
            rows(out@) + lines_from(cs@.skip(i as int), cur@) == lines_spec(cs@),
        decreases cs.len() - i,
    {
        let ghost rest = cs@.skip(i as int);
        let ghost before = rows(out@);
        let c = cs[i];
        assert(rest[0] == c);
        assert(rest.drop_first() =~= cs@.skip(i + 1));
        if c == '\n' {
            let ghost piece = strip_cr(cur@);
            let mut line = cur;
            let n = line.len();
            if n > 0 && line[n - 1] == '\r' {
                line.pop();
            }
            assert(line@ == piece);
            out.push(line);
            cur = Vec::new();
            assert(rows(out@) =~= before.push(piece));
            assert(rows(out@) + lines_from(rest.drop_first(), Seq::empty()) =~= before + (
            seq![piece] + lines_from(rest.drop_first(), Seq::empty())));
        } else {
            cur.push(c);
        }
        i = i + 1;
    }
    proof {
        assert(cs@.skip(i as int).len() == 0);
    }
    if cur.len() > 0 {
        let ghost before = rows(out@);
        out.push(cur);
        assert(rows(out@) =~= before.push(out@.last()@));
    } else {
        assert(rows(out@) + Seq::<Seq<char>>::empty() =~= rows(out@));
    }
    out
}

/// `s` without leading whitespace.
pub open spec fn trim_start_spec(s: Seq<char>) -> Seq<char>
    decreases s.len(),
{
    if s.len() > 0 && is_whitespace_spec(s[0]) {
        trim_start_spec(s.drop_first())
    } else {
        s
    }
}

/// `s` without trailing whitespace.
pub open spec fn trim_end_spec(s: Seq<char>) -> Seq<char>
    decreases s.len(),
{
    if s.len() > 0 && is_whitespace_spec(s.last()) {
        trim_end_spec(s.drop_last())
    } else {
        s
    }
}

/// `s` without leading and trailing whitespace, as `str::trim` gives it.
pub open spec fn trim_spec(s: Seq<char>) -> Seq<char> {
    trim_end_spec(trim_start_spec(s))
}

/// `s` without leading and trailing whitespace.
pub fn trim_chars(s: &Vec<char>) -> (r: Vec<char>)
    ensures
        r@ == trim_spec(s@),
{
    let mut lo: usize = 0;
    proof {
        assert(s@.skip(0) =~= s@);
    }
    while lo < s.len() && is_whitespace(s[lo])
        invariant
            lo <= s.len(),
            trim_start_spec(s@) == trim_start_spec(s@.skip(lo as int)),
        decreases s.len() - lo,
    {
        assert(s@.skip(lo as int).drop_first() =~= s@.skip(lo + 1));
        lo = lo + 1;
    }
    let ghost start = s@.skip(lo as int);
    assert(trim_start_spec(s@) == start);
    let mut hi: usize = s.len();
    proof {
        assert(s@.subrange(lo as int, hi as int) =~= start);
    }
    while hi > lo && is_whitespace(s[hi - 1])
        invariant
            lo <= hi <= s.len(),
            trim_end_spec(start) == trim_end_spec(s@.subrange(lo as int, hi as int)),
        decreases hi - lo,
    {
        assert(s@.subrange(lo as int, hi as int).drop_last() =~= s@.subrange(lo as int, hi - 1));
        hi = hi - 1;
    }
    let mut r: Vec<char> = Vec::new();
    let mut k = lo;
    while k < hi
        invariant
            lo <= k <= hi <= s.len(),
            r@ == s@.subrange(lo as int, k as int),
        decreases hi - k,
    {
        r.push(s[k]);
        assert(r@ =~= s@.subrange(lo as int, k + 1));
        k = k + 1;
    }
    r
}

/// The pieces of `rest` between separators `sep`, the piece being read
/// being `cur`.
pub open spec fn split_from(rest: Seq<char>, sep: char, cur: Seq<char>) -> Seq<Seq<char>>
    decreases rest.len(),
{
    if rest.len() == 0 {
        seq![cur]
    } else if rest[0] == sep {
        seq![cur] + split_from(rest.drop_first(), sep, Seq::empty())
    } else {
        split_from(rest.drop_first(), sep, cur.push(rest[0]))
    }
}

/// The pieces of `s` between separators `sep`, as `str::split` with a
/// `char` gives them; there is always at least one.
pub open spec fn split_spec(s: Seq<char>, sep: char) -> Seq<Seq<char>> {
    split_from(s, sep, Seq::empty())
}

/// The pieces of `cs` between separators `sep`.
pub fn split_chars(cs: &Vec<char>, sep: char) -> (r: Vec<Vec<char>>)
    ensures
        rows(r@) == split_spec(cs@, sep),
{
    let mut out: Vec<Vec<char>> = Vec::new();
    let mut cur: Vec<char> = Vec::new();
    let mut i: usize = 0;
    proof {
        assert(cs@.skip(0) =~= cs@);
        assert(rows(out@) =~= Seq::<Seq<char>>::empty());
    }
    while i < cs.len()
        invariant
            i <= cs.len(),
            rows(out@) + split_from(cs@.skip(i as int), sep, cur@) == split_spec(cs@, sep),
        decreases cs.len() - i,
    {
        let ghost rest = cs@.skip(i as int);
        let ghost before = rows(out@);
        let c = cs[i];
        assert(rest[0] == c);
        assert(rest.drop_first() =~= cs@.skip(i + 1));
        if c == sep {
            let ghost piece = cur@;
            out.push(cur);
            cur = Vec::new();
            assert(rows(out@) =~= before.push(piece));
            assert(rows(out@) + split_from(rest.drop_first(), sep, Seq::empty()) =~= before + (
            seq![piece] + split_from(rest.drop_first(), sep, Seq::empty())));
        } else {
            cur.push(c);
        }
        i = i + 1;
    }
    proof {
        assert(cs@.skip(i as int).len() == 0);
    }
    let ghost before = rows(out@);
    out.push(cur);
    assert(rows(out@) =~= before.push(out@.last()@));
    out
}

/// Whether `cs` begins with `prefix`.
pub fn starts_with_chars(cs: &Vec<char>, prefix: &Vec<char>) -> (r: bool)
    ensures
        r == prefix@.is_prefix_of(cs@),
{
    if prefix.len() > cs.len() {
        return false;
    }
    let mut i: usize = 0;
    while i < prefix.len()
        invariant
            prefix.len() <= cs.len(),
            i <= prefix.len(),
            forall|k: int| 0 <= k < i ==> prefix@[k] == cs@[k],
        decreases prefix.len() - i,
    {
        if prefix[i] != cs[i] {
            return false;
        }
        i = i + 1;
    }
    true
}

/// Whether `a` and `b` hold the same characters.
pub fn chars_eq(a: &Vec<char>, b: &Vec<char>) -> (r: bool)
    ensures
        r == (a@ == b@),
{
    if a.len() != b.len() {
        return false;
    }
    let mut i: usize = 0;
    while i < a.len()
        invariant
            a.len() == b.len(),
            i <= a.len(),
            forall|k: int| 0 <= k < i ==> a@[k] == b@[k],
        decreases a.len() - i,
    {
        if a[i] != b[i] {
            return false;
        }
        i = i + 1;
    }
    assert(a@ =~= b@);
    true
}

/// A `String` holding the characters of `cs`.
pub fn string_of(cs: &Vec<char>) -> (r: String)
    ensures
        r@ == cs@,
{
    let mut s = String::new();
    let mut i: usize = 0;
    while i < cs.len()
        invariant
            i <= cs.len(),
            s@ == cs@.take(i as int),
        decreases cs.len() - i,
    {
        push_char(&mut s, cs[i]);
        assert(cs@.take(i + 1) =~= cs@.take(i as int).push(cs@[i as int]));
        i = i + 1;
    }
    assert(cs@.take(cs.len() as int) =~= cs@);
    s
}

/// The words of `rest`, the word being read being `cur`.
pub open spec fn words_from(rest: Seq<char>, cur: Seq<char>) -> Seq<Seq<char>>
    decreases rest.len(),
{
    if rest.len() == 0 {
        if cur.len() == 0 {
            Seq::empty()
        } else {
            seq![cur]
        }
    } else if is_whitespace_spec(rest[0]) {
        if cur.len() == 0 {
            words_from(rest.drop_first(), Seq::empty())
        } else {
            seq![cur] + words_from(rest.drop_first(), Seq::empty())
        }
    } else {
        words_from(rest.drop_first(), cur.push(rest[0]))
    }
}

/// The words of `s`, as `str::split_whitespace` gives them: the non-empty
/// runs between whitespace.
pub open spec fn words_spec(s: Seq<char>) -> Seq<Seq<char>> {
    words_from(s, Seq::empty())
}

/// The words of `cs`, as [`words_spec`] states them.
pub fn split_words(cs: &Vec<char>) -> (r: Vec<Vec<char>>)
    ensures
        rows(r@) == words_spec(cs@),
{
    let mut out: Vec<Vec<char>> = Vec::new();
    let mut cur: Vec<char> = Vec::new();
    let mut i: usize = 0;
    proof {
        assert(cs@.skip(0) =~= cs@);
        assert(rows(out@) =~= Seq::<Seq<char>>::empty());
    }
    while i < cs.len()
        invariant
            i <= cs.len(),
            rows(out@) + words_from(cs@.skip(i as int), cur@) == words_spec(cs@),
        decreases cs.len() - i,
    {
        let ghost rest = cs@.skip(i as int);
        let ghost before = rows(out@);
        let c = cs[i];
        assert(rest[0] == c);
        assert(rest.drop_first() =~= cs@.skip(i + 1));
        if is_whitespace(c) {
            if cur.len() > 0 {
                let ghost piece = cur@;
                out.push(cur);
                cur = Vec::new();
                assert(rows(out@) =~= before.push(piece));
                assert(rows(out@) + words_from(rest.drop_first(), Seq::empty()) =~= before + (
                seq![piece] + words_from(rest.drop_first(), Seq::empty())));
            } else {
                assert(cur@ =~= Seq::<char>::empty());
            }
        } else {
            cur.push(c);
        }
        i = i + 1;
    }
    proof {
        assert(cs@.skip(i as int).len() == 0);
    }
    if cur.len() > 0 {
        let ghost before = rows(out@);
        out.push(cur);
        assert(rows(out@) =~= before.push(out@.last()@));
    } else {
        assert(rows(out@) + Seq::<Seq<char>>::empty() =~= rows(out@));
    }
    out
}

} // verus!
