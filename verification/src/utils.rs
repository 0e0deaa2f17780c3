//! Helpers of the mail viewer: middle truncation of names under a character
//! and a byte cap, and the expansion of desktop-entry `Exec` lines into shell
//! command lines.
use std::borrow::Cow;
use vstd::prelude::*;
use vstd::string::*;
use crate::text::{char_width, chars_of, len_utf8, lemma_str_len, lemma_utf8_len_concat, lemma_utf8_len_prefix, lemma_utf8_len_push, utf8_len};

verus! {

broadcast use vstd::string::group_string_axioms;

/// How many leading characters of `s` fit under `max_chars` characters and
/// `max_bytes` UTF-8 bytes, taken greedily from the front.
pub open spec fn head_fit(s: Seq<char>, max_chars: nat, max_bytes: nat) -> nat
    decreases s.len(),
{
    if s.len() == 0 || max_chars == 0 || char_width(s[0]) > max_bytes {
        0
    } else {
        1 + head_fit(s.drop_first(), (max_chars - 1) as nat, (max_bytes - char_width(s[0])) as nat)
    }
}

/// How many trailing characters of `s` fit under `max_chars` characters and
/// `max_bytes` UTF-8 bytes, taken greedily from the back.
pub open spec fn tail_fit(s: Seq<char>, max_chars: nat, max_bytes: nat) -> nat
    decreases s.len(),
{
    if s.len() == 0 || max_chars == 0 || char_width(s.last()) > max_bytes {
        0
    } else {
        1 + tail_fit(s.drop_last(), (max_chars - 1) as nat, (max_bytes - char_width(s.last())) as nat)
    }
}

/// Whether `s` is within both caps as it is.
pub open spec fn fits(s: Seq<char>, max_chars: nat, max_bytes: nat) -> bool {
    s.len() <= max_chars && utf8_len(s) <= max_bytes
}

/// Whether the caps leave no room for the three-character ellipsis.
pub open spec fn degenerate_budget(max_chars: nat, max_bytes: nat) -> bool {
    max_chars <= 3 || max_bytes <= 3
}

/// The literal ellipsis that joins head and tail.
pub open spec fn ellipsis() -> Seq<char> {
    seq!['.', '.', '.']
}

/// What [`truncate_middle`] makes of `s`.
pub open spec fn truncate_middle_spec(s: Seq<char>, max_chars: nat, max_bytes: nat) -> Seq<char> {
    if fits(s, max_chars, max_bytes) {
        s
    } else if degenerate_budget(max_chars, max_bytes) {
        s.take(head_fit(s, max_chars, max_bytes) as int)
    } else {
        let chars_budget = (max_chars - 3) as nat;
        let bytes_budget = (max_bytes - 3) as nat;
        let head_chars = chars_budget / 2;
        let head_bytes = bytes_budget / 2;
        let tail_chars = (chars_budget - head_chars) as nat;
        let tail_bytes = (bytes_budget - head_bytes) as nat;
        let head = s.take(head_fit(s, head_chars, head_bytes) as int);
        let tail = s.skip(s.len() - tail_fit(s, tail_chars, tail_bytes));
        head + ellipsis() + tail
    }
}

/// `head_fit` stays within the string and the character cap, and the prefix
/// it keeps is within the byte cap.
pub proof fn lemma_head_fit_bounds(s: Seq<char>, max_chars: nat, max_bytes: nat)
    ensures
        head_fit(s, max_chars, max_bytes) <= s.len(),
        head_fit(s, max_chars, max_bytes) <= max_chars,
        utf8_len(s.take(head_fit(s, max_chars, max_bytes) as int)) <= max_bytes,
    decreases s.len(),
{
    let k = head_fit(s, max_chars, max_bytes);
    if s.len() == 0 || max_chars == 0 || char_width(s[0]) > max_bytes {
        assert(s.take(0) =~= Seq::<char>::empty());
    } else {
        let w = char_width(s[0]);
        let rest = s.drop_first();
        lemma_head_fit_bounds(rest, (max_chars - 1) as nat, (max_bytes - w) as nat);
        let j = head_fit(rest, (max_chars - 1) as nat, (max_bytes - w) as nat);
        assert(s.take(k as int).drop_first() =~= rest.take(j as int));
        assert(s.take(k as int)[0] == s[0]);
    }
}

/// `head_fit` keeps as many characters as fit: one more would break a cap.
pub proof fn lemma_head_fit_maximal(s: Seq<char>, max_chars: nat, max_bytes: nat)
    ensures
        head_fit(s, max_chars, max_bytes) == s.len()
            || head_fit(s, max_chars, max_bytes) == max_chars
            || utf8_len(s.take(head_fit(s, max_chars, max_bytes) + 1int)) > max_bytes,
    decreases s.len(),
{
    let k = head_fit(s, max_chars, max_bytes);
    if s.len() == 0 || max_chars == 0 {
    } else if char_width(s[0]) > max_bytes {
        let one = s.take(1);
        assert(one.drop_first() =~= Seq::<char>::empty());
        assert(utf8_len(one.drop_first()) == 0);
        assert(one[0] == s[0]);
        assert(utf8_len(one) == char_width(s[0]) + utf8_len(one.drop_first()));
    } else {
        let w = char_width(s[0]);
        let rest = s.drop_first();
        lemma_head_fit_maximal(rest, (max_chars - 1) as nat, (max_bytes - w) as nat);
        let j = head_fit(rest, (max_chars - 1) as nat, (max_bytes - w) as nat);
        lemma_head_fit_bounds(rest, (max_chars - 1) as nat, (max_bytes - w) as nat);
        if j < rest.len() && j < max_chars - 1 {
            let longer = s.take(k + 1int);
            assert(longer.len() == k + 1);
            assert(longer.drop_first() =~= rest.take(j + 1int));
            assert(longer[0] == s[0]);
            assert(utf8_len(longer) == w + utf8_len(longer.drop_first()));
        }
    }
}

/// `tail_fit` stays within the string and the character cap, and the suffix
/// it keeps is within the byte cap.
pub proof fn lemma_tail_fit_bounds(s: Seq<char>, max_chars: nat, max_bytes: nat)
    ensures
        tail_fit(s, max_chars, max_bytes) <= s.len(),
        tail_fit(s, max_chars, max_bytes) <= max_chars,
        utf8_len(s.skip(s.len() - tail_fit(s, max_chars, max_bytes))) <= max_bytes,
    decreases s.len(),
{
    let k = tail_fit(s, max_chars, max_bytes);
    if s.len() == 0 || max_chars == 0 || char_width(s.last()) > max_bytes {
        assert(s.skip(s.len() as int) =~= Seq::<char>::empty());
    } else {
        let w = char_width(s.last());
        let rest = s.drop_last();
        lemma_tail_fit_bounds(rest, (max_chars - 1) as nat, (max_bytes - w) as nat);
        let j = tail_fit(rest, (max_chars - 1) as nat, (max_bytes - w) as nat);
        assert(s.skip(s.len() - k) =~= rest.skip(rest.len() - j).push(s.last()));
        lemma_utf8_len_push(rest.skip(rest.len() - j), s.last());
    }
}

/// Whatever the input, the result of [`truncate_middle`] is within both caps.
pub proof fn law_truncate_middle_within_caps(s: Seq<char>, max_chars: nat, max_bytes: nat)
    ensures
        fits(truncate_middle_spec(s, max_chars, max_bytes), max_chars, max_bytes),
{
    if fits(s, max_chars, max_bytes) {
    } else if degenerate_budget(max_chars, max_bytes) {
        lemma_head_fit_bounds(s, max_chars, max_bytes);
    } else {
        let chars_budget = (max_chars - 3) as nat;
        let bytes_budget = (max_bytes - 3) as nat;
        let head_chars = chars_budget / 2;
        let head_bytes = bytes_budget / 2;
        let tail_chars = (chars_budget - head_chars) as nat;
        let tail_bytes = (bytes_budget - head_bytes) as nat;
        lemma_head_fit_bounds(s, head_chars, head_bytes);
        lemma_tail_fit_bounds(s, tail_chars, tail_bytes);
        let head = s.take(head_fit(s, head_chars, head_bytes) as int);
        let tail = s.skip(s.len() - tail_fit(s, tail_chars, tail_bytes));
        lemma_utf8_len_concat(head, ellipsis());
        lemma_utf8_len_concat(head + ellipsis(), tail);
        reveal_with_fuel(utf8_len, 4);
        assert(ellipsis().drop_first().drop_first().drop_first() =~= Seq::<char>::empty());
    }
}

/// What comes out starts with a prefix of the input and ends with a suffix
/// of it; when the input fits it comes out whole.
pub proof fn law_truncate_middle_keeps_ends(s: Seq<char>, max_chars: nat, max_bytes: nat)
    ensures
        fits(s, max_chars, max_bytes) ==> truncate_middle_spec(s, max_chars, max_bytes) == s,
        !fits(s, max_chars, max_bytes) && degenerate_budget(max_chars, max_bytes)
            ==> truncate_middle_spec(s, max_chars, max_bytes).is_prefix_of(s),
        !fits(s, max_chars, max_bytes) && !degenerate_budget(max_chars, max_bytes) ==> exists|
            h: int,
            t: int,
        |
            0 <= h <= t <= s.len() && #[trigger] truncate_middle_spec(s, max_chars, max_bytes)
                == s.take(h) + ellipsis() + s.skip(t),
{
    if !fits(s, max_chars, max_bytes) && degenerate_budget(max_chars, max_bytes) {
        lemma_head_fit_bounds(s, max_chars, max_bytes);
        let k = head_fit(s, max_chars, max_bytes) as int;
        assert(s.take(k) =~= s.subrange(0, k));
    }
    if !fits(s, max_chars, max_bytes) && !degenerate_budget(max_chars, max_bytes) {
        let chars_budget = (max_chars - 3) as nat;
        let bytes_budget = (max_bytes - 3) as nat;
        let head_chars = chars_budget / 2;
        let head_bytes = bytes_budget / 2;
        let tail_chars = (chars_budget - head_chars) as nat;
        let tail_bytes = (bytes_budget - head_bytes) as nat;
        lemma_head_fit_bounds(s, head_chars, head_bytes);
        lemma_tail_fit_bounds(s, tail_chars, tail_bytes);
        let h = head_fit(s, head_chars, head_bytes) as int;
        let t = s.len() - tail_fit(s, tail_chars, tail_bytes);
        lemma_head_tail_disjoint(s, max_chars, max_bytes);
        assert(truncate_middle_spec(s, max_chars, max_bytes) == s.take(h) + ellipsis() + s.skip(t));
    }
}

/// In the truncating case the kept head and tail do not overlap.
proof fn lemma_head_tail_disjoint(s: Seq<char>, max_chars: nat, max_bytes: nat)
    requires
        !fits(s, max_chars, max_bytes),
        !degenerate_budget(max_chars, max_bytes),
    ensures
        ({
            let chars_budget = (max_chars - 3) as nat;
            let bytes_budget = (max_bytes - 3) as nat;
            let head_chars = chars_budget / 2;
            let head_bytes = bytes_budget / 2;
            let tail_chars = (chars_budget - head_chars) as nat;
            let tail_bytes = (bytes_budget - head_bytes) as nat;
            head_fit(s, head_chars, head_bytes) <= s.len() - tail_fit(s, tail_chars, tail_bytes)
        }),
{
    let chars_budget = (max_chars - 3) as nat;
    let bytes_budget = (max_bytes - 3) as nat;
    let head_chars = chars_budget / 2;
    let head_bytes = bytes_budget / 2;
    let tail_chars = (chars_budget - head_chars) as nat;
    let tail_bytes = (bytes_budget - head_bytes) as nat;
    lemma_head_fit_bounds(s, head_chars, head_bytes);
    lemma_tail_fit_bounds(s, tail_chars, tail_bytes);
    let h = head_fit(s, head_chars, head_bytes) as int;
    let t = s.len() - tail_fit(s, tail_chars, tail_bytes);
    if h > t {
        // The two pieces would cover the whole string, within both caps.
        lemma_utf8_len_prefix(s, t);
        lemma_utf8_len_prefix(s.take(h), t);
        assert(s.take(h).take(t) =~= s.take(t));
        assert(utf8_len(s.take(t)) <= utf8_len(s.take(h)));
        assert(s.len() <= max_chars);
        assert(false);
    }
}

/// Number of leading characters of `cs` that fit, computed as
/// [`head_fit`] states it.
fn count_head(cs: &Vec<char>, max_chars: usize, max_bytes: usize) -> (r: usize)
    ensures
        r == head_fit(cs@, max_chars as nat, max_bytes as nat),
{
    let mut i: usize = 0;
    let mut bytes: usize = 0;
    assert(cs@.skip(0) =~= cs@);
    while i < cs.len() && i < max_chars
        invariant
            i <= cs.len(),
            i <= max_chars,
            bytes <= max_bytes,
            head_fit(cs@, max_chars as nat, max_bytes as nat) == i + head_fit(
                cs@.skip(i as int),
                (max_chars - i) as nat,
                (max_bytes - bytes) as nat,
            ),
        decreases cs.len() - i,
    {
        let w = len_utf8(cs[i]);
        let ghost rest = cs@.skip(i as int);
        assert(rest[0] == cs@[i as int]);
        if w > max_bytes - bytes {
            return i;
        }
        assert(rest.drop_first() =~= cs@.skip(i + 1));
        bytes = bytes + w;
        i = i + 1;
    }
    proof {
        let rest = cs@.skip(i as int);
        if i == cs.len() {
            assert(rest.len() == 0);
        }
    }
    i
}

/// Number of trailing characters of `cs` that fit, computed as
/// [`tail_fit`] states it.
fn count_tail(cs: &Vec<char>, max_chars: usize, max_bytes: usize) -> (r: usize)
    ensures
        r == tail_fit(cs@, max_chars as nat, max_bytes as nat),
{
    let mut j: usize = 0;
    let mut bytes: usize = 0;
    assert(cs@.take(cs.len() as int) =~= cs@);
    while j < cs.len() && j < max_chars
        invariant
            j <= cs.len(),
            j <= max_chars,
            bytes <= max_bytes,
            tail_fit(cs@, max_chars as nat, max_bytes as nat) == j + tail_fit(
                cs@.take(cs.len() - j),
                (max_chars - j) as nat,
                (max_bytes - bytes) as nat,
            ),
        decreases cs.len() - j,
    {
        let c = cs[cs.len() - 1 - j];
        let w = len_utf8(c);
        let ghost rest = cs@.take(cs.len() - j);
        assert(rest.last() == c);
        if w > max_bytes - bytes {
            return j;
        }
        assert(rest.drop_last() =~= cs@.take(cs.len() - (j + 1)));
        bytes = bytes + w;
        j = j + 1;
    }
    proof {
        let rest = cs@.take(cs.len() - j);
        if j == cs.len() {
            assert(rest.len() == 0);
        }
    }
    j
}

/// Middle-truncates `input` under a cap of `max_chars` characters and
/// `max_bytes` UTF-8 bytes. Input that fits is handed back as it is;
/// otherwise a head and a tail are kept and joined with `"..."`. Where the
/// caps leave no room for the ellipsis, the longest prefix that fits is
/// handed back instead.
pub fn truncate_middle(input: &str, max_chars: usize, max_bytes: usize) -> (r: Cow<'_, str>)
    ensures
        r@ == truncate_middle_spec(input@, max_chars as nat, max_bytes as nat),
        r is Borrowed <==> (fits(input@, max_chars as nat, max_bytes as nat) || degenerate_budget(
            max_chars as nat,
            max_bytes as nat,
        )),
{
    proof {
        lemma_str_len(input);
    }
    let n = input.unicode_len();
    let nbytes = input.as_bytes().len();
    if n <= max_chars && nbytes <= max_bytes {
        return Cow::Borrowed(input);
    }
    let cs = chars_of(input);
    if max_chars <= 3 || max_bytes <= 3 {
        let k = count_head(&cs, max_chars, max_bytes);
        proof {
            lemma_head_fit_bounds(input@, max_chars as nat, max_bytes as nat);
        }
        let head = input.substring_char(0, k);
        proof {
            assert(head@ =~= input@.take(k as int));
        }
        return Cow::Borrowed(head);
    }
    let chars_budget = max_chars - 3;
    let bytes_budget = max_bytes - 3;
    let head_chars = chars_budget / 2;
    let tail_chars = chars_budget - head_chars;
    let head_bytes = bytes_budget / 2;
    let tail_bytes = bytes_budget - head_bytes;
    let h = count_head(&cs, head_chars, head_bytes);
    let t = count_tail(&cs, tail_chars, tail_bytes);
    proof {
        lemma_head_fit_bounds(input@, head_chars as nat, head_bytes as nat);
        lemma_tail_fit_bounds(input@, tail_chars as nat, tail_bytes as nat);
    }
    let head = input.substring_char(0, h);
    let tail = input.substring_char(n - t, n);
    let mut out = String::from_str(head);
    out.append("...");
    out.append(tail);
    proof {
        reveal_strlit("...");
        assert(head@ =~= input@.take(h as int));
        assert(tail@ =~= input@.skip(n - t));
        assert("..."@ =~= ellipsis());
        assert(out@ =~= truncate_middle_spec(input@, max_chars as nat, max_bytes as nat));
    }
    Cow::Owned(out)
}

} // verus!
