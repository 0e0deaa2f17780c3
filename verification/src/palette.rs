//! The startup queries for the terminal's default colors, and the parser of
//! the replies as they arrive, possibly split across reads and mixed with
//! other escape sequences.
use vstd::prelude::*;
use crate::cells::Color;

verus! {

/// The longest reply kept while its terminator has not arrived; a longer
/// unterminated sequence is treated as garbage.
pub const MAX_REPLY_LEN: usize = 1024;

/// The default foreground (`.0`) and background (`.1`) colors, as far as
/// the terminal reported them.
pub type Palette = (Option<Color>, Option<Color>);

/// The OSC 11 (default background) query, then the OSC 10 (default
/// foreground) query, each ended by `ESC \`.
pub open spec fn startup_queries() -> Seq<u8> {
    seq![0x1bu8, 0x5du8, 0x31u8, 0x31u8, 0x3bu8, 0x3fu8, 0x1bu8, 0x5cu8] + seq![
        0x1bu8,
        0x5du8,
        0x31u8,
        0x30u8,
        0x3bu8,
        0x3fu8,
        0x1bu8,
        0x5cu8,
    ]
}

/// Appends the startup queries to `out`: the default background color
/// (OSC 11) first, then the default foreground color (OSC 10).
pub fn write_startup_queries(out: &mut Vec<u8>)
    ensures
        final(out)@ == old(out)@ + startup_queries(),
{
    let mut q: Vec<u8> = vec![0x1b, 0x5d, 0x31, 0x31, 0x3b, 0x3f, 0x1b, 0x5c, 0x1b, 0x5d, 0x31, 0x30, 0x3b, 0x3f, 0x1b, 0x5c];
    out.append(&mut q);
    proof {
        assert(final(out)@ =~= old(out)@ + startup_queries()) by {
            assert(startup_queries() =~= seq![0x1bu8, 0x5du8, 0x31u8, 0x31u8, 0x3bu8, 0x3fu8, 0x1bu8, 0x5cu8, 0x1bu8, 0x5du8, 0x31u8, 0x30u8, 0x3bu8, 0x3fu8, 0x1bu8, 0x5cu8]);
        }
    }
}

/// The value of a hexadecimal digit, if `b` is one.
pub open spec fn hex_value(b: u8) -> Option<nat> {
    if 0x30 <= b <= 0x39 {
        Some((b - 0x30) as nat)
    } else if 0x61 <= b <= 0x66 {
        Some((b - 0x61 + 10) as nat)
    } else if 0x41 <= b <= 0x46 {
        Some((b - 0x41 + 10) as nat)
    } else {
        None
    }
}

/// Whether every byte of `d` is a hexadecimal digit.
pub open spec fn all_hex(d: Seq<u8>) -> bool {
    forall|i: int| 0 <= i < d.len() ==> #[trigger] hex_value(d[i]) is Some
}

/// The value of a run of hexadecimal digits.
pub open spec fn hex_run_value(d: Seq<u8>) -> nat
    decreases d.len(),
{
    if d.len() == 0 {
        0
    } else {
        hex_run_value(d.drop_last()) * 16 + match hex_value(d.last()) {
            Some(v) => v,
            None => 0,
        }
    }
}

/// `16` to the power `n`.
pub open spec fn pow16(n: nat) -> nat
    decreases n,
{
    if n == 0 {
        1
    } else {
        16 * pow16((n - 1) as nat)
    }
}

/// A color component of one to four hexadecimal digits, scaled to eight
/// bits (`value * 255 / (16^digits - 1)`).
pub open spec fn component_spec(d: Seq<u8>) -> Option<u8> {
    if 1 <= d.len() <= 4 && all_hex(d) {
        Some((hex_run_value(d) * 255 / ((pow16(d.len()) - 1) as nat)) as u8)
    } else {
        None
    }
}

/// The prefix of a reply to the OSC `code` query: `ESC ] code ; rgb:`,
/// `code` being two ASCII digits.
pub open spec fn reply_prefix(code: Seq<u8>) -> Seq<u8> {
    seq![0x1bu8, 0x5du8] + code + seq![0x3bu8, 0x72u8, 0x67u8, 0x62u8, 0x3au8]
}

/// The color in a reply to the OSC `code` query, `ESC ] code ; rgb:R/G/B`
/// (terminator excluded), each component one to four hexadecimal digits.
pub open spec fn parse_color_reply(reply: Seq<u8>, code: Seq<u8>) -> Option<Color> {
    let p = reply_prefix(code);
    if reply.len() >= p.len() && reply.take(p.len() as int) == p {
        let body = reply.skip(p.len() as int);
        let parts = split_bytes(body, 0x2f);
        if parts.len() == 3 {
            match (component_spec(parts[0]), component_spec(parts[1]), component_spec(parts[2])) {
                (Some(r), Some(g), Some(b)) => Some(Color::Rgb(r, g, b)),
                _ => None,
            }
        } else {
            None
        }
    } else {
        None
    }
}

/// The pieces of `rest` between separator bytes `sep`, the piece being read
/// being `cur`.
pub open spec fn split_bytes_from(rest: Seq<u8>, sep: u8, cur: Seq<u8>) -> Seq<Seq<u8>>
    decreases rest.len(),
{
    if rest.len() == 0 {
        seq![cur]
    } else if rest[0] == sep {
        seq![cur] + split_bytes_from(rest.drop_first(), sep, Seq::empty())
    } else {
        split_bytes_from(rest.drop_first(), sep, cur.push(rest[0]))
    }
}

/// The pieces of `s` between separator bytes `sep`.
pub open spec fn split_bytes(s: Seq<u8>, sep: u8) -> Seq<Seq<u8>> {
    split_bytes_from(s, sep, Seq::empty())
}

/// The OSC code of the default background color, `11`.
pub open spec fn code_background() -> Seq<u8> {
    seq![0x31u8, 0x31u8]
}

/// The OSC code of the default foreground color, `10`.
pub open spec fn code_foreground() -> Seq<u8> {
    seq![0x31u8, 0x30u8]
}

/// The palette after one complete OSC reply: a background reply sets the
/// background, a foreground reply the foreground; anything else changes
/// nothing.
pub open spec fn apply_reply(palette: Palette, reply: Seq<u8>) -> Palette {
    match parse_color_reply(reply, code_background()) {
        Some(bg) => (palette.0, Some(bg)),
        None => match parse_color_reply(reply, code_foreground()) {
            Some(fg) => (Some(fg), palette.1),
            None => palette,
        },
    }
}

/// The first position of `ESC` in `b`.
pub open spec fn first_esc_from(b: Seq<u8>, i: int) -> Option<int>
    decreases b.len() - i,
{
    if i < 0 || i >= b.len() {
        None
    } else if b[i] == 0x1b {
        Some(i)
    } else {
        first_esc_from(b, i + 1)
    }
}

/// Where an OSC sequence `b` (starting `ESC ]`) ends, searching from `i`:
/// the position and length of its terminator (BEL, or `ESC \`); `None`
/// when it has not arrived, an `ESC` as the last byte included.
pub open spec fn osc_terminator_from(b: Seq<u8>, i: int) -> Option<(int, int)>
    decreases b.len() - i,
{
    if i < 0 || i >= b.len() {
        None
    } else if b[i] == 0x07 {
        Some((i, 1))
    } else if b[i] == 0x1b && i + 1 == b.len() {
        None
    } else if b[i] == 0x1b && b[i + 1] == 0x5c {
        Some((i, 2))
    } else {
        osc_terminator_from(b, i + 1)
    }
}

/// The position of the final byte (`0x40` to `0x7E`) of a CSI sequence
/// `b` (starting `ESC [`), searching from `i`.
pub open spec fn csi_final_from(b: Seq<u8>, i: int) -> Option<int>
    decreases b.len() - i,
{
    if i < 0 || i >= b.len() {
        None
    } else if 0x40 <= b[i] <= 0x7e {
        Some(i)
    } else {
        csi_final_from(b, i + 1)
    }
}

/// An `ESC` found is inside the buffer and is the first one.
pub proof fn lemma_first_esc(b: Seq<u8>, i: int)
    requires
        0 <= i,
    ensures
        first_esc_from(b, i) matches Some(e) ==> i <= e < b.len() && b[e] == 0x1b && forall|j: int|
            i <= j < e ==> b[j] != 0x1b,
        first_esc_from(b, i) is None ==> forall|j: int| i <= j < b.len() ==> b[j] != 0x1b,
    decreases b.len() - i,
{
    if i < b.len() && b[i] != 0x1b {
        lemma_first_esc(b, i + 1);
    }
}

/// An OSC terminator found lies inside the buffer, after `i`.
pub proof fn lemma_osc_terminator(b: Seq<u8>, i: int)
    requires
        0 <= i,
    ensures
        osc_terminator_from(b, i) matches Some((idx, len)) ==> i <= idx && (len == 1 || len == 2)
            && idx + len <= b.len(),
    decreases b.len() - i,
{
    if i < b.len() && b[i] != 0x07 && !(b[i] == 0x1b && i + 1 == b.len()) && !(b[i] == 0x1b && b[i
        + 1] == 0x5c) {
        lemma_osc_terminator(b, i + 1);
    }
}

/// A CSI final byte found lies inside the buffer, after `i`.
pub proof fn lemma_csi_final(b: Seq<u8>, i: int)
    requires
        0 <= i,
    ensures
        csi_final_from(b, i) matches Some(idx) ==> i <= idx < b.len() && 0x40 <= b[idx] <= 0x7e
            && forall|j: int| i <= j < idx ==> !(0x40 <= #[trigger] b[j] <= 0x7e),
        csi_final_from(b, i) is None ==> forall|j: int| i <= j < b.len() ==> !(0x40 <= #[trigger] b[j] <= 0x7e),
    decreases b.len() - i,
{
    if i < b.len() && !(0x40 <= b[i] <= 0x7e) {
        lemma_csi_final(b, i + 1);
    }
}

/// The replies of `buf` parsed into `palette`: what stays in the buffer
/// (a trailing partial reply) and the palette. Bytes before an `ESC` are
/// dropped; a complete OSC reply is applied and removed; a complete CSI
/// sequence is removed; an `ESC` that starts neither, or an unterminated
/// sequence longer than [`MAX_REPLY_LEN`], is dropped and the scan goes on.
pub open spec fn replies_spec(buf: Seq<u8>, palette: Palette) -> (Seq<u8>, Palette)
    decreases buf.len(),
{
    match first_esc_from(buf, 0) {
        None => (Seq::empty(), palette),
        Some(e) => {
            proof {
                lemma_first_esc(buf, 0);
            }
            let b = buf.skip(e);
            if b.len() < 2 {
                (b, palette)
            } else if b[1] == 0x5d {
                match osc_terminator_from(b, 2) {
                    None => if b.len() > MAX_REPLY_LEN {
                        replies_spec(b.drop_first(), palette)
                    } else {
                        (b, palette)
                    },
                    Some((idx, len)) => {
                        proof {
                            lemma_osc_terminator(b, 2);
                        }
                        replies_spec(b.skip(idx + len), apply_reply(palette, b.take(idx)))
                    },
                }
            } else if b[1] == 0x5b {
                if b.len() < 3 {
                    (b, palette)
                } else {
                    match csi_final_from(b, 2) {
                        None => if b.len() > MAX_REPLY_LEN {
                            replies_spec(b.drop_first(), palette)
                        } else {
                            (b, palette)
                        },
                        Some(idx) => {
                            proof {
                                lemma_csi_final(b, 2);
                            }
                            replies_spec(b.skip(idx + 1), palette)
                        },
                    }
                }
            } else {
                replies_spec(b.drop_first(), palette)
            }
        },
    }
}

/// Where the OSC sequence in `buf` (starting `ESC ]`) ends: the position of
/// its terminator (BEL, or `ESC \`) and the terminator's length.
pub fn find_osc_terminator(buf: &[u8]) -> (r: Option<(usize, usize)>)
    ensures
        match r {
            Some((i, l)) => osc_terminator_from(buf@, 2) == Some((i as int, l as int)),
            None => osc_terminator_from(buf@, 2) is None,
        },
{
    let mut i: usize = 2;
    while i < buf.len()
        invariant
            2 <= i,
            osc_terminator_from(buf@, 2) == osc_terminator_from(buf@, i as int),
        decreases buf.len() - i,
    {
        if buf[i] == 0x07 {
            return Some((i, 1));
        }
        if buf[i] == 0x1b && i + 1 == buf.len() {
            return None;
        }
        if buf[i] == 0x1b && buf[i + 1] == 0x5c {
            return Some((i, 2));
        }
        i = i + 1;
    }
    None
}

/// The position of the final byte (`0x40` to `0x7E`) of the CSI sequence in
/// `buf` (starting `ESC [`).
pub fn find_csi_final_byte(buf: &[u8]) -> (r: Option<usize>)
    requires
        buf@.len() >= 2,
    ensures
        match r {
            Some(i) => csi_final_from(buf@, 2) == Some(i as int),
            None => csi_final_from(buf@, 2) is None,
        },
{
    let mut i: usize = 2;
    while i < buf.len()
        invariant
            2 <= i,
            csi_final_from(buf@, 2) == csi_final_from(buf@, i as int),
        decreases buf.len() - i,
    {
        if 0x40 <= buf[i] && buf[i] <= 0x7e {
            return Some(i);
        }
        i = i + 1;
    }
    None
}

fn hex_digit(b: u8) -> (r: Option<u32>)
    ensures
        match r {
            Some(v) => hex_value(b) == Some(v as nat) && v < 16,
            None => hex_value(b) is None,
        },
{
    if 0x30 <= b && b <= 0x39 {
        Some((b - 0x30) as u32)
    } else if 0x61 <= b && b <= 0x66 {
        Some((b - 0x61 + 10) as u32)
    } else if 0x41 <= b && b <= 0x46 {
        Some((b - 0x41 + 10) as u32)
    } else {
        None
    }
}

/// One color component, `d[from..to]`.
fn component(d: &[u8], from: usize, to: usize) -> (r: Option<u8>)
    requires
        from <= to <= d@.len(),
    ensures
        r == component_spec(d@.subrange(from as int, to as int)),
{
    let ghost run = d@.subrange(from as int, to as int);
    let n = to - from;
    if n < 1 || n > 4 {
        return None;
    }
    let mut v: u32 = 0;
    let mut k: usize = from;
    proof {
        assert(run.take(0) =~= Seq::<u8>::empty());
    }
    while k < to
        invariant
            from <= k <= to <= d@.len(),
            to - from <= 4,
            run == d@.subrange(from as int, to as int),
            all_hex(run.take(k - from)),
            v == hex_run_value(run.take(k - from)),
            v < pow16((k - from) as nat),
        decreases to - k,
    {
        match hex_digit(d[k]) {
            Some(h) => {
                proof {
                    assert(run[k - from] == d@[k as int]);
                    assert(run.take(k - from + 1).drop_last() =~= run.take(k - from));
                    assert(run.take(k - from + 1).last() == d@[k as int]);
                    assert(pow16((k - from) as nat) <= 4096) by {
                        reveal_with_fuel(pow16, 5);
                    }
                    assert(v * 16 + h < 16 * pow16((k - from) as nat)) by (nonlinear_arith)
                        requires
                            v < pow16((k - from) as nat),
                            h < 16,
                    ;
                    assert(all_hex(run.take(k - from + 1))) by {
                        assert forall|i: int| 0 <= i < run.take(k - from + 1).len() implies #[trigger] hex_value(
                            run.take(k - from + 1)[i],
                        ) is Some by {
                            if i < k - from {
                                assert(run.take(k - from + 1)[i] == run.take(k - from)[i]);
                            }
                        }
                    }
                }
                v = v * 16 + h;
            },
            None => {
                proof {
                    assert(run[k - from] == d@[k as int]);
                    assert(!all_hex(run));
                }
                return None;
            },
        }
        k = k + 1;
    }
    proof {
        assert(run.take(k - from) =~= run);
        reveal_with_fuel(pow16, 5);
    }
    let max: u32 = if n == 1 {
        15
    } else if n == 2 {
        255
    } else if n == 3 {
        4095
    } else {
        65535
    };
    proof {
        assert(max == pow16(n as nat) - 1);
        assert(v * 255 <= 65535 * 255) by (nonlinear_arith)
            requires
                v <= max,
                max <= 65535,
        ;
        assert((v * 255) as int / (max as int) <= 255) by (nonlinear_arith)
            requires
                v <= max,
                max > 0,
        ;
    }
    Some((v * 255 / max) as u8)
}

/// Bytes without a separator join the piece being read.
proof fn lemma_split_scan(rest: Seq<u8>, sep: u8, cur: Seq<u8>, k: int)
    requires
        0 <= k <= rest.len(),
        forall|j: int| 0 <= j < k ==> rest[j] != sep,
    ensures
        split_bytes_from(rest, sep, cur) == split_bytes_from(rest.skip(k), sep, cur + rest.take(k)),
    decreases k,
{
    if k > 0 {
        assert(rest[0] != sep);
        let r1 = rest.drop_first();
        lemma_split_scan(r1, sep, cur.push(rest[0]), k - 1);
        assert(r1.skip(k - 1) =~= rest.skip(k));
        assert(cur.push(rest[0]) + r1.take(k - 1) =~= cur + rest.take(k));
    } else {
        assert(rest.skip(0) =~= rest);
        assert(cur + rest.take(0) =~= cur);
    }
}

/// A piece ends at the first separator.
proof fn lemma_split_piece(rest: Seq<u8>, sep: u8, k: int)
    requires
        0 <= k < rest.len(),
        rest[k] == sep,
        forall|j: int| 0 <= j < k ==> rest[j] != sep,
    ensures
        split_bytes(rest, sep) == seq![rest.take(k)] + split_bytes(rest.skip(k + 1), sep),
{
    lemma_split_scan(rest, sep, Seq::empty(), k);
    assert(Seq::<u8>::empty() + rest.take(k) =~= rest.take(k));
    let t = rest.skip(k);
    assert(t[0] == sep);
    assert(t.drop_first() =~= rest.skip(k + 1));
}

/// Without a separator there is one piece, the whole.
proof fn lemma_split_whole(rest: Seq<u8>, sep: u8)
    requires
        forall|j: int| 0 <= j < rest.len() ==> rest[j] != sep,
    ensures
        split_bytes(rest, sep) == seq![rest],
{
    lemma_split_scan(rest, sep, Seq::empty(), rest.len() as int);
    assert(rest.skip(rest.len() as int) =~= Seq::<u8>::empty());
    assert(Seq::<u8>::empty() + rest.take(rest.len() as int) =~= rest);
}

/// There is always at least one piece.
proof fn lemma_split_nonempty(rest: Seq<u8>, sep: u8, cur: Seq<u8>)
    ensures
        split_bytes_from(rest, sep, cur).len() >= 1,
    decreases rest.len(),
{
    if rest.len() > 0 {
        if rest[0] == sep {
            lemma_split_nonempty(rest.drop_first(), sep, Seq::empty());
        } else {
            lemma_split_nonempty(rest.drop_first(), sep, cur.push(rest[0]));
        }
    }
}

/// The color in a reply to the OSC `c0 c1` query (`ESC ] c0 c1 ; rgb:R/G/B`,
/// terminator excluded).
fn parse_color_reply_exec(reply: &[u8], c0: u8, c1: u8) -> (r: Option<Color>)
    ensures
        r == parse_color_reply(reply@, seq![c0, c1]),
{
    let ghost p = reply_prefix(seq![c0, c1]);
    assert(p =~= seq![0x1bu8, 0x5du8, c0, c1, 0x3bu8, 0x72u8, 0x67u8, 0x62u8, 0x3au8]);
    if reply.len() < 9 || reply[0] != 0x1b || reply[1] != 0x5d || reply[2] != c0 || reply[3] != c1
        || reply[4] != 0x3b || reply[5] != 0x72 || reply[6] != 0x67 || reply[7] != 0x62
        || reply[8] != 0x3a {
        proof {
            if reply@.len() >= p.len() && reply@.take(p.len() as int) == p {
                assert(reply@.take(9)[0] == reply@[0]);
                assert(reply@.take(9)[1] == reply@[1]);
                assert(reply@.take(9)[2] == reply@[2]);
                assert(reply@.take(9)[3] == reply@[3]);
                assert(reply@.take(9)[4] == reply@[4]);
                assert(reply@.take(9)[5] == reply@[5]);
                assert(reply@.take(9)[6] == reply@[6]);
                assert(reply@.take(9)[7] == reply@[7]);
                assert(reply@.take(9)[8] == reply@[8]);
            }
        }
        return None;
    }
    assert(reply@.take(9) =~= p);
    let ghost body = reply@.skip(9);
    let n = reply.len();
    let mut s1: usize = 9;
    while s1 < n && reply[s1] != 0x2f
        invariant
            9 <= s1 <= n,
            n == reply@.len(),
            forall|j: int| 9 <= j < s1 ==> reply@[j] != 0x2f,
        decreases n - s1,
    {
        s1 = s1 + 1;
    }
    if s1 == n {
        proof {
            assert forall|j: int| 0 <= j < body.len() implies body[j] != 0x2f by {
                assert(body[j] == reply@[j + 9]);
            }
            lemma_split_whole(body, 0x2f);
        }
        return None;
    }
    let mut s2: usize = s1 + 1;
    while s2 < n && reply[s2] != 0x2f
        invariant
            9 <= s1 < s2 <= n,
            n == reply@.len(),
            forall|j: int| s1 < j < s2 ==> reply@[j] != 0x2f,
        decreases n - s2,
    {
        s2 = s2 + 1;
    }
    let ghost a = s1 - 9;
    let ghost rest1 = body.skip(a + 1);
    proof {
        assert forall|j: int| 0 <= j < a implies body[j] != 0x2f by {
            assert(body[j] == reply@[j + 9]);
        }
        assert(body[a] == reply@[s1 as int]);
        lemma_split_piece(body, 0x2f, a);
    }
    if s2 == n {
        proof {
            assert forall|j: int| 0 <= j < rest1.len() implies rest1[j] != 0x2f by {
                assert(rest1[j] == reply@[j + s1 + 1]);
            }
            lemma_split_whole(rest1, 0x2f);
        }
        return None;
    }
    let mut s3: usize = s2 + 1;
    while s3 < n && reply[s3] != 0x2f
        invariant
            s1 < s2 < s3 <= n,
            n == reply@.len(),
            forall|j: int| s2 < j < s3 ==> reply@[j] != 0x2f,
        decreases n - s3,
    {
        s3 = s3 + 1;
    }
    let ghost b2 = s2 - s1 - 1;
    let ghost rest2 = rest1.skip(b2 + 1);
    proof {
        assert forall|j: int| 0 <= j < b2 implies rest1[j] != 0x2f by {
            assert(rest1[j] == reply@[j + s1 + 1]);
        }
        assert(rest1[b2] == reply@[s2 as int]);
        lemma_split_piece(rest1, 0x2f, b2);
    }
    if s3 < n {
        proof {
            let c = s3 - s2 - 1;
            assert forall|j: int| 0 <= j < c implies rest2[j] != 0x2f by {
                assert(rest2[j] == reply@[j + s2 + 1]);
            }
            assert(rest2[c] == reply@[s3 as int]);
            lemma_split_piece(rest2, 0x2f, c);
            lemma_split_nonempty(rest2.skip(c + 1), 0x2f, Seq::empty());
        }
        return None;
    }
    proof {
        assert forall|j: int| 0 <= j < rest2.len() implies rest2[j] != 0x2f by {
            assert(rest2[j] == reply@[j + s2 + 1]);
        }
        lemma_split_whole(rest2, 0x2f);
        assert(split_bytes(body, 0x2f) =~= seq![body.take(a), rest1.take(b2), rest2]);
        assert(body.take(a) =~= reply@.subrange(9, s1 as int));
        assert(rest1.take(b2) =~= reply@.subrange(s1 + 1, s2 as int));
        assert(rest2 =~= reply@.subrange(s2 + 1, n as int));
    }
    let r = component(reply, 9, s1);
    let g = component(reply, s1 + 1, s2);
    let b = component(reply, s2 + 1, n);
    match (r, g, b) {
        (Some(r), Some(g), Some(b)) => Some(Color::Rgb(r, g, b)),
        _ => None,
    }
}

/// `v` without its first `k` bytes.
fn drop_front(v: &mut Vec<u8>, k: usize)
    requires
        k <= old(v)@.len(),
    ensures
        final(v)@ == old(v)@.skip(k as int),
{
    let mut rest: Vec<u8> = Vec::new();
    let mut i = k;
    while i < v.len()
        invariant
            k <= i <= v@.len(),
            rest@ == v@.subrange(k as int, i as int),
        decreases v@.len() - i,
    {
        rest.push(v[i]);
        assert(rest@ =~= v@.subrange(k as int, i + 1));
        i = i + 1;
    }
    assert(rest@ =~= v@.skip(k as int));
    *v = rest;
}

/// The first `k` bytes of `v`.
fn prefix(v: &Vec<u8>, k: usize) -> (r: Vec<u8>)
    requires
        k <= v@.len(),
    ensures
        r@ == v@.take(k as int),
{
    let mut out: Vec<u8> = Vec::new();
    let mut i: usize = 0;
    while i < k
        invariant
            i <= k <= v@.len(),
            out@ == v@.take(i as int),
        decreases k - i,
    {
        out.push(v[i]);
        assert(out@ =~= v@.take(i + 1));
        i = i + 1;
    }
    out
}

/// Parses the complete replies to the startup palette queries in `buf` into
/// `palette`: complete replies (and complete unrelated CSI sequences) are
/// removed, a trailing partial reply is kept for the next read, and bytes
/// that cannot belong to a reply are dropped.
pub fn parse_palette_replies(buf: &mut Vec<u8>, palette: &mut (Option<Color>, Option<Color>))
    ensures
        (final(buf)@, *final(palette)) == replies_spec(old(buf)@, *old(palette)),
{
    loop
        invariant
            replies_spec(buf@, *palette) == replies_spec(old(buf)@, *old(palette)),
        decreases buf@.len(),
    {
        let ghost start = buf@;
        let ghost pal = *palette;
        let mut e: usize = 0;
        while e < buf.len() && buf[e] != 0x1b
            invariant
                e <= buf@.len(),
                buf@ == start,
                first_esc_from(start, 0) == first_esc_from(start, e as int),
            decreases buf@.len() - e,
        {
            e = e + 1;
        }
        if e == buf.len() {
            *buf = Vec::new();
            return;
        }
        proof {
            lemma_first_esc(start, 0);
        }
        drop_front(buf, e);
        let ghost b = buf@;
        if buf.len() < 2 {
            return;
        }
        if buf[1] == 0x5d {
            match find_osc_terminator(buf.as_slice()) {
                None => {
                    if buf.len() > MAX_REPLY_LEN {
                        drop_front(buf, 1);
                        assert(buf@ == b.drop_first());
                    } else {
                        return;
                    }
                },
                Some((idx, len)) => {
                    proof {
                        lemma_osc_terminator(b, 2);
                    }
                    let reply = prefix(buf, idx);
                    match parse_color_reply_exec(reply.as_slice(), 0x31, 0x31) {
                        Some(bg) => {
                            palette.1 = Some(bg);
                        },
                        None => match parse_color_reply_exec(reply.as_slice(), 0x31, 0x30) {
                            Some(fg) => {
                                palette.0 = Some(fg);
                            },
                            None => {},
                        },
                    }
                    proof {
                        assert(seq![0x31u8, 0x31u8] =~= code_background());
                        assert(seq![0x31u8, 0x30u8] =~= code_foreground());
                        assert(*palette == apply_reply(pal, b.take(idx as int)));
                    }
                    drop_front(buf, idx + len);
                },
            }
        } else if buf[1] == 0x5b {
            if buf.len() < 3 {
                return;
            }
            match find_csi_final_byte(buf.as_slice()) {
                None => {
                    if buf.len() > MAX_REPLY_LEN {
                        drop_front(buf, 1);
                        assert(buf@ == b.drop_first());
                    } else {
                        return;
                    }
                },
                Some(idx) => {
                    proof {
                        lemma_csi_final(b, 2);
                    }
                    drop_front(buf, idx + 1);
                },
            }
        } else {
            drop_front(buf, 1);
            assert(buf@ == b.drop_first());
        }
    }
}

/// What stays in the buffer after parsing is a suffix of it, empty or
/// starting with `ESC`, and never longer than [`MAX_REPLY_LEN`]: the buffer
/// cannot grow without bound across reads.
pub proof fn law_leftover_is_bounded_suffix(buf: Seq<u8>, palette: Palette)
    ensures
        ({
            let left = replies_spec(buf, palette).0;
            &&& left.len() <= MAX_REPLY_LEN
            &&& exists|k: int| 0 <= k <= buf.len() && left == #[trigger] buf.skip(k)
            &&& left.len() == 0 || left[0] == 0x1b
        }),
    decreases buf.len(),
{
    lemma_first_esc(buf, 0);
    match first_esc_from(buf, 0) {
        None => {
            assert(buf.skip(buf.len() as int) =~= Seq::<u8>::empty());
        },
        Some(e) => {
            let b = buf.skip(e);
            if b.len() < 2 {
            } else if b[1] == 0x5d {
                lemma_osc_terminator(b, 2);
                match osc_terminator_from(b, 2) {
                    None => if b.len() > MAX_REPLY_LEN {
                        law_leftover_is_bounded_suffix(b.drop_first(), palette);
                        let left = replies_spec(b.drop_first(), palette).0;
                        let k = choose|k: int| 0 <= k <= b.drop_first().len() && left == #[trigger] b.drop_first().skip(k);
                        assert(buf.skip(e + 1 + k) =~= b.drop_first().skip(k));
                    } else {
                    },
                    Some((idx, len)) => {
                        let next = b.skip(idx + len);
                        let p2 = apply_reply(palette, b.take(idx));
                        law_leftover_is_bounded_suffix(next, p2);
                        let left = replies_spec(next, p2).0;
                        let k = choose|k: int| 0 <= k <= next.len() && left == #[trigger] next.skip(k);
                        assert(buf.skip(e + idx + len + k) =~= next.skip(k));
                    },
                }
            } else if b[1] == 0x5b {
                if b.len() >= 3 {
                    lemma_csi_final(b, 2);
                    match csi_final_from(b, 2) {
                        None => if b.len() > MAX_REPLY_LEN {
                            law_leftover_is_bounded_suffix(b.drop_first(), palette);
                            let left = replies_spec(b.drop_first(), palette).0;
                            let k = choose|k: int| 0 <= k <= b.drop_first().len() && left == #[trigger] b.drop_first().skip(k);
                            assert(buf.skip(e + 1 + k) =~= b.drop_first().skip(k));
                        } else {
                        },
                        Some(idx) => {
                            let next = b.skip(idx + 1);
                            law_leftover_is_bounded_suffix(next, palette);
                            let left = replies_spec(next, palette).0;
                            let k = choose|k: int| 0 <= k <= next.len() && left == #[trigger] next.skip(k);
                            assert(buf.skip(e + idx + 1 + k) =~= next.skip(k));
                        },
                    }
                }
            } else {
                law_leftover_is_bounded_suffix(b.drop_first(), palette);
                let left = replies_spec(b.drop_first(), palette).0;
                let k = choose|k: int| 0 <= k <= b.drop_first().len() && left == #[trigger] b.drop_first().skip(k);
                assert(buf.skip(e + 1 + k) =~= b.drop_first().skip(k));
            }
        },
    }
}

} // verus!
