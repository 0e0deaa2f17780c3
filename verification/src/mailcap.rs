//! mailcap files (RFC 1524): finding the entry for a content type, quoting
//! values for the shell, and assembling the command line of an entry.
use vstd::prelude::*;
use vstd::string::*;
use vstd::utf8::encode_utf8;
use melib::utils::fnmatch::Fnmatch;
use crate::desktop::join_words;
use crate::text::{
    chars_eq, chars_of, lines_spec, push_char, rows, split_chars, split_from, split_lines, split_spec,
    split_words, starts_with_chars, string_of, trim_chars, trim_spec, words_spec,
};

verus! {

broadcast use vstd::string::group_string_axioms;

/// What a mailcap entry says to run: the raw command field, and whether
/// `copiousoutput` was set (the output goes to a pager).
pub struct MailcapEntry {
    pub command: String,
    pub copiousoutput: bool,
}

impl View for MailcapEntry {
    type V = (Seq<char>, bool);

    open spec fn view(&self) -> (Seq<char>, bool) {
        (self.command@, self.copiousoutput)
    }
}

/// One well-formed line of a mailcap file: its content-type key and its
/// entry.
pub struct MailcapRecord {
    pub key: String,
    pub entry: MailcapEntry,
}

impl View for MailcapRecord {
    type V = (Seq<char>, Seq<char>, bool);

    open spec fn view(&self) -> (Seq<char>, Seq<char>, bool) {
        (self.key@, self.entry.command@, self.entry.copiousoutput)
    }
}

/// The views of a sequence of records.
pub open spec fn record_views(v: Seq<MailcapRecord>) -> Seq<(Seq<char>, Seq<char>, bool)> {
    Seq::new(v.len(), |i: int| v[i]@)
}

/// The view of an optional entry.
pub open spec fn entry_view(e: Option<MailcapEntry>) -> Option<(Seq<char>, bool)> {
    match e {
        Some(e) => Some(e@),
        None => None,
    }
}

/// The flag word `copiousoutput`.
pub open spec fn copiousoutput_word() -> Seq<char> {
    seq!['c', 'o', 'p', 'i', 'o', 'u', 's', 'o', 'u', 't', 'p', 'u', 't']
}

/// Whether one of the flag fields (the fields after the command) is
/// `copiousoutput`, whitespace aside.
pub open spec fn has_copiousoutput(fields: Seq<Seq<char>>) -> bool {
    exists|q: int| 2 <= q < fields.len() && #[trigger] trim_spec(fields[q]) == copiousoutput_word()
}

/// The record a logical mailcap line makes: fields split at `;`, the first
/// the key, the second the command; `None` for a line without a command
/// field.
pub open spec fn record_spec(line: Seq<char>) -> Option<(Seq<char>, Seq<char>, bool)> {
    let fields = split_spec(line, ';');
    if fields.len() < 2 {
        None
    } else {
        Some((fields[0], fields[1], has_copiousoutput(fields)))
    }
}

/// The flag fields written after a command: each behind a `;`.
pub open spec fn flags_suffix(flags: Seq<Seq<char>>) -> Seq<char>
    decreases flags.len(),
{
    if flags.len() == 0 {
        Seq::empty()
    } else {
        seq![';'] + flags[0] + flags_suffix(flags.drop_first())
    }
}

/// Whether `s` holds no `;`.
pub open spec fn no_semicolon(s: Seq<char>) -> bool {
    forall|i: int| 0 <= i < s.len() ==> #[trigger] s[i] != ';'
}

proof fn lemma_split_plain(a: Seq<char>, rest: Seq<char>, cur: Seq<char>)
    requires
        no_semicolon(a),
    ensures
        split_from(a + rest, ';', cur) == split_from(rest, ';', cur + a),
    decreases a.len(),
{
    if a.len() > 0 {
        assert((a + rest)[0] == a[0]);
        assert((a + rest).drop_first() =~= a.drop_first() + rest);
        assert forall|i: int| 0 <= i < a.drop_first().len() implies #[trigger] a.drop_first()[i]
            != ';' by {
            assert(a.drop_first()[i] == a[i + 1]);
        }
        lemma_split_plain(a.drop_first(), rest, cur.push(a[0]));
        assert(cur.push(a[0]) + a.drop_first() =~= cur + a);
    } else {
        assert(a + rest =~= rest);
        assert(cur + a =~= cur);
    }
}

proof fn lemma_split_flags(flags: Seq<Seq<char>>, cur: Seq<char>)
    requires
        forall|i: int| 0 <= i < flags.len() ==> no_semicolon(#[trigger] flags[i]),
    ensures
        split_from(flags_suffix(flags), ';', cur) == seq![cur] + flags,
    decreases flags.len(),
{
    if flags.len() == 0 {
        assert(seq![cur] + flags =~= seq![cur]);
    } else {
        let rest = flags.drop_first();
        let tail = flags[0] + flags_suffix(rest);
        let line = seq![';'] + tail;
        assert(flags_suffix(flags) == line);
        assert(line[0] == ';');
        assert(line.drop_first() =~= tail);
        assert(no_semicolon(flags[0]));
        lemma_split_plain(flags[0], flags_suffix(rest), Seq::empty());
        assert(Seq::<char>::empty() + flags[0] =~= flags[0]);
        assert forall|i: int| 0 <= i < rest.len() implies no_semicolon(#[trigger] rest[i]) by {
            assert(rest[i] == flags[i + 1]);
        }
        lemma_split_flags(rest, flags[0]);
        assert(seq![cur] + (seq![flags[0]] + rest) =~= seq![cur] + flags);
    }
}

/// A mailcap line made of a key, a command and any number of flag fields,
/// none of them holding `;`, makes the record of that key and that
/// command, whose output goes through a pager exactly when one of the
/// flags, whitespace aside, is `copiousoutput`, whatever its place among
/// them.
pub proof fn law_line_fields(key: Seq<char>, command: Seq<char>, flags: Seq<Seq<char>>)
    requires
        no_semicolon(key),
        no_semicolon(command),
        forall|i: int| 0 <= i < flags.len() ==> no_semicolon(#[trigger] flags[i]),
    ensures
        record_spec(key + seq![';'] + command + flags_suffix(flags)) == Some(
            (
                key,
                command,
                exists|i: int| 0 <= i < flags.len() && #[trigger] trim_spec(flags[i]) == "copiousoutput"@,
            ),
        ),
{
    reveal_strlit("copiousoutput");
    assert("copiousoutput"@ =~= copiousoutput_word());
    let line = key + seq![';'] + command + flags_suffix(flags);
    let after_key = seq![';'] + command + flags_suffix(flags);
    assert(line =~= key + after_key);
    lemma_split_plain(key, after_key, Seq::empty());
    assert(Seq::<char>::empty() + key =~= key);
    assert(after_key[0] == ';');
    assert(after_key.drop_first() =~= command + flags_suffix(flags));
    lemma_split_plain(command, flags_suffix(flags), Seq::empty());
    assert(Seq::<char>::empty() + command =~= command);
    lemma_split_flags(flags, command);
    let fields = split_spec(line, ';');
    assert(fields =~= seq![key] + (seq![command] + flags));
    assert(fields.len() >= 2);
    assert(fields[0] == key);
    assert(fields[1] == command);
    assert forall|q: int| 2 <= q < fields.len() implies fields[q] == flags[q - 2] by {}
    if has_copiousoutput(fields) {
        let q = choose|q: int| 2 <= q < fields.len() && #[trigger] trim_spec(fields[q])
            == copiousoutput_word();
        assert(trim_spec(flags[q - 2]) == "copiousoutput"@);
    }
    if exists|i: int| 0 <= i < flags.len() && #[trigger] trim_spec(flags[i]) == "copiousoutput"@ {
        let i = choose|i: int| 0 <= i < flags.len() && #[trigger] trim_spec(flags[i])
            == "copiousoutput"@;
        assert(fields[i + 2] == flags[i]);
        assert(trim_spec(fields[i + 2]) == copiousoutput_word());
    }
}

/// `r` in front of `rs`, where there is one.
pub open spec fn prepend<T>(r: Option<T>, rs: Seq<T>) -> Seq<T> {
    match r {
        Some(r) => seq![r] + rs,
        None => rs,
    }
}

/// The records of a mailcap file, from its lines: comment and blank lines
/// are skipped, a line ending in a backslash is joined with the line after
/// it (when there is one), and lines without a command field are dropped.
pub open spec fn records_spec(lines: Seq<Seq<char>>) -> Seq<(Seq<char>, Seq<char>, bool)>
    decreases lines.len(),
{
    if lines.len() == 0 {
        Seq::empty()
    } else {
        let l = trim_spec(lines[0]);
        if l.len() == 0 || l[0] == '#' {
            records_spec(lines.drop_first())
        } else if l.last() == '\\' {
            if lines.len() >= 2 {
                prepend(record_spec(l.drop_last() + lines[1]), records_spec(lines.skip(2)))
            } else {
                prepend(record_spec(l.drop_last()), Seq::empty())
            }
        } else {
            prepend(record_spec(l), records_spec(lines.drop_first()))
        }
    }
}

/// The records of the mailcap file `content`.
pub open spec fn mailcap_records_spec(content: Seq<char>) -> Seq<(Seq<char>, Seq<char>, bool)> {
    records_spec(lines_spec(content))
}

/// The record of one logical line.
fn record_of(line: &Vec<char>) -> (r: Option<MailcapRecord>)
    ensures
        match r {
            Some(rec) => record_spec(line@) == Some(rec@),
            None => record_spec(line@) is None,
        },
{
    let fields = split_chars(line, ';');
    if fields.len() < 2 {
        return None;
    }
    let word = chars_of("copiousoutput");
    proof {
        reveal_strlit("copiousoutput");
        assert(word@ =~= copiousoutput_word());
    }
    let mut copious = false;
    let mut j: usize = 2;
    while j < fields.len()
        invariant
            2 <= j <= fields.len(),
            word@ == copiousoutput_word(),
            copious <==> exists|q: int| 2 <= q < j && #[trigger] trim_spec(rows(fields@)[q])
                == copiousoutput_word(),
        decreases fields.len() - j,
    {
        let t = trim_chars(&fields[j]);
        assert(rows(fields@)[j as int] == fields@[j as int]@);
        if chars_eq(&t, &word) {
            copious = true;
        }
        j = j + 1;
    }
    let key = string_of(&fields[0]);
    let command = string_of(&fields[1]);
    proof {
        assert(rows(fields@)[0] == fields@[0]@);
        assert(rows(fields@)[1] == fields@[1]@);
    }
    Some(MailcapRecord { key, entry: MailcapEntry { command, copiousoutput: copious } })
}

/// The records of the mailcap file `content`, in order.
pub fn mailcap_records(content: &str) -> (r: Vec<MailcapRecord>)
    ensures
        record_views(r@) == mailcap_records_spec(content@),
{
    let cs = chars_of(content);
    let lines = split_lines(&cs);
    let ghost all = rows(lines@);
    let mut out: Vec<MailcapRecord> = Vec::new();
    let mut i: usize = 0;
    proof {
        assert(all.skip(0) =~= all);
        assert(record_views(out@) =~= Seq::<(Seq<char>, Seq<char>, bool)>::empty());
    }
    while i < lines.len()
        invariant
            i <= lines.len(),
            all == rows(lines@),
            all == lines_spec(content@),
            record_views(out@) + records_spec(all.skip(i as int)) == mailcap_records_spec(
                content@,
            ),
        decreases lines.len() - i,
    {
        let ghost rest = all.skip(i as int);
        let ghost before = record_views(out@);
        assert(rest[0] == lines@[i as int]@);
        let l = trim_chars(&lines[i]);
        let n = l.len();
        if n == 0 || l[0] == '#' {
            assert(rest.drop_first() =~= all.skip(i + 1));
            i = i + 1;
        } else {
            let mut joined = l.clone();
            let ghost next_rest: Seq<Seq<char>>;
            if l[n - 1] == '\\' {
                joined.pop();
                if i + 1 < lines.len() {
                    let mut k: usize = 0;
                    let ghost start = joined@;
                    while k < lines[i + 1].len()
                        invariant
                            i + 1 < lines.len(),
                            k <= lines[i + 1 as int]@.len(),
                            joined@ == start + lines[i + 1 as int]@.take(k as int),
                        decreases lines[i + 1 as int]@.len() - k,
                    {
                        joined.push(lines[i + 1][k]);
                        assert(lines[i + 1 as int]@.take(k + 1) =~= lines[i + 1 as int]@.take(
                            k as int,
                        ).push(lines[i + 1 as int]@[k as int]));
                        k = k + 1;
                    }
                    proof {
                        assert(lines[i + 1 as int]@.take(k as int) =~= lines[i + 1 as int]@);
                        assert(rest[1] == lines@[i + 1 as int]@);
                        assert(rest.skip(2) =~= all.skip(i + 2));
                        next_rest = all.skip(i + 2);
                    }
                    i = i + 2;
                } else {
                    proof {
                        assert(rest.len() == 1);
                        next_rest = Seq::empty();
                        assert(all.skip(i + 1) =~= Seq::<Seq<char>>::empty());
                    }
                    i = i + 1;
                }
            } else {
                proof {
                    assert(rest.drop_first() =~= all.skip(i + 1));
                    next_rest = all.skip(i + 1);
                }
                i = i + 1;
            }
            proof {
                assert(records_spec(rest) == prepend(record_spec(joined@), records_spec(next_rest)));
                assert(next_rest == all.skip(i as int));
            }
            match record_of(&joined) {
                Some(rec) => {
                    out.push(rec);
                    assert(record_views(out@) =~= before.push(out@.last()@));
                    assert(record_views(out@) + records_spec(next_rest) =~= before + (seq![
                        out@.last()@] + records_spec(next_rest)));
                },
                None => {},
            }
        }
    }
    proof {
        assert(all.skip(i as int) =~= Seq::<Seq<char>>::empty());
        assert(record_views(out@) + Seq::<(Seq<char>, Seq<char>, bool)>::empty() =~= record_views(
            out@,
        ));
    }
    out
}

/// Whether the content type `ct` is a prefix of `key`, the first of the two
/// tests that pick an entry.
pub open spec fn key_has_prefix(key: Seq<char>, ct: Seq<char>) -> bool {
    ct.is_prefix_of(key)
}

/// The entry of the first record, from `k` on, whose key starts with `ct`
/// or whose glob test came out true.
pub open spec fn select_from(
    recs: Seq<(Seq<char>, Seq<char>, bool)>,
    ct: Seq<char>,
    glob_hits: Seq<bool>,
    k: int,
) -> Option<(Seq<char>, bool)>
    decreases recs.len() - k,
{
    if k < 0 || k >= recs.len() {
        None
    } else if key_has_prefix(recs[k].0, ct) || glob_hits[k] {
        Some((recs[k].1, recs[k].2))
    } else {
        select_from(recs, ct, glob_hits, k + 1)
    }
}

/// The entry that the lookup picks, given the outcome of the glob test of
/// each record's key.
pub open spec fn select_spec(
    recs: Seq<(Seq<char>, Seq<char>, bool)>,
    ct: Seq<char>,
    glob_hits: Seq<bool>,
) -> Option<(Seq<char>, bool)> {
    select_from(recs, ct, glob_hits, 0)
}

/// Picks the entry of the first record whose key starts with
/// `content_type` or whose glob test (`glob_hits`, one outcome per record)
/// came out true.
pub fn select_mailcap_entry(
    records: &Vec<MailcapRecord>,
    content_type: &str,
    glob_hits: &Vec<bool>,
) -> (r: Option<MailcapEntry>)
    requires
        glob_hits.len() == records.len(),
    ensures
        entry_view(r) == select_spec(record_views(records@), content_type@, glob_hits@),
{
    let ct = chars_of(content_type);
    let ghost recs = record_views(records@);
    let mut k: usize = 0;
    while k < records.len()
        invariant
            k <= records.len(),
            glob_hits.len() == records.len(),
            ct@ == content_type@,
            recs == record_views(records@),
            select_spec(recs, content_type@, glob_hits@) == select_from(
                recs,
                content_type@,
                glob_hits@,
                k as int,
            ),
        decreases records.len() - k,
    {
        let key = chars_of(records[k].key.as_str());
        assert(recs[k as int] == records@[k as int]@);
        if starts_with_chars(&key, &ct) || glob_hits[k] {
            let command = string_of(&chars_of(records[k].entry.command.as_str()));
            return Some(MailcapEntry { command, copiousoutput: records[k].entry.copiousoutput });
        }
        k = k + 1;
    }
    None
}

/// A character that a glob pattern reads specially (`*`, `?`, `[`, `\\`).
pub open spec fn is_glob_special(c: char) -> bool {
    c == '*' || c == '?' || c == '[' || c == '\\'
}

/// ASCII text without NUL.
pub open spec fn ascii_text(s: Seq<char>) -> bool {
    forall|i: int| 0 <= i < s.len() ==> 0 < (#[trigger] s[i] as u32) < 128
}

/// ASCII text without NUL and without any character a glob reads
/// specially: a pattern of it matches only itself.
pub open spec fn plain_ascii(s: Seq<char>) -> bool {
    ascii_text(s) && forall|i: int| 0 <= i < s.len() ==> !is_glob_special(#[trigger] s[i])
}

/// What `fnmatch(3)` with `FNM_PERIOD`, as melib calls it, answers
/// whatever the locale, where that is fixed: `false` when either string
/// holds NUL (melib refuses them); for an ASCII name, a plain pattern
/// matches exactly itself, and a plain prefix followed by one `*` matches
/// the names that start with the prefix (an empty prefix not matching a
/// leading `.`). `None` where the answer rests on the locale or on more of
/// the glob language.
pub open spec fn glob_forced(name: Seq<char>, pattern: Seq<char>) -> Option<bool> {
    if name.contains('\0') || pattern.contains('\0') {
        Some(false)
    } else if !ascii_text(name) {
        None
    } else if plain_ascii(pattern) {
        Some(name == pattern)
    } else if pattern.len() > 0 && pattern.last() == '*' && plain_ascii(pattern.drop_last()) {
        let p = pattern.drop_last();
        Some(p.is_prefix_of(name) && (p.len() > 0 || name.len() == 0 || name[0] != '.'))
    } else {
        None
    }
}

/// Whether `r` can be the answer of the glob test of `name` against
/// `pattern`: it is the fixed answer where there is one.
pub open spec fn glob_consistent(name: Seq<char>, pattern: Seq<char>, r: bool) -> bool {
    glob_forced(name, pattern) matches Some(b) ==> r == b
}

/// An answer consistent with the glob test, for records whose test is
/// never run.
pub open spec fn glob_witness(name: Seq<char>, pattern: Seq<char>) -> bool {
    match glob_forced(name, pattern) {
        Some(b) => b,
        None => false,
    }
}

/// `Fnmatch::fnmatches` of melib: whether the glob `pattern` matches
/// `name`, by libc's `fnmatch(3)` with `FNM_PERIOD` (no other flag).
/// Claimed: the answer agrees with [`glob_forced`] where that fixes it:
/// melib answers `false` itself for strings holding NUL; on ASCII text a
/// pattern without `*`, `?`, `[` or `\\` compares literally, and a
/// trailing `*` matches any rest, a leading `.` of the name needing an
/// explicit `.` in the pattern. Bracket expressions, and text beyond
/// ASCII, are read by the locale of the process, so nothing is claimed
/// there.
#[verifier::external_body]
fn glob_matches(name: &str, pattern: &str) -> (r: bool)
    ensures
        glob_consistent(name@, pattern@, r),
{
    name.fnmatches(pattern)
}

/// Finds the first entry of the mailcap file `content` for `content_type`:
/// the first record whose key starts with the content type, or whose key
/// is a glob that matches it (the content type tested as the name against
/// the key as the pattern). Malformed lines are skipped.
pub fn lookup_mailcap_entry(content: &str, content_type: &str) -> (r: Option<MailcapEntry>)
    ensures
        exists|glob_hits: Seq<bool>|
            {
                &&& glob_hits.len() == mailcap_records_spec(content@).len()
                &&& forall|i: int|
                    0 <= i < glob_hits.len() ==> glob_consistent(
                        content_type@,
                        mailcap_records_spec(content@)[i].0,
                        #[trigger] glob_hits[i],
                    )
                &&& entry_view(r) == select_spec(
                    mailcap_records_spec(content@),
                    content_type@,
                    glob_hits,
                )
            },
{
    let records = mailcap_records(content);
    let ghost recs = record_views(records@);
    let mut hits: Vec<bool> = Vec::new();
    let mut k: usize = 0;
    while k < records.len()
        invariant
            k <= records.len(),
            hits.len() == k,
            recs == record_views(records@),
            recs == mailcap_records_spec(content@),
            forall|i: int|
                0 <= i < k ==> glob_consistent(content_type@, recs[i].0, #[trigger] hits@[i]),
            forall|i: int| 0 <= i < k ==> !key_has_prefix(#[trigger] recs[i].0, content_type@),
            forall|i: int| 0 <= i < k ==> !#[trigger] hits@[i],
        decreases records.len() - k,
    {
        assert(recs[k as int] == records@[k as int]@);
        let key = chars_of(records[k].key.as_str());
        let ct = chars_of(content_type);
        let prefixed = starts_with_chars(&key, &ct);
        let hit = if prefixed {
            false
        } else {
            glob_matches(content_type, records[k].key.as_str())
        };
        let ghost before_hits = hits@;
        hits.push(hit);
        if prefixed || hit {
            let ghost glob_hits = hits@ + Seq::new((records.len() - k - 1) as nat, |i: int| false);
            let ghost witness = Seq::new(
                recs.len(),
                |j: int|
                    if j < k {
                        before_hits[j]
                    } else if j == k && !prefixed {
                        hit
                    } else {
                        glob_witness(content_type@, recs[j].0)
                    },
            );
            let mut all_hits = hits.clone();
            while all_hits.len() < records.len()
                invariant
                    k < records.len(),
                    hits@.len() == k + 1,
                    hits@.len() <= all_hits@.len() <= records.len(),
                    glob_hits == hits@ + Seq::new((records.len() - k - 1) as nat, |i: int| false),
                    forall|i: int| 0 <= i < all_hits@.len() ==> all_hits@[i] == glob_hits[i],
                decreases records.len() - all_hits.len(),
            {
                all_hits.push(false);
                assert(glob_hits[all_hits@.len() - 1] == false);
            }
            assert(all_hits@ =~= glob_hits);
            proof {
                assert forall|j: int| 0 <= j <= k implies select_from(
                    recs,
                    content_type@,
                    glob_hits,
                    j,
                ) == select_from(recs, content_type@, glob_hits, k as int) by {
                    lemma_select_skip(recs, content_type@, glob_hits, j, k as int);
                }
                assert forall|i: int| 0 <= i < k implies !#[trigger] witness[i] by {
                    assert(witness[i] == before_hits[i]);
                }
                lemma_select_skip(recs, content_type@, witness, 0, k as int);
                assert(glob_hits[k as int] == hit);
                assert forall|i: int| 0 <= i < witness.len() implies glob_consistent(
                    content_type@,
                    recs[i].0,
                    #[trigger] witness[i],
                ) by {
                    if i < k {
                        assert(hits@[i] == before_hits[i]);
                    }
                }
            }
            let r = select_mailcap_entry(&records, content_type, &all_hits);
            assert(entry_view(r) == select_spec(recs, content_type@, witness));
            return r;
        }
        k = k + 1;
    }
    proof {
        let glob_hits = hits@;
        lemma_select_none(recs, content_type@, glob_hits, 0);
        assert(entry_view(None) == select_spec(recs, content_type@, glob_hits));
    }
    None
}

/// Records that pass neither test are stepped over.
proof fn lemma_select_skip(
    recs: Seq<(Seq<char>, Seq<char>, bool)>,
    ct: Seq<char>,
    glob_hits: Seq<bool>,
    j: int,
    k: int,
)
    requires
        0 <= j <= k < recs.len(),
        glob_hits.len() == recs.len(),
        forall|i: int| 0 <= i < k ==> !key_has_prefix(#[trigger] recs[i].0, ct),
        forall|i: int| 0 <= i < k ==> !#[trigger] glob_hits[i],
    ensures
        select_from(recs, ct, glob_hits, j) == select_from(recs, ct, glob_hits, k),
    decreases k - j,
{
    if j < k {
        assert(!key_has_prefix(recs[j].0, ct));
        assert(!glob_hits[j]);
        lemma_select_skip(recs, ct, glob_hits, j + 1, k);
    }
}

/// Where no record passes either test, nothing is picked.
proof fn lemma_select_none(
    recs: Seq<(Seq<char>, Seq<char>, bool)>,
    ct: Seq<char>,
    glob_hits: Seq<bool>,
    j: int,
)
    requires
        0 <= j <= recs.len(),
        glob_hits.len() == recs.len(),
        forall|i: int| 0 <= i < recs.len() ==> !key_has_prefix(#[trigger] recs[i].0, ct),
        forall|i: int| 0 <= i < recs.len() ==> !#[trigger] glob_hits[i],
    ensures
        select_from(recs, ct, glob_hits, j) is None,
    decreases recs.len() - j,
{
    if j < recs.len() {
        assert(!key_has_prefix(recs[j].0, ct));
        assert(!glob_hits[j]);
        lemma_select_none(recs, ct, glob_hits, j + 1);
    }
}

/// What a character of the value becomes inside single quotes: itself, or,
/// for a single quote, `'\''` (close, escaped quote, reopen).
pub open spec fn sq_piece(c: char) -> Seq<char> {
    if c == '\'' {
        seq!['\'', '\\', '\'', '\'']
    } else {
        seq![c]
    }
}

/// The characters of `s`, each as it stands inside single quotes.
pub open spec fn sq_body(s: Seq<char>) -> Seq<char>
    decreases s.len(),
{
    if s.len() == 0 {
        Seq::empty()
    } else {
        sq_piece(s[0]) + sq_body(s.drop_first())
    }
}

/// `s` quoted for a POSIX shell: wrapped in single quotes, each embedded
/// single quote written `'\''`.
pub open spec fn sq_quote(s: Seq<char>) -> Seq<char> {
    seq!['\''] + sq_body(s) + seq!['\'']
}

/// Quoting distributes over concatenation.
pub proof fn lemma_sq_body_concat(a: Seq<char>, b: Seq<char>)
    ensures
        sq_body(a + b) == sq_body(a) + sq_body(b),
    decreases a.len(),
{
    if a.len() == 0 {
        assert(a + b =~= b);
        assert(sq_body(a) + sq_body(b) =~= sq_body(b));
    } else {
        assert((a + b).drop_first() =~= a.drop_first() + b);
        lemma_sq_body_concat(a.drop_first(), b);
        assert(sq_body(a + b) =~= sq_piece(a[0]) + sq_body(a.drop_first() + b));
        assert(sq_body(a) + sq_body(b) =~= sq_piece(a[0]) + (sq_body(a.drop_first()) + sq_body(
            b,
        )));
    }
}

/// Quotes `s` for safe interpolation into a shell command line, with POSIX
/// single-quote semantics: the value is wrapped in `'...'` and each
/// embedded `'` becomes `'\''`.
pub fn quote_shell_word(s: &str) -> (r: String)
    ensures
        r@ == sq_quote(s@),
{
    let cs = chars_of(s);
    let mut ret = String::new();
    push_char(&mut ret, '\'');
    let mut i: usize = 0;
    proof {
        assert(cs@.take(0) =~= Seq::<char>::empty());
        assert(ret@ =~= seq!['\''] + sq_body(Seq::<char>::empty()));
    }
    while i < cs.len()
        invariant
            i <= cs.len(),
            cs@ == s@,
            ret@ == seq!['\''] + sq_body(cs@.take(i as int)),
        decreases cs.len() - i,
    {
        let c = cs[i];
        if c == '\'' {
            push_char(&mut ret, '\'');
            push_char(&mut ret, '\\');
            push_char(&mut ret, '\'');
            push_char(&mut ret, '\'');
        } else {
            push_char(&mut ret, c);
        }
        proof {
            lemma_sq_body_concat(cs@.take(i as int), seq![c]);
            assert(cs@.take(i + 1) =~= cs@.take(i as int) + seq![c]);
            let single = seq![c];
            assert(single.drop_first() =~= Seq::<char>::empty());
            assert(sq_body(single.drop_first()) =~= Seq::<char>::empty());
            assert(sq_body(single) == sq_piece(single[0]) + sq_body(single.drop_first()));
            assert(sq_body(single) =~= sq_piece(c));
        }
        i = i + 1;
    }
    push_char(&mut ret, '\'');
    proof {
        assert(cs@.take(cs.len() as int) =~= cs@);
    }
    ret
}

/// An argument of a mailcap command, as the command field writes it.
pub enum MailcapArg {
    /// Copied as it is.
    Literal(String),
    /// `%s`: the path of a temporary file that holds the attachment.
    TempFile,
    /// `%t`: the content type.
    ContentType,
    /// `%{name}`: the value of the content-type parameter `name`.
    Parameter(String),
}

/// What a [`MailcapArg`] is, over plain values.
pub enum ArgView {
    Literal(Seq<char>),
    TempFile,
    ContentType,
    Parameter(Seq<char>),
}

impl View for MailcapArg {
    type V = ArgView;

    open spec fn view(&self) -> ArgView {
        match self {
            MailcapArg::Literal(w) => ArgView::Literal(w@),
            MailcapArg::TempFile => ArgView::TempFile,
            MailcapArg::ContentType => ArgView::ContentType,
            MailcapArg::Parameter(n) => ArgView::Parameter(n@),
        }
    }
}

/// A mailcap command split into the program and its arguments; whether
/// the attachment goes to the program's standard input (it does unless a
/// `%s` hands it over as a file).
pub struct MailcapCommand {
    pub program: String,
    pub args: Vec<MailcapArg>,
    pub needs_stdin: bool,
}

/// The views of a sequence of arguments.
pub open spec fn arg_views(v: Seq<MailcapArg>) -> Seq<ArgView> {
    Seq::new(v.len(), |i: int| v[i]@)
}

/// What a word of the command field stands for.
pub open spec fn arg_spec(w: Seq<char>) -> ArgView {
    if w == seq!['%', 's'] {
        ArgView::TempFile
    } else if w == seq!['%', 't'] {
        ArgView::ContentType
    } else if w.len() >= 2 && w[0] == '%' && w[1] == '{' && w.last() == '}' {
        ArgView::Parameter(w.subrange(2, w.len() - 1))
    } else {
        ArgView::Literal(w)
    }
}

/// How the command field `command` splits into program and arguments;
/// `None` when it holds no word.
pub open spec fn plan_spec(command: Seq<char>) -> Option<(Seq<char>, Seq<ArgView>, bool)> {
    let words = words_spec(command);
    if words.len() == 0 {
        None
    } else {
        let args = Seq::new((words.len() - 1) as nat, |i: int| arg_spec(words[i + 1]));
        Some(
            (
                words[0],
                args,
                !exists|i: int| 0 <= i < args.len() && #[trigger] args[i] == ArgView::TempFile,
            ),
        )
    }
}

fn classify_word(w: &Vec<char>) -> (r: MailcapArg)
    ensures
        r@ == arg_spec(w@),
{
    let n = w.len();
    if n == 2 && w[0] == '%' && w[1] == 's' {
        assert(w@ =~= seq!['%', 's']);
        return MailcapArg::TempFile;
    }
    if n == 2 && w[0] == '%' && w[1] == 't' {
        assert(w@ =~= seq!['%', 't']);
        return MailcapArg::ContentType;
    }
    proof {
        if w@ == seq!['%', 's'] || w@ == seq!['%', 't'] {
            assert(w@.len() == 2);
        }
    }
    if n >= 2 && w[0] == '%' && w[1] == '{' && w[n - 1] == '}' {
        let mut name: Vec<char> = Vec::new();
        let mut k: usize = 2;
        while k < n - 1
            invariant
                n == w.len(),
                n >= 3,
                2 <= k <= n - 1,
                name@ == w@.subrange(2, k as int),
            decreases n - 1 - k,
        {
            name.push(w[k]);
            assert(name@ =~= w@.subrange(2, k + 1));
            k = k + 1;
        }
        return MailcapArg::Parameter(string_of(&name));
    }
    MailcapArg::Literal(string_of(w))
}

/// Splits the command field of a mailcap entry into the program and its
/// arguments; `None` when the field is blank (a malformed entry).
pub fn plan_mailcap_command(command: &str) -> (r: Option<MailcapCommand>)
    ensures
        match r {
            Some(p) => plan_spec(command@) == Some((p.program@, arg_views(p.args@), p.needs_stdin)),
            None => plan_spec(command@) is None,
        },
{
    let cs = chars_of(command);
    let words = split_words(&cs);
    if words.len() == 0 {
        return None;
    }
    let ghost ws = rows(words@);
    let ghost target = Seq::new((ws.len() - 1) as nat, |i: int| arg_spec(ws[i + 1]));
    let program = string_of(&words[0]);
    let mut args: Vec<MailcapArg> = Vec::new();
    let mut needs_stdin = true;
    let mut k: usize = 1;
    while k < words.len()
        invariant
            1 <= k <= words.len(),
            ws == rows(words@),
            target == Seq::new((ws.len() - 1) as nat, |i: int| arg_spec(ws[i + 1])),
            arg_views(args@) == target.take(k - 1),
            needs_stdin <==> !exists|i: int| 0 <= i < k - 1 && #[trigger] target[i] == ArgView::TempFile,
        decreases words.len() - k,
    {
        let a = classify_word(&words[k]);
        assert(ws[k as int] == words@[k as int]@);
        assert(target[k - 1] == a@);
        let is_temp = match a {
            MailcapArg::TempFile => true,
            _ => false,
        };
        assert(is_temp <==> a@ == ArgView::TempFile);
        if is_temp {
            needs_stdin = false;
        }
        let ghost before = arg_views(args@);
        args.push(a);
        assert(arg_views(args@) =~= before.push(target[k - 1]));
        assert(arg_views(args@) =~= target.take(k as int));
        k = k + 1;
    }
    assert(target.take(k - 1) =~= target);
    Some(MailcapCommand { program, args, needs_stdin })
}

/// How many `%s` arguments there are in `args`.
pub open spec fn temp_count(args: Seq<ArgView>) -> nat
    decreases args.len(),
{
    if args.len() == 0 {
        0
    } else {
        temp_count(args.drop_last()) + if args.last() == ArgView::TempFile {
            1nat
        } else {
            0nat
        }
    }
}

/// A prefix never holds more `%s` than a longer one.
pub proof fn lemma_temp_count_prefix(args: Seq<ArgView>, i: int, j: int)
    requires
        0 <= i <= j <= args.len(),
    ensures
        temp_count(args.take(i)) <= temp_count(args.take(j)),
    decreases j - i,
{
    if i < j {
        lemma_temp_count_prefix(args, i, j - 1);
        assert(args.take(j).drop_last() =~= args.take(j - 1));
    }
}

/// The value of the content-type parameter `name`: the first parameter
/// whose name is the UTF-8 of `name`; for an absent `charset`, `utf-8`;
/// else nothing.
pub open spec fn param_value(params: Seq<(Seq<u8>, Seq<char>)>, name: Seq<char>) -> Seq<char> {
    if exists|k: int| 0 <= k < params.len() && #[trigger] params[k].0 == encode_utf8(name) {
        let k = choose|k: int|
            0 <= k < params.len() && #[trigger] params[k].0 == encode_utf8(name) && forall|j: int|
                0 <= j < k ==> params[j].0 != encode_utf8(name);
        params[k].1
    } else if name == seq!['c', 'h', 'a', 'r', 's', 'e', 't'] {
        seq!['u', 't', 'f', '-', '8']
    } else {
        Seq::empty()
    }
}

/// What an argument turns into on the command line; `temp` is the path
/// for a `%s`.
pub open spec fn arg_value(
    a: ArgView,
    content_type: Seq<char>,
    params: Seq<(Seq<u8>, Seq<char>)>,
    temp: Seq<char>,
) -> Seq<char> {
    match a {
        ArgView::Literal(w) => w,
        ArgView::TempFile => sq_quote(temp),
        ArgView::ContentType => sq_quote(content_type),
        ArgView::Parameter(n) => sq_quote(param_value(params, n)),
    }
}

/// The values of all arguments, the `n`th `%s` taking the `n`th temporary
/// file.
pub open spec fn arg_values(
    args: Seq<ArgView>,
    content_type: Seq<char>,
    params: Seq<(Seq<u8>, Seq<char>)>,
    temps: Seq<Seq<char>>,
) -> Seq<Seq<char>> {
    Seq::new(
        args.len(),
        |i: int| arg_value(args[i], content_type, params, temps[temp_count(args.take(i)) as int]),
    )
}

/// The command line: the program, a space, and the argument values joined
/// by spaces.
pub open spec fn render_spec(
    program: Seq<char>,
    args: Seq<ArgView>,
    content_type: Seq<char>,
    params: Seq<(Seq<u8>, Seq<char>)>,
    temps: Seq<Seq<char>>,
) -> Seq<char> {
    program + seq![' '] + join_words(arg_values(args, content_type, params, temps))
}

/// The parameters as plain values.
pub open spec fn param_views(params: Seq<(Vec<u8>, String)>) -> Seq<(Seq<u8>, Seq<char>)> {
    Seq::new(params.len(), |i: int| (params[i].0@, params[i].1@))
}

/// The strings of a sequence of `String`s.
pub open spec fn string_views(v: Seq<String>) -> Seq<Seq<char>> {
    Seq::new(v.len(), |i: int| v[i]@)
}

fn lookup_param(params: &Vec<(Vec<u8>, String)>, name: &str) -> (r: String)
    ensures
        r@ == param_value(param_views(params@), name@),
{
    let ghost ps = param_views(params@);
    let key = name.as_bytes();
    let mut k: usize = 0;
    while k < params.len()
        invariant
            k <= params.len(),
            ps == param_views(params@),
            key@ == encode_utf8(name@),
            forall|j: int| 0 <= j < k ==> ps[j].0 != encode_utf8(name@),
        decreases params.len() - k,
    {
        let cand = &params[k].0;
        assert(ps[k as int].0 == cand@);
        let mut same = cand.len() == key.len();
        let mut j: usize = 0;
        while same && j < key.len()
            invariant
                same ==> cand.len() == key.len(),
                j <= key.len(),
                same <==> (cand.len() == key.len() && forall|q: int| 0 <= q < j ==> cand@[q] == key@[q]),
            decreases key.len() - j,
        {
            if cand[j] != key[j] {
                same = false;
            }
            j = j + 1;
        }
        if same {
            assert(cand@ =~= key@);
            let v = string_of(&chars_of(params[k].1.as_str()));
            proof {
                let kk = k as int;
                assert(0 <= kk < ps.len() && ps[kk].0 == encode_utf8(name@) && forall|jj: int|
                    0 <= jj < kk ==> ps[jj].0 != encode_utf8(name@));
                let c = choose|c: int|
                    0 <= c < ps.len() && #[trigger] ps[c].0 == encode_utf8(name@) && forall|jj: int|
                        0 <= jj < c ==> ps[jj].0 != encode_utf8(name@);
                if c < kk {
                } else if c > kk {
                    assert(ps[kk].0 != encode_utf8(name@));
                }
            }
            return v;
        } else {
            proof {
                if cand@ == key@ {
                    assert(cand.len() == key.len());
                    assert(forall|q: int| 0 <= q < j ==> cand@[q] == key@[q]);
                    assert(j < key.len() || !same);
                }
            }
        }
        k = k + 1;
    }
    proof {
        assert(!exists|j: int| 0 <= j < ps.len() && #[trigger] ps[j].0 == encode_utf8(name@)) by {
            if exists|j: int| 0 <= j < ps.len() && #[trigger] ps[j].0 == encode_utf8(name@) {
                let j = choose|j: int| 0 <= j < ps.len() && #[trigger] ps[j].0 == encode_utf8(name@);
                assert(ps[j].0 != encode_utf8(name@));
            }
        }
    }
    let cs = chars_of(name);
    let charset = chars_of("charset");
    proof {
        reveal_strlit("charset");
        reveal_strlit("utf-8");
        assert("charset"@ =~= seq!['c', 'h', 'a', 'r', 's', 'e', 't']);
        assert("utf-8"@ =~= seq!['u', 't', 'f', '-', '8']);
    }
    if chars_eq(&cs, &charset) {
        return string_of(&chars_of("utf-8"));
    }
    String::new()
}

/// Assembles the command line of a planned mailcap command: `%s` takes the
/// next of `temp_files`, `%t` the content type, `%{name}` the value of that
/// parameter, each quoted for the shell; other words stay as they are.
pub fn render_mailcap_command(
    plan: &MailcapCommand,
    content_type: &str,
    params: &Vec<(Vec<u8>, String)>,
    temp_files: &Vec<String>,
) -> (r: String)
    requires
        temp_files.len() == temp_count(arg_views(plan.args@)),
    ensures
        r@ == render_spec(
            plan.program@,
            arg_views(plan.args@),
            content_type@,
            param_views(params@),
            string_views(temp_files@),
        ),
{
    let ghost args = arg_views(plan.args@);
    let ghost temps = string_views(temp_files@);
    let ghost values = arg_values(args, content_type@, param_views(params@), temps);
    let mut out = string_of(&chars_of(plan.program.as_str()));
    push_char(&mut out, ' ');
    let mut used: usize = 0;
    let mut k: usize = 0;
    proof {
        assert(values.take(0) =~= Seq::<Seq<char>>::empty());
        assert(args.take(0) =~= Seq::<ArgView>::empty());
    }
    while k < plan.args.len()
        invariant
            k <= plan.args.len(),
            args == arg_views(plan.args@),
            temps == string_views(temp_files@),
            values == arg_values(args, content_type@, param_views(params@), temps),
            temp_files.len() == temp_count(args),
            used == temp_count(args.take(k as int)),
            out@ == plan.program@ + seq![' '] + join_words(values.take(k as int)),
        decreases plan.args.len() - k,
    {
        proof {
            lemma_temp_count_prefix(args, k + 1, args.len() as int);
            assert(args.take(args.len() as int) =~= args);
            assert(args.take(k + 1).drop_last() =~= args.take(k as int));
        }
        let value = match &plan.args[k] {
            MailcapArg::Literal(w) => string_of(&chars_of(w.as_str())),
            MailcapArg::TempFile => {
                let q = quote_shell_word(temp_files[used].as_str());
                used = used + 1;
                q
            },
            MailcapArg::ContentType => quote_shell_word(content_type),
            MailcapArg::Parameter(n) => {
                let v = lookup_param(params, n.as_str());
                quote_shell_word(v.as_str())
            },
        };
        let ghost prev = values.take(k as int);
        if k > 0 {
            push_char(&mut out, ' ');
        }
        out.append(value.as_str());
        proof {
            let next = values.take(k + 1);
            assert(next.drop_last() =~= prev);
            assert(next.last() == value@);
            if k == 0 {
                assert(next.len() == 1);
                assert(out@ =~= plan.program@ + seq![' '] + next[0]);
            } else {
                assert(out@ =~= plan.program@ + seq![' '] + (join_words(prev) + seq![' '] + value@));
            }
        }
        k = k + 1;
    }
    proof {
        assert(values.take(plan.args.len() as int) =~= values);
    }
    out
}

/// The error of a content type that no entry is for.
pub open spec fn not_found_msg() -> Seq<char> {
    "Not found"@
}

/// The error of an entry whose command field is blank.
pub open spec fn empty_command_msg(content_type: Seq<char>) -> Seq<char> {
    "Malformed mailcap entry for `"@ + content_type + "`: command is empty"@
}

/// What running a looked-up entry starts from: without an entry, the
/// `Not found` error; with an entry whose command is blank, the
/// malformed-entry error naming the content type; else the command's plan
/// and whether the entry's output goes through a pager
/// (`copiousoutput`).
pub fn entry_plan(entry: Option<MailcapEntry>, content_type: &str) -> (r: Result<
    (MailcapCommand, bool),
    String,
>)
    ensures
        match entry {
            None => r matches Err(e) && e@ == not_found_msg(),
            Some(en) => match plan_spec(en.command@) {
                None => r matches Err(e) && e@ == empty_command_msg(content_type@),
                Some(p) => r matches Ok((c, copious)) && (c.program@, arg_views(c.args@), c.needs_stdin)
                    == p && copious == en.copiousoutput,
            },
        },
{
    match entry {
        None => Err(String::from_str("Not found")),
        Some(en) => match plan_mailcap_command(en.command.as_str()) {
            None => {
                let mut e = String::from_str("Malformed mailcap entry for `");
                e.append(content_type);
                e.append("`: command is empty");
                Err(e)
            },
            Some(c) => Ok((c, en.copiousoutput)),
        },
    }
}

} // verus!
