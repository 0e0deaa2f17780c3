//! The built-in HTML renderer of the mail view: untrusted HTML is cleaned
//! by `ammonia` against an allow-list, every kept attribute value and the
//! whole fragment lose their invisible padding, and `html2text` turns the
//! result into plain text.
use vstd::prelude::*;
use crate::text::{chars_of, is_whitespace, is_control, is_whitespace_spec, is_control_spec, string_of};

verus! {

/// Whether `c` is padding that the renderer trims: Unicode white space,
/// control characters, and the invisible format characters (soft hyphen,
/// Arabic letter mark, Mongolian vowel separator, zero-width and
/// direction marks, bidirectional embeddings and isolates, word joiner,
/// invisible operators, byte-order mark).
pub open spec fn trim_predicate_spec(c: char) -> bool {
    let v = c as u32;
    is_whitespace_spec(c) || is_control_spec(c) || v == 0xAD || v == 0x61C || v == 0x180E
        || (0x200B <= v <= 0x200F) || (0x202A <= v <= 0x202E) || v == 0x2060 || (0x2061 <= v
        <= 0x2064) || (0x2066 <= v <= 0x2069) || v == 0xFEFF
}

/// Whether `c` is padding that the renderer trims.
pub fn trim_predicate(c: char) -> (r: bool)
    ensures
        r == trim_predicate_spec(c),
{
    let v = c as u32;
    is_whitespace(c) || is_control(c) || v == 0xAD || v == 0x61C || v == 0x180E || (0x200B <= v
        && v <= 0x200F) || (0x202A <= v && v <= 0x202E) || v == 0x2060 || (0x2061 <= v && v
        <= 0x2064) || (0x2066 <= v && v <= 0x2069) || v == 0xFEFF
}

/// The number of padding characters at the start of `s`.
pub open spec fn lead(s: Seq<char>) -> nat
    decreases s.len(),
{
    if s.len() > 0 && trim_predicate_spec(s[0]) {
        1 + lead(s.drop_first())
    } else {
        0
    }
}

/// The number of padding characters at the end of `s`.
pub open spec fn trail(s: Seq<char>) -> nat
    decreases s.len(),
{
    if s.len() > 0 && trim_predicate_spec(s.last()) {
        1 + trail(s.drop_last())
    } else {
        0
    }
}

/// `s` without its leading and its trailing padding.
pub open spec fn trim_invisible_spec(s: Seq<char>) -> Seq<char> {
    let t = s.skip(lead(s) as int);
    t.take(t.len() - trail(t))
}

proof fn lemma_lead(s: Seq<char>, k: int)
    requires
        0 <= k <= s.len(),
        forall|i: int| 0 <= i < k ==> trim_predicate_spec(#[trigger] s[i]),
    ensures
        lead(s) == k + lead(s.skip(k)),
        lead(s) <= s.len(),
    decreases k,
{
    lemma_lead_bound(s);
    if k > 0 {
        let d = s.drop_first();
        assert forall|i: int| 0 <= i < k - 1 implies trim_predicate_spec(#[trigger] d[i]) by {
            assert(d[i] == s[i + 1]);
        }
        lemma_lead(d, k - 1);
        assert(d.skip(k - 1) =~= s.skip(k));
    } else {
        assert(s.skip(0) =~= s);
    }
}

proof fn lemma_lead_bound(s: Seq<char>)
    ensures
        lead(s) <= s.len(),
    decreases s.len(),
{
    if s.len() > 0 {
        lemma_lead_bound(s.drop_first());
    }
}

proof fn lemma_trail(s: Seq<char>, k: int)
    requires
        0 <= k <= s.len(),
        forall|i: int| s.len() - k <= i < s.len() ==> trim_predicate_spec(#[trigger] s[i]),
    ensures
        trail(s) == k + trail(s.take(s.len() - k)),
        trail(s) <= s.len(),
    decreases k,
{
    lemma_trail_bound(s);
    if k > 0 {
        let d = s.drop_last();
        assert forall|i: int| d.len() - (k - 1) <= i < d.len() implies trim_predicate_spec(#[trigger] d[i]) by {
            assert(d[i] == s[i]);
        }
        lemma_trail(d, k - 1);
        assert(d.take(d.len() - (k - 1)) =~= s.take(s.len() - k));
    } else {
        assert(s.take(s.len() as int) =~= s);
    }
}

proof fn lemma_trail_bound(s: Seq<char>)
    ensures
        trail(s) <= s.len(),
    decreases s.len(),
{
    if s.len() > 0 {
        lemma_trail_bound(s.drop_last());
    }
}

proof fn lemma_lead_stops(s: Seq<char>)
    ensures
        lead(s) <= s.len(),
        lead(s) < s.len() ==> !trim_predicate_spec(s[lead(s) as int]),
        forall|i: int| 0 <= i < lead(s) ==> trim_predicate_spec(#[trigger] s[i]),
    decreases s.len(),
{
    if s.len() > 0 && trim_predicate_spec(s[0]) {
        let d = s.drop_first();
        lemma_lead_stops(d);
        assert forall|i: int| 0 <= i < lead(s) implies trim_predicate_spec(#[trigger] s[i]) by {
            if i > 0 {
                assert(s[i] == d[i - 1]);
            }
        }
    }
}

proof fn lemma_trail_stops(s: Seq<char>)
    ensures
        trail(s) <= s.len(),
        trail(s) < s.len() ==> !trim_predicate_spec(s[s.len() - 1 - trail(s)]),
        forall|i: int| s.len() - trail(s) <= i < s.len() ==> trim_predicate_spec(#[trigger] s[i]),
    decreases s.len(),
{
    if s.len() > 0 && trim_predicate_spec(s.last()) {
        let d = s.drop_last();
        lemma_trail_stops(d);
        assert forall|i: int| s.len() - trail(s) <= i < s.len() implies trim_predicate_spec(#[trigger] s[i]) by {
            if i < s.len() - 1 {
                assert(s[i] == d[i]);
            }
        }
    }
}

/// Trimming leaves no padding at either end, takes out nothing but
/// padding, and keeps the characters between in order: the result is a
/// piece of `s`, everything before it and after it is padding, and
/// trimming again changes nothing.
pub proof fn law_trim_leaves_no_padding(s: Seq<char>)
    ensures
        ({
            let t = trim_invisible_spec(s);
            let a = lead(s) as int;
            &&& t.len() > 0 ==> !trim_predicate_spec(t[0]) && !trim_predicate_spec(t.last())
            &&& 0 <= a && a + t.len() <= s.len()
            &&& t == s.subrange(a, a + t.len())
            &&& forall|i: int| 0 <= i < a ==> trim_predicate_spec(#[trigger] s[i])
            &&& forall|i: int| a + t.len() <= i < s.len() ==> trim_predicate_spec(#[trigger] s[i])
            &&& trim_invisible_spec(t) == t
        }),
{
    lemma_lead_stops(s);
    let a = lead(s) as int;
    let u = s.skip(a);
    lemma_trail_stops(u);
    let t = u.take(u.len() - trail(u));
    if t.len() > 0 {
        assert(t[0] == u[0]);
        assert(u[0] == s[a]);
        assert(t.last() == u[u.len() - 1 - trail(u)]);
    }
    assert(t =~= s.subrange(a, a + t.len()));
    assert forall|i: int| a + t.len() <= i < s.len() implies trim_predicate_spec(#[trigger] s[i]) by {
        assert(s[i] == u[i - a]);
    }
    lemma_lead_stops(t);
    if t.len() > 0 {
        assert(lead(t) == 0);
    } else {
        assert(lead(t) == 0);
    }
    assert(t.skip(0) =~= t);
    lemma_trail_stops(t);
    if t.len() > 0 {
        assert(trail(t) == 0);
    }
    assert(t.take(t.len() as int) =~= t);
}

/// `s` without its leading and its trailing padding
/// (`str::trim_matches` with [`trim_predicate`]).
pub fn trim_invisible(s: &str) -> (r: String)
    ensures
        r@ == trim_invisible_spec(s@),
{
    let cs = chars_of(s);
    let mut lo: usize = 0;
    while lo < cs.len() && trim_predicate(cs[lo])
        invariant
            lo <= cs@.len(),
            cs@ == s@,
            forall|i: int| 0 <= i < lo ==> trim_predicate_spec(#[trigger] cs@[i]),
        decreases cs@.len() - lo,
    {
        lo = lo + 1;
    }
    proof {
        lemma_lead(s@, lo as int);
        if lo < cs@.len() {
            assert(!trim_predicate_spec(s@.skip(lo as int)[0]));
        }
        assert(lead(s@.skip(lo as int)) == 0);
    }
    let ghost t = s@.skip(lo as int);
    let mut hi: usize = cs.len();
    while hi > lo && trim_predicate(cs[hi - 1])
        invariant
            lo <= hi <= cs@.len(),
            cs@ == s@,
            t == s@.skip(lo as int),
            forall|i: int| hi <= i < cs@.len() ==> trim_predicate_spec(#[trigger] cs@[i]),
        decreases hi - lo,
    {
        hi = hi - 1;
    }
    proof {
        let k = cs@.len() - hi;
        assert forall|i: int| t.len() - k <= i < t.len() implies trim_predicate_spec(#[trigger] t[i]) by {
            assert(t[i] == s@[i + lo]);
        }
        lemma_trail(t, k);
        let u = t.take(t.len() - k);
        if u.len() > 0 {
            assert(u.last() == s@[hi - 1]);
        }
        assert(trail(u) == 0);
    }
    let mut out: Vec<char> = Vec::new();
    let mut k: usize = lo;
    while k < hi
        invariant
            lo <= k <= hi <= cs@.len(),
            out@ == cs@.subrange(lo as int, k as int),
        decreases hi - k,
    {
        out.push(cs[k]);
        assert(out@ =~= cs@.subrange(lo as int, k + 1));
        k = k + 1;
    }
    assert(out@ =~= trim_invisible_spec(s@));
    string_of(&out)
}


/// What `url::Url::parse` makes of `s`: `Ok` with the scheme of the URL
/// it parses, `Err(true)` for a relative URL without a base, `Err(false)`
/// for any other parse error.
pub uninterp spec fn url_parse_result(s: Seq<char>) -> Result<Seq<char>, bool>;

/// Calls `url::Url::parse` on `value`. Claimed: the outcome is
/// [`url_parse_result`] of `value`, a function of the text alone, with the
/// URL's scheme (`Url::scheme`) on success and the error told apart only
/// as `RelativeUrlWithoutBase` or not.
#[verifier::external_body]
fn parse_url(value: &str) -> (r: Result<String, bool>)
    ensures
        match r {
            Ok(scheme) => url_parse_result(value@) == Ok::<Seq<char>, bool>(scheme@),
            Err(relative) => url_parse_result(value@) == Err::<Seq<char>, bool>(relative),
        },
{
    match url::Url::parse(value) {
        Ok(u) => Ok(u.scheme().to_string()),
        Err(url::ParseError::RelativeUrlWithoutBase) => Err(true),
        Err(_) => Err(false),
    }
}

/// Whether a parse outcome is a link the renderer keeps: a URL with one of
/// the allowed schemes, or a relative URL.
pub open spec fn url_outcome_is_safe_spec(p: Result<Seq<char>, bool>) -> bool {
    match p {
        Ok(scheme) => scheme == "http"@ || scheme == "https"@ || scheme == "mailto"@,
        Err(relative) => relative,
    }
}

/// Whether a parse outcome is a link the renderer keeps: a URL whose
/// scheme is `http`, `https` or `mailto`, or a relative URL without a
/// base.
pub fn url_outcome_is_safe(p: &Result<String, bool>) -> (r: bool)
    ensures
        r == url_outcome_is_safe_spec(match p {
            Ok(s) => Ok::<Seq<char>, bool>(s@),
            Err(b) => Err::<Seq<char>, bool>(*b),
        }),
{
    match p {
        Ok(scheme) => {
            let http = "http".to_owned();
            let https = "https".to_owned();
            let mailto = "mailto".to_owned();
            *scheme == http || *scheme == https || *scheme == mailto
        },
        Err(relative) => *relative,
    }
}

/// Whether `value` is a link the renderer keeps, checked again after
/// trimming.
pub fn is_safe_url(value: &str) -> (r: bool)
    ensures
        r == url_outcome_is_safe_spec(url_parse_result(value@)),
{
    let p = parse_url(value);
    url_outcome_is_safe(&p)
}

/// What becomes of an attribute value that the cleaner keeps: `None` drops
/// the attribute. A value without padding stays as it is; a value that is
/// all padding is dropped; an `href` that is no safe link once trimmed is
/// dropped; any other value is kept trimmed.
pub open spec fn filter_attribute_spec(attr: Seq<char>, value: Seq<char>) -> Option<Seq<char>> {
    let t = trim_invisible_spec(value);
    if t.len() == value.len() {
        Some(value)
    } else if t.len() == 0 {
        None
    } else if attr == "href"@ && !url_outcome_is_safe_spec(url_parse_result(t)) {
        None
    } else {
        Some(t)
    }
}

/// The filter run on every attribute value the cleaner keeps, as
/// [`filter_attribute_spec`] states it.
pub fn filter_attribute(attr: &str, value: &str) -> (r: Option<String>)
    ensures
        match r {
            Some(s) => filter_attribute_spec(attr@, value@) == Some(s@),
            None => filter_attribute_spec(attr@, value@) is None,
        },
{
    let trimmed = trim_invisible(value);
    let tlen = chars_of(trimmed.as_str()).len();
    let vlen = chars_of(value).len();
    if tlen == vlen {
        return Some(value.to_owned());
    }
    if tlen == 0 {
        return None;
    }
    let name = attr.to_owned();
    let href = "href".to_owned();
    if name == href && !is_safe_url(trimmed.as_str()) {
        return None;
    }
    Some(trimmed)
}

/// A value the filter keeps has no padding at either end, and an `href`
/// that trimming changed is kept only when it is a link the renderer
/// allows: trimming never turns a harmless value into a live link of
/// another scheme.
pub proof fn law_kept_attribute_is_trimmed_and_safe(attr: Seq<char>, value: Seq<char>)
    ensures
        match filter_attribute_spec(attr, value) {
            Some(v) => v.len() > 0 ==> !trim_predicate_spec(v[0]) && !trim_predicate_spec(v.last()),
            None => true,
        },
        attr == "href"@ ==> match filter_attribute_spec(attr, value) {
            Some(v) => v != value ==> url_outcome_is_safe_spec(url_parse_result(v)),
            None => true,
        },
{
    law_trim_leaves_no_padding(value);
    let t = trim_invisible_spec(value);
    if t.len() == value.len() {
        lemma_lead_stops(value);
        assert(lead(value) == 0) by {
            if lead(value) > 0 {
                assert(t.len() <= value.len() - lead(value));
            }
        }
        assert(t =~= value);
    }
}

/// What `ammonia` makes of `input` when it keeps only the tags `tags`,
/// on tag `attr_tag` only the attributes `tag_attributes`, only the URL
/// schemes `schemes`, strips comments when `strip_comments` holds, and
/// runs [`filter_attribute`] on every kept attribute; every other setting
/// of its `Builder` is left at its default.
pub uninterp spec fn ammonia_cleaned(
    input: Seq<char>,
    tags: Seq<Seq<char>>,
    attr_tag: Seq<char>,
    tag_attributes: Seq<Seq<char>>,
    schemes: Seq<Seq<char>>,
    strip_comments: bool,
) -> Seq<char>;

/// Calls `ammonia::Builder::clean` with the settings given and
/// [`filter_attribute`] as its attribute filter, and serialises the
/// document. Claimed: the output is [`ammonia_cleaned`] of the arguments,
/// a function of them alone. The builder asserts (and so panics) when a
/// tag whose content it strips by default (`script`, `style`) is also
/// allowed or given attributes, and when `rel` is allowed on `a` while it
/// sets `rel` on links itself (its default): those inputs are excluded.
#[verifier::external_body]
fn ammonia_clean(
    input: &str,
    tags: &Vec<&str>,
    attr_tag: &str,
    tag_attributes: &Vec<&str>,
    schemes: &Vec<&str>,
    strip_comments: bool,
) -> (r: String)
    requires
        !tags.deep_view().contains("script"@),
        !tags.deep_view().contains("style"@),
        attr_tag@ != "script"@,
        attr_tag@ != "style"@,
        attr_tag@ == "a"@ ==> !tag_attributes.deep_view().contains("rel"@),
    ensures
        r@ == ammonia_cleaned(input@, tags.deep_view(), attr_tag@, tag_attributes.deep_view(), schemes.deep_view(), strip_comments),
{
    let mut attrs = std::collections::HashMap::new();
    attrs.insert(attr_tag, tag_attributes.iter().copied().collect());
    ammonia::Builder::default()
        .tags(tags.iter().copied().collect())
        .tag_attributes(attrs)
        .url_schemes(schemes.iter().copied().collect())
        .strip_comments(strip_comments)
        .attribute_filter(|_, attr, value| filter_attribute(attr, value).map(std::borrow::Cow::Owned))
        .clean(input)
        .to_string()
}

/// The tags the renderer keeps.
pub open spec fn kept_tags() -> Seq<Seq<char>> {
    seq![
        "a"@, "b"@, "blockquote"@, "br"@, "code"@, "em"@, "h1"@, "h2"@, "h3"@, "h4"@, "h5"@,
        "h6"@, "hr"@, "i"@, "li"@, "ol"@, "p"@, "pre"@, "strong"@, "table"@, "td"@, "th"@,
        "tr"@, "ul"@,
    ]
}

/// The cleaned form of `input`, as [`sanitize`] makes it.
pub open spec fn sanitize_spec(input: Seq<char>) -> Seq<char> {
    trim_invisible_spec(
        ammonia_cleaned(
            input,
            kept_tags(),
            "a"@,
            seq!["href"@, "title"@],
            seq!["http"@, "https"@, "mailto"@],
            true,
        ),
    )
}

/// Cleans untrusted HTML: `ammonia` keeps the tags of [`kept_tags`],
/// `href` and `title` on links, the schemes `http`, `https` and `mailto`,
/// and no comments; then the fragment loses its leading and trailing
/// padding.
pub fn sanitize(input: &str) -> (r: String)
    ensures
        r@ == sanitize_spec(input@),
{
    let tags: Vec<&str> = vec![
        "a", "b", "blockquote", "br", "code", "em", "h1", "h2", "h3", "h4", "h5", "h6", "hr",
        "i", "li", "ol", "p", "pre", "strong", "table", "td", "th", "tr", "ul",
    ];
    let attrs: Vec<&str> = vec!["href", "title"];
    let schemes: Vec<&str> = vec!["http", "https", "mailto"];
    assert(tags.deep_view() =~= kept_tags());
    assert(attrs.deep_view() =~= seq!["href"@, "title"@]);
    assert(schemes.deep_view() =~= seq!["http"@, "https"@, "mailto"@]);
    proof {
        reveal_strlit("a");
        reveal_strlit("b");
        reveal_strlit("blockquote");
        reveal_strlit("br");
        reveal_strlit("code");
        reveal_strlit("em");
        reveal_strlit("h1");
        reveal_strlit("h2");
        reveal_strlit("h3");
        reveal_strlit("h4");
        reveal_strlit("h5");
        reveal_strlit("h6");
        reveal_strlit("hr");
        reveal_strlit("i");
        reveal_strlit("li");
        reveal_strlit("ol");
        reveal_strlit("p");
        reveal_strlit("pre");
        reveal_strlit("strong");
        reveal_strlit("table");
        reveal_strlit("td");
        reveal_strlit("th");
        reveal_strlit("tr");
        reveal_strlit("ul");
        reveal_strlit("script");
        reveal_strlit("style");
        reveal_strlit("rel");
        reveal_strlit("href");
        reveal_strlit("title");
        assert(kept_tags()[0].len() != "script"@.len());
        assert(kept_tags()[1].len() != "script"@.len());
        assert(kept_tags()[2].len() != "script"@.len());
        assert(kept_tags()[3].len() != "script"@.len());
        assert(kept_tags()[4].len() != "script"@.len());
        assert(kept_tags()[5].len() != "script"@.len());
        assert(kept_tags()[6].len() != "script"@.len());
        assert(kept_tags()[7].len() != "script"@.len());
        assert(kept_tags()[8].len() != "script"@.len());
        assert(kept_tags()[9].len() != "script"@.len());
        assert(kept_tags()[10].len() != "script"@.len());
        assert(kept_tags()[11].len() != "script"@.len());
        assert(kept_tags()[12].len() != "script"@.len());
        assert(kept_tags()[13].len() != "script"@.len());
        assert(kept_tags()[14].len() != "script"@.len());
        assert(kept_tags()[15].len() != "script"@.len());
        assert(kept_tags()[16].len() != "script"@.len());
        assert(kept_tags()[17].len() != "script"@.len());
        assert(kept_tags()[18][1] != "script"@[1]);
        assert(kept_tags()[19].len() != "script"@.len());
        assert(kept_tags()[20].len() != "script"@.len());
        assert(kept_tags()[21].len() != "script"@.len());
        assert(kept_tags()[22].len() != "script"@.len());
        assert(kept_tags()[23].len() != "script"@.len());
        assert(!kept_tags().contains("script"@)) by {
            if kept_tags().contains("script"@) {
                let j = choose|j: int| 0 <= j < kept_tags().len() && kept_tags()[j] == "script"@;
                assert(kept_tags()[j] == "script"@);
            }
        }
        assert(kept_tags()[0].len() != "style"@.len());
        assert(kept_tags()[1].len() != "style"@.len());
        assert(kept_tags()[2].len() != "style"@.len());
        assert(kept_tags()[3].len() != "style"@.len());
        assert(kept_tags()[4].len() != "style"@.len());
        assert(kept_tags()[5].len() != "style"@.len());
        assert(kept_tags()[6].len() != "style"@.len());
        assert(kept_tags()[7].len() != "style"@.len());
        assert(kept_tags()[8].len() != "style"@.len());
        assert(kept_tags()[9].len() != "style"@.len());
        assert(kept_tags()[10].len() != "style"@.len());
        assert(kept_tags()[11].len() != "style"@.len());
        assert(kept_tags()[12].len() != "style"@.len());
        assert(kept_tags()[13].len() != "style"@.len());
        assert(kept_tags()[14].len() != "style"@.len());
        assert(kept_tags()[15].len() != "style"@.len());
        assert(kept_tags()[16].len() != "style"@.len());
        assert(kept_tags()[17].len() != "style"@.len());
        assert(kept_tags()[18].len() != "style"@.len());
        assert(kept_tags()[19][0] != "style"@[0]);
        assert(kept_tags()[20].len() != "style"@.len());
        assert(kept_tags()[21].len() != "style"@.len());
        assert(kept_tags()[22].len() != "style"@.len());
        assert(kept_tags()[23].len() != "style"@.len());
        assert(!kept_tags().contains("style"@)) by {
            if kept_tags().contains("style"@) {
                let j = choose|j: int| 0 <= j < kept_tags().len() && kept_tags()[j] == "style"@;
                assert(kept_tags()[j] == "style"@);
            }
        }
        let attr_names = seq!["href"@, "title"@];
        assert(attr_names[0].len() != "rel"@.len());
        assert(attr_names[1].len() != "rel"@.len());
        assert(!attr_names.contains("rel"@)) by {
            if attr_names.contains("rel"@) {
                let j = choose|j: int| 0 <= j < attr_names.len() && attr_names[j] == "rel"@;
                assert(attr_names[j] == "rel"@);
            }
        }
    }
    let cleaned = ammonia_clean(input, &tags, "a", &attrs, &schemes, true);
    trim_invisible(cleaned.as_str())
}


/// What `String::from_utf8_lossy` makes of `bytes`.
pub uninterp spec fn utf8_lossy(bytes: Seq<u8>) -> Seq<char>;

/// Calls `String::from_utf8_lossy`. Claimed: the text is
/// [`utf8_lossy`] of the bytes, a function of them alone.
#[verifier::external_body]
fn decode_lossy(bytes: &[u8]) -> (r: String)
    ensures
        r@ == utf8_lossy(bytes@),
{
    String::from_utf8_lossy(bytes).into_owned()
}

/// The error of `html2text`.
#[verifier::external_type_specification]
#[verifier::external_body]
pub struct ExHtml2TextError(html2text::Error);

/// What `html2text`'s plain configuration (decorated, with link
/// footnotes) renders of `html` at `width` columns: `None` where it fails.
pub uninterp spec fn html2text_plain(html: Seq<char>, width: usize) -> Option<Seq<char>>;

/// Calls `html2text::config::plain().string_from_read` on the bytes of
/// `html`. Claimed: it succeeds with text `s` exactly when
/// [`html2text_plain`] of the arguments is `Some(s)`, a function of them
/// alone.
#[verifier::external_body]
fn html_to_text(html: &str, width: usize) -> (r: Result<String, html2text::Error>)
    ensures
        match r {
            Ok(s) => html2text_plain(html@, width) == Some(s@),
            Err(_) => html2text_plain(html@, width) is None,
        },
{
    html2text::config::plain().string_from_read(html.as_bytes(), width)
}

/// The renderer could not turn the HTML into text.
#[derive(Debug, PartialEq, Eq)]
pub struct RenderError {}

impl RenderError {
    /// The message shown for the error.
    pub fn summary(&self) -> (r: &'static str)
        ensures
            r@ == "Could not render html to text"@,
    {
        "Could not render html to text"
    }
}

/// The outcome of the text rendering, with its error replaced by the
/// library's.
pub fn render_outcome(res: Result<String, html2text::Error>) -> (r: Result<String, RenderError>)
    ensures
        match res {
            Ok(s) => r == Ok::<String, RenderError>(s),
            Err(_) => r is Err,
        },
{
    match res {
        Ok(s) => Ok(s),
        Err(_) => Err(RenderError {}),
    }
}

/// Cleans HTML `bytes` (decoded lossily) and renders them to plain text
/// `width` columns wide; fails only where the text rendering fails.
pub fn render(bytes: &[u8], width: usize) -> (r: Result<String, RenderError>)
    ensures
        match r {
            Ok(s) => html2text_plain(sanitize_spec(utf8_lossy(bytes@)), width) == Some(s@),
            Err(_) => html2text_plain(sanitize_spec(utf8_lossy(bytes@)), width) is None,
        },
{
    let text = decode_lossy(bytes);
    let html = sanitize(text.as_str());
    render_outcome(html_to_text(html.as_str(), width))
}

} // verus!
