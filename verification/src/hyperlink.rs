//! OSC 8 hyperlinks: text that the terminal shows as a link to a URL.
use vstd::prelude::*;
use vstd::string::*;

verus! {

broadcast use vstd::string::group_string_axioms;

/// A hyperlink: `text` linking to `url`, with an optional `id` (empty for
/// none) that lets the terminal join pieces of one link.
#[derive(Clone, Copy, Debug)]
pub struct Hyperlink<'a> {
    pub id: &'a str,
    pub text: &'a str,
    pub url: &'a str,
}

/// The sequence that opens a link: `ESC ] 8 ; params ; url BEL`, where the
/// parameters are `id=` and the id when there is one.
pub open spec fn osc8_start(id: Seq<char>, url: Seq<char>) -> Seq<char> {
    "\x1b]8;"@ + (if id.len() > 0 {
        "id="@ + id
    } else {
        Seq::empty()
    }) + ";"@ + url + "\x07"@
}

/// The sequence that closes a link.
pub open spec fn osc8_end() -> Seq<char> {
    "\x1b]8;;\x07"@
}

impl<'a> Hyperlink<'a> {
    /// `text` linking to `url`, without an id.
    pub fn new(text: &'a str, url: &'a str) -> (r: Self)
        ensures
            r.id@.len() == 0,
            r.text@ == text@,
            r.url@ == url@,
    {
        proof {
            reveal_strlit("");
        }
        Hyperlink { id: "", text, url }
    }

    /// `text` linking to `url`, with the id `id`.
    pub fn with_id(id: &'a str, text: &'a str, url: &'a str) -> (r: Self)
        ensures
            r.id@ == id@,
            r.text@ == text@,
            r.url@ == url@,
    {
        Hyperlink { id, text, url }
    }

    /// The sequence that opens the link.
    pub fn start(&self) -> (r: String)
        ensures
            r@ == osc8_start(self.id@, self.url@),
    {
        let mut s = String::from_str("\x1b]8;");
        if self.id.unicode_len() > 0 {
            s.append("id=");
            s.append(self.id);
        }
        s.append(";");
        s.append(self.url);
        s.append("\x07");
        proof {
            if self.id@.len() > 0 {
                assert(s@ =~= osc8_start(self.id@, self.url@));
            } else {
                assert(s@ =~= osc8_start(self.id@, self.url@));
            }
        }
        s
    }

    /// The sequence that closes a link.
    pub fn end() -> (r: String)
        ensures
            r@ == osc8_end(),
    {
        String::from_str("\x1b]8;;\x07")
    }

    /// The link as the terminal receives it: the opening sequence, the
    /// text, the closing sequence.
    pub fn to_string(&self) -> (r: String)
        ensures
            r@ == osc8_start(self.id@, self.url@) + self.text@ + osc8_end(),
    {
        let mut s = self.start();
        s.append(self.text);
        let e = Self::end();
        s.append(e.as_str());
        s
    }
}

} // verus!
