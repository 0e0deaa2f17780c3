//! Decisions of the mail and thread views: the reply actions a view can be
//! opened with, and how arrow keys move the focus along the pane chain.
use vstd::prelude::*;
use vstd::string::*;
use crate::bridge::ascii_lowercase;
use crate::text::chars_of;

verus! {

/// An action to run once the mail view has loaded its message.
#[derive(Clone, Copy, Debug, PartialEq, Eq, Structural)]
pub enum PendingReplyAction {
    Reply,
    ReplyToAuthor,
    ReplyToAll,
    ForwardAttachment,
    ForwardInline,
}

/// Which pane of the thread view has the focus; `Unfocused` is neither
/// the thread list nor the mail (the listing's grid keeps the focus).
#[derive(Clone, Copy, Debug, PartialEq, Eq, Structural)]
pub enum ThreadViewFocus {
    Unfocused,
    Thread,
    MailView,
}

impl Default for ThreadViewFocus {
    fn default() -> (r: Self)
        ensures
            r == ThreadViewFocus::Unfocused,
    {
        ThreadViewFocus::Unfocused
    }
}

/// The direction of an arrow key along the pane chain.
#[derive(Clone, Copy, Debug, PartialEq, Eq, Structural)]
pub enum FocusDirection {
    Left,
    Right,
}

/// The outcome of one step along the pane chain: move the focus, keep it
/// and consume the key, or let the key through to the listing around the
/// view.
#[derive(Clone, Copy, Debug, PartialEq, Eq, Structural)]
pub enum FocusStep {
    Focus(ThreadViewFocus),
    StayAndConsume,
    PassThrough,
}

/// One step along the pane chain `[sidebar] [grid] [thread list] [mail]`.
pub open spec fn step_spec(focus: ThreadViewFocus, direction: FocusDirection) -> FocusStep {
    match (focus, direction) {
        (ThreadViewFocus::MailView, FocusDirection::Left) => FocusStep::Focus(ThreadViewFocus::Unfocused),
        (ThreadViewFocus::Unfocused, FocusDirection::Left) => FocusStep::PassThrough,
        (ThreadViewFocus::Thread, FocusDirection::Left) => FocusStep::PassThrough,
        (ThreadViewFocus::Thread, FocusDirection::Right) => FocusStep::Focus(ThreadViewFocus::Unfocused),
        (ThreadViewFocus::Unfocused, FocusDirection::Right) => FocusStep::Focus(ThreadViewFocus::MailView),
        (ThreadViewFocus::MailView, FocusDirection::Right) => FocusStep::StayAndConsume,
    }
}

impl ThreadViewFocus {
    /// One step along the pane chain. Right goes `Thread` to `Unfocused` to
    /// `MailView`, and stays (consumed) at `MailView`, the last stop; Left
    /// goes back from `MailView` to `Unfocused`, and passes through at
    /// `Unfocused`
    /// and `Thread` so that the listing closes the view.
    pub fn step(self, direction: FocusDirection) -> (r: FocusStep)
        ensures
            r == step_spec(self, direction),
    {
        match (self, direction) {
            (ThreadViewFocus::MailView, FocusDirection::Left) => FocusStep::Focus(
                ThreadViewFocus::Unfocused,
            ),
            (ThreadViewFocus::Unfocused, FocusDirection::Left) => FocusStep::PassThrough,
            (ThreadViewFocus::Thread, FocusDirection::Left) => FocusStep::PassThrough,
            (ThreadViewFocus::Thread, FocusDirection::Right) => FocusStep::Focus(
                ThreadViewFocus::Unfocused,
            ),
            (ThreadViewFocus::Unfocused, FocusDirection::Right) => FocusStep::Focus(
                ThreadViewFocus::MailView,
            ),
            (ThreadViewFocus::MailView, FocusDirection::Right) => FocusStep::StayAndConsume,
        }
    }
}

/// Right is always handled by the view: it never passes through to the
/// listing, so the listing's own right-arrow branch cannot fire.
pub proof fn law_right_is_never_passed_through(focus: ThreadViewFocus)
    ensures
        step_spec(focus, FocusDirection::Right) != FocusStep::PassThrough,
{
}

/// The mail pane is the last stop: Right keeps the focus there.
pub proof fn law_mail_view_is_last_stop()
    ensures
        step_spec(ThreadViewFocus::MailView, FocusDirection::Right) == FocusStep::StayAndConsume,
{
}

/// Arrow keys never move the focus onto the thread list.
pub proof fn law_step_never_focuses_thread(focus: ThreadViewFocus, direction: FocusDirection)
    ensures
        step_spec(focus, direction) != FocusStep::Focus(ThreadViewFocus::Thread),
{
}

/// Left undoes a Right that moved the focus into the mail pane.
pub proof fn law_left_undoes_right(focus: ThreadViewFocus)
    requires
        step_spec(focus, FocusDirection::Right) == FocusStep::Focus(ThreadViewFocus::MailView),
    ensures
        step_spec(ThreadViewFocus::MailView, FocusDirection::Left) == FocusStep::Focus(focus),
{
}

/// From any focus, at most two Right presses reach the mail pane.
pub proof fn law_right_reaches_mail_view(focus: ThreadViewFocus)
    ensures
        ({
            let after_one = match step_spec(focus, FocusDirection::Right) {
                FocusStep::Focus(f) => f,
                _ => focus,
            };
            let after_two = match step_spec(after_one, FocusDirection::Right) {
                FocusStep::Focus(f) => f,
                _ => after_one,
            };
            after_two == ThreadViewFocus::MailView
        }),
{
}

/// The position of the first `:` in `s`, from `i` on.
pub open spec fn first_colon_from(s: Seq<char>, i: int) -> Option<int>
    decreases s.len() - i,
{
    if i < 0 || i >= s.len() {
        None
    } else if s[i] == ':' {
        Some(i)
    } else {
        first_colon_from(s, i + 1)
    }
}

/// `s` with ASCII capitals made small.
pub open spec fn ascii_lower_seq(s: Seq<char>) -> Seq<char> {
    Seq::new(s.len(), |i: int| ascii_lowercase(s[i]))
}

/// Whether `url` may be opened without asking: its scheme (what comes
/// before the first `:`) is `http`, `https` or `mailto`, in any casing.
pub open spec fn launchable_spec(url: Seq<char>) -> bool {
    match first_colon_from(url, 0) {
        Some(i) => {
            let scheme = ascii_lower_seq(url.take(i));
            scheme == seq!['h', 't', 't', 'p'] || scheme == seq!['h', 't', 't', 'p', 's'] || scheme
                == seq!['m', 'a', 'i', 'l', 't', 'o']
        },
        None => false,
    }
}

fn lower_char(c: char) -> (r: char)
    ensures
        r == ascii_lowercase(c),
{
    if 'A' <= c && c <= 'Z' {
        ((c as u8) + 32) as char
    } else {
        c
    }
}

/// Whether `url` may be opened without confirmation: only `http`,
/// `https` and `mailto` URLs, in any casing; every other scheme, and
/// anything without a scheme, is asked about first.
pub fn is_default_launchable_scheme(url: &str) -> (r: bool)
    ensures
        r == launchable_spec(url@),
{
    let cs = chars_of(url);
    let mut i: usize = 0;
    while i < cs.len() && cs[i] != ':'
        invariant
            i <= cs@.len(),
            cs@ == url@,
            first_colon_from(url@, 0) == first_colon_from(url@, i as int),
        decreases cs@.len() - i,
    {
        i = i + 1;
    }
    if i == cs.len() {
        return false;
    }
    let mut scheme: Vec<char> = Vec::new();
    let mut k: usize = 0;
    while k < i
        invariant
            k <= i < cs@.len(),
            scheme@ == ascii_lower_seq(cs@.take(k as int)),
        decreases i - k,
    {
        scheme.push(lower_char(cs[k]));
        assert(scheme@ =~= ascii_lower_seq(cs@.take(k + 1)));
        k = k + 1;
    }
    let http = chars_of("http");
    let https = chars_of("https");
    let mailto = chars_of("mailto");
    proof {
        reveal_strlit("http");
        reveal_strlit("https");
        reveal_strlit("mailto");
        assert(http@ =~= seq!['h', 't', 't', 'p']);
        assert(https@ =~= seq!['h', 't', 't', 'p', 's']);
        assert(mailto@ =~= seq!['m', 'a', 'i', 'l', 't', 'o']);
    }
    crate::text::chars_eq(&scheme, &http) || crate::text::chars_eq(&scheme, &https)
        || crate::text::chars_eq(&scheme, &mailto)
}

} // verus!
