//! Decisions the main loop takes on events before components see them:
//! which mailbox a batch of refreshes is for, and the texts of the
//! messages it shows.
use vstd::prelude::*;
use vstd::string::*;
use crate::keys::{decimal, push_decimal_usize};

verus! {

broadcast use vstd::string::group_string_axioms;

/// The account and mailbox a batch of refresh events is for: those of its
/// first event when every event is for them; `None` for an empty batch or
/// a mixed one, which is dropped.
pub open spec fn batch_target_spec(events: Seq<(u64, u64)>) -> Option<(u64, u64)> {
    if events.len() > 0 && forall|i: int| 0 <= i < events.len() ==> #[trigger] events[i] == events[0] {
        Some(events[0])
    } else {
        None
    }
}

/// The account and mailbox of a batch of refresh events, as
/// [`batch_target_spec`] states it.
pub fn refresh_batch_target(events: &Vec<(u64, u64)>) -> (r: Option<(u64, u64)>)
    ensures
        r == batch_target_spec(events@),
{
    if events.len() == 0 {
        return None;
    }
    let first = events[0];
    let mut i: usize = 0;
    while i < events.len()
        invariant
            i <= events@.len(),
            first == events@[0],
            forall|k: int| 0 <= k < i ==> #[trigger] events@[k] == first,
        decreases events@.len() - i,
    {
        if events[i].0 != first.0 || events[i].1 != first.1 {
            return None;
        }
        i = i + 1;
    }
    Some(first)
}

/// The message of a backend notice: the account's name (`unknown account`
/// when it is gone), the description, and the content after `: ` when
/// there is one.
pub open spec fn notice_spec(account: Option<Seq<char>>, description: Seq<char>, content: Option<Seq<char>>) -> Seq<char> {
    let name = match account {
        Some(a) => a,
        None => "unknown account"@,
    };
    name + ": "@ + description + match content {
        Some(c) => ": "@ + c,
        None => Seq::empty(),
    }
}

/// The optional text's view.
pub open spec fn opt_view(s: Option<&str>) -> Option<Seq<char>> {
    match s {
        Some(t) => Some(t@),
        None => None,
    }
}

/// The message shown for a backend notice, as [`notice_spec`] states it.
pub fn notice_message(account: Option<&str>, description: &str, content: Option<&str>) -> (r: String)
    ensures
        r@ == notice_spec(opt_view(account), description@, opt_view(content)),
{
    let mut s = match account {
        Some(a) => a.to_owned(),
        None => String::from_str("unknown account"),
    };
    s.append(": ");
    s.append(description);
    match content {
        Some(c) => {
            s.append(": ");
            s.append(c);
        },
        None => {},
    }
    s
}

/// The text of a notification in the message box: the title and a space
/// before the body when there is a title.
pub open spec fn notification_spec(title: Option<Seq<char>>, body: Seq<char>) -> Seq<char> {
    match title {
        Some(t) => t + " "@ + body,
        None => body,
    }
}

/// The text a notification shows, as [`notification_spec`] states it.
pub fn notification_text(title: Option<&str>, body: &str) -> (r: String)
    ensures
        r@ == notification_spec(opt_view(title), body@),
{
    match title {
        Some(t) => {
            let mut s = t.to_owned();
            s.append(" ");
            s.append(body);
            s
        },
        None => body.to_owned(),
    }
}

/// The decimal numeral of `n`, with a minus sign when it is negative.
pub open spec fn signed_decimal(n: int) -> Seq<char> {
    if n < 0 {
        "-"@ + decimal((-n) as nat)
    } else {
        decimal(n as nat)
    }
}

/// The error of a spawned process that did not succeed: its exit status
/// when it exited, else that a signal ended it.
pub open spec fn exit_message_spec(code: Option<i32>) -> Seq<char> {
    match code {
        Some(c) => "Process exited with status code: "@ + signed_decimal(c as int),
        None => "Process terminated by signal"@,
    }
}

/// The error text of a spawned process that did not succeed, as
/// [`exit_message_spec`] states it.
pub fn exit_status_message(code: Option<i32>) -> (r: String)
    ensures
        r@ == exit_message_spec(code),
{
    match code {
        Some(c) => {
            let mut s = String::from_str("Process exited with status code: ");
            if c < 0 {
                s.append("-");
                let m: i64 = -(c as i64);
                push_decimal_usize(&mut s, m as usize);
            } else {
                push_decimal_usize(&mut s, c as usize);
            }
            s
        },
        None => String::from_str("Process terminated by signal"),
    }
}

} // verus!
