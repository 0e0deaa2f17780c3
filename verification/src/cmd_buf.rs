//! The numeric prefix a user types before a command (`3j`): the digits
//! typed so far, and the status-line updates that typing them asks for.
use vstd::prelude::*;
use vstd::string::*;
use crate::keys::{decimal, push_decimal_usize};

verus! {

broadcast use vstd::string::group_string_axioms;

/// What the status line must show after a change of the buffer.
#[derive(Debug, PartialEq, Eq)]
pub enum BufStatus {
    /// Show this text as the buffer.
    Show(String),
    /// The buffer is gone.
    Clear,
}

/// A [`BufStatus`] over plain values.
pub enum BufStatusView {
    Show(Seq<char>),
    Clear,
}

/// The view of an optional status update.
pub open spec fn status_view(s: Option<BufStatus>) -> Option<BufStatusView> {
    match s {
        Some(BufStatus::Show(t)) => Some(BufStatusView::Show(t@)),
        Some(BufStatus::Clear) => Some(BufStatusView::Clear),
        None => None,
    }
}

/// The status text of a buffer holding `n`: the number, after the name of
/// the pending modifier command where there is one.
pub open spec fn buf_text(n: nat, modifier: Option<Seq<char>>) -> Seq<char> {
    match modifier {
        Some(m) => m + seq![' '] + decimal(n),
        None => decimal(n),
    }
}

/// Whether `c` is an ASCII digit.
pub open spec fn is_ascii_digit(c: char) -> bool {
    '0' <= c && c <= '9'
}

/// The number typed so far before a command, if any.
pub struct CommandBuffer {
    value: Option<usize>,
}

impl View for CommandBuffer {
    type V = Option<usize>;

    closed spec fn view(&self) -> Option<usize> {
        self.value
    }
}

/// The value of the buffer after typing digit `c`, where it fits.
pub open spec fn pushed(value: Option<usize>, c: char) -> Option<nat> {
    let v = match value {
        Some(v) => v as nat,
        None => 0,
    };
    if v * 10 + ((c as u32) - ('0' as u32)) <= usize::MAX {
        Some(v * 10 + ((c as u32) - ('0' as u32)) as nat)
    } else {
        None
    }
}

fn text_of(n: usize, modifier: Option<&str>) -> (r: String)
    ensures
        r@ == buf_text(
            n as nat,
            match modifier {
                Some(m) => Some(m@),
                None => None,
            },
        ),
{
    let mut s = String::new();
    match modifier {
        Some(m) => {
            s.append(m);
            s.append(" ");
            proof {
                reveal_strlit(" ");
            }
        },
        None => {},
    }
    push_decimal_usize(&mut s, n);
    s
}

impl CommandBuffer {
    /// An empty buffer.
    pub fn new() -> (r: Self)
        ensures
            r@ is None,
    {
        CommandBuffer { value: None }
    }

    /// The number typed so far.
    pub fn cmd_buf(&self) -> (r: Option<usize>)
        ensures
            r == self@,
    {
        self.value
    }

    /// Types `c`: a digit is appended to the number, and the status line
    /// shows it (after the pending modifier command's name); anything else
    /// changes nothing, and so does a digit that would not fit.
    pub fn cmd_buf_push(&mut self, c: char, modifier_command: Option<&str>) -> (r: Option<BufStatus>)
        requires
            is_ascii_digit(c) && (match old(self)@ {
                Some(v) => v as nat,
                None => 0nat,
            }) * 10 <= usize::MAX ==> pushed(old(self)@, c) is Some,
        ensures
            !is_ascii_digit(c) ==> r is None && final(self)@ == old(self)@,
            is_ascii_digit(c) ==> match pushed(old(self)@, c) {
                Some(n) => {
                    &&& final(self)@ == Some(n as usize)
                    &&& status_view(r) == Some(
                        BufStatusView::Show(
                            buf_text(
                                n,
                                match modifier_command {
                                    Some(m) => Some(m@),
                                    None => None,
                                },
                            ),
                        ),
                    )
                },
                None => r is None && final(self)@ == old(self)@,
            },
    {
        if !('0' <= c && c <= '9') {
            return None;
        }
        let current = match self.value {
            Some(v) => v,
            None => 0,
        };
        let scaled = match current.checked_mul(10) {
            Some(s) => s,
            None => {
                return None;
            },
        };
        let digit = (c as u32 - '0' as u32) as usize;
        let value = scaled + digit;
        self.value = Some(value);
        Some(BufStatus::Show(text_of(value, modifier_command)))
    }

    /// Removes the last digit: the status line shows what is left, or the
    /// buffer is cleared when nothing (or zero) is left. An empty buffer
    /// stays as it is.
    pub fn cmd_buf_pop(&mut self, modifier_command: Option<&str>) -> (r: Option<BufStatus>)
        ensures
            match old(self)@ {
                None => r is None && final(self)@ is None,
                Some(v) => if v / 10 == 0 {
                    final(self)@ is None && status_view(r) == Some(BufStatusView::Clear)
                } else {
                    &&& final(self)@ == Some((v / 10) as usize)
                    &&& status_view(r) == Some(
                        BufStatusView::Show(
                            buf_text(
                                (v / 10) as nat,
                                match modifier_command {
                                    Some(m) => Some(m@),
                                    None => None,
                                },
                            ),
                        ),
                    )
                },
            },
    {
        let current = match self.value {
            Some(v) => v,
            None => {
                return None;
            },
        };
        let value = current / 10;
        if value == 0 {
            self.value = None;
            return Some(BufStatus::Clear);
        }
        self.value = Some(value);
        Some(BufStatus::Show(text_of(value, modifier_command)))
    }

    /// Empties the buffer and hands back what it held; the status line is
    /// cleared when there was something.
    pub fn cmd_buf_clear(&mut self) -> (r: (Option<usize>, Option<BufStatus>))
        ensures
            r.0 == old(self)@,
            final(self)@ is None,
            status_view(r.1) == (if old(self)@ is Some {
                Some(BufStatusView::Clear)
            } else {
                None
            }),
    {
        let old_value = self.value;
        self.value = None;
        match old_value {
            Some(_) => (old_value, Some(BufStatus::Clear)),
            None => (old_value, None),
        }
    }
}

/// Removing a digit undoes typing it: from an empty buffer or one holding a
/// non-zero number, typing a digit (where the number fits) and removing it
/// again gives back the buffer as it was.
pub proof fn law_pop_undoes_push(value: Option<usize>, c: char)
    requires
        is_ascii_digit(c),
        value matches Some(v) ==> v > 0,
        pushed(value, c) is Some,
    ensures
        ({
            let n = pushed(value, c)->0;
            let back = n / 10;
            if back == 0 {
                value is None
            } else {
                value == Some(back as usize)
            }
        }),
{
    let v = match value {
        Some(v) => v as nat,
        None => 0,
    };
    let d = ((c as u32) - ('0' as u32)) as nat;
    assert(d < 10);
    assert((v * 10 + d) / 10 == v) by (nonlinear_arith)
        requires
            d < 10,
    ;
}

} // verus!
