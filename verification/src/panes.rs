//! Where the thread view puts its panes: the thread list and the open
//! mail side by side or stacked, one of them alone, or the mail framed on
//! its own for a single-mail thread.
use vstd::prelude::*;
use crate::area::{Area, AreaView, sat_sub, min_nat};
use crate::mail_view::ThreadViewFocus;
use crate::thread_nav::{ThreadNav, ThreadLayout};

verus! {

/// The panes one drawing of the thread view fills. The list pane is
/// framed as focused; the mail pane as unfocused when the list shows
/// beside it, as focused when it shows alone.
#[derive(Clone, Copy, Debug)]
pub enum PanePlan {
    /// Nothing is drawn.
    Nothing,
    /// Only the subject line: there is no room for the panes.
    Header,
    /// A thread of one mail: the mail, framed, fills the whole area.
    Single { mail: Area },
    /// The list and the mail, side by side or stacked, inside `body`.
    Split { list: Area, mail: Area, body: Area },
    /// The list alone fills `body`; `cleared` is blanked first.
    ListOnly { list: Area, cleared: Option<Area>, body: Area },
    /// The mail alone fills `body`.
    MailOnly { mail: Area, body: Area },
}

/// The mathematical content of a [`PanePlan`].
pub enum PanePlanView {
    Nothing,
    Header,
    Single { mail: AreaView },
    Split { list: AreaView, mail: AreaView, body: AreaView },
    ListOnly { list: AreaView, cleared: Option<AreaView>, body: AreaView },
    MailOnly { mail: AreaView, body: AreaView },
}

impl View for PanePlan {
    type V = PanePlanView;

    open spec fn view(&self) -> PanePlanView {
        match *self {
            PanePlan::Nothing => PanePlanView::Nothing,
            PanePlan::Header => PanePlanView::Header,
            PanePlan::Single { mail } => PanePlanView::Single { mail: mail@ },
            PanePlan::Split { list, mail, body } => PanePlanView::Split {
                list: list@,
                mail: mail@,
                body: body@,
            },
            PanePlan::ListOnly { list, cleared, body } => PanePlanView::ListOnly {
                list: list@,
                cleared: match cleared {
                    Some(c) => Some(c@),
                    None => None,
                },
                body: body@,
            },
            PanePlan::MailOnly { mail, body } => PanePlanView::MailOnly { mail: mail@, body: body@ },
        }
    }
}

/// Offsets of `area` leave room for every skip inside it.
pub open spec fn offsets_leave_room(area: AreaView) -> bool {
    area.offset.0 + area.width() <= usize::MAX && area.offset.1 + area.height() <= usize::MAX
}

impl ThreadNav {
    /// Whether the list and the mail are stacked rather than side by side:
    /// the `Horizontal` layout, or `Auto` when it is not wide enough.
    pub open spec fn stacked(&self) -> bool {
        self.thread_layout == ThreadLayout::Horizontal || (self.thread_layout == ThreadLayout::Auto
            && !self.auto_is_vertical_spec())
    }

    /// The panes of a thread of several mails drawn in `area`, whose list
    /// is `content_height` rows long. Below the two-row subject line,
    /// stacked panes share the rows (the list takes at most half of them
    /// and a separator row follows it), side-by-side panes share the
    /// columns (the list takes one column less than half, a separator
    /// column follows).
    pub open spec fn panes_spec(&self, area: AreaView, content_height: nat) -> PanePlanView {
        let body = area.skip_rows(2);
        if self.stacked() {
            let mid = min_nat(self.content_width as nat, area.height() / 2);
            if content_height == 0 || content_height == self.cursor_pos || self.content_width
                == 0 {
                PanePlanView::Header
            } else {
                match self.focus {
                    ThreadViewFocus::Unfocused => PanePlanView::Split {
                        list: body.take_rows(mid),
                        mail: body.skip_rows(mid + 1),
                        body,
                    },
                    ThreadViewFocus::Thread => PanePlanView::ListOnly {
                        list: body,
                        cleared: None,
                        body,
                    },
                    ThreadViewFocus::MailView => PanePlanView::MailOnly { mail: body, body },
                }
            }
        } else {
            let mid = min_nat(self.content_width as nat, area.width() / 2);
            if content_height == 0 || self.content_width == 0 {
                PanePlanView::Header
            } else {
                match self.focus {
                    ThreadViewFocus::Unfocused => PanePlanView::Split {
                        list: body.take_cols(sat_sub(mid, 1)),
                        mail: body.skip_cols(mid + 1),
                        body,
                    },
                    ThreadViewFocus::Thread => PanePlanView::ListOnly {
                        list: body,
                        cleared: Some(body.skip_cols(mid + 1)),
                        body,
                    },
                    ThreadViewFocus::MailView => PanePlanView::MailOnly { mail: body, body },
                }
            }
        }
    }

    /// The panes of one drawing in `area`: none without entries, the
    /// framed mail alone for a single mail, else [`Self::panes_spec`].
    pub open spec fn pane_plan_spec(&self, area: AreaView, content_height: nat) -> PanePlanView {
        if self.entries@.len() == 0 {
            PanePlanView::Nothing
        } else if self.entries@.len() == 1 {
            PanePlanView::Single { mail: area }
        } else {
            self.panes_spec(area, content_height)
        }
    }

    /// Whether the list and the mail are stacked.
    pub fn is_stacked(&self) -> (r: bool)
        ensures
            r == self.stacked(),
    {
        match self.thread_layout {
            ThreadLayout::Horizontal => true,
            ThreadLayout::Vertical => false,
            ThreadLayout::Auto => !self.calculate_auto_thread_layout_is_vertical(),
        }
    }

    /// The panes of a thread of several mails drawn in `area`, whose list
    /// is `content_height` rows long.
    pub fn panes(&self, area: &Area, content_height: usize) -> (r: PanePlan)
        requires
            offsets_leave_room(area@),
        ensures
            r@ == self.panes_spec(area@, content_height as nat),
    {
        let body = area.skip_rows(2);
        if self.is_stacked() {
            let half = area.height() / 2;
            let mid = if self.content_width <= half { self.content_width } else { half };
            if content_height == 0 || content_height == self.cursor_pos || self.content_width == 0 {
                return PanePlan::Header;
            }
            match self.focus {
                ThreadViewFocus::Unfocused => PanePlan::Split {
                    list: body.take_rows(mid),
                    mail: body.skip_rows(mid + 1),
                    body,
                },
                ThreadViewFocus::Thread => PanePlan::ListOnly { list: body, cleared: None, body },
                ThreadViewFocus::MailView => PanePlan::MailOnly { mail: body, body },
            }
        } else {
            let half = area.width() / 2;
            let mid = if self.content_width <= half { self.content_width } else { half };
            if content_height == 0 || self.content_width == 0 {
                return PanePlan::Header;
            }
            match self.focus {
                ThreadViewFocus::Unfocused => PanePlan::Split {
                    list: body.take_cols(mid.saturating_sub(1)),
                    mail: body.skip_cols(mid + 1),
                    body,
                },
                ThreadViewFocus::Thread => PanePlan::ListOnly {
                    list: body,
                    cleared: Some(body.skip_cols(mid + 1)),
                    body,
                },
                ThreadViewFocus::MailView => PanePlan::MailOnly { mail: body, body },
            }
        }
    }
    /// The start of a drawing in `area`, the list being `content_height`
    /// rows long and `mail_dirty` telling whether the open mail must be
    /// drawn again. Without entries the view only stops being dirty. A view
    /// that is not dirty draws nothing. Otherwise the width is remembered,
    /// the open entry becomes the one asked for, a stacked list that has
    /// the focus is marked to be drawn whole, and the panes to fill are
    /// returned.
    pub fn begin_draw(&mut self, area: &Area, content_height: usize, mail_dirty: bool) -> (r: PanePlan)
        requires
            offsets_leave_room(area@),
        ensures
            old(self).entries@.len() == 0 ==> r@ == PanePlanView::Nothing && *final(self) == (
            ThreadNav { dirty: false, ..*old(self) }),
            old(self).entries@.len() > 0 && !(old(self).dirty || (old(self).focus
                != ThreadViewFocus::Thread && mail_dirty)) ==> r@ == PanePlanView::Nothing
                && *final(self) == *old(self),
            old(self).entries@.len() > 0 && (old(self).dirty || (old(self).focus
                != ThreadViewFocus::Thread && mail_dirty)) ==> {
                let s = ThreadNav {
                    last_width: area@.width() as usize,
                    expanded_pos: old(self).new_expanded_pos,
                    ..*old(self)
                };
                &&& r@ == s.pane_plan_spec(area@, content_height as nat)
                &&& *final(self) == (ThreadNav {
                    dirty: s.dirty || (s.stacked() && r@ is ListOnly),
                    ..s
                })
            },
    {
        if self.entries.len() == 0 {
            self.dirty = false;
            return PanePlan::Nothing;
        }
        if !(self.dirty || (self.focus != ThreadViewFocus::Thread && mail_dirty)) {
            return PanePlan::Nothing;
        }
        self.last_width = area.width();
        self.expanded_pos = self.new_expanded_pos;
        if self.entries.len() == 1 {
            return PanePlan::Single { mail: *area };
        }
        let plan = self.panes(area, content_height);
        if self.is_stacked() {
            if let PanePlan::ListOnly { .. } = plan {
                self.dirty = true;
            }
        }
        plan
    }
}

/// The list and the mail of a split never meet: stacked, the list ends
/// above the row where the mail starts; side by side, it ends left of the
/// mail's first column. Both lie inside the area below the subject line.
pub proof fn law_split_panes_do_not_meet(nav: ThreadNav, area: AreaView, content_height: nat)
    ensures
        nav.panes_spec(area, content_height) matches PanePlanView::Split { list, mail, body } ==> {
            &&& body == area.skip_rows(2)
            &&& !list.is_empty() ==> body.contains(list)
            &&& !mail.is_empty() ==> body.contains(mail)
            &&& !list.is_empty() && !mail.is_empty() ==> if nav.stacked() {
                list.bottom_right.1 < mail.upper_left.1
            } else {
                list.bottom_right.0 < mail.upper_left.0
            }
        },
{
}

} // verus!
