//! The navigation state machine: current page, the multi-frame page set
//! with its scroll index, and the input-mode transitions, one relation
//! per mode.

use vstd::prelude::*;

use crate::error::Error;
use crate::page::{
    build_page_set, fragment_parses, is_page_error, page_matches, spec_line_children, PageSet,
};
use crate::strutil::{all_digits, digits_value, is_digit, lemma_digits_value_bound, pow10};
use crate::texttv::{PageNumber, PageResponse, HOME_PAGE_NR, MAX_PAGE_NR, MIN_PAGE_NR};

verus! {

/// The input mode of the viewer. Exactly one is active at a time; the
/// entry buffer is meaningful only in `Input`.
#[derive(PartialEq, Eq, Structural, Debug, Clone, Copy)]
pub enum Mode {
    Normal,
    Input,
    Help,
}

impl Default for Mode {
    /// The viewer starts out browsing.
    fn default() -> (d: Self)
        ensures
            d == Mode::Normal,
    {
        Mode::Normal
    }
}

/// A key event, as the state machine sees it.
#[derive(Debug, Clone, Copy)]
pub enum Key {
    Left,
    Right,
    Up,
    Down,
    Char(char),
    Backspace,
    Enter,
    Esc,
}

/// What the caller owes after a key event: nothing, or a fetch of the
/// given page number followed by `apply_envelope` on success.
#[derive(PartialEq, Eq, Debug, Clone, Copy)]
pub enum NavAction {
    Stay,
    Fetch(u16),
}

/// The state of the viewer between key events.
#[derive(Debug)]
pub struct NavigationState {
    /// The parsed frames of the current page, one per subpage.
    pub page_set: PageSet,
    /// The scroll index into `page_set`.
    pub page_index: usize,
    /// The current page number, always in the valid domain.
    pub page_nr: u16,
    /// The next page, verbatim from the most recent successful fetch.
    pub next_nr: u16,
    /// The previous page, verbatim from the most recent successful fetch.
    pub prev_nr: u16,
    /// When the current page was last updated, from the same fetch.
    pub updated_unix: i64,
    /// The active input mode.
    pub mode: Mode,
    /// The manual page-number entry buffer, at most three digits.
    pub input_buffer: Vec<char>,
    /// Whether the hosting loop should stop.
    pub exit: bool,
}

impl NavigationState {
    /// The state invariant: the scroll index stays inside the page set,
    /// the page number inside its domain, and the entry buffer holds at
    /// most three digits.
    pub open spec fn wf(self) -> bool {
        &&& self.page_set@.len() == 0 ==> self.page_index == 0
        &&& self.page_set@.len() > 0 ==> self.page_index < self.page_set@.len()
        &&& MIN_PAGE_NR <= self.page_nr <= MAX_PAGE_NR
        &&& all_digits(self.input_buffer@)
        &&& self.input_buffer@.len() <= 3
    }

    /// A fresh state: the home page, an empty page set, browsing mode.
    pub fn new() -> (s: Self)
        ensures
            s.wf(),
            s.page_set@.len() == 0,
            s.page_index == 0,
            s.page_nr == HOME_PAGE_NR,
            s.next_nr == 0,
            s.prev_nr == 0,
            s.updated_unix == 0,
            s.mode == Mode::Normal,
            s.input_buffer@.len() == 0,
            !s.exit,
    {
        NavigationState {
            page_set: Vec::new(),
            page_index: 0,
            page_nr: HOME_PAGE_NR,
            next_nr: 0,
            prev_nr: 0,
            updated_unix: 0,
            mode: Mode::Normal,
            input_buffer: Vec::new(),
            exit: false,
        }
    }

    /// Go to the previous frame in the page set; clamps at the first,
    /// never wraps.
    pub fn scroll_prev(&mut self)
        requires
            old(self).wf(),
        ensures
            final(self).wf(),
            *final(self) == (NavigationState {
                page_index: if old(self).page_index > 0 {
                    (old(self).page_index - 1) as usize
                } else {
                    0
                },
                ..*old(self)
            }),
    {
        if self.page_index > 0 {
            self.page_index = self.page_index - 1;
        }
    }

    /// Go to the next frame in the page set; clamps at the last.
    pub fn scroll_next(&mut self)
        requires
            old(self).wf(),
        ensures
            final(self).wf(),
            *final(self) == (NavigationState {
                page_index: if old(self).page_set@.len() > 1 && old(self).page_index < old(
                    self,
                ).page_set@.len() - 1 {
                    (old(self).page_index + 1) as usize
                } else {
                    old(self).page_index
                },
                ..*old(self)
            }),
    {
        let n_pages = self.page_set.len();
        if n_pages > 1 && self.page_index < n_pages - 1 {
            self.page_index = self.page_index + 1;
        }
    }

    /// Stop the hosting loop.
    pub fn quit(&mut self)
        ensures
            *final(self) == (NavigationState { exit: true, ..*old(self) }),
    {
        self.exit = true;
    }
}

/// The number a submitted entry buffer asks for, snapped into the valid
/// domain: values below it rise to the smallest page, values above it
/// fall to the largest.
pub open spec fn clamp_page(v: int) -> u16 {
    if v < MIN_PAGE_NR {
        MIN_PAGE_NR
    } else if v > MAX_PAGE_NR {
        MAX_PAGE_NR
    } else {
        v as u16
    }
}

/// What a key does in browsing mode.
pub open spec fn normal_step(
    pre: NavigationState,
    key: Key,
    post: NavigationState,
    r: Result<NavAction, Error>,
) -> bool {
    match key {
        Key::Right => post == pre && r == Ok::<NavAction, Error>(NavAction::Fetch(pre.next_nr)),
        Key::Left => post == pre && r == Ok::<NavAction, Error>(NavAction::Fetch(pre.prev_nr)),
        Key::Up => post == (NavigationState {
            page_index: if pre.page_index > 0 {
                (pre.page_index - 1) as usize
            } else {
                0
            },
            ..pre
        }) && r == Ok::<NavAction, Error>(NavAction::Stay),
        Key::Down => post == (NavigationState {
            page_index: if pre.page_set@.len() > 1 && pre.page_index < pre.page_set@.len() - 1 {
                (pre.page_index + 1) as usize
            } else {
                pre.page_index
            },
            ..pre
        }) && r == Ok::<NavAction, Error>(NavAction::Stay),
        Key::Char(c) => {
            if c == 'l' {
                post == pre && r == Ok::<NavAction, Error>(NavAction::Fetch(pre.next_nr))
            } else if c == 'h' {
                post == pre && r == Ok::<NavAction, Error>(NavAction::Fetch(pre.prev_nr))
            } else if c == 'k' {
                post == (NavigationState {
                    page_index: if pre.page_index > 0 {
                        (pre.page_index - 1) as usize
                    } else {
                        0
                    },
                    ..pre
                }) && r == Ok::<NavAction, Error>(NavAction::Stay)
            } else if c == 'j' {
                post == (NavigationState {
                    page_index: if pre.page_set@.len() > 1 && pre.page_index < pre.page_set@.len()
                        - 1 {
                        (pre.page_index + 1) as usize
                    } else {
                        pre.page_index
                    },
                    ..pre
                }) && r == Ok::<NavAction, Error>(NavAction::Stay)
            } else if '1' <= c && c <= '8' {
                post == pre && r == Ok::<NavAction, Error>(
                    NavAction::Fetch(((c as int - '0' as int) * 100) as u16),
                )
            } else if c == ':' {
                post.input_buffer@.len() == 0 && post == (NavigationState {
                    mode: Mode::Input,
                    input_buffer: post.input_buffer,
                    ..pre
                }) && r == Ok::<NavAction, Error>(NavAction::Stay)
            } else if c == '?' {
                post == (NavigationState { mode: Mode::Help, ..pre }) && r == Ok::<
                    NavAction,
                    Error,
                >(NavAction::Stay)
            } else if c == 'r' {
                post == pre && r == Ok::<NavAction, Error>(NavAction::Fetch(pre.page_nr))
            } else if c == 'q' {
                post == (NavigationState { exit: true, ..pre }) && r == Ok::<NavAction, Error>(
                    NavAction::Stay,
                )
            } else {
                post == pre && r == Ok::<NavAction, Error>(NavAction::Stay)
            }
        },
        _ => post == pre && r == Ok::<NavAction, Error>(NavAction::Stay),
    }
}

/// What a key does in manual-entry mode.
pub open spec fn input_step(
    pre: NavigationState,
    key: Key,
    post: NavigationState,
    r: Result<NavAction, Error>,
) -> bool {
    match key {
        Key::Char(c) => {
            if is_digit(c) && pre.input_buffer@.len() < 3 {
                post.input_buffer@ == pre.input_buffer@.push(c) && post == (NavigationState {
                    input_buffer: post.input_buffer,
                    ..pre
                }) && r == Ok::<NavAction, Error>(NavAction::Stay)
            } else {
                post == pre && r == Ok::<NavAction, Error>(NavAction::Stay)
            }
        },
        Key::Backspace => post.input_buffer@ == if pre.input_buffer@.len() > 0 {
            pre.input_buffer@.drop_last()
        } else {
            pre.input_buffer@
        } && post == (NavigationState { input_buffer: post.input_buffer, ..pre }) && r == Ok::<
            NavAction,
            Error,
        >(NavAction::Stay),
        Key::Enter => {
            if pre.input_buffer@.len() == 0 {
                post == pre && r == Err::<NavAction, Error>(Error::MalformedInput)
            } else {
                post.input_buffer@.len() == 0 && post == (NavigationState {
                    mode: Mode::Normal,
                    input_buffer: post.input_buffer,
                    ..pre
                }) && r == Ok::<NavAction, Error>(
                    NavAction::Fetch(clamp_page(digits_value(pre.input_buffer@))),
                )
            }
        },
        Key::Esc => post.input_buffer@.len() == 0 && post == (NavigationState {
            mode: Mode::Normal,
            input_buffer: post.input_buffer,
            ..pre
        }) && r == Ok::<NavAction, Error>(NavAction::Stay),
        _ => post == pre && r == Ok::<NavAction, Error>(NavAction::Stay),
    }
}

/// What a key does while the help overlay is shown.
pub open spec fn help_step(
    pre: NavigationState,
    key: Key,
    post: NavigationState,
    r: Result<NavAction, Error>,
) -> bool {
    match key {
        Key::Esc => post == (NavigationState { mode: Mode::Normal, ..pre }) && r == Ok::<
            NavAction,
            Error,
        >(NavAction::Stay),
        _ => post == pre && r == Ok::<NavAction, Error>(NavAction::Stay),
    }
}

/// What a key does, by the active mode.
pub open spec fn step(
    pre: NavigationState,
    key: Key,
    post: NavigationState,
    r: Result<NavAction, Error>,
) -> bool {
    match pre.mode {
        Mode::Normal => normal_step(pre, key, post, r),
        Mode::Input => input_step(pre, key, post, r),
        Mode::Help => help_step(pre, key, post, r),
    }
}

/// The number a digit buffer spells in decimal.
fn buffer_value(buf: &Vec<char>) -> (v: u16)
    requires
        all_digits(buf@),
        1 <= buf@.len() <= 3,
    ensures
        v == digits_value(buf@),
        v <= 999,
{
    proof {
        lemma_digits_value_bound(buf@);
        assert(pow10(0) == 1);
        assert(pow10(1) == 10);
        assert(pow10(2) == 100);
        assert(pow10(3) == 1000);
    }
    let mut v: u16 = 0;
    let mut i: usize = 0;
    while i < buf.len()
        invariant
            all_digits(buf@),
            buf@.len() <= 3,
            i <= buf@.len(),
            v == digits_value(buf@.take(i as int)),
            v <= 999,
        decreases buf@.len() - i,
    {
        let c = buf[i];
        proof {
            assert(is_digit(buf@[i as int]));
            assert(buf@.take(i + 1).drop_last() =~= buf@.take(i as int));
            assert(all_digits(buf@.take(i + 1)));
            lemma_digits_value_bound(buf@.take(i + 1));
            assert(pow10(0) == 1);
            assert(pow10(1) == 10);
            assert(pow10(2) == 100);
            assert(pow10(3) == 1000);
        }
        v = v * 10 + (c as u32 - '0' as u32) as u16;
        i += 1;
    }
    proof {
        assert(buf@.take(buf@.len() as int) =~= buf@);
    }
    v
}

impl NavigationState {
    /// Handle a key in browsing mode.
    pub fn handle_key_event_normal(&mut self, code: Key) -> (r: Result<NavAction, Error>)
        requires
            old(self).wf(),
        ensures
            final(self).wf(),
            normal_step(*old(self), code, *final(self), r),
    {
        match code {
            Key::Right => Ok(NavAction::Fetch(self.next_nr)),
            Key::Left => Ok(NavAction::Fetch(self.prev_nr)),
            Key::Up => {
                self.scroll_prev();
                Ok(NavAction::Stay)
            },
            Key::Down => {
                self.scroll_next();
                Ok(NavAction::Stay)
            },
            Key::Char(c) => {
                if c == 'l' {
                    Ok(NavAction::Fetch(self.next_nr))
                } else if c == 'h' {
                    Ok(NavAction::Fetch(self.prev_nr))
                } else if c == 'k' {
                    self.scroll_prev();
                    Ok(NavAction::Stay)
                } else if c == 'j' {
                    self.scroll_next();
                    Ok(NavAction::Stay)
                } else if '1' <= c && c <= '8' {
                    let d = (c as u32 - '0' as u32) as u16;
                    Ok(NavAction::Fetch(d * 100))
                } else if c == ':' {
                    self.mode = Mode::Input;
                    self.input_buffer.clear();
                    Ok(NavAction::Stay)
                } else if c == '?' {
                    self.mode = Mode::Help;
                    Ok(NavAction::Stay)
                } else if c == 'r' {
                    Ok(NavAction::Fetch(self.page_nr))
                } else if c == 'q' {
                    self.quit();
                    Ok(NavAction::Stay)
                } else {
                    Ok(NavAction::Stay)
                }
            },
            _ => Ok(NavAction::Stay),
        }
    }

    /// Handle a key in manual-entry mode.
    pub fn handle_key_event_input(&mut self, code: Key) -> (r: Result<NavAction, Error>)
        requires
            old(self).wf(),
        ensures
            final(self).wf(),
            input_step(*old(self), code, *final(self), r),
    {
        match code {
            Key::Char(c) => {
                if '0' <= c && c <= '9' && self.input_buffer.len() < 3 {
                    self.input_buffer.push(c);
                }
                Ok(NavAction::Stay)
            },
            Key::Backspace => {
                if self.input_buffer.len() > 0 {
                    self.input_buffer.pop();
                }
                Ok(NavAction::Stay)
            },
            Key::Enter => {
                if self.input_buffer.len() == 0 {
                    return Err(Error::MalformedInput);
                }
                let requested = buffer_value(&self.input_buffer);
                let target = if requested < MIN_PAGE_NR {
                    MIN_PAGE_NR
                } else if requested > MAX_PAGE_NR {
                    MAX_PAGE_NR
                } else {
                    requested
                };
                self.input_buffer.clear();
                self.mode = Mode::Normal;
                Ok(NavAction::Fetch(target))
            },
            Key::Esc => {
                self.input_buffer.clear();
                self.mode = Mode::Normal;
                Ok(NavAction::Stay)
            },
            _ => Ok(NavAction::Stay),
        }
    }

    /// Handle a key while the help overlay is shown.
    pub fn handle_key_event_help(&mut self, code: Key) -> (r: Result<NavAction, Error>)
        requires
            old(self).wf(),
        ensures
            final(self).wf(),
            help_step(*old(self), code, *final(self), r),
    {
        match code {
            Key::Esc => {
                self.mode = Mode::Normal;
                Ok(NavAction::Stay)
            },
            _ => Ok(NavAction::Stay),
        }
    }

    /// Handle a key event: dispatch on the active mode.
    pub fn on_key_event(&mut self, key: Key) -> (r: Result<NavAction, Error>)
        requires
            old(self).wf(),
        ensures
            final(self).wf(),
            step(*old(self), key, *final(self), r),
    {
        match self.mode {
            Mode::Normal => self.handle_key_event_normal(key),
            Mode::Input => self.handle_key_event_input(key),
            Mode::Help => self.handle_key_event_help(key),
        }
    }

    /// Apply one successfully fetched envelope: parse every fragment of
    /// its content list and, only when all of them parse, replace the
    /// page set, reset the scroll index, and take the page number and
    /// the next/previous links. A failed parse leaves the state exactly
    /// as it was.
    pub fn apply_envelope(&mut self, nr: PageNumber, resp: &PageResponse) -> (r: Result<
        (),
        Error,
    >)
        requires
            old(self).wf(),
            nr.wf(),
        ensures
            final(self).wf(),
            r is Ok <==> (forall|k: int|
                0 <= k < resp.content@.len() ==> fragment_parses((#[trigger] resp.content@[k])@)),
            r matches Ok(_) ==> {
                &&& final(self).page_nr == nr.spec_get()
                &&& final(self).next_nr == resp.next_page
                &&& final(self).prev_nr == resp.prev_page
                &&& final(self).updated_unix == resp.date_updated_unix
                &&& final(self).page_index == 0
                &&& final(self).page_set@.len() == resp.content@.len()
                &&& forall|k: int|
                    0 <= k < resp.content@.len() ==> page_matches(
                        spec_line_children((#[trigger] resp.content@[k])@),
                        final(self).page_set@[k]@,
                    )
                &&& final(self).mode == old(self).mode
                &&& final(self).input_buffer == old(self).input_buffer
                &&& final(self).exit == old(self).exit
            },
            r matches Err(e) ==> *final(self) == *old(self) && is_page_error(e),
    {
        let pages = match build_page_set(&resp.content) {
            Ok(p) => p,
            Err(e) => {
                return Err(e);
            },
        };
        self.page_nr = nr.get();
        self.next_nr = resp.next_page;
        self.prev_nr = resp.prev_page;
        self.updated_unix = resp.date_updated_unix;
        self.page_index = 0;
        self.page_set = pages;
        Ok(())
    }
}

} // verus!
