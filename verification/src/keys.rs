//! The dashboard's keys: what each key does in each mode.
use vstd::prelude::*;

use crate::deck::{
    at_end, detail_opened, filter_cycled, filter_picked, lemma_fresh_rows_in_range, looked_up, moved,
    next_position, position_or_first, reindexed, refreshed, scrolled, selection_in_range,
    thread_reloaded, went_back, App, Cmd, Effect,
};
use crate::text::{is_white, is_white_space, push_char, trimmed};

verus! {

/// A key, as the terminal reports it.
#[derive(Debug, Clone, Copy, PartialEq, Eq, Structural)]
pub enum KeyCode {
    Char(char),
    Esc,
    Enter,
    Backspace,
    Up,
    Down,
    Left,
    Right,
    PageUp,
    PageDown,
    Home,
    End,
    Tab,
    BackTab,
    Other,
}

/// A key press, with whether Control was held.
#[derive(Debug, Clone, Copy, PartialEq, Eq, Structural)]
pub struct Key {
    pub code: KeyCode,
    pub ctrl: bool,
}

/// What a key does.
#[derive(Debug, Clone, Copy, PartialEq, Eq, Structural)]
pub enum Action {
    Nothing,
    Quit,
    /// Stop typing a username, dropping it.
    CloseAsk,
    /// Look up the username typed.
    SubmitAsk,
    AskBackspace,
    AskType(char),
    /// Stop searching and clear the search.
    CancelSearch,
    /// Stop typing the search, keeping it.
    EndSearch,
    SearchBackspace,
    SearchType(char),
    CloseDetail,
    Scroll(i32),
    ScrollTop,
    ToggleBots,
    ReloadThread,
    OpenBrowser,
    CopyUrl,
    ClearSearch,
    CloseHelp,
    BackToMine,
    ToggleHelp,
    Move(isize),
    Top,
    Bottom,
    Cycle(bool),
    Pick(usize),
    OpenDetail,
    Refresh(usize),
    StartSearch,
    StartAsk,
}

/// The number of UTF-8 bytes of a character.
pub open spec fn utf8_width(c: char) -> nat {
    let u = c as u32;
    if u < 0x80 {
        1
    } else if u < 0x800 {
        2
    } else if u < 0x10000 {
        3
    } else {
        4
    }
}

/// The number of UTF-8 bytes of a text (`str::len`).
pub open spec fn utf8_len(s: Seq<char>) -> nat
    decreases s.len(),
{
    if s.len() == 0 {
        0
    } else {
        utf8_len(s.drop_last()) + utf8_width(s.last())
    }
}

/// The state of the dashboard that decides what keys do.
pub struct Mode {
    pub asking: bool,
    pub searching: bool,
    pub detail: bool,
    pub search_empty: bool,
    pub help: bool,
    pub other_person: bool,
    /// The UTF-8 length of the username typed so far.
    pub ask_bytes: nat,
}

/// What `key` does in `m`.
///
/// Typing a username: Esc drops it, Enter looks it up, Backspace deletes,
/// and a character other than white space is added while the name is under
/// 40 bytes. Typing a search: Esc clears it, Enter ends typing, Backspace
/// deletes, and any character is added. In a conversation: Ctrl-C quits;
/// Esc, q and Left close it; the arrows, page keys and space scroll; g and
/// Home go to the top; b shows or hides bots; r reloads; o opens the browser
/// and y copies the url. In the list: Ctrl-C and q quit; Esc clears the
/// search, else closes help, else goes back to one's own list; ? toggles
/// help; arrows and page keys move; g, Home, G and End jump; Right, Tab,
/// Left and BackTab cycle the filters, 1 to 5 pick one; Enter opens the
/// conversation; o and y as above; r syncs 5 pages, R syncs 20; / starts a
/// search and u a username.
pub open spec fn action_for(m: Mode, key: Key) -> Action {
    if m.asking {
        match key.code {
            KeyCode::Esc => Action::CloseAsk,
            KeyCode::Enter => Action::SubmitAsk,
            KeyCode::Backspace => Action::AskBackspace,
            KeyCode::Char(c) => if !is_white_space(c) && m.ask_bytes < 40 {
                Action::AskType(c)
            } else {
                Action::Nothing
            },
            _ => Action::Nothing,
        }
    } else if m.searching {
        match key.code {
            KeyCode::Esc => Action::CancelSearch,
            KeyCode::Enter => Action::EndSearch,
            KeyCode::Backspace => Action::SearchBackspace,
            KeyCode::Char(c) => Action::SearchType(c),
            _ => Action::Nothing,
        }
    } else if m.detail {
        match key.code {
            KeyCode::Char('c') if key.ctrl => Action::Quit,
            KeyCode::Esc | KeyCode::Char('q') | KeyCode::Left => Action::CloseDetail,
            KeyCode::Down => Action::Scroll(1i32),
            KeyCode::Up => Action::Scroll(-1i32),
            KeyCode::PageDown | KeyCode::Char(' ') => Action::Scroll(15i32),
            KeyCode::PageUp => Action::Scroll(-15i32),
            KeyCode::Char('g') | KeyCode::Home => Action::ScrollTop,
            KeyCode::Char('b') => Action::ToggleBots,
            KeyCode::Char('r') => Action::ReloadThread,
            KeyCode::Char('o') => Action::OpenBrowser,
            KeyCode::Char('y') => Action::CopyUrl,
            _ => Action::Nothing,
        }
    } else {
        match key.code {
            KeyCode::Char('c') if key.ctrl => Action::Quit,
            KeyCode::Char('q') => Action::Quit,
            KeyCode::Esc if !m.search_empty => Action::ClearSearch,
            KeyCode::Esc if m.help => Action::CloseHelp,
            KeyCode::Esc if m.other_person => Action::BackToMine,
            KeyCode::Char('?') => Action::ToggleHelp,
            KeyCode::Down => Action::Move(1isize),
            KeyCode::Up => Action::Move(-1isize),
            KeyCode::PageDown => Action::Move(10isize),
            KeyCode::PageUp => Action::Move(-10isize),
            KeyCode::Char('g') | KeyCode::Home => Action::Top,
            KeyCode::Char('G') | KeyCode::End => Action::Bottom,
            KeyCode::Right | KeyCode::Tab => Action::Cycle(true),
            KeyCode::Left | KeyCode::BackTab => Action::Cycle(false),
            KeyCode::Char(c) if '1' <= c <= '5' => Action::Pick(((c as u32) - 49) as usize),
            KeyCode::Enter => Action::OpenDetail,
            KeyCode::Char('o') => Action::OpenBrowser,
            KeyCode::Char('y') => Action::CopyUrl,
            KeyCode::Char('r') => Action::Refresh(5),
            KeyCode::Char('R') => Action::Refresh(20),
            KeyCode::Char('/') => Action::StartSearch,
            KeyCode::Char('u') => Action::StartAsk,
            _ => Action::Nothing,
        }
    }
}

/// The command that an effect hands to the worker, if any.
pub open spec fn cmd_of(e: Effect) -> Option<Cmd> {
    match e {
        Effect::Send(c) => Some(c),
        _ => None,
    }
}

/// The effect that hands `r` to the worker, or nothing.
pub open spec fn sent(r: Option<Cmd>) -> Effect {
    match r {
        Some(c) => Effect::Send(c),
        None => Effect::Nothing,
    }
}

/// A text with its last character deleted, if it has one.
pub open spec fn backspaced(s: Seq<char>) -> Seq<char> {
    if s.len() > 0 {
        s.drop_last()
    } else {
        s
    }
}

/// `b` is the dashboard `a` after `action`, which asks `e` of the program
/// around it.
pub open spec fn performed(a: App, b: App, action: Action, e: Effect) -> bool {
    match action {
        Action::Nothing => b == a && e == Effect::Nothing,
        Action::Quit => b == (App { quit: true, ..a }) && e == Effect::Nothing,
        Action::CloseAsk => b == (App { asking: false, ask: b.ask, ..a }) && b.ask@.len() == 0 && e
            == Effect::Nothing,
        Action::SubmitAsk => {
            let mid = App { asking: false, ask: b.ask, ..a };
            &&& b.ask@.len() == 0
            &&& trimmed(a.ask@).len() == 0 ==> b == mid && e == Effect::Nothing
            &&& trimmed(a.ask@).len() > 0 ==> looked_up(mid, b, a.ask@, cmd_of(e)) && e == sent(
                cmd_of(e),
            )
        },
        Action::AskBackspace => b == (App { ask: b.ask, ..a }) && b.ask@ == backspaced(a.ask@) && e
            == Effect::Nothing,
        Action::AskType(c) => b == (App { ask: b.ask, ..a }) && b.ask@ == a.ask@.push(c) && e
            == Effect::Nothing,
        Action::CancelSearch => b.search@.len() == 0 && reindexed(
            App { searching: false, search: b.search, ..a },
            b,
        ) && e == Effect::Nothing,
        Action::EndSearch => b == (App { searching: false, ..a }) && e == Effect::Nothing,
        Action::SearchBackspace => b.search@ == backspaced(a.search@) && reindexed(
            App { search: b.search, ..a },
            b,
        ) && e == Effect::Nothing,
        Action::SearchType(c) => b.search@ == a.search@.push(c) && reindexed(
            App { search: b.search, ..a },
            b,
        ) && e == Effect::Nothing,
        Action::CloseDetail => b == (App { detail: false, scroll: 0, ..a }) && e == Effect::Nothing,
        Action::Scroll(d) => scrolled(a, b, d as int) && e == Effect::Nothing,
        Action::ScrollTop => b == (App { scroll: 0, ..a }) && e == Effect::Nothing,
        Action::ToggleBots => b == (App { show_bots: !a.show_bots, ..a }) && e == Effect::Nothing,
        Action::ReloadThread => thread_reloaded(a, b, cmd_of(e)) && e == sent(cmd_of(e)),
        Action::OpenBrowser => b == a && e == Effect::OpenBrowser,
        Action::CopyUrl => b == a && e == Effect::CopyUrl,
        Action::ClearSearch => b.search@.len() == 0 && reindexed(App { search: b.search, ..a }, b)
            && e == Effect::Nothing,
        Action::CloseHelp => b == (App { help: false, ..a }) && e == Effect::Nothing,
        Action::BackToMine => went_back(a, b) && e == Effect::Nothing,
        Action::ToggleHelp => b == (App { help: !a.help, ..a }) && e == Effect::Nothing,
        Action::Move(d) => moved(a, b, d as int) && e == Effect::Nothing,
        Action::Top => b == (App { cursor: 0, ..a }) && e == Effect::Nothing,
        Action::Bottom => at_end(a, b) && e == Effect::Nothing,
        Action::Cycle(forward) => filter_cycled(a, b, forward) && e == Effect::Nothing,
        Action::Pick(i) => filter_picked(a, b, i as int) && e == Effect::Nothing,
        Action::OpenDetail => detail_opened(a, b, cmd_of(e)) && e == sent(cmd_of(e)),
        Action::Refresh(pages) => e matches Effect::Send(c) && refreshed(a, b, pages, c),
        Action::StartSearch => b == (App { searching: true, search: b.search, ..a })
            && b.search@.len() == 0 && e == Effect::Nothing,
        Action::StartAsk => b == (App { asking: true, ask: b.ask, ..a }) && b.ask@.len() == 0 && e
            == Effect::Nothing,
    }
}

/// The mode of the dashboard `a`.
pub open spec fn mode_of(a: App) -> Mode {
    Mode {
        asking: a.asking,
        searching: a.searching,
        detail: a.detail,
        search_empty: a.search@.len() == 0,
        help: a.help,
        other_person: a.who is Some,
        ask_bytes: utf8_len(a.ask@),
    }
}

/// `String::pop`: the last character, if there is one, is removed; it is not
/// handed back.
#[verifier::external_body]
pub(crate) fn pop_char(s: &mut String)
    ensures
        final(s)@ == (if old(s)@.len() > 0 {
            old(s)@.drop_last()
        } else {
            old(s)@
        }),
{
    s.pop();
}

/// The UTF-8 length of a prefix is at most that of the whole.
proof fn lemma_utf8_len_prefix(s: Seq<char>, k: int)
    requires
        0 <= k <= s.len(),
    ensures
        utf8_len(s.take(k)) <= utf8_len(s),
    decreases s.len() - k,
{
    if k < s.len() {
        lemma_utf8_len_prefix(s, k + 1);
        assert(s.take(k + 1).drop_last() =~= s.take(k));
    } else {
        assert(s.take(k) =~= s);
    }
}

/// Whether a text is shorter than `limit` bytes of UTF-8.
pub fn shorter_than(s: &String, limit: usize) -> (r: bool)
    requires
        limit <= 1000,
    ensures
        r == (utf8_len(s@) < limit),
{
    if limit == 0 {
        return false;
    }
    let cs = crate::text::chars_of(s.as_str());
    let mut n: usize = 0;
    let mut i: usize = 0;
    assert(cs@.take(0) =~= Seq::<char>::empty());
    while i < cs.len()
        invariant
            i <= cs@.len(),
            cs@ == s@,
            limit <= 1000,
            n == utf8_len(cs@.take(i as int)),
            n < limit,
        decreases cs@.len() - i,
    {
        assert(cs@.take(i + 1).drop_last() =~= cs@.take(i as int));
        let u = cs[i] as u32;
        let w: usize = if u < 0x80 {
            1
        } else if u < 0x800 {
            2
        } else if u < 0x10000 {
            3
        } else {
            4
        };
        n = n + w;
        i = i + 1;
        if n >= limit {
            proof {
                lemma_utf8_len_prefix(s@, i as int);
            }
            return false;
        }
    }
    assert(cs@.take(i as int) =~= s@);
    true
}

impl App {
    /// What `key` does now (see `action_for`).
    pub fn action(&self, key: Key) -> (r: Action)
        ensures
            r == action_for(mode_of(*self), key),
    {
        if self.asking {
            return match key.code {
                KeyCode::Esc => Action::CloseAsk,
                KeyCode::Enter => Action::SubmitAsk,
                KeyCode::Backspace => Action::AskBackspace,
                KeyCode::Char(c) => if !is_white(c) && shorter_than(&self.ask, 40) {
                    Action::AskType(c)
                } else {
                    Action::Nothing
                },
                _ => Action::Nothing,
            };
        }
        if self.searching {
            return match key.code {
                KeyCode::Esc => Action::CancelSearch,
                KeyCode::Enter => Action::EndSearch,
                KeyCode::Backspace => Action::SearchBackspace,
                KeyCode::Char(c) => Action::SearchType(c),
                _ => Action::Nothing,
            };
        }
        if self.detail {
            return match key.code {
                KeyCode::Char('c') if key.ctrl => Action::Quit,
                KeyCode::Esc | KeyCode::Char('q') | KeyCode::Left => Action::CloseDetail,
                KeyCode::Down => Action::Scroll(1),
                KeyCode::Up => Action::Scroll(-1),
                KeyCode::PageDown | KeyCode::Char(' ') => Action::Scroll(15),
                KeyCode::PageUp => Action::Scroll(-15),
                KeyCode::Char('g') | KeyCode::Home => Action::ScrollTop,
                KeyCode::Char('b') => Action::ToggleBots,
                KeyCode::Char('r') => Action::ReloadThread,
                KeyCode::Char('o') => Action::OpenBrowser,
                KeyCode::Char('y') => Action::CopyUrl,
                _ => Action::Nothing,
            };
        }
        let search_empty = crate::thread::is_empty_text(&self.search);
        match key.code {
            KeyCode::Char('c') if key.ctrl => Action::Quit,
            KeyCode::Char('q') => Action::Quit,
            KeyCode::Esc if !search_empty => Action::ClearSearch,
            KeyCode::Esc if self.help => Action::CloseHelp,
            KeyCode::Esc if self.who.is_some() => Action::BackToMine,
            KeyCode::Char('?') => Action::ToggleHelp,
            KeyCode::Down => Action::Move(1),
            KeyCode::Up => Action::Move(-1),
            KeyCode::PageDown => Action::Move(10),
            KeyCode::PageUp => Action::Move(-10),
            KeyCode::Char('g') | KeyCode::Home => Action::Top,
            KeyCode::Char('G') | KeyCode::End => Action::Bottom,
            KeyCode::Right | KeyCode::Tab => Action::Cycle(true),
            KeyCode::Left | KeyCode::BackTab => Action::Cycle(false),
            KeyCode::Char(c) if '1' <= c && c <= '5' => Action::Pick(((c as u32) - 49) as usize),
            KeyCode::Enter => Action::OpenDetail,
            KeyCode::Char('o') => Action::OpenBrowser,
            KeyCode::Char('y') => Action::CopyUrl,
            KeyCode::Char('r') => Action::Refresh(5),
            KeyCode::Char('R') => Action::Refresh(20),
            KeyCode::Char('/') => Action::StartSearch,
            KeyCode::Char('u') => Action::StartAsk,
            _ => Action::Nothing,
        }
    }

    /// Does `action` (see `performed`); the browser, the clipboard and the
    /// worker are left to the caller, through the effect returned.
    pub fn perform(&mut self, action: Action) -> (e: Effect)
        requires
            action matches Action::Scroll(d) ==> i32::MIN <= old(self).scroll + d <= i32::MAX,
        ensures
            performed(*old(self), *final(self), action, e),
    {
        match action {
            Action::Nothing => Effect::Nothing,
            Action::Quit => {
                self.quit = true;
                Effect::Nothing
            },
            Action::CloseAsk => {
                self.asking = false;
                self.ask = String::new();
                Effect::Nothing
            },
            Action::SubmitAsk => {
                self.asking = false;
                let mut who = String::new();
                std::mem::swap(&mut who, &mut self.ask);
                let t = crate::text::trim(&crate::text::chars_of(who.as_str()));
                if t.len() == 0 {
                    Effect::Nothing
                } else {
                    match self.look_up(who.as_str()) {
                        Some(c) => Effect::Send(c),
                        None => Effect::Nothing,
                    }
                }
            },
            Action::AskBackspace => {
                pop_char(&mut self.ask);
                Effect::Nothing
            },
            Action::AskType(c) => {
                push_char(&mut self.ask, c);
                Effect::Nothing
            },
            Action::CancelSearch => {
                self.searching = false;
                self.search = String::new();
                self.reindex();
                Effect::Nothing
            },
            Action::EndSearch => {
                self.searching = false;
                Effect::Nothing
            },
            Action::SearchBackspace => {
                pop_char(&mut self.search);
                self.reindex();
                Effect::Nothing
            },
            Action::SearchType(c) => {
                push_char(&mut self.search, c);
                self.reindex();
                Effect::Nothing
            },
            Action::CloseDetail => {
                self.close_detail();
                Effect::Nothing
            },
            Action::Scroll(d) => {
                self.scroll_by(d);
                Effect::Nothing
            },
            Action::ScrollTop => {
                self.scroll = 0;
                Effect::Nothing
            },
            Action::ToggleBots => {
                self.show_bots = !self.show_bots;
                Effect::Nothing
            },
            Action::ReloadThread => match self.reload_thread() {
                Some(c) => Effect::Send(c),
                None => Effect::Nothing,
            },
            Action::OpenBrowser => Effect::OpenBrowser,
            Action::CopyUrl => Effect::CopyUrl,
            Action::ClearSearch => {
                self.search = String::new();
                self.reindex();
                Effect::Nothing
            },
            Action::CloseHelp => {
                self.help = false;
                Effect::Nothing
            },
            Action::BackToMine => {
                self.back_to_mine();
                Effect::Nothing
            },
            Action::ToggleHelp => {
                self.help = !self.help;
                Effect::Nothing
            },
            Action::Move(d) => {
                self.move_by(d);
                Effect::Nothing
            },
            Action::Top => {
                self.cursor = 0;
                Effect::Nothing
            },
            Action::Bottom => {
                self.jump_to_end();
                Effect::Nothing
            },
            Action::Cycle(forward) => {
                self.cycle_filter(forward);
                Effect::Nothing
            },
            Action::Pick(i) => {
                self.pick_filter(i);
                Effect::Nothing
            },
            Action::OpenDetail => match self.open_detail() {
                Some(c) => Effect::Send(c),
                None => Effect::Nothing,
            },
            Action::Refresh(pages) => Effect::Send(self.refresh(pages)),
            Action::StartSearch => {
                self.searching = true;
                self.search = String::new();
                Effect::Nothing
            },
            Action::StartAsk => {
                self.asking = true;
                self.ask = String::new();
                Effect::Nothing
            },
        }
    }

    /// Answers a key press: does what the key does now (see `action_for`
    /// and `performed`).
    pub fn handle(&mut self, key: Key) -> (e: Effect)
        ensures
            performed(*old(self), *final(self), action_for(mode_of(*old(self)), key), e),
    {
        let action = self.action(key);
        self.perform(action)
    }
}

/// Every key keeps the selection in range: each row names an item, and the
/// selection stands on a row, or at the top of an empty list.
pub proof fn law_keys_keep_the_selection(a: App, key: Key, b: App, e: Effect)
    requires
        selection_in_range(a),
        performed(a, b, action_for(mode_of(a), key), e),
    ensures
        selection_in_range(b),
{
    match action_for(mode_of(a), key) {
        Action::SubmitAsk => {
            let mid = App { asking: false, ask: b.ask, ..a };
            assert(selection_in_range(mid));
        },
        Action::CancelSearch => {
            let mid = App { searching: false, search: b.search, ..a };
            lemma_fresh_rows_in_range(mid, b, mid.selected_url(), mid.cursor);
        },
        Action::SearchBackspace | Action::SearchType(_) | Action::ClearSearch => {
            let mid = App { search: b.search, ..a };
            lemma_fresh_rows_in_range(mid, b, mid.selected_url(), mid.cursor);
        },
        Action::BackToMine => {
            if a.who is Some {
                lemma_fresh_rows_in_range(b, b, None, 0);
            }
        },
        Action::Cycle(forward) => {
            let o = a.filters_of();
            let f = o[next_position(position_or_first(o, a.filter), o.len() as int, forward)];
            let mid = App { filter: f, cursor: 0, ..a };
            lemma_fresh_rows_in_range(mid, b, mid.selected_url(), mid.cursor);
        },
        Action::Pick(i) => {
            if (i as int) < a.filters_of().len() {
                let mid = App { filter: a.filters_of()[i as int], cursor: 0, ..a };
                lemma_fresh_rows_in_range(mid, b, mid.selected_url(), mid.cursor);
            }
        },
        _ => {},
    }
}

} // verus!
