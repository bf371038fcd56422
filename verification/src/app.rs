//! The state of the terminal app and how a key press or the passing of time
//! changes it. Nothing here waits, reads the terminal or touches the
//! network: a lookup the user asks for is left in `pending_lookup` for the
//! event loop to perform and hand back through [`App::start_lookup`].
use vstd::prelude::*;

use crate::tls::{ChainInfo, ChainInfoView};
use crate::text::{char_count, insert_char, remove_char};

verus! {

/// How long (in milliseconds) a revealed tree node stays alone on screen
/// before the next one joins it. Every revealed node has already been fully
/// validated — this only paces how fast the (already-known) result appears.
pub const REVEAL_INTERVAL_MS: u64 = 220;

/// How long (in milliseconds) a single event-loop tick blocks waiting for a
/// keypress before giving the animation a chance to advance.
pub const EVENT_POLL_INTERVAL_MS: u64 = 50;

/// RFC 1035 caps a full domain name at 253 characters. Input beyond that
/// can never resolve, so there's no reason to let it grow further — it
/// also keeps the cursor's on-screen column math well within `u16` range.
pub const MAX_DOMAIN_INPUT_LEN: usize = 253;

/// Which screen the TUI is currently showing.
#[derive(Debug, Clone, Copy, PartialEq, Eq, Structural)]
pub enum Screen {
    Input,
    Chain,
}

/// The keys the app tells apart.
#[derive(Debug, Clone, Copy, PartialEq, Eq, Structural)]
pub enum KeyCode {
    Char(char),
    Enter,
    Backspace,
    Left,
    Right,
    Up,
    Down,
    Esc,
    Other,
}

/// A key press: the key, and whether Control was held.
#[derive(Debug, Clone, Copy, PartialEq, Eq, Structural)]
pub struct Key {
    pub code: KeyCode,
    pub ctrl: bool,
}

impl Key {
    pub fn new(code: KeyCode, ctrl: bool) -> (r: Key)
        ensures
            r == (Key { code, ctrl }),
    {
        Key { code, ctrl }
    }
}

pub struct App {
    pub screen: Screen,
    pub domain_input: String,
    /// A character index into `domain_input`.
    pub input_cursor: usize,
    pub domain: Option<String>,
    pub fetch_result: Option<Result<ChainInfo, String>>,
    /// How many chain hops are currently revealed in the tree animation.
    pub revealed: usize,
    /// When the last hop was revealed, in milliseconds of a monotonic clock.
    pub last_reveal_ms: u64,
    /// Index of the hop selected for the detail pane.
    pub selected: usize,
    pub show_detail: bool,
    pub show_help: bool,
    pub should_quit: bool,
    /// A domain the user asked to look up, not yet looked up.
    pub pending_lookup: Option<String>,
}

pub struct AppView {
    pub screen: Screen,
    pub domain_input: Seq<char>,
    pub input_cursor: usize,
    pub domain: Option<Seq<char>>,
    pub fetch_result: Option<Result<ChainInfoView, Seq<char>>>,
    pub revealed: usize,
    pub last_reveal_ms: u64,
    pub selected: usize,
    pub show_detail: bool,
    pub show_help: bool,
    pub should_quit: bool,
    pub pending_lookup: Option<Seq<char>>,
}

pub open spec fn opt_string_view(o: Option<String>) -> Option<Seq<char>> {
    match o {
        Some(s) => Some(s@),
        None => None,
    }
}

pub open spec fn fetch_view(r: Option<Result<ChainInfo, String>>) -> Option<
    Result<ChainInfoView, Seq<char>>,
> {
    match r {
        Some(Ok(info)) => Some(Ok(info@)),
        Some(Err(m)) => Some(Err(m@)),
        None => None,
    }
}

impl View for App {
    type V = AppView;

    open spec fn view(&self) -> AppView {
        AppView {
            screen: self.screen,
            domain_input: self.domain_input@,
            input_cursor: self.input_cursor,
            domain: opt_string_view(self.domain),
            fetch_result: fetch_view(self.fetch_result),
            revealed: self.revealed,
            last_reveal_ms: self.last_reveal_ms,
            selected: self.selected,
            show_detail: self.show_detail,
            show_help: self.show_help,
            should_quit: self.should_quit,
            pending_lookup: opt_string_view(self.pending_lookup),
        }
    }
}

/// The number of hops a successful lookup found; 0 otherwise.
pub open spec fn hop_total(s: AppView) -> int {
    match s.fetch_result {
        Some(Ok(info)) => info.analysis.hops.len() as int,
        _ => 0,
    }
}

/// The character position that cursor `cursor` inserts at.
pub open spec fn insert_position(input: Seq<char>, cursor: usize) -> int {
    if cursor <= input.len() {
        cursor as int
    } else {
        input.len() as int
    }
}

/// The key presses on which the app would stop on an arithmetic overflow,
/// or remove a character past the end of the input (a cursor beyond the
/// input's end, which no sequence of key presses produces).
pub open spec fn key_panics(s: AppView, k: Key) -> bool {
    &&& !(k.code == KeyCode::Char('c') && k.ctrl)
    &&& !s.show_help
    &&& k.code != KeyCode::Char('?')
    &&& match s.screen {
        Screen::Input => match k.code {
            KeyCode::Char(_) => s.domain_input.len() < MAX_DOMAIN_INPUT_LEN && s.input_cursor
                == usize::MAX,
            KeyCode::Backspace => s.input_cursor > 0 && s.input_cursor - 1 >= s.domain_input.len(),
            KeyCode::Right => s.input_cursor == usize::MAX,
            _ => false,
        },
        Screen::Chain => !s.show_detail && k.code == KeyCode::Down && s.selected == usize::MAX,
    }
}

/// A key press on the domain-input screen.
pub open spec fn input_key_step(s: AppView, code: KeyCode) -> AppView {
    match code {
        KeyCode::Enter => if s.domain_input.len() > 0 {
            AppView { pending_lookup: Some(s.domain_input), ..s }
        } else {
            s
        },
        KeyCode::Char(c) => if s.domain_input.len() < MAX_DOMAIN_INPUT_LEN {
            let p = insert_position(s.domain_input, s.input_cursor);
            AppView {
                domain_input: s.domain_input.take(p).push(c) + s.domain_input.skip(p),
                input_cursor: (s.input_cursor + 1) as usize,
                ..s
            }
        } else {
            s
        },
        KeyCode::Backspace => if s.input_cursor > 0 {
            let p = s.input_cursor - 1;
            AppView {
                domain_input: s.domain_input.take(p) + s.domain_input.skip(p + 1),
                input_cursor: (s.input_cursor - 1) as usize,
                ..s
            }
        } else {
            s
        },
        KeyCode::Left => AppView {
            input_cursor: if s.input_cursor > 0 {
                (s.input_cursor - 1) as usize
            } else {
                0
            },
            ..s
        },
        KeyCode::Right => AppView {
            input_cursor: if s.input_cursor + 1 <= s.domain_input.len() {
                (s.input_cursor + 1) as usize
            } else {
                s.domain_input.len() as usize
            },
            ..s
        },
        KeyCode::Esc => AppView { should_quit: true, ..s },
        _ => s,
    }
}

/// A key press on the chain screen.
pub open spec fn chain_key_step(s: AppView, code: KeyCode) -> AppView {
    if s.show_detail {
        if code == KeyCode::Esc {
            AppView { show_detail: false, ..s }
        } else {
            s
        }
    } else {
        match code {
            KeyCode::Char('q') | KeyCode::Esc => AppView { should_quit: true, ..s },
            KeyCode::Char('n') => AppView {
                domain: None,
                domain_input: Seq::empty(),
                input_cursor: 0,
                fetch_result: None,
                revealed: 0,
                selected: 0,
                screen: Screen::Input,
                ..s
            },
            KeyCode::Up => AppView {
                selected: if s.selected > 0 {
                    (s.selected - 1) as usize
                } else {
                    0
                },
                ..s
            },
            KeyCode::Down => {
                let max = if s.revealed > 0 {
                    s.revealed - 1
                } else {
                    0
                };
                AppView {
                    selected: if s.selected + 1 <= max {
                        (s.selected + 1) as usize
                    } else {
                        max as usize
                    },
                    ..s
                }
            },
            KeyCode::Enter => if s.revealed > 0 {
                AppView { show_detail: true, ..s }
            } else {
                s
            },
            _ => s,
        }
    }
}

/// What a key press does to the app.
pub open spec fn key_step(s: AppView, k: Key) -> AppView {
    if k.code == KeyCode::Char('c') && k.ctrl {
        AppView { should_quit: true, ..s }
    } else if s.show_help {
        // Any key dismisses the overlay without otherwise acting on it.
        AppView { show_help: false, ..s }
    } else if k.code == KeyCode::Char('?') {
        AppView { show_help: true, ..s }
    } else {
        match s.screen {
            Screen::Input => input_key_step(s, k.code),
            Screen::Chain => chain_key_step(s, k.code),
        }
    }
}

/// What the passing of time, up to `now_ms`, does to the app.
pub open spec fn tick_step(s: AppView, now_ms: u64) -> AppView {
    if s.revealed >= hop_total(s) {
        s
    } else if now_ms >= s.last_reveal_ms && now_ms - s.last_reveal_ms >= REVEAL_INTERVAL_MS {
        AppView { revealed: (s.revealed + 1) as usize, last_reveal_ms: now_ms, ..s }
    } else {
        s
    }
}

impl App {
    /// A fresh app on the input screen. An initial domain is queued for
    /// lookup.
    pub fn new(initial_domain: Option<String>) -> (app: App)
        ensures
            app@ == (AppView {
                screen: Screen::Input,
                domain_input: Seq::empty(),
                input_cursor: 0,
                domain: None,
                fetch_result: None,
                revealed: 0,
                last_reveal_ms: 0,
                selected: 0,
                show_detail: false,
                show_help: false,
                should_quit: false,
                pending_lookup: opt_string_view(initial_domain),
            }),
    {
        App {
            screen: Screen::Input,
            domain_input: String::new(),
            input_cursor: 0,
            domain: None,
            fetch_result: None,
            revealed: 0,
            last_reveal_ms: 0,
            selected: 0,
            show_detail: false,
            show_help: false,
            should_quit: false,
            pending_lookup: initial_domain,
        }
    }

    /// Show the outcome of looking up `domain`, starting the reveal
    /// animation at `now_ms`.
    pub fn start_lookup(&mut self, domain: String, result: Result<ChainInfo, String>, now_ms: u64)
        ensures
            final(self)@ == (AppView {
                fetch_result: fetch_view(Some(result)),
                domain: Some(domain@),
                screen: Screen::Chain,
                revealed: 0,
                selected: 0,
                show_detail: false,
                last_reveal_ms: now_ms,
                pending_lookup: None,
                ..old(self)@
            }),
    {
        self.fetch_result = Some(result);
        self.domain = Some(domain);
        self.screen = Screen::Chain;
        self.revealed = 0;
        self.selected = 0;
        self.show_detail = false;
        self.last_reveal_ms = now_ms;
        self.pending_lookup = None;
    }

    /// The number of hops a successful lookup found; 0 otherwise.
    pub fn total_hops(&self) -> (r: usize)
        ensures
            r == hop_total(self@),
    {
        match &self.fetch_result {
            Some(Ok(info)) => info.analysis.hops.len(),
            _ => 0,
        }
    }

    /// Advance the reveal animation if enough time has passed since the
    /// last reveal. Called once per event-loop iteration regardless of
    /// whether a key was pressed.
    pub fn tick(&mut self, now_ms: u64)
        ensures
            final(self)@ == tick_step(old(self)@, now_ms),
    {
        if self.revealed >= self.total_hops() {
            return;
        }
        if now_ms >= self.last_reveal_ms && now_ms - self.last_reveal_ms >= REVEAL_INTERVAL_MS {
            self.revealed += 1;
            self.last_reveal_ms = now_ms;
        }
    }

    /// Whether [`App::handle_key`] cannot take this key press: it would
    /// overflow a counter, or remove a character past the end of the input.
    /// No state that key presses, ticks and lookups reach from a new app
    /// makes it true.
    pub fn key_would_fail(&self, key: Key) -> (r: bool)
        ensures
            r == key_panics(self@, key),
    {
        if (key.code == KeyCode::Char('c') && key.ctrl) || self.show_help || key.code
            == KeyCode::Char('?') {
            return false;
        }
        match self.screen {
            Screen::Input => match key.code {
                KeyCode::Char(_) => char_count(self.domain_input.as_str()) < MAX_DOMAIN_INPUT_LEN
                    && self.input_cursor == usize::MAX,
                KeyCode::Backspace => self.input_cursor > 0 && self.input_cursor - 1 >= char_count(
                    self.domain_input.as_str(),
                ),
                KeyCode::Right => self.input_cursor == usize::MAX,
                _ => false,
            },
            Screen::Chain => !self.show_detail && key.code == KeyCode::Down && self.selected
                == usize::MAX,
        }
    }

    /// Apply a key press.
    pub fn handle_key(&mut self, key: Key)
        requires
            !key_panics(old(self)@, key),
        ensures
            final(self)@ == key_step(old(self)@, key),
    {
        if key.code == KeyCode::Char('c') && key.ctrl {
            self.should_quit = true;
            return;
        }
        if self.show_help {
            self.show_help = false;
            return;
        }
        if key.code == KeyCode::Char('?') {
            self.show_help = true;
            return;
        }
        match self.screen {
            Screen::Input => self.handle_input_key(key.code),
            Screen::Chain => self.handle_chain_key(key.code),
        }
    }

    fn handle_input_key(&mut self, code: KeyCode)
        requires
            old(self).screen == Screen::Input,
            !key_panics(old(self)@, Key { code, ctrl: false }),
            code != KeyCode::Char('?'),
            !old(self).show_help,
        ensures
            final(self)@ == input_key_step(old(self)@, code),
    {
        match code {
            KeyCode::Enter => {
                if char_count(self.domain_input.as_str()) > 0 {
                    self.pending_lookup = Some(self.domain_input.clone());
                }
            },
            KeyCode::Char(c) => {
                let count = char_count(self.domain_input.as_str());
                if count < MAX_DOMAIN_INPUT_LEN {
                    let p = if self.input_cursor <= count {
                        self.input_cursor
                    } else {
                        count
                    };
                    self.domain_input = insert_char(self.domain_input.as_str(), p, c);
                    self.input_cursor += 1;
                }
            },
            KeyCode::Backspace => {
                if self.input_cursor > 0 {
                    self.input_cursor -= 1;
                    self.domain_input = remove_char(self.domain_input.as_str(), self.input_cursor);
                }
            },
            KeyCode::Left => {
                if self.input_cursor > 0 {
                    self.input_cursor -= 1;
                }
            },
            KeyCode::Right => {
                let count = char_count(self.domain_input.as_str());
                self.input_cursor = if self.input_cursor + 1 <= count {
                    self.input_cursor + 1
                } else {
                    count
                };
            },
            KeyCode::Esc => {
                self.should_quit = true;
            },
            _ => {},
        }
    }

    fn handle_chain_key(&mut self, code: KeyCode)
        requires
            old(self).screen == Screen::Chain,
            !key_panics(old(self)@, Key { code, ctrl: false }),
            code != KeyCode::Char('?'),
            !old(self).show_help,
        ensures
            final(self)@ == chain_key_step(old(self)@, code),
    {
        if self.show_detail {
            if code == KeyCode::Esc {
                self.show_detail = false;
            }
            return;
        }
        match code {
            KeyCode::Char('q') | KeyCode::Esc => {
                self.should_quit = true;
            },
            KeyCode::Char('n') => {
                self.domain = None;
                self.domain_input = String::new();
                self.input_cursor = 0;
                self.fetch_result = None;
                self.revealed = 0;
                self.selected = 0;
                self.screen = Screen::Input;
            },
            KeyCode::Up => {
                if self.selected > 0 {
                    self.selected -= 1;
                }
            },
            KeyCode::Down => {
                let max = if self.revealed > 0 {
                    self.revealed - 1
                } else {
                    0
                };
                self.selected = if self.selected + 1 <= max {
                    self.selected + 1
                } else {
                    max
                };
            },
            KeyCode::Enter => {
                if self.revealed > 0 {
                    self.show_detail = true;
                }
            },
            _ => {},
        }
    }
}

// ---------------------------------------------------------------------------
// Laws
// ---------------------------------------------------------------------------

/// The app's standing invariant: the cursor within the input, the input
/// within the cap, and a selection that can still move down.
pub open spec fn app_wf(s: AppView) -> bool {
    &&& s.input_cursor <= s.domain_input.len()
    &&& s.domain_input.len() <= MAX_DOMAIN_INPUT_LEN
    &&& s.selected < usize::MAX
}

/// A new app is well formed.
pub proof fn law_new_app_well_formed(initial_domain: Option<Seq<char>>)
    ensures
        app_wf(
            AppView {
                screen: Screen::Input,
                domain_input: Seq::empty(),
                input_cursor: 0,
                domain: None,
                fetch_result: None,
                revealed: 0,
                last_reveal_ms: 0,
                selected: 0,
                show_detail: false,
                show_help: false,
                should_quit: false,
                pending_lookup: initial_domain,
            },
        ),
{
}

/// In a well-formed state no key press fails, and every key press, tick
/// and finished lookup leaves the state well formed.
pub proof fn law_steps_keep_well_formed(
    s: AppView,
    k: Key,
    now_ms: u64,
    domain: Seq<char>,
    result: Option<Result<ChainInfoView, Seq<char>>>,
)
    requires
        app_wf(s),
    ensures
        !key_panics(s, k),
        app_wf(key_step(s, k)),
        app_wf(tick_step(s, now_ms)),
        app_wf(
            AppView {
                fetch_result: result,
                domain: Some(domain),
                screen: Screen::Chain,
                revealed: 0,
                selected: 0,
                show_detail: false,
                last_reveal_ms: now_ms,
                pending_lookup: None,
                ..s
            },
        ),
{
    let t = key_step(s, k);
    if !(k.code == KeyCode::Char('c') && k.ctrl) && !s.show_help && k.code != KeyCode::Char('?') {
        match s.screen {
            Screen::Input => match k.code {
                KeyCode::Char(c) => {
                    if s.domain_input.len() < MAX_DOMAIN_INPUT_LEN {
                        let p = insert_position(s.domain_input, s.input_cursor);
                        assert((s.domain_input.take(p).push(c) + s.domain_input.skip(p)).len()
                            == s.domain_input.len() + 1);
                    }
                },
                KeyCode::Backspace => {
                    if s.input_cursor > 0 {
                        let p = s.input_cursor - 1;
                        assert((s.domain_input.take(p) + s.domain_input.skip(p + 1)).len()
                            == s.domain_input.len() - 1);
                    }
                },
                _ => {},
            },
            Screen::Chain => {},
        }
    }
}

/// Typing a character and then pressing Backspace gives back the input
/// and the cursor as they were.
pub proof fn law_backspace_undoes_typing(s: AppView, c: char)
    requires
        app_wf(s),
        s.screen == Screen::Input,
        !s.show_help,
        c != '?',
        s.domain_input.len() < MAX_DOMAIN_INPUT_LEN,
    ensures
        key_step(key_step(s, Key { code: KeyCode::Char(c), ctrl: false }), Key {
            code: KeyCode::Backspace,
            ctrl: false,
        }).domain_input == s.domain_input,
        key_step(key_step(s, Key { code: KeyCode::Char(c), ctrl: false }), Key {
            code: KeyCode::Backspace,
            ctrl: false,
        }).input_cursor == s.input_cursor,
{
    let t = key_step(s, Key { code: KeyCode::Char(c), ctrl: false });
    let p = s.input_cursor as int;
    let typed = s.domain_input.take(p).push(c) + s.domain_input.skip(p);
    assert(t.domain_input == typed);
    assert(typed.take(p) + typed.skip(p + 1) =~= s.domain_input);
}

/// The reveal animation never shows more hops than the lookup found, and
/// never takes a hop back.
pub proof fn law_reveal_within_hops(s: AppView, now_ms: u64)
    requires
        s.revealed <= hop_total(s) <= usize::MAX,
    ensures
        s.revealed <= tick_step(s, now_ms).revealed <= hop_total(tick_step(s, now_ms)),
        tick_step(s, now_ms).revealed <= s.revealed + 1,
{
}

/// On the domain-input screen each key does exactly this to the input and
/// its cursor: a character `ch` goes in at the cursor while the input is
/// under the cap; Backspace removes the character before the cursor; Left
/// and Right move the cursor within the input; Esc quits; Enter on a
/// non-empty input asks for its lookup. No key fails, and the cursor stays
/// within an input that stays within the cap.
pub proof fn law_domain_input_keys(st: AppView, key: Key, ch: char)
    requires
        app_wf(st),
        st.screen == Screen::Input,
        !st.show_help,
        !(key.code == KeyCode::Char('c') && key.ctrl),
        key.code != KeyCode::Char('?'),
    ensures
        !key_panics(st, key),
        app_wf(key_step(st, key)),
        key.code == KeyCode::Char(ch) && st.domain_input.len() < MAX_DOMAIN_INPUT_LEN ==> key_step(
            st,
            key,
        ) == (AppView {
            domain_input: st.domain_input.take(st.input_cursor as int).push(ch)
                + st.domain_input.skip(st.input_cursor as int),
            input_cursor: (st.input_cursor + 1) as usize,
            ..st
        }),
        key.code == KeyCode::Char(ch) && st.domain_input.len() >= MAX_DOMAIN_INPUT_LEN ==> key_step(
            st,
            key,
        ) == st,
        key.code == KeyCode::Backspace && st.input_cursor > 0 ==> key_step(st, key) == (AppView {
            domain_input: st.domain_input.take(st.input_cursor - 1) + st.domain_input.skip(
                st.input_cursor as int,
            ),
            input_cursor: (st.input_cursor - 1) as usize,
            ..st
        }),
        key.code == KeyCode::Backspace && st.input_cursor == 0 ==> key_step(st, key) == st,
        key.code == KeyCode::Left ==> key_step(st, key) == (AppView {
            input_cursor: (if st.input_cursor > 0 {
                (st.input_cursor - 1) as usize
            } else {
                0
            }),
            ..st
        }),
        key.code == KeyCode::Right ==> key_step(st, key) == (AppView {
            input_cursor: smaller((st.input_cursor + 1) as int, st.domain_input.len() as int)
                as usize,
            ..st
        }),
        key.code == KeyCode::Esc ==> key_step(st, key) == (AppView { should_quit: true, ..st }),
        key.code == KeyCode::Enter && st.domain_input.len() > 0 ==> key_step(st, key) == (AppView {
            pending_lookup: Some(st.domain_input),
            ..st
        }),
        key.code == KeyCode::Enter && st.domain_input.len() == 0 ==> key_step(st, key) == st,
{
    law_steps_keep_well_formed(st, key, 0, Seq::empty(), None);
}

/// The smaller of two integers.
pub open spec fn smaller(a: int, b: int) -> int {
    if a <= b {
        a
    } else {
        b
    }
}

/// On the chain screen with the detail pane closed, Enter opens it only
/// once a hop is revealed, and changes nothing else.
pub proof fn law_enter_opens_detail_only_when_revealed(st: AppView, ctrl: bool)
    requires
        st.screen == Screen::Chain,
        !st.show_help,
        !st.show_detail,
    ensures
        key_step(st, Key { code: KeyCode::Enter, ctrl }) == (AppView {
            show_detail: st.revealed > 0,
            ..st
        }),
{
}

/// With the detail pane open, Esc closes it without quitting, and every
/// other key but Ctrl+C and `?` leaves the app as it was.
pub proof fn law_esc_closes_detail_without_quitting(st: AppView, key: Key)
    requires
        st.screen == Screen::Chain,
        !st.show_help,
        st.show_detail,
        !(key.code == KeyCode::Char('c') && key.ctrl),
        key.code != KeyCode::Char('?'),
    ensures
        key.code == KeyCode::Esc ==> key_step(st, key) == (AppView { show_detail: false, ..st }),
        key.code != KeyCode::Esc ==> key_step(st, key) == st,
        key_step(st, key).should_quit == st.should_quit,
{
}

/// On the chain screen with no overlay open, Up selects the hop just above
/// (staying on the first), Down the hop just below (staying on the last
/// revealed one), and neither changes anything else; Up undoes a Down that
/// moved.
pub proof fn law_up_and_down_move_one_hop(st: AppView, ctrl: bool)
    requires
        st.screen == Screen::Chain,
        !st.show_help,
        !st.show_detail,
        st.selected < usize::MAX,
    ensures
        st.selected > 0 ==> key_step(st, Key { code: KeyCode::Up, ctrl }) == (AppView {
            selected: (st.selected - 1) as usize,
            ..st
        }),
        st.selected == 0 ==> key_step(st, Key { code: KeyCode::Up, ctrl }) == st,
        st.selected + 1 < st.revealed ==> key_step(st, Key { code: KeyCode::Down, ctrl }) == (
        AppView { selected: (st.selected + 1) as usize, ..st }),
        st.selected + 1 < st.revealed ==> key_step(
            key_step(st, Key { code: KeyCode::Down, ctrl }),
            Key { code: KeyCode::Up, ctrl },
        ) == st,
        key_step(st, Key { code: KeyCode::Down, ctrl }).selected >= st.selected || st.selected
            >= st.revealed,
        st.revealed > 0 ==> key_step(st, Key { code: KeyCode::Down, ctrl }).selected
            < st.revealed,
{
}

/// A tick that reveals a hop reveals exactly one, and only once
/// `REVEAL_INTERVAL_MS` have passed since the last reveal; it records
/// `now_ms` as the time of this reveal. A tick that reveals nothing changes
/// nothing. So no two reveals are ever less than `REVEAL_INTERVAL_MS`
/// apart. (The number of hops, the length of a `Vec`, fits in `usize`.)
pub proof fn law_reveals_are_spaced(st: AppView, t1: u64, t2: u64)
    requires
        hop_total(st) <= usize::MAX,
    ensures
        tick_step(st, t1).revealed > st.revealed ==> {
            &&& tick_step(st, t1).revealed == st.revealed + 1
            &&& tick_step(st, t1).last_reveal_ms == t1
            &&& t1 >= st.last_reveal_ms + REVEAL_INTERVAL_MS
            &&& tick_step(st, t1) == (AppView {
                revealed: tick_step(st, t1).revealed,
                last_reveal_ms: t1,
                ..st
            })
        },
        tick_step(st, t1).revealed <= st.revealed ==> tick_step(st, t1) == st,
        t1 < st.last_reveal_ms + REVEAL_INTERVAL_MS ==> tick_step(st, t1) == st,
        tick_step(st, t1).revealed > st.revealed && t2 < t1 + REVEAL_INTERVAL_MS ==> tick_step(
            tick_step(st, t1),
            t2,
        ) == tick_step(st, t1),
{
}

} // verus!
