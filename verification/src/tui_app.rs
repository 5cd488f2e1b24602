//! The interactive interface with tabs: what each key does to the interface
//! and to the configuration, and the texts it shows.
use crate::config::{
    Config, ConfigView, Container, ContainerView, RouteView, spec_add_or_update,
    spec_find_container, spec_remove_container, spec_remove_route, spec_set_route,
};
use crate::text::{
    decimal, decimal_string, join_seqs, join_strings, lowercase, pop_char, push_char,
    push_decimal, string_views, to_chars, to_lowercase,
};
use crate::nginx::{NginxConfigGenerator, generator_style, spec_dockerfile, spec_nginx_config};
use crate::tui::{Tab, spec_tab_next, spec_tab_prev};
use vstd::prelude::*;
use vstd::string::StrSliceExecFns;

verus! {

/// Whether a character is an ASCII decimal digit.
pub open spec fn is_digit(c: char) -> bool {
    '0' as u32 <= c as u32 <= '9' as u32
}

/// Whether every character is an ASCII decimal digit.
pub open spec fn all_digits(s: Seq<char>) -> bool {
    forall|i: int| 0 <= i < s.len() ==> is_digit(#[trigger] s[i])
}

/// The number that a run of decimal digits writes.
pub open spec fn digits_value(s: Seq<char>) -> nat
    decreases s.len(),
{
    if s.len() == 0 {
        0
    } else {
        digits_value(s.drop_last()) * 10 + (s.last() as u32 - '0' as u32) as nat
    }
}

/// The digits of an unsigned number: the text without one leading `+`.
pub open spec fn unsigned_digits(s: Seq<char>) -> Seq<char> {
    if s.len() > 0 && s[0] == '+' {
        s.drop_first()
    } else {
        s
    }
}

/// The port that a text writes as `u16::from_str` reads it: an optional
/// `+`, then one or more decimal digits, of value at most 65535.
pub open spec fn spec_parse_port(s: Seq<char>) -> Option<u16> {
    let d = unsigned_digits(s);
    if d.len() > 0 && all_digits(d) && digits_value(d) <= 65535 {
        Some(digits_value(d) as u16)
    } else {
        None
    }
}

/// A prefix of a run of digits writes no larger number than the run.
proof fn lemma_digits_value_prefix(s: Seq<char>, k: int)
    requires
        0 <= k <= s.len(),
        all_digits(s),
    ensures
        digits_value(s.subrange(0, k)) <= digits_value(s),
    decreases s.len(),
{
    if k < s.len() {
        let t = s.drop_last();
        assert(all_digits(t)) by {
            assert forall|i: int| 0 <= i < t.len() implies is_digit(#[trigger] t[i]) by {
                assert(t[i] == s[i]);
            }
        }
        lemma_digits_value_prefix(t, k);
        assert(t.subrange(0, k) =~= s.subrange(0, k));
    } else {
        assert(s.subrange(0, k) =~= s);
    }
}

/// Reads the characters `cs[from..to]` as a port.
fn parse_port_chars(cs: &Vec<char>, from: usize, to: usize) -> (r: Option<u16>)
    requires
        from <= to <= cs.len(),
    ensures
        r == spec_parse_port(cs@.subrange(from as int, to as int)),
{
    let ghost s = cs@.subrange(from as int, to as int);
    let mut start = from;
    if from < to && cs[from] == '+' {
        start = from + 1;
    }
    let ghost d = cs@.subrange(start as int, to as int);
    assert(d =~= unsigned_digits(s));
    if start >= to {
        return None;
    }
    let mut acc: u32 = 0;
    let mut i = start;
    while i < to
        invariant
            from <= start < to <= cs.len(),
            start <= i <= to,
            d == cs@.subrange(start as int, to as int),
            d == unsigned_digits(s),
            s == cs@.subrange(from as int, to as int),
            all_digits(cs@.subrange(start as int, i as int)),
            acc == digits_value(cs@.subrange(start as int, i as int)),
            acc <= 65535,
        decreases to - i,
    {
        let c = cs[i];
        let ghost k = i - start;
        let code = c as u32;
        if !('0' as u32 <= code && code <= '9' as u32) {
            proof {
                assert(d[k] == c);
                assert(!all_digits(d));
            }
            return None;
        }
        let digit = code - ('0' as u32);
        let next = acc * 10 + digit;
        proof {
            let p = cs@.subrange(start as int, i as int + 1);
            assert(p.drop_last() =~= cs@.subrange(start as int, i as int));
            assert(all_digits(p)) by {
                assert forall|j: int| 0 <= j < p.len() implies is_digit(#[trigger] p[j]) by {
                    if j < p.len() - 1 {
                        assert(p[j] == cs@.subrange(start as int, i as int)[j]);
                    }
                }
            }
            assert(next == digits_value(p));
        }
        if next > 65535 {
            proof {
                let p = cs@.subrange(start as int, i as int + 1);
                assert(p =~= d.subrange(0, k + 1));
                if all_digits(d) {
                    lemma_digits_value_prefix(d, k + 1);
                }
            }
            return None;
        }
        acc = next;
        i = i + 1;
    }
    proof {
        assert(cs@.subrange(start as int, i as int) =~= d);
    }
    Some(acc as u16)
}

/// Reads a text as a port, as `str::parse::<u16>` does.
pub fn parse_port(s: &str) -> (r: Option<u16>)
    ensures
        r == spec_parse_port(s@),
{
    let cs = to_chars(s);
    proof {
        assert(cs@.subrange(0, cs@.len() as int) =~= s@);
    }
    parse_port_chars(&cs, 0, cs.len())
}

/// `i` is the position of the first `:` of a text.
pub open spec fn is_first_colon(s: Seq<char>, i: int) -> bool {
    &&& 0 <= i < s.len()
    &&& s[i] == ':'
    &&& forall|j: int| 0 <= j < i ==> s[j] != ':'
}

/// The port and the container that a text `port:container` gives: split at
/// the first `:`; nothing when there is none or the port does not read.
pub open spec fn spec_route_input(s: Seq<char>) -> Option<(u16, Seq<char>)> {
    if exists|i: int| is_first_colon(s, i) {
        let i = choose|i: int| is_first_colon(s, i);
        match spec_parse_port(s.subrange(0, i)) {
            Some(p) => Some((p, s.subrange(i + 1, s.len() as int))),
            None => None,
        }
    } else {
        None
    }
}

/// Reads a text `port:container`.
pub fn parse_route_input(s: &str) -> (r: Option<(u16, String)>)
    ensures
        match spec_route_input(s@) {
            Some((p, t)) => r matches Some((q, u)) && q == p && u@ == t,
            None => r is None,
        },
{
    let cs = to_chars(s);
    let mut i: usize = 0;
    while i < cs.len()
        invariant
            0 <= i <= cs.len(),
            cs@ == s@,
            forall|j: int| 0 <= j < i ==> cs@[j] != ':',
        decreases cs.len() - i,
    {
        if cs[i] == ':' {
            proof {
                assert(is_first_colon(s@, i as int));
                let w = choose|w: int| is_first_colon(s@, w);
                assert(w == i) by {
                    if w < i {
                        assert(s@[w] == ':');
                    } else if w > i {
                        assert(s@[i as int] == ':');
                    }
                }
            }
            let port = match parse_port_chars(&cs, 0, i) {
                Some(p) => p,
                None => return None,
            };
            let target = s.substring_char(i + 1, cs.len()).to_owned();
            return Some((port, target));
        }
        i = i + 1;
    }
    proof {
        assert forall|w: int| !is_first_colon(s@, w) by {
            if 0 <= w < s@.len() && s@[w] == ':' {
                assert(cs@[w] != ':');
            }
        }
    }
    None
}

/// The row selected after moving down a list of `len` rows: the next row,
/// the first after the last, the first when none was selected; nothing
/// changes in an empty list.
pub open spec fn spec_select_next(sel: Option<usize>, len: nat) -> Option<usize> {
    if len == 0 {
        sel
    } else {
        match sel {
            Some(i) => Some(((i + 1) % (len as int)) as usize),
            None => Some(0),
        }
    }
}

/// The row selected after moving up a list of `len` rows: the previous
/// row, the last before the first, the first when none was selected;
/// nothing changes in an empty list.
pub open spec fn spec_select_prev(sel: Option<usize>, len: nat) -> Option<usize> {
    if len == 0 {
        sel
    } else {
        match sel {
            Some(i) => Some(
                if i == 0 {
                    (len - 1) as usize
                } else {
                    (i - 1) as usize
                },
            ),
            None => Some(0),
        }
    }
}

/// The row selected after moving down.
pub fn select_next(sel: Option<usize>, len: usize) -> (r: Option<usize>)
    ensures
        r == spec_select_next(sel, len as nat),
{
    if len == 0 {
        return sel;
    }
    match sel {
        Some(i) => {
            let k = i % len;
            proof {
                vstd::arithmetic::div_mod::lemma_add_mod_noop(i as int, 1, len as int);
                vstd::arithmetic::div_mod::lemma_add_mod_noop_right(k as int, 1, len as int);
            }
            Some((k + 1) % len)
        },
        None => Some(0),
    }
}

/// The row selected after moving up.
pub fn select_prev(sel: Option<usize>, len: usize) -> (r: Option<usize>)
    ensures
        r == spec_select_prev(sel, len as nat),
{
    if len == 0 {
        return sel;
    }
    match sel {
        Some(i) => Some(
            if i == 0 {
                len - 1
            } else {
                i - 1
            },
        ),
        None => Some(0),
    }
}

/// A key pressed in the interface.
#[derive(Debug, Clone, Copy, PartialEq, Eq, Structural)]
pub enum Key {
    Char(char),
    Tab,
    BackTab,
    Left,
    Right,
    Up,
    Down,
    PageUp,
    PageDown,
    Enter,
    Esc,
    Backspace,
    Other,
}

/// Whether keys move around the interface or go into a text field.
#[derive(Debug, Clone, Copy, PartialEq, Eq, Structural)]
pub enum InputMode {
    Normal,
    Input,
}

/// A dialog shown over the interface.
#[derive(Debug)]
pub enum Popup {
    /// Asks for the name of a container to add.
    AddContainer,
    /// Asks to confirm the removal of the named container.
    RemoveContainer(String),
    /// Asks for a route written `port:container`.
    AddRoute,
    /// Asks to confirm a message before another dialog.
    Confirm(String, Box<Popup>),
}

/// The value of a dialog.
pub enum PopupView {
    AddContainer,
    RemoveContainer(Seq<char>),
    AddRoute,
    Confirm(Seq<char>, Box<PopupView>),
}

/// The value of a dialog, with texts as sequences of characters.
pub open spec fn popup_view(p: Popup) -> PopupView
    decreases p,
{
    match p {
        Popup::AddContainer => PopupView::AddContainer,
        Popup::RemoveContainer(n) => PopupView::RemoveContainer(n@),
        Popup::AddRoute => PopupView::AddRoute,
        Popup::Confirm(m, inner) => PopupView::Confirm(m@, Box::new(popup_view(*inner))),
    }
}

impl View for Popup {
    type V = PopupView;

    open spec fn view(&self) -> PopupView {
        popup_view(*self)
    }
}

/// What the program around the interface is to do after a key.
#[derive(Debug, Clone, PartialEq, Eq)]
pub enum TuiAction {
    /// Nothing more.
    Nothing,
    /// Leave the interface.
    Quit,
    /// Store the configuration, which the key changed.
    Save,
    /// Look up the container's network, add the container with
    /// `add_detected_container` and store the configuration.
    AddContainer(String),
    /// Start the proxy.
    Start,
    /// Stop the proxy.
    Stop,
    /// Stop the proxy and start it again.
    Reload,
}

/// The value of an action.
pub enum ActionView {
    Nothing,
    Quit,
    Save,
    AddContainer(Seq<char>),
    Start,
    Stop,
    Reload,
}

impl View for TuiAction {
    type V = ActionView;

    open spec fn view(&self) -> ActionView {
        match *self {
            TuiAction::Nothing => ActionView::Nothing,
            TuiAction::Quit => ActionView::Quit,
            TuiAction::Save => ActionView::Save,
            TuiAction::AddContainer(n) => ActionView::AddContainer(n@),
            TuiAction::Start => ActionView::Start,
            TuiAction::Stop => ActionView::Stop,
            TuiAction::Reload => ActionView::Reload,
        }
    }
}

/// The state of the interface.
#[derive(Debug)]
pub struct TuiState {
    pub current_tab: Tab,
    /// The selected row of the containers table.
    pub container_selected: Option<usize>,
    /// The selected row of the routes table.
    pub route_selected: Option<usize>,
    /// How many lines the log is scrolled.
    pub logs_scroll: usize,
    pub popup: Option<Popup>,
    /// The text typed into the dialog.
    pub input_buffer: String,
    pub input_mode: InputMode,
}

/// The value of the interface's state.
pub struct TuiStateView {
    pub tab: Tab,
    pub container_selected: Option<usize>,
    pub route_selected: Option<usize>,
    pub logs_scroll: usize,
    pub popup: Option<PopupView>,
    pub buffer: Seq<char>,
    pub mode: InputMode,
}

impl View for TuiState {
    type V = TuiStateView;

    open spec fn view(&self) -> TuiStateView {
        TuiStateView {
            tab: self.current_tab,
            container_selected: self.container_selected,
            route_selected: self.route_selected,
            logs_scroll: self.logs_scroll,
            popup: match self.popup {
                Some(p) => Some(p@),
                None => None,
            },
            buffer: self.input_buffer@,
            mode: self.input_mode,
        }
    }
}

/// The state with a dialog open for typing into an empty field.
pub open spec fn opened(s: TuiStateView, p: PopupView) -> TuiStateView {
    TuiStateView { popup: Some(p), mode: InputMode::Input, buffer: Seq::empty(), ..s }
}

/// The state with the dialog closed and its field emptied.
pub open spec fn closed(s: TuiStateView) -> TuiStateView {
    TuiStateView { popup: None, mode: InputMode::Normal, buffer: Seq::empty(), ..s }
}

/// `x + n`, or the largest `usize` when that is larger.
pub open spec fn saturating_add(x: usize, n: usize) -> usize {
    if x + n > usize::MAX {
        usize::MAX
    } else {
        (x + n) as usize
    }
}

/// `x - n`, or zero when that is negative.
pub open spec fn saturating_sub(x: usize, n: usize) -> usize {
    if x < n {
        0
    } else {
        (x - n) as usize
    }
}

/// A key on the containers tab.
pub open spec fn spec_containers_key(s: TuiStateView, c: ConfigView, k: Key) -> (
    TuiStateView,
    ConfigView,
    ActionView,
) {
    let len = c.containers.len();
    match k {
        Key::Down => (
            TuiStateView { container_selected: spec_select_next(s.container_selected, len), ..s },
            c,
            ActionView::Nothing,
        ),
        Key::Up => (
            TuiStateView { container_selected: spec_select_prev(s.container_selected, len), ..s },
            c,
            ActionView::Nothing,
        ),
        Key::Char(ch) => if ch == 'a' {
            (opened(s, PopupView::AddContainer), c, ActionView::Nothing)
        } else if ch == 'd' {
            match s.container_selected {
                Some(i) => if i < len {
                    (
                        TuiStateView {
                            popup: Some(PopupView::RemoveContainer(c.containers[i as int].name)),
                            ..s
                        },
                        c,
                        ActionView::Nothing,
                    )
                } else {
                    (s, c, ActionView::Nothing)
                },
                None => (s, c, ActionView::Nothing),
            }
        } else if ch == 'r' {
            (s, c, ActionView::Reload)
        } else {
            (s, c, ActionView::Nothing)
        },
        _ => (s, c, ActionView::Nothing),
    }
}

/// A key on the routes tab.
pub open spec fn spec_routes_key(s: TuiStateView, c: ConfigView, k: Key) -> (
    TuiStateView,
    ConfigView,
    ActionView,
) {
    let len = c.routes.len();
    match k {
        Key::Down => (
            TuiStateView { route_selected: spec_select_next(s.route_selected, len), ..s },
            c,
            ActionView::Nothing,
        ),
        Key::Up => (
            TuiStateView { route_selected: spec_select_prev(s.route_selected, len), ..s },
            c,
            ActionView::Nothing,
        ),
        Key::Char(ch) => if ch == 'a' {
            (opened(s, PopupView::AddRoute), c, ActionView::Nothing)
        } else if ch == 'd' {
            match s.route_selected {
                Some(i) => if i < len {
                    (
                        s,
                        ConfigView {
                            routes: spec_remove_route(c.routes, c.routes[i as int].host_port),
                            ..c
                        },
                        ActionView::Save,
                    )
                } else {
                    (s, c, ActionView::Nothing)
                },
                None => (s, c, ActionView::Nothing),
            }
        } else {
            (s, c, ActionView::Nothing)
        },
        _ => (s, c, ActionView::Nothing),
    }
}

/// What a key does on the status tab.
pub open spec fn spec_status_key(k: Key) -> ActionView {
    match k {
        Key::Char(ch) => if ch == 's' {
            ActionView::Start
        } else if ch == 'x' {
            ActionView::Stop
        } else if ch == 'r' {
            ActionView::Reload
        } else {
            ActionView::Nothing
        },
        _ => ActionView::Nothing,
    }
}

/// The log's scrolling after a key on the logs tab.
pub open spec fn spec_logs_scroll(scroll: usize, k: Key) -> usize {
    match k {
        Key::Down => saturating_add(scroll, 1),
        Key::Up => saturating_sub(scroll, 1),
        Key::PageDown => saturating_add(scroll, 10),
        Key::PageUp => saturating_sub(scroll, 10),
        _ => scroll,
    }
}

/// A key while no text is being typed: `q` quits, Tab and Right go to the
/// next tab, BackTab and Left to the previous one; other keys act on the
/// current tab.
pub open spec fn spec_normal_key(s: TuiStateView, c: ConfigView, k: Key) -> (
    TuiStateView,
    ConfigView,
    ActionView,
) {
    match k {
        Key::Char('q') => (s, c, ActionView::Quit),
        Key::Tab | Key::Right => (TuiStateView { tab: spec_tab_next(s.tab), ..s }, c, ActionView::Nothing),
        Key::BackTab | Key::Left => (
            TuiStateView { tab: spec_tab_prev(s.tab), ..s },
            c,
            ActionView::Nothing,
        ),
        _ => match s.tab {
            Tab::Containers => spec_containers_key(s, c, k),
            Tab::Routes => spec_routes_key(s, c, k),
            Tab::Status => (s, c, spec_status_key(k)),
            Tab::Logs => (
                TuiStateView { logs_scroll: spec_logs_scroll(s.logs_scroll, k), ..s },
                c,
                ActionView::Nothing,
            ),
        },
    }
}

/// What confirming the open dialog does to the configuration.
pub open spec fn spec_process_input(s: TuiStateView, c: ConfigView) -> (ConfigView, ActionView) {
    match s.popup {
        Some(PopupView::AddContainer) => if s.buffer.len() > 0 {
            (c, ActionView::AddContainer(s.buffer))
        } else {
            (c, ActionView::Nothing)
        },
        Some(PopupView::AddRoute) => match spec_route_input(s.buffer) {
            Some((p, t)) => (ConfigView { routes: spec_set_route(c.routes, p, t), ..c }, ActionView::Save),
            None => (c, ActionView::Nothing),
        },
        Some(PopupView::RemoveContainer(name)) => if lowercase(s.buffer) == "y"@ {
            (spec_remove_container(c, name), ActionView::Save)
        } else {
            (c, ActionView::Nothing)
        },
        _ => (c, ActionView::Nothing),
    }
}

/// A key while a text is being typed: Esc closes the dialog, Enter
/// confirms and closes it, a character is typed, Backspace erases the last
/// one.
pub open spec fn spec_input_key(s: TuiStateView, c: ConfigView, k: Key) -> (
    TuiStateView,
    ConfigView,
    ActionView,
) {
    match k {
        Key::Esc => (closed(s), c, ActionView::Nothing),
        Key::Enter => {
            let (c2, a) = spec_process_input(s, c);
            (closed(s), c2, a)
        },
        Key::Char(ch) => (TuiStateView { buffer: s.buffer.push(ch), ..s }, c, ActionView::Nothing),
        Key::Backspace => (
            TuiStateView {
                buffer: if s.buffer.len() > 0 {
                    s.buffer.drop_last()
                } else {
                    s.buffer
                },
                ..s
            },
            c,
            ActionView::Nothing,
        ),
        _ => (s, c, ActionView::Nothing),
    }
}

/// What a key does to the interface and the configuration, and what is to
/// be done after it.
pub open spec fn spec_handle_key(s: TuiStateView, c: ConfigView, k: Key) -> (
    TuiStateView,
    ConfigView,
    ActionView,
) {
    match s.mode {
        InputMode::Normal => spec_normal_key(s, c, k),
        InputMode::Input => spec_input_key(s, c, k),
    }
}

/// `x + n`, or the largest `usize` when that is larger.
fn add_saturating(x: usize, n: usize) -> (r: usize)
    ensures
        r == saturating_add(x, n),
{
    if x > usize::MAX - n {
        usize::MAX
    } else {
        x + n
    }
}

/// `x - n`, or zero when that is negative.
fn sub_saturating(x: usize, n: usize) -> (r: usize)
    ensures
        r == saturating_sub(x, n),
{
    if x < n {
        0
    } else {
        x - n
    }
}

impl TuiState {
    /// The interface as it opens: the containers tab, the first row of each
    /// table selected, no dialog.
    pub fn new() -> (r: TuiState)
        ensures
            r@ == (TuiStateView {
                tab: Tab::Containers,
                container_selected: Some(0),
                route_selected: Some(0),
                logs_scroll: 0,
                popup: None,
                buffer: Seq::empty(),
                mode: InputMode::Normal,
            }),
    {
        TuiState {
            current_tab: Tab::Containers,
            container_selected: Some(0),
            route_selected: Some(0),
            logs_scroll: 0,
            popup: None,
            input_buffer: String::new(),
            input_mode: InputMode::Normal,
        }
    }

    /// Opens a dialog with an empty field to type into.
    fn open(&mut self, popup: Popup)
        ensures
            final(self)@ == opened(old(self)@, popup@),
    {
        self.popup = Some(popup);
        self.input_mode = InputMode::Input;
        self.input_buffer = String::new();
    }

    /// Closes the dialog and empties its field.
    fn close(&mut self)
        ensures
            final(self)@ == closed(old(self)@),
    {
        self.input_mode = InputMode::Normal;
        self.popup = None;
        self.input_buffer = String::new();
    }

    /// A key on the containers tab.
    fn containers_key(&mut self, config: &Config, key: Key) -> (r: TuiAction)
        ensures
            final(self)@ == spec_containers_key(old(self)@, config@, key).0,
            r@ == spec_containers_key(old(self)@, config@, key).2,
    {
        let len = config.containers.len();
        match key {
            Key::Down => {
                self.container_selected = select_next(self.container_selected, len);
                TuiAction::Nothing
            },
            Key::Up => {
                self.container_selected = select_prev(self.container_selected, len);
                TuiAction::Nothing
            },
            Key::Char(ch) => {
                if ch == 'a' {
                    self.open(Popup::AddContainer);
                    TuiAction::Nothing
                } else if ch == 'd' {
                    match self.container_selected {
                        Some(i) => {
                            if i < len {
                                let name = config.containers[i].name.clone();
                                self.popup = Some(Popup::RemoveContainer(name));
                            }
                        },
                        None => {},
                    }
                    TuiAction::Nothing
                } else if ch == 'r' {
                    TuiAction::Reload
                } else {
                    TuiAction::Nothing
                }
            },
            _ => TuiAction::Nothing,
        }
    }

    /// A key on the routes tab.
    fn routes_key(&mut self, config: &mut Config, key: Key) -> (r: TuiAction)
        ensures
            final(self)@ == spec_routes_key(old(self)@, old(config)@, key).0,
            final(config)@ == spec_routes_key(old(self)@, old(config)@, key).1,
            r@ == spec_routes_key(old(self)@, old(config)@, key).2,
    {
        let len = config.routes.len();
        match key {
            Key::Down => {
                self.route_selected = select_next(self.route_selected, len);
                TuiAction::Nothing
            },
            Key::Up => {
                self.route_selected = select_prev(self.route_selected, len);
                TuiAction::Nothing
            },
            Key::Char(ch) => {
                if ch == 'a' {
                    self.open(Popup::AddRoute);
                    TuiAction::Nothing
                } else if ch == 'd' {
                    match self.route_selected {
                        Some(i) => {
                            if i < len {
                                let port = config.routes[i].host_port;
                                config.remove_route(port);
                                TuiAction::Save
                            } else {
                                TuiAction::Nothing
                            }
                        },
                        None => TuiAction::Nothing,
                    }
                } else {
                    TuiAction::Nothing
                }
            },
            _ => TuiAction::Nothing,
        }
    }

    /// A key while no text is being typed.
    fn normal_key(&mut self, config: &mut Config, key: Key) -> (r: TuiAction)
        ensures
            final(self)@ == spec_normal_key(old(self)@, old(config)@, key).0,
            final(config)@ == spec_normal_key(old(self)@, old(config)@, key).1,
            r@ == spec_normal_key(old(self)@, old(config)@, key).2,
    {
        match key {
            Key::Char('q') => TuiAction::Quit,
            Key::Tab | Key::Right => {
                self.current_tab = self.current_tab.next();
                TuiAction::Nothing
            },
            Key::BackTab | Key::Left => {
                self.current_tab = self.current_tab.prev();
                TuiAction::Nothing
            },
            _ => match self.current_tab {
                Tab::Containers => self.containers_key(config, key),
                Tab::Routes => self.routes_key(config, key),
                Tab::Status => match key {
                    Key::Char(ch) => {
                        if ch == 's' {
                            TuiAction::Start
                        } else if ch == 'x' {
                            TuiAction::Stop
                        } else if ch == 'r' {
                            TuiAction::Reload
                        } else {
                            TuiAction::Nothing
                        }
                    },
                    _ => TuiAction::Nothing,
                },
                Tab::Logs => {
                    self.logs_scroll =
                        match key {
                            Key::Down => add_saturating(self.logs_scroll, 1),
                            Key::Up => sub_saturating(self.logs_scroll, 1),
                            Key::PageDown => add_saturating(self.logs_scroll, 10),
                            Key::PageUp => sub_saturating(self.logs_scroll, 10),
                            _ => self.logs_scroll,
                        };
                    TuiAction::Nothing
                },
            },
        }
    }

    /// Confirms the open dialog.
    fn process_input(&self, config: &mut Config) -> (r: TuiAction)
        ensures
            final(config)@ == spec_process_input(self@, old(config)@).0,
            r@ == spec_process_input(self@, old(config)@).1,
    {
        match &self.popup {
            Some(Popup::AddContainer) => {
                if !self.input_buffer.as_str().is_empty() {
                    TuiAction::AddContainer(self.input_buffer.clone())
                } else {
                    TuiAction::Nothing
                }
            },
            Some(Popup::AddRoute) => match parse_route_input(self.input_buffer.as_str()) {
                Some((port, target)) => {
                    config.set_route(port, target.as_str());
                    TuiAction::Save
                },
                None => TuiAction::Nothing,
            },
            Some(Popup::RemoveContainer(name)) => {
                let answer = to_lowercase(self.input_buffer.as_str());
                if answer == "y".to_owned() {
                    config.remove_container(name.as_str());
                    TuiAction::Save
                } else {
                    TuiAction::Nothing
                }
            },
            _ => TuiAction::Nothing,
        }
    }

    /// A key while a text is being typed.
    fn input_key(&mut self, config: &mut Config, key: Key) -> (r: TuiAction)
        ensures
            final(self)@ == spec_input_key(old(self)@, old(config)@, key).0,
            final(config)@ == spec_input_key(old(self)@, old(config)@, key).1,
            r@ == spec_input_key(old(self)@, old(config)@, key).2,
    {
        match key {
            Key::Esc => {
                self.close();
                TuiAction::Nothing
            },
            Key::Enter => {
                let action = self.process_input(config);
                self.close();
                action
            },
            Key::Char(ch) => {
                push_char(&mut self.input_buffer, ch);
                TuiAction::Nothing
            },
            Key::Backspace => {
                pop_char(&mut self.input_buffer);
                TuiAction::Nothing
            },
            _ => TuiAction::Nothing,
        }
    }

    /// Handles a key: changes the interface and the configuration, and says
    /// what is to be done next.
    pub fn handle_key(&mut self, config: &mut Config, key: Key) -> (r: TuiAction)
        ensures
            final(self)@ == spec_handle_key(old(self)@, old(config)@, key).0,
            final(config)@ == spec_handle_key(old(self)@, old(config)@, key).1,
            r@ == spec_handle_key(old(self)@, old(config)@, key).2,
    {
        match self.input_mode {
            InputMode::Normal => self.normal_key(config, key),
            InputMode::Input => self.input_key(config, key),
        }
    }
}

/// Adds the container named `name` from the add dialog, on the network
/// that the engine reported for it, or on the empty network name when it
/// reported none; a container of that name is updated instead.
pub fn add_detected_container(config: &mut Config, name: &str, network: Option<String>)
    ensures
        final(config)@ == (ConfigView {
            containers: spec_add_or_update(
                old(config)@.containers,
                ContainerView {
                    name: name@,
                    label: None,
                    port: None,
                    network: Some(
                        match network {
                            Some(n) => n@,
                            None => Seq::empty(),
                        },
                    ),
                },
            ),
            ..old(config)@
        }),
{
    let net = match network {
        Some(n) => n,
        None => String::new(),
    };
    let container = Container::new(name).with_network(net.as_str());
    config.add_or_update_container(container);
}

/// The position of a tab in the tab bar.
pub open spec fn spec_tab_index(t: Tab) -> usize {
    match t {
        Tab::Containers => 0,
        Tab::Routes => 1,
        Tab::Status => 2,
        Tab::Logs => 3,
    }
}

/// The position of a tab in the tab bar.
pub fn tab_index(t: Tab) -> (r: usize)
    ensures
        r == spec_tab_index(t),
{
    match t {
        Tab::Containers => 0,
        Tab::Routes => 1,
        Tab::Status => 2,
        Tab::Logs => 3,
    }
}

/// The tabs in the order of the tab bar.
pub fn tab_order() -> (r: Vec<Tab>)
    ensures
        r@ == seq![Tab::Containers, Tab::Routes, Tab::Status, Tab::Logs],
        forall|i: int| 0 <= i < r.len() ==> spec_tab_index(#[trigger] r@[i]) == i,
{
    let mut v: Vec<Tab> = Vec::new();
    v.push(Tab::Containers);
    v.push(Tab::Routes);
    v.push(Tab::Status);
    v.push(Tab::Logs);
    v
}

/// The cells of a container's row: name, label (empty when none), port,
/// network (the configuration's network when none).
pub open spec fn container_row(c: ConfigView, cv: ContainerView) -> Seq<Seq<char>> {
    seq![
        cv.name,
        match cv.label {
            Some(l) => l,
            None => Seq::empty(),
        },
        decimal(cv.port_or_default() as nat),
        cv.network_or(c.network),
    ]
}

/// The text shown for the port of a route's target when no container is
/// named or labelled by it.
pub const UNKNOWN_PORT: &'static str = "?";

/// The port of the container that a route's target names or labels, as
/// text.
pub open spec fn target_port_text(c: ConfigView, target: Seq<char>) -> Seq<char> {
    match spec_find_container(c.containers, target) {
        Some(cv) => decimal(cv.port_or_default() as nat),
        None => UNKNOWN_PORT@,
    }
}

/// The cells of a route's row: host port, target, target's port.
pub open spec fn route_row(c: ConfigView, r: RouteView) -> Seq<Seq<char>> {
    seq![decimal(r.host_port as nat), r.target, target_port_text(c, r.target)]
}

/// The values of a table of texts.
pub open spec fn table_view(t: Seq<Vec<String>>) -> Seq<Seq<Seq<char>>> {
    t.map_values(|row: Vec<String>| string_views(row@))
}

/// The port of the container that `target` names or labels, as text.
fn render_target_port(config: &Config, target: &str) -> (r: String)
    ensures
        r@ == target_port_text(config@, target@),
{
    match config.find_container(target) {
        Some(c) => decimal_string(c.get_port() as u64),
        None => UNKNOWN_PORT.to_owned(),
    }
}

/// The rows of the containers table.
pub fn container_rows(config: &Config) -> (r: Vec<Vec<String>>)
    ensures
        table_view(r@) == config@.containers.map_values(|cv: ContainerView| container_row(config@, cv)),
{
    let mut rows: Vec<Vec<String>> = Vec::new();
    let mut i: usize = 0;
    while i < config.containers.len()
        invariant
            0 <= i <= config.containers.len(),
            rows.len() == i,
            forall|k: int|
                0 <= k < i ==> string_views((#[trigger] rows@[k])@) == container_row(
                    config@,
                    config@.containers[k],
                ),
        decreases config.containers.len() - i,
    {
        let c = &config.containers[i];
        let mut row: Vec<String> = Vec::new();
        row.push(c.name.clone());
        row.push(
            match &c.label {
                Some(l) => l.clone(),
                None => String::new(),
            },
        );
        row.push(decimal_string(c.get_port() as u64));
        row.push(
            match &c.network {
                Some(n) => n.clone(),
                None => config.network.clone(),
            },
        );
        proof {
            assert(string_views(row@) =~= container_row(config@, config@.containers[i as int]));
        }
        rows.push(row);
        i = i + 1;
    }
    proof {
        assert(table_view(rows@) =~= config@.containers.map_values(
            |cv: ContainerView| container_row(config@, cv),
        ));
    }
    rows
}

/// The rows of the routes table.
pub fn route_rows(config: &Config) -> (r: Vec<Vec<String>>)
    ensures
        table_view(r@) == config@.routes.map_values(|rv: RouteView| route_row(config@, rv)),
{
    let mut rows: Vec<Vec<String>> = Vec::new();
    let mut i: usize = 0;
    while i < config.routes.len()
        invariant
            0 <= i <= config.routes.len(),
            rows.len() == i,
            forall|k: int|
                0 <= k < i ==> string_views((#[trigger] rows@[k])@) == route_row(
                    config@,
                    config@.routes[k],
                ),
        decreases config.routes.len() - i,
    {
        let r = &config.routes[i];
        let mut row: Vec<String> = Vec::new();
        row.push(decimal_string(r.host_port as u64));
        row.push(r.target.clone());
        row.push(render_target_port(config, r.target.as_str()));
        proof {
            assert(string_views(row@) =~= route_row(config@, config@.routes[i as int]));
        }
        rows.push(row);
        i = i + 1;
    }
    proof {
        assert(table_view(rows@) =~= config@.routes.map_values(|rv: RouteView| route_row(config@, rv)));
    }
    rows
}

/// Text pieces of the status tab.
pub const STATUS_PREFIX: &'static str = "Status: ";
pub const STATUS_NOT_RUNNING: &'static str = "Status: not running";
pub const ACTIVE_ROUTES_HEADING: &'static str = "\n\nActive Routes:\n";
pub const NO_ROUTES: &'static str = "  (none)";
pub const ROUTE_INDENT: &'static str = "  ";
pub const ROUTE_ARROW: &'static str = " -> ";
pub const PORT_SEPARATOR: &'static str = ":";
pub const LINE_BREAK: &'static str = "\n";

/// A route's line on the status tab.
pub open spec fn status_route_line(c: ConfigView, r: RouteView) -> Seq<char> {
    ROUTE_INDENT@ + decimal(r.host_port as nat) + ROUTE_ARROW@ + r.target + PORT_SEPARATOR@
        + target_port_text(c, r.target)
}

/// The text of the status tab: the proxy's state, then the routes, or a
/// note that there is none.
pub open spec fn spec_status_text(c: ConfigView, status: Option<Seq<char>>) -> Seq<char> {
    (match status {
        Some(st) => STATUS_PREFIX@ + st,
        None => STATUS_NOT_RUNNING@,
    }) + ACTIVE_ROUTES_HEADING@ + if c.routes.len() == 0 {
        NO_ROUTES@
    } else {
        join_seqs(c.routes.map_values(|r: RouteView| status_route_line(c, r)), LINE_BREAK@)
    }
}

/// The text of the status tab.
pub fn status_text(config: &Config, status: &Option<String>) -> (r: String)
    ensures
        r@ == spec_status_text(
            config@,
            match status {
                Some(st) => Some(st@),
                None => None,
            },
        ),
{
    let mut lines: Vec<String> = Vec::new();
    let mut i: usize = 0;
    while i < config.routes.len()
        invariant
            0 <= i <= config.routes.len(),
            lines.len() == i,
            forall|k: int|
                0 <= k < i ==> (#[trigger] lines@[k])@ == status_route_line(config@, config@.routes[k]),
        decreases config.routes.len() - i,
    {
        let r = &config.routes[i];
        let mut line = ROUTE_INDENT.to_owned();
        push_decimal(&mut line, r.host_port as u64);
        line.append(ROUTE_ARROW);
        line.append(r.target.as_str());
        line.append(PORT_SEPARATOR);
        let port = render_target_port(config, r.target.as_str());
        line.append(port.as_str());
        proof {
            assert(line@ =~= status_route_line(config@, config@.routes[i as int]));
        }
        lines.push(line);
        i = i + 1;
    }
    proof {
        assert(string_views(lines@) =~= config@.routes.map_values(
            |r: RouteView| status_route_line(config@, r),
        ));
    }
    let mut text = match status {
        Some(st) => {
            let mut t = STATUS_PREFIX.to_owned();
            t.append(st.as_str());
            t
        },
        None => STATUS_NOT_RUNNING.to_owned(),
    };
    text.append(ACTIVE_ROUTES_HEADING);
    if config.routes.len() == 0 {
        text.append(NO_ROUTES);
    } else {
        let joined = join_strings(&lines, LINE_BREAK);
        text.append(joined.as_str());
    }
    text
}

/// Titles and prompts of the dialogs.
pub const ADD_CONTAINER_TITLE: &'static str = " Add Container ";
pub const ADD_CONTAINER_PROMPT: &'static str = "Container name:\n";
pub const ADD_ROUTE_TITLE: &'static str = " Add Route ";
pub const ADD_ROUTE_PROMPT: &'static str = "Format: port:container\n";
pub const REMOVE_TITLE: &'static str = " Remove Container ";
pub const REMOVE_PROMPT_START: &'static str = "Remove '";
pub const REMOVE_PROMPT_END: &'static str = "'? (y/n)\n";
pub const CONFIRM_TITLE: &'static str = " Confirm ";

/// The title and the text of a dialog with `buffer` typed into it.
pub open spec fn spec_popup_text(p: PopupView, buffer: Seq<char>) -> (Seq<char>, Seq<char>) {
    match p {
        PopupView::AddContainer => (ADD_CONTAINER_TITLE@, ADD_CONTAINER_PROMPT@ + buffer),
        PopupView::AddRoute => (ADD_ROUTE_TITLE@, ADD_ROUTE_PROMPT@ + buffer),
        PopupView::RemoveContainer(name) => (
            REMOVE_TITLE@,
            REMOVE_PROMPT_START@ + name + REMOVE_PROMPT_END@ + buffer,
        ),
        PopupView::Confirm(msg, _) => (CONFIRM_TITLE@, msg + LINE_BREAK@ + buffer),
    }
}

/// The title and the text of a dialog.
pub fn popup_text(popup: &Popup, buffer: &str) -> (r: (&'static str, String))
    ensures
        (r.0@, r.1@) == spec_popup_text(popup@, buffer@),
{
    match popup {
        Popup::AddContainer => {
            let mut t = ADD_CONTAINER_PROMPT.to_owned();
            t.append(buffer);
            (ADD_CONTAINER_TITLE, t)
        },
        Popup::AddRoute => {
            let mut t = ADD_ROUTE_PROMPT.to_owned();
            t.append(buffer);
            (ADD_ROUTE_TITLE, t)
        },
        Popup::RemoveContainer(name) => {
            let mut t = REMOVE_PROMPT_START.to_owned();
            t.append(name.as_str());
            t.append(REMOVE_PROMPT_END);
            t.append(buffer);
            (REMOVE_TITLE, t)
        },
        Popup::Confirm(msg, _) => {
            let mut t = msg.clone();
            t.append(LINE_BREAK);
            t.append(buffer);
            (CONFIRM_TITLE, t)
        },
    }
}

/// The files to write before starting the proxy from the interface, or
/// nothing when no container or no route is configured (the interface then
/// does not start it).
pub fn start_files(config: &Config) -> (r: Option<(String, String)>)
    ensures
        match r {
            Some((conf, dockerfile)) => {
                &&& config@.containers.len() > 0 && config@.routes.len() > 0
                &&& conf@ == spec_nginx_config(generator_style(), config@)
                &&& dockerfile@ == spec_dockerfile(config@.host_ports(), false)
            },
            None => config@.containers.len() == 0 || config@.routes.len() == 0,
        },
{
    if config.containers.len() == 0 || config.routes.len() == 0 {
        return None;
    }
    Some((NginxConfigGenerator::generate(config), NginxConfigGenerator::generate_dockerfile(config)))
}

/// In a non-empty list, moving down always selects a row of the list, and
/// so does moving up from a row of the list or from no selection.
pub proof fn lemma_selection_in_bounds(sel: Option<usize>, len: nat)
    requires
        0 < len <= usize::MAX,
    ensures
        spec_select_next(sel, len) matches Some(j) && j < len,
        (sel matches Some(i) ==> i < len) ==> (spec_select_prev(sel, len) matches Some(j) && j < len),
{
    if let Some(i) = sel {
        vstd::arithmetic::div_mod::lemma_mod_pos_bound(i + 1, len as int);
    }
}

/// Moving down and then up, or up and then down, returns to the selected
/// row of the list.
pub proof fn lemma_select_next_prev(i: usize, len: nat)
    requires
        i < len <= usize::MAX,
    ensures
        spec_select_prev(spec_select_next(Some(i), len), len) == Some(i),
        spec_select_next(spec_select_prev(Some(i), len), len) == Some(i),
{
    if i + 1 < len {
        vstd::arithmetic::div_mod::lemma_small_mod((i + 1) as nat, len);
    } else {
        vstd::arithmetic::div_mod::lemma_mod_self_0(len as int);
    }
    if i == 0 {
        vstd::arithmetic::div_mod::lemma_mod_self_0(len as int);
    } else {
        vstd::arithmetic::div_mod::lemma_small_mod(i as nat, len);
    }
}

/// In a dialog, typing a character and erasing it gives back the dialog and
/// the configuration as they were.
pub proof fn lemma_type_then_erase(s: TuiStateView, c: ConfigView, ch: char)
    requires
        s.mode == InputMode::Input,
    ensures
        ({
            let (s1, c1, a1) = spec_handle_key(s, c, Key::Char(ch));
            let (s2, c2, a2) = spec_handle_key(s1, c1, Key::Backspace);
            s2 == s && c2 == c && a1 == ActionView::Nothing && a2 == ActionView::Nothing
        }),
{
    let (s1, c1, a1) = spec_handle_key(s, c, Key::Char(ch));
    assert(s1.buffer.drop_last() =~= s.buffer);
}

/// Esc closes a dialog without touching the configuration.
pub proof fn lemma_escape_closes(s: TuiStateView, c: ConfigView)
    requires
        s.mode == InputMode::Input,
    ensures
        ({
            let (s1, c1, a) = spec_handle_key(s, c, Key::Esc);
            s1.popup is None && s1.mode == InputMode::Normal && s1.buffer.len() == 0 && c1 == c
                && a == ActionView::Nothing
        }),
{
}

/// Only the routes tab's delete key and a confirmed dialog change the
/// configuration: every other key leaves it as it was.
pub proof fn lemma_config_changes_only_on_save(s: TuiStateView, c: ConfigView, k: Key)
    ensures
        ({
            let (s1, c1, a) = spec_handle_key(s, c, k);
            a == ActionView::Save || c1 == c
        }),
{
}

} // verus!
