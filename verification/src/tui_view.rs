//! The single-screen text interface: its pages, what each key does to the
//! screen and to the configuration, and the texts it shows.
use crate::config::{Config, ConfigView, ContainerView, RouteView, routes_view, routes_without_target, retain_routes_not_targeting};
use crate::text::{decimal, push_decimal};
use crate::tui_app::Key;
use vstd::prelude::*;
use vstd::view::View as _;

verus! {

/// The pages of the interactive interface.
#[derive(Debug, Clone, Copy, PartialEq, Eq, Structural)]
pub enum View {
    Containers,
    Routes,
    Status,
    Logs,
}

impl View {
    /// The page that follows this one when the user cycles forward.
    pub fn next(&self) -> (r: View)
        ensures
            r == spec_next_view(*self),
    {
        match self {
            View::Containers => View::Routes,
            View::Routes => View::Status,
            View::Status => View::Logs,
            View::Logs => View::Containers,
        }
    }
}

/// The page that follows a page when the user cycles forward.
pub open spec fn spec_next_view(v: View) -> View {
    match v {
        View::Containers => View::Routes,
        View::Routes => View::Status,
        View::Status => View::Logs,
        View::Logs => View::Containers,
    }
}

/// Four steps forward through the pages return to the page one started from.
pub proof fn lemma_view_cycle(v: View)
    ensures
        spec_next_view(spec_next_view(spec_next_view(spec_next_view(v)))) == v,
{
}

/// The state of the single-screen interface.
#[derive(Debug, Clone, PartialEq, Eq)]
pub struct PageState {
    pub current_view: View,
    /// The highlighted row of the containers page.
    pub selected_container: usize,
    /// The highlighted row of the routes page.
    pub selected_route: usize,
    /// The message shown at the bottom, in place of the key help.
    pub message: String,
}

/// The value of the interface's state.
pub struct PageStateView {
    pub page: View,
    pub selected_container: usize,
    pub selected_route: usize,
    pub message: Seq<char>,
}

/// The value of a state.
pub open spec fn page_state_view(s: PageState) -> PageStateView {
    PageStateView {
        page: s.current_view,
        selected_container: s.selected_container,
        selected_route: s.selected_route,
        message: s.message@,
    }
}

/// What the program around the interface is to do after a key.
#[derive(Debug, Clone, PartialEq, Eq)]
pub enum PageAction {
    /// Draw the screen again and wait for the next key.
    Continue,
    /// Leave the interface.
    Quit,
    /// Store the configuration, which the key changed; when that succeeds,
    /// show the message.
    Save(String),
}

/// The value of an action.
pub enum PageActionView {
    Continue,
    Quit,
    Save(Seq<char>),
}

/// The value of an action.
pub open spec fn page_action_view(a: PageAction) -> PageActionView {
    match a {
        PageAction::Continue => PageActionView::Continue,
        PageAction::Quit => PageActionView::Quit,
        PageAction::Save(m) => PageActionView::Save(m@),
    }
}

/// The message after the `a` key.
pub const ADD_HINT: &'static str = "Use CLI to add containers";

/// The start of the message after removing a container.
pub const REMOVED_CONTAINER: &'static str = "Removed container: ";

/// The message after removing a route.
pub const REMOVED_ROUTE: &'static str = "Removed route";

/// The number of rows of a list, less one, or zero for an empty list.
pub open spec fn last_row(len: nat) -> nat {
    if len == 0 {
        0
    } else {
        (len - 1) as nat
    }
}

/// The row highlighted after moving down: the next row, unless the last
/// row is highlighted.
pub open spec fn row_down(sel: usize, len: nat) -> usize {
    if sel < last_row(len) {
        (sel + 1) as usize
    } else {
        sel
    }
}

/// The row highlighted after moving up: the previous row, unless the first
/// row is highlighted.
pub open spec fn row_up(sel: usize) -> usize {
    if sel > 0 {
        (sel - 1) as usize
    } else {
        sel
    }
}

/// `sel - 1`, or zero.
pub open spec fn row_before(sel: usize) -> usize {
    if sel > 0 {
        (sel - 1) as usize
    } else {
        0
    }
}

/// What the `d` key does: on the containers page it removes the
/// highlighted container and the routes to it, on the routes page the
/// highlighted route; the highlight moves up one row.
pub open spec fn spec_page_delete(s: PageStateView, c: ConfigView) -> (
    PageStateView,
    ConfigView,
    PageActionView,
) {
    match s.page {
        View::Containers => if s.selected_container < c.containers.len() {
            let name = c.containers[s.selected_container as int].name;
            (
                PageStateView { selected_container: row_before(s.selected_container), ..s },
                ConfigView {
                    containers: c.containers.remove(s.selected_container as int),
                    routes: routes_without_target(c.routes, name),
                    ..c
                },
                PageActionView::Save(REMOVED_CONTAINER@ + name),
            )
        } else {
            (s, c, PageActionView::Continue)
        },
        View::Routes => if s.selected_route < c.routes.len() {
            (
                PageStateView { selected_route: row_before(s.selected_route), ..s },
                ConfigView { routes: c.routes.remove(s.selected_route as int), ..c },
                PageActionView::Save(REMOVED_ROUTE@),
            )
        } else {
            (s, c, PageActionView::Continue)
        },
        _ => (s, c, PageActionView::Continue),
    }
}

/// What a key does to the screen and the configuration: `q` quits, Tab
/// goes to the next page and highlights the first rows, Down and Up move
/// the highlight within the page's list, `a` shows a hint, `d` deletes.
pub open spec fn spec_page_key(s: PageStateView, c: ConfigView, k: Key) -> (
    PageStateView,
    ConfigView,
    PageActionView,
) {
    match k {
        Key::Char(ch) => if ch == 'q' {
            (s, c, PageActionView::Quit)
        } else if ch == 'a' {
            (PageStateView { message: ADD_HINT@, ..s }, c, PageActionView::Continue)
        } else if ch == 'd' {
            spec_page_delete(s, c)
        } else {
            (s, c, PageActionView::Continue)
        },
        Key::Tab => (
            PageStateView {
                page: spec_next_view(s.page),
                selected_container: 0,
                selected_route: 0,
                ..s
            },
            c,
            PageActionView::Continue,
        ),
        Key::Down => (
            match s.page {
                View::Containers => PageStateView {
                    selected_container: row_down(s.selected_container, c.containers.len()),
                    ..s
                },
                View::Routes => PageStateView {
                    selected_route: row_down(s.selected_route, c.routes.len()),
                    ..s
                },
                _ => s,
            },
            c,
            PageActionView::Continue,
        ),
        Key::Up => (
            match s.page {
                View::Containers => PageStateView { selected_container: row_up(s.selected_container), ..s },
                View::Routes => PageStateView { selected_route: row_up(s.selected_route), ..s },
                _ => s,
            },
            c,
            PageActionView::Continue,
        ),
        _ => (s, c, PageActionView::Continue),
    }
}

impl PageState {
    /// The interface as it opens: the containers page, first rows, no
    /// message.
    pub fn new() -> (r: PageState)
        ensures
            page_state_view(r) == (PageStateView {
                page: View::Containers,
                selected_container: 0,
                selected_route: 0,
                message: Seq::empty(),
            }),
    {
        PageState {
            current_view: View::Containers,
            selected_container: 0,
            selected_route: 0,
            message: String::new(),
        }
    }

    /// The `d` key.
    fn delete(&mut self, config: &mut Config) -> (r: PageAction)
        ensures
            page_state_view(*final(self)) == spec_page_delete(page_state_view(*old(self)), old(config)@).0,
            final(config)@ == spec_page_delete(page_state_view(*old(self)), old(config)@).1,
            page_action_view(r) == spec_page_delete(page_state_view(*old(self)), old(config)@).2,
    {
        match self.current_view {
            View::Containers => {
                if self.selected_container < config.containers.len() {
                    let ghost before = config@;
                    let removed = config.containers.remove(self.selected_container);
                    let name = removed.name;
                    config.routes = retain_routes_not_targeting(&config.routes, &name);
                    proof {
                        assert(config@.containers =~= before.containers.remove(
                            self.selected_container as int,
                        ));
                    }
                    self.selected_container = if self.selected_container > 0 {
                        self.selected_container - 1
                    } else {
                        0
                    };
                    let mut msg = REMOVED_CONTAINER.to_owned();
                    msg.append(name.as_str());
                    PageAction::Save(msg)
                } else {
                    PageAction::Continue
                }
            },
            View::Routes => {
                if self.selected_route < config.routes.len() {
                    let ghost before = config@;
                    config.routes.remove(self.selected_route);
                    proof {
                        assert(config@.routes =~= before.routes.remove(self.selected_route as int));
                    }
                    self.selected_route = if self.selected_route > 0 {
                        self.selected_route - 1
                    } else {
                        0
                    };
                    PageAction::Save(REMOVED_ROUTE.to_owned())
                } else {
                    PageAction::Continue
                }
            },
            _ => PageAction::Continue,
        }
    }

    /// Handles a key: changes the screen and the configuration, and says
    /// what is to be done next.
    pub fn handle_key(&mut self, config: &mut Config, key: Key) -> (r: PageAction)
        ensures
            page_state_view(*final(self)) == spec_page_key(page_state_view(*old(self)), old(config)@, key).0,
            final(config)@ == spec_page_key(page_state_view(*old(self)), old(config)@, key).1,
            page_action_view(r) == spec_page_key(page_state_view(*old(self)), old(config)@, key).2,
    {
        match key {
            Key::Char(ch) => {
                if ch == 'q' {
                    PageAction::Quit
                } else if ch == 'a' {
                    self.message = ADD_HINT.to_owned();
                    PageAction::Continue
                } else if ch == 'd' {
                    self.delete(config)
                } else {
                    PageAction::Continue
                }
            },
            Key::Tab => {
                self.current_view = self.current_view.next();
                self.selected_container = 0;
                self.selected_route = 0;
                PageAction::Continue
            },
            Key::Down => {
                match self.current_view {
                    View::Containers => {
                        let last = if config.containers.len() > 0 {
                            config.containers.len() - 1
                        } else {
                            0
                        };
                        if self.selected_container < last {
                            self.selected_container = self.selected_container + 1;
                        }
                    },
                    View::Routes => {
                        let last = if config.routes.len() > 0 {
                            config.routes.len() - 1
                        } else {
                            0
                        };
                        if self.selected_route < last {
                            self.selected_route = self.selected_route + 1;
                        }
                    },
                    _ => {},
                }
                PageAction::Continue
            },
            Key::Up => {
                match self.current_view {
                    View::Containers => {
                        if self.selected_container > 0 {
                            self.selected_container = self.selected_container - 1;
                        }
                    },
                    View::Routes => {
                        if self.selected_route > 0 {
                            self.selected_route = self.selected_route - 1;
                        }
                    },
                    _ => {},
                }
                PageAction::Continue
            },
            _ => PageAction::Continue,
        }
    }
}

/// The highlighted row of the page shown is a row of its list, or the
/// first row; the other page's highlight is on the first row.
pub open spec fn highlight_valid(s: PageStateView, c: ConfigView) -> bool {
    &&& s.page == View::Containers ==> (s.selected_container == 0 || s.selected_container < c.containers.len())
    &&& s.page != View::Containers ==> s.selected_container == 0
    &&& s.page == View::Routes ==> (s.selected_route == 0 || s.selected_route < c.routes.len())
    &&& s.page != View::Routes ==> s.selected_route == 0
}

/// Every key keeps the highlight on a row of the list shown (or on the
/// first row), whatever it does to the configuration.
pub proof fn lemma_key_keeps_highlight(s: PageStateView, c: ConfigView, k: Key)
    requires
        highlight_valid(s, c),
    ensures
        ({
            let (s1, c1, a) = spec_page_key(s, c, k);
            highlight_valid(s1, c1)
        }),
{
}

/// Keys other than `d` leave the configuration as it was.
pub proof fn lemma_only_delete_changes_config(s: PageStateView, c: ConfigView, k: Key)
    requires
        k != Key::Char('d'),
    ensures
        spec_page_key(s, c, k).1 == c,
{
}

/// The key help shown at the bottom when there is no message.
pub const HELP_TEXT: &'static str = "[Tab] Switch View | [q] Quit | [a] Add | [d] Delete";

/// The text of the logs page.
pub const LOGS_TEXT: &'static str = "Logs view not yet implemented.\nUse 'proxy-manager logs' command.";

/// Text pieces of the screen.
pub const HEADER_START: &'static str = " Proxy Manager  | ";
pub const SELECTED_MARK: &'static str = "> ";
pub const UNSELECTED_MARK: &'static str = "  ";
pub const PORT_MARK: &'static str = " :";
pub const NETWORK_MARK: &'static str = "@";
pub const LABEL_OPEN: &'static str = " (";
pub const LABEL_CLOSE: &'static str = ")";
pub const ROUTE_ARROW: &'static str = " -> ";
pub const STATUS_PROXY: &'static str = "Proxy: ";
pub const STATUS_NETWORK: &'static str = "\nNetwork: ";
pub const STATUS_CONTAINERS: &'static str = "\nContainers: ";
pub const STATUS_ROUTES: &'static str = "\nRoutes: ";
pub const STATUS_END: &'static str = "\n";

/// The title of a page.
pub open spec fn spec_page_title(v: View) -> Seq<char> {
    match v {
        View::Containers => "Containers"@,
        View::Routes => "Routes"@,
        View::Status => "Status"@,
        View::Logs => "Logs"@,
    }
}

/// The title of a page.
pub fn page_title(v: View) -> (r: &'static str)
    ensures
        r@ == spec_page_title(v),
{
    match v {
        View::Containers => "Containers",
        View::Routes => "Routes",
        View::Status => "Status",
        View::Logs => "Logs",
    }
}

/// The header line: the program's name and the page's title.
pub fn header_text(v: View) -> (r: String)
    ensures
        r@ == HEADER_START@ + spec_page_title(v),
{
    let mut s = HEADER_START.to_owned();
    s.append(page_title(v));
    s
}

/// The mark in front of a row: an arrow for the highlighted row.
pub open spec fn row_mark(selected: bool) -> Seq<char> {
    if selected {
        SELECTED_MARK@
    } else {
        UNSELECTED_MARK@
    }
}

/// A container's row: mark, name, port, network (the configuration's
/// network when none), label in brackets when there is one.
pub open spec fn spec_container_item(c: ConfigView, cv: ContainerView, selected: bool) -> Seq<char> {
    row_mark(selected) + cv.name + PORT_MARK@ + decimal(cv.port_or_default() as nat) + NETWORK_MARK@
        + cv.network_or(c.network) + match cv.label {
        Some(l) => LABEL_OPEN@ + l + LABEL_CLOSE@,
        None => Seq::empty(),
    }
}

/// The row of the `i`-th container, highlighted when `i` is `selected`.
pub fn container_item(config: &Config, i: usize, selected: usize) -> (r: String)
    requires
        i < config.containers.len(),
    ensures
        r@ == spec_container_item(config@, config@.containers[i as int], i == selected),
{
    let c = &config.containers[i];
    let mut s = if i == selected {
        SELECTED_MARK.to_owned()
    } else {
        UNSELECTED_MARK.to_owned()
    };
    s.append(c.name.as_str());
    s.append(PORT_MARK);
    push_decimal(&mut s, c.get_port() as u64);
    s.append(NETWORK_MARK);
    match &c.network {
        Some(n) => s.append(n.as_str()),
        None => s.append(config.network.as_str()),
    }
    match &c.label {
        Some(l) => {
            s.append(LABEL_OPEN);
            s.append(l.as_str());
            s.append(LABEL_CLOSE);
        },
        None => {},
    }
    proof {
        assert(s@ =~= spec_container_item(config@, config@.containers[i as int], i == selected));
    }
    s
}

/// A route's row: mark, host port, arrow, target.
pub open spec fn spec_route_item(r: RouteView, selected: bool) -> Seq<char> {
    row_mark(selected) + decimal(r.host_port as nat) + ROUTE_ARROW@ + r.target
}

/// The row of the `i`-th route, highlighted when `i` is `selected`.
pub fn route_item(config: &Config, i: usize, selected: usize) -> (r: String)
    requires
        i < config.routes.len(),
    ensures
        r@ == spec_route_item(config@.routes[i as int], i == selected),
{
    let route = &config.routes[i];
    let mut s = if i == selected {
        SELECTED_MARK.to_owned()
    } else {
        UNSELECTED_MARK.to_owned()
    };
    push_decimal(&mut s, route.host_port as u64);
    s.append(ROUTE_ARROW);
    s.append(route.target.as_str());
    proof {
        assert(s@ =~= spec_route_item(config@.routes[i as int], i == selected));
    }
    s
}

/// The status page: the proxy's name, the network, and how many containers
/// and routes are configured.
pub open spec fn spec_page_status(c: ConfigView) -> Seq<char> {
    STATUS_PROXY@ + c.proxy_name + STATUS_NETWORK@ + c.network + STATUS_CONTAINERS@ + decimal(
        c.containers.len(),
    ) + STATUS_ROUTES@ + decimal(c.routes.len()) + STATUS_END@
}

/// The text of the status page.
pub fn page_status_text(config: &Config) -> (r: String)
    ensures
        r@ == spec_page_status(config@),
{
    let mut s = STATUS_PROXY.to_owned();
    s.append(config.proxy_name.as_str());
    s.append(STATUS_NETWORK);
    s.append(config.network.as_str());
    s.append(STATUS_CONTAINERS);
    push_decimal(&mut s, config.containers.len() as u64);
    s.append(STATUS_ROUTES);
    push_decimal(&mut s, config.routes.len() as u64);
    s.append(STATUS_END);
    proof {
        assert(s@ =~= spec_page_status(config@));
    }
    s
}

/// The bottom line: the message, or the key help when there is none.
pub fn footer_text(state: &PageState) -> (r: String)
    ensures
        r@ == if state.message@.len() == 0 {
            HELP_TEXT@
        } else {
            state.message@
        },
{
    if state.message.as_str().is_empty() {
        HELP_TEXT.to_owned()
    } else {
        state.message.clone()
    }
}

} // verus!
