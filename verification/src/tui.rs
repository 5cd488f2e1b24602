//! The tabs of the interactive interface and how the user moves between them.
use vstd::prelude::*;

verus! {

/// The tabs of the interactive interface.
#[derive(Debug, Clone, Copy, PartialEq, Eq, Structural)]
pub enum Tab {
    Containers,
    Routes,
    Status,
    Logs,
}

/// The title of a tab.
pub open spec fn spec_tab_title(t: Tab) -> Seq<char> {
    match t {
        Tab::Containers => "Containers"@,
        Tab::Routes => "Routes"@,
        Tab::Status => "Status"@,
        Tab::Logs => "Logs"@,
    }
}

/// The tab after a tab, the last one followed by the first.
pub open spec fn spec_tab_next(t: Tab) -> Tab {
    match t {
        Tab::Containers => Tab::Routes,
        Tab::Routes => Tab::Status,
        Tab::Status => Tab::Logs,
        Tab::Logs => Tab::Containers,
    }
}

/// The tab before a tab, the first one preceded by the last.
pub open spec fn spec_tab_prev(t: Tab) -> Tab {
    match t {
        Tab::Containers => Tab::Logs,
        Tab::Routes => Tab::Containers,
        Tab::Status => Tab::Routes,
        Tab::Logs => Tab::Status,
    }
}

impl Tab {
    /// The title of the tab.
    pub fn as_str(&self) -> (r: &'static str)
        ensures
            r@ == spec_tab_title(*self),
    {
        match self {
            Tab::Containers => "Containers",
            Tab::Routes => "Routes",
            Tab::Status => "Status",
            Tab::Logs => "Logs",
        }
    }

    /// The tab after this one.
    pub fn next(&self) -> (r: Tab)
        ensures
            r == spec_tab_next(*self),
    {
        match self {
            Tab::Containers => Tab::Routes,
            Tab::Routes => Tab::Status,
            Tab::Status => Tab::Logs,
            Tab::Logs => Tab::Containers,
        }
    }

    /// The tab before this one.
    pub fn prev(&self) -> (r: Tab)
        ensures
            r == spec_tab_prev(*self),
    {
        match self {
            Tab::Containers => Tab::Logs,
            Tab::Routes => Tab::Containers,
            Tab::Status => Tab::Routes,
            Tab::Logs => Tab::Status,
        }
    }
}

/// Going forward and then back returns to the tab one started from, and so
/// does going back and then forward.
pub proof fn lemma_tab_next_prev(t: Tab)
    ensures
        spec_tab_prev(spec_tab_next(t)) == t,
        spec_tab_next(spec_tab_prev(t)) == t,
{
}

/// Four steps forward return to the tab one started from.
pub proof fn lemma_tab_cycle(t: Tab)
    ensures
        spec_tab_next(spec_tab_next(spec_tab_next(spec_tab_next(t)))) == t,
{
}

} // verus!
