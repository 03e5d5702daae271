//! What a page of the site shows: a table's path, the links to its formats, and its tabs.
use vstd::prelude::*;

verus! {

/// A tab of a page: a table, whether it is the one shown, and the links to its rows and
/// to their count.
#[derive(Debug, PartialEq, Eq)]
pub struct Tab {
    pub table: String,
    pub active: bool,
    pub url: String,
    pub count: String,
}

/// The model of a tab.
pub struct TabView {
    pub table: Seq<char>,
    pub active: bool,
    pub url: Seq<char>,
    pub count: Seq<char>,
}

impl View for Tab {
    type V = TabView;

    open spec fn view(&self) -> TabView {
        TabView { table: self.table@, active: self.active, url: self.url@, count: self.count@ }
    }
}

/// A page of the site.
#[derive(Debug)]
pub struct Page {
    pub path: String,
    pub formats: indexmap::IndexMap<String, String>,
    pub tabs: Vec<Tab>,
}

/// The model of a page: its path, the links to its formats by name, and its tabs.
pub struct PageView {
    pub path: Seq<char>,
    pub formats: Seq<(Seq<char>, Seq<char>)>,
    pub tabs: Seq<TabView>,
}

impl View for Page {
    type V = PageView;

    open spec fn view(&self) -> PageView {
        PageView {
            path: self.path@,
            formats: crate::maps::string_map_entries(self.formats),
            tabs: self.tabs@.map_values(|t: Tab| t@),
        }
    }
}

} // verus!
