//! The entities of a browser profile as they are scanned from its files.

use vstd::prelude::*;
use crate::table::Plain;
use crate::text::str_eq;

verus! {

/// A container (contextual identity) of the profile.
#[derive(Debug)]
pub struct Container {
    pub user_context_id: u32,
    pub name: String,
    pub icon: String,
    pub color: String,
    pub is_public: bool,
}

/// A container as plain data.
pub struct ContainerView {
    pub user_context_id: u32,
    pub name: Seq<char>,
    pub icon: Seq<char>,
    pub color: Seq<char>,
    pub is_public: bool,
}

impl View for Container {
    type V = ContainerView;

    open spec fn view(&self) -> ContainerView {
        ContainerView {
            user_context_id: self.user_context_id,
            name: self.name@,
            icon: self.icon@,
            color: self.color@,
            is_public: self.is_public,
        }
    }
}

impl DeepView for Container {
    type V = ContainerView;

    open spec fn deep_view(&self) -> ContainerView {
        self.view()
    }
}

impl Clone for Container {
    fn clone(&self) -> (r: Self)
        ensures
            r@ == self@,
    {
        Container {
            user_context_id: self.user_context_id,
            name: self.name.clone(),
            icon: self.icon.clone(),
            color: self.color.clone(),
            is_public: self.is_public,
        }
    }
}

/// A protocol handler of the profile.
#[derive(Debug)]
pub struct Handler {
    pub protocol: String,
    pub handler: String,
}

/// A protocol handler as plain data.
pub struct HandlerView {
    pub protocol: Seq<char>,
    pub handler: Seq<char>,
}

impl View for Handler {
    type V = HandlerView;

    open spec fn view(&self) -> HandlerView {
        HandlerView { protocol: self.protocol@, handler: self.handler@ }
    }
}

impl DeepView for Handler {
    type V = HandlerView;

    open spec fn deep_view(&self) -> HandlerView {
        self.view()
    }
}

impl Clone for Handler {
    fn clone(&self) -> (r: Self)
        ensures
            r@ == self@,
    {
        Handler { protocol: self.protocol.clone(), handler: self.handler.clone() }
    }
}

/// An extension of the profile.
#[derive(Debug)]
pub struct Extension {
    pub id: String,
    pub name: String,
    pub url: Option<String>,
}

/// An extension as plain data.
pub struct ExtensionView {
    pub id: Seq<char>,
    pub name: Seq<char>,
    pub url: Option<Seq<char>>,
}

impl View for Extension {
    type V = ExtensionView;

    open spec fn view(&self) -> ExtensionView {
        ExtensionView { id: self.id@, name: self.name@, url: self.url.deep_view() }
    }
}

impl DeepView for Extension {
    type V = ExtensionView;

    open spec fn deep_view(&self) -> ExtensionView {
        self.view()
    }
}

impl Clone for Extension {
    fn clone(&self) -> (r: Self)
        ensures
            r@ == self@,
    {
        Extension {
            id: self.id.clone(),
            name: self.name.clone(),
            url: crate::events::types::clone_opt(&self.url),
        }
    }
}

/// A search engine of the profile.
#[derive(Debug)]
pub struct SearchEngine {
    pub id: String,
    pub name: String,
    pub url: String,
    pub is_default: bool,
}

/// A search engine as plain data.
pub struct SearchEngineView {
    pub id: Seq<char>,
    pub name: Seq<char>,
    pub url: Seq<char>,
    pub is_default: bool,
}

impl View for SearchEngine {
    type V = SearchEngineView;

    open spec fn view(&self) -> SearchEngineView {
        SearchEngineView {
            id: self.id@,
            name: self.name@,
            url: self.url@,
            is_default: self.is_default,
        }
    }
}

impl DeepView for SearchEngine {
    type V = SearchEngineView;

    open spec fn deep_view(&self) -> SearchEngineView {
        self.view()
    }
}

impl Clone for SearchEngine {
    fn clone(&self) -> (r: Self)
        ensures
            r@ == self@,
    {
        SearchEngine {
            id: self.id.clone(),
            name: self.name.clone(),
            url: self.url.clone(),
            is_default: self.is_default,
        }
    }
}

/// True when `list` holds `key`.
pub fn contains_text(list: &[String], key: &str) -> (r: bool)
    ensures
        r == list.deep_view().contains(key@),
{
    let mut i: usize = 0;
    while i < list.len()
        invariant
            i <= list.len(),
            forall|j: int| 0 <= j < i ==> list.deep_view()[j] != key@,
        decreases list.len() - i,
    {
        if str_eq(list[i].as_str(), key) {
            proof {
                assert(list.deep_view()[i as int] == key@);
            }
            return true;
        }
        i += 1;
    }
    false
}

/// True when the browser holds the profile: the profile directory, whose
/// entries are `profile_entries`, has a file called `lock` or
/// `.parentlock`.
pub fn is_browser_running(profile_entries: &[String]) -> (r: bool)
    ensures
        r == (profile_entries.deep_view().contains("lock"@) || profile_entries.deep_view().contains(
            ".parentlock"@,
        )),
{
    contains_text(profile_entries, "lock") || contains_text(profile_entries, ".parentlock")
}

} // verus!
