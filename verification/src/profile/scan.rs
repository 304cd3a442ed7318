//! What is made of the records of a profile's files: which addon is an
//! extension and under what name, which identifier a search engine goes
//! by, which profile of an installation is the default.

use vstd::prelude::*;
use crate::events::types::clone_opt;
use crate::profile::entities::{
    Container, ContainerView, Extension, ExtensionView, Handler, HandlerView, SearchEngine,
    SearchEngineView,
};
use crate::text::{join, lowercased, replace_char, str_eq, to_lowercase, with_replaced};

verus! {

/// The extension that an addon record stands for: none unless its type is
/// `extension`; named by its localised name, else by its plain name, else
/// by its identifier.
pub open spec fn extension_of_addon(
    id: Seq<char>,
    addon_type: Seq<char>,
    locale_name: Option<Seq<char>>,
    name: Option<Seq<char>>,
    source_uri: Option<Seq<char>>,
) -> Option<ExtensionView> {
    if addon_type == "extension"@ {
        Some(
            ExtensionView {
                id,
                name: match locale_name {
                    Some(n) => n,
                    None => match name {
                        Some(n) => n,
                        None => id,
                    },
                },
                url: source_uri,
            },
        )
    } else {
        None
    }
}

/// Reads an addon record.
pub fn extension_from_addon(
    id: &str,
    addon_type: &str,
    locale_name: Option<&str>,
    name: Option<&str>,
    source_uri: Option<&str>,
) -> (r: Option<Extension>)
    ensures
        r.deep_view() == extension_of_addon(
            id@,
            addon_type@,
            locale_name.deep_view(),
            name.deep_view(),
            source_uri.deep_view(),
        ),
{
    if !str_eq(addon_type, "extension") {
        return None;
    }
    let shown = match locale_name {
        Some(n) => n.to_owned(),
        None => match name {
            Some(n) => n.to_owned(),
            None => id.to_owned(),
        },
    };
    Some(Extension { id: id.to_owned(), name: shown, url: crate::state::db::own_opt(source_uri) })
}

/// The identifier that a search engine goes by when it has no alias: its
/// name in lower case with a hyphen for every space.
pub open spec fn engine_slug(name: Seq<char>) -> Seq<char> {
    with_replaced(lowercased(name), ' ', '-')
}

/// The search engine that a record stands for. It goes by its alias, or
/// by the slug of its name; it is the default when that identifier is the
/// default identifier of the file.
pub open spec fn engine_of_record(
    name: Seq<char>,
    alias: Option<Seq<char>>,
    load_path: Option<Seq<char>>,
    default_id: Seq<char>,
) -> SearchEngineView {
    let id = match alias {
        Some(a) => a,
        None => engine_slug(name),
    };
    SearchEngineView {
        id,
        name,
        url: match load_path {
            Some(p) => p,
            None => Seq::empty(),
        },
        is_default: id == default_id,
    }
}

/// Reads a search engine record.
pub fn search_engine_from_record(
    name: &str,
    alias: Option<&str>,
    load_path: Option<&str>,
    default_id: &str,
) -> (r: SearchEngine)
    ensures
        r@ == engine_of_record(name@, alias.deep_view(), load_path.deep_view(), default_id@),
{
    let id = match alias {
        Some(a) => a.to_owned(),
        None => {
            let lower = to_lowercase(name);
            replace_char(lower.as_str(), ' ', '-')
        },
    };
    let url = match load_path {
        Some(p) => p.to_owned(),
        None => String::new(),
    };
    let is_default = str_eq(id.as_str(), default_id);
    SearchEngine { id, name: name.to_owned(), url, is_default }
}

/// The largest container number of a list; zero for the empty list.
pub open spec fn last_context_id(containers: Seq<ContainerView>) -> u32
    decreases containers.len(),
{
    if containers.len() == 0 {
        0
    } else {
        let rest = last_context_id(containers.drop_last());
        if containers.last().user_context_id > rest {
            containers.last().user_context_id
        } else {
            rest
        }
    }
}

/// The largest container number of a list, which the containers file
/// records beside the containers.
pub fn max_context_id(containers: &[Container]) -> (r: u32)
    ensures
        r == last_context_id(containers.deep_view()),
{
    let ghost all = containers.deep_view();
    let mut max: u32 = 0;
    let mut i: usize = 0;
    proof {
        assert(all.subrange(0, 0) =~= Seq::<ContainerView>::empty());
    }
    while i < containers.len()
        invariant
            i <= containers.len(),
            all == containers.deep_view(),
            max == last_context_id(all.subrange(0, i as int)),
        decreases containers.len() - i,
    {
        proof {
            assert(all.subrange(0, i + 1).drop_last() =~= all.subrange(0, i as int));
            assert(all.subrange(0, i + 1).last() == containers[i as int]@);
        }
        if containers[i].user_context_id > max {
            max = containers[i].user_context_id;
        }
        i += 1;
    }
    proof {
        assert(all.subrange(0, containers.len() as int) =~= all);
    }
    max
}

/// A profile of an installation, as `profiles.ini` lists it.
#[derive(Debug)]
pub struct ProfileEntry {
    /// The path as written in the file.
    pub path: String,
    /// True when the path is relative to the installation directory.
    pub is_relative: bool,
    /// True when the entry carries the default flag.
    pub is_default: bool,
    /// True when the profile directory holds a preferences file.
    pub has_prefs: bool,
}

/// A profile entry as plain data.
pub struct ProfileEntryView {
    pub path: Seq<char>,
    pub is_relative: bool,
    pub is_default: bool,
    pub has_prefs: bool,
}

impl View for ProfileEntry {
    type V = ProfileEntryView;

    open spec fn view(&self) -> ProfileEntryView {
        ProfileEntryView {
            path: self.path@,
            is_relative: self.is_relative,
            is_default: self.is_default,
            has_prefs: self.has_prefs,
        }
    }
}

impl DeepView for ProfileEntry {
    type V = ProfileEntryView;

    open spec fn deep_view(&self) -> ProfileEntryView {
        self.view()
    }
}

/// The directory of a profile entry below the installation directory
/// `base`.
pub open spec fn resolved_path(base: Seq<char>, entry: ProfileEntryView) -> Seq<char> {
    if entry.is_relative {
        base + "/"@ + entry.path
    } else {
        entry.path
    }
}

/// True when entry `i` is the one that the installation names as its
/// default and its directory holds a preferences file.
pub open spec fn is_install_default(
    entries: Seq<ProfileEntryView>,
    install_default: Option<Seq<char>>,
    i: int,
) -> bool {
    install_default matches Some(d) && 0 <= i < entries.len() && entries[i].path == d
        && entries[i].has_prefs
}

/// True when entry `i` carries the default flag and its directory holds a
/// preferences file.
pub open spec fn is_flagged_default(entries: Seq<ProfileEntryView>, i: int) -> bool {
    0 <= i < entries.len() && entries[i].is_default && entries[i].has_prefs
}

/// Picks the default profile: an entry that the installation names as
/// its default and whose directory holds a preferences file; otherwise an
/// entry with the default flag and a preferences file. None when there is
/// no such entry.
pub fn select_profile(base: &str, entries: &[ProfileEntry], install_default: Option<&str>) -> (r:
    Option<String>)
    ensures
        match r {
            Some(path) => exists|i: int|
                0 <= i < entries@.len() && path@ == resolved_path(
                    base@,
                    #[trigger] entries.deep_view()[i],
                ) && (is_install_default(entries.deep_view(), install_default.deep_view(), i) || (
                is_flagged_default(entries.deep_view(), i) && forall|j: int|
                    !is_install_default(entries.deep_view(), install_default.deep_view(), j))),
            None => forall|i: int|
                !is_install_default(entries.deep_view(), install_default.deep_view(), i)
                    && !is_flagged_default(entries.deep_view(), i),
        },
{
    let ghost all = entries.deep_view();
    let ghost named = install_default.deep_view();
    match install_default {
        Some(d) => {
            let mut i: usize = 0;
            while i < entries.len()
                invariant
                    i <= entries.len(),
                    all == entries.deep_view(),
                    named == Some(d@),
                    named == install_default.deep_view(),
                    forall|j: int| 0 <= j < i ==> !is_install_default(all, named, j),
                decreases entries.len() - i,
            {
                if str_eq(entries[i].path.as_str(), d) && entries[i].has_prefs {
                    let path = resolve(base, &entries[i]);
                    proof {
                        assert(all[i as int] == entries[i as int]@);
                        assert(is_install_default(all, named, i as int));
                        assert(path@ == resolved_path(base@, entries.deep_view()[i as int]));
                    }
                    return Some(path);
                }
                proof {
                    assert(all[i as int] == entries[i as int]@);
                }
                i += 1;
            }
        },
        None => {},
    }
    let mut k: usize = 0;
    while k < entries.len()
        invariant
            k <= entries.len(),
            all == entries.deep_view(),
            named == install_default.deep_view(),
            forall|j: int| !is_install_default(all, named, j),
            forall|j: int| 0 <= j < k ==> !is_flagged_default(all, j),
        decreases entries.len() - k,
    {
        proof {
            assert(all[k as int] == entries[k as int]@);
        }
        if entries[k].is_default && entries[k].has_prefs {
            let path = resolve(base, &entries[k]);
            proof {
                assert(is_flagged_default(all, k as int));
                assert(path@ == resolved_path(base@, entries.deep_view()[k as int]));
            }
            return Some(path);
        }
        k += 1;
    }
    None
}

/// The directory of a profile entry below the installation directory.
fn resolve(base: &str, entry: &ProfileEntry) -> (path: String)
    ensures
        path@ == resolved_path(base@, entry@),
{
    if entry.is_relative {
        let head = join(base, "/");
        join(head.as_str(), entry.path.as_str())
    } else {
        entry.path.clone()
    }
}

} // verus!
