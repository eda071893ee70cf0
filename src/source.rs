use vstd::prelude::*;
use crate::plugin::PluginDef;
use crate::search::{first_true, lemma_first_true_found, lemma_first_true_stable};

verus! {

/// Where the definitions of a source live.
#[derive(Clone, Debug)]
pub enum SourceKind {
    Directory { path: String },
    Repository { url: String, reference: Option<String> },
    Registry { name: String },
}

/// A source as the configuration declares it.
#[derive(Clone, Debug)]
pub struct SourceDef {
    pub name: Option<String>,
    pub kind: SourceKind,
}

/// The definitions that the fetch layer stored for one source location.
#[derive(Clone, Debug)]
pub struct CachedSource {
    pub location: String,
    pub plugins: Vec<PluginDef>,
}

/// Local storage: its root and the definitions fetched so far.
#[derive(Clone, Debug)]
pub struct Library {
    pub root: String,
    pub cached: Vec<CachedSource>,
}

/// A resolved source: its declaration and, when the library holds its
/// definitions, the index of that entry.
#[derive(Clone, Debug)]
pub struct Source {
    pub name: Option<String>,
    pub kind: SourceKind,
    pub cached: Option<usize>,
}

/// Resolved sources in precedence order: the first one wins.
#[derive(Clone, Debug)]
pub struct SourcesList {
    pub sources: Vec<Source>,
}

#[derive(Clone, Debug)]
pub enum SourceError {
    MissingReference { url: String },
    EmptyRegistryName,
}

pub open spec fn location_of(kind: SourceKind) -> Seq<char> {
    match kind {
        SourceKind::Directory { path } => path@,
        SourceKind::Repository { url, .. } => url@,
        SourceKind::Registry { name } => name@,
    }
}

/// The error of a structurally invalid declaration, or none.
pub open spec fn kind_error(kind: SourceKind) -> Option<SourceError> {
    match kind {
        SourceKind::Repository { url, reference } => if reference is None {
            Some(SourceError::MissingReference { url })
        } else {
            None
        },
        SourceKind::Registry { name } => if name@.len() == 0 {
            Some(SourceError::EmptyRegistryName)
        } else {
            None
        },
        SourceKind::Directory { .. } => None,
    }
}

pub open spec fn location_flags(cached: Seq<CachedSource>, loc: Seq<char>) -> Seq<bool> {
    cached.map_values(|c: CachedSource| c.location@ == loc)
}

/// The first library entry stored under `loc`.
pub open spec fn first_cached(cached: Seq<CachedSource>, loc: Seq<char>) -> Option<usize> {
    match first_true(location_flags(cached, loc), cached.len()) {
        Some(k) => Some(k as usize),
        None => None,
    }
}

pub open spec fn cache_index(library: Library, kind: SourceKind) -> Option<usize> {
    first_cached(library.cached@, location_of(kind))
}

pub open spec fn source_of(def: SourceDef, library: Library) -> Result<Source, SourceError> {
    match kind_error(def.kind) {
        Some(e) => Err(e),
        None => Ok(Source { name: def.name, kind: def.kind, cached: cache_index(library, def.kind) }),
    }
}

/// The definitions that the library holds for a source.
pub open spec fn plugins_of(source: Source, library: Library) -> Seq<PluginDef> {
    match source.cached {
        Some(k) => if k < library.cached@.len() {
            library.cached@[k as int].plugins@
        } else {
            Seq::empty()
        },
        None => Seq::empty(),
    }
}

pub open spec fn name_flags(plugins: Seq<PluginDef>, name: Seq<char>) -> Seq<bool> {
    plugins.map_values(|p: PluginDef| p.name@ == name)
}

/// The position of the first definition of `name` in a source.
pub open spec fn plugin_in(source: Source, library: Library, name: Seq<char>) -> Option<int> {
    let plugins = plugins_of(source, library);
    first_true(name_flags(plugins, name), plugins.len())
}

pub open spec fn defining_flags(sources: Seq<Source>, library: Library, name: Seq<char>) -> Seq<bool> {
    sources.map_values(|s: Source| plugin_in(s, library, name) is Some)
}

/// The first source in catalog order that defines `name`, and the position of
/// the definition in it.
pub open spec fn find_plugin_of(sources: Seq<Source>, library: Library, name: Seq<char>) -> Option<(int, int)> {
    match first_true(defining_flags(sources, library, name), sources.len()) {
        Some(s) => Some((s, plugin_in(sources[s], library, name)->0)),
        None => None,
    }
}

/// A position that `find_plugin_of` gives names a definition of `name`.
pub proof fn lemma_find_plugin_found(sources: Seq<Source>, library: Library, name: Seq<char>)
    ensures
        find_plugin_of(sources, library, name) matches Some((s, p)) ==> {
            &&& 0 <= s < sources.len()
            &&& 0 <= p < plugins_of(sources[s], library).len()
            &&& plugins_of(sources[s], library)[p].name@ == name
        },
{
    let flags = defining_flags(sources, library, name);
    lemma_first_true_found(flags, sources.len());
    if let Some(s) = first_true(flags, sources.len()) {
        let plugins = plugins_of(sources[s], library);
        lemma_first_true_found(name_flags(plugins, name), plugins.len());
    }
}

pub fn clone_string_option(o: &Option<String>) -> (r: Option<String>)
    ensures
        r == *o,
{
    match o {
        Some(s) => Some(s.clone()),
        None => None,
    }
}

pub fn clone_kind(kind: &SourceKind) -> (r: SourceKind)
    ensures
        r == *kind,
{
    match kind {
        SourceKind::Directory { path } => SourceKind::Directory { path: path.clone() },
        SourceKind::Repository { url, reference } => SourceKind::Repository {
            url: url.clone(),
            reference: clone_string_option(reference),
        },
        SourceKind::Registry { name } => SourceKind::Registry { name: name.clone() },
    }
}

impl SourceKind {
    pub fn location(&self) -> (r: &String)
        ensures
            r@ == location_of(*self),
    {
        match self {
            SourceKind::Directory { path } => path,
            SourceKind::Repository { url, .. } => url,
            SourceKind::Registry { name } => name,
        }
    }
}

impl Library {
    /// The first entry stored under `location`.
    pub fn find_cached(&self, location: &String) -> (r: Option<usize>)
        ensures
            r == first_cached(self.cached@, location@),
    {
        let ghost flags = location_flags(self.cached@, location@);
        let mut i: usize = 0;
        while i < self.cached.len()
            invariant
                i <= self.cached@.len(),
                flags == location_flags(self.cached@, location@),
                first_true(flags, i as nat) is None,
            decreases self.cached@.len() - i,
        {
            if self.cached[i].location == *location {
                proof {
                    assert(flags[i as int]);
                    lemma_first_true_stable(flags, (i + 1) as nat, self.cached@.len());
                }
                return Some(i);
            }
            i = i + 1;
        }
        None
    }
}

impl Source {
    /// The position of the first definition of `name` that the library holds
    /// for this source.
    pub fn find_in(&self, library: &Library, name: &String) -> (r: Option<usize>)
        ensures
            match r {
                Some(p) => plugin_in(*self, *library, name@) == Some(p as int),
                None => plugin_in(*self, *library, name@) is None,
            },
    {
        let k = match self.cached {
            Some(k) => k,
            None => return None,
        };
        if k >= library.cached.len() {
            return None;
        }
        let plugins = &library.cached[k].plugins;
        let ghost flags = name_flags(plugins@, name@);
        let mut i: usize = 0;
        while i < plugins.len()
            invariant
                plugins@ == plugins_of(*self, *library),
                flags == name_flags(plugins@, name@),
                i <= plugins@.len(),
                first_true(flags, i as nat) is None,
            decreases plugins@.len() - i,
        {
            if plugins[i].name == *name {
                proof {
                    assert(flags[i as int]);
                    lemma_first_true_stable(flags, (i + 1) as nat, plugins@.len());
                }
                return Some(i);
            }
            i = i + 1;
        }
        None
    }
}

impl SourcesList {
    /// Looks `name` up across the catalog: the first source that defines it wins.
    pub fn find_plugin(&self, library: &Library, name: &String) -> (r: Option<(usize, usize)>)
        ensures
            match r {
                Some((s, p)) => find_plugin_of(self.sources@, *library, name@) == Some((s as int, p as int)),
                None => find_plugin_of(self.sources@, *library, name@) is None,
            },
    {
        let ghost flags = defining_flags(self.sources@, *library, name@);
        let mut i: usize = 0;
        while i < self.sources.len()
            invariant
                flags == defining_flags(self.sources@, *library, name@),
                i <= self.sources@.len(),
                first_true(flags, i as nat) is None,
            decreases self.sources@.len() - i,
        {
            match self.sources[i].find_in(library, name) {
                Some(p) => {
                    proof {
                        assert(flags[i as int]);
                        lemma_first_true_stable(flags, (i + 1) as nat, self.sources@.len());
                    }
                    return Some((i, p));
                },
                None => {},
            }
            i = i + 1;
        }
        None
    }
}

impl SourceDef {
    /// Turns the declaration into a source handle; fetches nothing.
    pub fn source(&self, library: &Library) -> (r: Result<Source, SourceError>)
        ensures
            r == source_of(*self, *library),
    {
        match &self.kind {
            SourceKind::Repository { url, reference } => {
                if reference.is_none() {
                    return Err(SourceError::MissingReference { url: url.clone() });
                }
            },
            SourceKind::Registry { name } => {
                if name.as_str().is_empty() {
                    return Err(SourceError::EmptyRegistryName);
                }
            },
            SourceKind::Directory { .. } => {},
        }
        let cached = library.find_cached(self.kind.location());
        Ok(Source { name: clone_string_option(&self.name), kind: clone_kind(&self.kind), cached })
    }
}

} // verus!
