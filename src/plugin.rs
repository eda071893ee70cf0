use vstd::prelude::*;
use crate::platform::{fits_nowhere, is_selected, platforms_of, select, Cpu, NoMatchingArtifact, OperatingSystem, System};
use crate::source::{find_plugin_of, lemma_find_plugin_found, plugins_of, Library, Source, SourcesList};

verus! {

#[derive(Clone, Copy, Debug, PartialEq, Eq, Structural)]
pub enum DriverType {
    Linter,
    Formatter,
    Validator,
}

/// How one invocation of a driver spreads over the work.
#[derive(Clone, Copy, Debug, PartialEq, Eq, Structural)]
pub enum DriverBatchBy {
    PerFile,
    PerDirectory,
    PerProject,
    Unbatched,
}

#[derive(Clone, Copy, Debug, PartialEq, Eq, Structural)]
pub enum OutputFormat {
    Sarif,
    Json,
    Text,
}

#[derive(Clone, Copy, Debug, PartialEq, Eq, Structural)]
pub enum Runtime {
    Node,
    Python,
    Ruby,
    Go,
    Java,
}

/// One invocable capability of a plugin.
#[derive(Clone, Debug)]
pub struct DriverDef {
    pub name: String,
    pub script: String,
    pub driver_type: DriverType,
    pub batch_by: DriverBatchBy,
    pub output_format: OutputFormat,
}

/// A plugin as a source defines it.
#[derive(Clone, Debug)]
pub struct PluginDef {
    pub name: String,
    pub version: Option<String>,
    pub runtime: Option<Runtime>,
    pub drivers: Vec<DriverDef>,
    pub downloads: Vec<System>,
    pub extra_packages: Vec<String>,
}

/// A plugin that the configuration turns on, by name.
#[derive(Clone, Debug)]
pub struct EnabledPlugin {
    pub name: String,
    pub version: Option<String>,
    pub extra_packages: Vec<String>,
}

/// A plugin ready to be planned: where its definition stands in the catalog
/// (source, then position in that source's definitions), which download row
/// fits the host, and the extra packages to install.
#[derive(Clone, Debug)]
pub struct ResolvedPlugin {
    pub name: String,
    pub source: usize,
    pub plugin: usize,
    pub download: usize,
    pub extra_packages: Vec<String>,
}

#[derive(Clone, Debug)]
pub enum PluginError {
    UnknownPlugin { name: String },
    VersionNotAvailable { name: String, requested: String },
    NoMatchingArtifact { name: String, artifact: NoMatchingArtifact },
}

/// A version pin is met when absent, or equal to the definition's version.
pub open spec fn pin_met(pin: Option<String>, version: Option<String>) -> bool {
    match pin {
        None => true,
        Some(v) => version is Some && version->0@ == v@,
    }
}

/// The outcome of resolving an enabled plugin against a catalog for a host.
pub open spec fn resolve_outcome(
    enabled: EnabledPlugin,
    sources: Seq<Source>,
    library: Library,
    os: OperatingSystem,
    cpu: Cpu,
    r: Result<ResolvedPlugin, PluginError>,
) -> bool {
    match find_plugin_of(sources, library, enabled.name@) {
        None => r == Err::<ResolvedPlugin, PluginError>(PluginError::UnknownPlugin { name: enabled.name }),
        Some((s, p)) => {
            let def = plugins_of(sources[s], library)[p];
            if !pin_met(enabled.version, def.version) {
                r == Err::<ResolvedPlugin, PluginError>(
                    PluginError::VersionNotAvailable { name: enabled.name, requested: enabled.version->0 },
                )
            } else if fits_nowhere(def.downloads@, os, cpu) {
                &&& r matches Err(PluginError::NoMatchingArtifact { name, artifact })
                &&& name == enabled.name
                &&& artifact.os == os
                &&& artifact.cpu == cpu
                &&& artifact.available@ == platforms_of(def.downloads@)
            } else {
                &&& r matches Ok(rp)
                &&& rp.name == enabled.name
                &&& rp.source == s
                &&& rp.plugin == p
                &&& is_selected(def.downloads@, rp.download as int, os, cpu)
                &&& rp.extra_packages@ == def.extra_packages@ + enabled.extra_packages@
            }
        },
    }
}

/// Resolution succeeds: the plugin is defined, its pin is met and a download
/// row fits the host.
pub open spec fn resolves(enabled: EnabledPlugin, sources: Seq<Source>, library: Library, os: OperatingSystem, cpu: Cpu) -> bool {
    match find_plugin_of(sources, library, enabled.name@) {
        None => false,
        Some((s, p)) => {
            let def = plugins_of(sources[s], library)[p];
            pin_met(enabled.version, def.version) && !fits_nowhere(def.downloads@, os, cpu)
        },
    }
}

fn pin_matches(pin: &Option<String>, version: &Option<String>) -> (r: bool)
    ensures
        r == pin_met(*pin, *version),
{
    match pin {
        None => true,
        Some(v) => match version {
            Some(w) => *w == *v,
            None => false,
        },
    }
}

/// The extra packages of the definition, then those of the enabled plugin.
fn merged_packages(defaults: &Vec<String>, added: &Vec<String>) -> (r: Vec<String>)
    ensures
        r@ == defaults@ + added@,
{
    let mut out: Vec<String> = Vec::new();
    let mut i: usize = 0;
    while i < defaults.len()
        invariant
            i <= defaults@.len(),
            out@ == defaults@.subrange(0, i as int),
        decreases defaults@.len() - i,
    {
        out.push(defaults[i].clone());
        assert(out@ =~= defaults@.subrange(0, i + 1));
        i = i + 1;
    }
    let mut j: usize = 0;
    while j < added.len()
        invariant
            j <= added@.len(),
            out@ == defaults@ + added@.subrange(0, j as int),
        decreases added@.len() - j,
    {
        out.push(added[j].clone());
        assert(out@ =~= defaults@ + added@.subrange(0, j + 1));
        j = j + 1;
    }
    assert(out@ =~= defaults@ + added@);
    out
}

/// Resolves an enabled plugin: finds its definition, holds it to the pin,
/// picks the download row for the host and merges the extra packages.
pub fn resolve_plugin(
    enabled: &EnabledPlugin,
    catalog: &SourcesList,
    library: &Library,
    os: OperatingSystem,
    cpu: Cpu,
) -> (r: Result<ResolvedPlugin, PluginError>)
    ensures
        resolve_outcome(*enabled, catalog.sources@, *library, os, cpu, r),
        r is Ok <==> resolves(*enabled, catalog.sources@, *library, os, cpu),
{
    proof {
        lemma_find_plugin_found(catalog.sources@, *library, enabled.name@);
    }
    let (s, p) = match catalog.find_plugin(library, &enabled.name) {
        Some(found) => found,
        None => return Err(PluginError::UnknownPlugin { name: enabled.name.clone() }),
    };
    assert(plugins_of(catalog.sources@[s as int], *library).len() > 0);
    let k = catalog.sources[s].cached.unwrap();
    let def = &library.cached[k].plugins[p];
    if !pin_matches(&enabled.version, &def.version) {
        let requested = match &enabled.version {
            Some(v) => v.clone(),
            None => String::new(),
        };
        return Err(PluginError::VersionNotAvailable { name: enabled.name.clone(), requested });
    }
    match select(&def.downloads, os, cpu) {
        Err(artifact) => Err(PluginError::NoMatchingArtifact { name: enabled.name.clone(), artifact }),
        Ok(download) => Ok(ResolvedPlugin {
            name: enabled.name.clone(),
            source: s,
            plugin: p,
            download,
            extra_packages: merged_packages(&def.extra_packages, &enabled.extra_packages),
        }),
    }
}

} // verus!
