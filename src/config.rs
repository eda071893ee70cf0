use vstd::prelude::*;
use crate::search::{first_true, lemma_first_true_found, lemma_first_true_stable};
use crate::source::{source_of, Library, Source, SourceDef, SourceError, SourcesList};
use crate::plugin::{resolve_plugin, resolve_outcome, resolves, EnabledPlugin, PluginError, ResolvedPlugin, Runtime};
use crate::platform::{lemma_selected_unique, Cpu, OperatingSystem};
use crate::version::{check_versions, parse_version, parsed_version, verdict_of, CompatibilityVerdict, SemVer};

verus! {

/// Paths and rules to leave out of analysis.
#[derive(Clone, Debug)]
pub struct Ignore {
    pub file_patterns: Vec<String>,
    pub plugins: Vec<String>,
    pub rules: Vec<String>,
}

/// Settings that apply to the files that match its patterns.
#[derive(Clone, Debug)]
pub struct Override {
    pub file_patterns: Vec<String>,
    pub plugins: Vec<String>,
    pub level: Option<String>,
}

#[derive(Clone, Debug)]
pub struct FileType {
    pub globs: Vec<String>,
    pub interpreters: Vec<String>,
}

#[derive(Clone, Debug)]
pub struct Coverage {
    pub paths: Vec<String>,
    pub ignores: Vec<String>,
}

/// The runtime versions that the project turns on.
#[derive(Clone, Debug)]
pub struct EnabledRuntimes {
    pub enabled: Vec<(Runtime, String)>,
}

#[derive(Clone, Debug)]
pub struct PluginsConfig {
    pub downloads: Vec<String>,
}

#[derive(Clone, Debug)]
pub struct Language {
    pub globs: Vec<String>,
    pub test_patterns: Vec<String>,
}

#[derive(Clone, Copy, Debug, PartialEq, Eq, Structural)]
pub enum SmellsMode {
    Disabled,
    Comment,
    Block,
}

#[derive(Clone, Debug)]
pub struct Smells {
    pub mode: SmellsMode,
    pub paths: Vec<String>,
}

/// A parsed project configuration. Named mappings are lists of
/// `(name, value)` pairs.
#[derive(Clone, Debug)]
pub struct QltyConfig {
    pub config_version: Option<String>,
    pub cli_version: Option<String>,
    pub project_id: Option<String>,
    pub ignore: Vec<Ignore>,
    pub overrides: Vec<Override>,
    pub file_types: Vec<(String, FileType)>,
    pub test_patterns: Vec<String>,
    pub coverage: Coverage,
    pub runtimes: EnabledRuntimes,
    pub plugins: PluginsConfig,
    pub sources: Vec<(String, SourceDef)>,
    pub language: Vec<(String, Language)>,
    pub exclude_patterns: Vec<String>,
    pub ignore_patterns: Vec<String>,
    pub plugin: Vec<EnabledPlugin>,
    pub smells: Option<Smells>,
    pub source: Vec<SourceDef>,
}

#[derive(Clone, Debug)]
pub enum ConfigError {
    InvalidVersion { text: String },
    IncompatibleVersion { declared: SemVer, running: SemVer },
    MissingDefaultSource,
    Source(SourceError),
    Plugin { name: String, cause: PluginError },
}

/// The plan for one host: the catalog, its default source, every enabled
/// plugin resolved in configuration order, and the policy data that execution
/// reads unchanged.
#[derive(Clone, Debug)]
pub struct ResolvedConfiguration {
    pub default_source: Source,
    pub sources: SourcesList,
    pub plugins: Vec<ResolvedPlugin>,
    pub exclude_patterns: Vec<String>,
    pub test_patterns: Vec<String>,
}

pub open spec fn default_name() -> Seq<char> {
    "default"@
}

pub open spec fn named_default(def: SourceDef) -> bool {
    def.name is Some && def.name->0@ == default_name()
}

pub open spec fn list_default_flags(defs: Seq<SourceDef>) -> Seq<bool> {
    defs.map_values(|d: SourceDef| named_default(d))
}

pub open spec fn map_default_flags(entries: Seq<(String, SourceDef)>) -> Seq<bool> {
    entries.map_values(|e: (String, SourceDef)| e.0@ == default_name())
}

pub open spec fn lift_source(r: Result<Source, SourceError>) -> Result<Source, ConfigError> {
    match r {
        Ok(s) => Ok(s),
        Err(e) => Err(ConfigError::Source(e)),
    }
}

/// The default source: the first entry of the list named "default"; failing
/// that, the mapping's entry under "default".
pub open spec fn default_source_of(config: QltyConfig, library: Library) -> Result<Source, ConfigError> {
    match first_true(list_default_flags(config.source@), config.source@.len()) {
        Some(i) => lift_source(source_of(config.source@[i], library)),
        None => match first_true(map_default_flags(config.sources@), config.sources@.len()) {
            Some(i) => lift_source(source_of(config.sources@[i].1, library)),
            None => Err(ConfigError::MissingDefaultSource),
        },
    }
}

/// Every declaration in catalog order: the list, then the mapping.
pub open spec fn all_source_defs(config: QltyConfig) -> Seq<SourceDef> {
    config.source@ + config.sources@.map_values(|e: (String, SourceDef)| e.1)
}

pub open spec fn bad_source_flags(defs: Seq<SourceDef>, library: Library) -> Seq<bool> {
    defs.map_values(|d: SourceDef| source_of(d, library) is Err)
}

/// The sources that the declarations resolve to, in catalog order.
pub open spec fn catalog_of(defs: Seq<SourceDef>, library: Library) -> Seq<Source> {
    defs.map_values(|d: SourceDef| source_of(d, library)->Ok_0)
}

/// The catalog, or the error of the first declaration that does not resolve.
pub open spec fn sources_list_outcome(config: QltyConfig, library: Library, r: Result<SourcesList, SourceError>) -> bool {
    let defs = all_source_defs(config);
    match first_true(bad_source_flags(defs, library), defs.len()) {
        Some(k) => r == Err::<SourcesList, SourceError>(source_of(defs[k], library)->Err_0),
        None => r matches Ok(list) && list.sources@ == catalog_of(defs, library),
    }
}

/// The outcome of checking a declared CLI version against the running one.
pub open spec fn validate_result(cli_version: Option<String>, running_version: String, debug_build: bool) -> Result<(), ConfigError> {
    match cli_version {
        None => Ok(()),
        Some(text) => match parsed_version(text@) {
            None => Err(ConfigError::InvalidVersion { text }),
            Some(declared) => match parsed_version(running_version@) {
                None => Err(ConfigError::InvalidVersion { text: running_version }),
                Some(running) => gate_result(Some(declared), running, debug_build),
            },
        },
    }
}

/// What a verdict leads to: a development build goes on regardless.
pub open spec fn gate_result(declared: Option<SemVer>, running: SemVer, debug_build: bool) -> Result<(), ConfigError> {
    match verdict_of(declared, running) {
        CompatibilityVerdict::Compatible => Ok(()),
        CompatibilityVerdict::Incompatible { declared, running } => if debug_build {
            Ok(())
        } else {
            Err(ConfigError::IncompatibleVersion { declared, running })
        },
    }
}

fn is_default(s: &String) -> (r: bool)
    ensures
        r == (s@ == default_name()),
{
    proof {
        broadcast use vstd::string::group_string_axioms;
    }
    let d = "default".to_string();
    *s == d
}

/// Applies the compatibility policy to the parsed versions.
pub fn gate_versions(declared: Option<SemVer>, running: SemVer, debug_build: bool) -> (r: Result<(), ConfigError>)
    ensures
        r == gate_result(declared, running, debug_build),
{
    match check_versions(declared, running) {
        CompatibilityVerdict::Compatible => Ok(()),
        CompatibilityVerdict::Incompatible { declared, running } => {
            if debug_build {
                Ok(())
            } else {
                Err(ConfigError::IncompatibleVersion { declared, running })
            }
        },
    }
}

impl QltyConfig {
    /// Resolves the default source: the explicit list is searched first, and
    /// only when it has no entry named "default" is the mapping consulted.
    pub fn default_source(&self, library: &Library) -> (r: Result<Source, ConfigError>)
        ensures
            r == default_source_of(*self, *library),
    {
        let ghost list_flags = list_default_flags(self.source@);
        let mut i: usize = 0;
        while i < self.source.len()
            invariant
                i <= self.source@.len(),
                list_flags == list_default_flags(self.source@),
                first_true(list_flags, i as nat) is None,
            decreases self.source@.len() - i,
        {
            let found = match &self.source[i].name {
                Some(n) => is_default(n),
                None => false,
            };
            if found {
                proof {
                    lemma_first_true_stable(list_flags, (i + 1) as nat, self.source@.len());
                }
                return match self.source[i].source(library) {
                    Ok(s) => Ok(s),
                    Err(e) => Err(ConfigError::Source(e)),
                };
            }
            i = i + 1;
        }
        let ghost map_flags = map_default_flags(self.sources@);
        let mut j: usize = 0;
        while j < self.sources.len()
            invariant
                j <= self.sources@.len(),
                map_flags == map_default_flags(self.sources@),
                list_flags == list_default_flags(self.source@),
                first_true(list_flags, self.source@.len()) is None,
                first_true(map_flags, j as nat) is None,
            decreases self.sources@.len() - j,
        {
            if is_default(&self.sources[j].0) {
                proof {
                    assert(map_flags[j as int]);
                    lemma_first_true_stable(map_flags, (j + 1) as nat, self.sources@.len());
                }
                return match self.sources[j].1.source(library) {
                    Ok(s) => Ok(s),
                    Err(e) => Err(ConfigError::Source(e)),
                };
            }
            j = j + 1;
        }
        Err(ConfigError::MissingDefaultSource)
    }

    /// Resolves every declared source, the list before the mapping; the first
    /// declaration that fails to resolve fails the whole list.
    pub fn sources_list(&self, library: &Library) -> (r: Result<SourcesList, SourceError>)
        ensures
            sources_list_outcome(*self, *library, r),
    {
        let ghost defs = all_source_defs(*self);
        let ghost bad = bad_source_flags(defs, *library);
        let n1 = self.source.len();
        let mut sources: Vec<Source> = Vec::new();
        let mut i: usize = 0;
        while i < n1
            invariant
                n1 == self.source@.len(),
                i <= n1,
                defs == all_source_defs(*self),
                bad == bad_source_flags(defs, *library),
                first_true(bad, i as nat) is None,
                sources@ == catalog_of(defs, *library).subrange(0, i as int),
            decreases n1 - i,
        {
            assert(defs[i as int] == self.source@[i as int]);
            match self.source[i].source(library) {
                Ok(s) => sources.push(s),
                Err(e) => {
                    proof {
                        assert(bad[i as int]);
                        lemma_first_true_stable(bad, (i + 1) as nat, defs.len());
                    }
                    return Err(e);
                },
            }
            assert(sources@ =~= catalog_of(defs, *library).subrange(0, i + 1));
            i = i + 1;
        }
        let mut j: usize = 0;
        while j < self.sources.len()
            invariant
                n1 == self.source@.len(),
                j <= self.sources@.len(),
                defs == all_source_defs(*self),
                bad == bad_source_flags(defs, *library),
                first_true(bad, (n1 + j) as nat) is None,
                sources@ == catalog_of(defs, *library).subrange(0, n1 + j),
            decreases self.sources@.len() - j,
        {
            assert(defs[n1 + j] == self.sources@[j as int].1);
            match self.sources[j].1.source(library) {
                Ok(s) => sources.push(s),
                Err(e) => {
                    proof {
                        assert(bad[n1 + j]);
                        lemma_first_true_stable(bad, (n1 + j + 1) as nat, defs.len());
                    }
                    return Err(e);
                },
            }
            assert(sources@ =~= catalog_of(defs, *library).subrange(0, n1 + j + 1));
            j = j + 1;
        }
        assert(sources@ =~= catalog_of(defs, *library));
        Ok(SourcesList { sources })
    }

    /// Applies `f` to the settings of every language, keeping the names.
    pub fn language_map<T, F: Fn(&Language) -> T>(&self, f: F) -> (r: Vec<(String, T)>)
        requires
            forall|l: &Language| #[trigger] f.requires((l,)),
        ensures
            r@.len() == self.language@.len(),
            forall|k: int| 0 <= k < r@.len() ==> (#[trigger] r@[k]).0 == self.language@[k].0 && f.ensures((&self.language@[k].1,), r@[k].1),
    {
        let mut out: Vec<(String, T)> = Vec::new();
        let mut i: usize = 0;
        while i < self.language.len()
            invariant
                i <= self.language@.len(),
                forall|l: &Language| #[trigger] f.requires((l,)),
                out@.len() == i,
                forall|k: int| 0 <= k < i ==> (#[trigger] out@[k]).0 == self.language@[k].0 && f.ensures((&self.language@[k].1,), out@[k].1),
            decreases self.language@.len() - i,
        {
            let entry = &self.language[i];
            let value = f(&entry.1);
            out.push((entry.0.clone(), value));
            i = i + 1;
        }
        out
    }

    /// Checks the declared CLI version against the running one. A development
    /// build lets an incompatible pair through.
    pub fn validate_cli_version(&self, running_version: &String, debug_build: bool) -> (r: Result<(), ConfigError>)
        ensures
            r == validate_result(self.cli_version, *running_version, debug_build),
    {
        match &self.cli_version {
            None => Ok(()),
            Some(text) => {
                let expected = match parse_version(text.as_str()) {
                    Ok(v) => v,
                    Err(_) => return Err(ConfigError::InvalidVersion { text: text.clone() }),
                };
                let actual = match parse_version(running_version.as_str()) {
                    Ok(v) => v,
                    Err(_) => return Err(ConfigError::InvalidVersion { text: running_version.clone() }),
                };
                gate_versions(Some(expected), actual, debug_build)
            },
        }
    }
}

pub open spec fn plugin_fail_flags(
    plugins: Seq<EnabledPlugin>,
    sources: Seq<Source>,
    library: Library,
    os: OperatingSystem,
    cpu: Cpu,
) -> Seq<bool> {
    plugins.map_values(|e: EnabledPlugin| !resolves(e, sources, library, os, cpu))
}

/// Resolution of the enabled plugins over a built catalog: the first one that
/// fails fails the whole plan.
pub open spec fn plan_outcome(
    config: QltyConfig,
    sources: Seq<Source>,
    library: Library,
    os: OperatingSystem,
    cpu: Cpu,
    r: Result<ResolvedConfiguration, ConfigError>,
) -> bool {
    let enabled = config.plugin@;
    match default_source_of(config, library) {
        Err(e) => r == Err::<ResolvedConfiguration, ConfigError>(e),
        Ok(d) => match first_true(plugin_fail_flags(enabled, sources, library, os, cpu), enabled.len()) {
            Some(k) => {
                &&& r matches Err(ConfigError::Plugin { name, cause })
                &&& name == enabled[k].name
                &&& resolve_outcome(enabled[k], sources, library, os, cpu, Err(cause))
            },
            None => {
                &&& r matches Ok(rc)
                &&& rc.default_source == d
                &&& rc.sources.sources@ == sources
                &&& rc.plugins@.len() == enabled.len()
                &&& forall|i: int| 0 <= i < enabled.len()
                    ==> resolve_outcome(enabled[i], sources, library, os, cpu, Ok(#[trigger] rc.plugins@[i]))
                &&& rc.exclude_patterns@ == config.exclude_patterns@
                &&& rc.test_patterns@ == config.test_patterns@
            },
        },
    }
}

/// What `compose` returns: the version check, then the catalog, then the default
/// source and the plugins, each step failing the whole pass.
pub open spec fn compose_outcome(
    config: QltyConfig,
    running_version: String,
    debug_build: bool,
    library: Library,
    os: OperatingSystem,
    cpu: Cpu,
    r: Result<ResolvedConfiguration, ConfigError>,
) -> bool {
    match validate_result(config.cli_version, running_version, debug_build) {
        Err(e) => r == Err::<ResolvedConfiguration, ConfigError>(e),
        Ok(_) => {
            let defs = all_source_defs(config);
            match first_true(bad_source_flags(defs, library), defs.len()) {
                Some(k) => r == Err::<ResolvedConfiguration, ConfigError>(ConfigError::Source(source_of(defs[k], library)->Err_0)),
                None => plan_outcome(config, catalog_of(defs, library), library, os, cpu, r),
            }
        },
    }
}

/// Turns a configuration into the plan for one host, or the first error.
pub fn compose(
    config: &QltyConfig,
    running_version: &String,
    debug_build: bool,
    library: &Library,
    os: OperatingSystem,
    cpu: Cpu,
) -> (r: Result<ResolvedConfiguration, ConfigError>)
    ensures
        compose_outcome(*config, *running_version, debug_build, *library, os, cpu, r),
{
    match config.validate_cli_version(running_version, debug_build) {
        Ok(()) => {},
        Err(e) => return Err(e),
    }
    let sources = match config.sources_list(library) {
        Ok(list) => list,
        Err(e) => return Err(ConfigError::Source(e)),
    };
    let default_source = match config.default_source(library) {
        Ok(s) => s,
        Err(e) => return Err(e),
    };
    let ghost fails = plugin_fail_flags(config.plugin@, sources.sources@, *library, os, cpu);
    let mut plugins: Vec<ResolvedPlugin> = Vec::new();
    let mut i: usize = 0;
    while i < config.plugin.len()
        invariant
            i <= config.plugin@.len(),
            validate_result(config.cli_version, *running_version, debug_build) is Ok,
            first_true(bad_source_flags(all_source_defs(*config), *library), all_source_defs(*config).len()) is None,
            sources.sources@ == catalog_of(all_source_defs(*config), *library),
            default_source_of(*config, *library) == Ok::<Source, ConfigError>(default_source),
            fails == plugin_fail_flags(config.plugin@, sources.sources@, *library, os, cpu),
            first_true(fails, i as nat) is None,
            plugins@.len() == i,
            forall|k: int| 0 <= k < i
                ==> resolve_outcome(config.plugin@[k], sources.sources@, *library, os, cpu, Ok(#[trigger] plugins@[k])),
        decreases config.plugin@.len() - i,
    {
        match resolve_plugin(&config.plugin[i], &sources, library, os, cpu) {
            Ok(rp) => plugins.push(rp),
            Err(cause) => {
                proof {
                    assert(fails[i as int]);
                    lemma_first_true_stable(fails, (i + 1) as nat, config.plugin@.len());
                }
                return Err(ConfigError::Plugin { name: config.plugin[i].name.clone(), cause });
            },
        }
        i = i + 1;
    }
    let exclude_patterns = config.exclude_patterns.clone();
    let test_patterns = config.test_patterns.clone();
    assert(exclude_patterns@ =~= config.exclude_patterns@);
    assert(test_patterns@ =~= config.test_patterns@);
    Ok(ResolvedConfiguration { default_source, sources, plugins, exclude_patterns, test_patterns })
}

/// Whenever the explicit list has an entry named "default", the default source
/// is resolved from the first such entry, whatever the mapping holds.
pub proof fn lemma_default_precedence(config: QltyConfig, library: Library, i: int)
    requires
        0 <= i < config.source@.len(),
        named_default(config.source@[i]),
    ensures
        first_true(list_default_flags(config.source@), config.source@.len()) matches Some(k) && {
            &&& 0 <= k <= i
            &&& named_default(config.source@[k])
            &&& default_source_of(config, library) == lift_source(source_of(config.source@[k], library))
        },
{
    let flags = list_default_flags(config.source@);
    assert(flags[i]);
    lemma_first_true_found(flags, config.source@.len());
}

/// If any enabled plugin fails to resolve against the catalog, `compose`
/// produces no plan.
pub proof fn lemma_compose_all_or_nothing(
    config: QltyConfig,
    running_version: String,
    debug_build: bool,
    library: Library,
    os: OperatingSystem,
    cpu: Cpu,
    r: Result<ResolvedConfiguration, ConfigError>,
    k: int,
)
    requires
        compose_outcome(config, running_version, debug_build, library, os, cpu, r),
        0 <= k < config.plugin@.len(),
        !resolves(config.plugin@[k], catalog_of(all_source_defs(config), library), library, os, cpu),
    ensures
        r is Err,
{
    let fails = plugin_fail_flags(config.plugin@, catalog_of(all_source_defs(config), library), library, os, cpu);
    assert(fails[k]);
    lemma_first_true_found(fails, config.plugin@.len());
}

pub open spec fn same_resolved(a: ResolvedPlugin, b: ResolvedPlugin) -> bool {
    &&& a.name == b.name
    &&& a.source == b.source
    &&& a.plugin == b.plugin
    &&& a.download == b.download
    &&& a.extra_packages@ == b.extra_packages@
}

/// Two plans are equal field by field.
pub open spec fn same_plan(a: ResolvedConfiguration, b: ResolvedConfiguration) -> bool {
    &&& a.default_source == b.default_source
    &&& a.sources.sources@ == b.sources.sources@
    &&& a.plugins@.len() == b.plugins@.len()
    &&& forall|i: int| 0 <= i < a.plugins@.len() ==> same_resolved(#[trigger] a.plugins@[i], b.plugins@[i])
    &&& a.exclude_patterns@ == b.exclude_patterns@
    &&& a.test_patterns@ == b.test_patterns@
}

/// A plugin resolves to one value at most.
pub proof fn lemma_resolve_deterministic(
    enabled: EnabledPlugin,
    sources: Seq<Source>,
    library: Library,
    os: OperatingSystem,
    cpu: Cpu,
    a: ResolvedPlugin,
    b: ResolvedPlugin,
)
    requires
        resolve_outcome(enabled, sources, library, os, cpu, Ok(a)),
        resolve_outcome(enabled, sources, library, os, cpu, Ok(b)),
    ensures
        same_resolved(a, b),
{
    if let Some((s, p)) = crate::source::find_plugin_of(sources, library, enabled.name@) {
        let def = crate::source::plugins_of(sources[s], library)[p];
        lemma_selected_unique(def.downloads@, a.download as int, b.download as int, os, cpu);
    }
}

/// Composing twice from the same inputs gives the same outcome: both fail, or
/// both succeed with equal plans.
pub proof fn lemma_compose_idempotent(
    config: QltyConfig,
    running_version: String,
    debug_build: bool,
    library: Library,
    os: OperatingSystem,
    cpu: Cpu,
    r1: Result<ResolvedConfiguration, ConfigError>,
    r2: Result<ResolvedConfiguration, ConfigError>,
)
    requires
        compose_outcome(config, running_version, debug_build, library, os, cpu, r1),
        compose_outcome(config, running_version, debug_build, library, os, cpu, r2),
    ensures
        r1 is Ok <==> r2 is Ok,
        r1 matches Ok(a) ==> r2 matches Ok(b) && same_plan(a, b),
{
    if r1 is Ok && r2 is Ok {
        let a = r1->Ok_0;
        let b = r2->Ok_0;
        let sources = catalog_of(all_source_defs(config), library);
        assert forall|i: int| 0 <= i < a.plugins@.len() implies same_resolved(#[trigger] a.plugins@[i], b.plugins@[i]) by {
            lemma_resolve_deterministic(config.plugin@[i], sources, library, os, cpu, a.plugins@[i], b.plugins@[i]);
        }
    }
}

} // verus!
