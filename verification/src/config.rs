//! The global configuration (`config.yaml`): where projects are discovered,
//! where validations are cached, where audit events go; and how the paths it
//! holds are made absolute when it is loaded.

use vstd::prelude::*;

verus! {

/// Root configuration of Meriadoc.
#[derive(Debug)]
pub struct MeriadocConfig {
    /// Where projects can be discovered.
    pub discovery: DiscoveryConfig,
    /// Validation cache.
    pub cache: CacheConfig,
    /// Audit logging.
    pub audit: AuditConfig,
}

/// Where and how projects are discovered.
#[derive(Debug)]
pub struct DiscoveryConfig {
    /// Root directories searched for spec files.
    pub roots: Vec<DiscoveryRoot>,
    /// Maximum directory depth of the search.
    pub max_depth: usize,
    /// Whether discovered specs are validated at once.
    pub validate_on_discovery: bool,
    /// Names of the accepted spec files.
    pub spec_files: Vec<String>,
}

/// One root directory of the discovery.
#[derive(Debug)]
pub struct DiscoveryRoot {
    pub path: String,
    /// Optional human-friendly name.
    pub name: Option<String>,
    pub enabled: bool,
}

/// The validation cache.
#[derive(Debug)]
pub struct CacheConfig {
    pub enabled: bool,
    /// Directory of the cache; made absolute when the configuration is loaded.
    pub dir: String,
}

/// Audit logging.
#[derive(Debug)]
pub struct AuditConfig {
    /// Off by default, so that nothing changes for existing users.
    pub enabled: bool,
    /// Where audit events are written.
    pub sinks: Vec<AuditSinkConfig>,
}

/// One destination of audit events.
#[derive(Debug)]
pub enum AuditSinkConfig {
    /// Appends NDJSON records to a file; the path is made absolute on load.
    File { path: String },
    /// Writes NDJSON records to standard error.
    Stderr,
}

/// An [`AuditSinkConfig`] with its path taken as a character sequence.
pub enum AuditSinkTarget {
    File(Seq<char>),
    Stderr,
}

impl View for AuditSinkConfig {
    type V = AuditSinkTarget;

    open spec fn view(&self) -> AuditSinkTarget {
        match self {
            AuditSinkConfig::File { path } => AuditSinkTarget::File(path@),
            AuditSinkConfig::Stderr => AuditSinkTarget::Stderr,
        }
    }
}

/// The views of a list of sinks.
pub open spec fn sinks_view(v: Seq<AuditSinkConfig>) -> Seq<AuditSinkTarget> {
    v.map_values(|s: AuditSinkConfig| s@)
}

/// The views of a list of texts.
pub open spec fn texts_view(v: Seq<String>) -> Seq<Seq<char>> {
    v.map_values(|s: String| s@)
}

/// The spec file names accepted by default.
pub open spec fn default_spec_files() -> Seq<Seq<char>> {
    seq!["meriadoc.yaml"@, "meriadoc.yml"@, "merry.yaml"@, "merry.yml"@]
}

/// The discovery settings of a fresh configuration.
pub open spec fn is_default_discovery(d: DiscoveryConfig) -> bool {
    &&& d.roots@.len() == 0
    &&& d.max_depth == 3
    &&& d.validate_on_discovery
    &&& texts_view(d.spec_files@) == default_spec_files()
}

/// The cache settings of a fresh configuration: enabled, with the empty
/// directory that loading replaces by the absolute default.
pub open spec fn is_default_cache(c: CacheConfig) -> bool {
    c.enabled && c.dir@.len() == 0
}

/// The audit settings of a fresh configuration: disabled, with one file
/// sink whose empty path loading replaces by the absolute default.
pub open spec fn is_default_audit(a: AuditConfig) -> bool {
    &&& !a.enabled
    &&& sinks_view(a.sinks@) == seq![AuditSinkTarget::File(Seq::<char>::empty())]
}

impl Default for DiscoveryConfig {
    fn default() -> (d: DiscoveryConfig)
        ensures
            is_default_discovery(d),
    {
        let mut spec_files: Vec<String> = Vec::new();
        spec_files.push(String::from_str("meriadoc.yaml"));
        spec_files.push(String::from_str("meriadoc.yml"));
        spec_files.push(String::from_str("merry.yaml"));
        spec_files.push(String::from_str("merry.yml"));
        let d = DiscoveryConfig {
            roots: Vec::new(),
            max_depth: 3,
            validate_on_discovery: true,
            spec_files,
        };
        assert(texts_view(d.spec_files@) =~= default_spec_files());
        d
    }
}

impl Default for CacheConfig {
    fn default() -> (c: CacheConfig)
        ensures
            is_default_cache(c),
    {
        CacheConfig { enabled: true, dir: String::new() }
    }
}

impl Default for AuditConfig {
    fn default() -> (a: AuditConfig)
        ensures
            is_default_audit(a),
    {
        let mut sinks: Vec<AuditSinkConfig> = Vec::new();
        sinks.push(AuditSinkConfig::File { path: String::new() });
        let a = AuditConfig { enabled: false, sinks };
        assert(sinks_view(a.sinks@) =~= seq![AuditSinkTarget::File(Seq::<char>::empty())]);
        a
    }
}

impl Default for MeriadocConfig {
    fn default() -> (c: MeriadocConfig)
        ensures
            is_default_discovery(c.discovery),
            is_default_cache(c.cache),
            is_default_audit(c.audit),
    {
        MeriadocConfig {
            discovery: DiscoveryConfig::default(),
            cache: CacheConfig::default(),
            audit: AuditConfig::default(),
        }
    }
}

impl AuditConfig {
    /// The sinks a logger is built with: none while auditing is disabled,
    /// otherwise one per configured entry, in order.
    pub fn enabled_sinks(&self) -> (r: Vec<AuditSinkConfig>)
        ensures
            sinks_view(r@) == if self.enabled {
                sinks_view(self.sinks@)
            } else {
                Seq::<AuditSinkTarget>::empty()
            },
    {
        let mut r: Vec<AuditSinkConfig> = Vec::new();
        if !self.enabled {
            assert(sinks_view(r@) =~= Seq::<AuditSinkTarget>::empty());
            return r;
        }
        let mut i: usize = 0;
        while i < self.sinks.len()
            invariant
                i <= self.sinks@.len(),
                r@.len() == i,
                sinks_view(r@) == sinks_view(self.sinks@.take(i as int)),
            decreases self.sinks@.len() - i,
        {
            let copy = match &self.sinks[i] {
                AuditSinkConfig::File { path } => AuditSinkConfig::File { path: path.clone() },
                AuditSinkConfig::Stderr => AuditSinkConfig::Stderr,
            };
            assert(copy@ == self.sinks@[i as int]@);
            let ghost before = r@;
            r.push(copy);
            assert forall|j: int| 0 <= j < i implies sinks_view(r@)[j] == sinks_view(self.sinks@.take(i + 1))[j] by {
                assert(r@[j] == before[j]);
                assert(sinks_view(before)[j] == sinks_view(self.sinks@.take(i as int))[j]);
            }
            assert(sinks_view(r@) =~= sinks_view(self.sinks@.take(i + 1)));
            i = i + 1;
        }
        assert(self.sinks@.take(self.sinks@.len() as int) =~= self.sinks@);
        r
    }
}

/// Whether the path `p` is absolute, as `std::path::Path::is_absolute`
/// decides it on the platform the crate is built for.
pub uninterp spec fn is_absolute_path(p: Seq<char>) -> bool;

/// `base` joined with `part`, as `std::path::Path::join` builds it on the
/// platform the crate is built for.
pub uninterp spec fn joined_path(base: Seq<char>, part: Seq<char>) -> Seq<char>;

/// `p` is empty, or starts with neither `/` nor `\\` and holds no `:`: it
/// has no root and no prefix on any platform.
pub open spec fn is_plainly_relative(p: Seq<char>) -> bool {
    p.len() == 0 || (p[0] != '/' && p[0] != '\\' && !p.contains(':'))
}

/// `s` is a single path component: not empty, with no separator (`/`, `\\`)
/// and no `:`.
pub open spec fn is_plain_name(s: Seq<char>) -> bool {
    &&& s.len() > 0
    &&& forall|i: int| 0 <= i < s.len() ==> #[trigger] s[i] != '/' && s[i] != '\\' && s[i] != ':'
}

/// Calls `std::path::Path::is_absolute` on `p`. Its result is named
/// [`is_absolute_path`]. Beside the name stands the one fact the
/// documentation gives on every platform: an absolute path starts with the
/// root on Unix, and has a prefix (a drive such as `c:`, or a `\\\\`
/// form) and a root on Windows; so a path that is empty, or starts with
/// neither `/` nor `\\` and holds no `:`, is not absolute. What the name
/// holds on other paths is left unsaid.
#[verifier::external_body]
fn path_is_absolute(p: &str) -> (b: bool)
    ensures
        b == is_absolute_path(p@),
        is_plainly_relative(p@) ==> !b,
{
    std::path::Path::new(p).is_absolute()
}

/// Calls `std::path::Path::join` on `base` and `part` and takes the joined
/// path as text. Its result is named [`joined_path`]. Beside the name stands
/// what `PathBuf::push` documents: a relative `part` is appended after a
/// separator, so the base's prefix and root stay, and an absolute base
/// joined with a single relative component stays absolute. The rest of the
/// text is left unsaid.
#[verifier::external_body]
fn path_join(base: &str, part: &str) -> (r: String)
    ensures
        r@ == joined_path(base@, part@),
        is_absolute_path(base@) && is_plain_name(part@) ==> is_absolute_path(r@),
{
    std::path::Path::new(base).join(part).to_string_lossy().into_owned()
}

/// Calls `dirs::config_dir`: the user's configuration directory, taken as
/// text (a name that is not valid UTF-8 is taken lossily). The answer depends on the environment (`XDG_CONFIG_HOME`, `HOME`,
/// the user database), so no clause is stated of it.
#[verifier::external_body]
fn user_config_dir() -> (r: Option<String>) {
    match dirs::config_dir() {
        Some(p) => Some(p.to_string_lossy().into_owned()),
        None => None,
    }
}

/// Errors of the configuration loader's own logic.
#[derive(Debug, PartialEq, Eq, Structural)]
pub enum MeriadocError {
    /// The user's configuration directory could not be determined.
    ConfigDirUnavailable,
}

impl MeriadocError {
    /// The message of the error.
    pub fn message(&self) -> (m: String)
        ensures
            m@ == "Could not resolve config directory"@,
    {
        match self {
            MeriadocError::ConfigDirUnavailable => String::from_str("Could not resolve config directory"),
        }
    }
}

/// The file `leaf` of Meriadoc's directory inside the configuration
/// directory `dir`: `<dir>/meriadoc/<leaf>`.
pub open spec fn meriadoc_path(dir: Seq<char>, leaf: Seq<char>) -> Seq<char> {
    joined_path(joined_path(dir, "meriadoc"@), leaf)
}

/// `p` is the file `leaf` of Meriadoc's directory in some configuration
/// directory.
pub open spec fn is_meriadoc_path(p: Seq<char>, leaf: Seq<char>) -> bool {
    exists|dir: Seq<char>| p == #[trigger] meriadoc_path(dir, leaf)
}

/// `p` made absolute: kept when already absolute, else replaced by `default`.
pub open spec fn normalized_path(p: Seq<char>, default: Seq<char>) -> Seq<char> {
    if is_absolute_path(p) {
        p
    } else {
        default
    }
}

/// A sink with its file path made absolute.
pub open spec fn normalized_sink(s: AuditSinkTarget, audit_log: Seq<char>) -> AuditSinkTarget {
    match s {
        AuditSinkTarget::File(p) => AuditSinkTarget::File(normalized_path(p, audit_log)),
        AuditSinkTarget::Stderr => AuditSinkTarget::Stderr,
    }
}

/// Sinks with their file paths made absolute.
pub open spec fn normalized_sinks(v: Seq<AuditSinkTarget>, audit_log: Seq<char>) -> Seq<AuditSinkTarget> {
    v.map_values(|s: AuditSinkTarget| normalized_sink(s, audit_log))
}

/// `after` is `before` with its relative cache directory replaced by
/// `cache_base` and its relative audit file paths replaced by `audit_log`;
/// everything else is the same.
pub open spec fn config_normalized(
    before: MeriadocConfig,
    after: MeriadocConfig,
    cache_base: Seq<char>,
    audit_log: Seq<char>,
) -> bool {
    &&& after.discovery == before.discovery
    &&& after.cache.enabled == before.cache.enabled
    &&& after.cache.dir@ == normalized_path(before.cache.dir@, cache_base)
    &&& after.audit.enabled == before.audit.enabled
    &&& sinks_view(after.audit.sinks@) == normalized_sinks(sinks_view(before.audit.sinks@), audit_log)
}

/// The sink writes to a file whose path is plainly relative (see
/// [`is_plainly_relative`]).
pub open spec fn sink_plainly_relative(s: AuditSinkTarget) -> bool {
    s matches AuditSinkTarget::File(p) && is_plainly_relative(p)
}

/// The sink writes to a file whose path is relative.
pub open spec fn sink_needs_default(s: AuditSinkTarget) -> bool {
    s matches AuditSinkTarget::File(p) && !is_absolute_path(p)
}

/// The configuration's cache directory is relative.
pub open spec fn cache_needs_default(c: MeriadocConfig) -> bool {
    !is_absolute_path(c.cache.dir@)
}

/// Some file sink of the configuration has a relative path.
pub open spec fn audit_needs_default(c: MeriadocConfig) -> bool {
    exists|i: int| 0 <= i < c.audit.sinks@.len() && sink_needs_default((#[trigger] c.audit.sinks@[i])@)
}

/// `after` is `before` normalized with some default paths, each of the
/// expected form when a path needed it.
pub open spec fn normalized_with_default_paths(before: MeriadocConfig, after: MeriadocConfig) -> bool {
    exists|cache_base: Seq<char>, audit_log: Seq<char>|
        {
            &&& #[trigger] config_normalized(before, after, cache_base, audit_log)
            &&& cache_needs_default(before) ==> is_meriadoc_path(cache_base, "cache"@)
            &&& audit_needs_default(before) ==> is_meriadoc_path(audit_log, "audit.log"@)
        }
}

proof fn lemma_normalized_with_defaults(
    before: MeriadocConfig,
    after: MeriadocConfig,
    cache_base: Seq<char>,
    audit_log: Seq<char>,
)
    requires
        config_normalized(before, after, cache_base, audit_log),
        cache_needs_default(before) ==> is_meriadoc_path(cache_base, "cache"@),
        audit_needs_default(before) ==> is_meriadoc_path(audit_log, "audit.log"@),
    ensures
        normalized_with_default_paths(before, after),
{
}

/// After normalization with absolute defaults, no path of the configuration
/// is relative any more; and a path that was absolute is kept as it was
/// (as is every stderr sink).
pub proof fn lemma_normalized_paths_absolute(
    before: MeriadocConfig,
    after: MeriadocConfig,
    cache_base: Seq<char>,
    audit_log: Seq<char>,
)
    requires
        config_normalized(before, after, cache_base, audit_log),
        is_absolute_path(cache_base),
        is_absolute_path(audit_log),
    ensures
        !cache_needs_default(after),
        !audit_needs_default(after),
        is_absolute_path(before.cache.dir@) ==> after.cache.dir@ == before.cache.dir@,
        forall|i: int|
            0 <= i < before.audit.sinks@.len() && !sink_needs_default((#[trigger] before.audit.sinks@[i])@)
                ==> after.audit.sinks@[i]@ == before.audit.sinks@[i]@,
{
    let bv = sinks_view(before.audit.sinks@);
    let av = sinks_view(after.audit.sinks@);
    assert(av.len() == bv.len());
    assert forall|i: int| 0 <= i < after.audit.sinks@.len() implies !sink_needs_default(
        (#[trigger] after.audit.sinks@[i])@,
    ) by {
        assert(av[i] == normalized_sink(bv[i], audit_log));
    }
    assert forall|i: int|
        0 <= i < before.audit.sinks@.len() && !sink_needs_default((#[trigger] before.audit.sinks@[i])@)
            implies after.audit.sinks@[i]@ == before.audit.sinks@[i]@ by {
        assert(av[i] == normalized_sink(bv[i], audit_log));
    }
}

/// Normalizing a normalized configuration again, with the same absolute
/// defaults, changes nothing.
pub proof fn lemma_normalize_idempotent(
    first: MeriadocConfig,
    second: MeriadocConfig,
    third: MeriadocConfig,
    cache_base: Seq<char>,
    audit_log: Seq<char>,
)
    requires
        config_normalized(first, second, cache_base, audit_log),
        config_normalized(second, third, cache_base, audit_log),
        is_absolute_path(cache_base),
        is_absolute_path(audit_log),
    ensures
        third.discovery == second.discovery,
        third.cache.enabled == second.cache.enabled,
        third.cache.dir@ == second.cache.dir@,
        third.audit.enabled == second.audit.enabled,
        sinks_view(third.audit.sinks@) == sinks_view(second.audit.sinks@),
{
    let v1 = sinks_view(first.audit.sinks@);
    let v2 = sinks_view(second.audit.sinks@);
    let v3 = sinks_view(third.audit.sinks@);
    assert(v2.len() == v1.len() && v3.len() == v2.len());
    assert forall|i: int| 0 <= i < v3.len() implies v3[i] == v2[i] by {
        assert(v2[i] == normalized_sink(v1[i], audit_log));
        assert(v3[i] == normalized_sink(v2[i], audit_log));
    }
    assert(v3 =~= v2);
}

/// Loads, saves and completes the global configuration.
pub struct ConfigLoader;

impl ConfigLoader {
    /// The file `leaf` of Meriadoc's directory inside the configuration
    /// directory `config_dir`, as `dirs::config_dir` answered it:
    /// `<config_dir>/meriadoc/<leaf>`, or the error when it gave none.
    pub fn meriadoc_file_in(config_dir: Option<String>, leaf: &str) -> (r: Result<String, MeriadocError>)
        ensures
            match config_dir {
                Some(dir) => r matches Ok(p) && p@ == meriadoc_path(dir@, leaf@) && (is_absolute_path(
                    dir@,
                ) && is_plain_name(leaf@) ==> is_absolute_path(p@)),
                None => r matches Err(e) && e == MeriadocError::ConfigDirUnavailable,
            },
    {
        match config_dir {
            Some(dir) => {
                proof {
                    reveal_strlit("meriadoc");
                }
                let d = path_join(dir.as_str(), "meriadoc");
                Ok(path_join(d.as_str(), leaf))
            },
            None => Err(MeriadocError::ConfigDirUnavailable),
        }
    }

    /// The default audit log: `<config_dir>/meriadoc/audit.log`. Fails when
    /// the configuration directory cannot be determined.
    pub fn default_audit_log() -> (r: Result<String, MeriadocError>)
        ensures
            r matches Ok(p) ==> is_meriadoc_path(p@, "audit.log"@),
    {
        let dir = user_config_dir();
        let r = Self::meriadoc_file_in(dir, "audit.log");
        assert(r matches Ok(p) ==> p@ == meriadoc_path(dir->0@, "audit.log"@));
        r
    }

    /// The default absolute cache base directory:
    /// `<config_dir>/meriadoc/cache`. Fails when the configuration directory
    /// cannot be determined.
    pub fn default_cache_base() -> (r: Result<String, MeriadocError>)
        ensures
            r matches Ok(p) ==> is_meriadoc_path(p@, "cache"@),
    {
        let dir = user_config_dir();
        let r = Self::meriadoc_file_in(dir, "cache");
        assert(r matches Ok(p) ==> p@ == meriadoc_path(dir->0@, "cache"@));
        r
    }

    /// The path of the configuration file: `env_override` (the value of
    /// `MERIADOC_CONFIG`, when set) as it is, else
    /// `<config_dir>/meriadoc/config.yaml`.
    pub fn resolve_config_path(env_override: Option<String>) -> (r: Result<String, MeriadocError>)
        ensures
            env_override matches Some(p) ==> r matches Ok(q) && q@ == p@,
            env_override is None ==> (r matches Ok(q) ==> is_meriadoc_path(q@, "config.yaml"@)),
    {
        match env_override {
            Some(p) => Ok(p),
            None => {
                let dir = user_config_dir();
                let r = Self::meriadoc_file_in(dir, "config.yaml");
                assert(r matches Ok(q) ==> q@ == meriadoc_path(dir->0@, "config.yaml"@));
                r
            },
        }
    }

    /// `config` with every relative path replaced by its default: the cache
    /// directory by `cache_base`, each relative file sink path by
    /// `audit_log`. Absolute paths, and everything else, are kept. A path
    /// that is empty, or starts with neither `/` nor `\\` and holds no `:`
    /// (such as `.meriadoc/cache` or `~/.config/meriadoc/cache`), is always
    /// replaced.
    pub fn normalize_with(config: MeriadocConfig, cache_base: &str, audit_log: &str) -> (r: MeriadocConfig)
        ensures
            config_normalized(config, r, cache_base@, audit_log@),
            is_plainly_relative(config.cache.dir@) ==> r.cache.dir@ == cache_base@,
            forall|i: int|
                0 <= i < config.audit.sinks@.len() && sink_plainly_relative(config.audit.sinks@[i]@)
                    ==> #[trigger] sinks_view(r.audit.sinks@)[i] == AuditSinkTarget::File(audit_log@),
    {
        let MeriadocConfig { discovery, cache, audit } = config;
        let CacheConfig { enabled: cache_enabled, dir } = cache;
        let dir = if path_is_absolute(dir.as_str()) {
            dir
        } else {
            String::from_str(cache_base)
        };
        let AuditConfig { enabled: audit_enabled, sinks } = audit;
        let ghost old_sinks = sinks@;
        let mut sinks = sinks;
        let mut out: Vec<AuditSinkConfig> = Vec::new();
        while sinks.len() > 0
            invariant
                sinks@.len() <= old_sinks.len(),
                out@.len() == old_sinks.len() - sinks@.len(),
                sinks@ == old_sinks.subrange(old_sinks.len() - sinks@.len(), old_sinks.len() as int),
                sinks_view(out@) == normalized_sinks(
                    sinks_view(old_sinks.take(old_sinks.len() - sinks@.len())),
                    audit_log@,
                ),
                forall|j: int|
                    0 <= j < out@.len() && sink_plainly_relative(old_sinks[j]@)
                        ==> #[trigger] out@[j]@ == AuditSinkTarget::File(audit_log@),
            decreases sinks@.len(),
        {
            let ghost k = old_sinks.len() - sinks@.len();
            let sink = sinks.remove(0);
            assert(sink == old_sinks[k]);
            let ghost before_out = out@;
            let next = match sink {
                AuditSinkConfig::File { path } => {
                    if path_is_absolute(path.as_str()) {
                        AuditSinkConfig::File { path }
                    } else {
                        AuditSinkConfig::File { path: String::from_str(audit_log) }
                    }
                },
                AuditSinkConfig::Stderr => AuditSinkConfig::Stderr,
            };
            assert(next@ == normalized_sink(old_sinks[k]@, audit_log@));
            let ghost before = out@;
            out.push(next);
            assert forall|j: int| 0 <= j < k implies sinks_view(out@)[j] == normalized_sinks(
                sinks_view(old_sinks.take(k + 1)),
                audit_log@,
            )[j] by {
                assert(out@[j] == before[j]);
                assert(sinks_view(before)[j] == normalized_sinks(sinks_view(old_sinks.take(k)), audit_log@)[j]);
            }
            assert(sinks@ =~= old_sinks.subrange(old_sinks.len() - sinks@.len(), old_sinks.len() as int));
            assert forall|j: int|
                0 <= j < out@.len() && sink_plainly_relative(old_sinks[j]@)
                    implies #[trigger] out@[j]@ == AuditSinkTarget::File(audit_log@) by {
                if j < k {
                    assert(out@[j] == before_out[j]);
                }
            }
            assert(old_sinks.take(k + 1) =~= old_sinks.take(k).push(old_sinks[k]));
            assert(sinks_view(out@) =~= normalized_sinks(sinks_view(old_sinks.take(k + 1)), audit_log@));
        }
        assert(old_sinks.take(old_sinks.len() as int) =~= old_sinks);
        assert forall|i: int|
            0 <= i < old_sinks.len() && sink_plainly_relative(old_sinks[i]@)
                implies #[trigger] sinks_view(out@)[i] == AuditSinkTarget::File(audit_log@) by {
            assert(out@[i]@ == AuditSinkTarget::File(audit_log@));
        }
        MeriadocConfig {
            discovery,
            cache: CacheConfig { enabled: cache_enabled, dir },
            audit: AuditConfig { enabled: audit_enabled, sinks: out },
        }
    }

    /// Which defaults `config` needs: whether its cache directory is
    /// relative, and whether one of its file sinks has a relative path.
    fn needs_defaults(config: &MeriadocConfig) -> (r: (bool, bool))
        ensures
            r.0 == cache_needs_default(*config),
            r.1 == audit_needs_default(*config),
            is_plainly_relative(config.cache.dir@) ==> r.0,
            forall|j: int|
                0 <= j < config.audit.sinks@.len() && sink_plainly_relative(
                    #[trigger] config.audit.sinks@[j]@,
                ) ==> sink_needs_default(config.audit.sinks@[j]@),
    {
        let needs_cache = !path_is_absolute(config.cache.dir.as_str());
        let mut needs_audit = false;
        let mut i: usize = 0;
        while i < config.audit.sinks.len()
            invariant
                i <= config.audit.sinks@.len(),
                needs_audit <==> exists|j: int|
                    0 <= j < i && sink_needs_default((#[trigger] config.audit.sinks@[j])@),
                forall|j: int|
                    0 <= j < i && sink_plainly_relative(#[trigger] config.audit.sinks@[j]@)
                        ==> sink_needs_default(config.audit.sinks@[j]@),
            decreases config.audit.sinks@.len() - i,
        {
            match &config.audit.sinks[i] {
                AuditSinkConfig::File { path } => {
                    if !path_is_absolute(path.as_str()) {
                        needs_audit = true;
                    }
                },
                AuditSinkConfig::Stderr => {},
            }
            i = i + 1;
        }
        (needs_cache, needs_audit)
    }

    /// Completes a loaded configuration against the configuration directory
    /// `config_dir` (what `dirs::config_dir` answered): relative paths are
    /// replaced by `<config_dir>/meriadoc/cache` and
    /// `<config_dir>/meriadoc/audit.log`. Without a configuration directory
    /// it fails exactly when a path needs a default. When the configuration
    /// directory is absolute, every path of the result is absolute.
    pub fn normalize_in(config: MeriadocConfig, config_dir: Option<String>) -> (r: Result<
        MeriadocConfig,
        MeriadocError,
    >)
        ensures
            match config_dir {
                Some(dir) => r matches Ok(c) && {
                    &&& config_normalized(
                        config,
                        c,
                        meriadoc_path(dir@, "cache"@),
                        meriadoc_path(dir@, "audit.log"@),
                    )
                    &&& is_plainly_relative(config.cache.dir@) ==> c.cache.dir@ == meriadoc_path(
                        dir@,
                        "cache"@,
                    )
                    &&& forall|i: int|
                        0 <= i < config.audit.sinks@.len() && sink_plainly_relative(
                            config.audit.sinks@[i]@,
                        ) ==> #[trigger] sinks_view(c.audit.sinks@)[i] == AuditSinkTarget::File(
                            meriadoc_path(dir@, "audit.log"@),
                        )
                    &&& is_absolute_path(dir@) ==> !cache_needs_default(c) && !audit_needs_default(c)
                },
                None => {
                    &&& r is Err <==> cache_needs_default(config) || audit_needs_default(config)
                    &&& r matches Err(e) ==> e == MeriadocError::ConfigDirUnavailable
                    &&& r matches Ok(c) ==> config_normalized(
                        config,
                        c,
                        Seq::<char>::empty(),
                        Seq::<char>::empty(),
                    )
                },
            },
    {
        match config_dir {
            Some(dir) => {
                proof {
                    reveal_strlit("cache");
                    reveal_strlit("audit.log");
                }
                let cache_base = match Self::meriadoc_file_in(Some(dir.clone()), "cache") {
                    Ok(p) => p,
                    Err(e) => return Err(e),
                };
                let audit_log = match Self::meriadoc_file_in(Some(dir), "audit.log") {
                    Ok(p) => p,
                    Err(e) => return Err(e),
                };
                let ghost loaded = config;
                let normalized = Self::normalize_with(config, cache_base.as_str(), audit_log.as_str());
                proof {
                    if is_absolute_path(cache_base@) && is_absolute_path(audit_log@) {
                        lemma_normalized_paths_absolute(loaded, normalized, cache_base@, audit_log@);
                    }
                }
                Ok(normalized)
            },
            None => {
                let (needs_cache, needs_audit) = Self::needs_defaults(&config);
                if needs_cache || needs_audit {
                    Err(MeriadocError::ConfigDirUnavailable)
                } else {
                    let ghost loaded = config;
                    let normalized = Self::normalize_with(config, "", "");
                    proof {
                        reveal_strlit("");
                        assert(""@ =~= Seq::<char>::empty());
                    }
                    assert(config_normalized(loaded, normalized, Seq::<char>::empty(), Seq::<char>::empty()));
                    Ok(normalized)
                }
            },
        }
    }

    /// Completes a loaded configuration: a relative (or empty) cache
    /// directory becomes the default cache base, a relative (or empty) file
    /// sink path becomes the default audit log. The defaults are asked for
    /// only when a path needs them, and the call fails only when one is
    /// needed and the configuration directory cannot be determined.
    pub fn normalize(config: MeriadocConfig) -> (r: Result<MeriadocConfig, MeriadocError>)
        ensures
            r matches Ok(c) ==> normalized_with_default_paths(config, c),
            r matches Ok(c) ==> (is_plainly_relative(config.cache.dir@) ==> is_meriadoc_path(
                c.cache.dir@,
                "cache"@,
            )),
            r matches Ok(c) ==> forall|i: int|
                0 <= i < config.audit.sinks@.len() && sink_plainly_relative(config.audit.sinks@[i]@)
                    ==> (#[trigger] sinks_view(c.audit.sinks@)[i] matches AuditSinkTarget::File(p)
                    && is_meriadoc_path(p, "audit.log"@)),
            r is Err ==> cache_needs_default(config) || audit_needs_default(config),
    {
        let (needs_cache, needs_audit) = Self::needs_defaults(&config);
        assert(forall|i: int|
            0 <= i < config.audit.sinks@.len() && sink_plainly_relative(config.audit.sinks@[i]@)
                ==> audit_needs_default(config));
        let config_dir = if needs_cache || needs_audit {
            user_config_dir()
        } else {
            None
        };
        let ghost loaded = config;
        let ghost dir_answer = config_dir;
        let r = Self::normalize_in(config, config_dir);
        proof {
            if r is Ok {
                let c = r->Ok_0;
                match dir_answer {
                    Some(dir) => {
                        let cb = meriadoc_path(dir@, "cache"@);
                        let al = meriadoc_path(dir@, "audit.log"@);
                        lemma_normalized_with_defaults(loaded, c, cb, al);
                        assert(is_meriadoc_path(cb, "cache"@));
                        assert(is_meriadoc_path(al, "audit.log"@));
                    },
                    None => {
                        lemma_normalized_with_defaults(loaded, c, Seq::<char>::empty(), Seq::<char>::empty());
                    },
                }
            }
        }
        r
    }
}

} // verus!
