//! The run itself: building one source per component group, folding
//! dependency configuration across the finished set, narrowing it under
//! an explicit crate filter, and validating the requested target
//! languages against the artifact.

use vstd::prelude::*;
use crate::artifact::{calc_cdylib_name, spec_calc_cdylib_name};
use crate::config::{spec_merge_defaults, spec_set_if_absent, ConfigurationObject};
use crate::interface::{InterfaceModel, SpecInterfaceModel};
use crate::materialize::{materialize_interface, spec_materialize};
use crate::model::{
    contains_string, result_view, ComponentGroup, Error, PackageRecord, SpecComponentGroup,
    SpecErrorValue, SpecPackageRecord, SpecUdlParseOutcome, TargetLanguage, UdlParseOutcome,
};
use crate::resolve::{find_package_by_crate_name, spec_find_package};

verus! {

/// The value of a `Source`.
pub struct SpecSource {
    pub package: SpecPackageRecord,
    pub crate_name: Seq<char>,
    pub ci: SpecInterfaceModel,
    pub config: Seq<(Seq<char>, Seq<char>)>,
}

/// A single source that bindings are generated for: one logical
/// component, attributed to its package, with its unified interface
/// model and its finished configuration.
#[derive(Debug)]
pub struct Source {
    pub package: PackageRecord,
    pub crate_name: String,
    pub ci: InterfaceModel,
    pub config: ConfigurationObject,
}

impl View for Source {
    type V = SpecSource;

    open spec fn view(&self) -> SpecSource {
        SpecSource {
            package: self.package.deep_view(),
            crate_name: self.crate_name@,
            ci: self.ci@,
            config: self.config@,
        }
    }
}

impl DeepView for Source {
    type V = SpecSource;

    open spec fn deep_view(&self) -> SpecSource {
        self.view()
    }
}

impl Source {
    /// A copy of the source, value for value.
    pub fn clone_source(&self) -> (r: Source)
        ensures
            r@ == self@,
    {
        Source {
            package: self.package.clone_record(),
            crate_name: self.crate_name.clone(),
            ci: self.ci.clone_model(),
            config: self.config.clone_config(),
        }
    }
}

/// The initial configuration loaded for a crate root, if the loader
/// found one: the store is a sequence of (root, configuration) pairs,
/// scanned from the front.
pub open spec fn spec_lookup_config(
    configs: Seq<(Seq<char>, Seq<(Seq<char>, Seq<char>)>)>,
    root: Seq<char>,
) -> Option<Seq<(Seq<char>, Seq<char>)>>
    decreases configs.len(),
{
    if configs.len() == 0 {
        None
    } else if configs[0].0 == root {
        Some(configs[0].1)
    } else {
        spec_lookup_config(configs.drop_first(), root)
    }
}

/// A root absent from the front scan stays what it is one entry further in.
proof fn lemma_lookup_config_step(
    configs: Seq<(Seq<char>, Seq<(Seq<char>, Seq<char>)>)>,
    i: int,
    root: Seq<char>,
)
    requires
        0 <= i < configs.len(),
        forall|j: int| 0 <= j < i ==> configs[j].0 != root,
    ensures
        spec_lookup_config(configs, root) == spec_lookup_config(
            configs.subrange(i, configs.len() as int),
            root,
        ),
    decreases i,
{
    if i > 0 {
        assert(configs.drop_first() =~= configs.subrange(1, configs.len() as int));
        lemma_lookup_config_step(configs.drop_first(), i - 1, root);
        assert(configs.drop_first().subrange(i - 1, configs.drop_first().len() as int)
            =~= configs.subrange(i, configs.len() as int));
    } else {
        assert(configs.subrange(0, configs.len() as int) =~= configs);
    }
}

/// The initial configuration loaded for a crate root, or an empty one.
fn lookup_config(configs: &Vec<(String, ConfigurationObject)>, root: &String) -> (r: Option<
    ConfigurationObject,
>)
    ensures
        r matches Some(c) ==> spec_lookup_config(configs.deep_view(), root@) == Some(c@),
        r is None ==> spec_lookup_config(configs.deep_view(), root@) is None,
{
    let n: usize = configs.len();
    let mut i: usize = 0;
    while i < n
        invariant
            0 <= i <= n,
            n == configs.len(),
            configs.deep_view().len() == n,
            forall|j: int| 0 <= j < i ==> configs.deep_view()[j].0 != root@,
        decreases n - i,
    {
        proof {
            let ghost e = configs@[i as int];
            assert(configs.deep_view()[i as int] == (e.0@, e.1.deep_view()));
        }
        if configs[i].0.eq(root) {
            proof {
                lemma_lookup_config_step(configs.deep_view(), i as int, root@);
                let ghost cview = configs.deep_view();
                assert(cview.subrange(i as int, n as int)[0] == cview[i as int]);
            }
            return Some(configs[i].1.clone_config());
        }
        i = i + 1;
    }
    proof {
        lemma_lookup_config_none(configs.deep_view(), root@);
    }
    None
}

/// A root is unanswered exactly when no entry carries it.
proof fn lemma_lookup_config_none(
    configs: Seq<(Seq<char>, Seq<(Seq<char>, Seq<char>)>)>,
    root: Seq<char>,
)
    ensures
        (spec_lookup_config(configs, root) is None) <==> (forall|j: int|
            0 <= j < configs.len() ==> configs[j].0 != root),
    decreases configs.len(),
{
    if configs.len() > 0 {
        let rest = configs.drop_first();
        lemma_lookup_config_none(rest, root);
        if spec_lookup_config(configs, root) is None {
            assert forall|j: int| 0 <= j < configs.len() implies configs[j].0 != root by {
                if j > 0 {
                    assert(configs[j] == rest[j - 1]);
                }
            }
        } else {
            if configs[0].0 != root {
                let j = choose|j: int| 0 <= j < rest.len() && rest[j].0 == root;
                assert(configs[j + 1].0 == root);
            }
        }
    }
}

/// One finished source for one component group: the group's crate
/// identity attributed to exactly one package, the interface model
/// materialized from both metadata origins, and the configuration
/// assembled from the loader's values for the crate root, the artifact
/// name, and the model's namespace — the loaded values taking
/// precedence, the derived ones filling gaps.
pub open spec fn spec_build_source(
    group: SpecComponentGroup,
    packages: Seq<SpecPackageRecord>,
    files: Seq<(Seq<char>, SpecUdlParseOutcome)>,
    initial_configs: Seq<(Seq<char>, Seq<(Seq<char>, Seq<char>)>)>,
    cdylib_name: Option<Seq<char>>,
) -> Result<SpecSource, SpecErrorValue> {
    match spec_find_package(packages, group.crate_name) {
        Ok(package) => match spec_materialize(group, package.root, files) {
            Ok(ci) => {
                let loaded = match spec_lookup_config(initial_configs, package.root) {
                    Some(c) => c,
                    None => Seq::<(Seq<char>, Seq<char>)>::empty(),
                };
                let with_cdylib = match cdylib_name {
                    Some(name) => spec_set_if_absent(loaded, "cdylib_name"@, name),
                    None => loaded,
                };
                let config = spec_set_if_absent(with_cdylib, "module_name"@, ci.namespace);
                Ok(SpecSource { package, crate_name: group.crate_name, ci, config })
            },
            Err(e) => Err(e),
        },
        Err(e) => Err(e),
    }
}

/// Build one source for one component group.
fn build_source(
    group: &ComponentGroup,
    packages: &Vec<PackageRecord>,
    files: &Vec<(String, UdlParseOutcome)>,
    initial_configs: &Vec<(String, ConfigurationObject)>,
    cdylib_name: &Option<String>,
) -> (r: Result<Source, Error>)
    ensures
        result_view(r) == spec_build_source(
            group.deep_view(),
            packages.deep_view(),
            files.deep_view(),
            initial_configs.deep_view(),
            cdylib_name.deep_view(),
        ),
{
    let package = match find_package_by_crate_name(packages, &group.crate_name) {
        Ok(p) => p,
        Err(e) => {
            return Err(e);
        },
    };
    let ci = match materialize_interface(group, &package.root, files) {
        Ok(m) => m,
        Err(e) => {
            return Err(e);
        },
    };
    let mut config = match lookup_config(initial_configs, &package.root) {
        Some(c) => c,
        None => ConfigurationObject::new(),
    };
    match cdylib_name {
        Some(name) => {
            config.set_if_absent("cdylib_name".to_owned(), name.clone());
        },
        None => {},
    }
    config.set_if_absent("module_name".to_owned(), ci.namespace.clone());
    Ok(Source { package, crate_name: group.crate_name.clone(), ci, config })
}

/// One source per component group, in group order, stopping at the
/// first failure.
pub open spec fn spec_find_sources(
    groups: Seq<SpecComponentGroup>,
    packages: Seq<SpecPackageRecord>,
    files: Seq<(Seq<char>, SpecUdlParseOutcome)>,
    initial_configs: Seq<(Seq<char>, Seq<(Seq<char>, Seq<char>)>)>,
    cdylib_name: Option<Seq<char>>,
) -> Result<Seq<SpecSource>, SpecErrorValue>
    decreases groups.len(),
{
    if groups.len() == 0 {
        Ok(Seq::<SpecSource>::empty())
    } else {
        match spec_build_source(groups[0], packages, files, initial_configs, cdylib_name) {
            Ok(s) => match spec_find_sources(
                groups.drop_first(),
                packages,
                files,
                initial_configs,
                cdylib_name,
            ) {
                Ok(rest) => Ok(seq![s] + rest),
                Err(e) => Err(e),
            },
            Err(e) => Err(e),
        }
    }
}

/// Build one source per component group: attribute each group's crate
/// identity to a package, materialize its interface model, and load its
/// initial configuration. Any failure aborts the whole run.
pub fn find_sources(
    packages: &Vec<PackageRecord>,
    groups: &Vec<ComponentGroup>,
    files: &Vec<(String, UdlParseOutcome)>,
    initial_configs: &Vec<(String, ConfigurationObject)>,
    cdylib_name: &Option<String>,
) -> (r: Result<Vec<Source>, Error>)
    ensures
        result_view(r) == spec_find_sources(
            groups.deep_view(),
            packages.deep_view(),
            files.deep_view(),
            initial_configs.deep_view(),
            cdylib_name.deep_view(),
        ),
{
    let ghost gs = groups.deep_view();
    let ghost pv = packages.deep_view();
    let ghost fv = files.deep_view();
    let ghost icv = initial_configs.deep_view();
    let ghost cv = cdylib_name.deep_view();
    let n: usize = groups.len();
    let mut acc: Vec<Source> = Vec::new();
    let mut i: usize = 0;
    proof {
        assert(gs.subrange(0, n as int) =~= gs);
        assert(acc.deep_view() =~= Seq::<SpecSource>::empty());
    }
    while i < n
        invariant
            0 <= i <= n,
            n == groups.len(),
            gs == groups.deep_view(),
            pv == packages.deep_view(),
            fv == files.deep_view(),
            icv == initial_configs.deep_view(),
            cv == cdylib_name.deep_view(),
            gs.len() == n,
            spec_find_sources(gs, pv, fv, icv, cv) == match spec_find_sources(
                gs.subrange(i as int, n as int),
                pv,
                fv,
                icv,
                cv,
            ) {
                Ok(rest) => Ok(acc.deep_view() + rest),
                Err(e) => Err(e),
            },
        decreases n - i,
    {
        proof {
            let sub_i = gs.subrange(i as int, n as int);
            assert(sub_i[0] == gs[i as int]);
            assert(gs[i as int] == groups@[i as int].deep_view());
            assert(sub_i.drop_first() =~= gs.subrange(i + 1, n as int));
        }
        match build_source(&groups[i], packages, files, initial_configs, cdylib_name) {
            Ok(s) => {
                let ghost sv = s.deep_view();
                let ghost pre = acc.deep_view();
                acc.push(s);
                proof {
                    assert(acc.deep_view() =~= pre.push(sv));
                    match spec_find_sources(gs.subrange(i + 1, n as int), pv, fv, icv, cv) {
                        Ok(rest) => {
                            assert(pre + (seq![sv] + rest) =~= pre.push(sv) + rest);
                        },
                        Err(_) => {},
                    }
                }
            },
            Err(e) => {
                return Err(e);
            },
        }
        i = i + 1;
    }
    proof {
        assert(gs.subrange(n as int, n as int) =~= Seq::<SpecComponentGroup>::empty());
        assert(acc.deep_view() + Seq::<SpecSource>::empty() =~= acc.deep_view());
    }
    Ok(acc)
}

/// The configuration of the source at `skip` after the inheritance
/// pass has looked at every other source from index `j` on: each other
/// source whose package name stands among `dep_names` contributes its
/// pre-pass configuration as defaults, in index order.
pub open spec fn spec_inherit_from(
    config: Seq<(Seq<char>, Seq<char>)>,
    sources: Seq<SpecSource>,
    dep_names: Seq<Seq<char>>,
    skip: int,
    j: int,
) -> Seq<(Seq<char>, Seq<char>)>
    decreases sources.len() - j,
{
    if j < 0 || j >= sources.len() {
        config
    } else {
        let next = if j != skip && dep_names.contains(sources[j].package.name) {
            spec_merge_defaults(config, sources[j].config)
        } else {
            config
        };
        spec_inherit_from(next, sources, dep_names, skip, j + 1)
    }
}

/// The whole set after the inheritance pass: every source keeps its
/// package, identity and interface model, and its configuration gains,
/// as defaults, the pre-pass configuration of each other source that
/// its package directly depends on. All inherited values are taken
/// from the configurations as they stood before the pass, so no value
/// propagates across more than one dependency edge in one run.
pub open spec fn spec_inherit_all(sources: Seq<SpecSource>) -> Seq<SpecSource> {
    Seq::new(
        sources.len(),
        |i: int|
            SpecSource {
                package: sources[i].package,
                crate_name: sources[i].crate_name,
                ci: sources[i].ci,
                config: spec_inherit_from(
                    sources[i].config,
                    sources,
                    sources[i].package.dependencies,
                    i,
                    0,
                ),
            },
    )
}

/// Fold dependency configuration across the finished set of sources:
/// for each source, the configurations of its direct dependencies fill
/// the keys it did not set itself. Every inherited value is read from
/// the set as it stood before the pass.
pub fn apply_dependency_configs(sources: Vec<Source>) -> (r: Vec<Source>)
    ensures
        r.deep_view() == spec_inherit_all(sources.deep_view()),
{
    let ghost sv = sources.deep_view();
    let n: usize = sources.len();
    let mut out: Vec<Source> = Vec::new();
    let mut i: usize = 0;
    proof {
        assert(out.deep_view() =~= spec_inherit_all(sv).subrange(0, 0));
    }
    while i < n
        invariant
            0 <= i <= n,
            n == sources.len(),
            sv == sources.deep_view(),
            sv.len() == n,
            spec_inherit_all(sv).len() == n,
            out.deep_view() =~= spec_inherit_all(sv).subrange(0, i as int),
        decreases n - i,
    {
        proof {
            assert(sv[i as int] == sources@[i as int].deep_view());
        }
        let mut config = sources[i].config.clone_config();
        let ghost c0 = sv[i as int].config;
        let ghost deps = sv[i as int].package.dependencies;
        let mut j: usize = 0;
        while j < n
            invariant
                0 <= j <= n,
                0 <= i < n,
                n == sources.len(),
                sv == sources.deep_view(),
                sv.len() == n,
                c0 == sv[i as int].config,
                deps == sv[i as int].package.dependencies,
                spec_inherit_from(c0, sv, deps, i as int, 0) == spec_inherit_from(
                    config@,
                    sv,
                    deps,
                    i as int,
                    j as int,
                ),
            decreases n - j,
        {
            proof {
                assert(sv[j as int] == sources@[j as int].deep_view());
            }
            if j != i && contains_string(
                &sources[i].package.dependencies,
                &sources[j].package.name,
            ) {
                config.merge_defaults(&sources[j].config);
            }
            j = j + 1;
        }
        let finished = Source {
            package: sources[i].package.clone_record(),
            crate_name: sources[i].crate_name.clone(),
            ci: sources[i].ci.clone_model(),
            config,
        };
        let ghost pre = out.deep_view();
        let ghost fv2 = finished.deep_view();
        out.push(finished);
        proof {
            assert(out.deep_view() =~= pre.push(fv2));
            assert(fv2 == spec_inherit_all(sv)[i as int]);
            assert(out.deep_view() =~= spec_inherit_all(sv).subrange(0, i + 1));
        }
        i = i + 1;
    }
    proof {
        assert(spec_inherit_all(sv).subrange(0, n as int) =~= spec_inherit_all(sv));
    }
    out
}

/// How many sources carry the filtered crate identity.
pub open spec fn spec_filter_count(sources: Seq<SpecSource>, crate_name: Seq<char>) -> nat
    decreases sources.len(),
{
    if sources.len() == 0 {
        0
    } else {
        (if sources[0].crate_name == crate_name {
            1nat
        } else {
            0nat
        }) + spec_filter_count(sources.drop_first(), crate_name)
    }
}

/// The first source carrying the filtered crate identity, if any.
pub open spec fn spec_first_filtered(
    sources: Seq<SpecSource>,
    crate_name: Seq<char>,
) -> Option<SpecSource>
    decreases sources.len(),
{
    if sources.len() == 0 {
        None
    } else if sources[0].crate_name == crate_name {
        Some(sources[0])
    } else {
        spec_first_filtered(sources.drop_first(), crate_name)
    }
}

/// Appending one source extends the count and the first match in the
/// obvious way.
proof fn lemma_filter_extend(sources: Seq<SpecSource>, s: SpecSource, crate_name: Seq<char>)
    ensures
        spec_filter_count(sources.push(s), crate_name) == spec_filter_count(sources, crate_name)
            + (if s.crate_name == crate_name {
            1nat
        } else {
            0nat
        }),
        spec_first_filtered(sources.push(s), crate_name) == (if spec_first_filtered(
            sources,
            crate_name,
        ) is Some {
            spec_first_filtered(sources, crate_name)
        } else if s.crate_name == crate_name {
            Some(s)
        } else {
            None
        }),
    decreases sources.len(),
{
    if sources.len() == 0 {
        assert(sources.push(s).drop_first() =~= sources);
    } else {
        assert(sources.push(s).drop_first() =~= sources.drop_first().push(s));
        lemma_filter_extend(sources.drop_first(), s, crate_name);
    }
}

/// Narrowing the set under an optional crate filter: without a filter
/// the whole set stands; with one, exactly the one source of that crate
/// identity. No match and more than one match are the two selection
/// errors, the latter reporting how many sources clashed.
pub open spec fn spec_select(sources: Seq<SpecSource>, filter: Option<Seq<char>>) -> Result<
    Seq<SpecSource>,
    SpecErrorValue,
> {
    match filter {
        None => Ok(sources),
        Some(crate_name) => {
            let count = spec_filter_count(sources, crate_name);
            if count == 0 {
                Err(SpecErrorValue::CrateNotFound { crate_name })
            } else if count == 1 {
                match spec_first_filtered(sources, crate_name) {
                    Some(s) => Ok(seq![s]),
                    None => Err(SpecErrorValue::CrateNotFound { crate_name }),
                }
            } else {
                Err(SpecErrorValue::AmbiguousCrate { crate_name, count })
            }
        },
    }
}

/// Narrow the set of sources under an optional crate filter. With a
/// filter, exactly one source must carry that crate identity; more
/// than one cannot occur when the groups of the run had distinct
/// identities, but is defended against, since this narrowing doubles
/// as an integrity check.
pub fn select_sources(sources: Vec<Source>, crate_filter: &Option<String>) -> (r: Result<
    Vec<Source>,
    Error,
>)
    ensures
        result_view(r) == spec_select(sources.deep_view(), crate_filter.deep_view()),
{
    let filter = match crate_filter {
        None => {
            return Ok(sources);
        },
        Some(f) => f,
    };
    let ghost sv = sources.deep_view();
    let n: usize = sources.len();
    let mut count: usize = 0;
    let mut found: Option<usize> = None;
    let mut i: usize = 0;
    proof {
        assert(sv.subrange(0, 0) =~= Seq::<SpecSource>::empty());
    }
    while i < n
        invariant
            0 <= i <= n,
            n == sources.len(),
            sv == sources.deep_view(),
            sv.len() == n,
            count <= i,
            count == spec_filter_count(sv.subrange(0, i as int), filter@),
            match found {
                Some(k) => 0 <= k < i && spec_first_filtered(sv.subrange(0, i as int), filter@)
                    == Some(sv[k as int]) && count > 0,
                None => spec_first_filtered(sv.subrange(0, i as int), filter@) is None && count
                    == 0,
            },
        decreases n - i,
    {
        proof {
            assert(sv.subrange(0, i + 1) =~= sv.subrange(0, i as int).push(sv[i as int]));
            lemma_filter_extend(sv.subrange(0, i as int), sv[i as int], filter@);
            assert(sv[i as int] == sources@[i as int].deep_view());
        }
        if sources[i].crate_name.eq(filter) {
            count = count + 1;
            if found.is_none() {
                found = Some(i);
            }
        }
        i = i + 1;
    }
    proof {
        assert(sv.subrange(0, n as int) =~= sv);
    }
    if count == 1 {
        match found {
            Some(k) => {
                let picked = sources[k].clone_source();
                let mut one: Vec<Source> = Vec::new();
                one.push(picked);
                proof {
                    assert(one.deep_view() =~= seq![sv[k as int]]);
                }
                Ok(one)
            },
            None => Err(Error::CrateNotFound { crate_name: filter.clone() }),
        }
    } else if count == 0 {
        Err(Error::CrateNotFound { crate_name: filter.clone() })
    } else {
        Err(Error::AmbiguousCrate { crate_name: filter.clone(), count })
    }
}

/// The first requested language that needs a C dynamic library, if any.
pub open spec fn spec_first_requiring(languages: Seq<TargetLanguage>) -> Option<TargetLanguage>
    decreases languages.len(),
{
    if languages.len() == 0 {
        None
    } else if languages[0].spec_requires_cdylib() {
        Some(languages[0])
    } else {
        spec_first_requiring(languages.drop_first())
    }
}

/// Validation of the request against the artifact: when the artifact
/// was not identified as a dynamic library and a source remains to
/// generate for, the first requested language that needs one fails the
/// run before anything is emitted.
pub open spec fn spec_validate(
    sources: Seq<SpecSource>,
    languages: Seq<TargetLanguage>,
    cdylib_name: Option<Seq<char>>,
    library_path: Seq<char>,
) -> Option<SpecErrorValue> {
    if cdylib_name is None && sources.len() > 0 {
        match spec_first_requiring(languages) {
            Some(language) => Some(
                SpecErrorValue::ValidationError { language, library_path },
            ),
            None => None,
        }
    } else {
        None
    }
}

/// Check every (source, language) pair, in order: the first pair whose
/// language needs a C dynamic library fails when the artifact is none.
fn validate_languages(
    sources: &Vec<Source>,
    languages: &Vec<TargetLanguage>,
    cdylib_name: &Option<String>,
    library_path: &String,
) -> (r: Option<Error>)
    ensures
        r.deep_view() == spec_validate(
            sources.deep_view(),
            languages.deep_view(),
            cdylib_name.deep_view(),
            library_path@,
        ),
{
    let ghost lv = languages.deep_view();
    if cdylib_name.is_some() || sources.len() == 0 {
        return None;
    }
    let n: usize = languages.len();
    let mut j: usize = 0;
    proof {
        assert(lv.subrange(0, n as int) =~= lv);
    }
    while j < n
        invariant
            0 <= j <= n,
            n == languages.len(),
            lv == languages.deep_view(),
            lv.len() == n,
            cdylib_name.deep_view() is None,
            sources.deep_view().len() > 0,
            spec_first_requiring(lv) == spec_first_requiring(lv.subrange(j as int, n as int)),
        decreases n - j,
    {
        proof {
            let sub_j = lv.subrange(j as int, n as int);
            assert(sub_j[0] == lv[j as int]);
            assert(lv[j as int] == languages@[j as int]);
            assert(sub_j.drop_first() =~= lv.subrange(j + 1, n as int));
        }
        if languages[j].requires_cdylib() {
            return Some(
                Error::ValidationError { language: languages[j], library_path: library_path.clone() },
            );
        }
        j = j + 1;
    }
    proof {
        assert(lv.subrange(n as int, n as int) =~= Seq::<TargetLanguage>::empty());
    }
    None
}

/// The whole pipeline as one value: identify the artifact, build one
/// source per component group, fold dependency configuration across
/// the set, narrow it under the optional crate filter, and validate
/// the requested languages. `Ok` carries the finalized sources; any
/// failure anywhere is the run's single error.
pub open spec fn spec_generate_bindings(
    library_path: Seq<char>,
    crate_filter: Option<Seq<char>>,
    languages: Seq<TargetLanguage>,
    packages: Seq<SpecPackageRecord>,
    groups: Seq<SpecComponentGroup>,
    files: Seq<(Seq<char>, SpecUdlParseOutcome)>,
    initial_configs: Seq<(Seq<char>, Seq<(Seq<char>, Seq<char>)>)>,
) -> Result<Seq<SpecSource>, SpecErrorValue> {
    let cdylib_name = spec_calc_cdylib_name(library_path);
    match spec_find_sources(groups, packages, files, initial_configs, cdylib_name) {
        Ok(built) => {
            let inherited = spec_inherit_all(built);
            match spec_select(inherited, crate_filter) {
                Ok(selected) => match spec_validate(
                    selected,
                    languages,
                    cdylib_name,
                    library_path,
                ) {
                    Some(e) => Err(e),
                    None => Ok(selected),
                },
                Err(e) => Err(e),
            }
        },
        Err(e) => Err(e),
    }
}

/// Generate foreign bindings for every component embedded in one
/// compiled library. The caller supplies what the external
/// collaborators answered: the build graph's packages, the grouped
/// metadata records extracted from the binary, the parser's answer for
/// each legacy interface file readable on disk, and the initial
/// configuration loaded for each crate root. Returns the finalized
/// sources, in component order.
pub fn generate_bindings(
    library_path: &String,
    crate_name: &Option<String>,
    target_languages: &Vec<TargetLanguage>,
    packages: &Vec<PackageRecord>,
    groups: &Vec<ComponentGroup>,
    udl_files: &Vec<(String, UdlParseOutcome)>,
    initial_configs: &Vec<(String, ConfigurationObject)>,
) -> (r: Result<Vec<Source>, Error>)
    ensures
        result_view(r) == spec_generate_bindings(
            library_path@,
            crate_name.deep_view(),
            target_languages.deep_view(),
            packages.deep_view(),
            groups.deep_view(),
            udl_files.deep_view(),
            initial_configs.deep_view(),
        ),
{
    let cdylib_name = calc_cdylib_name(library_path.as_str());
    let built = match find_sources(packages, groups, udl_files, initial_configs, &cdylib_name) {
        Ok(s) => s,
        Err(e) => {
            return Err(e);
        },
    };
    let inherited = apply_dependency_configs(built);
    let selected = match select_sources(inherited, crate_name) {
        Ok(s) => s,
        Err(e) => {
            return Err(e);
        },
    };
    match validate_languages(&selected, target_languages, &cdylib_name, library_path) {
        Some(e) => Err(e),
        None => Ok(selected),
    }
}

/// A key a source set itself survives the whole inheritance fold with
/// its own value: the dependencies' configurations only fill gaps.
proof fn lemma_inherit_from_keeps_key(
    config: Seq<(Seq<char>, Seq<char>)>,
    sources: Seq<SpecSource>,
    dep_names: Seq<Seq<char>>,
    skip: int,
    j: int,
    key: Seq<char>,
)
    requires
        crate::config::spec_config_has_key(config, key),
    ensures
        crate::config::spec_config_get(
            spec_inherit_from(config, sources, dep_names, skip, j),
            key,
        ) == crate::config::spec_config_get(config, key),
    decreases sources.len() - j,
{
    if 0 <= j < sources.len() {
        let next = if j != skip && dep_names.contains(sources[j].package.name) {
            spec_merge_defaults(config, sources[j].config)
        } else {
            config
        };
        crate::config::lemma_merge_defaults_fills_gaps(config, sources[j].config, key);
        lemma_inherit_from_keeps_key(next, sources, dep_names, skip, j + 1, key);
    }
}

/// After the inheritance pass, every source still answers each key it
/// set itself with its own value, whatever its dependencies set: a
/// source is authoritative for its own settings.
pub proof fn lemma_inherit_keeps_own_values(sources: Seq<SpecSource>, i: int, key: Seq<char>)
    requires
        0 <= i < sources.len(),
        crate::config::spec_config_has_key(sources[i].config, key),
    ensures
        crate::config::spec_config_get(spec_inherit_all(sources)[i].config, key)
            == crate::config::spec_config_get(sources[i].config, key),
{
    lemma_inherit_from_keeps_key(
        sources[i].config,
        sources,
        sources[i].package.dependencies,
        i,
        0,
        key,
    );
}

/// The inheritance pass over one dependency edge: with source `a`
/// declaring no dependencies and source `b`'s package depending on
/// `a`'s, the pass leaves `a`'s configuration untouched, and `b`'s
/// configuration answers a key `b` set itself with `b`'s own value and
/// a key `b` did not set with whatever `a` gives it.
pub proof fn lemma_pairwise_inheritance(a: SpecSource, b: SpecSource, key: Seq<char>)
    requires
        a.package.dependencies.len() == 0,
        b.package.dependencies.contains(a.package.name),
    ensures
        spec_inherit_all(seq![a, b])[0].config == a.config,
        crate::config::spec_config_has_key(b.config, key) ==> crate::config::spec_config_get(
            spec_inherit_all(seq![a, b])[1].config,
            key,
        ) == crate::config::spec_config_get(b.config, key),
        !crate::config::spec_config_has_key(b.config, key) ==> crate::config::spec_config_get(
            spec_inherit_all(seq![a, b])[1].config,
            key,
        ) == crate::config::spec_config_get(a.config, key),
{
    let pair = seq![a, b];
    assert(pair[0] == a);
    assert(pair[1] == b);
    assert(!a.package.dependencies.contains(b.package.name));
    assert(spec_inherit_from(a.config, pair, a.package.dependencies, 0, 2) == a.config);
    assert(spec_inherit_from(a.config, pair, a.package.dependencies, 0, 1) == a.config);
    assert(spec_inherit_from(a.config, pair, a.package.dependencies, 0, 0) == a.config);
    let merged = spec_merge_defaults(b.config, a.config);
    assert(spec_inherit_from(merged, pair, b.package.dependencies, 1, 2) == merged);
    assert(spec_inherit_from(merged, pair, b.package.dependencies, 1, 1) == merged);
    assert(spec_inherit_from(b.config, pair, b.package.dependencies, 1, 0) == merged);
    crate::config::lemma_merge_defaults_fills_gaps(b.config, a.config, key);
}

/// Building sources keeps the groups' order and identities: one source
/// per group, under the group's crate identity.
pub proof fn lemma_find_sources_names(
    groups: Seq<SpecComponentGroup>,
    packages: Seq<SpecPackageRecord>,
    files: Seq<(Seq<char>, SpecUdlParseOutcome)>,
    initial_configs: Seq<(Seq<char>, Seq<(Seq<char>, Seq<char>)>)>,
    cdylib_name: Option<Seq<char>>,
)
    ensures
        spec_find_sources(groups, packages, files, initial_configs, cdylib_name) matches Ok(built)
            ==> built.len() == groups.len() && (forall|i: int|
            0 <= i < groups.len() ==> built[i].crate_name == groups[i].crate_name),
    decreases groups.len(),
{
    if groups.len() > 0 {
        lemma_find_sources_names(groups.drop_first(), packages, files, initial_configs, cdylib_name);
        match spec_build_source(groups[0], packages, files, initial_configs, cdylib_name) {
            Ok(s) => {
                match spec_find_sources(
                    groups.drop_first(),
                    packages,
                    files,
                    initial_configs,
                    cdylib_name,
                ) {
                    Ok(rest) => {
                        let built = seq![s] + rest;
                        assert(built[0] == s);
                        assert forall|i: int|
                            0 <= i < groups.len() implies built[i].crate_name
                            == groups[i].crate_name by {
                            if i > 0 {
                                assert(built[i] == rest[i - 1]);
                                assert(groups[i] == groups.drop_first()[i - 1]);
                            }
                        }
                    },
                    Err(_) => {},
                }
            },
            Err(_) => {},
        }
    }
}

/// The crate identities of the sources one run returns are pairwise
/// distinct, provided the component groups it was given had pairwise
/// distinct identities — which the extractor's grouping guarantees.
pub proof fn lemma_source_identities_distinct(
    library_path: Seq<char>,
    crate_filter: Option<Seq<char>>,
    languages: Seq<TargetLanguage>,
    packages: Seq<SpecPackageRecord>,
    groups: Seq<SpecComponentGroup>,
    files: Seq<(Seq<char>, SpecUdlParseOutcome)>,
    initial_configs: Seq<(Seq<char>, Seq<(Seq<char>, Seq<char>)>)>,
    sources: Seq<SpecSource>,
)
    requires
        forall|i: int, j: int|
            0 <= i < j < groups.len() ==> groups[i].crate_name != groups[j].crate_name,
        spec_generate_bindings(
            library_path,
            crate_filter,
            languages,
            packages,
            groups,
            files,
            initial_configs,
        ) == Ok::<Seq<SpecSource>, SpecErrorValue>(sources),
    ensures
        forall|i: int, j: int|
            0 <= i < j < sources.len() ==> sources[i].crate_name != sources[j].crate_name,
{
    let cdylib_name = spec_calc_cdylib_name(library_path);
    lemma_find_sources_names(groups, packages, files, initial_configs, cdylib_name);
    match spec_find_sources(groups, packages, files, initial_configs, cdylib_name) {
        Ok(built) => {
            let inherited = spec_inherit_all(built);
            assert(forall|i: int|
                0 <= i < built.len() ==> inherited[i].crate_name == built[i].crate_name);
            match crate_filter {
                None => {
                    assert(sources == inherited);
                },
                Some(name) => {
                    assert(sources.len() <= 1);
                },
            }
        },
        Err(_) => {},
    }
}

/// A successful run without a crate filter returns one source per
/// component group, in group order, each under its group's crate
/// identity: no component is dropped, duplicated or renamed.
pub proof fn lemma_run_keeps_components(
    library_path: Seq<char>,
    languages: Seq<TargetLanguage>,
    packages: Seq<SpecPackageRecord>,
    groups: Seq<SpecComponentGroup>,
    files: Seq<(Seq<char>, SpecUdlParseOutcome)>,
    initial_configs: Seq<(Seq<char>, Seq<(Seq<char>, Seq<char>)>)>,
    sources: Seq<SpecSource>,
)
    requires
        spec_generate_bindings(
            library_path,
            None,
            languages,
            packages,
            groups,
            files,
            initial_configs,
        ) == Ok::<Seq<SpecSource>, SpecErrorValue>(sources),
    ensures
        sources.len() == groups.len(),
        forall|i: int| 0 <= i < groups.len() ==> sources[i].crate_name == groups[i].crate_name,
{
    let cdylib_name = spec_calc_cdylib_name(library_path);
    lemma_find_sources_names(groups, packages, files, initial_configs, cdylib_name);
    match spec_find_sources(groups, packages, files, initial_configs, cdylib_name) {
        Ok(built) => {
            let inherited = spec_inherit_all(built);
            assert(sources == inherited);
        },
        Err(_) => {},
    }
}

/// One dependency edge, run through the whole pipeline: in a
/// successful unfiltered run whose materialized sources are exactly
/// `built[0]` and `built[1]`, the second's package depending on the
/// first's and the first declaring no dependencies, both components
/// survive under their identities, the first's configuration stands
/// unchanged, and the second answers every key it set itself with its
/// own value and every key it left unset with whatever the first's
/// pre-pass configuration gives it.
pub proof fn lemma_two_component_run(
    library_path: Seq<char>,
    languages: Seq<TargetLanguage>,
    packages: Seq<SpecPackageRecord>,
    groups: Seq<SpecComponentGroup>,
    files: Seq<(Seq<char>, SpecUdlParseOutcome)>,
    initial_configs: Seq<(Seq<char>, Seq<(Seq<char>, Seq<char>)>)>,
    built: Seq<SpecSource>,
    sources: Seq<SpecSource>,
    key: Seq<char>,
)
    requires
        spec_generate_bindings(
            library_path,
            None,
            languages,
            packages,
            groups,
            files,
            initial_configs,
        ) == Ok::<Seq<SpecSource>, SpecErrorValue>(sources),
        spec_find_sources(
            groups,
            packages,
            files,
            initial_configs,
            spec_calc_cdylib_name(library_path),
        ) == Ok::<Seq<SpecSource>, SpecErrorValue>(built),
        built.len() == 2,
        built[0].package.dependencies.len() == 0,
        built[1].package.dependencies.contains(built[0].package.name),
    ensures
        sources.len() == 2,
        sources[0].crate_name == built[0].crate_name,
        sources[1].crate_name == built[1].crate_name,
        sources[0].config == built[0].config,
        crate::config::spec_config_has_key(built[1].config, key)
            ==> crate::config::spec_config_get(sources[1].config, key)
            == crate::config::spec_config_get(built[1].config, key),
        !crate::config::spec_config_has_key(built[1].config, key)
            ==> crate::config::spec_config_get(sources[1].config, key)
            == crate::config::spec_config_get(built[0].config, key),
{
    let inherited = spec_inherit_all(built);
    assert(sources == inherited);
    assert(built =~= seq![built[0], built[1]]);
    lemma_pairwise_inheritance(built[0], built[1], key);
}

/// Re-running the whole pipeline on an unchanged binary, build graph,
/// file store and configuration store returns identical sources —
/// identical interface models and configurations included — or the
/// identical error.
pub proof fn lemma_generate_bindings_idempotent(
    library_path: Seq<char>,
    crate_filter: Option<Seq<char>>,
    languages: Seq<TargetLanguage>,
    packages: Seq<SpecPackageRecord>,
    groups: Seq<SpecComponentGroup>,
    files: Seq<(Seq<char>, SpecUdlParseOutcome)>,
    initial_configs: Seq<(Seq<char>, Seq<(Seq<char>, Seq<char>)>)>,
    first: Result<Seq<SpecSource>, SpecErrorValue>,
    second: Result<Seq<SpecSource>, SpecErrorValue>,
)
    requires
        first == spec_generate_bindings(
            library_path,
            crate_filter,
            languages,
            packages,
            groups,
            files,
            initial_configs,
        ),
        second == spec_generate_bindings(
            library_path,
            crate_filter,
            languages,
            packages,
            groups,
            files,
            initial_configs,
        ),
    ensures
        first == second,
{
}

} // verus!
