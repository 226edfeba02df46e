//! The install cycle's decision logic: selecting the source manifest,
//! aggregating concurrent per-target outcomes without failing fast,
//! detecting duplicate output binaries before any is placed, and the atomic
//! staging-to-live promotion protocol with rollback.
//!
//! Running provider tooling, spawning tasks and renaming directory trees
//! happen outside the library; each phase here takes the plain outcomes of
//! that work and decides the next step.

use vstd::prelude::*;
use crate::config::IsobinConfig;
use crate::providers::cargo::{need_install_cond, CargoInstallTarget, CargoManifest, DepModel};
use crate::providers::ProviderKind;
use crate::strops::{after_last, str_eq, strs_view, suffix_after_last};

verus! {

/// The cached snapshot of the desired manifest, in the workspace base
/// directory.
pub const ISOBIN_CONFIG_FILE_CACHE_NAME: &'static str = "isobin_cache.v1.json";

/// Which targets an install cycle covers.
#[derive(Debug, PartialEq)]
pub enum InstallMode {
    All,
    SpecificInstallTargetsOnly { specific_install_targets: Vec<String> },
}

/// The options of one install cycle.
#[derive(Debug, PartialEq)]
pub struct InstallServiceOption {
    force: bool,
    mode: InstallMode,
}

impl InstallServiceOption {
    pub closed spec fn spec_force(&self) -> bool {
        self.force
    }

    pub closed spec fn spec_mode(&self) -> InstallMode {
        self.mode
    }

    pub fn force(&self) -> (r: bool)
        ensures
            r == self.spec_force(),
    {
        self.force
    }

    pub fn mode(&self) -> (r: &InstallMode)
        ensures
            *r == self.spec_mode(),
    {
        &self.mode
    }
}

/// Builds an [`InstallServiceOption`]; the mode falls back to `All`.
#[derive(Debug, PartialEq)]
pub struct InstallServiceOptionBuilder {
    force: bool,
    mode: Option<InstallMode>,
}

impl Default for InstallServiceOptionBuilder {
    /// The neutral builder: not forced, no mode chosen yet.
    fn default() -> (r: Self)
        ensures
            r.spec_force() == false,
            r.spec_mode() is None,
    {
        InstallServiceOptionBuilder { force: false, mode: None }
    }
}

impl InstallServiceOptionBuilder {
    pub closed spec fn spec_force(&self) -> bool {
        self.force
    }

    pub closed spec fn spec_mode(&self) -> Option<InstallMode> {
        self.mode
    }

    pub fn new() -> (r: Self)
        ensures
            r.spec_force() == false,
            r.spec_mode() is None,
    {
        InstallServiceOptionBuilder { force: false, mode: None }
    }

    pub fn mode(self, mode: InstallMode) -> (r: Self)
        ensures
            r.spec_force() == self.spec_force(),
            r.spec_mode() == Some(mode),
    {
        InstallServiceOptionBuilder { force: self.force, mode: Some(mode) }
    }

    pub fn force(self, force: bool) -> (r: Self)
        ensures
            r.spec_force() == force,
            r.spec_mode() == self.spec_mode(),
    {
        InstallServiceOptionBuilder { force, mode: self.mode }
    }

    pub fn build(self) -> (r: InstallServiceOption)
        ensures
            r.spec_force() == self.spec_force(),
            r.spec_mode() == match self.spec_mode() {
                Some(m) => m,
                None => InstallMode::All,
            },
    {
        InstallServiceOption {
            force: self.force,
            mode: match self.mode {
                Some(m) => m,
                None => InstallMode::All,
            },
        }
    }
}

/// One provider target's install failure: enough context to re-run only
/// the failing target.
#[derive(Debug, PartialEq)]
pub struct InstallTargetError {
    pub provider: String,
    pub name: String,
    pub error_message: String,
}

impl Clone for InstallTargetError {
    fn clone(&self) -> (r: Self)
        ensures
            r == *self,
    {
        InstallTargetError {
            provider: self.provider.clone(),
            name: self.name.clone(),
            error_message: self.error_message.clone(),
        }
    }
}

/// What aborts an install cycle.
#[derive(Debug, PartialEq)]
pub enum InstallServiceError {
    /// Aggregate of every failed concurrent task; none is dropped.
    MultiInstall(Vec<InstallTargetError>),
    /// A single provider target failure.
    Install(InstallTargetError),
    /// Output binary names that collide across providers or targets.
    DuplicateBin(Vec<String>),
}

/// The `Ok` payloads of a run of independently failable operations, in
/// order.
pub open spec fn oks_of<T, E>(s: Seq<Result<T, E>>) -> Seq<T>
    decreases s.len(),
{
    if s.len() == 0 {
        Seq::empty()
    } else {
        oks_of(s.drop_last()) + match s.last() {
            Ok(t) => seq![t],
            Err(_) => Seq::empty(),
        }
    }
}

/// The `Err` payloads of a run of independently failable operations, in
/// order.
pub open spec fn errs_of<T, E>(s: Seq<Result<T, E>>) -> Seq<E>
    decreases s.len(),
{
    if s.len() == 0 {
        Seq::empty()
    } else {
        errs_of(s.drop_last()) + match s.last() {
            Ok(_) => Seq::empty(),
            Err(e) => seq![e],
        }
    }
}

/// The fan-out helper's collection step: every sibling's result is waited
/// for, all successes are kept in order, and all failures aggregate —
/// never only the first.
pub fn aggregate_results<T, E>(results: Vec<Result<T, E>>) -> (r: Result<Vec<T>, Vec<E>>)
    ensures
        match r {
            Ok(ts) => ts@ == oks_of(results@) && errs_of(results@).len() == 0,
            Err(es) => es@ == errs_of(results@) && es@.len() > 0,
        },
{
    let ghost orig = results@;
    let mut rest = results;
    let mut oks: Vec<T> = Vec::new();
    let mut errs: Vec<E> = Vec::new();
    let ghost mut k: int = 0;
    proof {
        assert(orig.take(0) =~= Seq::<Result<T, E>>::empty());
    }
    while rest.len() > 0
        invariant
            0 <= k <= orig.len(),
            rest@ =~= orig.subrange(k, orig.len() as int),
            oks@ == oks_of(orig.take(k)),
            errs@ == errs_of(orig.take(k)),
        decreases rest@.len(),
    {
        let x = rest.remove(0);
        proof {
            assert(x == orig[k]);
            assert(orig.take(k + 1).drop_last() =~= orig.take(k));
        }
        match x {
            Ok(t) => {
                oks.push(t);
                proof {
                    assert(oks@ =~= oks_of(orig.take(k + 1)));
                    assert(errs@ =~= errs_of(orig.take(k + 1)));
                }
            },
            Err(e) => {
                errs.push(e);
                proof {
                    assert(oks@ =~= oks_of(orig.take(k + 1)));
                    assert(errs@ =~= errs_of(orig.take(k + 1)));
                }
            },
        }
        proof {
            k = k + 1;
        }
    }
    proof {
        assert(orig.take(orig.len() as int) =~= orig);
    }
    if errs.len() == 0 {
        Ok(oks)
    } else {
        Err(errs)
    }
}

/// The names that repeat an earlier one, in encounter order: each
/// occurrence after a name's first contributes once.
pub open spec fn dup_seq(s: Seq<Seq<char>>) -> Seq<Seq<char>>
    decreases s.len(),
{
    if s.len() == 0 {
        Seq::empty()
    } else {
        dup_seq(s.drop_last()) + if s.drop_last().contains(s.last()) {
            seq![s.last()]
        } else {
            Seq::empty()
        }
    }
}

/// No duplicates reported exactly when the names are pairwise distinct.
pub proof fn lemma_dup_seq_empty_iff_distinct(s: Seq<Seq<char>>)
    ensures
        dup_seq(s).len() == 0 <==> (forall|i: int, j: int| 0 <= i < j < s.len() ==> s[i] != s[j]),
    decreases s.len(),
{
    if s.len() > 0 {
        lemma_dup_seq_empty_iff_distinct(s.drop_last());
        if dup_seq(s).len() == 0 {
            assert forall|i: int, j: int| 0 <= i < j < s.len() implies s[i] != s[j] by {
                if j < s.len() - 1 {
                    assert(s.drop_last()[i] == s[i] && s.drop_last()[j] == s[j]);
                } else {
                    if s[i] == s[j] {
                        assert(s.drop_last()[i] == s[i]);
                        assert(s.drop_last().contains(s.last()));
                        assert(false);
                    }
                }
            }
        } else {
            if dup_seq(s.drop_last()).len() == 0 {
                assert(s.drop_last().contains(s.last()));
                let i = choose|i: int|
                    0 <= i < s.drop_last().len() && s.drop_last()[i] == s.last();
                assert(s[i] == s[s.len() - 1]);
            } else {
                let (i, j) = choose|i: int, j: int|
                    0 <= i < j < s.drop_last().len() && s.drop_last()[i] == s.drop_last()[j];
                assert(s[i] == s[j]);
            }
        }
    }
}

/// Two providers that each produce a binary of one name always surface a
/// duplicate: the combined name list reports at least one.
pub proof fn lemma_cross_provider_duplicate(a: Seq<Seq<char>>, b: Seq<Seq<char>>, n: Seq<char>)
    requires
        a.contains(n),
        b.contains(n),
    ensures
        dup_seq(a + b).len() > 0,
{
    let i = choose|i: int| 0 <= i < a.len() && a[i] == n;
    let j = choose|j: int| 0 <= j < b.len() && b[j] == n;
    assert((a + b)[i] == n);
    assert((a + b)[a.len() + j] == n);
    lemma_dup_seq_empty_iff_distinct(a + b);
}

/// Scans the names in order and reports every one already seen.
pub fn find_duplicate_bin_names(names: &Vec<String>) -> (r: Vec<String>)
    ensures
        strs_view(r@) == dup_seq(strs_view(names@)),
{
    let n = names.len();
    let mut dups: Vec<String> = Vec::new();
    let mut i: usize = 0;
    proof {
        assert(strs_view(dups@) =~= dup_seq(strs_view(names@).take(0)));
    }
    while i < n
        invariant
            i <= n,
            n == names@.len(),
            strs_view(dups@) == dup_seq(strs_view(names@).take(i as int)),
        decreases n - i,
    {
        let ghost prefix = strs_view(names@).take(i as int);
        let mut seen = false;
        let mut j: usize = 0;
        while j < i
            invariant
                j <= i,
                i < n,
                n == names@.len(),
                prefix == strs_view(names@).take(i as int),
                seen == prefix.take(j as int).contains(strs_view(names@)[i as int]),
            decreases i - j,
        {
            let ghost sub = prefix.take(j as int);
            if str_eq(names[j].as_str(), names[i].as_str()) {
                seen = true;
            }
            proof {
                assert(strs_view(names@).len() == names@.len());
                assert(prefix.len() == i as int);
                assert(prefix[j as int] == strs_view(names@)[j as int]);
                assert(prefix.take(j + 1).drop_last() =~= sub);
                assert(prefix.take(j + 1).last() == strs_view(names@)[j as int]);
                if !seen {
                    if prefix.take(j + 1).contains(strs_view(names@)[i as int]) {
                        let w = choose|w: int|
                            0 <= w < j + 1 && #[trigger] prefix.take(j + 1)[w] == strs_view(
                                names@,
                            )[i as int];
                        if w < j {
                            assert(sub[w] == prefix.take(j + 1)[w]);
                        }
                        assert(false);
                    }
                } else {
                    if !prefix.take(j + 1).contains(strs_view(names@)[i as int]) {
                        if sub.contains(strs_view(names@)[i as int]) {
                            let w = choose|w: int|
                                0 <= w < j && sub[w] == strs_view(names@)[i as int];
                            assert(prefix.take(j + 1)[w] == strs_view(names@)[i as int]);
                        }
                        assert(false);
                    }
                }
            }
            j = j + 1;
        }
        proof {
            assert(prefix.take(i as int) =~= prefix);
        }
        let ghost old_dups = strs_view(dups@);
        if seen {
            dups.push(names[i].clone());
            proof {
                assert(strs_view(dups@) =~= old_dups.push(strs_view(names@)[i as int]));
            }
        }
        proof {
            assert(strs_view(names@).take(i + 1).drop_last() =~= prefix);
            assert(strs_view(names@).take(i + 1).last() == strs_view(names@)[i as int]);
            if seen {
                assert(strs_view(dups@) =~= dup_seq(strs_view(names@).take(i + 1)));
            } else {
                assert(strs_view(dups@) =~= dup_seq(strs_view(names@).take(i + 1)));
            }
        }
        i = i + 1;
    }
    proof {
        assert(strs_view(names@).take(n as int) =~= strs_view(names@));
    }
    dups
}

/// The duplicate-output gate: placement may only proceed when the collected
/// binary names are pairwise distinct; otherwise the cycle aborts carrying
/// every colliding name.
pub fn check_no_duplicate_bins(names: &Vec<String>) -> (r: Result<(), InstallServiceError>)
    ensures
        match r {
            Ok(()) => forall|i: int, j: int|
                0 <= i < j < names@.len() ==> strs_view(names@)[i] != strs_view(names@)[j],
            Err(e) => e matches InstallServiceError::DuplicateBin(d) && strs_view(d@) == dup_seq(
                strs_view(names@),
            ) && d@.len() > 0,
        },
{
    let dups = find_duplicate_bin_names(names);
    if dups.len() == 0 {
        proof {
            lemma_dup_seq_empty_iff_distinct(strs_view(names@));
        }
        Ok(())
    } else {
        Err(InstallServiceError::DuplicateBin(dups))
    }
}

/// Each path's file name: what stands after the last separator.
pub fn bin_file_names(paths: &Vec<String>) -> (r: Vec<String>)
    ensures
        r@.len() == paths@.len(),
        forall|i: int| 0 <= i < r@.len() ==> (#[trigger] r@[i])@ == after_last(paths@[i]@, '/'),
{
    let n = paths.len();
    let mut names: Vec<String> = Vec::new();
    let mut i: usize = 0;
    while i < n
        invariant
            i <= n,
            n == paths@.len(),
            names@.len() == i,
            forall|j: int|
                0 <= j < i ==> (#[trigger] names@[j])@ == after_last(paths@[j]@, '/'),
        decreases n - i,
    {
        names.push(suffix_after_last(paths[i].as_str(), '/'));
        i = i + 1;
    }
    names
}

/// The binary file names that a list of output paths yields.
pub open spec fn spec_bin_names(paths: Seq<String>) -> Seq<Seq<char>> {
    paths.map_values(|p: String| after_last(p@, '/'))
}

/// The decision after every runner's core install step: failed tasks
/// aggregate into one error; otherwise colliding binary names abort the
/// cycle before any placement; otherwise the file names to place are
/// returned.
pub fn run_each_installs_decision(
    install_results: Vec<Result<(), InstallTargetError>>,
    bin_paths: &Vec<String>,
) -> (r: Result<Vec<String>, InstallServiceError>)
    ensures
        match r {
            Ok(names) => {
                &&& errs_of(install_results@).len() == 0
                &&& names@.len() == bin_paths@.len()
                &&& forall|i: int|
                    0 <= i < names@.len() ==> (#[trigger] names@[i])@ == after_last(
                        bin_paths@[i]@,
                        '/',
                    )
                &&& forall|i: int, j: int|
                    0 <= i < j < names@.len() ==> strs_view(names@)[i] != strs_view(names@)[j]
            },
            Err(e) => match e {
                InstallServiceError::MultiInstall(es) => es@ == errs_of(install_results@)
                    && es@.len() > 0,
                InstallServiceError::DuplicateBin(d) => errs_of(install_results@).len() == 0
                    && strs_view(d@) == dup_seq(spec_bin_names(bin_paths@)) && d@.len() > 0,
                InstallServiceError::Install(_) => false,
            },
        },
{
    match aggregate_results(install_results) {
        Err(es) => Err(InstallServiceError::MultiInstall(es)),
        Ok(_) => {
            let names = bin_file_names(bin_paths);
            proof {
                assert(strs_view(names@) =~= spec_bin_names(bin_paths@));
            }
            match check_no_duplicate_bins(&names) {
                Err(e) => Err(e),
                Ok(_) => Ok(names),
            }
        },
    }
}

/// The source manifest of a cycle: everything when forced or when no cache
/// snapshot exists, else exactly the need-install subset against the cache.
pub fn select_source_manifest(
    desired: &IsobinConfig,
    cached: Option<&IsobinConfig>,
    force: bool,
    changed_names: &Vec<String>,
) -> (r: IsobinConfig)
    requires
        desired.wf(),
        cached matches Some(c) ==> c.wf(),
    ensures
        r.wf(),
        force || cached is None ==> r.cargo_seq() == desired.cargo_seq() && r.cargo_map()
            == desired.cargo_map(),
        !force ==> (cached matches Some(c) ==> {
            &&& forall|n: Seq<char>| #[trigger]
                r.cargo_map().contains_key(n) <==> need_install_cond(
                    desired.cargo_map(),
                    c.cargo_map(),
                    strs_view(changed_names@),
                    n,
                )
            &&& forall|n: Seq<char>| #[trigger]
                r.cargo_map().contains_key(n) ==> r.cargo_map()[n] == desired.cargo_map()[n]
        }),
{
    if force {
        desired.duplicate()
    } else {
        match cached {
            Some(c) => IsobinConfig::get_need_install_config(desired, c, changed_names),
            None => desired.duplicate(),
        }
    }
}

/// Where one target stands in its install lifecycle.
#[derive(Clone, Copy, Debug, PartialEq, Eq, Structural)]
pub enum ProgressState {
    Prepared,
    Started,
    Done,
    Failed,
}

/// Whether a provider's underlying tool safely supports overlapping
/// installs.
#[derive(Clone, Copy, Debug, PartialEq, Eq, Structural)]
pub enum MultiInstallMode {
    Parallel,
    Sequential,
}

/// One target together with its progress through the lifecycle.
#[derive(Debug, PartialEq)]
pub struct InstallTargetContext {
    pub target: CargoInstallTarget,
    pub progress: ProgressState,
}

/// A provider runner's bookkeeping: its kind, its declared install mode,
/// and every target with its progress. The provider's tooling runs outside
/// the library; the outcomes it reports are recorded here.
#[derive(Debug, PartialEq)]
pub struct InstallRunnerState {
    provider_kind: ProviderKind,
    multi_install_mode: MultiInstallMode,
    contexts: Vec<InstallTargetContext>,
}

impl InstallRunnerState {
    pub closed spec fn spec_provider_kind(&self) -> ProviderKind {
        self.provider_kind
    }

    pub closed spec fn spec_multi_install_mode(&self) -> MultiInstallMode {
        self.multi_install_mode
    }

    pub closed spec fn spec_contexts(&self) -> Seq<InstallTargetContext> {
        self.contexts@
    }

    /// A fresh runner: every target prepared, none started.
    pub fn new(
        provider_kind: ProviderKind,
        multi_install_mode: MultiInstallMode,
        targets: Vec<CargoInstallTarget>,
    ) -> (r: Self)
        ensures
            r.spec_provider_kind() == provider_kind,
            r.spec_multi_install_mode() == multi_install_mode,
            r.spec_contexts().len() == targets@.len(),
            forall|i: int|
                0 <= i < targets@.len() ==> (#[trigger] r.spec_contexts()[i]).target == targets@[i]
                    && r.spec_contexts()[i].progress == ProgressState::Prepared,
    {
        let mut rest = targets;
        let ghost orig = rest@;
        let mut contexts: Vec<InstallTargetContext> = Vec::new();
        while rest.len() > 0
            invariant
                orig.len() == contexts@.len() + rest@.len(),
                rest@ =~= orig.subrange(contexts@.len() as int, orig.len() as int),
                forall|i: int|
                    0 <= i < contexts@.len() ==> (#[trigger] contexts@[i]).target == orig[i]
                        && contexts@[i].progress == ProgressState::Prepared,
            decreases rest@.len(),
        {
            let target = rest.remove(0);
            contexts.push(InstallTargetContext { target, progress: ProgressState::Prepared });
        }
        InstallRunnerState { provider_kind, multi_install_mode, contexts }
    }

    pub fn provider_type(&self) -> (r: ProviderKind)
        ensures
            r == self.spec_provider_kind(),
    {
        self.provider_kind
    }

    pub fn multi_install_mode(&self) -> (r: MultiInstallMode)
        ensures
            r == self.spec_multi_install_mode(),
    {
        self.multi_install_mode
    }

    pub fn len(&self) -> (r: usize)
        ensures
            r == self.spec_contexts().len(),
    {
        self.contexts.len()
    }

    pub fn context_at(&self, i: usize) -> (r: &InstallTargetContext)
        requires
            i < self.spec_contexts().len(),
        ensures
            *r == self.spec_contexts()[i as int],
    {
        &self.contexts[i]
    }

    /// Marks one target started, as its install begins.
    pub fn mark_started(&mut self, i: usize)
        requires
            i < old(self).spec_contexts().len(),
        ensures
            final(self).spec_provider_kind() == old(self).spec_provider_kind(),
            final(self).spec_multi_install_mode() == old(self).spec_multi_install_mode(),
            final(self).spec_contexts().len() == old(self).spec_contexts().len(),
            final(self).spec_contexts()[i as int].target == old(self).spec_contexts()[
                i as int
            ].target,
            final(self).spec_contexts()[i as int].progress == ProgressState::Started,
            forall|j: int|
                0 <= j < old(self).spec_contexts().len() && j != i
                    ==> final(self).spec_contexts()[j] == old(self).spec_contexts()[j],
    {
        self.contexts[i].progress = ProgressState::Started;
    }

    /// Records the outcome the provider reported for each attempted target,
    /// in target order: done on success, failed on failure. Targets beyond
    /// the attempted prefix keep their state (a sequential provider stops
    /// attempting after a failure; a parallel one attempts all). Failures
    /// aggregate; none is dropped.
    pub fn record_install_outcomes(&mut self, outcomes: Vec<Result<(), InstallTargetError>>) -> (r:
        Result<(), InstallServiceError>)
        requires
            outcomes@.len() <= old(self).spec_contexts().len(),
        ensures
            final(self).spec_provider_kind() == old(self).spec_provider_kind(),
            final(self).spec_multi_install_mode() == old(self).spec_multi_install_mode(),
            final(self).spec_contexts().len() == old(self).spec_contexts().len(),
            forall|i: int|
                0 <= i < outcomes@.len() ==> (#[trigger] final(self).spec_contexts()[i]).target
                    == old(self).spec_contexts()[i].target && final(self).spec_contexts()[
                    i
                ].progress == (if outcomes@[i] is Ok {
                    ProgressState::Done
                } else {
                    ProgressState::Failed
                }),
            forall|i: int|
                outcomes@.len() <= i < old(self).spec_contexts().len()
                    ==> (#[trigger] final(self).spec_contexts()[i]) == old(self).spec_contexts()[i],
            match r {
                Ok(()) => errs_of(outcomes@).len() == 0,
                Err(e) => e matches InstallServiceError::MultiInstall(es) && es@ == errs_of(
                    outcomes@,
                ) && es@.len() > 0,
            },
    {
        let ghost orig = outcomes@;
        let ghost orig_contexts = self.contexts@;
        let mut rest = outcomes;
        let total = rest.len();
        let mut errs: Vec<InstallTargetError> = Vec::new();
        let mut i: usize = 0;
        proof {
            assert(orig.take(0) =~= Seq::<Result<(), InstallTargetError>>::empty());
        }
        while rest.len() > 0
            invariant
                total == orig.len(),
                i + rest@.len() == orig.len(),
                orig.len() <= self.contexts@.len(),
                rest@ =~= orig.subrange(i as int, orig.len() as int),
                errs@ == errs_of(orig.take(i as int)),
                self.provider_kind == old(self).provider_kind,
                self.multi_install_mode == old(self).multi_install_mode,
                self.contexts@.len() == orig_contexts.len(),
                orig_contexts == old(self).contexts@,
                forall|j: int|
                    0 <= j < i ==> (#[trigger] self.contexts@[j]).target == orig_contexts[j].target
                        && self.contexts@[j].progress == (if orig[j] is Ok {
                        ProgressState::Done
                    } else {
                        ProgressState::Failed
                    }),
                forall|j: int|
                    i <= j < orig_contexts.len() ==> (#[trigger] self.contexts@[j])
                        == orig_contexts[j],
            decreases rest@.len(),
        {
            let x = rest.remove(0);
            proof {
                assert(x == orig[i as int]);
                assert(orig.take(i + 1).drop_last() =~= orig.take(i as int));
            }
            match x {
                Ok(_) => {
                    self.contexts[i].progress = ProgressState::Done;
                    proof {
                        assert(errs@ =~= errs_of(orig.take(i + 1)));
                    }
                },
                Err(e) => {
                    self.contexts[i].progress = ProgressState::Failed;
                    errs.push(e);
                    proof {
                        assert(errs@ =~= errs_of(orig.take(i + 1)));
                    }
                },
            }
            i = i + 1;
        }
        proof {
            assert(orig.take(orig.len() as int) =~= orig);
        }
        if errs.len() == 0 {
            Ok(())
        } else {
            Err(InstallServiceError::MultiInstall(errs))
        }
    }
}

/// Builds one runner per provider from the source manifest.
#[derive(Debug, Default)]
pub struct InstallRunnerProvider {
}

impl InstallRunnerProvider {
    /// The cargo runner: one prepared target per manifest entry, in
    /// manifest order. Cargo installs into disjoint homes, so its targets
    /// may overlap.
    pub fn make_cargo_runner(&self, cargo_manifest: &CargoManifest) -> (r: InstallRunnerState)
        requires
            cargo_manifest.wf(),
        ensures
            r.spec_provider_kind() == ProviderKind::Cargo,
            r.spec_multi_install_mode() == MultiInstallMode::Parallel,
            r.spec_contexts().len() == cargo_manifest.dep_seq().len(),
            forall|i: int|
                0 <= i < cargo_manifest.dep_seq().len() ==> {
                    let c = #[trigger] r.spec_contexts()[i];
                    &&& c.target.name@ == cargo_manifest.dep_seq()[i].0
                    &&& c.target.install_dependency@ == cargo_manifest.dep_seq()[i].1
                    &&& c.progress == ProgressState::Prepared
                },
    {
        let n = cargo_manifest.len();
        let mut targets: Vec<CargoInstallTarget> = Vec::new();
        let mut i: usize = 0;
        while i < n
            invariant
                cargo_manifest.wf(),
                i <= n,
                n == cargo_manifest.dep_seq().len(),
                targets@.len() == i,
                forall|j: int|
                    0 <= j < i ==> (#[trigger] targets@[j]).name@ == cargo_manifest.dep_seq()[j].0
                        && targets@[j].install_dependency@ == cargo_manifest.dep_seq()[j].1,
            decreases n - i,
        {
            let name = cargo_manifest.name_at(i);
            let dependency = cargo_manifest.dependency_at(i);
            targets.push(CargoInstallTarget::new(name.clone(), dependency.clone()));
            i = i + 1;
        }
        InstallRunnerState::new(ProviderKind::Cargo, MultiInstallMode::Parallel, targets)
    }
}

/// How one directory rename ended.
#[derive(Clone, Copy, Debug, PartialEq, Eq, Structural)]
pub enum RenameOutcome {
    Succeeded,
    Failed,
}

/// How a promotion ended.
#[derive(Clone, Copy, Debug, PartialEq, Eq, Structural)]
pub enum PromotionOutcome {
    /// The staging tree is live; the set-aside old tree was discarded.
    Promoted,
    /// Setting the live tree aside failed; nothing moved.
    SetAsideFailed,
    /// The staging-to-live rename failed; the prior live tree stands
    /// restored (or never moved).
    SwapFailed,
    /// The staging-to-live rename failed and restoring the set-aside tree
    /// failed too: the live directory is absent, the old tree still under
    /// its throwaway path. A documented, not silently hidden, edge.
    RollbackFailed,
}

/// The trees promotion touches, each as the content standing at its path,
/// if any: the live workspace, the staging workspace, and the throwaway
/// path the old live tree is set aside under.
#[derive(Clone, Copy, Debug, PartialEq, Eq)]
pub struct PromotionTrees {
    pub live: Option<u64>,
    pub staging: Option<u64>,
    pub trash: Option<u64>,
}

/// What the promotion protocol does to the three trees: if a live tree
/// stands, rename it to a throwaway path; rename staging to live; on a
/// failed swap rename the throwaway tree back; on success discard it. Each
/// rename either fully moves a tree or leaves everything in place, as the
/// given outcomes say.
pub open spec fn spec_promote(
    trees: PromotionTrees,
    set_aside: RenameOutcome,
    swap: RenameOutcome,
    rollback: RenameOutcome,
) -> (PromotionTrees, PromotionOutcome) {
    if trees.live is Some && set_aside == RenameOutcome::Failed {
        (trees, PromotionOutcome::SetAsideFailed)
    } else if swap == RenameOutcome::Succeeded {
        (
            PromotionTrees { live: trees.staging, staging: None, trash: None },
            PromotionOutcome::Promoted,
        )
    } else if trees.live is None || rollback == RenameOutcome::Succeeded {
        (trees, PromotionOutcome::SwapFailed)
    } else {
        (
            PromotionTrees { live: None, staging: trees.staging, trash: trees.live },
            PromotionOutcome::RollbackFailed,
        )
    }
}

/// The atomic-swap promotion protocol, as it acts on the three trees. At
/// every step the live path holds the complete old tree, the complete new
/// tree, or — only after a failed rollback — nothing: never a partial
/// tree.
pub fn promote_workspace(
    trees: PromotionTrees,
    set_aside: RenameOutcome,
    swap: RenameOutcome,
    rollback: RenameOutcome,
) -> (r: (PromotionTrees, PromotionOutcome))
    requires
        trees.staging is Some,
        trees.trash is None,
    ensures
        r == spec_promote(trees, set_aside, swap, rollback),
        r.1 == PromotionOutcome::SetAsideFailed <==> trees.live is Some && set_aside
            == RenameOutcome::Failed,
        r.1 == PromotionOutcome::Promoted <==> swap == RenameOutcome::Succeeded && (
        trees.live is Some ==> set_aside == RenameOutcome::Succeeded),
        r.1 == PromotionOutcome::SwapFailed <==> swap == RenameOutcome::Failed && (
        trees.live is Some ==> set_aside == RenameOutcome::Succeeded && rollback
            == RenameOutcome::Succeeded),
        r.1 == PromotionOutcome::RollbackFailed <==> trees.live is Some && set_aside
            == RenameOutcome::Succeeded && swap == RenameOutcome::Failed && rollback
            == RenameOutcome::Failed,
        r.1 == PromotionOutcome::Promoted ==> r.0 == (PromotionTrees {
            live: trees.staging,
            staging: None,
            trash: None,
        }),
        r.1 == PromotionOutcome::SetAsideFailed ==> r.0 == trees,
        r.1 == PromotionOutcome::SwapFailed ==> r.0 == trees,
        r.1 == PromotionOutcome::RollbackFailed ==> r.0 == (PromotionTrees {
            live: None,
            staging: trees.staging,
            trash: trees.live,
        }),
{
    let need_tmp = trees.live.is_some();
    if need_tmp && matches!(set_aside, RenameOutcome::Failed) {
        return (trees, PromotionOutcome::SetAsideFailed);
    }
    let after_aside = if need_tmp {
        PromotionTrees { live: None, staging: trees.staging, trash: trees.live }
    } else {
        trees
    };
    match swap {
        RenameOutcome::Succeeded => {
            (
                PromotionTrees { live: after_aside.staging, staging: None, trash: None },
                PromotionOutcome::Promoted,
            )
        },
        RenameOutcome::Failed => {
            if need_tmp {
                match rollback {
                    RenameOutcome::Succeeded => (trees, PromotionOutcome::SwapFailed),
                    RenameOutcome::Failed => (after_aside, PromotionOutcome::RollbackFailed),
                }
            } else {
                (trees, PromotionOutcome::SwapFailed)
            }
        },
    }
}

/// If the staging-to-live rename fails during promotion and the rollback
/// rename restores the set-aside tree — or the set-aside rename itself
/// already failed — the live workspace is exactly what it was before the
/// promotion began: the whole state is unchanged, never partial.
pub proof fn lemma_failed_swap_preserves_live(
    trees: PromotionTrees,
    set_aside: RenameOutcome,
    rollback: RenameOutcome,
)
    requires
        rollback == RenameOutcome::Succeeded,
    ensures
        spec_promote(trees, set_aside, RenameOutcome::Failed, rollback).0 == trees,
        spec_promote(trees, set_aside, RenameOutcome::Failed, rollback).0.live == trees.live,
{
}

/// A fully successful promotion makes the staging tree the live one and
/// discards both the staging path and the set-aside tree.
pub proof fn lemma_successful_promotion_installs_staging(
    trees: PromotionTrees,
    set_aside: RenameOutcome,
    rollback: RenameOutcome,
)
    requires
        trees.live is Some ==> set_aside == RenameOutcome::Succeeded,
    ensures
        spec_promote(trees, set_aside, RenameOutcome::Succeeded, rollback).0.live == trees.staging,
        spec_promote(trees, set_aside, RenameOutcome::Succeeded, rollback).1
            == PromotionOutcome::Promoted,
{
}

} // verus!
