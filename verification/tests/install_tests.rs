use isobin::config::IsobinConfig;
use isobin::install::{
    aggregate_results, bin_file_names, check_no_duplicate_bins, find_duplicate_bin_names,
    promote_workspace, run_each_installs_decision, select_source_manifest, InstallMode,
    InstallRunnerProvider, InstallServiceError, InstallServiceOptionBuilder,
    InstallTargetError, MultiInstallMode, ProgressState, PromotionOutcome, PromotionTrees,
    RenameOutcome, ISOBIN_CONFIG_FILE_CACHE_NAME,
};
use isobin::providers::cargo::{CargoInstallDependency, CargoManifest};
use isobin::providers::ProviderKind;

fn simple(version: &str) -> CargoInstallDependency {
    CargoInstallDependency::Simple(version.to_string())
}

fn manifest(entries: &[(&str, &str)]) -> CargoManifest {
    let mut m = CargoManifest::new();
    for (name, version) in entries {
        m.insert_dependency(name.to_string(), simple(version));
    }
    m
}

fn target_error(name: &str) -> InstallTargetError {
    InstallTargetError {
        provider: "cargo".to_string(),
        name: name.to_string(),
        error_message: "install failed".to_string(),
    }
}

#[test]
fn option_builder_defaults_to_all() {
    let option = InstallServiceOptionBuilder::new().build();
    assert!(!option.force());
    assert_eq!(option.mode(), &InstallMode::All);
}

#[test]
fn option_builder_keeps_choices() {
    let option = InstallServiceOptionBuilder::new()
        .force(true)
        .mode(InstallMode::SpecificInstallTargetsOnly {
            specific_install_targets: vec!["comrak".to_string()],
        })
        .build();
    assert!(option.force());
    assert_eq!(
        option.mode(),
        &InstallMode::SpecificInstallTargetsOnly {
            specific_install_targets: vec!["comrak".to_string()],
        }
    );
}

#[test]
fn aggregate_results_keeps_all_successes() {
    let results: Vec<Result<u32, String>> = vec![Ok(1), Ok(2), Ok(3)];
    assert_eq!(aggregate_results(results), Ok(vec![1, 2, 3]));
}

#[test]
fn aggregate_results_collects_every_failure() {
    let results: Vec<Result<u32, String>> = vec![
        Ok(1),
        Err("first".to_string()),
        Ok(2),
        Err("second".to_string()),
    ];
    assert_eq!(
        aggregate_results(results),
        Err(vec!["first".to_string(), "second".to_string()])
    );
}

#[test]
fn find_duplicate_bin_names_reports_repeats_in_order() {
    let names = vec![
        "foo".to_string(),
        "bar".to_string(),
        "foo".to_string(),
        "foo".to_string(),
    ];
    assert_eq!(
        find_duplicate_bin_names(&names),
        vec!["foo".to_string(), "foo".to_string()]
    );
    let distinct = vec!["a".to_string(), "b".to_string()];
    assert!(find_duplicate_bin_names(&distinct).is_empty());
}

#[test]
fn check_no_duplicate_bins_flags_collisions() {
    let ok = vec!["a".to_string(), "b".to_string()];
    assert!(check_no_duplicate_bins(&ok).is_ok());
    let clash = vec!["a".to_string(), "b".to_string(), "a".to_string()];
    assert_eq!(
        check_no_duplicate_bins(&clash),
        Err(InstallServiceError::DuplicateBin(vec!["a".to_string()]))
    );
}

#[test]
fn bin_file_names_takes_the_last_component() {
    let paths = vec![
        "/ws/home/bin/foo".to_string(),
        "/elsewhere/bar".to_string(),
        "plain".to_string(),
    ];
    assert_eq!(
        bin_file_names(&paths),
        vec!["foo".to_string(), "bar".to_string(), "plain".to_string()]
    );
}

#[test]
fn duplicate_bins_abort_before_any_placement() {
    // Two providers each produce a binary named `foo`; the combined name
    // list aborts the cycle, so no name is ever handed back for placement.
    let provider_a_paths = vec!["/ws/a/foo".to_string(), "/ws/a/x".to_string()];
    let provider_b_paths = vec!["/ws/b/foo".to_string()];
    let mut all_paths = provider_a_paths;
    all_paths.extend(provider_b_paths);
    let results: Vec<Result<(), InstallTargetError>> = vec![Ok(()), Ok(())];
    match run_each_installs_decision(results, &all_paths) {
        Err(InstallServiceError::DuplicateBin(dups)) => {
            assert_eq!(dups, vec!["foo".to_string()]);
        }
        other => panic!("expected a duplicate-binary abort, got {:?}", other),
    }
}

#[test]
fn install_failures_aggregate_before_bin_collection() {
    let results: Vec<Result<(), InstallTargetError>> = vec![
        Ok(()),
        Err(target_error("alpha")),
        Err(target_error("beta")),
    ];
    let paths = vec!["/ws/foo".to_string(), "/ws/foo".to_string()];
    match run_each_installs_decision(results, &paths) {
        Err(InstallServiceError::MultiInstall(errs)) => {
            assert_eq!(errs.len(), 2);
            assert_eq!(errs[0].name, "alpha");
            assert_eq!(errs[1].name, "beta");
        }
        other => panic!("expected an aggregated install failure, got {:?}", other),
    }
}

#[test]
fn successful_cycle_returns_names_to_place() {
    let results: Vec<Result<(), InstallTargetError>> = vec![Ok(()), Ok(())];
    let paths = vec!["/ws/home/bin/foo".to_string(), "/ws/home/bin/bar".to_string()];
    assert_eq!(
        run_each_installs_decision(results, &paths),
        Ok(vec!["foo".to_string(), "bar".to_string()])
    );
}

#[test]
fn promotion_succeeds_and_discards_the_old_tree() {
    let trees = PromotionTrees { live: Some(1), staging: Some(2), trash: None };
    let (after, outcome) = promote_workspace(
        trees,
        RenameOutcome::Succeeded,
        RenameOutcome::Succeeded,
        RenameOutcome::Succeeded,
    );
    assert_eq!(outcome, PromotionOutcome::Promoted);
    assert_eq!(after, PromotionTrees { live: Some(2), staging: None, trash: None });
}

#[test]
fn promotion_of_a_first_install_needs_no_set_aside() {
    let trees = PromotionTrees { live: None, staging: Some(2), trash: None };
    let (after, outcome) = promote_workspace(
        trees,
        RenameOutcome::Failed,
        RenameOutcome::Succeeded,
        RenameOutcome::Failed,
    );
    assert_eq!(outcome, PromotionOutcome::Promoted);
    assert_eq!(after, PromotionTrees { live: Some(2), staging: None, trash: None });
}

#[test]
fn failed_swap_leaves_the_live_tree_unchanged() {
    let trees = PromotionTrees { live: Some(1), staging: Some(2), trash: None };
    let (after, outcome) = promote_workspace(
        trees,
        RenameOutcome::Succeeded,
        RenameOutcome::Failed,
        RenameOutcome::Succeeded,
    );
    assert_eq!(outcome, PromotionOutcome::SwapFailed);
    assert_eq!(after, trees);
    assert_eq!(after.live, Some(1));
}

#[test]
fn failed_set_aside_moves_nothing() {
    let trees = PromotionTrees { live: Some(1), staging: Some(2), trash: None };
    let (after, outcome) = promote_workspace(
        trees,
        RenameOutcome::Failed,
        RenameOutcome::Succeeded,
        RenameOutcome::Succeeded,
    );
    assert_eq!(outcome, PromotionOutcome::SetAsideFailed);
    assert_eq!(after, trees);
}

#[test]
fn failed_rollback_leaves_the_old_tree_set_aside() {
    let trees = PromotionTrees { live: Some(1), staging: Some(2), trash: None };
    let (after, outcome) = promote_workspace(
        trees,
        RenameOutcome::Succeeded,
        RenameOutcome::Failed,
        RenameOutcome::Failed,
    );
    assert_eq!(outcome, PromotionOutcome::RollbackFailed);
    assert_eq!(after, PromotionTrees { live: None, staging: Some(2), trash: Some(1) });
}

#[test]
fn cargo_runner_prepares_every_target_in_order() {
    let m = manifest(&[("comrak", "1.0"), ("cargo-make", "2.0")]);
    let provider = InstallRunnerProvider::default();
    let runner = provider.make_cargo_runner(&m);
    assert_eq!(runner.provider_type(), ProviderKind::Cargo);
    assert_eq!(runner.multi_install_mode(), MultiInstallMode::Parallel);
    assert_eq!(runner.len(), 2);
    assert_eq!(runner.context_at(0).target.name, "comrak");
    assert_eq!(runner.context_at(0).target.install_dependency, simple("1.0"));
    assert_eq!(runner.context_at(0).progress, ProgressState::Prepared);
    assert_eq!(runner.context_at(1).target.name, "cargo-make");
    assert_eq!(runner.context_at(1).progress, ProgressState::Prepared);
}

#[test]
fn runner_records_every_attempted_target() {
    let m = manifest(&[("a", "1.0"), ("b", "1.0"), ("c", "1.0")]);
    let provider = InstallRunnerProvider::default();
    let mut runner = provider.make_cargo_runner(&m);
    runner.mark_started(0);
    assert_eq!(runner.context_at(0).progress, ProgressState::Started);
    let outcomes: Vec<Result<(), InstallTargetError>> =
        vec![Ok(()), Err(target_error("b"))];
    match runner.record_install_outcomes(outcomes) {
        Err(InstallServiceError::MultiInstall(errs)) => {
            assert_eq!(errs.len(), 1);
            assert_eq!(errs[0].name, "b");
        }
        other => panic!("expected an aggregated failure, got {:?}", other),
    }
    assert_eq!(runner.context_at(0).progress, ProgressState::Done);
    assert_eq!(runner.context_at(1).progress, ProgressState::Failed);
    // The third target was never attempted: a sequential provider stopped
    // after the failure, and its state says so.
    assert_eq!(runner.context_at(2).progress, ProgressState::Prepared);
}

#[test]
fn runner_reports_success_when_all_targets_pass() {
    let m = manifest(&[("a", "1.0"), ("b", "1.0")]);
    let provider = InstallRunnerProvider::default();
    let mut runner = provider.make_cargo_runner(&m);
    let outcomes: Vec<Result<(), InstallTargetError>> = vec![Ok(()), Ok(())];
    assert!(runner.record_install_outcomes(outcomes).is_ok());
    assert_eq!(runner.context_at(0).progress, ProgressState::Done);
    assert_eq!(runner.context_at(1).progress, ProgressState::Done);
}

#[test]
fn first_run_installs_everything_and_second_run_nothing() {
    // First cycle: no cache snapshot exists, so the whole desired manifest
    // is the source; afterwards the snapshot equals the desired manifest.
    let desired = IsobinConfig::new(manifest(&[("alpha", "1.0")]));
    let source = select_source_manifest(&desired, None, false, &Vec::new());
    assert_eq!(source.cargo().len(), 1);
    assert_eq!(source.cargo().get_dependency("alpha"), Some(&simple("1.0")));

    // Second identical cycle: the diff against the snapshot is empty, so
    // zero provider installs run.
    let snapshot = IsobinConfig::new(manifest(&[("alpha", "1.0")]));
    let second = select_source_manifest(&desired, Some(&snapshot), false, &Vec::new());
    assert!(second.cargo().is_empty());
    let provider = InstallRunnerProvider::default();
    let runner = provider.make_cargo_runner(second.cargo());
    assert_eq!(runner.len(), 0);
}

#[test]
fn version_bump_reinstalls_only_the_changed_name() {
    let desired = IsobinConfig::new(manifest(&[("alpha", "2.0"), ("beta", "1.0")]));
    let snapshot = IsobinConfig::new(manifest(&[("alpha", "1.0"), ("beta", "1.0")]));
    let source = select_source_manifest(&desired, Some(&snapshot), false, &Vec::new());
    assert_eq!(source.cargo().len(), 1);
    assert_eq!(source.cargo().get_dependency("alpha"), Some(&simple("2.0")));
    assert_eq!(source.cargo().get_dependency("beta"), None);
}

#[test]
fn force_takes_the_whole_desired_manifest() {
    let desired = IsobinConfig::new(manifest(&[("alpha", "1.0"), ("beta", "1.0")]));
    let snapshot = IsobinConfig::new(manifest(&[("alpha", "1.0"), ("beta", "1.0")]));
    let source = select_source_manifest(&desired, Some(&snapshot), true, &Vec::new());
    assert_eq!(source.cargo().len(), 2);
}

#[test]
fn cache_snapshot_file_name_is_versioned() {
    assert_eq!(ISOBIN_CONFIG_FILE_CACHE_NAME, "isobin_cache.v1.json");
}
