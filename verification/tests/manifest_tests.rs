use isobin::providers::cargo::{
    cargo_file_diff_helpers, check_need_build_in_path, CargoInstallDependency,
    CargoInstallDependencyDetail, CargoManifest,
};
use isobin::errors::IsobinManifestError;
use isobin::providers::ProviderKind;
use isobin::strmap::StrMap;

fn simple(version: &str) -> CargoInstallDependency {
    CargoInstallDependency::Simple(version.to_string())
}

fn detailed_with_version(version: &str) -> CargoInstallDependency {
    CargoInstallDependency::Detailed(CargoInstallDependencyDetail {
        version: Some(version.to_string()),
        ..Default::default()
    })
}

fn manifest(entries: &[(&str, CargoInstallDependency)]) -> CargoManifest {
    let mut m = CargoManifest::new();
    for (name, dep) in entries {
        m.insert_dependency(name.to_string(), dep.clone());
    }
    m
}

#[test]
fn need_install_same_manifest_is_empty() {
    let a = manifest(&[("comrak", simple("1.0")), ("cargo-make", detailed_with_version("2.0"))]);
    let b = manifest(&[("comrak", simple("1.0")), ("cargo-make", detailed_with_version("2.0"))]);
    let need = CargoManifest::get_need_install_dependency_manifest(&a, &b, &Vec::new());
    assert!(need.is_empty());
}

#[test]
fn need_install_reports_new_names() {
    let a = manifest(&[("comrak", simple("1.0")), ("ripgrep", simple("13.0"))]);
    let b = manifest(&[("comrak", simple("1.0"))]);
    let need = CargoManifest::get_need_install_dependency_manifest(&a, &b, &Vec::new());
    assert_eq!(need.len(), 1);
    assert_eq!(need.get_dependency("ripgrep"), Some(&simple("13.0")));
    assert_eq!(need.get_dependency("comrak"), None);
}

#[test]
fn need_install_reports_changed_version() {
    let a = manifest(&[("alpha", simple("2.0")), ("beta", simple("1.0"))]);
    let b = manifest(&[("alpha", simple("1.0")), ("beta", simple("1.0"))]);
    let need = CargoManifest::get_need_install_dependency_manifest(&a, &b, &Vec::new());
    assert_eq!(need.len(), 1);
    assert_eq!(need.get_dependency("alpha"), Some(&simple("2.0")));
}

#[test]
fn need_install_reports_any_changed_detail_field() {
    let base_detail = CargoInstallDependencyDetail {
        version: Some("1.0".to_string()),
        git: Some("https://example.invalid/a.git".to_string()),
        features: Some(vec!["default".to_string()]),
        no_default_features: Some(false),
        ..Default::default()
    };
    let changes: Vec<CargoInstallDependencyDetail> = vec![
        CargoInstallDependencyDetail { version: Some("1.1".to_string()), ..base_detail.clone() },
        CargoInstallDependencyDetail {
            git: Some("https://example.invalid/b.git".to_string()),
            ..base_detail.clone()
        },
        CargoInstallDependencyDetail {
            features: Some(vec!["default".to_string(), "extra".to_string()]),
            ..base_detail.clone()
        },
        CargoInstallDependencyDetail { no_default_features: Some(true), ..base_detail.clone() },
        CargoInstallDependencyDetail { bins: Some(vec!["x".to_string()]), ..base_detail.clone() },
        CargoInstallDependencyDetail { tag: Some("v1".to_string()), ..base_detail.clone() },
    ];
    let cached = manifest(&[("tool", CargoInstallDependency::Detailed(base_detail.clone()))]);
    for changed in changes {
        let desired = manifest(&[("tool", CargoInstallDependency::Detailed(changed))]);
        let need =
            CargoManifest::get_need_install_dependency_manifest(&desired, &cached, &Vec::new());
        assert_eq!(need.len(), 1);
        assert!(need.get_dependency("tool").is_some());
    }
}

#[test]
fn need_install_ignores_derived_absolute_path() {
    let stored = CargoInstallDependencyDetail {
        path: Some("tools/app".to_string()),
        ..Default::default()
    };
    let fixed = stored.clone().fix("/project");
    assert_eq!(fixed.absolute_path, Some("/project/tools/app".to_string()));
    let desired = manifest(&[("tool", CargoInstallDependency::Detailed(fixed))]);
    let cached = manifest(&[("tool", CargoInstallDependency::Detailed(stored))]);
    let need = CargoManifest::get_need_install_dependency_manifest(&desired, &cached, &Vec::new());
    assert!(need.is_empty());
}

#[test]
fn need_install_reports_local_path_change() {
    let dep = CargoInstallDependency::Detailed(CargoInstallDependencyDetail {
        path: Some("tools/app".to_string()),
        ..Default::default()
    });
    let a = manifest(&[("tool", dep.clone())]);
    let b = manifest(&[("tool", dep)]);
    let changed = vec!["tool".to_string()];
    let need = CargoManifest::get_need_install_dependency_manifest(&a, &b, &changed);
    assert_eq!(need.len(), 1);
    assert!(need.get_dependency("tool").is_some());
}

#[test]
fn need_uninstall_subset_is_empty() {
    let a = manifest(&[("alpha", simple("1.0")), ("beta", simple("1.0"))]);
    let b = manifest(&[("alpha", simple("1.0"))]);
    let need = CargoManifest::get_need_uninstall_dependency_manifest(&a, &b);
    assert!(need.is_empty());
}

#[test]
fn need_uninstall_reports_removed_names() {
    let a = manifest(&[("alpha", simple("1.0")), ("beta", simple("1.0"))]);
    let b = manifest(&[("alpha", simple("1.0"))]);
    let need = CargoManifest::get_need_uninstall_dependency_manifest(&b, &a);
    assert_eq!(need.len(), 1);
    assert_eq!(need.get_dependency("beta"), Some(&simple("1.0")));
    assert_eq!(need.get_dependency("alpha"), None);
}

#[test]
fn ditect_difference_works() {
    let a = manifest(&[("alpha", simple("2.0")), ("beta", simple("1.0"))]);
    let b = manifest(&[("alpha", simple("1.0")), ("beta", simple("1.0"))]);
    assert!(a.ditect_difference(&b, "alpha", false));
    assert!(!a.ditect_difference(&b, "beta", false));
    assert!(a.ditect_difference(&b, "beta", true));
    assert!(!a.ditect_difference(&b, "gamma", false));
    let only_a = manifest(&[("gamma", simple("1.0"))]);
    assert!(only_a.ditect_difference(&b, "gamma", false));
}

#[test]
fn validate_accepts_valid_manifest() {
    let m = manifest(&[("alpha", simple("1.0")), ("beta", detailed_with_version("2.0"))]);
    assert!(m.validate().is_ok());
}

#[test]
fn validate_reports_each_invalid_dependency() {
    let invalid = CargoInstallDependency::Detailed(CargoInstallDependencyDetail::default());
    let m = manifest(&[
        ("bad-one", invalid.clone()),
        ("fine", simple("1.0")),
        ("bad-two", invalid),
    ]);
    match m.validate() {
        Ok(()) => panic!("expected validation failure"),
        Err(IsobinManifestError::MultiValidate(errs)) => {
            assert_eq!(errs.len(), 2);
            assert_eq!(errs[0].name, "bad-one");
            assert_eq!(errs[1].name, "bad-two");
            assert_eq!(errs[0].provider, ProviderKind::Cargo);
            assert_eq!(
                errs[0].message,
                "cargo dependency dependency should have version or path or git."
            );
        }
    }
}

#[test]
fn dependency_validate_requires_a_source() {
    assert!(simple("1.0").validate().is_ok());
    assert!(detailed_with_version("1.0").validate().is_ok());
    let path_only = CargoInstallDependency::Detailed(CargoInstallDependencyDetail {
        path: Some("tools/app".to_string()),
        ..Default::default()
    });
    assert!(path_only.validate().is_ok());
    let git_only = CargoInstallDependency::Detailed(CargoInstallDependencyDetail {
        git: Some("https://example.invalid/a.git".to_string()),
        ..Default::default()
    });
    assert!(git_only.validate().is_ok());
    let none = CargoInstallDependency::Detailed(CargoInstallDependencyDetail::default());
    assert_eq!(
        none.validate(),
        Err("cargo dependency dependency should have version or path or git.".to_string())
    );
}

#[test]
fn fix_resolves_relative_paths() {
    let m = manifest(&[
        (
            "rel",
            CargoInstallDependency::Detailed(CargoInstallDependencyDetail {
                path: Some("tools/app".to_string()),
                ..Default::default()
            }),
        ),
        (
            "abs",
            CargoInstallDependency::Detailed(CargoInstallDependencyDetail {
                path: Some("/elsewhere/app".to_string()),
                ..Default::default()
            }),
        ),
        ("plain", simple("1.0")),
    ]);
    let fixed = m.fix("/project");
    match fixed.get_dependency("rel") {
        Some(CargoInstallDependency::Detailed(d)) => {
            assert_eq!(d.absolute_path, Some("/project/tools/app".to_string()));
            assert_eq!(d.path, Some("tools/app".to_string()));
        }
        other => panic!("unexpected dependency: {:?}", other),
    }
    match fixed.get_dependency("abs") {
        Some(CargoInstallDependency::Detailed(d)) => {
            assert_eq!(d.absolute_path, Some("/elsewhere/app".to_string()));
        }
        other => panic!("unexpected dependency: {:?}", other),
    }
    assert_eq!(fixed.get_dependency("plain"), Some(&simple("1.0")));
}

#[test]
fn from_version_pins_only_the_version() {
    let d = CargoInstallDependencyDetail::from_version("3.1".to_string());
    assert_eq!(d.version, Some("3.1".to_string()));
    assert_eq!(d.path, None);
    assert_eq!(d.git, None);
    assert_eq!(d.bins, None);
    assert_eq!(d.absolute_path, None);
}

#[test]
fn cargo_helpers_track_sources_and_manifests() {
    let helpers = cargo_file_diff_helpers();
    assert!(helpers.is_target_file_name("main.rs"));
    assert!(helpers.is_target_file_name("Cargo.toml"));
    assert!(helpers.is_target_file_name("Cargo.lock"));
    assert!(!helpers.is_target_file_name("README.md"));
    assert!(!helpers.is_target_file_name("notes"));
    assert!(helpers.is_excluded_dir_name(".git"));
    assert!(helpers.is_excluded_dir_name("target"));
    assert!(!helpers.is_excluded_dir_name("src"));
}

fn signatures(entries: &[(&str, &str)]) -> StrMap<String> {
    let mut m = StrMap::new();
    for (path, sig) in entries {
        m.insert(path.to_string(), sig.to_string());
    }
    m
}

#[test]
fn check_need_build_in_path_detects_signature_changes() {
    let path_dep = CargoInstallDependency::Detailed(CargoInstallDependencyDetail {
        path: Some("tools/app".to_string()),
        ..Default::default()
    });
    let recorded = signatures(&[("src/main.rs", "sig-1"), ("Cargo.toml", "sig-2")]);
    let unchanged = signatures(&[("src/main.rs", "sig-1"), ("Cargo.toml", "sig-2")]);
    assert!(!check_need_build_in_path(&path_dep, &unchanged, &recorded));

    let edited = signatures(&[("src/main.rs", "sig-9"), ("Cargo.toml", "sig-2")]);
    assert!(check_need_build_in_path(&path_dep, &edited, &recorded));

    let extra = signatures(&[
        ("src/main.rs", "sig-1"),
        ("Cargo.toml", "sig-2"),
        ("src/new.rs", "sig-3"),
    ]);
    assert!(check_need_build_in_path(&path_dep, &extra, &recorded));

    let missing = signatures(&[("src/main.rs", "sig-1")]);
    assert!(check_need_build_in_path(&path_dep, &missing, &recorded));

    assert!(!check_need_build_in_path(&simple("1.0"), &edited, &recorded));
    let no_path = detailed_with_version("1.0");
    assert!(!check_need_build_in_path(&no_path, &edited, &recorded));
}
