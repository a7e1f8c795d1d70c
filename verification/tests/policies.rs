use cpm::error::{Category, Fault, Limit};
use cpm::frequency::{Frequency, GigaHertz};
use cpm::policies::{policy_name, PolicyDir, PolicyFile};
use cpm::store::{AttributeStore, EntryKind};

const ROOT: &str = "/sys/devices/system/cpu/cpufreq";

fn chars(s: &str) -> Vec<char> {
    s.chars().collect()
}

fn domain(store: &mut AttributeStore, name: &str, files: &[(&str, &str)]) -> String {
    store.add_directory(ROOT, name);
    let path = format!("{}/{}", ROOT, name);
    for (file, text) in files {
        store.add_file(&path, file, text);
    }
    path
}

fn bounded(rated_min: &str, scaling_min: &str, scaling_max: &str, rated_max: &str) -> (AttributeStore, PolicyDir) {
    let mut store = AttributeStore::new();
    store.add_directory("/sys/devices/system/cpu", "cpufreq");
    let path = domain(
        &mut store,
        "policy0",
        &[
            ("cpuinfo_min_freq", rated_min),
            ("cpuinfo_max_freq", rated_max),
            ("scaling_min_freq", scaling_min),
            ("scaling_max_freq", scaling_max),
            ("scaling_available_governors", "performance powersave\n"),
            ("scaling_governor", "powersave\n"),
            ("energy_performance_available_preferences", "default performance balance_performance power\n"),
            ("energy_performance_preference", "default\n"),
        ],
    );
    let dir = PolicyDir::from(&path, &store).unwrap();
    (store, dir)
}

fn usual() -> (AttributeStore, PolicyDir) {
    bounded("800000\n", "1000000\n", "4000000\n", "4000000\n")
}

#[test]
fn maximum_below_the_current_minimum_is_refused() {
    let (mut store, dir) = usual();
    let e = dir.set_scaling_max_freq(&mut store, &Frequency::KHz(900_000)).unwrap_err();
    assert_eq!(
        e.fault,
        Fault::OutOfBounds {
            attribute: PolicyFile::scaling_max_freq,
            limit: Limit::CurrentMin,
            desired: 900_000,
            bound: 1_000_000
        }
    );
    assert_eq!(e.category(), Category::Validation);
    assert_eq!(e.directory, dir.full_path);
    assert_eq!(store.writes(), 0);
    assert_eq!(dir.read_scaling_max_freq(&store).unwrap(), Frequency::KHz(4_000_000));
}

#[test]
fn maximum_above_the_rated_maximum_is_refused() {
    let (mut store, dir) = usual();
    let e = dir.set_scaling_max_freq(&mut store, &Frequency::KHz(4_500_000)).unwrap_err();
    assert_eq!(
        e.fault,
        Fault::OutOfBounds {
            attribute: PolicyFile::scaling_max_freq,
            limit: Limit::RatedMax,
            desired: 4_500_000,
            bound: 4_000_000
        }
    );
    assert_eq!(store.writes(), 0);
}

#[test]
fn maximum_within_the_bounds_is_written_and_read_back() {
    let (mut store, dir) = usual();
    dir.set_scaling_max_freq(&mut store, &Frequency::KHz(2_000_000)).unwrap();
    assert_eq!(dir.read_scaling_max_freq(&store).unwrap(), Frequency::KHz(2_000_000));
    assert_eq!(dir.read(&store, PolicyFile::scaling_max_freq).unwrap(), "2000000");
    assert_eq!(store.writes(), 1);
    assert_eq!(store.written_path(0), format!("{}/policy0/scaling_max_freq", ROOT));
    assert_eq!(store.written_text(0), "2000000");
    assert_eq!(dir.read_scaling_min_freq(&store).unwrap(), Frequency::KHz(1_000_000));
}

#[test]
fn maximum_below_the_rated_minimum_is_refused() {
    let (mut store, dir) = bounded("800000", "500000", "4000000", "4000000");
    let e = dir.set_scaling_max_freq(&mut store, &Frequency::KHz(600_000)).unwrap_err();
    assert_eq!(
        e.fault,
        Fault::OutOfBounds {
            attribute: PolicyFile::scaling_max_freq,
            limit: Limit::RatedMin,
            desired: 600_000,
            bound: 800_000
        }
    );
}

#[test]
fn maximum_at_either_bound_is_accepted() {
    let (mut store, dir) = usual();
    dir.set_scaling_max_freq(&mut store, &Frequency::KHz(1_000_000)).unwrap();
    assert_eq!(dir.read_scaling_max_freq(&store).unwrap(), Frequency::KHz(1_000_000));
    dir.set_scaling_max_freq(&mut store, &Frequency::KHz(4_000_000)).unwrap();
    assert_eq!(dir.read_scaling_max_freq(&store).unwrap(), Frequency::KHz(4_000_000));
}

#[test]
fn maximum_is_given_in_any_unit() {
    let (mut store, dir) = usual();
    dir.set_scaling_max_freq(&mut store, &Frequency::GHz(GigaHertz::new(2, 500))).unwrap();
    assert_eq!(dir.read_scaling_max_freq(&store).unwrap(), Frequency::KHz(2_500_000));
    dir.set_scaling_max_freq(&mut store, &Frequency::MHz(3_000)).unwrap();
    assert_eq!(dir.read_scaling_max_freq(&store).unwrap(), Frequency::KHz(3_000_000));
    dir.set_scaling_max_freq(&mut store, &Frequency::Hz(1_999_999_999)).unwrap();
    assert_eq!(dir.read_scaling_max_freq(&store).unwrap(), Frequency::KHz(1_999_999));
}

#[test]
fn minimum_is_checked_against_the_mirrored_bounds() {
    let (mut store, dir) = bounded("800000", "1000000", "3000000", "4000000");
    let e = dir.set_scaling_min_freq(&mut store, &Frequency::KHz(3_500_000)).unwrap_err();
    assert_eq!(
        e.fault,
        Fault::OutOfBounds {
            attribute: PolicyFile::scaling_min_freq,
            limit: Limit::CurrentMax,
            desired: 3_500_000,
            bound: 3_000_000
        }
    );
    let e = dir.set_scaling_min_freq(&mut store, &Frequency::KHz(700_000)).unwrap_err();
    assert_eq!(
        e.fault,
        Fault::OutOfBounds {
            attribute: PolicyFile::scaling_min_freq,
            limit: Limit::RatedMin,
            desired: 700_000,
            bound: 800_000
        }
    );
    dir.set_scaling_min_freq(&mut store, &Frequency::KHz(2_000_000)).unwrap();
    assert_eq!(dir.read_scaling_min_freq(&store).unwrap(), Frequency::KHz(2_000_000));
    assert_eq!(dir.read_scaling_max_freq(&store).unwrap(), Frequency::KHz(3_000_000));
}

#[test]
fn minimum_above_the_rated_maximum_is_refused() {
    let (mut store, dir) = bounded("800000", "1000000", "5000000", "4000000");
    let e = dir.set_scaling_min_freq(&mut store, &Frequency::KHz(4_500_000)).unwrap_err();
    assert_eq!(
        e.fault,
        Fault::OutOfBounds {
            attribute: PolicyFile::scaling_min_freq,
            limit: Limit::RatedMax,
            desired: 4_500_000,
            bound: 4_000_000
        }
    );
}

#[test]
fn setting_both_bounds_depends_on_the_order() {
    let (mut store, dir) = bounded("800000", "1000000", "2000000", "4000000");
    let e = dir.set_scaling_min_freq(&mut store, &Frequency::KHz(3_000_000)).unwrap_err();
    assert!(matches!(e.fault, Fault::OutOfBounds { limit: Limit::CurrentMax, .. }));
    dir.set_scaling_max_freq(&mut store, &Frequency::KHz(3_500_000)).unwrap();
    dir.set_scaling_min_freq(&mut store, &Frequency::KHz(3_000_000)).unwrap();
    assert_eq!(dir.read_scaling_min_freq(&store).unwrap(), Frequency::KHz(3_000_000));
    assert_eq!(dir.read_scaling_max_freq(&store).unwrap(), Frequency::KHz(3_500_000));
}

#[test]
fn first_unreadable_bound_decides_the_failure() {
    let mut store = AttributeStore::new();
    let path = domain(&mut store, "policy0", &[("scaling_min_freq", "1000000"), ("scaling_max_freq", "2000000")]);
    let dir = PolicyDir::from(&path, &store).unwrap();
    let e = dir.set_scaling_max_freq(&mut store, &Frequency::KHz(900_000)).unwrap_err();
    assert!(matches!(e.fault, Fault::OutOfBounds { limit: Limit::CurrentMin, .. }));
    let e = dir.set_scaling_max_freq(&mut store, &Frequency::KHz(1_500_000)).unwrap_err();
    assert_eq!(e.fault, Fault::AttributeMissing(PolicyFile::cpuinfo_max_freq));
    assert_eq!(e.category(), Category::AttributeIo);
    assert_eq!(e.directory, path);
}

#[test]
fn unknown_governor_is_refused() {
    let (mut store, dir) = usual();
    let e = dir.set_governor(&mut store, "bogus").unwrap_err();
    assert_eq!(e.fault, Fault::NotAvailable(PolicyFile::scaling_governor));
    assert_eq!(e.subject, "bogus");
    assert_eq!(e.allowed, vec!["performance".to_string(), "powersave".to_string()]);
    assert_eq!(e.category(), Category::Validation);
    assert_eq!(dir.read_current_governor(&store).unwrap(), "powersave\n");
    assert_eq!(store.writes(), 0);
}

#[test]
fn governor_in_another_case_is_set_in_lower_case() {
    let (mut store, dir) = usual();
    dir.set_governor(&mut store, "PERFORMANCE").unwrap();
    assert_eq!(dir.read_current_governor(&store).unwrap(), "performance");
    dir.set_governor(&mut store, "PowerSave").unwrap();
    assert_eq!(dir.read_current_governor(&store).unwrap(), "powersave");
    assert_eq!(store.writes(), 2);
}

#[test]
fn allowed_list_is_compared_in_lower_case_too() {
    let mut store = AttributeStore::new();
    let path = domain(
        &mut store,
        "policy0",
        &[("scaling_available_governors", "Performance OnDemand"), ("scaling_governor", "x")],
    );
    let dir = PolicyDir::from(&path, &store).unwrap();
    dir.set_governor(&mut store, "ondemand").unwrap();
    assert_eq!(dir.read_current_governor(&store).unwrap(), "ondemand");
    let e = dir.set_governor(&mut store, "schedutil").unwrap_err();
    assert_eq!(e.allowed, vec!["Performance".to_string(), "OnDemand".to_string()]);
}

#[test]
fn performance_profile_is_checked_and_set() {
    let (mut store, dir) = usual();
    let e = dir.set_perf_profile(&mut store, "bogus").unwrap_err();
    assert_eq!(e.fault, Fault::NotAvailable(PolicyFile::energy_performance_preference));
    dir.set_perf_profile(&mut store, "Balance_Performance").unwrap();
    assert_eq!(dir.read_current_perf_profile(&store).unwrap(), "balance_performance");
    assert_eq!(
        dir.read_available_perf_profiles(&store).unwrap(),
        vec!["default", "performance", "balance_performance", "power"]
    );
}

#[test]
fn available_governors_are_the_words_of_the_file() {
    let (store, dir) = usual();
    assert_eq!(dir.read_available_governors(&store).unwrap(), vec!["performance", "powersave"]);
}

#[test]
fn empty_list_is_told_apart_from_a_missing_file() {
    let mut store = AttributeStore::new();
    let path = domain(&mut store, "policy0", &[("scaling_available_governors", " \n")]);
    let dir = PolicyDir::from(&path, &store).unwrap();
    let e = dir.read_available_governors(&store).unwrap_err();
    assert_eq!(e.fault, Fault::EmptyList(PolicyFile::scaling_available_governors));
    assert_eq!(e.category(), Category::Validation);
    let e = dir.read_available_perf_profiles(&store).unwrap_err();
    assert_eq!(e.fault, Fault::AttributeMissing(PolicyFile::energy_performance_available_preferences));
    let e = dir.set_governor(&mut store, "x").unwrap_err();
    assert_eq!(e.fault, Fault::EmptyList(PolicyFile::scaling_available_governors));
}

#[test]
fn governor_needs_a_file_to_write_to() {
    let mut store = AttributeStore::new();
    let path = domain(&mut store, "policy0", &[("scaling_available_governors", "performance")]);
    let dir = PolicyDir::from(&path, &store).unwrap();
    let e = dir.set_governor(&mut store, "performance").unwrap_err();
    assert_eq!(e.fault, Fault::AttributeMissing(PolicyFile::scaling_governor));
}

#[test]
fn reading_and_writing_need_a_regular_file() {
    let mut store = AttributeStore::new();
    let path = domain(&mut store, "policy0", &[("scaling_driver", "intel_pstate\n")]);
    store.add_unreadable_file(&path, "scaling_setspeed");
    store.add_directory(&path, "related_cpus");
    store.add_other(&path, "affected_cpus");
    let dir = PolicyDir::from(&path, &store).unwrap();
    assert_eq!(dir.read(&store, PolicyFile::scaling_driver).unwrap(), "intel_pstate\n");
    assert_eq!(
        dir.read(&store, PolicyFile::scaling_setspeed).unwrap_err().fault,
        Fault::AttributeUnreadable(PolicyFile::scaling_setspeed)
    );
    assert_eq!(
        dir.read(&store, PolicyFile::related_cpus).unwrap_err().fault,
        Fault::AttributeMissing(PolicyFile::related_cpus)
    );
    assert_eq!(
        dir.read(&store, PolicyFile::affected_cpus).unwrap_err().fault,
        Fault::AttributeMissing(PolicyFile::affected_cpus)
    );
    assert_eq!(
        dir.read(&store, PolicyFile::base_frequency).unwrap_err().fault,
        Fault::AttributeMissing(PolicyFile::base_frequency)
    );
    assert_eq!(
        dir.write(&mut store, PolicyFile::base_frequency, "1").unwrap_err().fault,
        Fault::AttributeMissing(PolicyFile::base_frequency)
    );
    assert_eq!(
        dir.write(&mut store, PolicyFile::related_cpus, "1").unwrap_err().fault,
        Fault::AttributeMissing(PolicyFile::related_cpus)
    );
    assert_eq!(store.writes(), 0);
    dir.write(&mut store, PolicyFile::scaling_setspeed, "1200000").unwrap();
    assert_eq!(
        dir.read(&store, PolicyFile::scaling_setspeed).unwrap_err().fault,
        Fault::AttributeUnreadable(PolicyFile::scaling_setspeed)
    );
    dir.write(&mut store, PolicyFile::scaling_driver, "other").unwrap();
    assert_eq!(dir.read(&store, PolicyFile::scaling_driver).unwrap(), "other");
    assert_eq!(store.writes(), 2);
    assert_eq!(store.written_text(0), "1200000");
    assert_eq!(store.written_path(1), format!("{}/scaling_driver", path));
}

#[test]
fn frequency_attributes_are_read_in_kilohertz() {
    let mut store = AttributeStore::new();
    let path = domain(
        &mut store,
        "policy0",
        &[
            ("base_frequency", "2400000\n"),
            ("cpuinfo_max_freq", " 4000000 "),
            ("cpuinfo_min_freq", "+800000"),
            ("scaling_cur_freq", "1234567\n"),
            ("scaling_max_freq", "abc\n"),
            ("scaling_min_freq", ""),
        ],
    );
    let dir = PolicyDir::from(&path, &store).unwrap();
    assert_eq!(dir.read_base_frequency(&store).unwrap(), Frequency::KHz(2_400_000));
    assert_eq!(dir.read_rated_max_freq(&store).unwrap(), Frequency::KHz(4_000_000));
    assert_eq!(dir.read_rated_min_freq(&store).unwrap(), Frequency::KHz(800_000));
    assert_eq!(dir.read_current_freq(&store).unwrap(), Frequency::KHz(1_234_567));
    let e = dir.read_scaling_max_freq(&store).unwrap_err();
    assert_eq!(e.fault, Fault::NotANumber(PolicyFile::scaling_max_freq));
    assert_eq!(e.subject, "abc");
    assert_eq!(e.directory, path);
    assert_eq!(e.category(), Category::Parse);
    let e = dir.read_scaling_min_freq(&store).unwrap_err();
    assert_eq!(e.fault, Fault::NotANumber(PolicyFile::scaling_min_freq));
}

#[test]
fn policy_directory_is_made_from_its_name() {
    let mut store = AttributeStore::new();
    store.add_directory(ROOT, "policy12");
    store.add_directory(ROOT, "policypolicy3");
    store.add_directory(ROOT, "7");
    store.add_directory(ROOT, "policy");
    store.add_directory(ROOT, "policy1a");
    store.add_directory(ROOT, "policy4294967296");
    store.add_directory(ROOT, "policy4294967295");
    store.add_file(ROOT, "policy5", "");
    store.add_other(ROOT, "policy6");
    let dir = PolicyDir::from(&format!("{}/policy12", ROOT), &store).unwrap();
    assert_eq!(dir.policy_number, 12);
    assert_eq!(dir.dir_name, "policy12");
    assert_eq!(dir.full_path, format!("{}/policy12", ROOT));
    let e = PolicyDir::from(&format!("{}/policypolicy3", ROOT), &store).unwrap_err();
    assert_eq!(e.fault, Fault::BadPolicyNumber);
    assert_eq!(e.subject, "policy3");
    let e = PolicyDir::from(&format!("{}/7", ROOT), &store).unwrap_err();
    assert_eq!(e.fault, Fault::BadPolicyNumber);
    assert_eq!(e.subject, "7");
    assert_eq!(PolicyDir::from(&format!("{}/policy4294967295", ROOT), &store).unwrap().policy_number, u32::MAX);
    let e = PolicyDir::from(&format!("{}/policy", ROOT), &store).unwrap_err();
    assert_eq!(e.fault, Fault::BadPolicyNumber);
    assert_eq!(e.subject, "");
    assert_eq!(e.category(), Category::Construction);
    let e = PolicyDir::from(&format!("{}/policy1a", ROOT), &store).unwrap_err();
    assert_eq!(e.fault, Fault::BadPolicyNumber);
    assert_eq!(e.subject, "1a");
    let e = PolicyDir::from(&format!("{}/policy4294967296", ROOT), &store).unwrap_err();
    assert_eq!(e.fault, Fault::BadPolicyNumber);
    let e = PolicyDir::from(&format!("{}/policy5", ROOT), &store).unwrap_err();
    assert_eq!(e.fault, Fault::NotADirectory);
    let e = PolicyDir::from(&format!("{}/policy6", ROOT), &store).unwrap_err();
    assert_eq!(e.fault, Fault::NotADirectory);
    let e = PolicyDir::from(&format!("{}/policy99", ROOT), &store).unwrap_err();
    assert_eq!(e.fault, Fault::PathMissing);
    assert_eq!(e.subject, format!("{}/policy99", ROOT));
}

#[test]
fn fleet_is_built_in_the_order_of_the_listing() {
    let mut store = AttributeStore::new();
    store.add_directory("/sys/devices/system/cpu", "cpufreq");
    store.add_directory(ROOT, "policy4");
    store.add_file(ROOT, "boost", "1");
    store.add_directory(ROOT, "policy0");
    store.add_directory(ROOT, "governors");
    store.add_directory(ROOT, "Policy9");
    store.add_directory(ROOT, "policy2x");
    store.add_directory("/elsewhere", "policy8");
    store.add_directory(ROOT, "policy11");
    let fleet = PolicyDir::collect_from_dir(ROOT, &store).unwrap();
    let numbers: Vec<u32> = fleet.iter().map(|d| d.policy_number).collect();
    assert_eq!(numbers, vec![4, 0, 11]);
    assert_eq!(fleet[2].full_path, format!("{}/policy11", ROOT));
}

#[test]
fn one_bad_directory_fails_the_whole_fleet() {
    let mut store = AttributeStore::new();
    store.add_directory("/sys/devices/system/cpu", "cpufreq");
    store.add_directory(ROOT, "policy0");
    store.add_file(ROOT, "policy1", "");
    store.add_directory(ROOT, "policy2");
    let e = PolicyDir::collect_from_dir(ROOT, &store).unwrap_err();
    assert_eq!(e.fault, Fault::NotADirectory);
    assert_eq!(e.subject, format!("{}/policy1", ROOT));
    let mut store = AttributeStore::new();
    store.add_directory("/sys/devices/system/cpu", "cpufreq");
    store.add_directory(ROOT, "policy");
    assert_eq!(PolicyDir::collect_from_dir(ROOT, &store).unwrap_err().fault, Fault::BadPolicyNumber);
}

#[test]
fn fleet_needs_a_root_directory() {
    let mut store = AttributeStore::new();
    store.add_file("/sys", "cpufreq", "");
    assert_eq!(PolicyDir::collect_from_dir(ROOT, &store).unwrap_err().fault, Fault::PathMissing);
    assert_eq!(PolicyDir::collect_from_dir("/sys/cpufreq", &store).unwrap_err().fault, Fault::NotADirectory);
    store.add_directory("/sys/devices/system/cpu", "cpufreq");
    assert_eq!(PolicyDir::collect_from_dir(ROOT, &store).unwrap().len(), 0);
}

#[test]
fn listings_give_names_and_paths() {
    let mut store = AttributeStore::new();
    store.add_directory("/sys/devices/system/cpu", "cpufreq");
    assert_eq!(PolicyDir::get_policy_dirs(ROOT, &store).unwrap_err().fault, Fault::NoPolicyDirs);
    let path = domain(&mut store, "policy0", &[("scaling_governor", "x"), ("scaling_driver", "y")]);
    store.add_directory(ROOT, "policy_extra");
    store.add_file(ROOT, "policy3", "");
    store.add_directory(ROOT, "other");
    store.add_directory(&path, "stats");
    assert_eq!(
        PolicyDir::get_policy_dirs(ROOT, &store).unwrap(),
        vec![
            ("policy0".to_string(), format!("{}/policy0", ROOT)),
            ("policy_extra".to_string(), format!("{}/policy_extra", ROOT)),
        ]
    );
    assert_eq!(
        PolicyDir::get_policy_files(&path, &store).unwrap(),
        vec![
            ("scaling_governor".to_string(), format!("{}/scaling_governor", path)),
            ("scaling_driver".to_string(), format!("{}/scaling_driver", path)),
        ]
    );
    assert_eq!(
        PolicyDir::get_policy_files(&format!("{}/other", ROOT), &store).unwrap_err().fault,
        Fault::NoPolicyFiles
    );
    assert_eq!(PolicyDir::get_policy_files("/nowhere", &store).unwrap_err().fault, Fault::PathMissing);
    assert_eq!(
        PolicyDir::get_policy_files(&format!("{}/policy3", ROOT), &store).unwrap_err().fault,
        Fault::NotADirectory
    );
}

#[test]
fn policy_names_are_the_prefix_and_digits() {
    assert!(policy_name(&chars("policy0")));
    assert!(policy_name(&chars("policy")));
    assert!(policy_name(&chars("policy007")));
    assert!(!policy_name(&chars("policypolicy12")));
    assert!(!policy_name(&chars("policy3a")));
    assert!(!policy_name(&chars("policy-1")));
    assert!(!policy_name(&chars("xpolicy1")));
    assert!(!policy_name(&chars("policy1a")));
    assert!(!policy_name(&chars("12")));
    assert!(!policy_name(&chars("Policy1")));
}

#[test]
fn attribute_files_are_named_as_their_variants() {
    assert_eq!(PolicyFile::affected_cpus.name(), "affected_cpus");
    assert_eq!(PolicyFile::base_frequency.name(), "base_frequency");
    assert_eq!(PolicyFile::cpuinfo_max_freq.name(), "cpuinfo_max_freq");
    assert_eq!(PolicyFile::cpuinfo_min_freq.name(), "cpuinfo_min_freq");
    assert_eq!(PolicyFile::cpuinfo_transition_latency.name(), "cpuinfo_transition_latency");
    assert_eq!(
        PolicyFile::energy_performance_available_preferences.name(),
        "energy_performance_available_preferences"
    );
    assert_eq!(PolicyFile::energy_performance_preference.name(), "energy_performance_preference");
    assert_eq!(PolicyFile::related_cpus.name(), "related_cpus");
    assert_eq!(PolicyFile::scaling_available_governors.name(), "scaling_available_governors");
    assert_eq!(PolicyFile::scaling_cur_freq.name(), "scaling_cur_freq");
    assert_eq!(PolicyFile::scaling_driver.name(), "scaling_driver");
    assert_eq!(PolicyFile::scaling_governor.name(), "scaling_governor");
    assert_eq!(PolicyFile::scaling_max_freq.name(), "scaling_max_freq");
    assert_eq!(PolicyFile::scaling_min_freq.name(), "scaling_min_freq");
    assert_eq!(PolicyFile::scaling_setspeed.name(), "scaling_setspeed");
}

#[test]
fn first_entry_under_a_path_is_the_one_it_names() {
    let mut store = AttributeStore::new();
    store.add_file("/a", "x", "first");
    store.add_file("/a", "x", "second");
    store.add_file("/a/b", "c", "nested");
    store.add_file("/a", "b/c", "shadowed");
    assert_eq!(store.len(), 4);
    assert_eq!(store.find(&chars("/a/x")), Some(0));
    assert_eq!(store.find(&chars("/a/b/c")), Some(2));
    assert_eq!(store.find(&chars("/a/y")), None);
    assert_eq!(store.kind_at(0), EntryKind::File);
    assert!(store.readable_at(0));
    assert_eq!(store.text_at(1), chars("second"));
    assert_eq!(store.name_at(3), chars("b/c"));
    assert_eq!(store.parent_at(2), chars("/a/b"));
    store.replace(&chars("/a/x"), &chars("new"));
    assert_eq!(store.text_at(0), chars("new"));
    assert_eq!(store.text_at(1), chars("second"));
    assert_eq!(store.writes(), 1);
    assert_eq!(store.written_path(0), "/a/x");
    assert_eq!(store.written_text(0), "new");
}

#[test]
fn frequency_without_kilohertz_is_refused() {
    let (mut store, dir) = usual();
    let f = Frequency::MHz(u64::MAX / 1000 + 1);
    let e = dir.set_scaling_max_freq(&mut store, &f).unwrap_err();
    assert_eq!(e.fault, Fault::Unrepresentable(f));
    assert_eq!(e.directory, dir.full_path);
    let e = dir.set_scaling_min_freq(&mut store, &f).unwrap_err();
    assert_eq!(e.fault, Fault::Unrepresentable(f));
    assert_eq!(store.writes(), 0);
}

#[test]
fn malformed_policy_names_are_refused() {
    let mut store = AttributeStore::new();
    for name in ["policy", "policy3a", "policy-1", "policypolicy3", "policy4294967296", "policy+3", "Policy3", "3", ""] {
        store.add_directory(ROOT, name);
        let e = PolicyDir::from(&format!("{}/{}", ROOT, name), &store).unwrap_err();
        assert_eq!(e.fault, Fault::BadPolicyNumber, "{:?}", name);
        assert_eq!(e.category(), Category::Construction);
    }
    assert_eq!(PolicyDir::from(&format!("{}/policy3a", ROOT), &store).unwrap_err().subject, "3a");
    assert_eq!(PolicyDir::from(&format!("{}/policy-1", ROOT), &store).unwrap_err().subject, "-1");
    assert_eq!(PolicyDir::from(&format!("{}/Policy3", ROOT), &store).unwrap_err().subject, "Policy3");
    assert_eq!(PolicyDir::from(&format!("{}/policy", ROOT), &store).unwrap_err().subject, "");
}

#[test]
fn made_directory_is_named_by_its_number() {
    let mut store = AttributeStore::new();
    for (name, number) in [("policy0", 0u32), ("policy7", 7), ("policy007", 7), ("policy4294967295", u32::MAX)] {
        store.add_directory(ROOT, name);
        let dir = PolicyDir::from(&format!("{}/{}", ROOT, name), &store).unwrap();
        assert_eq!(dir.policy_number, number);
        assert_eq!(dir.dir_name, name);
        assert_eq!(dir.full_path, format!("{}/{}", ROOT, dir.dir_name));
        assert_eq!(dir.dir_name.strip_prefix("policy").unwrap().parse::<u32>().unwrap(), number);
    }
}

#[test]
fn listing_passes_over_a_repeated_prefix() {
    let mut store = AttributeStore::new();
    store.add_directory("/sys/devices/system/cpu", "cpufreq");
    store.add_directory(ROOT, "policy0");
    store.add_directory(ROOT, "policypolicy3");
    store.add_directory(ROOT, "7");
    store.add_directory(ROOT, "policy2");
    let fleet = PolicyDir::collect_from_dir(ROOT, &store).unwrap();
    let numbers: Vec<u32> = fleet.iter().map(|d| d.policy_number).collect();
    assert_eq!(numbers, vec![0, 2]);
}
