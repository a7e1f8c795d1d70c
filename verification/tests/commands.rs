use cpm::argparse::{op_get, op_set, parse_arguments, query, Change, Query};
use cpm::error::{Argument, Category, Fault, Limit};
use cpm::frequency::{Frequency, GigaHertz};
use cpm::policies::{PolicyDir, PolicyFile};
use cpm::store::AttributeStore;

const ROOT: &str = "/sys/devices/system/cpu/cpufreq";

fn args(words: &[&str]) -> Vec<String> {
    words.iter().map(|w| w.to_string()).collect()
}

fn machine(numbers: &[u32]) -> AttributeStore {
    let mut store = AttributeStore::new();
    store.add_directory("/sys/devices/system/cpu", "cpufreq");
    for n in numbers {
        let name = format!("policy{}", n);
        let path = format!("{}/{}", ROOT, name);
        store.add_directory(ROOT, &name);
        store.add_file(&path, "cpuinfo_min_freq", "800000\n");
        store.add_file(&path, "cpuinfo_max_freq", "4000000\n");
        store.add_file(&path, "scaling_min_freq", "800000\n");
        store.add_file(&path, "scaling_max_freq", "4000000\n");
        store.add_file(&path, "scaling_cur_freq", "1200000\n");
        store.add_file(&path, "scaling_available_governors", "performance powersave\n");
        store.add_file(&path, "scaling_governor", "powersave\n");
        store.add_file(&path, "energy_performance_available_preferences", "default power\n");
        store.add_file(&path, "energy_performance_preference", "default\n");
    }
    store
}

fn fleet(store: &AttributeStore) -> Vec<PolicyDir> {
    PolicyDir::collect_from_dir(ROOT, store).unwrap()
}

fn khz(store: &AttributeStore, number: usize, file: PolicyFile) -> String {
    fleet(store)[number].read(store, file).unwrap()
}

#[test]
fn set_frequency_pair_on_two_domains() {
    let mut store = machine(&[0, 1]);
    op_set(fleet(&store), &args(&["0,1", "freq", "1.0:2.0"]), &mut store).unwrap();
    for d in fleet(&store) {
        assert_eq!(d.read_scaling_min_freq(&store).unwrap(), Frequency::KHz(1_000_000));
        assert_eq!(d.read_scaling_max_freq(&store).unwrap(), Frequency::KHz(2_000_000));
    }
    assert_eq!(store.writes(), 4);
    assert_eq!(store.written_path(0), format!("{}/policy0/scaling_min_freq", ROOT));
    assert_eq!(store.written_text(0), "1000000");
    assert_eq!(store.written_path(1), format!("{}/policy0/scaling_max_freq", ROOT));
    assert_eq!(store.written_text(1), "2000000");
    assert_eq!(store.written_path(2), format!("{}/policy1/scaling_min_freq", ROOT));
    assert_eq!(store.written_path(3), format!("{}/policy1/scaling_max_freq", ROOT));
}

#[test]
fn get_available_governors_of_all_domains() {
    let store = machine(&[0, 1, 2]);
    let lines = op_get(fleet(&store), &args(&["all", "gov", "avail"]), &store).unwrap();
    assert_eq!(
        lines,
        vec![
            "Policy 0 available governors...\n\n0.) - performance\n1.) - powersave\n",
            "--------------------",
            "Policy 1 available governors...\n\n0.) - performance\n1.) - powersave\n",
            "--------------------",
            "Policy 2 available governors...\n\n0.) - performance\n1.) - powersave\n",
        ]
    );
}

#[test]
fn set_only_one_bound() {
    let mut store = machine(&[0]);
    op_set(fleet(&store), &args(&["0", "freq", ":3.5g"]), &mut store).unwrap();
    assert_eq!(khz(&store, 0, PolicyFile::scaling_max_freq), "3500000");
    assert_eq!(khz(&store, 0, PolicyFile::scaling_min_freq), "800000\n");
    op_set(fleet(&store), &args(&["0", "FREQ", "2,500m:"]), &mut store).unwrap();
    assert_eq!(khz(&store, 0, PolicyFile::scaling_min_freq), "2500000");
    assert_eq!(store.writes(), 2);
}

#[test]
fn first_failure_ends_the_batch_and_keeps_what_was_done() {
    let mut store = machine(&[0, 1, 2]);
    let dirs = fleet(&store);
    dirs[1].write(&mut store, PolicyFile::scaling_max_freq, "900000").unwrap();
    let e = op_set(fleet(&store), &args(&["*", "freq", "1000000:"]), &mut store).unwrap_err();
    assert_eq!(
        e.fault,
        Fault::OutOfBounds {
            attribute: PolicyFile::scaling_min_freq,
            limit: Limit::CurrentMax,
            desired: 1_000_000,
            bound: 900_000
        }
    );
    assert_eq!(e.directory, format!("{}/policy1", ROOT));
    assert_eq!(khz(&store, 0, PolicyFile::scaling_min_freq), "1000000");
    assert_eq!(khz(&store, 1, PolicyFile::scaling_min_freq), "800000\n");
    assert_eq!(khz(&store, 2, PolicyFile::scaling_min_freq), "800000\n");
}

#[test]
fn refused_maximum_leaves_the_new_minimum() {
    let mut store = machine(&[0]);
    let e = op_set(fleet(&store), &args(&["0", "freq", "1g:5g"]), &mut store).unwrap_err();
    assert!(matches!(e.fault, Fault::OutOfBounds { limit: Limit::RatedMax, .. }));
    assert_eq!(khz(&store, 0, PolicyFile::scaling_min_freq), "1000000");
    assert_eq!(khz(&store, 0, PolicyFile::scaling_max_freq), "4000000\n");
}

#[test]
fn new_maximum_is_held_against_the_new_minimum() {
    let mut store = machine(&[0]);
    let e = op_set(fleet(&store), &args(&["0", "freq", "2g:1g"]), &mut store).unwrap_err();
    assert_eq!(
        e.fault,
        Fault::OutOfBounds {
            attribute: PolicyFile::scaling_max_freq,
            limit: Limit::CurrentMin,
            desired: 1_000_000,
            bound: 2_000_000
        }
    );
}

#[test]
fn set_governor_and_profile_on_every_domain() {
    let mut store = machine(&[0, 1]);
    op_set(fleet(&store), &args(&["all", "gov", "Performance"]), &mut store).unwrap();
    op_set(fleet(&store), &args(&["*", "PERF", "POWER"]), &mut store).unwrap();
    for d in fleet(&store) {
        assert_eq!(d.read_current_governor(&store).unwrap(), "performance");
        assert_eq!(d.read_current_perf_profile(&store).unwrap(), "power");
    }
    let e = op_set(fleet(&store), &args(&["1", "gov", "bogus"]), &mut store).unwrap_err();
    assert_eq!(e.fault, Fault::NotAvailable(PolicyFile::scaling_governor));
    assert_eq!(e.directory, format!("{}/policy1", ROOT));
}

#[test]
fn empty_selection_is_no_failure() {
    let mut store = machine(&[0, 1]);
    op_set(fleet(&store), &args(&["7", "freq", "1.0:2.0"]), &mut store).unwrap();
    op_set(fleet(&store), &args(&["7", "freq", "nonsense"]), &mut store).unwrap();
    op_set(fleet(&store), &args(&["5:9", "gov", "bogus"]), &mut store).unwrap();
    assert_eq!(store.writes(), 0);
    assert_eq!(op_get(fleet(&store), &args(&["7", "gov", "avail"]), &store).unwrap(), Vec::<String>::new());
}

#[test]
fn unknown_attribute_changes_nothing() {
    let mut store = machine(&[0]);
    op_set(fleet(&store), &args(&["0", "volume", "11"]), &mut store).unwrap();
    assert_eq!(store.writes(), 0);
}

#[test]
fn set_reports_what_is_wrong_with_its_arguments() {
    let mut store = machine(&[0]);
    let e = op_set(fleet(&store), &args(&[]), &mut store).unwrap_err();
    assert_eq!(e.fault, Fault::MissingArgument(Argument::Target));
    assert_eq!(e.category(), Category::Parse);
    let e = op_set(fleet(&store), &args(&["0"]), &mut store).unwrap_err();
    assert_eq!(e.fault, Fault::MissingArgument(Argument::Attribute));
    let e = op_set(fleet(&store), &args(&["0", "freq"]), &mut store).unwrap_err();
    assert_eq!(e.fault, Fault::MissingArgument(Argument::Value));
    let e = op_set(fleet(&store), &args(&["zero", "freq", "1:2"]), &mut store).unwrap_err();
    assert_eq!(e.fault, Fault::InvalidTarget);
    let e = op_set(fleet(&store), &args(&["3:1", "freq", "1:2"]), &mut store).unwrap_err();
    assert_eq!(e.fault, Fault::InvertedRange { start: 3, end: 1 });
    let e = op_set(fleet(&store), &args(&["0", "freq", "2.5"]), &mut store).unwrap_err();
    assert_eq!(e.fault, Fault::MissingDelimiter);
    let e = op_set(fleet(&store), &args(&["0", "freq", ":"]), &mut store).unwrap_err();
    assert_eq!(e.fault, Fault::NoBounds);
    let e = op_set(fleet(&store), &args(&["0", "freq", "1x:"]), &mut store).unwrap_err();
    assert_eq!(e.fault, Fault::InvalidSuffix('x'));
    let e = op_set(fleet(&store), &args(&["0", "freq", "18446744073709551615m:"]), &mut store).unwrap_err();
    assert_eq!(e.fault, Fault::Unrepresentable(Frequency::MHz(u64::MAX)));
    assert_eq!(e.category(), Category::Validation);
    assert_eq!(store.writes(), 0);
}

#[test]
fn get_reports_each_attribute() {
    let store = machine(&[3]);
    let get = |attribute: &str, selector: &str| {
        op_get(fleet(&store), &args(&["3", attribute, selector]), &store).unwrap()
    };
    assert_eq!(get("freq", "min"), vec!["Policy 3 scaling min frequency: 800000 KHz"]);
    assert_eq!(get("freq", "max"), vec!["Policy 3 scaling max frequency: 4000000 KHz"]);
    assert_eq!(get("freq", "current"), vec!["Policy 3 current frequency: 1200000 KHz"]);
    assert_eq!(get("FREQ", "Curr"), vec!["Policy 3 current frequency: 1200000 KHz"]);
    assert_eq!(get("gov", "current"), vec!["Policy 3 current governor: powersave\n"]);
    assert_eq!(get("gov", "curr"), vec!["Policy 3 current governor: powersave\n"]);
    assert_eq!(
        get("gov", "available"),
        vec!["Policy 3 available governors...\n\n0.) - performance\n1.) - powersave\n"]
    );
    assert_eq!(
        get("perf", "avail"),
        vec!["Policy 3 available performance profiles...\n\n0.) - default\n1.) - power\n"]
    );
    assert_eq!(get("perf", "current"), vec!["Policy 3 current performance profile: default\n"]);
}

#[test]
fn unknown_selector_gives_no_line() {
    let store = machine(&[0, 1, 2]);
    let nothing = Vec::<String>::new();
    assert_eq!(op_get(fleet(&store), &args(&["all", "freq", "avail"]), &store).unwrap(), nothing);
    assert_eq!(op_get(fleet(&store), &args(&["*", "gov", "bogus"]), &store).unwrap(), nothing);
    assert_eq!(op_get(fleet(&store), &args(&["0", "gov", "max"]), &store).unwrap(), nothing);
    assert_eq!(op_get(fleet(&store), &args(&["0:2", "temp", "current"]), &store).unwrap(), nothing);
    assert_eq!(op_get(fleet(&store), &args(&["0,1", "perf", "min"]), &store).unwrap(), nothing);
}

#[test]
fn unknown_selector_reads_no_attribute() {
    let mut store = AttributeStore::new();
    store.add_directory("/sys/devices/system/cpu", "cpufreq");
    store.add_directory(ROOT, "policy0");
    store.add_directory(ROOT, "policy1");
    assert_eq!(
        op_get(fleet(&store), &args(&["all", "gov", "bogus"]), &store).unwrap(),
        Vec::<String>::new()
    );
    assert_eq!(
        op_get(fleet(&store), &args(&["all", "gov", "curr"]), &store).unwrap_err().fault,
        Fault::AttributeMissing(PolicyFile::scaling_governor)
    );
}

#[test]
fn selector_is_read_before_the_query() {
    let store = machine(&[0, 1]);
    let e = op_get(fleet(&store), &args(&["x", "gov", "bogus"]), &store).unwrap_err();
    assert_eq!(e.fault, Fault::InvalidTarget);
    let e = op_get(fleet(&store), &args(&["3:1", "temp", "max"]), &store).unwrap_err();
    assert_eq!(e.fault, Fault::InvertedRange { start: 3, end: 1 });
}

#[test]
fn get_follows_the_order_of_the_selection() {
    let store = machine(&[0, 1, 2]);
    let lines = op_get(fleet(&store), &args(&["2,0", "freq", "max"]), &store).unwrap();
    assert_eq!(
        lines,
        vec![
            "Policy 2 scaling max frequency: 4000000 KHz",
            "--------------------",
            "Policy 0 scaling max frequency: 4000000 KHz",
        ]
    );
}

#[test]
fn get_fails_as_a_whole() {
    let mut store = machine(&[0]);
    store.add_directory(ROOT, "policy1");
    let e = op_get(fleet(&store), &args(&["all", "gov", "curr"]), &store).unwrap_err();
    assert_eq!(e.fault, Fault::AttributeMissing(PolicyFile::scaling_governor));
    assert_eq!(e.directory, format!("{}/policy1", ROOT));
    let e = op_get(fleet(&store), &args(&["all"]), &store).unwrap_err();
    assert_eq!(e.fault, Fault::MissingArgument(Argument::Attribute));
    let e = op_get(fleet(&store), &args(&[]), &store).unwrap_err();
    assert_eq!(e.fault, Fault::MissingArgument(Argument::Target));
    let e = op_get(fleet(&store), &args(&["0", "gov"]), &store).unwrap_err();
    assert_eq!(e.fault, Fault::MissingArgument(Argument::Value));
    let e = op_get(fleet(&store), &args(&["x", "gov", "curr"]), &store).unwrap_err();
    assert_eq!(e.fault, Fault::InvalidTarget);
}

#[test]
fn verbs_are_routed() {
    let mut store = machine(&[0, 1]);
    let lines = parse_arguments(fleet(&store), &args(&["set", "0,1", "freq", "1.0:2.0"]), &mut store).unwrap();
    assert_eq!(lines, Vec::<String>::new());
    assert_eq!(khz(&store, 1, PolicyFile::scaling_max_freq), "2000000");
    let lines = parse_arguments(fleet(&store), &args(&["GET", "1", "freq", "min"]), &mut store).unwrap();
    assert_eq!(lines, vec!["Policy 1 scaling min frequency: 1000000 KHz"]);
    let lines = parse_arguments(fleet(&store), &args(&["frobnicate", "1"]), &mut store).unwrap();
    assert_eq!(lines, vec!["Unrecognized: frobnicate"]);
    let e = parse_arguments(fleet(&store), &args(&[]), &mut store).unwrap_err();
    assert_eq!(e.fault, Fault::MissingArgument(Argument::Verb));
    let e = parse_arguments(fleet(&store), &args(&["set"]), &mut store).unwrap_err();
    assert_eq!(e.fault, Fault::MissingArgument(Argument::Target));
    let e = parse_arguments(fleet(&store), &args(&["Set", "0", "gov", "bogus"]), &mut store).unwrap_err();
    assert_eq!(e.fault, Fault::NotAvailable(PolicyFile::scaling_governor));
}

#[test]
fn selectors_and_attributes_name_queries() {
    assert_eq!(query("freq", "min"), Some(Query::MinFrequency));
    assert_eq!(query("freq", "MAX"), Some(Query::MaxFrequency));
    assert_eq!(query("Freq", "current"), Some(Query::CurrentFrequency));
    assert_eq!(query("gov", "avail"), Some(Query::AvailableGovernors));
    assert_eq!(query("gov", "curr"), Some(Query::CurrentGovernor));
    assert_eq!(query("perf", "available"), Some(Query::AvailableProfiles));
    assert_eq!(query("perf", "CURRENT"), Some(Query::CurrentProfile));
    assert_eq!(query("freq", "available"), None);
    assert_eq!(query("gov", "min"), None);
    assert_eq!(query("temp", "current"), None);
}

#[test]
fn changes_are_read_and_applied() {
    assert_eq!(Change::of("freq", "1k:2k", true).unwrap(), Change::Bounds(Some(Frequency::KHz(1)), Some(Frequency::KHz(2))));
    assert_eq!(Change::of("freq", "garbage", false).unwrap(), Change::Nothing);
    assert_eq!(Change::of("Gov", "Performance", false).unwrap(), Change::Governor("Performance".to_string()));
    assert_eq!(Change::of("perf", "power", true).unwrap(), Change::Profile("power".to_string()));
    assert_eq!(Change::of("other", "x", true).unwrap(), Change::Nothing);
    let mut store = machine(&[0]);
    let dir = fleet(&store).remove(0);
    Change::Bounds(None, Some(Frequency::GHz(GigaHertz::new(3, 0)))).apply(&dir, &mut store).unwrap();
    assert_eq!(dir.read_scaling_max_freq(&store).unwrap(), Frequency::KHz(3_000_000));
    Change::Nothing.apply(&dir, &mut store).unwrap();
    assert_eq!(store.writes(), 1);
    assert_eq!(Query::MaxFrequency.answer(&dir, &store).unwrap(), "Policy 0 scaling max frequency: 3000000 KHz");
}

#[test]
fn domains_with_one_number_are_both_visited() {
    let mut store = machine(&[1]);
    let path = format!("{}/policy01", ROOT);
    store.add_directory(ROOT, "policy01");
    store.add_file(&path, "scaling_available_governors", "performance\n");
    store.add_file(&path, "scaling_governor", "x\n");
    op_set(fleet(&store), &args(&["1", "gov", "performance"]), &mut store).unwrap();
    assert_eq!(store.writes(), 2);
    assert_eq!(store.written_path(0), format!("{}/policy1/scaling_governor", ROOT));
    assert_eq!(store.written_path(1), format!("{}/policy01/scaling_governor", ROOT));
}
