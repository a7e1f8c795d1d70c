use cpm::error::{Argument, Category, Error, Fault, Limit};
use cpm::frequency::Frequency;
use cpm::policies::PolicyFile;

fn chars(s: &str) -> Vec<char> {
    s.chars().collect()
}

fn about(fault: Fault, subject: &str) -> String {
    Error::about(fault, &chars(subject)).message()
}

fn within(fault: Fault) -> String {
    Error::within(fault, "/sys/policy0").message()
}

#[test]
fn construction_failures_name_the_path() {
    assert_eq!(about(Fault::PathMissing, "/x"), "The provided path '/x' doesn't exist.");
    assert_eq!(about(Fault::NotADirectory, "/x"), "The provided path '/x' wasn't a directory.");
    assert_eq!(about(Fault::BadPolicyNumber, "1a"), "The policy number '1a' couldn't be parsed as a u32.");
    assert_eq!(about(Fault::NoPolicyDirs, "/x"), "No policy folders found in '/x'!");
    assert_eq!(about(Fault::NoPolicyFiles, "/x"), "No policy files found in '/x'!");
}

#[test]
fn attribute_failures_name_the_file() {
    assert_eq!(
        within(Fault::AttributeMissing(PolicyFile::scaling_governor)),
        "The policy file '/sys/policy0/scaling_governor' doesn't exist."
    );
    assert_eq!(
        within(Fault::AttributeUnreadable(PolicyFile::scaling_setspeed)),
        "Couldn't read policy file '/sys/policy0/scaling_setspeed'."
    );
    assert_eq!(
        about(Fault::Unwritable, "/sys/policy0/scaling_max_freq"),
        "Couldn't write to policy file '/sys/policy0/scaling_max_freq'."
    );
    assert_eq!(
        within(Fault::EmptyList(PolicyFile::scaling_available_governors)),
        "The list in policy file '/sys/policy0/scaling_available_governors' was empty."
    );
    assert_eq!(
        Error::new(Fault::NotANumber(PolicyFile::scaling_cur_freq), &chars("abc"), "/sys/policy0", Vec::new()).message(),
        "The policy file '/sys/policy0/scaling_cur_freq' holds 'abc', which is not a number."
    );
}

#[test]
fn parse_failures_name_the_text() {
    assert_eq!(
        about(Fault::MissingDelimiter, "2.5"),
        "Invalid frequency value '2.5' provided. Must be in the format of <min>:<max>, :<max>, or <min>:"
    );
    assert_eq!(about(Fault::NoBounds, ":"), "No frequency values provided in ':'.");
    assert_eq!(
        about(Fault::InvalidSuffix('x'), "2.5x"),
        "Invalid suffix 'x' provided for frequency value '2.5x'.\nValid suffixes are: g, m, k, h"
    );
    assert_eq!(about(Fault::InvalidNumber, "1.2.3"), "The value '1.2.3' is not a valid number.");
    assert_eq!(about(Fault::InvalidTarget, "abc"), "Invalid policy identifier 'abc' provided.");
    assert_eq!(
        about(Fault::InvertedRange { start: 3, end: 1 }, "3:1"),
        "The end policy number 1 must not be lower than the start policy number 3."
    );
    assert_eq!(about(Fault::MissingArgument(Argument::Verb), ""), "No arguments provided.");
    assert_eq!(about(Fault::MissingArgument(Argument::Target), ""), "No policy specified.");
    assert_eq!(about(Fault::MissingArgument(Argument::Attribute), ""), "No attribute specified.");
    assert_eq!(about(Fault::MissingArgument(Argument::Value), ""), "No value specified.");
}

#[test]
fn validation_failures_name_the_values() {
    let e = Error::new(
        Fault::NotAvailable(PolicyFile::scaling_governor),
        &chars("bogus"),
        "/sys/policy0",
        vec!["performance".to_string(), "powersave".to_string(), "schedutil".to_string()],
    );
    assert_eq!(
        e.message(),
        "The value 'bogus' isn't supported for '/sys/policy0/scaling_governor'.\nSupported values: performance, powersave, schedutil"
    );
    let e = Error::new(Fault::NotAvailable(PolicyFile::scaling_governor), &chars("b"), "/d", vec!["only".to_string()]);
    assert_eq!(e.message(), "The value 'b' isn't supported for '/d/scaling_governor'.\nSupported values: only");
    let bound = |limit: Limit| {
        within(Fault::OutOfBounds { attribute: PolicyFile::scaling_max_freq, limit, desired: 900_000, bound: 1_000_000 })
    };
    assert_eq!(
        bound(Limit::CurrentMin),
        "The desired /sys/policy0/scaling_max_freq frequency '0.90 GHz' is lower than the current scaling_min '1.00 GHz'"
    );
    assert_eq!(
        bound(Limit::CurrentMax),
        "The desired /sys/policy0/scaling_max_freq frequency '0.90 GHz' is higher than the current scaling_max '1.00 GHz'"
    );
    assert_eq!(
        bound(Limit::RatedMin),
        "The desired /sys/policy0/scaling_max_freq frequency '0.90 GHz' is lower than the minimum rated frequency '1.00 GHz'"
    );
    assert_eq!(
        bound(Limit::RatedMax),
        "The desired /sys/policy0/scaling_max_freq frequency '0.90 GHz' is higher than the maximum rated frequency '1.00 GHz'"
    );
    assert_eq!(
        about(Fault::Unrepresentable(Frequency::MHz(u64::MAX)), ""),
        "The frequency '18446744073709551615 MHz' is too large to be given in kilohertz."
    );
    assert_eq!(
        within(Fault::OutOfBounds {
            attribute: PolicyFile::scaling_min_freq,
            limit: Limit::RatedMax,
            desired: u64::MAX,
            bound: 0
        }),
        "The desired /sys/policy0/scaling_min_freq frequency '18446744073709.55 GHz' is higher than the maximum rated frequency '0.00 GHz'"
    );
}

#[test]
fn every_fault_has_its_class() {
    let f = PolicyFile::scaling_governor;
    for fault in [Fault::PathMissing, Fault::NotADirectory, Fault::BadPolicyNumber, Fault::NoPolicyDirs, Fault::NoPolicyFiles] {
        assert_eq!(fault.category(), Category::Construction);
    }
    for fault in [Fault::AttributeMissing(f), Fault::AttributeUnreadable(f), Fault::Unwritable] {
        assert_eq!(fault.category(), Category::AttributeIo);
    }
    for fault in [
        Fault::MissingDelimiter,
        Fault::NoBounds,
        Fault::InvalidSuffix('x'),
        Fault::InvalidNumber,
        Fault::InvalidTarget,
        Fault::InvertedRange { start: 1, end: 0 },
        Fault::MissingArgument(Argument::Verb),
        Fault::NotANumber(f),
    ] {
        assert_eq!(fault.category(), Category::Parse);
    }
    for fault in [
        Fault::EmptyList(f),
        Fault::NotAvailable(f),
        Fault::OutOfBounds { attribute: f, limit: Limit::RatedMax, desired: 1, bound: 0 },
        Fault::Unrepresentable(Frequency::MHz(u64::MAX)),
    ] {
        assert_eq!(fault.category(), Category::Validation);
    }
}

#[test]
fn failures_hold_their_parts() {
    let e = Error::about(Fault::InvalidNumber, &chars("x"));
    assert_eq!(e.subject, "x");
    assert_eq!(e.directory, "");
    assert!(e.allowed.is_empty());
    let e = Error::within(Fault::EmptyList(PolicyFile::scaling_governor), "/d");
    assert_eq!(e.subject, "");
    assert_eq!(e.directory, "/d");
    assert_eq!(e.category(), Category::Validation);
}
