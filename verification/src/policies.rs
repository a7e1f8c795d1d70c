//! Policy directories and the attribute files in them: what a directory is
//! made from, how its attributes are read and written in the store, and the
//! checks that a new governor, profile or scaling frequency has to pass
//! before it is written.

use crate::error::{failure, failure_in, Error, ErrorView, Fault, Limit};
use crate::frequency::Frequency;
use crate::store::{join, join_path, AttributeStore, EntryKind, StoreView};
use crate::text::{
    all_digits, char_views, chars_of, decimal_text, digit_of, digits_value, has_prefix, is_digit,
    is_unsigned, lowered,
    parse_digits, parse_u64, render_decimal, same_chars, slice_of, split_words, starts_with_at,
    string_of, string_views, strings_of, to_lower, trim, trimmed, unsigned_value, words,
};
use vstd::prelude::*;

verus! {

/// The attribute files of a policy directory. Each variant is named as its
/// file is.
#[allow(non_camel_case_types)]
#[derive(Clone, Copy, Debug, PartialEq, Eq, Structural)]
pub enum PolicyFile {
    affected_cpus,
    base_frequency,
    cpuinfo_max_freq,
    cpuinfo_min_freq,
    cpuinfo_transition_latency,
    energy_performance_available_preferences,
    energy_performance_preference,
    related_cpus,
    scaling_available_governors,
    scaling_cur_freq,
    scaling_driver,
    scaling_governor,
    scaling_max_freq,
    scaling_min_freq,
    scaling_setspeed,
}

impl PolicyFile {
    /// The name of the attribute file.
    pub open spec fn file_name(self) -> Seq<char> {
        match self {
            PolicyFile::affected_cpus => "affected_cpus"@,
            PolicyFile::base_frequency => "base_frequency"@,
            PolicyFile::cpuinfo_max_freq => "cpuinfo_max_freq"@,
            PolicyFile::cpuinfo_min_freq => "cpuinfo_min_freq"@,
            PolicyFile::cpuinfo_transition_latency => "cpuinfo_transition_latency"@,
            PolicyFile::energy_performance_available_preferences => {
                "energy_performance_available_preferences"@
            },
            PolicyFile::energy_performance_preference => "energy_performance_preference"@,
            PolicyFile::related_cpus => "related_cpus"@,
            PolicyFile::scaling_available_governors => "scaling_available_governors"@,
            PolicyFile::scaling_cur_freq => "scaling_cur_freq"@,
            PolicyFile::scaling_driver => "scaling_driver"@,
            PolicyFile::scaling_governor => "scaling_governor"@,
            PolicyFile::scaling_max_freq => "scaling_max_freq"@,
            PolicyFile::scaling_min_freq => "scaling_min_freq"@,
            PolicyFile::scaling_setspeed => "scaling_setspeed"@,
        }
    }

    /// The name of the attribute file.
    pub fn name(&self) -> (s: &'static str)
        ensures
            s@ == self.file_name(),
    {
        match self {
            PolicyFile::affected_cpus => "affected_cpus",
            PolicyFile::base_frequency => "base_frequency",
            PolicyFile::cpuinfo_max_freq => "cpuinfo_max_freq",
            PolicyFile::cpuinfo_min_freq => "cpuinfo_min_freq",
            PolicyFile::cpuinfo_transition_latency => "cpuinfo_transition_latency",
            PolicyFile::energy_performance_available_preferences => {
                "energy_performance_available_preferences"
            },
            PolicyFile::energy_performance_preference => "energy_performance_preference",
            PolicyFile::related_cpus => "related_cpus",
            PolicyFile::scaling_available_governors => "scaling_available_governors",
            PolicyFile::scaling_cur_freq => "scaling_cur_freq",
            PolicyFile::scaling_driver => "scaling_driver",
            PolicyFile::scaling_governor => "scaling_governor",
            PolicyFile::scaling_max_freq => "scaling_max_freq",
            PolicyFile::scaling_min_freq => "scaling_min_freq",
            PolicyFile::scaling_setspeed => "scaling_setspeed",
        }
    }
}

/// One policy directory: its path, its name, and the number in its name.
#[derive(Clone, Debug, PartialEq, Eq)]
pub struct PolicyDir {
    pub full_path: String,
    pub dir_name: String,
    pub policy_number: u32,
}

/// A policy directory as contracts speak of it.
pub struct PolicyDirView {
    pub full_path: Seq<char>,
    pub dir_name: Seq<char>,
    pub policy_number: u32,
}

impl View for PolicyDir {
    type V = PolicyDirView;

    open spec fn view(&self) -> PolicyDirView {
        PolicyDirView {
            full_path: self.full_path@,
            dir_name: self.dir_name@,
            policy_number: self.policy_number,
        }
    }
}

/// The views of a sequence of policy directories.
pub open spec fn dir_views(dirs: Seq<PolicyDir>) -> Seq<PolicyDirView> {
    Seq::new(dirs.len(), |i: int| dirs[i]@)
}

/// The prefix of the name of a policy directory.
pub open spec fn policy_prefix() -> Seq<char> {
    seq!['p', 'o', 'l', 'i', 'c', 'y']
}

/// What follows the prefix in a name that begins with it. A name that does
/// not begin with the prefix is given whole.
pub open spec fn after_prefix(name: Seq<char>) -> Seq<char> {
    if has_prefix(name, policy_prefix()) {
        name.skip(6)
    } else {
        name
    }
}

/// The policy number in the name of a directory: the name must be the
/// prefix, once, and then one or more digits, with a value that fits in 32
/// bits. A name without the prefix holds no policy number, and neither does
/// one in which anything but digits follows the prefix, a second prefix
/// included.
pub open spec fn number_in_name(name: Seq<char>) -> Option<u32> {
    if has_prefix(name, policy_prefix()) && name.skip(6).len() > 0 && all_digits(name.skip(6))
        && digits_value(name.skip(6)) <= u32::MAX {
        Some(digits_value(name.skip(6)) as u32)
    } else {
        None
    }
}

/// Whether a name is that of a policy directory as a listing takes it: the
/// prefix, once, and after it nothing but digits.
pub open spec fn is_policy_name(name: Seq<char>) -> bool {
    has_prefix(name, policy_prefix()) && all_digits(name.skip(6))
}

/// The policy directory that a path gives: the path must name a directory
/// of the store whose name holds a policy number. The failure of a name that
/// holds none names what follows the prefix, or the whole name if it does
/// not begin with the prefix.
pub open spec fn made_from(store: StoreView, path: Seq<char>) -> Result<PolicyDirView, ErrorView> {
    if !store.holds(path) {
        Err(failure(Fault::PathMissing, path))
    } else if !store.entry(path).is_directory() {
        Err(failure(Fault::NotADirectory, path))
    } else {
        match number_in_name(store.entry(path).name) {
            Some(n) => Ok(
                PolicyDirView {
                    full_path: path,
                    dir_name: store.entry(path).name,
                    policy_number: n,
                },
            ),
            None => Err(failure(Fault::BadPolicyNumber, after_prefix(store.entry(path).name))),
        }
    }
}

/// The policy directories among the first `upto` entries of the store that
/// are listed in `root` under a policy name, in the order of the entries;
/// the first that cannot be made is the failure of them all.
pub open spec fn fleet_upto(store: StoreView, root: Seq<char>, upto: int) -> Result<
    Seq<PolicyDirView>,
    ErrorView,
>
    decreases upto,
{
    if upto <= 0 {
        Ok(seq![])
    } else {
        match fleet_upto(store, root, upto - 1) {
            Err(e) => Err(e),
            Ok(dirs) => if store.entries[upto - 1].parent == root && is_policy_name(
                store.entries[upto - 1].name,
            ) {
                match made_from(store, store.entries[upto - 1].path()) {
                    Ok(dir) => Ok(dirs.push(dir)),
                    Err(e) => Err(e),
                }
            } else {
                Ok(dirs)
            },
        }
    }
}

/// The policy directories of the directory `root`, which must be a
/// directory of the store.
pub open spec fn fleet(store: StoreView, root: Seq<char>) -> Result<Seq<PolicyDirView>, ErrorView> {
    if !store.holds(root) {
        Err(failure(Fault::PathMissing, root))
    } else if !store.entry(root).is_directory() {
        Err(failure(Fault::NotADirectory, root))
    } else {
        fleet_upto(store, root, store.entries.len() as int)
    }
}

/// The views of a sequence of pairs of strings.
pub open spec fn pair_views(pairs: Seq<(String, String)>) -> Seq<(Seq<char>, Seq<char>)> {
    Seq::new(pairs.len(), |i: int| (pairs[i].0@, pairs[i].1@))
}

/// The name and the path of each of the first `upto` entries of the store
/// that are listed in `parent` and are, if `policies` holds, directories
/// whose name begins with the prefix, and else regular files.
pub open spec fn listed_upto(store: StoreView, parent: Seq<char>, policies: bool, upto: int) -> Seq<
    (Seq<char>, Seq<char>),
>
    decreases upto,
{
    if upto <= 0 {
        seq![]
    } else if store.entries[upto - 1].parent == parent && (if policies {
        store.entries[upto - 1].is_directory() && has_prefix(
            store.entries[upto - 1].name,
            policy_prefix(),
        )
    } else {
        store.entries[upto - 1].is_file()
    }) {
        listed_upto(store, parent, policies, upto - 1).push(
            (store.entries[upto - 1].name, store.entries[upto - 1].path()),
        )
    } else {
        listed_upto(store, parent, policies, upto - 1)
    }
}

/// What listing a directory gives: the directory must be one of the store,
/// and must list one entry of the kind at least.
pub open spec fn listed(store: StoreView, parent: Seq<char>, policies: bool) -> Result<
    Seq<(Seq<char>, Seq<char>)>,
    ErrorView,
> {
    if !store.holds(parent) {
        Err(failure(Fault::PathMissing, parent))
    } else if !store.entry(parent).is_directory() {
        Err(failure(Fault::NotADirectory, parent))
    } else if listed_upto(store, parent, policies, store.entries.len() as int).len() == 0 {
        Err(
            failure(
                if policies {
                    Fault::NoPolicyDirs
                } else {
                    Fault::NoPolicyFiles
                },
                parent,
            ),
        )
    } else {
        Ok(listed_upto(store, parent, policies, store.entries.len() as int))
    }
}

/// Lists a directory of the store.
fn list(store: &AttributeStore, directory: &str, policies: bool) -> (r: Result<
    Vec<(String, String)>,
    Error,
>)
    ensures
        match r {
            Ok(pairs) => listed(store@, directory@, policies) == Ok::<
                Seq<(Seq<char>, Seq<char>)>,
                ErrorView,
            >(pair_views(pairs@)),
            Err(e) => listed(store@, directory@, policies) == Err::<
                Seq<(Seq<char>, Seq<char>)>,
                ErrorView,
            >(e@),
        },
{
    let root = chars_of(directory);
    let at = match store.find(&root) {
        Some(i) => i,
        None => {
            return Err(Error::about(Fault::PathMissing, &root));
        },
    };
    match store.kind_at(at) {
        EntryKind::Directory => {},
        _ => {
            return Err(Error::about(Fault::NotADirectory, &root));
        },
    }
    let prefix = prefix_chars();
    let mut pairs: Vec<(String, String)> = Vec::new();
    let mut i: usize = 0;
    assert(pair_views(pairs@) == Seq::<(Seq<char>, Seq<char>)>::empty());
    while i < store.len()
        invariant
            i <= store@.entries.len(),
            root@ == directory@,
            prefix@ == policy_prefix(),
            pair_views(pairs@) == listed_upto(store@, root@, policies, i as int),
        decreases store@.entries.len() - i,
    {
        let parent = store.parent_at(i);
        let name = store.name_at(i);
        assert(name@.skip(0) == name@);
        let wanted = if policies {
            match store.kind_at(i) {
                EntryKind::Directory => starts_with_at(&name, 0, &prefix),
                _ => false,
            }
        } else {
            match store.kind_at(i) {
                EntryKind::File => true,
                _ => false,
            }
        };
        if same_chars(&parent, &root) && wanted {
            let path = join_path(&parent, &name);
            let ghost before = pair_views(pairs@);
            pairs.push((string_of(&name), string_of(&path)));
            assert(pair_views(pairs@) == before.push((name@, path@)));
        }
        i = i + 1;
    }
    if pairs.len() == 0 {
        return Err(
            Error::about(
                if policies {
                    Fault::NoPolicyDirs
                } else {
                    Fault::NoPolicyFiles
                },
                &root,
            ),
        );
    }
    Ok(pairs)
}

/// The path of an attribute file of a directory.
pub open spec fn attribute_path(directory: Seq<char>, file: PolicyFile) -> Seq<char> {
    join(directory, file.file_name())
}

/// What reading an attribute gives: the content of the file, which must be
/// a regular file of the store that can be read.
pub open spec fn read_text(store: StoreView, directory: Seq<char>, file: PolicyFile) -> Result<
    Seq<char>,
    ErrorView,
> {
    if !store.holds_file(attribute_path(directory, file)) {
        Err(failure_in(Fault::AttributeMissing(file), directory))
    } else if !store.entry(attribute_path(directory, file)).readable {
        Err(failure_in(Fault::AttributeUnreadable(file), directory))
    } else {
        Ok(store.entry(attribute_path(directory, file)).text)
    }
}

/// What writing an attribute gives: the store with the content of the file
/// replaced, where the file is a regular file of the store.
pub open spec fn write_text(
    store: StoreView,
    directory: Seq<char>,
    file: PolicyFile,
    text: Seq<char>,
) -> Result<StoreView, ErrorView> {
    if !store.holds_file(attribute_path(directory, file)) {
        Err(failure_in(Fault::AttributeMissing(file), directory))
    } else {
        Ok(store.written(attribute_path(directory, file), text))
    }
}

/// What reading a list attribute gives: the words of the file, of which
/// there must be one at least.
pub open spec fn read_list(store: StoreView, directory: Seq<char>, file: PolicyFile) -> Result<
    Seq<Seq<char>>,
    ErrorView,
> {
    match read_text(store, directory, file) {
        Err(e) => Err(e),
        Ok(text) => if words(text).len() == 0 {
            Err(failure_in(Fault::EmptyList(file), directory))
        } else {
            Ok(words(text))
        },
    }
}

/// What reading a frequency attribute gives: the number of kilohertz that
/// the file holds, white space around it set aside.
pub open spec fn read_number(store: StoreView, directory: Seq<char>, file: PolicyFile) -> Result<
    u64,
    ErrorView,
> {
    match read_text(store, directory, file) {
        Err(e) => Err(e),
        Ok(text) => if is_unsigned(trimmed(text)) && unsigned_value(trimmed(text)) <= u64::MAX {
            Ok(unsigned_value(trimmed(text)) as u64)
        } else {
            Err(
                ErrorView {
                    fault: Fault::NotANumber(file),
                    subject: trimmed(text),
                    directory,
                    allowed: seq![],
                },
            )
        },
    }
}

/// Each text of a list folded to lower case.
pub open spec fn lowered_all(list: Seq<Seq<char>>) -> Seq<Seq<char>> {
    Seq::new(list.len(), |i: int| lowered(list[i]))
}

/// What choosing a value for an attribute gives. The allowed values are the
/// words of `list_file`. The candidate is allowed if, folded to lower case,
/// it is among them, each folded likewise; it is then written to
/// `value_file` in lower case. If it is not, the failure lists the allowed
/// values as the file holds them.
pub open spec fn chosen(
    store: StoreView,
    directory: Seq<char>,
    list_file: PolicyFile,
    value_file: PolicyFile,
    candidate: Seq<char>,
) -> Result<StoreView, ErrorView> {
    match read_list(store, directory, list_file) {
        Err(e) => Err(e),
        Ok(available) => if lowered_all(available).contains(lowered(candidate)) {
            write_text(store, directory, value_file, lowered(candidate))
        } else {
            Err(
                ErrorView {
                    fault: Fault::NotAvailable(value_file),
                    subject: candidate,
                    directory,
                    allowed: available,
                },
            )
        },
    }
}

/// The failure of a frequency on the wrong side of a bound.
pub open spec fn out_of_bounds(
    attribute: PolicyFile,
    limit: Limit,
    desired: u64,
    bound: u64,
    directory: Seq<char>,
) -> ErrorView {
    failure_in(Fault::OutOfBounds { attribute, limit, desired, bound }, directory)
}

/// What setting the scaling maximum to `desired` kilohertz gives. The
/// checks are made in this order, each against what the store holds now:
/// not below the scaling minimum, not above the rated maximum, not below
/// the rated minimum. Then the number is written in decimal digits.
pub open spec fn bounded_max(store: StoreView, directory: Seq<char>, desired: u64) -> Result<
    StoreView,
    ErrorView,
> {
    match read_number(store, directory, PolicyFile::scaling_min_freq) {
        Err(e) => Err(e),
        Ok(current) => if desired < current {
            Err(
                out_of_bounds(
                    PolicyFile::scaling_max_freq,
                    Limit::CurrentMin,
                    desired,
                    current,
                    directory,
                ),
            )
        } else {
            match read_number(store, directory, PolicyFile::cpuinfo_max_freq) {
                Err(e) => Err(e),
                Ok(rated_max) => if desired > rated_max {
                    Err(
                        out_of_bounds(
                            PolicyFile::scaling_max_freq,
                            Limit::RatedMax,
                            desired,
                            rated_max,
                            directory,
                        ),
                    )
                } else {
                    match read_number(store, directory, PolicyFile::cpuinfo_min_freq) {
                        Err(e) => Err(e),
                        Ok(rated_min) => if desired < rated_min {
                            Err(
                                out_of_bounds(
                                    PolicyFile::scaling_max_freq,
                                    Limit::RatedMin,
                                    desired,
                                    rated_min,
                                    directory,
                                ),
                            )
                        } else {
                            write_text(
                                store,
                                directory,
                                PolicyFile::scaling_max_freq,
                                decimal_text(desired as nat),
                            )
                        },
                    }
                },
            }
        },
    }
}

/// What setting the scaling minimum to `desired` kilohertz gives. The
/// checks are made in this order, each against what the store holds now:
/// not above the scaling maximum, not below the rated minimum, not above
/// the rated maximum. Then the number is written in decimal digits.
pub open spec fn bounded_min(store: StoreView, directory: Seq<char>, desired: u64) -> Result<
    StoreView,
    ErrorView,
> {
    match read_number(store, directory, PolicyFile::scaling_max_freq) {
        Err(e) => Err(e),
        Ok(current) => if desired > current {
            Err(
                out_of_bounds(
                    PolicyFile::scaling_min_freq,
                    Limit::CurrentMax,
                    desired,
                    current,
                    directory,
                ),
            )
        } else {
            match read_number(store, directory, PolicyFile::cpuinfo_min_freq) {
                Err(e) => Err(e),
                Ok(rated_min) => if desired < rated_min {
                    Err(
                        out_of_bounds(
                            PolicyFile::scaling_min_freq,
                            Limit::RatedMin,
                            desired,
                            rated_min,
                            directory,
                        ),
                    )
                } else {
                    match read_number(store, directory, PolicyFile::cpuinfo_max_freq) {
                        Err(e) => Err(e),
                        Ok(rated_max) => if desired > rated_max {
                            Err(
                                out_of_bounds(
                                    PolicyFile::scaling_min_freq,
                                    Limit::RatedMax,
                                    desired,
                                    rated_max,
                                    directory,
                                ),
                            )
                        } else {
                            write_text(
                                store,
                                directory,
                                PolicyFile::scaling_min_freq,
                                decimal_text(desired as nat),
                            )
                        },
                    }
                },
            }
        },
    }
}

/// The number of kilohertz that a frequency is set as.
pub open spec fn kilohertz(frequency: Frequency) -> u64 {
    frequency.as_khz()->KHz_0
}

/// The failure of a frequency that has no 64-bit number of kilohertz.
pub open spec fn unrepresentable(frequency: Frequency, directory: Seq<char>) -> ErrorView {
    failure_in(Fault::Unrepresentable(frequency), directory)
}

/// What setting the scaling maximum to a frequency gives: the frequency
/// must have a 64-bit number of kilohertz, which is then held against the
/// bounds and written.
pub open spec fn scaled_max(store: StoreView, directory: Seq<char>, frequency: Frequency) -> Result<
    StoreView,
    ErrorView,
> {
    if !frequency.khz_in_range() {
        Err(unrepresentable(frequency, directory))
    } else {
        bounded_max(store, directory, kilohertz(frequency))
    }
}

/// What setting the scaling minimum to a frequency gives: the frequency
/// must have a 64-bit number of kilohertz, which is then held against the
/// bounds and written.
pub open spec fn scaled_min(store: StoreView, directory: Seq<char>, frequency: Frequency) -> Result<
    StoreView,
    ErrorView,
> {
    if !frequency.khz_in_range() {
        Err(unrepresentable(frequency, directory))
    } else {
        bounded_min(store, directory, kilohertz(frequency))
    }
}

/// The characters of the prefix of the name of a policy directory.
fn prefix_chars() -> (r: Vec<char>)
    ensures
        r@ == policy_prefix(),
{
    let mut r: Vec<char> = Vec::new();
    r.push('p');
    r.push('o');
    r.push('l');
    r.push('i');
    r.push('c');
    r.push('y');
    r
}

/// What follows the prefix in a name, and whether the name begins with it.
fn split_prefix(name: &Vec<char>) -> (r: (bool, Vec<char>))
    ensures
        r.0 == has_prefix(name@, policy_prefix()),
        r.1@ == after_prefix(name@),
{
    let prefix = prefix_chars();
    assert(name@.skip(0) == name@);
    if starts_with_at(name, 0, &prefix) {
        (true, slice_of(name, 6, name.len()))
    } else {
        let whole = slice_of(name, 0, name.len());
        assert(name@.subrange(0, name.len() as int) == name@);
        (false, whole)
    }
}

/// Whether a name is that of a policy directory as a listing takes it.
pub fn policy_name(name: &Vec<char>) -> (r: bool)
    ensures
        r == is_policy_name(name@),
{
    let (prefixed, rest) = split_prefix(name);
    if !prefixed {
        return false;
    }
    let mut i: usize = 0;
    while i < rest.len()
        invariant
            i <= rest.len(),
            rest@ == name@.skip(6),
            has_prefix(name@, policy_prefix()),
            forall|j: int| 0 <= j < i ==> is_digit(#[trigger] rest@[j]),
        decreases rest.len() - i,
    {
        if digit_of(rest[i]).is_none() {
            assert(!is_digit(rest@[i as int]));
            return false;
        }
        i = i + 1;
    }
    true
}

impl PolicyDir {
    /// Makes the policy directory that `path` names in the store. The name
    /// of the directory must be the prefix `policy`, once, and the policy
    /// number in decimal digits: `policy3`, not `3` and not `policypolicy3`.
    pub fn from(path: &str, store: &AttributeStore) -> (r: Result<PolicyDir, Error>)
        ensures
            match r {
                Ok(dir) => made_from(store@, path@) == Ok::<PolicyDirView, ErrorView>(dir@),
                Err(e) => made_from(store@, path@) == Err::<PolicyDirView, ErrorView>(e@),
            },
    {
        let p = chars_of(path);
        PolicyDir::from_chars(&p, store)
    }

    fn from_chars(p: &Vec<char>, store: &AttributeStore) -> (r: Result<PolicyDir, Error>)
        ensures
            match r {
                Ok(dir) => made_from(store@, p@) == Ok::<PolicyDirView, ErrorView>(dir@),
                Err(e) => made_from(store@, p@) == Err::<PolicyDirView, ErrorView>(e@),
            },
    {
        let i = match store.find(p) {
            Some(i) => i,
            None => {
                return Err(Error::about(Fault::PathMissing, p));
            },
        };
        match store.kind_at(i) {
            EntryKind::Directory => {},
            _ => {
                return Err(Error::about(Fault::NotADirectory, p));
            },
        }
        let name = store.name_at(i);
        let (prefixed, rest) = split_prefix(&name);
        if !prefixed || rest.len() == 0 {
            return Err(Error::about(Fault::BadPolicyNumber, &rest));
        }
        assert(rest@.subrange(0, rest.len() as int) == rest@);
        match parse_digits(&rest, 0, rest.len()) {
            Some(n) => {
                if n <= 0xFFFF_FFFF {
                    Ok(
                        PolicyDir {
                            full_path: string_of(p),
                            dir_name: string_of(&name),
                            policy_number: n as u32,
                        },
                    )
                } else {
                    Err(Error::about(Fault::BadPolicyNumber, &rest))
                }
            },
            None => Err(Error::about(Fault::BadPolicyNumber, &rest)),
        }
    }

    /// Makes the policy directories of the directory `path`: one for each
    /// entry listed in it under a policy name, in the order of the listing.
    /// If one of them cannot be made, none is.
    pub fn collect_from_dir(path: &str, store: &AttributeStore) -> (r: Result<Vec<PolicyDir>, Error>)
        ensures
            match r {
                Ok(dirs) => fleet(store@, path@) == Ok::<Seq<PolicyDirView>, ErrorView>(
                    dir_views(dirs@),
                ),
                Err(e) => fleet(store@, path@) == Err::<Seq<PolicyDirView>, ErrorView>(e@),
            },
    {
        let root = chars_of(path);
        let at = match store.find(&root) {
            Some(i) => i,
            None => {
                return Err(Error::about(Fault::PathMissing, &root));
            },
        };
        match store.kind_at(at) {
            EntryKind::Directory => {},
            _ => {
                return Err(Error::about(Fault::NotADirectory, &root));
            },
        }
        let mut dirs: Vec<PolicyDir> = Vec::new();
        let mut i: usize = 0;
        assert(dir_views(dirs@) == Seq::<PolicyDirView>::empty());
        while i < store.len()
            invariant
                i <= store@.entries.len(),
                root@ == path@,
                store@.holds(root@),
                store@.entry(root@).is_directory(),
                fleet_upto(store@, root@, i as int) == Ok::<Seq<PolicyDirView>, ErrorView>(
                    dir_views(dirs@),
                ),
            decreases store@.entries.len() - i,
        {
            let parent = store.parent_at(i);
            let name = store.name_at(i);
            if same_chars(&parent, &root) && policy_name(&name) {
                let child = join_path(&parent, &name);
                assert(child@ == store@.entries[i as int].path());
                match PolicyDir::from_chars(&child, store) {
                    Ok(dir) => {
                        let ghost before = dir_views(dirs@);
                        dirs.push(dir);
                        assert(dir_views(dirs@) == before.push(dir@));
                    },
                    Err(e) => {
                        proof {
                            assert(fleet_upto(store@, root@, i + 1) == Err::<
                                Seq<PolicyDirView>,
                                ErrorView,
                            >(e@));
                            lemma_fleet_failure(store@, root@, i + 1);
                        }
                        return Err(e);
                    },
                }
            }
            i = i + 1;
        }
        Ok(dirs)
    }

    /// The name and the path of each directory that `root` lists under a
    /// name that begins with `policy`, in the order of the listing; there
    /// must be one at least.
    pub fn get_policy_dirs(root: &str, store: &AttributeStore) -> (r: Result<
        Vec<(String, String)>,
        Error,
    >)
        ensures
            match r {
                Ok(pairs) => listed(store@, root@, true) == Ok::<
                    Seq<(Seq<char>, Seq<char>)>,
                    ErrorView,
                >(pair_views(pairs@)),
                Err(e) => listed(store@, root@, true) == Err::<
                    Seq<(Seq<char>, Seq<char>)>,
                    ErrorView,
                >(e@),
            },
    {
        list(store, root, true)
    }

    /// The name and the path of each regular file that the directory
    /// `policy_dir` lists, in the order of the listing; there must be one at
    /// least.
    pub fn get_policy_files(policy_dir: &str, store: &AttributeStore) -> (r: Result<
        Vec<(String, String)>,
        Error,
    >)
        ensures
            match r {
                Ok(pairs) => listed(store@, policy_dir@, false) == Ok::<
                    Seq<(Seq<char>, Seq<char>)>,
                    ErrorView,
                >(pair_views(pairs@)),
                Err(e) => listed(store@, policy_dir@, false) == Err::<
                    Seq<(Seq<char>, Seq<char>)>,
                    ErrorView,
                >(e@),
            },
    {
        list(store, policy_dir, false)
    }

    /// Reads an attribute of the directory.
    pub fn read(&self, store: &AttributeStore, policy_file: PolicyFile) -> (r: Result<String, Error>)
        ensures
            match r {
                Ok(text) => read_text(store@, self@.full_path, policy_file) == Ok::<
                    Seq<char>,
                    ErrorView,
                >(text@),
                Err(e) => read_text(store@, self@.full_path, policy_file) == Err::<
                    Seq<char>,
                    ErrorView,
                >(e@),
            },
    {
        match self.read_chars(store, policy_file) {
            Ok(text) => Ok(string_of(&text)),
            Err(e) => Err(e),
        }
    }

    fn read_chars(&self, store: &AttributeStore, policy_file: PolicyFile) -> (r: Result<
        Vec<char>,
        Error,
    >)
        ensures
            match r {
                Ok(text) => read_text(store@, self@.full_path, policy_file) == Ok::<
                    Seq<char>,
                    ErrorView,
                >(text@),
                Err(e) => read_text(store@, self@.full_path, policy_file) == Err::<
                    Seq<char>,
                    ErrorView,
                >(e@),
            },
    {
        let directory = chars_of(self.full_path.as_str());
        let name = chars_of(policy_file.name());
        let path = join_path(&directory, &name);
        let i = match store.find(&path) {
            Some(i) => i,
            None => {
                return Err(
                    Error::within(Fault::AttributeMissing(policy_file), self.full_path.as_str()),
                );
            },
        };
        match store.kind_at(i) {
            EntryKind::File => {},
            _ => {
                return Err(
                    Error::within(Fault::AttributeMissing(policy_file), self.full_path.as_str()),
                );
            },
        }
        if !store.readable_at(i) {
            return Err(
                Error::within(Fault::AttributeUnreadable(policy_file), self.full_path.as_str()),
            );
        }
        Ok(store.text_at(i))
    }

    /// Replaces the content of an attribute of the directory by `contents`,
    /// whole.
    pub fn write(&self, store: &mut AttributeStore, policy_file: PolicyFile, contents: &str) -> (r:
        Result<(), Error>)
        ensures
            match r {
                Ok(_) => write_text(old(store)@, self@.full_path, policy_file, contents@) == Ok::<
                    StoreView,
                    ErrorView,
                >(final(store)@),
                Err(e) => write_text(old(store)@, self@.full_path, policy_file, contents@) == Err::<
                    StoreView,
                    ErrorView,
                >(e@) && final(store)@ == old(store)@,
            },
    {
        let text = chars_of(contents);
        self.write_chars(store, policy_file, &text)
    }

    fn write_chars(&self, store: &mut AttributeStore, policy_file: PolicyFile, text: &Vec<char>) -> (r:
        Result<(), Error>)
        ensures
            match r {
                Ok(_) => write_text(old(store)@, self@.full_path, policy_file, text@) == Ok::<
                    StoreView,
                    ErrorView,
                >(final(store)@),
                Err(e) => write_text(old(store)@, self@.full_path, policy_file, text@) == Err::<
                    StoreView,
                    ErrorView,
                >(e@) && final(store)@ == old(store)@,
            },
    {
        let directory = chars_of(self.full_path.as_str());
        let name = chars_of(policy_file.name());
        let path = join_path(&directory, &name);
        let i = match store.find(&path) {
            Some(i) => i,
            None => {
                return Err(
                    Error::within(Fault::AttributeMissing(policy_file), self.full_path.as_str()),
                );
            },
        };
        match store.kind_at(i) {
            EntryKind::File => {},
            _ => {
                return Err(
                    Error::within(Fault::AttributeMissing(policy_file), self.full_path.as_str()),
                );
            },
        }
        store.replace(&path, text);
        Ok(())
    }

    fn read_words(&self, store: &AttributeStore, policy_file: PolicyFile) -> (r: Result<
        Vec<Vec<char>>,
        Error,
    >)
        ensures
            match r {
                Ok(list) => read_list(store@, self@.full_path, policy_file) == Ok::<
                    Seq<Seq<char>>,
                    ErrorView,
                >(char_views(list@)),
                Err(e) => read_list(store@, self@.full_path, policy_file) == Err::<
                    Seq<Seq<char>>,
                    ErrorView,
                >(e@),
            },
    {
        let text = match self.read_chars(store, policy_file) {
            Ok(text) => text,
            Err(e) => {
                return Err(e);
            },
        };
        let list = split_words(&text);
        if list.len() == 0 {
            return Err(Error::within(Fault::EmptyList(policy_file), self.full_path.as_str()));
        }
        Ok(list)
    }

    fn read_strings(&self, store: &AttributeStore, policy_file: PolicyFile) -> (r: Result<
        Vec<String>,
        Error,
    >)
        ensures
            match r {
                Ok(list) => read_list(store@, self@.full_path, policy_file) == Ok::<
                    Seq<Seq<char>>,
                    ErrorView,
                >(string_views(list@)),
                Err(e) => read_list(store@, self@.full_path, policy_file) == Err::<
                    Seq<Seq<char>>,
                    ErrorView,
                >(e@),
            },
    {
        match self.read_words(store, policy_file) {
            Ok(list) => Ok(strings_of(&list)),
            Err(e) => Err(e),
        }
    }

    fn select(
        &self,
        store: &mut AttributeStore,
        list_file: PolicyFile,
        value_file: PolicyFile,
        candidate: &str,
    ) -> (r: Result<(), Error>)
        ensures
            match r {
                Ok(_) => chosen(old(store)@, self@.full_path, list_file, value_file, candidate@)
                    == Ok::<StoreView, ErrorView>(final(store)@),
                Err(e) => chosen(old(store)@, self@.full_path, list_file, value_file, candidate@)
                    == Err::<StoreView, ErrorView>(e@) && final(store)@ == old(store)@,
            },
    {
        let available = match self.read_words(store, list_file) {
            Ok(list) => list,
            Err(e) => {
                return Err(e);
            },
        };
        let given = chars_of(candidate);
        let wanted = to_lower(&given);
        let ghost all = lowered_all(char_views(available@));
        let mut i: usize = 0;
        let mut found = false;
        while i < available.len() && !found
            invariant
                i <= available.len(),
                all == lowered_all(char_views(available@)),
                wanted@ == lowered(candidate@),
                found ==> all.contains(wanted@),
                !found ==> forall|j: int| 0 <= j < i ==> all[j] != wanted@,
            decreases available.len() - i + if found { 0int } else { 1int },
        {
            let folded = to_lower(&available[i]);
            assert(folded@ == all[i as int]);
            if same_chars(&folded, &wanted) {
                found = true;
            } else {
                i = i + 1;
            }
        }
        if found {
            self.write_chars(store, value_file, &wanted)
        } else {
            let allowed = strings_of(&available);
            Err(
                Error::new(
                    Fault::NotAvailable(value_file),
                    &given,
                    self.full_path.as_str(),
                    allowed,
                ),
            )
        }
    }

    /// The governors that the directory allows: the words of
    /// `scaling_available_governors`, of which there must be one at least.
    pub fn read_available_governors(&self, store: &AttributeStore) -> (r: Result<Vec<String>, Error>)
        ensures
            match r {
                Ok(list) => read_list(
                    store@,
                    self@.full_path,
                    PolicyFile::scaling_available_governors,
                ) == Ok::<Seq<Seq<char>>, ErrorView>(string_views(list@)),
                Err(e) => read_list(
                    store@,
                    self@.full_path,
                    PolicyFile::scaling_available_governors,
                ) == Err::<Seq<Seq<char>>, ErrorView>(e@),
            },
    {
        self.read_strings(store, PolicyFile::scaling_available_governors)
    }

    /// Sets the governor, if it is among those that the directory allows,
    /// whatever the case of its letters; it is written in lower case, and is
    /// what a read of the governor gives afterwards, where the file can be
    /// read as well as written.
    pub fn set_governor(&self, store: &mut AttributeStore, governor: &str) -> (r: Result<(), Error>)
        ensures
            match r {
                Ok(_) => chosen(
                    old(store)@,
                    self@.full_path,
                    PolicyFile::scaling_available_governors,
                    PolicyFile::scaling_governor,
                    governor@,
                ) == Ok::<StoreView, ErrorView>(final(store)@),
                Err(e) => chosen(
                    old(store)@,
                    self@.full_path,
                    PolicyFile::scaling_available_governors,
                    PolicyFile::scaling_governor,
                    governor@,
                ) == Err::<StoreView, ErrorView>(e@) && final(store)@ == old(store)@,
            },
    {
        self.select(
            store,
            PolicyFile::scaling_available_governors,
            PolicyFile::scaling_governor,
            governor,
        )
    }

    /// The governor that is set: the content of `scaling_governor`.
    pub fn read_current_governor(&self, store: &AttributeStore) -> (r: Result<String, Error>)
        ensures
            match r {
                Ok(text) => read_text(store@, self@.full_path, PolicyFile::scaling_governor)
                    == Ok::<Seq<char>, ErrorView>(text@),
                Err(e) => read_text(store@, self@.full_path, PolicyFile::scaling_governor)
                    == Err::<Seq<char>, ErrorView>(e@),
            },
    {
        self.read(store, PolicyFile::scaling_governor)
    }

    /// The performance profiles that the directory allows: the words of
    /// `energy_performance_available_preferences`, of which there must be
    /// one at least.
    pub fn read_available_perf_profiles(&self, store: &AttributeStore) -> (r: Result<
        Vec<String>,
        Error,
    >)
        ensures
            match r {
                Ok(list) => read_list(
                    store@,
                    self@.full_path,
                    PolicyFile::energy_performance_available_preferences,
                ) == Ok::<Seq<Seq<char>>, ErrorView>(string_views(list@)),
                Err(e) => read_list(
                    store@,
                    self@.full_path,
                    PolicyFile::energy_performance_available_preferences,
                ) == Err::<Seq<Seq<char>>, ErrorView>(e@),
            },
    {
        self.read_strings(store, PolicyFile::energy_performance_available_preferences)
    }

    /// Sets the performance profile, if it is among those that the
    /// directory allows, whatever the case of its letters; it is written in
    /// lower case, and is what a read of the profile gives afterwards, where
    /// the file can be read as well as written.
    pub fn set_perf_profile(&self, store: &mut AttributeStore, profile: &str) -> (r: Result<
        (),
        Error,
    >)
        ensures
            match r {
                Ok(_) => chosen(
                    old(store)@,
                    self@.full_path,
                    PolicyFile::energy_performance_available_preferences,
                    PolicyFile::energy_performance_preference,
                    profile@,
                ) == Ok::<StoreView, ErrorView>(final(store)@),
                Err(e) => chosen(
                    old(store)@,
                    self@.full_path,
                    PolicyFile::energy_performance_available_preferences,
                    PolicyFile::energy_performance_preference,
                    profile@,
                ) == Err::<StoreView, ErrorView>(e@) && final(store)@ == old(store)@,
            },
    {
        self.select(
            store,
            PolicyFile::energy_performance_available_preferences,
            PolicyFile::energy_performance_preference,
            profile,
        )
    }

    /// The performance profile that is set: the content of
    /// `energy_performance_preference`.
    pub fn read_current_perf_profile(&self, store: &AttributeStore) -> (r: Result<String, Error>)
        ensures
            match r {
                Ok(text) => read_text(
                    store@,
                    self@.full_path,
                    PolicyFile::energy_performance_preference,
                ) == Ok::<Seq<char>, ErrorView>(text@),
                Err(e) => read_text(
                    store@,
                    self@.full_path,
                    PolicyFile::energy_performance_preference,
                ) == Err::<Seq<char>, ErrorView>(e@),
            },
    {
        self.read(store, PolicyFile::energy_performance_preference)
    }

    fn read_kilohertz(&self, store: &AttributeStore, policy_file: PolicyFile) -> (r: Result<
        u64,
        Error,
    >)
        ensures
            match r {
                Ok(n) => read_number(store@, self@.full_path, policy_file) == Ok::<u64, ErrorView>(
                    n,
                ),
                Err(e) => read_number(store@, self@.full_path, policy_file) == Err::<
                    u64,
                    ErrorView,
                >(e@),
            },
    {
        let text = match self.read_chars(store, policy_file) {
            Ok(text) => text,
            Err(e) => {
                return Err(e);
            },
        };
        let number = trim(&text);
        match parse_u64(&number) {
            Some(n) => Ok(n),
            None => {
                let none: Vec<String> = Vec::new();
                assert(string_views(none@) == Seq::<Seq<char>>::empty());
                Err(
                    Error::new(
                        Fault::NotANumber(policy_file),
                        &number,
                        self.full_path.as_str(),
                        none,
                    ),
                )
            },
        }
    }

    fn read_frequency(&self, store: &AttributeStore, policy_file: PolicyFile) -> (r: Result<
        Frequency,
        Error,
    >)
        ensures
            match r {
                Ok(f) => f is KHz && read_number(store@, self@.full_path, policy_file) == Ok::<
                    u64,
                    ErrorView,
                >(f->KHz_0),
                Err(e) => read_number(store@, self@.full_path, policy_file) == Err::<
                    u64,
                    ErrorView,
                >(e@),
            },
    {
        match self.read_kilohertz(store, policy_file) {
            Ok(n) => Ok(Frequency::KHz(n)),
            Err(e) => Err(e),
        }
    }

    /// The base frequency, in kilohertz: the number in `base_frequency`.
    pub fn read_base_frequency(&self, store: &AttributeStore) -> (r: Result<Frequency, Error>)
        ensures
            match r {
                Ok(f) => f is KHz && read_number(
                    store@,
                    self@.full_path,
                    PolicyFile::base_frequency,
                ) == Ok::<u64, ErrorView>(f->KHz_0),
                Err(e) => read_number(store@, self@.full_path, PolicyFile::base_frequency)
                    == Err::<u64, ErrorView>(e@),
            },
    {
        self.read_frequency(store, PolicyFile::base_frequency)
    }

    /// The rated maximum, in kilohertz: the number in `cpuinfo_max_freq`.
    pub fn read_rated_max_freq(&self, store: &AttributeStore) -> (r: Result<Frequency, Error>)
        ensures
            match r {
                Ok(f) => f is KHz && read_number(
                    store@,
                    self@.full_path,
                    PolicyFile::cpuinfo_max_freq,
                ) == Ok::<u64, ErrorView>(f->KHz_0),
                Err(e) => read_number(store@, self@.full_path, PolicyFile::cpuinfo_max_freq)
                    == Err::<u64, ErrorView>(e@),
            },
    {
        self.read_frequency(store, PolicyFile::cpuinfo_max_freq)
    }

    /// The rated minimum, in kilohertz: the number in `cpuinfo_min_freq`.
    pub fn read_rated_min_freq(&self, store: &AttributeStore) -> (r: Result<Frequency, Error>)
        ensures
            match r {
                Ok(f) => f is KHz && read_number(
                    store@,
                    self@.full_path,
                    PolicyFile::cpuinfo_min_freq,
                ) == Ok::<u64, ErrorView>(f->KHz_0),
                Err(e) => read_number(store@, self@.full_path, PolicyFile::cpuinfo_min_freq)
                    == Err::<u64, ErrorView>(e@),
            },
    {
        self.read_frequency(store, PolicyFile::cpuinfo_min_freq)
    }

    /// The frequency that the domain runs at, in kilohertz: the number in
    /// `scaling_cur_freq`.
    pub fn read_current_freq(&self, store: &AttributeStore) -> (r: Result<Frequency, Error>)
        ensures
            match r {
                Ok(f) => f is KHz && read_number(
                    store@,
                    self@.full_path,
                    PolicyFile::scaling_cur_freq,
                ) == Ok::<u64, ErrorView>(f->KHz_0),
                Err(e) => read_number(store@, self@.full_path, PolicyFile::scaling_cur_freq)
                    == Err::<u64, ErrorView>(e@),
            },
    {
        self.read_frequency(store, PolicyFile::scaling_cur_freq)
    }

    /// The scaling maximum, in kilohertz: the number in `scaling_max_freq`.
    pub fn read_scaling_max_freq(&self, store: &AttributeStore) -> (r: Result<Frequency, Error>)
        ensures
            match r {
                Ok(f) => f is KHz && read_number(
                    store@,
                    self@.full_path,
                    PolicyFile::scaling_max_freq,
                ) == Ok::<u64, ErrorView>(f->KHz_0),
                Err(e) => read_number(store@, self@.full_path, PolicyFile::scaling_max_freq)
                    == Err::<u64, ErrorView>(e@),
            },
    {
        self.read_frequency(store, PolicyFile::scaling_max_freq)
    }

    /// The scaling minimum, in kilohertz: the number in `scaling_min_freq`.
    pub fn read_scaling_min_freq(&self, store: &AttributeStore) -> (r: Result<Frequency, Error>)
        ensures
            match r {
                Ok(f) => f is KHz && read_number(
                    store@,
                    self@.full_path,
                    PolicyFile::scaling_min_freq,
                ) == Ok::<u64, ErrorView>(f->KHz_0),
                Err(e) => read_number(store@, self@.full_path, PolicyFile::scaling_min_freq)
                    == Err::<u64, ErrorView>(e@),
            },
    {
        self.read_frequency(store, PolicyFile::scaling_min_freq)
    }

    fn out_of_bounds(
        &self,
        attribute: PolicyFile,
        limit: Limit,
        desired: u64,
        bound: u64,
    ) -> (e: Error)
        ensures
            e@ == out_of_bounds(attribute, limit, desired, bound, self@.full_path),
    {
        Error::within(
            Fault::OutOfBounds { attribute, limit, desired, bound },
            self.full_path.as_str(),
        )
    }

    /// Sets the scaling maximum to the frequency, in kilohertz, if it lies
    /// between the scaling minimum that is stored and the rated maximum, and
    /// not below the rated minimum. The frequency is converted to kilohertz
    /// first, any remainder discarded.
    pub fn set_scaling_max_freq(&self, store: &mut AttributeStore, frequency: &Frequency) -> (r:
        Result<(), Error>)
        ensures
            match r {
                Ok(_) => scaled_max(old(store)@, self@.full_path, *frequency) == Ok::<
                    StoreView,
                    ErrorView,
                >(final(store)@),
                Err(e) => scaled_max(old(store)@, self@.full_path, *frequency) == Err::<
                    StoreView,
                    ErrorView,
                >(e@) && final(store)@ == old(store)@,
            },
    {
        if !frequency.fits_khz() {
            return Err(
                Error::within(Fault::Unrepresentable(*frequency), self.full_path.as_str()),
            );
        }
        let desired: u64 = u64::from(frequency.to_khz());
        let current = match self.read_kilohertz(store, PolicyFile::scaling_min_freq) {
            Ok(n) => n,
            Err(e) => {
                return Err(e);
            },
        };
        if desired < current {
            return Err(
                self.out_of_bounds(
                    PolicyFile::scaling_max_freq,
                    Limit::CurrentMin,
                    desired,
                    current,
                ),
            );
        }
        let rated_max = match self.read_kilohertz(store, PolicyFile::cpuinfo_max_freq) {
            Ok(n) => n,
            Err(e) => {
                return Err(e);
            },
        };
        if desired > rated_max {
            return Err(
                self.out_of_bounds(
                    PolicyFile::scaling_max_freq,
                    Limit::RatedMax,
                    desired,
                    rated_max,
                ),
            );
        }
        let rated_min = match self.read_kilohertz(store, PolicyFile::cpuinfo_min_freq) {
            Ok(n) => n,
            Err(e) => {
                return Err(e);
            },
        };
        if desired < rated_min {
            return Err(
                self.out_of_bounds(
                    PolicyFile::scaling_max_freq,
                    Limit::RatedMin,
                    desired,
                    rated_min,
                ),
            );
        }
        let digits = render_decimal(desired as u128);
        self.write_chars(store, PolicyFile::scaling_max_freq, &digits)
    }

    /// Sets the scaling minimum to the frequency, in kilohertz, if it lies
    /// between the rated minimum and the scaling maximum that is stored, and
    /// not above the rated maximum. The frequency is converted to kilohertz
    /// first, any remainder discarded.
    pub fn set_scaling_min_freq(&self, store: &mut AttributeStore, frequency: &Frequency) -> (r:
        Result<(), Error>)
        ensures
            match r {
                Ok(_) => scaled_min(old(store)@, self@.full_path, *frequency) == Ok::<
                    StoreView,
                    ErrorView,
                >(final(store)@),
                Err(e) => scaled_min(old(store)@, self@.full_path, *frequency) == Err::<
                    StoreView,
                    ErrorView,
                >(e@) && final(store)@ == old(store)@,
            },
    {
        if !frequency.fits_khz() {
            return Err(
                Error::within(Fault::Unrepresentable(*frequency), self.full_path.as_str()),
            );
        }
        let desired: u64 = u64::from(frequency.to_khz());
        let current = match self.read_kilohertz(store, PolicyFile::scaling_max_freq) {
            Ok(n) => n,
            Err(e) => {
                return Err(e);
            },
        };
        if desired > current {
            return Err(
                self.out_of_bounds(
                    PolicyFile::scaling_min_freq,
                    Limit::CurrentMax,
                    desired,
                    current,
                ),
            );
        }
        let rated_min = match self.read_kilohertz(store, PolicyFile::cpuinfo_min_freq) {
            Ok(n) => n,
            Err(e) => {
                return Err(e);
            },
        };
        if desired < rated_min {
            return Err(
                self.out_of_bounds(
                    PolicyFile::scaling_min_freq,
                    Limit::RatedMin,
                    desired,
                    rated_min,
                ),
            );
        }
        let rated_max = match self.read_kilohertz(store, PolicyFile::cpuinfo_max_freq) {
            Ok(n) => n,
            Err(e) => {
                return Err(e);
            },
        };
        if desired > rated_max {
            return Err(
                self.out_of_bounds(
                    PolicyFile::scaling_min_freq,
                    Limit::RatedMax,
                    desired,
                    rated_max,
                ),
            );
        }
        let digits = render_decimal(desired as u128);
        self.write_chars(store, PolicyFile::scaling_min_freq, &digits)
    }
}

/// Once the entries up to some point hold a policy directory that cannot
/// be made, the whole listing fails as that part of it does.
proof fn lemma_fleet_failure(store: StoreView, root: Seq<char>, upto: int)
    requires
        0 <= upto <= store.entries.len(),
        fleet_upto(store, root, upto) is Err,
    ensures
        fleet_upto(store, root, store.entries.len() as int) == fleet_upto(store, root, upto),
    decreases store.entries.len() - upto,
{
    if upto < store.entries.len() {
        lemma_fleet_failure(store, root, upto + 1);
    }
}

} // verus!
