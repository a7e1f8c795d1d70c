//! The commands: `set` changes an attribute of the selected policies, and
//! `get` reports one. Each takes the arguments that follow the verb: the
//! policy selector, the attribute, and the value or what to report.

use crate::error::{failure, outcome, Argument, Error, ErrorView, Fault};
use crate::frequency::Frequency;
pub use crate::grammar::parse_freq_value;
use crate::grammar::pair_of;
use crate::policies::{
    chosen, dir_views, read_list, read_number, read_text, scaled_max, scaled_min, PolicyDir,
    PolicyDirView, PolicyFile,
};
use crate::store::{AttributeStore, StoreView};
use crate::target::{selection, target, within, TargetExpression};
use crate::text::{
    append_chars, append_str, chars_of, decimal_text, is_word, lowered, render_decimal, string_of,
    string_views,
};
use vstd::prelude::*;
use vstd::slice::slice_subrange;

verus! {

/// The kinds of attribute that a command can name.
#[derive(Clone, Copy, Debug, PartialEq, Eq, Structural)]
pub enum AttributeKind {
    /// The scaling frequency bounds, named `freq`.
    Frequency,
    /// The scaling governor, named `gov`.
    Governor,
    /// The energy and performance preference, named `perf`.
    PerfProfile,
}

/// The kind of attribute that a word names, read without regard to the case
/// of its letters.
pub open spec fn kind_of(attribute: Seq<char>) -> Option<AttributeKind> {
    if lowered(attribute) == "freq"@ {
        Some(AttributeKind::Frequency)
    } else if lowered(attribute) == "gov"@ {
        Some(AttributeKind::Governor)
    } else if lowered(attribute) == "perf"@ {
        Some(AttributeKind::PerfProfile)
    } else {
        None
    }
}

impl AttributeKind {
    /// The kind of attribute that a word names.
    pub fn of(attribute: &str) -> (r: Option<AttributeKind>)
        ensures
            r == kind_of(attribute@),
    {
        let a = chars_of(attribute);
        if is_word(&a, "freq") {
            Some(AttributeKind::Frequency)
        } else if is_word(&a, "gov") {
            Some(AttributeKind::Governor)
        } else if is_word(&a, "perf") {
            Some(AttributeKind::PerfProfile)
        } else {
            None
        }
    }
}

/// A change to make to each selected policy, as contracts speak of it.
pub enum ChangeView {
    /// New scaling bounds: the minimum, the maximum, or both.
    Bounds(Option<Frequency>, Option<Frequency>),
    /// A new governor.
    Governor(Seq<char>),
    /// A new performance profile.
    Profile(Seq<char>),
    /// No change.
    Nothing,
}

/// A change to make to each selected policy.
#[derive(Clone, Debug, PartialEq, Eq)]
pub enum Change {
    /// New scaling bounds: the minimum, the maximum, or both.
    Bounds(Option<Frequency>, Option<Frequency>),
    /// A new governor.
    Governor(String),
    /// A new performance profile.
    Profile(String),
    /// No change.
    Nothing,
}

impl View for Change {
    type V = ChangeView;

    open spec fn view(&self) -> ChangeView {
        match self {
            Change::Bounds(low, high) => ChangeView::Bounds(*low, *high),
            Change::Governor(name) => ChangeView::Governor(name@),
            Change::Profile(name) => ChangeView::Profile(name@),
            Change::Nothing => ChangeView::Nothing,
        }
    }
}

impl ChangeView {
    /// Whether each bound of the change has a 64-bit number of kilohertz.
    pub open spec fn representable(self) -> bool {
        match self {
            ChangeView::Bounds(low, high) => {
                &&& low matches Some(f) ==> f.khz_in_range()
                &&& high matches Some(f) ==> f.khz_in_range()
            },
            _ => true,
        }
    }
}

/// The change that a pair of bounds asks for: each bound that is given must
/// have a 64-bit number of kilohertz, the minimum being looked at first.
pub open spec fn bounds_of(low: Option<Frequency>, high: Option<Frequency>) -> Result<
    ChangeView,
    ErrorView,
> {
    if low is Some && !low->0.khz_in_range() {
        Err(failure(Fault::Unrepresentable(low->0), seq![]))
    } else if high is Some && !high->0.khz_in_range() {
        Err(failure(Fault::Unrepresentable(high->0), seq![]))
    } else {
        Ok(ChangeView::Bounds(low, high))
    }
}

/// The change that an attribute and a value ask for: a frequency attribute
/// takes a pair of frequencies, a governor or a profile attribute the name
/// of one; a word that names no attribute asks for nothing. A pair of
/// frequencies is read only if there is a policy to apply it to.
pub open spec fn change_of(attribute: Seq<char>, value: Seq<char>, any: bool) -> Result<
    ChangeView,
    ErrorView,
> {
    match kind_of(attribute) {
        Some(AttributeKind::Frequency) => if !any {
            Ok(ChangeView::Nothing)
        } else {
            match pair_of(value) {
                Err(e) => Err(e),
                Ok(bounds) => bounds_of(bounds.0, bounds.1),
            }
        },
        Some(AttributeKind::Governor) => Ok(ChangeView::Governor(value)),
        Some(AttributeKind::PerfProfile) => Ok(ChangeView::Profile(value)),
        None => Ok(ChangeView::Nothing),
    }
}

/// The store after a change to one policy directory, and how the change
/// ended. Of two bounds the minimum is set first, the maximum against the
/// store that holds the new minimum; if the maximum is refused, the new
/// minimum stays.
pub open spec fn changed(store: StoreView, directory: Seq<char>, change: ChangeView) -> (
    StoreView,
    Result<(), ErrorView>,
) {
    match change {
        ChangeView::Bounds(low, high) => {
            let first = match low {
                None => Ok(store),
                Some(f) => scaled_min(store, directory, f),
            };
            match first {
                Err(e) => (store, Err(e)),
                Ok(with_minimum) => match high {
                    None => (with_minimum, Ok(())),
                    Some(f) => match scaled_max(with_minimum, directory, f) {
                        Ok(s) => (s, Ok(())),
                        Err(e) => (with_minimum, Err(e)),
                    },
                },
            }
        },
        ChangeView::Governor(name) => match chosen(
            store,
            directory,
            PolicyFile::scaling_available_governors,
            PolicyFile::scaling_governor,
            name,
        ) {
            Ok(s) => (s, Ok(())),
            Err(e) => (store, Err(e)),
        },
        ChangeView::Profile(name) => match chosen(
            store,
            directory,
            PolicyFile::energy_performance_available_preferences,
            PolicyFile::energy_performance_preference,
            name,
        ) {
            Ok(s) => (s, Ok(())),
            Err(e) => (store, Err(e)),
        },
        ChangeView::Nothing => (store, Ok(())),
    }
}

/// The store after a change to the policy directories at the given
/// positions, one after the other, and how it ended: the first failure ends
/// it, and what was changed before stays changed.
pub open spec fn changed_all(
    store: StoreView,
    dirs: Seq<PolicyDirView>,
    positions: Seq<usize>,
    change: ChangeView,
) -> (StoreView, Result<(), ErrorView>)
    decreases positions.len(),
{
    if positions.len() == 0 {
        (store, Ok(()))
    } else {
        let step = changed(store, dirs[positions[0] as int].full_path, change);
        match step.1 {
            Err(e) => step,
            Ok(_) => changed_all(step.0, dirs, positions.drop_first(), change),
        }
    }
}

/// The policy numbers of a sequence of policy directories.
pub open spec fn numbers_of(dirs: Seq<PolicyDirView>) -> Seq<u32> {
    Seq::new(dirs.len(), |i: int| dirs[i].policy_number)
}

/// The failure of a command that ends before one of its arguments.
pub open spec fn missing(argument: Argument) -> ErrorView {
    failure(Fault::MissingArgument(argument), seq![])
}

/// What `set` does: the store afterwards, and how the command ended. The
/// arguments are the selector, the attribute and the value. The selected
/// policies are changed in the order of the selection.
pub open spec fn set_outcome(dirs: Seq<PolicyDirView>, args: Seq<Seq<char>>, store: StoreView) -> (
    StoreView,
    Result<(), ErrorView>,
) {
    if args.len() < 1 {
        (store, Err(missing(Argument::Target)))
    } else if args.len() < 2 {
        (store, Err(missing(Argument::Attribute)))
    } else if args.len() < 3 {
        (store, Err(missing(Argument::Value)))
    } else {
        match target(args[0]) {
            Err(e) => (store, Err(e)),
            Ok(expression) => match change_of(
                args[1],
                args[2],
                selection(expression, numbers_of(dirs)).len() > 0,
            ) {
                Err(e) => (store, Err(e)),
                Ok(change) => changed_all(
                    store,
                    dirs,
                    selection(expression, numbers_of(dirs)),
                    change,
                ),
            },
        }
    }
}

/// What `get` can report of a policy.
#[derive(Clone, Copy, Debug, PartialEq, Eq, Structural)]
pub enum Query {
    MinFrequency,
    MaxFrequency,
    CurrentFrequency,
    AvailableGovernors,
    CurrentGovernor,
    AvailableProfiles,
    CurrentProfile,
}

/// Whether a selector word asks for the current value.
pub open spec fn asks_current(selector: Seq<char>) -> bool {
    lowered(selector) == "current"@ || lowered(selector) == "curr"@
}

/// Whether a selector word asks for the available values.
pub open spec fn asks_available(selector: Seq<char>) -> bool {
    lowered(selector) == "available"@ || lowered(selector) == "avail"@
}

/// What an attribute and a selector word ask to report, both read without
/// regard to the case of their letters: of a frequency the minimum, the
/// maximum or the current value; of a governor or a profile the available
/// values or the current one. A pair that asks for nothing known is `None`.
pub open spec fn query_of(attribute: Seq<char>, selector: Seq<char>) -> Option<Query> {
    match kind_of(attribute) {
        Some(AttributeKind::Frequency) => if lowered(selector) == "min"@ {
            Some(Query::MinFrequency)
        } else if lowered(selector) == "max"@ {
            Some(Query::MaxFrequency)
        } else if asks_current(selector) {
            Some(Query::CurrentFrequency)
        } else {
            None
        },
        Some(AttributeKind::Governor) => if asks_available(selector) {
            Some(Query::AvailableGovernors)
        } else if asks_current(selector) {
            Some(Query::CurrentGovernor)
        } else {
            None
        },
        Some(AttributeKind::PerfProfile) => if asks_available(selector) {
            Some(Query::AvailableProfiles)
        } else if asks_current(selector) {
            Some(Query::CurrentProfile)
        } else {
            None
        },
        None => None,
    }
}

/// The line between the reports of two policies.
pub open spec fn separator() -> Seq<char> {
    "--------------------"@
}

/// A list of values, one to a line, each after its index counted from 0.
pub open spec fn listing(items: Seq<Seq<char>>) -> Seq<char>
    decreases items.len(),
{
    if items.len() == 0 {
        seq![]
    } else {
        listing(items.drop_last()) + decimal_text((items.len() - 1) as nat) + ".) - "@
            + items.last() + seq!['\n']
    }
}

/// A report: the policy number, what is reported, and the value.
pub open spec fn headed(number: u32, label: Seq<char>, value: Seq<char>) -> Seq<char> {
    "Policy "@ + decimal_text(number as nat) + label + value
}

/// The report of a frequency attribute.
pub open spec fn frequency_report(
    store: StoreView,
    dir: PolicyDirView,
    file: PolicyFile,
    label: Seq<char>,
) -> Result<Seq<char>, ErrorView> {
    match read_number(store, dir.full_path, file) {
        Ok(k) => Ok(headed(dir.policy_number, label, Frequency::KHz(k).shown())),
        Err(e) => Err(e),
    }
}

/// The report of a list attribute.
pub open spec fn list_report(
    store: StoreView,
    dir: PolicyDirView,
    file: PolicyFile,
    label: Seq<char>,
) -> Result<Seq<char>, ErrorView> {
    match read_list(store, dir.full_path, file) {
        Ok(items) => Ok(headed(dir.policy_number, label, listing(items))),
        Err(e) => Err(e),
    }
}

/// The report of an attribute as the file holds it.
pub open spec fn text_report(
    store: StoreView,
    dir: PolicyDirView,
    file: PolicyFile,
    label: Seq<char>,
) -> Result<Seq<char>, ErrorView> {
    match read_text(store, dir.full_path, file) {
        Ok(text) => Ok(headed(dir.policy_number, label, text)),
        Err(e) => Err(e),
    }
}

/// What is reported of one policy.
pub open spec fn answer(store: StoreView, dir: PolicyDirView, query: Query) -> Result<
    Seq<char>,
    ErrorView,
> {
    match query {
        Query::MinFrequency => frequency_report(
            store,
            dir,
            PolicyFile::scaling_min_freq,
            " scaling min frequency: "@,
        ),
        Query::MaxFrequency => frequency_report(
            store,
            dir,
            PolicyFile::scaling_max_freq,
            " scaling max frequency: "@,
        ),
        Query::CurrentFrequency => frequency_report(
            store,
            dir,
            PolicyFile::scaling_cur_freq,
            " current frequency: "@,
        ),
        Query::AvailableGovernors => list_report(
            store,
            dir,
            PolicyFile::scaling_available_governors,
            " available governors...\n\n"@,
        ),
        Query::CurrentGovernor => text_report(
            store,
            dir,
            PolicyFile::scaling_governor,
            " current governor: "@,
        ),
        Query::AvailableProfiles => list_report(
            store,
            dir,
            PolicyFile::energy_performance_available_preferences,
            " available performance profiles...\n\n"@,
        ),
        Query::CurrentProfile => text_report(
            store,
            dir,
            PolicyFile::energy_performance_preference,
            " current performance profile: "@,
        ),
    }
}

/// The blocks that are reported of the policy directories at the given
/// positions, in order, with a separator between two blocks: before the
/// block of each policy but the first. The first failure is the failure of
/// the whole.
pub open spec fn answers(
    store: StoreView,
    dirs: Seq<PolicyDirView>,
    positions: Seq<usize>,
    query: Query,
) -> Result<Seq<Seq<char>>, ErrorView>
    decreases positions.len(),
{
    if positions.len() == 0 {
        Ok(seq![])
    } else {
        match answers(store, dirs, positions.drop_last(), query) {
            Err(e) => Err(e),
            Ok(blocks) => match answer(store, dirs[positions.last() as int], query) {
                Ok(block) => if positions.len() > 1 {
                    Ok(blocks.push(separator()).push(block))
                } else {
                    Ok(blocks.push(block))
                },
                Err(e) => Err(e),
            },
        }
    }
}

/// What `get` reports. The arguments are the selector, the attribute and
/// the word that says what to report of it. The selector is read first. An
/// attribute and a word that ask for nothing known give no line at all, and
/// no failure: nothing is read of any policy.
pub open spec fn get_outcome(dirs: Seq<PolicyDirView>, args: Seq<Seq<char>>, store: StoreView)
    -> Result<Seq<Seq<char>>, ErrorView> {
    if args.len() < 1 {
        Err(missing(Argument::Target))
    } else if args.len() < 2 {
        Err(missing(Argument::Attribute))
    } else if args.len() < 3 {
        Err(missing(Argument::Value))
    } else {
        match target(args[0]) {
            Err(e) => Err(e),
            Ok(expression) => match query_of(args[1], args[2]) {
                None => Ok(seq![]),
                Some(query) => answers(
                    store,
                    dirs,
                    selection(expression, numbers_of(dirs)),
                    query,
                ),
            },
        }
    }
}

/// What a command does: the store afterwards, and the lines to print or the
/// failure. The first argument is the verb, read without regard to the case
/// of its letters; the others are the arguments of `set` or of `get`. Any
/// other verb changes nothing and is reported in one line.
pub open spec fn command_outcome(
    dirs: Seq<PolicyDirView>,
    args: Seq<Seq<char>>,
    store: StoreView,
) -> (StoreView, Result<Seq<Seq<char>>, ErrorView>) {
    if args.len() == 0 {
        (store, Err(missing(Argument::Verb)))
    } else if lowered(args[0]) == "set"@ {
        match set_outcome(dirs, args.skip(1), store).1 {
            Ok(_) => (set_outcome(dirs, args.skip(1), store).0, Ok(seq![])),
            Err(e) => (set_outcome(dirs, args.skip(1), store).0, Err(e)),
        }
    } else if lowered(args[0]) == "get"@ {
        (store, get_outcome(dirs, args.skip(1), store))
    } else {
        (store, Ok(seq!["Unrecognized: "@ + args[0]]))
    }
}

/// The failure of a command that ends before one of its arguments.
fn missing_argument(argument: Argument) -> (e: Error)
    ensures
        e@ == missing(argument),
{
    let nothing: Vec<char> = Vec::new();
    Error::about(Fault::MissingArgument(argument), &nothing)
}

/// The policy numbers of the policy directories.
fn numbers(policy_dirs: &Vec<PolicyDir>) -> (r: Vec<u32>)
    ensures
        r@ == numbers_of(dir_views(policy_dirs@)),
{
    let mut r: Vec<u32> = Vec::new();
    let mut i: usize = 0;
    while i < policy_dirs.len()
        invariant
            i <= policy_dirs.len(),
            r@ == numbers_of(dir_views(policy_dirs@)).take(i as int),
        decreases policy_dirs.len() - i,
    {
        r.push(policy_dirs[i].policy_number);
        i = i + 1;
    }
    r
}

impl Change {
    /// The change that an attribute and a value ask for; `any` says whether
    /// there is a policy to apply it to.
    pub fn of(attribute: &str, value: &str, any: bool) -> (r: Result<Change, Error>)
        ensures
            match r {
                Ok(change) => change_of(attribute@, value@, any) == Ok::<ChangeView, ErrorView>(
                    change@,
                ) && change@.representable(),
                Err(e) => change_of(attribute@, value@, any) == Err::<ChangeView, ErrorView>(e@),
            },
    {
        match AttributeKind::of(attribute) {
            Some(AttributeKind::Frequency) => {
                if !any {
                    return Ok(Change::Nothing);
                }
                let (low, high) = match parse_freq_value(value) {
                    Ok(bounds) => bounds,
                    Err(e) => {
                        return Err(e);
                    },
                };
                let nothing: Vec<char> = Vec::new();
                if let Some(f) = low {
                    if !f.fits_khz() {
                        return Err(Error::about(Fault::Unrepresentable(f), &nothing));
                    }
                }
                if let Some(f) = high {
                    if !f.fits_khz() {
                        return Err(Error::about(Fault::Unrepresentable(f), &nothing));
                    }
                }
                Ok(Change::Bounds(low, high))
            },
            Some(AttributeKind::Governor) => {
                let v = chars_of(value);
                Ok(Change::Governor(string_of(&v)))
            },
            Some(AttributeKind::PerfProfile) => {
                let v = chars_of(value);
                Ok(Change::Profile(string_of(&v)))
            },
            None => Ok(Change::Nothing),
        }
    }

    /// Makes the change to one policy directory.
    pub fn apply(&self, dir: &PolicyDir, store: &mut AttributeStore) -> (r: Result<(), Error>)
        ensures
            changed(old(store)@, dir@.full_path, self@) == (final(store)@, outcome(r)),
    {
        match self {
            Change::Bounds(low, high) => {
                if let Some(f) = low {
                    match dir.set_scaling_min_freq(store, f) {
                        Ok(_) => {},
                        Err(e) => {
                            return Err(e);
                        },
                    }
                }
                if let Some(f) = high {
                    match dir.set_scaling_max_freq(store, f) {
                        Ok(_) => {},
                        Err(e) => {
                            return Err(e);
                        },
                    }
                }
                Ok(())
            },
            Change::Governor(name) => dir.set_governor(store, name.as_str()),
            Change::Profile(name) => dir.set_perf_profile(store, name.as_str()),
            Change::Nothing => Ok(()),
        }
    }
}

/// Changes an attribute of the selected policies. The arguments are the
/// selector, the attribute (`freq`, `gov` or `perf`) and the value. The
/// policies are changed in the order in which they are selected; the first
/// failure ends the command, and what was changed before stays changed.
pub fn op_set(policy_dirs: Vec<PolicyDir>, args: &[String], store: &mut AttributeStore) -> (r:
    Result<(), Error>)
    ensures
        set_outcome(dir_views(policy_dirs@), string_views(args@), old(store)@) == (
            final(store)@,
            outcome(r),
        ),
{
    if args.len() < 1 {
        return Err(missing_argument(Argument::Target));
    }
    if args.len() < 2 {
        return Err(missing_argument(Argument::Attribute));
    }
    if args.len() < 3 {
        return Err(missing_argument(Argument::Value));
    }
    let ghost dirs = dir_views(policy_dirs@);
    let ghost texts = string_views(args@);
    assert(texts[0] == args@[0]@ && texts[1] == args@[1]@ && texts[2] == args@[2]@);
    let expression = match TargetExpression::parse(args[0].as_str()) {
        Ok(expression) => expression,
        Err(e) => {
            return Err(e);
        },
    };
    let known = numbers(&policy_dirs);
    let positions = expression.positions(&known);
    let change = match Change::of(args[1].as_str(), args[2].as_str(), positions.len() > 0) {
        Ok(change) => change,
        Err(e) => {
            return Err(e);
        },
    };
    let ghost whole = changed_all(old(store)@, dirs, positions@, change@);
    assert(set_outcome(dirs, texts, old(store)@) == whole);
    let mut i: usize = 0;
    assert(positions@.skip(0) == positions@);
    while i < positions.len()
        invariant
            i <= positions.len(),
            dirs == dir_views(policy_dirs@),
            within(positions@, policy_dirs@.len()),
            whole == set_outcome(dirs, string_views(args@), old(store)@),
            whole == changed_all(store@, dirs, positions@.skip(i as int), change@),
        decreases positions.len() - i,
    {
        let at: usize = positions[i];
        assert(at < policy_dirs@.len());
        assert(positions@.skip(i as int)[0] == at);
        assert(positions@.skip(i as int).drop_first() == positions@.skip(i + 1));
        assert(dirs[at as int] == policy_dirs@[at as int]@);
        match change.apply(&policy_dirs[at], store) {
            Ok(_) => {},
            Err(e) => {
                return Err(e);
            },
        }
        i = i + 1;
    }
    Ok(())
}

/// What an attribute and a selector word ask to report.
pub fn query(attribute: &str, selector: &str) -> (r: Option<Query>)
    ensures
        r == query_of(attribute@, selector@),
{
    let s = chars_of(selector);
    let current = is_word(&s, "current") || is_word(&s, "curr");
    let available = is_word(&s, "available") || is_word(&s, "avail");
    match AttributeKind::of(attribute) {
        Some(AttributeKind::Frequency) => if is_word(&s, "min") {
            Some(Query::MinFrequency)
        } else if is_word(&s, "max") {
            Some(Query::MaxFrequency)
        } else if current {
            Some(Query::CurrentFrequency)
        } else {
            None
        },
        Some(AttributeKind::Governor) => if available {
            Some(Query::AvailableGovernors)
        } else if current {
            Some(Query::CurrentGovernor)
        } else {
            None
        },
        Some(AttributeKind::PerfProfile) => if available {
            Some(Query::AvailableProfiles)
        } else if current {
            Some(Query::CurrentProfile)
        } else {
            None
        },
        None => None,
    }
}

/// A report: the policy number, what is reported, and the value.
fn headed_line(number: u32, label: &str, value: &Vec<char>) -> (line: String)
    ensures
        line@ == headed(number, label@, value@),
{
    let mut out: Vec<char> = Vec::new();
    append_str(&mut out, "Policy ");
    let digits = render_decimal(number as u128);
    append_chars(&mut out, &digits);
    append_str(&mut out, label);
    append_chars(&mut out, value);
    assert(out@ == "Policy "@ + decimal_text(number as nat) + label@ + value@);
    string_of(&out)
}

/// A list of values, one to a line, each after its index counted from 0.
fn listing_of(items: &Vec<String>) -> (out: Vec<char>)
    ensures
        out@ == listing(string_views(items@)),
{
    let mut out: Vec<char> = Vec::new();
    let mut i: usize = 0;
    let ghost all = string_views(items@);
    assert(all.take(0) == Seq::<Seq<char>>::empty());
    while i < items.len()
        invariant
            i <= items.len(),
            all == string_views(items@),
            out@ == listing(all.take(i as int)),
        decreases items.len() - i,
    {
        let ghost before = out@;
        assert(all.take(i + 1).drop_last() == all.take(i as int));
        assert(all.take(i + 1).last() == items@[i as int]@);
        let digits = render_decimal(i as u128);
        append_chars(&mut out, &digits);
        append_str(&mut out, ".) - ");
        append_str(&mut out, items[i].as_str());
        out.push('\n');
        assert(out@ == before + decimal_text(i as nat) + ".) - "@ + items@[i as int]@ + seq![
            '\n',
        ]);
        i = i + 1;
    }
    assert(all.take(items.len() as int) == all);
    out
}

impl Query {
    /// What is reported of one policy.
    pub fn answer(&self, dir: &PolicyDir, store: &AttributeStore) -> (r: Result<String, Error>)
        ensures
            match r {
                Ok(block) => answer(store@, dir@, *self) == Ok::<Seq<char>, ErrorView>(block@),
                Err(e) => answer(store@, dir@, *self) == Err::<Seq<char>, ErrorView>(e@),
            },
    {
        match self {
            Query::MinFrequency => match dir.read_scaling_min_freq(store) {
                Ok(f) => {
                    let shown = chars_of(f.to_string().as_str());
                    Ok(headed_line(dir.policy_number, " scaling min frequency: ", &shown))
                },
                Err(e) => Err(e),
            },
            Query::MaxFrequency => match dir.read_scaling_max_freq(store) {
                Ok(f) => {
                    let shown = chars_of(f.to_string().as_str());
                    Ok(headed_line(dir.policy_number, " scaling max frequency: ", &shown))
                },
                Err(e) => Err(e),
            },
            Query::CurrentFrequency => match dir.read_current_freq(store) {
                Ok(f) => {
                    let shown = chars_of(f.to_string().as_str());
                    Ok(headed_line(dir.policy_number, " current frequency: ", &shown))
                },
                Err(e) => Err(e),
            },
            Query::AvailableGovernors => match dir.read_available_governors(store) {
                Ok(items) => {
                    let list = listing_of(&items);
                    Ok(headed_line(dir.policy_number, " available governors...\n\n", &list))
                },
                Err(e) => Err(e),
            },
            Query::CurrentGovernor => match dir.read_current_governor(store) {
                Ok(text) => {
                    let value = chars_of(text.as_str());
                    Ok(headed_line(dir.policy_number, " current governor: ", &value))
                },
                Err(e) => Err(e),
            },
            Query::AvailableProfiles => match dir.read_available_perf_profiles(store) {
                Ok(items) => {
                    let list = listing_of(&items);
                    Ok(
                        headed_line(
                            dir.policy_number,
                            " available performance profiles...\n\n",
                            &list,
                        ),
                    )
                },
                Err(e) => Err(e),
            },
            Query::CurrentProfile => match dir.read_current_perf_profile(store) {
                Ok(text) => {
                    let value = chars_of(text.as_str());
                    Ok(headed_line(dir.policy_number, " current performance profile: ", &value))
                },
                Err(e) => Err(e),
            },
        }
    }
}

/// Reports an attribute of the selected policies. The arguments are the
/// selector, the attribute (`freq`, `gov` or `perf`) and what to report of
/// it (`min`, `max`, `current`, `available`). The result holds one block
/// for each selected policy, in the order of the selection, and a separator
/// between two blocks. It holds nothing where the attribute and the word
/// ask for nothing known.
pub fn op_get(policy_dirs: Vec<PolicyDir>, args: &[String], store: &AttributeStore) -> (r: Result<
    Vec<String>,
    Error,
>)
    ensures
        match r {
            Ok(blocks) => get_outcome(dir_views(policy_dirs@), string_views(args@), store@) == Ok::<
                Seq<Seq<char>>,
                ErrorView,
            >(string_views(blocks@)),
            Err(e) => get_outcome(dir_views(policy_dirs@), string_views(args@), store@) == Err::<
                Seq<Seq<char>>,
                ErrorView,
            >(e@),
        },
{
    if args.len() < 1 {
        return Err(missing_argument(Argument::Target));
    }
    if args.len() < 2 {
        return Err(missing_argument(Argument::Attribute));
    }
    if args.len() < 3 {
        return Err(missing_argument(Argument::Value));
    }
    let ghost dirs = dir_views(policy_dirs@);
    let ghost texts = string_views(args@);
    assert(texts[0] == args@[0]@ && texts[1] == args@[1]@ && texts[2] == args@[2]@);
    let expression = match TargetExpression::parse(args[0].as_str()) {
        Ok(expression) => expression,
        Err(e) => {
            return Err(e);
        },
    };
    let mut output: Vec<String> = Vec::new();
    assert(string_views(output@) == Seq::<Seq<char>>::empty());
    let asked = match query(args[1].as_str(), args[2].as_str()) {
        Some(asked) => asked,
        None => {
            return Ok(output);
        },
    };
    let known = numbers(&policy_dirs);
    let positions = expression.positions(&known);
    let mut i: usize = 0;
    assert(positions@.take(0) == Seq::<usize>::empty());
    while i < positions.len()
        invariant
            i <= positions.len(),
            dirs == dir_views(policy_dirs@),
            within(positions@, policy_dirs@.len()),
            get_outcome(dirs, string_views(args@), store@) == answers(
                store@,
                dirs,
                positions@,
                asked,
            ),
            answers(store@, dirs, positions@.take(i as int), asked) == Ok::<
                Seq<Seq<char>>,
                ErrorView,
            >(string_views(output@)),
        decreases positions.len() - i,
    {
        let at: usize = positions[i];
        assert(at < policy_dirs@.len());
        assert(positions@.take(i + 1).drop_last() == positions@.take(i as int));
        assert(positions@.take(i + 1).last() == at);
        assert(dirs[at as int] == policy_dirs@[at as int]@);
        match asked.answer(&policy_dirs[at], store) {
            Ok(block) => {
                if i > 0 {
                    let ghost before = string_views(output@);
                    let line = chars_of("--------------------");
                    output.push(string_of(&line));
                    assert(string_views(output@) == before.push(separator()));
                }
                let ghost before = string_views(output@);
                output.push(block);
                assert(string_views(output@) == before.push(block@));
            },
            Err(e) => {
                proof {
                    assert(answers(store@, dirs, positions@.take(i + 1), asked) == Err::<
                        Seq<Seq<char>>,
                        ErrorView,
                    >(e@));
                    lemma_answers_failure(store@, dirs, positions@, asked, i + 1);
                }
                return Err(e);
            },
        }
        i = i + 1;
    }
    assert(positions@.take(positions.len() as int) == positions@);
    Ok(output)
}

/// Once the reports up to some position fail, the whole fails likewise.
proof fn lemma_answers_failure(
    store: StoreView,
    dirs: Seq<PolicyDirView>,
    positions: Seq<usize>,
    query: Query,
    upto: int,
)
    requires
        0 <= upto <= positions.len(),
        answers(store, dirs, positions.take(upto), query) is Err,
    ensures
        answers(store, dirs, positions, query) == answers(store, dirs, positions.take(upto), query),
    decreases positions.len() - upto,
{
    if upto == positions.len() {
        assert(positions.take(upto) == positions);
    } else {
        assert(positions.take(upto + 1).drop_last() == positions.take(upto));
        lemma_answers_failure(store, dirs, positions, query, upto + 1);
    }
}

/// Carries out a command. The first argument is the verb, `set` or `get`;
/// the others are its arguments. The result holds the lines to print.
pub fn parse_arguments(policy_dirs: Vec<PolicyDir>, args: &[String], store: &mut AttributeStore)
    -> (r: Result<Vec<String>, Error>)
    ensures
        match r {
            Ok(lines) => command_outcome(
                dir_views(policy_dirs@),
                string_views(args@),
                old(store)@,
            ) == (final(store)@, Ok::<Seq<Seq<char>>, ErrorView>(string_views(lines@))),
            Err(e) => command_outcome(dir_views(policy_dirs@), string_views(args@), old(store)@)
                == (final(store)@, Err::<Seq<Seq<char>>, ErrorView>(e@)),
        },
{
    if args.len() == 0 {
        return Err(missing_argument(Argument::Verb));
    }
    let ghost texts = string_views(args@);
    assert(texts[0] == args@[0]@);
    let rest = slice_subrange(args, 1, args.len());
    assert(string_views(rest@) == texts.skip(1));
    let verb = chars_of(args[0].as_str());
    if is_word(&verb, "set") {
        match op_set(policy_dirs, rest, store) {
            Ok(_) => {
                let lines: Vec<String> = Vec::new();
                assert(string_views(lines@) == Seq::<Seq<char>>::empty());
                Ok(lines)
            },
            Err(e) => Err(e),
        }
    } else if is_word(&verb, "get") {
        op_get(policy_dirs, rest, store)
    } else {
        let mut line: Vec<char> = Vec::new();
        append_str(&mut line, "Unrecognized: ");
        append_chars(&mut line, &verb);
        let mut lines: Vec<String> = Vec::new();
        lines.push(string_of(&line));
        assert(string_views(lines@) == seq!["Unrecognized: "@ + args@[0]@]);
        Ok(lines)
    }
}

} // verus!
