//! What holds of the library as a whole: of a write and the reads that
//! follow it, of the order between the rated and the scaling bounds, and of
//! the policies that a selector selects.

use crate::argparse::{
    answer, answers, changed, changed_all, get_outcome, query_of, separator, ChangeView, Query,
};
use crate::error::{ErrorView, Fault, Limit};
use crate::frequency::Frequency;
use crate::policies::{
    attribute_path, chosen, is_policy_name, kilohertz, lowered_all, made_from, number_in_name,
    out_of_bounds, policy_prefix, read_list, read_number, read_text, scaled_max, scaled_min,
    write_text, PolicyDirView, PolicyFile,
};
use crate::store::{join, lemma_first_entry, lemma_written, StoreView};
use crate::target::{
    numbers_at, positions_between, positions_listed, positions_of, selection, target, TargetView,
};
use crate::text::{
    all_digits, decimal_text, digits_value, has_prefix, is_digit, lemma_decimal_text,
    lemma_trim_decimal_text, lowered,
};
use vstd::prelude::*;

verus! {

/// Two entries of one directory have the same path only if they have the
/// same name.
pub proof fn law_join_tells_names_apart(directory: Seq<char>, a: Seq<char>, b: Seq<char>)
    ensures
        join(directory, a) == join(directory, b) <==> a == b,
{
    assert(join(directory, a).skip(directory.len() as int + 1) == a);
    assert(join(directory, b).skip(directory.len() as int + 1) == b);
}

/// The four frequency bounds of a directory are four different files.
pub proof fn law_bounds_are_apart(directory: Seq<char>)
    ensures
        attribute_path(directory, PolicyFile::scaling_max_freq) != attribute_path(
            directory,
            PolicyFile::scaling_min_freq,
        ),
        attribute_path(directory, PolicyFile::scaling_max_freq) != attribute_path(
            directory,
            PolicyFile::cpuinfo_max_freq,
        ),
        attribute_path(directory, PolicyFile::scaling_max_freq) != attribute_path(
            directory,
            PolicyFile::cpuinfo_min_freq,
        ),
        attribute_path(directory, PolicyFile::scaling_min_freq) != attribute_path(
            directory,
            PolicyFile::cpuinfo_max_freq,
        ),
        attribute_path(directory, PolicyFile::scaling_min_freq) != attribute_path(
            directory,
            PolicyFile::cpuinfo_min_freq,
        ),
        attribute_path(directory, PolicyFile::cpuinfo_max_freq) != attribute_path(
            directory,
            PolicyFile::cpuinfo_min_freq,
        ),
{
    reveal_strlit("scaling_max_freq");
    reveal_strlit("scaling_min_freq");
    reveal_strlit("cpuinfo_max_freq");
    reveal_strlit("cpuinfo_min_freq");
    let smax = "scaling_max_freq"@;
    let smin = "scaling_min_freq"@;
    let rmax = "cpuinfo_max_freq"@;
    let rmin = "cpuinfo_min_freq"@;
    assert(smax[9] == 'a' && smin[9] == 'i' && rmax[9] == 'a' && rmin[9] == 'i');
    assert(smax[0] == 's' && smin[0] == 's' && rmax[0] == 'c' && rmin[0] == 'c');
    law_join_tells_names_apart(directory, smax, smin);
    law_join_tells_names_apart(directory, smax, rmax);
    law_join_tells_names_apart(directory, smax, rmin);
    law_join_tells_names_apart(directory, smin, rmax);
    law_join_tells_names_apart(directory, smin, rmin);
    law_join_tells_names_apart(directory, rmax, rmin);
}

/// After a write to an attribute, a read of that attribute gives what was
/// written, if the file can be read at all; and a read of any other
/// attribute, of this directory or another, gives what it gave before.
pub proof fn law_read_after_write(
    store: StoreView,
    directory: Seq<char>,
    file: PolicyFile,
    text: Seq<char>,
    other_directory: Seq<char>,
    other_file: PolicyFile,
)
    requires
        write_text(store, directory, file, text) is Ok,
    ensures
        store.entry(attribute_path(directory, file)).readable ==> read_text(
            write_text(store, directory, file, text)->Ok_0,
            directory,
            file,
        ) == Ok::<Seq<char>, ErrorView>(text),
        attribute_path(other_directory, other_file) != attribute_path(directory, file)
            ==> read_text(
            write_text(store, directory, file, text)->Ok_0,
            other_directory,
            other_file,
        ) == read_text(store, other_directory, other_file),
{
    let path = attribute_path(directory, file);
    lemma_written(store, path, text, path);
    lemma_written(store, path, text, attribute_path(other_directory, other_file));
}

/// After a write of a number in decimal digits to a frequency attribute
/// that can be read, the attribute reads as that number.
pub proof fn law_number_after_write(
    store: StoreView,
    directory: Seq<char>,
    file: PolicyFile,
    number: u64,
)
    requires
        write_text(store, directory, file, decimal_text(number as nat)) is Ok,
        store.entry(attribute_path(directory, file)).readable,
    ensures
        read_number(
            write_text(store, directory, file, decimal_text(number as nat))->Ok_0,
            directory,
            file,
        ) == Ok::<u64, ErrorView>(number),
{
    law_read_after_write(store, directory, file, decimal_text(number as nat), directory, file);
    lemma_decimal_text(number as nat);
    lemma_trim_decimal_text(number as nat);
}

/// A read of a frequency attribute is not changed by a write to another
/// attribute.
pub proof fn law_number_kept(
    store: StoreView,
    directory: Seq<char>,
    file: PolicyFile,
    text: Seq<char>,
    other_directory: Seq<char>,
    other_file: PolicyFile,
)
    requires
        write_text(store, directory, file, text) is Ok,
        attribute_path(other_directory, other_file) != attribute_path(directory, file),
    ensures
        read_number(write_text(store, directory, file, text)->Ok_0, other_directory, other_file)
            == read_number(store, other_directory, other_file),
{
    law_read_after_write(store, directory, file, text, other_directory, other_file);
}

/// Whether the four frequency bounds of a directory can be read and stand
/// in order: rated minimum, scaling minimum, scaling maximum, rated maximum.
pub open spec fn bounds_in_order(store: StoreView, directory: Seq<char>) -> bool {
    &&& read_number(store, directory, PolicyFile::cpuinfo_min_freq) matches Ok(rated_min)
    &&& read_number(store, directory, PolicyFile::scaling_min_freq) matches Ok(scaling_min)
    &&& read_number(store, directory, PolicyFile::scaling_max_freq) matches Ok(scaling_max)
    &&& read_number(store, directory, PolicyFile::cpuinfo_max_freq) matches Ok(rated_max)
    &&& rated_min <= scaling_min <= scaling_max <= rated_max
}

/// When a new scaling maximum is accepted and when it is refused, for a
/// directory whose other three bounds can be read: it is refused as below
/// the scaling minimum, else as above the rated maximum, else as below the
/// rated minimum, and else written, where the file is there to write to.
pub proof fn law_max_is_checked_in_order(
    store: StoreView,
    directory: Seq<char>,
    frequency: Frequency,
    scaling_min: u64,
    rated_max: u64,
    rated_min: u64,
)
    requires
        frequency.khz_in_range(),
        read_number(store, directory, PolicyFile::scaling_min_freq) == Ok::<u64, ErrorView>(
            scaling_min,
        ),
        read_number(store, directory, PolicyFile::cpuinfo_max_freq) == Ok::<u64, ErrorView>(
            rated_max,
        ),
        read_number(store, directory, PolicyFile::cpuinfo_min_freq) == Ok::<u64, ErrorView>(
            rated_min,
        ),
    ensures
        kilohertz(frequency) < scaling_min ==> scaled_max(store, directory, frequency) == Err::<
            StoreView,
            ErrorView,
        >(
            out_of_bounds(
                PolicyFile::scaling_max_freq,
                Limit::CurrentMin,
                kilohertz(frequency),
                scaling_min,
                directory,
            ),
        ),
        scaling_min <= kilohertz(frequency) && kilohertz(frequency) > rated_max ==> scaled_max(
            store,
            directory,
            frequency,
        ) == Err::<StoreView, ErrorView>(
            out_of_bounds(
                PolicyFile::scaling_max_freq,
                Limit::RatedMax,
                kilohertz(frequency),
                rated_max,
                directory,
            ),
        ),
        scaling_min <= kilohertz(frequency) <= rated_max && kilohertz(frequency) < rated_min
            ==> scaled_max(
            store,
            directory,
            frequency,
        ) == Err::<StoreView, ErrorView>(
            out_of_bounds(
                PolicyFile::scaling_max_freq,
                Limit::RatedMin,
                kilohertz(frequency),
                rated_min,
                directory,
            ),
        ),
        scaling_min <= kilohertz(frequency) <= rated_max && rated_min <= kilohertz(frequency)
            ==> scaled_max(
            store,
            directory,
            frequency,
        ) == write_text(
            store,
            directory,
            PolicyFile::scaling_max_freq,
            decimal_text(kilohertz(frequency) as nat),
        ),
        scaled_max(store, directory, frequency) is Ok ==> scaling_min <= kilohertz(frequency)
            <= rated_max && rated_min <= kilohertz(frequency),
{
}

/// The mirror of the law above for a new scaling minimum: it is refused as
/// above the scaling maximum, else as below the rated minimum, else as above
/// the rated maximum, and else written.
pub proof fn law_min_is_checked_in_order(
    store: StoreView,
    directory: Seq<char>,
    frequency: Frequency,
    scaling_max: u64,
    rated_min: u64,
    rated_max: u64,
)
    requires
        frequency.khz_in_range(),
        read_number(store, directory, PolicyFile::scaling_max_freq) == Ok::<u64, ErrorView>(
            scaling_max,
        ),
        read_number(store, directory, PolicyFile::cpuinfo_min_freq) == Ok::<u64, ErrorView>(
            rated_min,
        ),
        read_number(store, directory, PolicyFile::cpuinfo_max_freq) == Ok::<u64, ErrorView>(
            rated_max,
        ),
    ensures
        kilohertz(frequency) > scaling_max ==> scaled_min(store, directory, frequency) == Err::<
            StoreView,
            ErrorView,
        >(
            out_of_bounds(
                PolicyFile::scaling_min_freq,
                Limit::CurrentMax,
                kilohertz(frequency),
                scaling_max,
                directory,
            ),
        ),
        kilohertz(frequency) <= scaling_max && kilohertz(frequency) < rated_min ==> scaled_min(
            store,
            directory,
            frequency,
        ) == Err::<StoreView, ErrorView>(
            out_of_bounds(
                PolicyFile::scaling_min_freq,
                Limit::RatedMin,
                kilohertz(frequency),
                rated_min,
                directory,
            ),
        ),
        rated_min <= kilohertz(frequency) <= scaling_max && kilohertz(frequency) > rated_max
            ==> scaled_min(
            store,
            directory,
            frequency,
        ) == Err::<StoreView, ErrorView>(
            out_of_bounds(
                PolicyFile::scaling_min_freq,
                Limit::RatedMax,
                kilohertz(frequency),
                rated_max,
                directory,
            ),
        ),
        rated_min <= kilohertz(frequency) <= scaling_max && kilohertz(frequency) <= rated_max
            ==> scaled_min(
            store,
            directory,
            frequency,
        ) == write_text(
            store,
            directory,
            PolicyFile::scaling_min_freq,
            decimal_text(kilohertz(frequency) as nat),
        ),
        scaled_min(store, directory, frequency) is Ok ==> rated_min <= kilohertz(frequency)
            <= scaling_max && kilohertz(frequency) <= rated_max,
{
}

/// A scaling maximum that was set is the one that is read afterwards, if
/// the file can be read at all, and the bounds of a directory that stood in
/// order still do.
pub proof fn law_max_set_is_read(store: StoreView, directory: Seq<char>, frequency: Frequency)
    requires
        scaled_max(store, directory, frequency) is Ok,
    ensures
        store.entry(attribute_path(directory, PolicyFile::scaling_max_freq)).readable
            ==> read_number(
            scaled_max(store, directory, frequency)->Ok_0,
            directory,
            PolicyFile::scaling_max_freq,
        ) == Ok::<u64, ErrorView>(kilohertz(frequency)),
        bounds_in_order(store, directory) ==> bounds_in_order(
            scaled_max(store, directory, frequency)->Ok_0,
            directory,
        ),
{
    let desired = kilohertz(frequency);
    let text = decimal_text(desired as nat);
    law_bounds_are_apart(directory);
    if store.entry(attribute_path(directory, PolicyFile::scaling_max_freq)).readable {
        law_number_after_write(store, directory, PolicyFile::scaling_max_freq, desired);
    }
    law_number_kept(
        store,
        directory,
        PolicyFile::scaling_max_freq,
        text,
        directory,
        PolicyFile::scaling_min_freq,
    );
    law_number_kept(
        store,
        directory,
        PolicyFile::scaling_max_freq,
        text,
        directory,
        PolicyFile::cpuinfo_min_freq,
    );
    law_number_kept(
        store,
        directory,
        PolicyFile::scaling_max_freq,
        text,
        directory,
        PolicyFile::cpuinfo_max_freq,
    );
}

/// A scaling minimum that was set is the one that is read afterwards, if
/// the file can be read at all, and the bounds of a directory that stood in
/// order still do.
pub proof fn law_min_set_is_read(store: StoreView, directory: Seq<char>, frequency: Frequency)
    requires
        scaled_min(store, directory, frequency) is Ok,
    ensures
        store.entry(attribute_path(directory, PolicyFile::scaling_min_freq)).readable
            ==> read_number(
            scaled_min(store, directory, frequency)->Ok_0,
            directory,
            PolicyFile::scaling_min_freq,
        ) == Ok::<u64, ErrorView>(kilohertz(frequency)),
        bounds_in_order(store, directory) ==> bounds_in_order(
            scaled_min(store, directory, frequency)->Ok_0,
            directory,
        ),
{
    let desired = kilohertz(frequency);
    let text = decimal_text(desired as nat);
    law_bounds_are_apart(directory);
    if store.entry(attribute_path(directory, PolicyFile::scaling_min_freq)).readable {
        law_number_after_write(store, directory, PolicyFile::scaling_min_freq, desired);
    }
    law_number_kept(
        store,
        directory,
        PolicyFile::scaling_min_freq,
        text,
        directory,
        PolicyFile::scaling_max_freq,
    );
    law_number_kept(
        store,
        directory,
        PolicyFile::scaling_min_freq,
        text,
        directory,
        PolicyFile::cpuinfo_min_freq,
    );
    law_number_kept(
        store,
        directory,
        PolicyFile::scaling_min_freq,
        text,
        directory,
        PolicyFile::cpuinfo_max_freq,
    );
}

/// Both bounds set at once are the bounds that are read afterwards: for a
/// directory whose bounds stand in order, a new minimum and a new maximum
/// are accepted if they lie within the rated bounds, the minimum not above
/// the maximum, and the new minimum not above the scaling maximum that is
/// stored, against which it is checked first.
pub proof fn law_bounds_set_are_read(
    store: StoreView,
    directory: Seq<char>,
    low: Frequency,
    high: Frequency,
)
    requires
        bounds_in_order(store, directory),
        low.khz_in_range(),
        high.khz_in_range(),
        read_number(store, directory, PolicyFile::cpuinfo_min_freq)->Ok_0 <= kilohertz(low),
        kilohertz(low) <= kilohertz(high),
        kilohertz(high) <= read_number(store, directory, PolicyFile::cpuinfo_max_freq)->Ok_0,
        kilohertz(low) <= read_number(store, directory, PolicyFile::scaling_max_freq)->Ok_0,
    ensures
        changed(store, directory, ChangeView::Bounds(Some(low), Some(high))).1 is Ok,
        read_number(
            changed(store, directory, ChangeView::Bounds(Some(low), Some(high))).0,
            directory,
            PolicyFile::scaling_min_freq,
        ) == Ok::<u64, ErrorView>(kilohertz(low)),
        read_number(
            changed(store, directory, ChangeView::Bounds(Some(low), Some(high))).0,
            directory,
            PolicyFile::scaling_max_freq,
        ) == Ok::<u64, ErrorView>(kilohertz(high)),
        bounds_in_order(
            changed(store, directory, ChangeView::Bounds(Some(low), Some(high))).0,
            directory,
        ),
{
    law_bounds_are_apart(directory);
    let rated_min = read_number(store, directory, PolicyFile::cpuinfo_min_freq)->Ok_0;
    let rated_max = read_number(store, directory, PolicyFile::cpuinfo_max_freq)->Ok_0;
    let scaling_max = read_number(store, directory, PolicyFile::scaling_max_freq)->Ok_0;
    law_min_is_checked_in_order(store, directory, low, scaling_max, rated_min, rated_max);
    assert(scaled_min(store, directory, low) is Ok);
    let first = scaled_min(store, directory, low)->Ok_0;
    law_min_set_is_read(store, directory, low);
    law_number_kept(
        store,
        directory,
        PolicyFile::scaling_min_freq,
        decimal_text(kilohertz(low) as nat),
        directory,
        PolicyFile::scaling_max_freq,
    );
    law_number_kept(
        store,
        directory,
        PolicyFile::scaling_min_freq,
        decimal_text(kilohertz(low) as nat),
        directory,
        PolicyFile::cpuinfo_min_freq,
    );
    law_number_kept(
        store,
        directory,
        PolicyFile::scaling_min_freq,
        decimal_text(kilohertz(low) as nat),
        directory,
        PolicyFile::cpuinfo_max_freq,
    );
    law_max_is_checked_in_order(first, directory, high, kilohertz(low), rated_max, rated_min);
    assert(scaled_max(first, directory, high) is Ok);
    law_max_set_is_read(first, directory, high);
    law_number_kept(
        first,
        directory,
        PolicyFile::scaling_max_freq,
        decimal_text(kilohertz(high) as nat),
        directory,
        PolicyFile::scaling_min_freq,
    );
}

/// A change to one directory leaves what is read of each attribute of
/// another as it was.
pub proof fn law_change_keeps_others(
    store: StoreView,
    directory: Seq<char>,
    change: ChangeView,
    other_directory: Seq<char>,
    other_file: PolicyFile,
)
    requires
        other_directory != directory,
    ensures
        read_text(changed(store, directory, change).0, other_directory, other_file) == read_text(
            store,
            other_directory,
            other_file,
        ),
{
    law_directories_are_apart(other_directory, directory);
    assert(attribute_path(other_directory, other_file) != attribute_path(
        directory,
        PolicyFile::scaling_min_freq,
    ));
    assert(attribute_path(other_directory, other_file) != attribute_path(
        directory,
        PolicyFile::scaling_max_freq,
    ));
    assert(attribute_path(other_directory, other_file) != attribute_path(
        directory,
        PolicyFile::scaling_governor,
    ));
    assert(attribute_path(other_directory, other_file) != attribute_path(
        directory,
        PolicyFile::energy_performance_preference,
    ));
    match change {
        ChangeView::Bounds(low, high) => {
            let first = match low {
                None => store,
                Some(f) => if scaled_min(store, directory, f) is Ok {
                    scaled_min(store, directory, f)->Ok_0
                } else {
                    store
                },
            };
            if low is Some && scaled_min(store, directory, low->0) is Ok {
                law_read_after_write(
                    store,
                    directory,
                    PolicyFile::scaling_min_freq,
                    decimal_text(kilohertz(low->0) as nat),
                    other_directory,
                    other_file,
                );
            }
            if high is Some && scaled_max(first, directory, high->0) is Ok {
                law_read_after_write(
                    first,
                    directory,
                    PolicyFile::scaling_max_freq,
                    decimal_text(kilohertz(high->0) as nat),
                    other_directory,
                    other_file,
                );
            }
        },
        ChangeView::Governor(name) => {
            if chosen(
                store,
                directory,
                PolicyFile::scaling_available_governors,
                PolicyFile::scaling_governor,
                name,
            ) is Ok {
                law_read_after_write(
                    store,
                    directory,
                    PolicyFile::scaling_governor,
                    lowered(name),
                    other_directory,
                    other_file,
                );
            }
        },
        ChangeView::Profile(name) => {
            if chosen(
                store,
                directory,
                PolicyFile::energy_performance_available_preferences,
                PolicyFile::energy_performance_preference,
                name,
            ) is Ok {
                law_read_after_write(
                    store,
                    directory,
                    PolicyFile::energy_performance_preference,
                    lowered(name),
                    other_directory,
                    other_file,
                );
            }
        },
        ChangeView::Nothing => {},
    }
}

/// Whether no attribute of the one directory has the path of an attribute
/// of the other.
pub open spec fn apart(a: Seq<char>, b: Seq<char>) -> bool {
    forall|f: PolicyFile, g: PolicyFile| #[trigger]
        attribute_path(a, f) != #[trigger] attribute_path(b, g)
}

/// No name of an attribute file holds a slash.
pub proof fn law_names_hold_no_slash(file: PolicyFile)
    ensures
        !file.file_name().contains('/'),
{
    match file {
        PolicyFile::affected_cpus => {
            reveal_strlit("affected_cpus");
        },
        PolicyFile::base_frequency => {
            reveal_strlit("base_frequency");
        },
        PolicyFile::cpuinfo_max_freq => {
            reveal_strlit("cpuinfo_max_freq");
        },
        PolicyFile::cpuinfo_min_freq => {
            reveal_strlit("cpuinfo_min_freq");
        },
        PolicyFile::cpuinfo_transition_latency => {
            reveal_strlit("cpuinfo_transition_latency");
        },
        PolicyFile::energy_performance_available_preferences => {
            reveal_strlit("energy_performance_available_preferences");
        },
        PolicyFile::energy_performance_preference => {
            reveal_strlit("energy_performance_preference");
        },
        PolicyFile::related_cpus => {
            reveal_strlit("related_cpus");
        },
        PolicyFile::scaling_available_governors => {
            reveal_strlit("scaling_available_governors");
        },
        PolicyFile::scaling_cur_freq => {
            reveal_strlit("scaling_cur_freq");
        },
        PolicyFile::scaling_driver => {
            reveal_strlit("scaling_driver");
        },
        PolicyFile::scaling_governor => {
            reveal_strlit("scaling_governor");
        },
        PolicyFile::scaling_max_freq => {
            reveal_strlit("scaling_max_freq");
        },
        PolicyFile::scaling_min_freq => {
            reveal_strlit("scaling_min_freq");
        },
        PolicyFile::scaling_setspeed => {
            reveal_strlit("scaling_setspeed");
        },
    }
}

/// Two names without a slash, in two directories, have the same path only
/// if the directories are the same.
pub proof fn law_path_tells_directories_apart(
    a: Seq<char>,
    b: Seq<char>,
    first: Seq<char>,
    second: Seq<char>,
)
    requires
        !first.contains('/'),
        !second.contains('/'),
        join(a, first) == join(b, second),
    ensures
        a == b,
        first == second,
{
    let path = join(a, first);
    let other = join(b, second);
    assert(path.len() == a.len() + 1 + first.len());
    assert(other.len() == b.len() + 1 + second.len());
    assert(path[a.len() as int] == '/');
    assert(other[b.len() as int] == '/');
    if a.len() < b.len() {
        let k = b.len() - a.len() - 1;
        assert(0 <= k < first.len());
        assert(path[b.len() as int] == first[k]);
        assert(first[k] == '/');
    } else if b.len() < a.len() {
        let k = a.len() - b.len() - 1;
        assert(0 <= k < second.len());
        assert(other[a.len() as int] == second[k]);
        assert(second[k] == '/');
    } else {
        assert(a == path.take(a.len() as int));
        assert(b == other.take(b.len() as int));
        law_join_tells_names_apart(a, first, second);
    }
}

/// Two different directories are apart.
pub proof fn law_directories_are_apart(a: Seq<char>, b: Seq<char>)
    requires
        a != b,
    ensures
        apart(a, b),
{
    assert forall|f: PolicyFile, g: PolicyFile| #[trigger]
        attribute_path(a, f) != #[trigger] attribute_path(b, g) by {
        law_names_hold_no_slash(f);
        law_names_hold_no_slash(g);
        if attribute_path(a, f) == attribute_path(b, g) {
            law_path_tells_directories_apart(a, b, f.file_name(), g.file_name());
        }
    }
}

/// Whether a directory can take the bounds `low` and `high`: its bounds
/// stand in order, the new bounds lie within the rated ones, the minimum not
/// above the maximum, and the new minimum is not above the scaling maximum
/// that is stored.
pub open spec fn takes_bounds(
    store: StoreView,
    directory: Seq<char>,
    low: Frequency,
    high: Frequency,
) -> bool {
    &&& bounds_in_order(store, directory)
    &&& read_number(store, directory, PolicyFile::cpuinfo_min_freq)->Ok_0 <= kilohertz(low)
    &&& kilohertz(low) <= kilohertz(high)
    &&& kilohertz(high) <= read_number(store, directory, PolicyFile::cpuinfo_max_freq)->Ok_0
    &&& kilohertz(low) <= read_number(store, directory, PolicyFile::scaling_max_freq)->Ok_0
}

/// Whether a directory has the scaling bounds `low` and `high`, and its
/// bounds stand in order.
pub open spec fn has_bounds(
    store: StoreView,
    directory: Seq<char>,
    low: Frequency,
    high: Frequency,
) -> bool {
    &&& bounds_in_order(store, directory)
    &&& read_number(store, directory, PolicyFile::scaling_min_freq) == Ok::<u64, ErrorView>(
        kilohertz(low),
    )
    &&& read_number(store, directory, PolicyFile::scaling_max_freq) == Ok::<u64, ErrorView>(
        kilohertz(high),
    )
}

/// Changes to directories leave what is read of an attribute as it was,
/// where the attribute belongs to a directory that is none of them.
pub proof fn law_changes_keep_others(
    store: StoreView,
    dirs: Seq<PolicyDirView>,
    positions: Seq<usize>,
    change: ChangeView,
    other_directory: Seq<char>,
    other_file: PolicyFile,
)
    requires
        forall|i: int|
            0 <= i < positions.len() ==> other_directory != dirs[(
            #[trigger] positions[i]) as int].full_path,
    ensures
        read_text(changed_all(store, dirs, positions, change).0, other_directory, other_file)
            == read_text(store, other_directory, other_file),
    decreases positions.len(),
{
    if positions.len() > 0 {
        let directory = dirs[positions[0] as int].full_path;
        let step = changed(store, directory, change);
        assert(other_directory != dirs[positions[0] as int].full_path);
        law_change_keeps_others(store, directory, change, other_directory, other_file);
        if step.1 is Ok {
            let rest = positions.drop_first();
            assert forall|i: int| 0 <= i < rest.len() implies other_directory != dirs[(
            #[trigger] rest[i]) as int].full_path by {
                assert(rest[i] == positions[i + 1]);
            }
            law_changes_keep_others(step.0, dirs, rest, change, other_directory, other_file);
        }
    }
}

/// Bounds set on several directories at once are the bounds of each of them
/// afterwards, if each can take them.
pub proof fn law_bounds_set_on_all(
    store: StoreView,
    dirs: Seq<PolicyDirView>,
    positions: Seq<usize>,
    low: Frequency,
    high: Frequency,
)
    requires
        low.khz_in_range(),
        high.khz_in_range(),
        forall|i: int|
            0 <= i < positions.len() ==> takes_bounds(
                store,
                dirs[(#[trigger] positions[i]) as int].full_path,
                low,
                high,
            ),
    ensures
        changed_all(store, dirs, positions, ChangeView::Bounds(Some(low), Some(high))).1 is Ok,
        forall|i: int|
            0 <= i < positions.len() ==> has_bounds(
                changed_all(store, dirs, positions, ChangeView::Bounds(Some(low), Some(high))).0,
                dirs[(#[trigger] positions[i]) as int].full_path,
                low,
                high,
            ),
    decreases positions.len(),
{
    if positions.len() > 0 {
        let change = ChangeView::Bounds(Some(low), Some(high));
        let directory = dirs[positions[0] as int].full_path;
        let step = changed(store, directory, change);
        let rest = positions.drop_first();
        assert(takes_bounds(store, directory, low, high));
        law_bounds_set_are_read(store, directory, low, high);
        assert(has_bounds(step.0, directory, low, high));
        assert forall|i: int| 0 <= i < rest.len() implies takes_bounds(
            step.0,
            dirs[(#[trigger] rest[i]) as int].full_path,
            low,
            high,
        ) by {
            assert(rest[i] == positions[i + 1]);
            let other = dirs[rest[i] as int].full_path;
            assert(takes_bounds(store, other, low, high));
            if other != directory {
                four_bounds_kept(store, directory, change, other);
            }
        }
        law_bounds_set_on_all(step.0, dirs, rest, low, high);
        let end = changed_all(step.0, dirs, rest, change).0;
        assert(changed_all(store, dirs, positions, change) == changed_all(
            step.0,
            dirs,
            rest,
            change,
        ));
        assert forall|i: int| 0 <= i < positions.len() implies has_bounds(
            end,
            dirs[(#[trigger] positions[i]) as int].full_path,
            low,
            high,
        ) by {
            if i > 0 {
                assert(positions[i] == rest[i - 1]);
            } else if exists|j: int| 0 <= j < rest.len() && dirs[rest[j] as int].full_path
                == directory {
                let j = choose|j: int| 0 <= j < rest.len() && dirs[rest[j] as int].full_path
                    == directory;
                assert(has_bounds(end, dirs[rest[j] as int].full_path, low, high));
            } else {
                law_changes_keep_others(
                    step.0,
                    dirs,
                    rest,
                    change,
                    directory,
                    PolicyFile::cpuinfo_min_freq,
                );
                law_changes_keep_others(
                    step.0,
                    dirs,
                    rest,
                    change,
                    directory,
                    PolicyFile::cpuinfo_max_freq,
                );
                law_changes_keep_others(
                    step.0,
                    dirs,
                    rest,
                    change,
                    directory,
                    PolicyFile::scaling_min_freq,
                );
                law_changes_keep_others(
                    step.0,
                    dirs,
                    rest,
                    change,
                    directory,
                    PolicyFile::scaling_max_freq,
                );
            }
        }
    }
}

/// A change to one directory leaves the four bounds of a directory apart
/// from it as they were.
proof fn four_bounds_kept(
    store: StoreView,
    directory: Seq<char>,
    change: ChangeView,
    other: Seq<char>,
)
    requires
        other != directory,
    ensures
        read_number(changed(store, directory, change).0, other, PolicyFile::cpuinfo_min_freq)
            == read_number(store, other, PolicyFile::cpuinfo_min_freq),
        read_number(changed(store, directory, change).0, other, PolicyFile::cpuinfo_max_freq)
            == read_number(store, other, PolicyFile::cpuinfo_max_freq),
        read_number(changed(store, directory, change).0, other, PolicyFile::scaling_min_freq)
            == read_number(store, other, PolicyFile::scaling_min_freq),
        read_number(changed(store, directory, change).0, other, PolicyFile::scaling_max_freq)
            == read_number(store, other, PolicyFile::scaling_max_freq),
{
    law_change_keeps_others(store, directory, change, other, PolicyFile::cpuinfo_min_freq);
    law_change_keeps_others(store, directory, change, other, PolicyFile::cpuinfo_max_freq);
    law_change_keeps_others(store, directory, change, other, PolicyFile::scaling_min_freq);
    law_change_keeps_others(store, directory, change, other, PolicyFile::scaling_max_freq);
}

/// A value is refused if, folded to lower case, it is not among the allowed
/// values, folded likewise; the failure names the value and lists the
/// allowed values.
pub proof fn law_choice_is_checked(
    store: StoreView,
    directory: Seq<char>,
    list_file: PolicyFile,
    value_file: PolicyFile,
    candidate: Seq<char>,
)
    requires
        read_list(store, directory, list_file) is Ok,
        !lowered_all(read_list(store, directory, list_file)->Ok_0).contains(lowered(candidate)),
    ensures
        chosen(store, directory, list_file, value_file, candidate) == Err::<StoreView, ErrorView>(
            ErrorView {
                fault: Fault::NotAvailable(value_file),
                subject: candidate,
                directory,
                allowed: read_list(store, directory, list_file)->Ok_0,
            },
        ),
{
}

/// A value that was accepted is among the allowed values, whatever the case
/// of its letters, and is, in lower case, what the attribute reads as
/// afterwards, if it can be read.
pub proof fn law_choice_is_read(
    store: StoreView,
    directory: Seq<char>,
    list_file: PolicyFile,
    value_file: PolicyFile,
    candidate: Seq<char>,
)
    requires
        chosen(store, directory, list_file, value_file, candidate) is Ok,
    ensures
        read_list(store, directory, list_file) is Ok,
        lowered_all(read_list(store, directory, list_file)->Ok_0).contains(lowered(candidate)),
        store.entry(attribute_path(directory, value_file)).readable ==> read_text(
            chosen(store, directory, list_file, value_file, candidate)->Ok_0,
            directory,
            value_file,
        ) == Ok::<Seq<char>, ErrorView>(lowered(candidate)),
{
    law_read_after_write(store, directory, value_file, lowered(candidate), directory, value_file);
}

/// The selector for every policy selects the known numbers as they stand.
pub proof fn law_all_selects_each(known: Seq<u32>)
    requires
        known.len() <= usize::MAX,
    ensures
        numbers_at(known, selection(TargetView::All, known)) == known,
{
}

/// The positions of a number hold that number, each position of `known`
/// that holds it is among them, and they ascend.
pub proof fn law_positions_of(known: Seq<u32>, n: u32)
    requires
        known.len() <= usize::MAX,
    ensures
        forall|i: int|
            0 <= i < positions_of(known, n).len() ==> (#[trigger] positions_of(known, n)[i])
                < known.len() && known[positions_of(known, n)[i] as int] == n,
        forall|p: int|
            0 <= p < known.len() && known[p] == n ==> positions_of(known, n).contains(p as usize),
        forall|i: int, j: int|
            0 <= i < j < positions_of(known, n).len() ==> positions_of(known, n)[i] < positions_of(
                known,
                n,
            )[j],
    decreases known.len(),
{
    if known.len() > 0 {
        let prefix = known.drop_last();
        law_positions_of(prefix, n);
        let before = positions_of(prefix, n);
        let all = positions_of(known, n);
        assert forall|i: int| 0 <= i < all.len() implies (#[trigger] all[i]) < known.len()
            && known[all[i] as int] == n by {
            if i < before.len() {
                assert(all[i] == before[i]);
                assert(prefix[before[i] as int] == known[before[i] as int]);
            }
        }
        assert forall|p: int| 0 <= p < known.len() && known[p] == n implies all.contains(
            p as usize,
        ) by {
            if p < prefix.len() {
                assert(prefix[p] == n);
                assert(before.contains(p as usize));
                let k = choose|k: int| 0 <= k < before.len() && before[k] == p as usize;
                assert(all[k] == p as usize);
            } else {
                assert(all[all.len() - 1] == p as usize);
            }
        }
        assert forall|i: int, j: int| 0 <= i < j < all.len() implies all[i] < all[j] by {
            assert(all[i] == before[i]);
            if j < before.len() {
                assert(all[j] == before[j]);
            } else {
                assert(before[i] < prefix.len());
            }
        }
    }
}

/// A selector selects known numbers only: every number that it gives is
/// held by `known`.
pub proof fn law_selection_is_known(expression: TargetView, known: Seq<u32>)
    requires
        known.len() <= usize::MAX,
    ensures
        forall|i: int|
            0 <= i < selection(expression, known).len() ==> (#[trigger] selection(
                expression,
                known,
            )[i]) < known.len(),
        forall|i: int|
            0 <= i < numbers_at(known, selection(expression, known)).len() ==> known.contains(
                #[trigger] numbers_at(known, selection(expression, known))[i],
            ),
{
    crate::target::lemma_selection_within(expression, known);
    let chosen = selection(expression, known);
    assert forall|i: int| 0 <= i < numbers_at(known, chosen).len() implies known.contains(
        #[trigger] numbers_at(known, chosen)[i],
    ) by {
        assert(chosen[i] < known.len());
    }
}

/// A single number selects nothing if `known` does not hold it, and a
/// range whose numbers `known` does not hold selects nothing.
pub proof fn law_unknown_is_dropped(known: Seq<u32>, n: u32)
    requires
        known.len() <= usize::MAX,
        !known.contains(n),
    ensures
        selection(TargetView::Single(n), known).len() == 0,
        positions_listed(known, seq![n]).len() == 0,
        positions_between(known, n as int, n as int).len() == 0,
{
    crate::target::lemma_positions_of(known, n);
    assert(seq![n].drop_last() == Seq::<u32>::empty());
    assert(positions_listed(known, seq![n]) == positions_listed(known, seq![n].drop_last())
        + positions_of(known, seq![n].last()));
    assert(positions_between(known, n as int, n as int) == positions_between(
        known,
        n as int,
        n as int - 1,
    ) + positions_of(known, n));
}

/// A range selects the positions of `known` that hold a number from its
/// start to its end, and no others, and it selects them in the ascending
/// order of their numbers.
pub proof fn law_range_selects_in_order(known: Seq<u32>, start: u32, end: u32)
    requires
        known.len() <= usize::MAX,
    ensures
        forall|i: int|
            0 <= i < positions_between(known, start as int, end as int).len() ==> (
            #[trigger] positions_between(known, start as int, end as int)[i]) < known.len()
                && start <= known[positions_between(known, start as int, end as int)[i] as int]
                <= end,
        forall|p: int|
            0 <= p < known.len() && start <= (#[trigger] known[p]) && known[p] <= end
                ==> positions_between(
                known,
                start as int,
                end as int,
            ).contains(p as usize),
        forall|i: int, j: int|
            0 <= i < j < positions_between(known, start as int, end as int).len()
                ==> known[positions_between(known, start as int, end as int)[i] as int]
                <= known[positions_between(known, start as int, end as int)[j] as int],
{
    if end as int >= start as int - 1 {
        range_upto(known, start as int, end as int);
    }
}

/// The law of ranges, for a range that may end just below its start.
proof fn range_upto(known: Seq<u32>, start: int, end: int)
    requires
        known.len() <= usize::MAX,
        0 <= start,
        start - 1 <= end <= u32::MAX,
    ensures
        forall|i: int|
            0 <= i < positions_between(known, start, end).len() ==> (#[trigger] positions_between(
                known,
                start,
                end,
            )[i]) < known.len() && start <= known[positions_between(known, start, end)[i] as int]
                <= end,
        forall|p: int|
            0 <= p < known.len() && start <= (#[trigger] known[p]) && known[p] <= end
                ==> positions_between(
                known,
                start,
                end,
            ).contains(p as usize),
        forall|i: int, j: int|
            0 <= i < j < positions_between(known, start, end).len() ==> known[positions_between(
                known,
                start,
                end,
            )[i] as int] <= known[positions_between(known, start, end)[j] as int],
    decreases end - start + 1,
{
    if end >= start {
        range_upto(known, start, end - 1);
        law_positions_of(known, end as u32);
        let before = positions_between(known, start, end - 1);
        let last = positions_of(known, end as u32);
        let all = positions_between(known, start, end);
        assert(all == before + last);
        assert forall|i: int| 0 <= i < all.len() implies (#[trigger] all[i]) < known.len() && start
            <= known[all[i] as int] <= end by {
            if i < before.len() {
                assert(all[i] == before[i]);
            } else {
                assert(all[i] == last[i - before.len()]);
            }
        }
        assert forall|p: int|
            0 <= p < known.len() && start <= (#[trigger] known[p]) && known[p]
                <= end implies all.contains(p as usize) by {
            if known[p] == end {
                assert(last.contains(p as usize));
                let k = choose|k: int| 0 <= k < last.len() && last[k] == p as usize;
                assert(all[before.len() + k] == p as usize);
            } else {
                assert(before.contains(p as usize));
                let k = choose|k: int| 0 <= k < before.len() && before[k] == p as usize;
                assert(all[k] == p as usize);
            }
        }
        assert forall|i: int, j: int| 0 <= i < j < all.len() implies known[all[i] as int]
            <= known[all[j] as int] by {
            if j < before.len() {
                assert(all[i] == before[i] && all[j] == before[j]);
            } else if i < before.len() {
                assert(all[i] == before[i]);
                assert(all[j] == last[j - before.len()]);
            } else {
                assert(all[i] == last[i - before.len()]);
                assert(all[j] == last[j - before.len()]);
            }
        }
    }
}

/// What is reported of several policies, when nothing fails, holds one
/// block for each position, in order, and a separator between two blocks:
/// the blocks stand at the even places and the separators at the odd ones.
pub proof fn law_reports_are_parted(
    store: StoreView,
    dirs: Seq<PolicyDirView>,
    positions: Seq<usize>,
    query: Query,
)
    requires
        answers(store, dirs, positions, query) is Ok,
    ensures
        positions.len() == 0 ==> answers(store, dirs, positions, query)->Ok_0.len() == 0,
        positions.len() > 0 ==> answers(store, dirs, positions, query)->Ok_0.len() == 2
            * positions.len() - 1,
        forall|i: int|
            0 <= i < positions.len() ==> answer(
                store,
                dirs[(#[trigger] positions[i]) as int],
                query,
            ) == Ok::<Seq<char>, ErrorView>(
                answers(store, dirs, positions, query)->Ok_0[2 * i],
            ),
        forall|i: int|
            1 <= i < positions.len() ==> (#[trigger] answers(
                store,
                dirs,
                positions,
                query,
            )->Ok_0[2 * i - 1]) == separator(),
    decreases positions.len(),
{
    if positions.len() > 0 {
        let before = positions.drop_last();
        let n = positions.len() as int;
        law_reports_are_parted(store, dirs, before, query);
        let blocks = answers(store, dirs, before, query)->Ok_0;
        let all = answers(store, dirs, positions, query)->Ok_0;
        let block = answer(store, dirs[positions.last() as int], query)->Ok_0;
        if n > 1 {
            assert(all == blocks.push(separator()).push(block));
        } else {
            assert(all == blocks.push(block));
        }
        assert forall|i: int| 0 <= i < n implies answer(
            store,
            dirs[(#[trigger] positions[i]) as int],
            query,
        ) == Ok::<Seq<char>, ErrorView>(all[2 * i]) by {
            if i < n - 1 {
                assert(positions[i] == before[i]);
                assert(all[2 * i] == blocks[2 * i]);
            }
        }
        assert forall|i: int| 1 <= i < n implies (#[trigger] all[2 * i - 1]) == separator() by {
            if i < n - 1 {
                assert(all[2 * i - 1] == blocks[2 * i - 1]);
            }
        }
    }
}

/// A policy directory that was made is a directory of the store under the
/// path that it was made from; its name is the last part of that path, and
/// is the prefix, once, and then the digits of its number, of which there
/// is one at least. A listing takes every such name.
pub proof fn law_made_dir_is_named(store: StoreView, path: Seq<char>)
    requires
        made_from(store, path) is Ok,
    ensures
        store.holds(path),
        store.entry(path).is_directory(),
        made_from(store, path)->Ok_0.full_path == path,
        made_from(store, path)->Ok_0.dir_name == store.entry(path).name,
        path == join(store.entry(path).parent, made_from(store, path)->Ok_0.dir_name),
        made_from(store, path)->Ok_0.dir_name == policy_prefix() + made_from(
            store,
            path,
        )->Ok_0.dir_name.skip(6),
        made_from(store, path)->Ok_0.dir_name.skip(6).len() > 0,
        all_digits(made_from(store, path)->Ok_0.dir_name.skip(6)),
        digits_value(made_from(store, path)->Ok_0.dir_name.skip(6)) == made_from(
            store,
            path,
        )->Ok_0.policy_number,
        is_policy_name(made_from(store, path)->Ok_0.dir_name),
{
    lemma_first_entry(store.entries, path);
    let name = store.entry(path).name;
    assert(has_prefix(name, policy_prefix()));
    assert(name == name.take(6) + name.skip(6));
}

/// A name with more than one prefix, or with none, is the name of no policy
/// directory: none can be made from it.
pub proof fn law_prefix_stands_once(name: Seq<char>)
    requires
        !has_prefix(name, policy_prefix()) || has_prefix(name.skip(6), policy_prefix()),
    ensures
        number_in_name(name) is None,
{
    if has_prefix(name, policy_prefix()) {
        let rest = name.skip(6);
        assert(rest.take(6) == policy_prefix());
        assert(rest[0] == rest.take(6)[0]);
        assert(rest[0] == 'p');
        assert(!is_digit(rest[0]));
    }
}

/// An attribute and a word that ask for nothing known give no line, however
/// many policies are selected, and no failure, once the selector is read.
pub proof fn law_unknown_query_reports_nothing(
    dirs: Seq<PolicyDirView>,
    args: Seq<Seq<char>>,
    store: StoreView,
)
    requires
        args.len() >= 3,
        target(args[0]) is Ok,
        query_of(args[1], args[2]) is None,
    ensures
        get_outcome(dirs, args, store) == Ok::<Seq<Seq<char>>, ErrorView>(seq![]),
{
}

} // verus!
