//! What can go wrong, and how it is reported: one value that names the
//! fault, the offending text, the directory concerned and, where a value was
//! not among those allowed, the values that are.

use crate::frequency::{two_places, Frequency, GigaHertz};
use crate::policies::PolicyFile;
use crate::text::{
    append_chars, append_str, chars_of, decimal_text, render_decimal, string_of, string_views,
};
use vstd::prelude::*;

verus! {

/// The four classes of failure.
#[derive(Clone, Copy, Debug, PartialEq, Eq, Structural)]
pub enum Category {
    /// A policy directory could not be made from a path.
    Construction,
    /// An attribute file is absent, or cannot be read or written.
    AttributeIo,
    /// A token of the command does not follow its grammar.
    Parse,
    /// A well-formed value is not allowed by the state of the store.
    Validation,
}

/// The positional arguments of a command.
#[derive(Clone, Copy, Debug, PartialEq, Eq, Structural)]
pub enum Argument {
    Verb,
    Target,
    Attribute,
    Value,
}

/// The bounds that a new scaling frequency is held against.
#[derive(Clone, Copy, Debug, PartialEq, Eq, Structural)]
pub enum Limit {
    /// The scaling minimum that is stored now: a new maximum must not be below it.
    CurrentMin,
    /// The scaling maximum that is stored now: a new minimum must not be above it.
    CurrentMax,
    /// The rated minimum: no scaling frequency may be below it.
    RatedMin,
    /// The rated maximum: no scaling frequency may be above it.
    RatedMax,
}

/// The kind of a failure, with the numbers and names that belong to it.
#[derive(Clone, Copy, Debug, PartialEq, Eq, Structural)]
pub enum Fault {
    /// The path names nothing in the store. The subject is the path.
    PathMissing,
    /// The path names something that is no directory. The subject is the path.
    NotADirectory,
    /// The name of a directory is not the prefix and a policy number. The
    /// subject is what follows the prefix, or the whole name if it does not
    /// begin with the prefix.
    BadPolicyNumber,
    /// The directory lists no policy directory. The subject is its path.
    NoPolicyDirs,
    /// The directory lists no regular file. The subject is its path.
    NoPolicyFiles,
    /// The attribute file is absent from the directory.
    AttributeMissing(PolicyFile),
    /// The attribute file is there and cannot be read.
    AttributeUnreadable(PolicyFile),
    /// The file is there and cannot be written. The subject is its path.
    Unwritable,
    /// A frequency pair without `:`. The subject is the pair.
    MissingDelimiter,
    /// A frequency pair with nothing on either side of `:`. The subject is the pair.
    NoBounds,
    /// A frequency that ends in a letter that is no unit. The subject is the frequency.
    InvalidSuffix(char),
    /// A text that should be a number and is none, or one too large. The
    /// subject is the text.
    InvalidNumber,
    /// A part of a policy selector that is no policy number. The subject is the part.
    InvalidTarget,
    /// A range of policies whose end is below its start.
    InvertedRange { start: u32, end: u32 },
    /// The command ends before this argument.
    MissingArgument(Argument),
    /// The attribute file holds no number that fits in 64 bits. The subject
    /// is its content without the white space around it.
    NotANumber(PolicyFile),
    /// The list of allowed values in this attribute file holds no value.
    EmptyList(PolicyFile),
    /// The value is not among those allowed for this attribute. The subject
    /// is the value as it was compared, and the allowed values are listed.
    NotAvailable(PolicyFile),
    /// The frequency, in kilohertz, is on the wrong side of a bound.
    OutOfBounds { attribute: PolicyFile, limit: Limit, desired: u64, bound: u64 },
    /// The frequency has no 64-bit number of kilohertz.
    Unrepresentable(Frequency),
}

impl Fault {
    /// The class that a fault belongs to.
    pub open spec fn class(self) -> Category {
        match self {
            Fault::PathMissing | Fault::NotADirectory | Fault::BadPolicyNumber
            | Fault::NoPolicyDirs | Fault::NoPolicyFiles => Category::Construction,
            Fault::AttributeMissing(_) | Fault::AttributeUnreadable(_) | Fault::Unwritable => {
                Category::AttributeIo
            },
            Fault::MissingDelimiter | Fault::NoBounds | Fault::InvalidSuffix(_)
            | Fault::InvalidNumber | Fault::InvalidTarget | Fault::InvertedRange { .. }
            | Fault::MissingArgument(_) | Fault::NotANumber(_) => Category::Parse,
            Fault::EmptyList(_) | Fault::NotAvailable(_) | Fault::OutOfBounds { .. }
            | Fault::Unrepresentable(_) => Category::Validation,
        }
    }

    /// The class that a fault belongs to.
    pub fn category(&self) -> (c: Category)
        ensures
            c == self.class(),
    {
        match self {
            Fault::PathMissing | Fault::NotADirectory | Fault::BadPolicyNumber
            | Fault::NoPolicyDirs | Fault::NoPolicyFiles => Category::Construction,
            Fault::AttributeMissing(_) | Fault::AttributeUnreadable(_) | Fault::Unwritable => {
                Category::AttributeIo
            },
            Fault::MissingDelimiter | Fault::NoBounds | Fault::InvalidSuffix(_)
            | Fault::InvalidNumber | Fault::InvalidTarget | Fault::InvertedRange { .. }
            | Fault::MissingArgument(_) | Fault::NotANumber(_) => Category::Parse,
            Fault::EmptyList(_) | Fault::NotAvailable(_) | Fault::OutOfBounds { .. }
            | Fault::Unrepresentable(_) => Category::Validation,
        }
    }
}

/// A failure as contracts speak of it.
pub struct ErrorView {
    pub fault: Fault,
    pub subject: Seq<char>,
    pub directory: Seq<char>,
    pub allowed: Seq<Seq<char>>,
}

/// A failure: its kind, the offending text, the directory concerned, and the
/// values that would have been allowed. A part that does not apply is empty.
#[derive(Clone, Debug, PartialEq, Eq)]
pub struct Error {
    pub fault: Fault,
    pub subject: String,
    pub directory: String,
    pub allowed: Vec<String>,
}

impl View for Error {
    type V = ErrorView;

    open spec fn view(&self) -> ErrorView {
        ErrorView {
            fault: self.fault,
            subject: self.subject@,
            directory: self.directory@,
            allowed: string_views(self.allowed@),
        }
    }
}

/// A result as contracts speak of it: the value as it is, or the view of the
/// failure.
pub open spec fn outcome<T>(r: Result<T, Error>) -> Result<T, ErrorView> {
    match r {
        Ok(t) => Ok(t),
        Err(e) => Err(e@),
    }
}

/// The failure of kind `fault` about the text `subject`.
pub open spec fn failure(fault: Fault, subject: Seq<char>) -> ErrorView {
    ErrorView { fault, subject, directory: seq![], allowed: seq![] }
}

/// The failure of kind `fault` in the directory `directory`.
pub open spec fn failure_in(fault: Fault, directory: Seq<char>) -> ErrorView {
    ErrorView { fault, subject: seq![], directory, allowed: seq![] }
}

impl Error {
    /// The failure with the given parts.
    pub fn new(fault: Fault, subject: &Vec<char>, directory: &str, allowed: Vec<String>) -> (e:
        Error)
        ensures
            e@ == (ErrorView {
                fault,
                subject: subject@,
                directory: directory@,
                allowed: string_views(allowed@),
            }),
    {
        let d = chars_of(directory);
        Error { fault, subject: string_of(subject), directory: string_of(&d), allowed }
    }

    /// The failure of kind `fault` about the text `subject`.
    pub fn about(fault: Fault, subject: &Vec<char>) -> (e: Error)
        ensures
            e@ == failure(fault, subject@),
    {
        let e = Error {
            fault,
            subject: string_of(subject),
            directory: String::new(),
            allowed: Vec::new(),
        };
        assert(e@.allowed == Seq::<Seq<char>>::empty());
        e
    }

    /// The failure of kind `fault` in the directory `directory`.
    pub fn within(fault: Fault, directory: &str) -> (e: Error)
        ensures
            e@ == failure_in(fault, directory@),
    {
        let d = chars_of(directory);
        let e = Error {
            fault,
            subject: String::new(),
            directory: string_of(&d),
            allowed: Vec::new(),
        };
        assert(e@.allowed == Seq::<Seq<char>>::empty());
        e
    }

    /// The class of the failure.
    pub fn category(&self) -> (c: Category)
        ensures
            c == self@.fault.class(),
    {
        self.fault.category()
    }
}

/// A value between two fixed texts.
pub open spec fn framed(before: Seq<char>, value: Seq<char>, after: Seq<char>) -> Seq<char> {
    before + value + after
}

/// The path of an attribute file as a message shows it.
pub open spec fn shown_path(directory: Seq<char>, file: PolicyFile) -> Seq<char> {
    directory + seq!['/'] + file.file_name()
}

/// A number of kilohertz as a message shows it: in gigahertz, with two
/// decimal places.
pub open spec fn shown_kilohertz(k: u64) -> Seq<char> {
    two_places((k * 1000) as nat) + " GHz"@
}

/// The texts of a list, with a comma and a space between two of them.
pub open spec fn enumerated(items: Seq<Seq<char>>) -> Seq<char>
    decreases items.len(),
{
    if items.len() == 0 {
        seq![]
    } else if items.len() == 1 {
        items[0]
    } else {
        enumerated(items.drop_last()) + ", "@ + items.last()
    }
}

/// What a message says of the bound that a frequency is held against.
pub open spec fn limit_phrase(limit: Limit) -> Seq<char> {
    match limit {
        Limit::CurrentMin => "' is lower than the current scaling_min '"@,
        Limit::CurrentMax => "' is higher than the current scaling_max '"@,
        Limit::RatedMin => "' is lower than the minimum rated frequency '"@,
        Limit::RatedMax => "' is higher than the maximum rated frequency '"@,
    }
}

/// What a message says of an argument that is not there.
pub open spec fn missing_phrase(argument: Argument) -> Seq<char> {
    match argument {
        Argument::Verb => "No arguments provided."@,
        Argument::Target => "No policy specified."@,
        Argument::Attribute => "No attribute specified."@,
        Argument::Value => "No value specified."@,
    }
}

impl ErrorView {
    /// The message of the failure: one text for the user, which names the
    /// offending value, the attribute and the directory as far as the
    /// failure has them.
    pub open spec fn message(self) -> Seq<char> {
        match self.fault {
            Fault::PathMissing => framed(
                "The provided path '"@,
                self.subject,
                "' doesn't exist."@,
            ),
            Fault::NotADirectory => framed(
                "The provided path '"@,
                self.subject,
                "' wasn't a directory."@,
            ),
            Fault::BadPolicyNumber => framed(
                "The policy number '"@,
                self.subject,
                "' couldn't be parsed as a u32."@,
            ),
            Fault::NoPolicyDirs => framed("No policy folders found in '"@, self.subject, "'!"@),
            Fault::NoPolicyFiles => framed("No policy files found in '"@, self.subject, "'!"@),
            Fault::AttributeMissing(file) => framed(
                "The policy file '"@,
                shown_path(self.directory, file),
                "' doesn't exist."@,
            ),
            Fault::AttributeUnreadable(file) => framed(
                "Couldn't read policy file '"@,
                shown_path(self.directory, file),
                "'."@,
            ),
            Fault::Unwritable => framed("Couldn't write to policy file '"@, self.subject, "'."@),
            Fault::MissingDelimiter => framed(
                "Invalid frequency value '"@,
                self.subject,
                "' provided. Must be in the format of <min>:<max>, :<max>, or <min>:"@,
            ),
            Fault::NoBounds => framed("No frequency values provided in '"@, self.subject, "'."@),
            Fault::InvalidSuffix(suffix) => framed(
                "Invalid suffix '"@,
                seq![suffix],
                "' provided for frequency value '"@,
            ) + self.subject + "'.\nValid suffixes are: g, m, k, h"@,
            Fault::InvalidNumber => framed(
                "The value '"@,
                self.subject,
                "' is not a valid number."@,
            ),
            Fault::InvalidTarget => framed(
                "Invalid policy identifier '"@,
                self.subject,
                "' provided."@,
            ),
            Fault::InvertedRange { start, end } => framed(
                "The end policy number "@,
                decimal_text(end as nat),
                " must not be lower than the start policy number "@,
            ) + decimal_text(start as nat) + "."@,
            Fault::MissingArgument(argument) => missing_phrase(argument),
            Fault::NotANumber(file) => framed(
                "The policy file '"@,
                shown_path(self.directory, file),
                "' holds '"@,
            ) + self.subject + "', which is not a number."@,
            Fault::EmptyList(file) => framed(
                "The list in policy file '"@,
                shown_path(self.directory, file),
                "' was empty."@,
            ),
            Fault::NotAvailable(file) => framed("The value '"@, self.subject, "' isn't supported for '"@)
                + shown_path(self.directory, file) + "'.\nSupported values: "@ + enumerated(
                self.allowed,
            ),
            Fault::OutOfBounds { attribute, limit, desired, bound } => framed(
                "The desired "@,
                shown_path(self.directory, attribute),
                " frequency '"@,
            ) + shown_kilohertz(desired) + limit_phrase(limit) + shown_kilohertz(bound) + "'"@,
            Fault::Unrepresentable(frequency) => framed(
                "The frequency '"@,
                frequency.shown(),
                "' is too large to be given in kilohertz."@,
            ),
        }
    }
}

/// A value between two fixed texts.
fn frame(before: &str, value: &Vec<char>, after: &str) -> (out: Vec<char>)
    ensures
        out@ == framed(before@, value@, after@),
{
    let mut out: Vec<char> = Vec::new();
    append_str(&mut out, before);
    append_chars(&mut out, value);
    append_str(&mut out, after);
    assert(out@ == before@ + value@ + after@);
    out
}

/// The path of an attribute file as a message shows it.
fn show_path(directory: &str, file: PolicyFile) -> (out: Vec<char>)
    ensures
        out@ == shown_path(directory@, file),
{
    let mut out: Vec<char> = chars_of(directory);
    out.push('/');
    append_str(&mut out, file.name());
    out
}

/// A number of kilohertz as a message shows it.
fn show_kilohertz(k: u64) -> (out: Vec<char>)
    ensures
        out@ == shown_kilohertz(k),
{
    let f = Frequency::GHz(GigaHertz { billionths: (k as u128) * 1000 });
    let text = f.to_string();
    chars_of(text.as_str())
}

/// The texts of a list, with a comma and a space between two of them.
fn enumerate(items: &Vec<String>) -> (out: Vec<char>)
    ensures
        out@ == enumerated(string_views(items@)),
{
    let mut out: Vec<char> = Vec::new();
    let ghost all = string_views(items@);
    let mut i: usize = 0;
    assert(all.take(0) == Seq::<Seq<char>>::empty());
    while i < items.len()
        invariant
            i <= items.len(),
            all == string_views(items@),
            out@ == enumerated(all.take(i as int)),
        decreases items.len() - i,
    {
        assert(all.take(i + 1).drop_last() == all.take(i as int));
        assert(all.take(i + 1).last() == items@[i as int]@);
        if i > 0 {
            append_str(&mut out, ", ");
        } else {
            assert(all.take(1)[0] == items@[0]@);
            assert(out@ + items@[0]@ == items@[0]@);
        }
        append_str(&mut out, items[i].as_str());
        i = i + 1;
    }
    assert(all.take(items.len() as int) == all);
    out
}

impl Error {
    /// The message of the failure.
    pub fn message(&self) -> (s: String)
        ensures
            s@ == self@.message(),
    {
        let subject = chars_of(self.subject.as_str());
        let directory = self.directory.as_str();
        let out: Vec<char> = match self.fault {
            Fault::PathMissing => frame("The provided path '", &subject, "' doesn't exist."),
            Fault::NotADirectory => frame(
                "The provided path '",
                &subject,
                "' wasn't a directory.",
            ),
            Fault::BadPolicyNumber => frame(
                "The policy number '",
                &subject,
                "' couldn't be parsed as a u32.",
            ),
            Fault::NoPolicyDirs => frame("No policy folders found in '", &subject, "'!"),
            Fault::NoPolicyFiles => frame("No policy files found in '", &subject, "'!"),
            Fault::AttributeMissing(file) => frame(
                "The policy file '",
                &show_path(directory, file),
                "' doesn't exist.",
            ),
            Fault::AttributeUnreadable(file) => frame(
                "Couldn't read policy file '",
                &show_path(directory, file),
                "'.",
            ),
            Fault::Unwritable => frame("Couldn't write to policy file '", &subject, "'."),
            Fault::MissingDelimiter => frame(
                "Invalid frequency value '",
                &subject,
                "' provided. Must be in the format of <min>:<max>, :<max>, or <min>:",
            ),
            Fault::NoBounds => frame("No frequency values provided in '", &subject, "'."),
            Fault::InvalidSuffix(suffix) => {
                let mut letter: Vec<char> = Vec::new();
                letter.push(suffix);
                let mut out = frame("Invalid suffix '", &letter, "' provided for frequency value '");
                append_chars(&mut out, &subject);
                append_str(&mut out, "'.\nValid suffixes are: g, m, k, h");
                out
            },
            Fault::InvalidNumber => frame("The value '", &subject, "' is not a valid number."),
            Fault::InvalidTarget => frame("Invalid policy identifier '", &subject, "' provided."),
            Fault::InvertedRange { start, end } => {
                let mut out = frame(
                    "The end policy number ",
                    &render_decimal(end as u128),
                    " must not be lower than the start policy number ",
                );
                append_chars(&mut out, &render_decimal(start as u128));
                append_str(&mut out, ".");
                out
            },
            Fault::MissingArgument(argument) => match argument {
                Argument::Verb => chars_of("No arguments provided."),
                Argument::Target => chars_of("No policy specified."),
                Argument::Attribute => chars_of("No attribute specified."),
                Argument::Value => chars_of("No value specified."),
            },
            Fault::NotANumber(file) => {
                let mut out = frame("The policy file '", &show_path(directory, file), "' holds '");
                append_chars(&mut out, &subject);
                append_str(&mut out, "', which is not a number.");
                out
            },
            Fault::EmptyList(file) => frame(
                "The list in policy file '",
                &show_path(directory, file),
                "' was empty.",
            ),
            Fault::NotAvailable(file) => {
                let mut out = frame("The value '", &subject, "' isn't supported for '");
                append_chars(&mut out, &show_path(directory, file));
                append_str(&mut out, "'.\nSupported values: ");
                append_chars(&mut out, &enumerate(&self.allowed));
                out
            },
            Fault::OutOfBounds { attribute, limit, desired, bound } => {
                let mut out = frame(
                    "The desired ",
                    &show_path(directory, attribute),
                    " frequency '",
                );
                append_chars(&mut out, &show_kilohertz(desired));
                match limit {
                    Limit::CurrentMin => append_str(
                        &mut out,
                        "' is lower than the current scaling_min '",
                    ),
                    Limit::CurrentMax => append_str(
                        &mut out,
                        "' is higher than the current scaling_max '",
                    ),
                    Limit::RatedMin => append_str(
                        &mut out,
                        "' is lower than the minimum rated frequency '",
                    ),
                    Limit::RatedMax => append_str(
                        &mut out,
                        "' is higher than the maximum rated frequency '",
                    ),
                }
                append_chars(&mut out, &show_kilohertz(bound));
                append_str(&mut out, "'");
                out
            },
            Fault::Unrepresentable(frequency) => {
                let text = frequency.to_string();
                frame(
                    "The frequency '",
                    &chars_of(text.as_str()),
                    "' is too large to be given in kilohertz.",
                )
            },
        };
        string_of(&out)
    }
}

} // verus!
