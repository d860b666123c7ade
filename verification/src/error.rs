//! What a refused request is answered.
use vstd::prelude::*;

verus! {

/// An error of the daemon, with the text that it is reported with.
#[derive(Debug, PartialEq, Eq)]
pub enum Error {
    Internal(String),
    InvalidArgument(String),
    SourcePluginNotFound(String),
    SourceExtrasFailed { plugin: String, message: String },
    SourceApplyFailed { plugin: String, message: String },
    SourceItemRemoveUnsupported(String),
    SourceItemRemoveFailed { plugin: String, message: String },
    DiscoverUnsupported(String),
    DiscoverFailed { plugin: String, message: String },
    ResolveFailed { plugin: String, message: String },
    SettingsValidationFailed(String),
}

/// The contents of an [`Error`].
pub enum Fault {
    Internal(Seq<char>),
    InvalidArgument(Seq<char>),
    SourcePluginNotFound(Seq<char>),
    SourceExtrasFailed { plugin: Seq<char>, message: Seq<char> },
    SourceApplyFailed { plugin: Seq<char>, message: Seq<char> },
    SourceItemRemoveUnsupported(Seq<char>),
    SourceItemRemoveFailed { plugin: Seq<char>, message: Seq<char> },
    DiscoverUnsupported(Seq<char>),
    DiscoverFailed { plugin: Seq<char>, message: Seq<char> },
    ResolveFailed { plugin: Seq<char>, message: Seq<char> },
    SettingsValidationFailed(Seq<char>),
}

impl View for Error {
    type V = Fault;

    open spec fn view(&self) -> Fault {
        match *self {
            Error::Internal(text) => Fault::Internal(text@),
            Error::InvalidArgument(text) => Fault::InvalidArgument(text@),
            Error::SourcePluginNotFound(name) => Fault::SourcePluginNotFound(name@),
            Error::SourceExtrasFailed { plugin, message } => Fault::SourceExtrasFailed {
                plugin: plugin@,
                message: message@,
            },
            Error::SourceApplyFailed { plugin, message } => Fault::SourceApplyFailed {
                plugin: plugin@,
                message: message@,
            },
            Error::SourceItemRemoveUnsupported(name) => Fault::SourceItemRemoveUnsupported(name@),
            Error::SourceItemRemoveFailed { plugin, message } => Fault::SourceItemRemoveFailed {
                plugin: plugin@,
                message: message@,
            },
            Error::DiscoverUnsupported(name) => Fault::DiscoverUnsupported(name@),
            Error::DiscoverFailed { plugin, message } => Fault::DiscoverFailed {
                plugin: plugin@,
                message: message@,
            },
            Error::ResolveFailed { plugin, message } => Fault::ResolveFailed {
                plugin: plugin@,
                message: message@,
            },
            Error::SettingsValidationFailed(text) => Fault::SettingsValidationFailed(text@),
        }
    }
}

impl Fault {
    /// The text that says what went wrong, or the plugin that it is about.
    pub open spec fn message(self) -> Seq<char> {
        match self {
            Fault::Internal(text) => text,
            Fault::InvalidArgument(text) => text,
            Fault::SourcePluginNotFound(name) => name,
            Fault::SourceExtrasFailed { plugin: _, message } => message,
            Fault::SourceApplyFailed { plugin: _, message } => message,
            Fault::SourceItemRemoveUnsupported(name) => name,
            Fault::SourceItemRemoveFailed { plugin: _, message } => message,
            Fault::DiscoverUnsupported(name) => name,
            Fault::DiscoverFailed { plugin: _, message } => message,
            Fault::ResolveFailed { plugin: _, message } => message,
            Fault::SettingsValidationFailed(text) => text,
        }
    }
}

impl Error {
    pub fn message(&self) -> (text: String)
        ensures
            text@ == self@.message(),
    {
        match self {
            Error::Internal(text) => text.clone(),
            Error::InvalidArgument(text) => text.clone(),
            Error::SourcePluginNotFound(name) => name.clone(),
            Error::SourceExtrasFailed { plugin: _, message } => message.clone(),
            Error::SourceApplyFailed { plugin: _, message } => message.clone(),
            Error::SourceItemRemoveUnsupported(name) => name.clone(),
            Error::SourceItemRemoveFailed { plugin: _, message } => message.clone(),
            Error::DiscoverUnsupported(name) => name.clone(),
            Error::DiscoverFailed { plugin: _, message } => message.clone(),
            Error::ResolveFailed { plugin: _, message } => message.clone(),
            Error::SettingsValidationFailed(text) => text.clone(),
        }
    }
}

/// The outcome of a check that either names a fault or gives a value.
pub open spec fn outcome<T: View>(r: Result<T, Error>, fault: Option<Fault>, value: T::V) -> bool {
    match r {
        Ok(v) => fault is None && v@ == value,
        Err(e) => fault == Some(e@),
    }
}

/// The outcome of a check that gives a list.
pub open spec fn outcome_list<T: View>(
    r: Result<Vec<T>, Error>,
    fault: Option<Fault>,
    value: Seq<T::V>,
) -> bool {
    match r {
        Ok(v) => fault is None && crate::text::views(v@) == value,
        Err(e) => fault == Some(e@),
    }
}

/// The outcome of a check that gives nothing but its success.
pub open spec fn outcome_check(r: Result<(), Error>, fault: Option<Fault>) -> bool {
    match r {
        Ok(_) => fault is None,
        Err(e) => fault == Some(e@),
    }
}

/// `fault` unless the rule holds.
pub open spec fn unless(rule: bool, fault: Fault) -> Option<Fault> {
    if rule {
        None
    } else {
        Some(fault)
    }
}

/// The first fault of two checks made one after the other.
pub open spec fn first(one: Option<Fault>, two: Option<Fault>) -> Option<Fault> {
    if one is Some {
        one
    } else {
        two
    }
}

/// The first fault among `n` numbered checks.
pub open spec fn first_of(n: int, fault: spec_fn(int) -> Option<Fault>) -> Option<Fault>
    decreases n,
{
    if n <= 0 {
        None
    } else {
        first(first_of(n - 1, fault), fault(n - 1))
    }
}

/// No fault among the first checks.
pub proof fn lemma_first_of_none(n: int, fault: spec_fn(int) -> Option<Fault>)
    ensures
        first_of(n, fault) is None <==> forall|i: int| 0 <= i < n ==> (#[trigger] fault(i)) is None,
    decreases n,
{
    if n > 0 {
        lemma_first_of_none(n - 1, fault);
        if first_of(n, fault) is None {
            assert forall|i: int| 0 <= i < n implies (#[trigger] fault(i)) is None by {
                if i < n - 1 {
                    assert(fault(i) is None);
                }
            }
        } else if first_of(n - 1, fault) is None {
            assert(fault(n - 1) is Some);
        }
    }
}

/// A fault found at `i` after checks without one is the first of all.
pub proof fn lemma_first_of_found(i: int, n: int, fault: spec_fn(int) -> Option<Fault>)
    requires
        0 <= i < n,
        first_of(i, fault) is None,
        fault(i) is Some,
    ensures
        first_of(n, fault) == fault(i),
    decreases n,
{
    if i < n - 1 {
        lemma_first_of_found(i, n - 1, fault);
    }
}

/// An error stands for the fault of its kind, with the same names and texts.
pub proof fn law_errors(text: String, plugin: String)
    ensures
        Error::Internal(text)@ == Fault::Internal(text@),
        Error::InvalidArgument(text)@ == Fault::InvalidArgument(text@),
        Error::SourcePluginNotFound(text)@ == Fault::SourcePluginNotFound(text@),
        (Error::SourceExtrasFailed { plugin, message: text })@ == (Fault::SourceExtrasFailed {
            plugin: plugin@,
            message: text@,
        }),
        (Error::SourceApplyFailed { plugin, message: text })@ == (Fault::SourceApplyFailed {
            plugin: plugin@,
            message: text@,
        }),
        Error::SourceItemRemoveUnsupported(text)@ == Fault::SourceItemRemoveUnsupported(text@),
        (Error::SourceItemRemoveFailed { plugin, message: text })@
            == (Fault::SourceItemRemoveFailed { plugin: plugin@, message: text@ }),
        Error::DiscoverUnsupported(text)@ == Fault::DiscoverUnsupported(text@),
        (Error::DiscoverFailed { plugin, message: text })@ == (Fault::DiscoverFailed {
            plugin: plugin@,
            message: text@,
        }),
        (Error::ResolveFailed { plugin, message: text })@ == (Fault::ResolveFailed {
            plugin: plugin@,
            message: text@,
        }),
        Error::SettingsValidationFailed(text)@ == Fault::SettingsValidationFailed(text@),
{
}

/// The message of a fault is its text; of one that names a plugin only, the name.
pub proof fn law_messages(text: Seq<char>, plugin: Seq<char>)
    ensures
        Fault::Internal(text).message() == text,
        Fault::InvalidArgument(text).message() == text,
        Fault::SourcePluginNotFound(plugin).message() == plugin,
        (Fault::SourceExtrasFailed { plugin, message: text }).message() == text,
        (Fault::SourceApplyFailed { plugin, message: text }).message() == text,
        Fault::SourceItemRemoveUnsupported(plugin).message() == plugin,
        (Fault::SourceItemRemoveFailed { plugin, message: text }).message() == text,
        Fault::DiscoverUnsupported(plugin).message() == plugin,
        (Fault::DiscoverFailed { plugin, message: text }).message() == text,
        (Fault::ResolveFailed { plugin, message: text }).message() == text,
        Fault::SettingsValidationFailed(text).message() == text,
{
}

/// Of numbered checks the first that finds a fault decides, and none decides
/// where none finds one.
pub proof fn law_first_fault(n: int, fault: spec_fn(int) -> Option<Fault>, i: int)
    requires
        0 <= i < n,
    ensures
        fault(i) is Some && (forall|j: int| 0 <= j < i ==> (#[trigger] fault(j)) is None)
            ==> first_of(n, fault) == fault(i),
        (forall|j: int| 0 <= j < n ==> (#[trigger] fault(j)) is None)
            ==> first_of(n, fault) is None,
{
    lemma_first_of_none(i, fault);
    lemma_first_of_none(n, fault);
    if fault(i) is Some && first_of(i, fault) is None {
        lemma_first_of_found(i, n, fault);
    }
}

/// A check that finds a fault fails with it, and one that finds none succeeds.
pub proof fn law_outcomes(e: Error, fault: Option<Fault>, one: Fault)
    ensures
        outcome_check(Ok(()), fault) <==> fault is None,
        outcome_check(Err(e), fault) <==> fault == Some(e@),
        unless(true, one) is None,
        unless(false, one) == Some(one),
        first(Some(one), fault) == Some(one),
        first(None, fault) == fault,
{
}

/// A check that gives a value gives it only where it finds no fault.
pub proof fn law_outcomes_with_values<T: View>(
    value: T,
    list: Vec<T>,
    e: Error,
    fault: Option<Fault>,
    wanted: T::V,
    all: Seq<T::V>,
)
    ensures
        outcome(Ok(value), fault, wanted) <==> fault is None && value@ == wanted,
        outcome(Err::<T, Error>(e), fault, wanted) <==> fault == Some(e@),
        outcome_list(Ok(list), fault, all) ==> fault is None && all.len() == list@.len() && forall|
            i: int,
        |
            0 <= i < all.len() ==> #[trigger] all[i] == list@[i]@,
        outcome_list(Err::<Vec<T>, Error>(e), fault, all) <==> fault == Some(e@),
{
}

} // verus!
