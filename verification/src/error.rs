//! Why a build is refused, and what the user is told.

use crate::text::{backquote_all, backquoted, copy_list, join, joined, texts};
use vstd::prelude::*;

verus! {

/// Something that was asked of others and failed.
#[derive(PartialEq, Eq, Debug)]
pub struct Failure {
    /// What is said of it.
    pub reason: String,
    /// What led to it, each caused by the next.
    pub causes: Vec<String>,
}

/// The contents of a [`Failure`].
pub struct FailureView {
    pub reason: Seq<char>,
    pub causes: Seq<Seq<char>>,
}

impl View for Failure {
    type V = FailureView;

    open spec fn view(&self) -> FailureView {
        FailureView { reason: self.reason@, causes: texts(self.causes@) }
    }
}

impl Clone for Failure {
    fn clone(&self) -> (res: Failure)
        ensures
            res@ == self@,
    {
        Failure { reason: self.reason.clone(), causes: copy_list(&self.causes) }
    }
}

/// Why a build is refused.
#[derive(PartialEq, Eq, Debug)]
pub enum CompileError {
    /// Packages were excluded although not all were asked for.
    ExcludeWithoutAll,
    /// The workspace is virtual and has no members.
    VirtualManifest { root: String },
    /// Nothing was selected.
    NoPackages,
    /// A manifest could not be used.
    InvalidManifest { path: String, reason: String },
    /// A build with no jobs was asked for.
    NoJobs,
    /// The file that describes the target platform cannot be found.
    TargetPathInvalid { target: String, failure: Failure },
    /// The path of the file that describes the target platform is no text.
    TargetPathNotUnicode,
    /// A library was asked for where there is none.
    NoLibrary,
    /// A target that was asked for by name does not exist.
    NoSuchTarget { desc: &'static str, name: String, suggestion: Option<String> },
    /// A target that was asked for needs features that are not enabled.
    FeaturesRequired { target: String, features: Vec<String> },
    /// Extra arguments were given for more or fewer targets than one.
    ExtraArgsNeedOneTarget { tool: &'static str },
    /// Something that the build asked for failed; the failure is passed on.
    Reported { failure: Failure },
}

/// The contents of a [`CompileError`].
pub enum CompileErrorView {
    ExcludeWithoutAll,
    VirtualManifest { root: Seq<char> },
    NoPackages,
    InvalidManifest { path: Seq<char>, reason: Seq<char> },
    NoJobs,
    TargetPathInvalid { target: Seq<char>, failure: FailureView },
    TargetPathNotUnicode,
    NoLibrary,
    NoSuchTarget { desc: Seq<char>, name: Seq<char>, suggestion: Option<Seq<char>> },
    FeaturesRequired { target: Seq<char>, features: Seq<Seq<char>> },
    ExtraArgsNeedOneTarget { tool: Seq<char> },
    Reported { failure: FailureView },
}

/// The contents of a string that may be missing.
pub open spec fn text_of(text: Option<String>) -> Option<Seq<char>> {
    match text {
        Some(text) => Some(text@),
        None => None,
    }
}

impl View for CompileError {
    type V = CompileErrorView;

    open spec fn view(&self) -> CompileErrorView {
        match *self {
            CompileError::ExcludeWithoutAll => CompileErrorView::ExcludeWithoutAll,
            CompileError::VirtualManifest { root } => CompileErrorView::VirtualManifest {
                root: root@,
            },
            CompileError::NoPackages => CompileErrorView::NoPackages,
            CompileError::InvalidManifest { path, reason } => CompileErrorView::InvalidManifest {
                path: path@,
                reason: reason@,
            },
            CompileError::NoJobs => CompileErrorView::NoJobs,
            CompileError::TargetPathInvalid { target, failure } => {
                CompileErrorView::TargetPathInvalid { target: target@, failure: failure@ }
            },
            CompileError::TargetPathNotUnicode => CompileErrorView::TargetPathNotUnicode,
            CompileError::NoLibrary => CompileErrorView::NoLibrary,
            CompileError::NoSuchTarget { desc, name, suggestion } => {
                CompileErrorView::NoSuchTarget {
                    desc: desc@,
                    name: name@,
                    suggestion: text_of(suggestion),
                }
            },
            CompileError::FeaturesRequired { target, features } => {
                CompileErrorView::FeaturesRequired { target: target@, features: texts(features@) }
            },
            CompileError::ExtraArgsNeedOneTarget { tool } => {
                CompileErrorView::ExtraArgsNeedOneTarget { tool: tool@ }
            },
            CompileError::Reported { failure } => CompileErrorView::Reported { failure: failure@ },
        }
    }
}

/// What is known of a fallible list from its contents.
pub open spec fn outcome<T>(res: Result<Vec<T>, CompileError>) -> Result<
    Seq<T>,
    CompileErrorView,
> {
    match res {
        Ok(list) => Ok(list@),
        Err(error) => Err(error@),
    }
}

/// A text as the standard library shows it for debugging: between double
/// quotes, with what cannot be shown as it is escaped.
pub uninterp spec fn debug_text(text: Seq<char>) -> Seq<char>;

/// Formats a string with `{:?}`, that is with `<str as Debug>::fmt` of the
/// standard library.  The result depends on the string's contents alone; how it
/// escapes them is not said here.
#[verifier::external_body]
fn debug_quoted(text: &String) -> (res: String)
    ensures
        res@ == debug_text(text@),
{
    format!("{:?}", text)
}

impl CompileErrorView {
    /// What the user is told.
    pub open spec fn message(self) -> Seq<char> {
        match self {
            CompileErrorView::ExcludeWithoutAll => {
                "--exclude can only be used together with --all"@
            },
            CompileErrorView::VirtualManifest { root } => {
                "manifest path `"@ + root
                    + "` contains no package: The manifest is virtual, and the workspace has no members."@
            },
            CompileErrorView::NoPackages => "no packages to compile"@,
            CompileErrorView::InvalidManifest { path, reason } => {
                "failed to parse manifest at `"@ + path + "`"@
            },
            CompileErrorView::NoJobs => "jobs must be at least 1"@,
            CompileErrorView::TargetPathInvalid { target, failure } => {
                "Target path "@ + debug_text(target) + " is not a valid file"@
            },
            CompileErrorView::TargetPathNotUnicode => "Target path is not valid unicode"@,
            CompileErrorView::NoLibrary => "no library targets found"@,
            CompileErrorView::NoSuchTarget { desc, name, suggestion } => {
                let missing = "no "@ + desc + " target named `"@ + name + "`"@;
                match suggestion {
                    Some(other) => missing + "\n\nDid you mean `"@ + other + "`?"@,
                    None => missing,
                }
            },
            CompileErrorView::FeaturesRequired { target, features } => {
                "target `"@ + target + "` requires the features: "@ + joined(
                    backquoted(features),
                    ", "@,
                ) + "\nConsider enabling them by passing e.g. `--features=\""@ + joined(
                    features,
                    " "@,
                ) + "\"`"@
            },
            CompileErrorView::ExtraArgsNeedOneTarget { tool } => {
                "extra arguments to `"@ + tool
                    + "` can only be passed to one target, consider filtering\nthe package by passing e.g. `--lib` or `--bin NAME` to specify a single target"@
            },
            CompileErrorView::Reported { failure } => failure.reason,
        }
    }

    /// What led to it, each caused by the next.
    pub open spec fn causes(self) -> Seq<Seq<char>> {
        match self {
            CompileErrorView::InvalidManifest { path, reason } => seq![reason],
            CompileErrorView::TargetPathInvalid { target, failure } => {
                seq![failure.reason] + failure.causes
            },
            CompileErrorView::Reported { failure } => failure.causes,
            _ => Seq::empty(),
        }
    }
}

/// Three strings, one after the other.
fn concat3(a: &str, b: &str, c: &str) -> (res: String)
    ensures
        res@ == a@ + b@ + c@,
{
    let mut res = a.to_string();
    res.append(b);
    res.append(c);
    res
}

impl CompileError {
    /// What the user is told.
    pub fn message(&self) -> (res: String)
        ensures
            res@ == self@.message(),
    {
        match self {
            CompileError::ExcludeWithoutAll => {
                "--exclude can only be used together with --all".to_string()
            },
            CompileError::VirtualManifest { root } => concat3(
                "manifest path `",
                root.as_str(),
                "` contains no package: The manifest is virtual, and the workspace has no members.",
            ),
            CompileError::NoPackages => "no packages to compile".to_string(),
            CompileError::InvalidManifest { path, .. } => concat3(
                "failed to parse manifest at `",
                path.as_str(),
                "`",
            ),
            CompileError::NoJobs => "jobs must be at least 1".to_string(),
            CompileError::TargetPathInvalid { target, .. } => {
                let quoted = debug_quoted(target);
                concat3("Target path ", quoted.as_str(), " is not a valid file")
            },
            CompileError::TargetPathNotUnicode => "Target path is not valid unicode".to_string(),
            CompileError::NoLibrary => "no library targets found".to_string(),
            CompileError::NoSuchTarget { desc, name, suggestion } => {
                let mut res = concat3("no ", desc, " target named `");
                res.append(name.as_str());
                res.append("`");
                if let Some(other) = suggestion {
                    res.append("\n\nDid you mean `");
                    res.append(other.as_str());
                    res.append("`?");
                }
                res
            },
            CompileError::FeaturesRequired { target, features } => {
                let quoted = backquote_all(features);
                let listed = join(&quoted, ", ");
                let flag = join(features, " ");
                let mut res = concat3("target `", target.as_str(), "` requires the features: ");
                res.append(listed.as_str());
                res.append("\nConsider enabling them by passing e.g. `--features=\"");
                res.append(flag.as_str());
                res.append("\"`");
                res
            },
            CompileError::ExtraArgsNeedOneTarget { tool } => concat3(
                "extra arguments to `",
                tool,
                "` can only be passed to one target, consider filtering\nthe package by passing e.g. `--lib` or `--bin NAME` to specify a single target",
            ),
            CompileError::Reported { failure } => failure.reason.clone(),
        }
    }

    /// What led to it, each caused by the next.
    pub fn causes(&self) -> (res: Vec<String>)
        ensures
            texts(res@) == self@.causes(),
    {
        let mut res: Vec<String> = Vec::new();
        match self {
            CompileError::InvalidManifest { reason, .. } => {
                res.push(reason.clone());
            },
            CompileError::TargetPathInvalid { failure, .. } => {
                let mut behind = copy_list(&failure.causes);
                res.push(failure.reason.clone());
                res.append(&mut behind);
            },
            CompileError::Reported { failure } => {
                res = copy_list(&failure.causes);
            },
            _ => {},
        }
        assert(texts(res@) =~= self@.causes());
        res
    }
}

/// What is known of a fallible list is all that it holds.
pub proof fn law_outcome_is_the_result<T>(list: Vec<T>, error: CompileError)
    ensures
        outcome(Ok::<Vec<T>, CompileError>(list)) == Ok::<Seq<T>, CompileErrorView>(list@),
        outcome(Err::<Vec<T>, CompileError>(error)) == Err::<Seq<T>, CompileErrorView>(error@),
{
}

/// The contents of a refusal are the texts that it holds.
pub proof fn law_contents_of_refusals(
    a: String,
    b: String,
    desc: &'static str,
    failure: Failure,
    list: Vec<String>,
)
    ensures
        (CompileError::VirtualManifest { root: a })@->root == a@,
        (CompileError::InvalidManifest { path: a, reason: b })@ == (
        CompileErrorView::InvalidManifest { path: a@, reason: b@ }),
        (CompileError::TargetPathInvalid { target: a, failure })@ == (
        CompileErrorView::TargetPathInvalid { target: a@, failure: failure@ }),
        (CompileError::NoSuchTarget { desc, name: a, suggestion: Some(b) })@ == (
        CompileErrorView::NoSuchTarget { desc: desc@, name: a@, suggestion: Some(b@) }),
        (CompileError::NoSuchTarget { desc, name: a, suggestion: None })@ == (
        CompileErrorView::NoSuchTarget { desc: desc@, name: a@, suggestion: None }),
        (CompileError::FeaturesRequired { target: a, features: list })@ == (
        CompileErrorView::FeaturesRequired { target: a@, features: texts(list@) }),
        (CompileError::ExtraArgsNeedOneTarget { tool: desc })@ == (
        CompileErrorView::ExtraArgsNeedOneTarget { tool: desc@ }),
        (CompileError::Reported { failure })@ == (CompileErrorView::Reported { failure: failure@ }),
        failure@.reason == failure.reason@,
        failure@.causes == texts(failure.causes@),
{
}

/// The user is told of a missing target its description and its name between
/// backquotes, and behind that of the target that may be meant, if there is one.
pub proof fn law_missing_target_is_told(desc: Seq<char>, name: Seq<char>, other: Seq<char>)
    ensures
        (CompileErrorView::NoSuchTarget { desc, name, suggestion: None }).message() == "no "@ + desc
            + " target named `"@ + name + "`"@,
        (CompileErrorView::NoSuchTarget { desc, name, suggestion: Some(other) }).message() == (
        CompileErrorView::NoSuchTarget { desc, name, suggestion: None }).message()
            + "\n\nDid you mean `"@ + other + "`?"@,
{
}

/// The user is told of a target that lacks features all the features that it
/// requires: each between backquotes, and all as the flag that enables them.
pub proof fn law_required_features_are_told(target: Seq<char>, features: Seq<Seq<char>>)
    ensures
        (CompileErrorView::FeaturesRequired { target, features }).message() == "target `"@ + target
            + "` requires the features: "@ + joined(backquoted(features), ", "@)
            + "\nConsider enabling them by passing e.g. `--features=\""@ + joined(features, " "@)
            + "\"`"@,
{
}

/// The user is told which manifest, target path or tool a refusal is about, and
/// of a failure elsewhere exactly what was said of it.
pub proof fn law_refusals_name_their_subject(
    subject: Seq<char>,
    reason: Seq<char>,
    failure: FailureView,
)
    ensures
        (CompileErrorView::VirtualManifest { root: subject }).message() == "manifest path `"@
            + subject
            + "` contains no package: The manifest is virtual, and the workspace has no members."@,
        (CompileErrorView::InvalidManifest { path: subject, reason }).message()
            == "failed to parse manifest at `"@ + subject + "`"@,
        (CompileErrorView::TargetPathInvalid { target: subject, failure }).message()
            == "Target path "@ + debug_text(subject) + " is not a valid file"@,
        (CompileErrorView::ExtraArgsNeedOneTarget { tool: subject }).message()
            == "extra arguments to `"@ + subject
            + "` can only be passed to one target, consider filtering\nthe package by passing e.g. `--lib` or `--bin NAME` to specify a single target"@,
        (CompileErrorView::Reported { failure }).message() == failure.reason,
{
}

/// Nothing that led to a failure elsewhere is lost: all its causes are told, and
/// the failure itself before them where the message is another.
pub proof fn law_causes_are_kept(subject: Seq<char>, reason: Seq<char>, failure: FailureView)
    ensures
        (CompileErrorView::Reported { failure }).causes() == failure.causes,
        ({
            let causes = (CompileErrorView::TargetPathInvalid { target: subject, failure }).causes();
            causes.len() == failure.causes.len() + 1 && causes.first() == failure.reason
                && causes.drop_first() == failure.causes
        }),
        ({
            let causes = (CompileErrorView::InvalidManifest { path: subject, reason }).causes();
            causes.len() == 1 && causes[0] == reason
        }),
{
    let causes = (CompileErrorView::TargetPathInvalid { target: subject, failure }).causes();
    assert(causes.drop_first() =~= failure.causes);
}

} // verus!
