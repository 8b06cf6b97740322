//! What the user asked for.

use crate::filter::CompileFilter;
use crate::mode::{CompileMode, MessageFormat};
use crate::package::Workspace;
use crate::packages::Packages;
use std::path::PathBuf;
use vstd::prelude::*;

verus! {

/// `std::path::PathBuf`, which is carried through as it is: nothing is said of
/// what a path holds.
#[verifier::external_type_specification]
#[verifier::external_body]
pub struct ExPathBuf(std::path::PathBuf);

/// Contains information about how a package should be compiled.
///
/// `C` is the configuration that the build runs under; nothing here depends on
/// what it holds.
#[derive(Debug)]
pub struct CompileOptions<'a, C> {
    pub config: &'a C,
    /// Number of concurrent jobs to use.
    pub jobs: Option<u32>,
    /// The target platform to compile for (example: `i686-unknown-linux-gnu`).
    pub target: Option<String>,
    /// Extra features to build for the root package
    pub features: Vec<String>,
    /// Flag whether all available features should be built for the root package
    pub all_features: bool,
    /// Flag if the default feature should be built for the root package
    pub no_default_features: bool,
    /// A set of packages to build.
    pub spec: Packages,
    /// Filter to apply to the root package to select which targets will be
    /// built.
    pub filter: CompileFilter,
    /// Whether this is a release build or not
    pub release: bool,
    /// Mode for this compile.
    pub mode: CompileMode,
    /// `--error_format` flag for the compiler.
    pub message_format: MessageFormat,
    /// Extra arguments to be passed to rustdoc (for main crate and dependencies)
    pub target_rustdoc_args: Option<Vec<String>>,
    /// The specified target will be compiled with all the available arguments,
    /// note that this only accounts for the *final* invocation of rustc
    pub target_rustc_args: Option<Vec<String>>,
    /// The directory to copy final artifacts to. Note that even if it is
    /// set, a copy of artifacts still could be found a `target/(debug\release)`
    /// as usual.
    // Note that, although the cmd-line flag name is `out-dir`, in code we use
    // `export_dir`, to avoid confusion with out dir at `target/debug/deps`.
    pub export_dir: Option<PathBuf>,
}

/// Which features a resolution enables.
#[derive(Clone, Copy, PartialEq, Eq, Debug)]
pub struct Method<'a> {
    pub dev_deps: bool,
    /// The features as they were given, each of which may name several.
    pub features: &'a Vec<String>,
    pub all_features: bool,
    pub uses_default_features: bool,
}

/// The settings of a build that follow from the options.
#[derive(Clone, Copy, PartialEq, Eq, Debug, Structural)]
pub struct BuildFlags {
    pub release: bool,
    pub test: bool,
    pub json_messages: bool,
}

impl<'a, C> CompileOptions<'a, C> {
    /// The extra arguments for the compiler, and the tool that they are for.
    pub open spec fn extra(self) -> Option<(Seq<char>, Vec<String>)> {
        match self.target_rustc_args {
            Some(args) => Some(("rustc"@, args)),
            None => match self.target_rustdoc_args {
                Some(args) => Some(("rustdoc"@, args)),
                None => None,
            },
        }
    }

    /// Which features the resolution enables.
    pub open spec fn method(&self, ws: Workspace) -> Method<'_> {
        Method {
            dev_deps: ws.require_optional_deps || self.filter.dev_deps_needed(self.mode),
            features: &self.features,
            all_features: self.all_features,
            uses_default_features: !self.no_default_features,
        }
    }

    /// The settings of the build.
    pub open spec fn flags(self) -> BuildFlags {
        BuildFlags {
            release: self.release,
            test: self.mode is Test || self.mode is Bench,
            json_messages: self.message_format is Json,
        }
    }

    /// Whether the features to resolve with can be told.
    pub open spec fn resolvable(self, ws: Workspace) -> bool {
        ws.require_optional_deps || !(self.mode is RunCustomBuild)
    }

    /// The options of a command that was given no flags.
    pub fn default(config: &'a C, mode: CompileMode) -> (options: CompileOptions<'a, C>)
        ensures
            options.config == config,
            options.jobs == None::<u32>,
            options.target is None,
            options.features@ == Seq::<String>::empty(),
            !options.all_features,
            !options.no_default_features,
            options.spec matches Packages::Packages(packages) && packages@ == Seq::<
                String,
            >::empty(),
            options.filter == (CompileFilter::Default { required_features_filterable: false }),
            !options.release,
            options.mode == mode,
            options.message_format == MessageFormat::Human,
            options.target_rustdoc_args is None,
            options.target_rustc_args is None,
            options.export_dir is None,
    {
        CompileOptions {
            config,
            jobs: None,
            target: None,
            features: Vec::new(),
            all_features: false,
            no_default_features: false,
            spec: Packages::Packages(Vec::new()),
            filter: CompileFilter::Default { required_features_filterable: false },
            release: false,
            mode,
            message_format: MessageFormat::Human,
            target_rustdoc_args: None,
            target_rustc_args: None,
            export_dir: None,
        }
    }

    /// The extra arguments for the compiler, and the tool that they are for.
    pub fn extra_args(&self) -> (res: Option<(&'static str, &Vec<String>)>)
        ensures
            match self.extra() {
                Some((tool, args)) => res matches Some((t, a)) && t@ == tool && *a == args,
                None => res is None,
            },
    {
        match (&self.target_rustc_args, &self.target_rustdoc_args) {
            (Some(args), _) => Some(("rustc", args)),
            (_, Some(args)) => Some(("rustdoc", args)),
            _ => None,
        }
    }

    /// Which features the resolution enables.
    pub fn resolve_method(&self, ws: &Workspace) -> (method: Method<'_>)
        requires
            self.resolvable(*ws),
        ensures
            method == self.method(*ws),
    {
        Method {
            dev_deps: ws.require_optional_deps || self.filter.need_dev_deps(self.mode),
            features: &self.features,
            all_features: self.all_features,
            uses_default_features: !self.no_default_features,
        }
    }

    /// The settings of the build.
    pub fn build_flags(&self) -> (flags: BuildFlags)
        ensures
            flags == self.flags(),
    {
        BuildFlags {
            release: self.release,
            test: self.mode == CompileMode::Test || self.mode == CompileMode::Bench,
            json_messages: self.message_format == MessageFormat::Json,
        }
    }
}

/// Arguments for `rustc` go before arguments for `rustdoc`, and are for the tool
/// that they were given for; where neither were given there are none.
pub proof fn law_extra_args_go_to_their_tool<'a, C>(options: CompileOptions<'a, C>)
    ensures
        options.target_rustc_args matches Some(args) ==> options.extra() == Some(("rustc"@, args)),
        options.target_rustc_args is None ==> (options.target_rustdoc_args matches Some(args)
            ==> options.extra() == Some(("rustdoc"@, args))),
        options.extra() is None <==> options.target_rustc_args is None
            && options.target_rustdoc_args is None,
{
}

/// The resolution enables the features that were asked for, all if they were, and
/// the default ones unless they were declined; it takes in dev-dependencies
/// exactly if the workspace wants optional ones or what is built needs them.
pub proof fn law_resolution_enables_what_was_asked_for<'a, C>(
    options: &'a CompileOptions<'a, C>,
    ws: Workspace,
)
    ensures
        options.method(ws).features == &options.features,
        options.method(ws).all_features == options.all_features,
        options.method(ws).uses_default_features != options.no_default_features,
        options.method(ws).dev_deps <==> ws.require_optional_deps || options.filter.dev_deps_needed(
            options.mode,
        ),
        options.mode != CompileMode::RunCustomBuild ==> options.resolvable(ws),
        ws.require_optional_deps ==> options.resolvable(ws),
{
}

/// A build is for release if that was asked for, for tests exactly if it makes
/// tests or benchmarks, and tells its messages in the format that was asked for.
pub proof fn law_settings_follow_from_options<'a, C>(options: CompileOptions<'a, C>)
    ensures
        options.flags().release == options.release,
        options.flags().test <==> options.mode == CompileMode::Test || options.mode
            == CompileMode::Bench,
        options.flags().json_messages <==> options.message_format == MessageFormat::Json,
{
}

} // verus!
