//! Outcomes of compiling a config into a manifest.
//!
//! Building and running the config program is the caller's work; the stages
//! it reports, and how a failure reads, are defined here.
use vstd::prelude::*;

use crate::install::planner::{debug_quoted, push_debug_quoted};
use crate::package_check::{render_unknown_packages, unknown_report, PackageCheckOutcome};
use crate::text::{chars_of, decimal, push_decimal, push_str, string_of};

verus! {

/// Which phase of compilation failed.
#[derive(Debug, Clone, Copy, PartialEq, Eq, Structural)]
pub enum CompileStage {
    /// The `oxys` crate source was not found.
    CrateMissing,
    /// Setting up the scaffold crate on disk failed.
    Scaffold,
    /// Building the config failed (syntax and type errors live here).
    CargoBuild,
    /// The compiled config program failed to run.
    Execute,
    /// The config ran but produced no manifest.
    ManifestMissing,
    /// A manifest was produced but did not validate.
    ManifestInvalid,
    /// The manifest declares packages that exist in no configured repository.
    UnknownPackages,
}

pub open spec fn stage_label(s: CompileStage) -> Seq<char> {
    match s {
        CompileStage::CrateMissing => "oxys crate not found"@,
        CompileStage::Scaffold => "scaffolding build crate"@,
        CompileStage::CargoBuild => "compiling config"@,
        CompileStage::Execute => "executing config"@,
        CompileStage::ManifestMissing => "manifest.toml not produced"@,
        CompileStage::ManifestInvalid => "validating manifest.toml"@,
        CompileStage::UnknownPackages => "unknown packages"@,
    }
}

impl CompileStage {
    /// A short human-readable label for the stage.
    pub fn label(self) -> (r: &'static str)
        ensures
            r@ == stage_label(self),
    {
        match self {
            CompileStage::CrateMissing => "oxys crate not found",
            CompileStage::Scaffold => "scaffolding build crate",
            CompileStage::CargoBuild => "compiling config",
            CompileStage::Execute => "executing config",
            CompileStage::ManifestMissing => "manifest.toml not produced",
            CompileStage::ManifestInvalid => "validating manifest.toml",
            CompileStage::UnknownPackages => "unknown packages",
        }
    }
}

/// A compilation failure; `output` carries the captured compiler and program
/// output so a caller can show the real diagnostics.
#[derive(Debug)]
pub struct CompileError {
    pub stage: CompileStage,
    pub message: String,
    pub output: String,
}

impl CompileError {
    /// A bare error with no captured output, for failures found before the
    /// build runs.
    pub fn message(message: &str) -> (r: Self)
        ensures
            r.stage == CompileStage::Scaffold,
            r.message@ == message@,
            r.output@.len() == 0,
    {
        CompileError::new(CompileStage::Scaffold, message)
    }

    /// An error of `stage` with no captured output.
    pub fn new(stage: CompileStage, message: &str) -> (r: Self)
        ensures
            r.stage == stage,
            r.message@ == message@,
            r.output@.len() == 0,
    {
        CompileError { stage, message: message.to_owned(), output: String::new() }
    }

    /// The same error carrying `output`.
    pub fn with_output(self, output: String) -> (r: Self)
        ensures
            r.stage == self.stage,
            r.message == self.message,
            r.output == output,
    {
        CompileError { stage: self.stage, message: self.message, output }
    }

    /// How the error reads: `<stage label>: <message>`.
    pub fn text(&self) -> (r: String)
        ensures
            r@ == stage_label(self.stage) + ": "@ + self.message@,
    {
        let mut v: Vec<char> = Vec::new();
        push_str(&mut v, self.stage.label());
        push_str(&mut v, ": ");
        push_str(&mut v, self.message.as_str());
        string_of(&v)
    }
}

/// A successful compilation: where the validated manifest landed, and the
/// non-fatal notices to show (such as a skipped package check).
#[derive(Debug)]
pub struct CompileOutcome {
    pub manifest_path: String,
    pub notices: Vec<String>,
}


/// The name of the crate a config is built in.
pub const SCAFFOLD_CRATE_NAME: &'static str = "oxys-config-scaffold";

/// The manifest of the crate a config is built in: it depends on the `oxys`
/// crate at `oxys_crate_path` (quoted as Rust's debug format quotes it).
pub open spec fn scaffold_manifest_text(oxys_crate_path: Seq<char>) -> Seq<char> {
    "[package]\nname = \""@ + SCAFFOLD_CRATE_NAME@
        + "\"\nversion = \"0.0.0\"\nedition = \"2021\"\n\n[dependencies]\noxys = { path = "@
        + debug_quoted(oxys_crate_path) + " }\n"@
}

pub fn scaffold_cargo_toml(oxys_crate_path: &str) -> (r: String)
    ensures
        r@ == scaffold_manifest_text(oxys_crate_path@),
{
    let mut v = chars_of("[package]\nname = \"");
    push_str(&mut v, SCAFFOLD_CRATE_NAME);
    push_str(
        &mut v,
        "\"\nversion = \"0.0.0\"\nedition = \"2021\"\n\n[dependencies]\noxys = { path = ",
    );
    push_debug_quoted(&mut v, &chars_of(oxys_crate_path));
    push_str(&mut v, " }\n");
    string_of(&v)
}

/// A program's output followed by its error output, on a new line when the
/// output does not end with one.
pub open spec fn combined_output_text(stdout: Seq<char>, stderr: Seq<char>) -> Seq<char> {
    if stderr.len() == 0 {
        stdout
    } else if stdout.len() > 0 && stdout.last() != '\n' {
        stdout + "\n"@ + stderr
    } else {
        stdout + stderr
    }
}

pub fn combine_output(stdout: &str, stderr: &str) -> (r: String)
    ensures
        r@ == combined_output_text(stdout@, stderr@),
{
    let out = chars_of(stdout);
    let err = chars_of(stderr);
    let mut v = chars_of(stdout);
    if err.len() > 0 {
        if out.len() > 0 && out[out.len() - 1] != '\n' {
            v.push('\n');
            assert(v@ =~= stdout@ + "\n"@) by {
                reveal_strlit("\n");
            }
        }
        crate::text::push_chars(&mut v, &err);
    }
    string_of(&v)
}

pub open spec fn skipped_check_notice(tree: Seq<char>) -> Seq<char> {
    "note: no Portage tree found at "@ + tree + "; skipping package name check"@
}

/// How a built and validated manifest at `manifest_path` fares once its
/// packages were checked against the Portage tree: unknown packages fail the
/// compilation with the report as output; a missing tree is a notice.
pub fn finish_compile(manifest_path: String, check: PackageCheckOutcome) -> (r: Result<
    CompileOutcome,
    CompileError,
>)
    ensures
        match check {
            PackageCheckOutcome::NoPortageTree { tree } => r matches Ok(o) && o.manifest_path
                == manifest_path && crate::text::sviews(o.notices@) == seq![
                skipped_check_notice(tree@),
            ],
            PackageCheckOutcome::Checked(unknown) => if unknown@.len() > 0 {
                r matches Err(e) && e.stage == CompileStage::UnknownPackages && e.message@ == decimal(
                    unknown@.len() as nat,
                ) + " unknown package(s) in config"@ && e.output@ == unknown_report(unknown@)
            } else {
                r matches Ok(o) && o.manifest_path == manifest_path && o.notices@.len() == 0
            },
        },
{
    match check {
        PackageCheckOutcome::NoPortageTree { tree } => {
            let mut v = chars_of("note: no Portage tree found at ");
            push_str(&mut v, tree.as_str());
            push_str(&mut v, "; skipping package name check");
            let mut notices: Vec<String> = Vec::new();
            notices.push(string_of(&v));
            assert(crate::text::sviews(notices@) =~= seq![skipped_check_notice(tree@)]);
            Ok(CompileOutcome { manifest_path, notices })
        },
        PackageCheckOutcome::Checked(unknown) => {
            if unknown.len() > 0 {
                let mut m: Vec<char> = Vec::new();
                push_decimal(&mut m, unknown.len() as u64);
                push_str(&mut m, " unknown package(s) in config");
                let report = render_unknown_packages(&unknown);
                Err(
                    CompileError {
                        stage: CompileStage::UnknownPackages,
                        message: string_of(&m),
                        output: report,
                    },
                )
            } else {
                Ok(CompileOutcome { manifest_path, notices: Vec::new() })
            }
        },
    }
}

} // verus!
