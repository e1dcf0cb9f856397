//! Commands of toolchains: how they are run and what is made of their output.

use crate::error;
use crate::error::{naming_path, ErrorKind, ErrorView, PitError};
use crate::text;
use crate::text::{clone_text, clone_texts, trim};
use vstd::prelude::*;
use vstd::utf8;

verus! {

/// The text of bytes that are UTF-8, or nearly so.
pub uninterp spec fn lossy_text(bytes: Seq<u8>) -> Seq<char>;

/// `String::from_utf8_lossy` reads bytes as UTF-8. Bytes that are UTF-8 give the
/// text they encode; how others are replaced is not stated.
#[verifier::external_body]
pub(crate) fn from_lossy(bytes: &[u8]) -> (r: String)
    ensures
        r@ == lossy_text(bytes@),
        utf8::valid_utf8(bytes@) ==> r@ == utf8::decode_utf8(bytes@),
{
    String::from_utf8_lossy(bytes).into_owned()
}

/// What a command printed and how it ended.
#[derive(Debug)]
pub struct ToolOutput {
    pub success: bool,
    /// How the command ended, in words.
    pub status: String,
    pub stdout: Vec<u8>,
    pub stderr: Vec<u8>,
}

/// The model of a `ToolOutput`.
#[verifier::ext_equal]
pub struct ToolView {
    pub success: bool,
    pub status: Seq<char>,
    pub stdout: Seq<u8>,
    pub stderr: Seq<u8>,
}

impl View for ToolOutput {
    type V = ToolView;

    open spec fn view(&self) -> ToolView {
        ToolView {
            success: self.success,
            status: self.status@,
            stdout: self.stdout@,
            stderr: self.stderr@,
        }
    }
}

/// Two texts without white space round them, one below the other where neither is empty.
pub open spec fn merged(out: Seq<char>, err: Seq<char>) -> Seq<char> {
    let o = text::trimmed(out);
    let e = text::trimmed(err);
    if o.len() == 0 {
        e
    } else if e.len() == 0 {
        o
    } else {
        o.push('\n') + e
    }
}

/// Two texts without white space round them, one below the other where neither is empty.
pub fn merge_output(out: &str, err: &str) -> (r: String)
    ensures
        r@ == merged(out@, err@),
{
    let o = trim(out);
    let e = trim(err);
    if o.as_str().is_empty() {
        e
    } else if e.as_str().is_empty() {
        o
    } else {
        let mut t = o;
        t.push('\n');
        t.append(e.as_str());
        t
    }
}

/// What a command printed on both of its outputs.
pub open spec fn output_of(stdout: Seq<u8>, stderr: Seq<u8>) -> Seq<char> {
    merged(lossy_text(stdout), lossy_text(stderr))
}

/// What a command printed on both of its outputs.
pub fn output_text(stdout: &[u8], stderr: &[u8]) -> (r: String)
    ensures
        r@ == output_of(stdout@, stderr@),
{
    merge_output(from_lossy(stdout).as_str(), from_lossy(stderr).as_str())
}

/// What a compiler printed, or a note that it printed nothing.
pub open spec fn compiler_text(printed: Seq<char>) -> Seq<char> {
    if printed.len() == 0 {
        "(compiler produced no output)"@
    } else {
        printed
    }
}

/// What a compiler printed, or a note that it printed nothing.
pub fn compiler_output(stdout: &[u8], stderr: &[u8]) -> (r: String)
    ensures
        r@ == compiler_text(output_of(stdout@, stderr@)),
{
    let printed = output_text(stdout, stderr);
    if printed.as_str().is_empty() {
        "(compiler produced no output)".to_owned()
    } else {
        printed
    }
}

/// A command, and what is said where it cannot be started or fails. After
/// `failed` comes what the command printed.
#[derive(Debug)]
pub struct ToolCommand {
    pub program: String,
    pub args: Vec<String>,
    pub directory: Option<String>,
    pub not_started: String,
    pub failed: String,
}

/// The model of a `ToolCommand`.
#[verifier::ext_equal]
pub struct CommandView {
    pub program: Seq<char>,
    pub args: Seq<Seq<char>>,
    pub directory: Option<Seq<char>>,
    pub not_started: Seq<char>,
    pub failed: Seq<char>,
}

impl View for ToolCommand {
    type V = CommandView;

    open spec fn view(&self) -> CommandView {
        CommandView {
            program: self.program@,
            args: text::texts(self.args@),
            directory: text::option_view(self.directory),
            not_started: self.not_started@,
            failed: self.failed@,
        }
    }
}

impl Clone for ToolCommand {
    fn clone(&self) -> (r: Self)
        ensures
            r@ == self@,
    {
        ToolCommand {
            program: self.program.clone(),
            args: clone_texts(&self.args),
            directory: clone_text(&self.directory),
            not_started: self.not_started.clone(),
            failed: self.failed.clone(),
        }
    }
}

/// What came of a command: its output, or nothing where it could not be started.
pub open spec fn reply_view(reply: Option<ToolOutput>) -> Option<ToolView> {
    match reply {
        Some(o) => Some(o@),
        None => None,
    }
}

/// The outcome of a command: what it printed.
pub open spec fn command_outcome(command: CommandView, reply: Option<ToolView>) -> Result<
    Seq<char>,
    ErrorView,
> {
    match reply {
        None => Err(error::error(ErrorKind::Tool, command.not_started)),
        Some(o) => if o.success {
            Ok(output_of(o.stdout, o.stderr))
        } else {
            Err(error::error(ErrorKind::Tool, command.failed + output_of(o.stdout, o.stderr)))
        },
    }
}

impl ToolCommand {
    /// The outcome of the command, given what came of it.
    pub fn outcome(&self, reply: &Option<ToolOutput>) -> (r: Result<String, PitError>)
        ensures
            error::outcome(r) == command_outcome(self@, reply_view(*reply)),
    {
        match reply {
            None => Err(PitError::fixed(ErrorKind::Tool, self.not_started.as_str())),
            Some(o) => {
                let printed = output_text(o.stdout.as_slice(), o.stderr.as_slice());
                if o.success {
                    Ok(printed)
                } else {
                    Err(
                        naming_path(ErrorKind::Tool, self.failed.as_str(), printed.as_str()),
                    )
                }
            },
        }
    }
}

/// The models of command-line arguments.
pub open spec fn args_view(args: Seq<&str>) -> Seq<Seq<char>> {
    args.map_values(|a: &str| a@)
}

/// Command-line arguments as owned texts.
pub(crate) fn own_args(args: &[&str]) -> (r: Vec<String>)
    ensures
        text::texts(r@) == args_view(args@),
{
    let mut out: Vec<String> = Vec::new();
    let mut i: usize = 0;
    while i < args.len()
        invariant
            i <= args@.len(),
            out@.len() == i,
            forall|j: int| 0 <= j < i ==> (#[trigger] out@[j])@ == args@[j]@,
        decreases args@.len() - i,
    {
        out.push(args[i].to_owned());
        i = i + 1;
    }
    assert(text::texts(out@) =~= args_view(args@));
    out
}

/// A command that asks a tool for its version.
pub open spec fn version_command(program: Seq<char>, args: Seq<Seq<char>>, after_run: Seq<char>, failed: Seq<char>) -> CommandView {
    CommandView {
        program,
        args,
        directory: None,
        not_started: "failed to run "@ + program + after_run,
        failed: program + failed,
    }
}

/// A command that asks a tool for its version.
pub(crate) fn ask_version(program: &str, args: &[&str], after_run: &str, failed: &str) -> (r: ToolCommand)
    ensures
        r@ == version_command(program@, args_view(args@), after_run@, failed@),
{
    let mut not_started = "failed to run ".to_owned();
    not_started.append(program);
    not_started.append(after_run);
    let mut prefix = program.to_owned();
    prefix.append(failed);
    ToolCommand {
        program: program.to_owned(),
        args: own_args(args),
        directory: None,
        not_started,
        failed: prefix,
    }
}

/// The tools and places that the environment names, where it names them.
#[derive(Debug)]
pub struct ToolEnvironment {
    pub componentize_go: Option<String>,
    pub go: Option<String>,
    pub node: Option<String>,
    pub tsc: Option<String>,
    pub componentize_js_script: Option<String>,
    pub componentize_py: Option<String>,
    pub python: Option<String>,
    pub wit_bindgen: Option<String>,
    pub wasm_tools: Option<String>,
    pub dotnet: Option<String>,
    pub javac: Option<String>,
    /// The WASI SDK, if it is a directory.
    pub wasi_sdk: Option<String>,
    /// The WIT files of the HTTP world.
    pub http_wit: Option<String>,
}

/// The named tool, or the default.
pub open spec fn tool_or(named: Option<Seq<char>>, default: Seq<char>) -> Seq<char> {
    match named {
        Some(t) => t,
        None => default,
    }
}

/// The named tool, or the default.
pub(crate) fn choose_tool(named: &Option<String>, default: &str) -> (r: String)
    ensures
        r@ == tool_or(text::option_view(*named), default@),
{
    match named {
        Some(t) => t.clone(),
        None => default.to_owned(),
    }
}

} // verus!
