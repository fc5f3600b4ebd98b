//! The decisions of the `sibling` command: what its options make of the
//! argument, which input it reads, what it prints, and its exit status.
use vstd::prelude::*;
use vstd::string::*;

use crate::dirs::{found_by, found_index, step_fits, Dirs, Nextable};
use crate::error::{Error, Result};
use crate::factory::{opt_text, Config, NotOnDirs};
use crate::nexter::NexterType;
use crate::path::{
    has_cur_dir_component,
    has_dot_component,
    has_parent_dir_component,
    parent,
    parent_spec,
};
use crate::printer::{next_number_fits, result_string, result_text, PrintingOpts};
use crate::text::{lowercase_spec, same_text, to_lowercase};

verus! {

/// The log level of the command.
#[derive(Debug, Clone, Copy, PartialEq, Eq, Structural)]
pub enum LogLevel {
    Error,
    Warn,
    Info,
    Debug,
    Trace,
}

impl LogLevel {
    /// The filter of the logger for this level, as `RUST_LOG` takes it.
    pub fn filter(&self) -> (r: &'static str)
        ensures
            r@ == match self {
                LogLevel::Error => "error"@,
                LogLevel::Warn => "warn"@,
                LogLevel::Info => "info"@,
                LogLevel::Debug => "debug"@,
                LogLevel::Trace => "trace"@,
            },
    {
        match self {
            LogLevel::Error => "error",
            LogLevel::Warn => "warn",
            LogLevel::Info => "info",
            LogLevel::Debug => "debug",
            LogLevel::Trace => "trace",
        }
    }
}

/// The exit status of the `sibling` command.
///
/// The status code 2 is the one of the usage error, which the argument parser
/// exits with before running the command.
#[derive(Debug, Clone, Copy, PartialEq, Eq, Structural)]
pub enum Status {
    /// The next directory was found, or the requested script was generated.
    Success,
    /// No more sibling directory was found.
    NoMoreSibling,
    /// The command failed.
    Error,
}

impl Status {
    /// The exit code of the status.
    pub fn code(&self) -> (r: i32)
        ensures
            r == match self {
                Status::Success => 0i32,
                Status::NoMoreSibling => 1i32,
                Status::Error => 3i32,
            },
    {
        match self {
            Status::Success => 0,
            Status::NoMoreSibling => 1,
            Status::Error => 3,
        }
    }
}

/// The result of the command: the text to print to stdout, and the exit
/// status. The `text` is empty if nothing should be printed.
#[derive(Debug)]
pub struct Outcome {
    pub text: String,
    pub status: Status,
}

/// The options of the traversing.
#[derive(Debug, Clone, Copy)]
pub struct NexterOpts {
    pub step: i32,
    pub nexter: NexterType,
}

/// The options of the input.
#[derive(Debug)]
pub struct BaseOpts {
    /// The entries of a list that do not exist are the targets, too.
    pub all: bool,
    /// The parent directory of the argument, instead of its own parent.
    pub base_path: Option<String>,
    /// The action when the current directory is not in the target directories.
    pub not_on_dirs: NotOnDirs,
    /// The directory to find the siblings of, or the file of a list.
    pub input: String,
}

/// The options of the command.
#[derive(Debug)]
pub struct CliOpts {
    pub p_opts: PrintingOpts,
    pub nexter_opts: NexterOpts,
    pub base_opts: BaseOpts,
}

/// The option of the initialize script.
#[derive(Debug)]
pub struct InitOpts {
    pub init: Option<String>,
}

/// The option of the log level.
#[derive(Debug, Clone, Copy)]
pub struct LogOpts {
    pub log: LogLevel,
}

/// All the options of the `sibling` command.
#[derive(Debug)]
pub struct SiblingOpts {
    pub cli_opts: CliOpts,
    pub init_script: InitOpts,
    pub log_opts: LogOpts,
}

/// The parent of a path is derivable from the string: it has a non-empty
/// parent, and none of its components is `.` or `..`.
pub open spec fn parent_obvious(path: Seq<char>) -> bool {
    &&& parent_spec(path) matches Some(p) && p.len() > 0
    &&& !has_cur_dir_component(path)
    &&& !has_parent_dir_component(path)
}

/// Return true if the parent directory is derivable from the given path by
/// `Path::parent`; otherwise the path is resolved to the absolute one before use.
pub fn is_parent_obvious(path: &str) -> (r: bool)
    ensures
        r == parent_obvious(path@),
{
    let has_parent = match parent(path) {
        Some(p) => p.unicode_len() > 0,
        None => false,
    };
    if !has_parent {
        return false;
    }
    !has_dot_component(path)
}

/// The configuration [`BaseOpts::config`] builds for `target`.
pub open spec fn configured(opts: BaseOpts, target: Seq<char>, target_is_dir: bool, r: Result<Config>) -> bool {
    let base = match opts.base_path {
        Some(b) => Some(b@),
        None => parent_spec(target),
    };
    match base {
        None => r matches Err(Error::NoParent(p)) && p@ == target,
        Some(b) => r matches Ok(c) && {
            &&& c.base_dir@ == b
            &&& c.all_target == opts.all
            &&& opt_text(c.current) == (if target_is_dir {
                Some(target)
            } else {
                None
            })
            &&& c.not_on_dirs == opts.not_on_dirs
        },
    }
}

impl BaseOpts {
    /// Build the [`Config`] for the argument `target`, the path of `input`.
    ///
    /// The argument means the directory itself, not its parent; the siblings
    /// of it are the child directories of its parent directory. Therefore, the
    /// parent directory is the value of `base_path`, if it is given, otherwise
    /// the parent directory of `target`. A directory `target` is the current
    /// one.
    ///
    /// # Errors
    ///
    /// Returns [`Error::NoParent`] if `target` has no parent directory (e.g.,
    /// the root directory) and no `base_path` is given.
    pub fn config(&self, target: &str, target_is_dir: bool) -> (r: Result<Config>)
        ensures
            configured(*self, target@, target_is_dir, r),
    {
        let base = match &self.base_path {
            Some(base) => base.clone(),
            None => match parent(target) {
                Some(p) => p,
                None => return Err(Error::NoParent(String::from_str(target))),
            },
        };
        let config = if target_is_dir {
            Config::new_with_wd(base.as_str(), self.all, target)
        } else {
            Config::new(base.as_str(), self.all)
        };
        Ok(config.not_on_dirs(self.not_on_dirs))
    }
}

/// The input of the command.
#[derive(Debug, Clone, Copy, PartialEq, Eq, Structural)]
pub enum Route {
    /// The siblings of the directory.
    Siblings,
    /// The list of directories in the file, or in stdin for `-`.
    List,
}

/// Decide the input: `.` or a directory is the one to find the siblings of,
/// and `-` or a file holds a list.
///
/// # Errors
///
/// Returns [`Error::Fatal`] if `input` is neither.
pub fn route(input: &str, is_dir: bool, is_file: bool) -> (r: Result<Route>)
    ensures
        (input@ == "."@ || is_dir) ==> r == Ok::<Route, Error>(Route::Siblings),
        !(input@ == "."@ || is_dir) && (input@ == "-"@ || is_file) ==> r == Ok::<Route, Error>(
            Route::List,
        ),
        !(input@ == "."@ || is_dir || input@ == "-"@ || is_file) ==> (r matches Err(
            Error::Fatal(m),
        ) && m@ == input@ + ": No such file or directory"@),
{
    if same_text(input, ".") || is_dir {
        Ok(Route::Siblings)
    } else if same_text(input, "-") || is_file {
        Ok(Route::List)
    } else {
        let mut message = String::from_str(input);
        message.append(": No such file or directory");
        Err(Error::Fatal(message))
    }
}

/// Traverse `dirs` by the options and build the outcome: the text in the
/// format of `p_opts`, with the entries shown as `shown`, and the status that
/// tells whether a directory was found.
pub fn perform_impl(
    dirs: &Dirs,
    nexter: &NexterOpts,
    p_opts: &PrintingOpts,
    shown: &Vec<String>,
) -> (r: Outcome)
    requires
        shown.len() == dirs@.len(),
        step_fits(nexter.nexter, dirs@.len(), dirs@.current, nexter.step as int),
        forall|found: Option<int>|
            found_by(nexter.nexter, dirs@.len(), dirs@.current, nexter.step as int, found)
                ==> #[trigger] next_number_fits(*p_opts, found),
    ensures
        exists|found: Option<int>|
            {
                &&& found_by(nexter.nexter, dirs@.len(), dirs@.current, nexter.step as int, found)
                &&& r.text@ == result_text(dirs@, shown.deep_view(), found, *p_opts)
                &&& r.status == if found is Some {
                    Status::Success
                } else {
                    Status::NoMoreSibling
                }
            },
{
    let next = dirs.next_with(nexter.nexter, nexter.step);
    let status = match &next {
        Some(_) => Status::Success,
        None => Status::NoMoreSibling,
    };
    let text = result_string(dirs, &next, p_opts, shown);
    assert(found_by(
        nexter.nexter,
        dirs@.len(),
        dirs@.current,
        nexter.step as int,
        found_index(next),
    ));
    Outcome { text, status }
}

/// The file of the initialize script for a shell, named in any case: `bash`
/// and `zsh` share one.
pub open spec fn script_file_of(shell: Seq<char>) -> Option<Seq<char>> {
    let name = lowercase_spec(shell);
    if name == "bash"@ || name == "zsh"@ {
        Some("init.bash"@)
    } else if name == "fish"@ {
        Some("init.fish"@)
    } else if name == "powershell"@ || name == "pwsh"@ {
        Some("init.ps1"@)
    } else if name == "elvish"@ || name == "elv"@ {
        Some("init.elv"@)
    } else {
        None
    }
}

/// The message of an unsupported shell.
pub open spec fn unsupported_shell(shell: Seq<char>) -> Seq<char> {
    shell + ": Unsupported shell (supported: bash, zsh, fish, powershell, elvish)"@
}

/// The file of the initialize script for the shell.
///
/// # Errors
///
/// Returns [`Error::Fatal`] if the shell is not supported.
pub fn init_script_file(shell_name: &str) -> (r: Result<&'static str>)
    ensures
        match script_file_of(shell_name@) {
            Some(file) => r matches Ok(f) && f@ == file,
            None => r matches Err(Error::Fatal(m)) && m@ == unsupported_shell(shell_name@),
        },
{
    let lower = to_lowercase(shell_name);
    let name = lower.as_str();
    if same_text(name, "bash") || same_text(name, "zsh") {
        Ok("init.bash")
    } else if same_text(name, "fish") {
        Ok("init.fish")
    } else if same_text(name, "powershell") || same_text(name, "pwsh") {
        Ok("init.ps1")
    } else if same_text(name, "elvish") || same_text(name, "elv") {
        Ok("init.elv")
    } else {
        let mut message = String::from_str(shell_name);
        message.append(": Unsupported shell (supported: bash, zsh, fish, powershell, elvish)");
        Err(Error::Fatal(message))
    }
}

/// An initialize script the command carries: its file name, and its text, or
/// `None` if it is not valid UTF-8.
#[derive(Debug)]
pub struct EmbeddedScript {
    pub name: String,
    pub text: Option<String>,
}

/// What [`generate_init_script`] gives with the scripts `scripts`.
pub open spec fn generated_script(shell: Seq<char>, scripts: Seq<EmbeddedScript>, r: Result<String>) -> bool {
    match script_file_of(shell) {
        None => r matches Err(Error::Fatal(m)) && m@ == unsupported_shell(shell),
        Some(file) => {
            if exists|i: int| 0 <= i < scripts.len() && #[trigger] scripts[i].name@ == file {
                let i = choose|i: int| {
                    &&& 0 <= i < scripts.len()
                    &&& #[trigger] scripts[i].name@ == file
                    &&& forall|j: int| 0 <= j < i ==> #[trigger] scripts[j].name@ != file
                };
                match scripts[i].text {
                    Some(t) => r matches Ok(s) && s@ == t@,
                    None => r matches Err(Error::Fatal(m)) && m@ == file + ": Invalid script"@,
                }
            } else {
                r matches Err(Error::NotFound(p)) && p@ == file
            }
        },
    }
}

/// Generate the initialize script for the shell from the scripts the command
/// carries.
///
/// # Errors
///
/// - [`Error::Fatal`] if the shell is not supported, or its script is not valid UTF-8, and
/// - [`Error::NotFound`] if the script is not among `scripts`.
pub fn generate_init_script(shell_name: &str, scripts: &Vec<EmbeddedScript>) -> (r: Result<String>)
    ensures
        generated_script(shell_name@, scripts@, r),
{
    let file = match init_script_file(shell_name) {
        Ok(file) => file,
        Err(e) => return Err(e),
    };
    let mut i: usize = 0;
    while i < scripts.len()
        invariant
            i <= scripts.len(),
            script_file_of(shell_name@) == Some(file@),
            forall|j: int| 0 <= j < i ==> #[trigger] scripts@[j].name@ != file@,
        decreases scripts.len() - i,
    {
        if same_text(scripts[i].name.as_str(), file) {
            proof {
                let k = choose|k: int| {
                    &&& 0 <= k < scripts@.len()
                    &&& #[trigger] scripts@[k].name@ == file@
                    &&& forall|j: int| 0 <= j < k ==> #[trigger] scripts@[j].name@ != file@
                };
                assert(0 <= i < scripts@.len() && scripts@[i as int].name@ == file@ && forall|j: int|
                    0 <= j < i ==> #[trigger] scripts@[j].name@ != file@);
                if k < i {
                    assert(scripts@[k].name@ != file@);
                } else if k > i {
                    assert(scripts@[i as int].name@ != file@);
                }
                assert(k == i);
            }
            return match &scripts[i].text {
                Some(text) => Ok(text.clone()),
                None => {
                    let mut message = String::from_str(file);
                    message.append(": Invalid script");
                    Err(Error::Fatal(message))
                },
            };
        }
        i = i + 1;
    }
    Err(Error::NotFound(String::from_str(file)))
}

} // verus!
