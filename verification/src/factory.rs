//! Building [`Dirs`]: from the child directories of a base directory, or from
//! a list of directories.
//!
//! The file system is read by the caller: it lists the base directory, reads
//! the lines of the list, and tells which entries exist. The functions here
//! decide what [`Dirs`] is built of them.
use vstd::prelude::*;

use crate::dirs::{opt_int, Dirs};
use crate::error::{Error, Result};
use crate::path::{
    join,
    join_spec,
    same_path,
    same_path_spec,
    sort_texts,
    sorted_texts,
    strip_prefix,
    strip_prefix_spec,
};
use crate::text::{has_prefix, same_text, starts_with, suffix, trim, trim_spec};

verus! {

/// What to do when the given current directory is not in the target directories.
#[derive(Debug, Clone, Copy, PartialEq, Eq, Structural)]
pub enum NotOnDirs {
    /// Fail with [`Error::NotFound`].
    Error,
    /// Take the position before the first directory as the current one.
    BeforeFirst,
}

/// Configuration for creating [`Dirs`] instances.
/// The `base_dir` becomes the parent directory, and the child directories of
/// `base_dir` are listed as the sibling directories.
/// If `all_target` is true, the entries of a list that do not exist are the
/// targets, too.
#[derive(Debug)]
pub struct Config {
    pub base_dir: String,
    pub all_target: bool,
    pub current: Option<String>,
    pub not_on_dirs: NotOnDirs,
}

/// An optional string as an optional sequence of characters.
pub open spec fn opt_text(s: Option<String>) -> Option<Seq<char>> {
    match s {
        Some(s) => Some(s@),
        None => None,
    }
}

impl Config {
    /// The configuration without the current directory.
    pub fn new(base_dir: &str, all_target: bool) -> (r: Config)
        ensures
            r.base_dir@ == base_dir@,
            r.all_target == all_target,
            r.current is None,
            r.not_on_dirs == NotOnDirs::Error,
    {
        Config {
            base_dir: String::from_str(base_dir),
            all_target,
            current: None,
            not_on_dirs: NotOnDirs::Error,
        }
    }

    /// The configuration whose current directory is `current`.
    pub fn new_with_wd(base_dir: &str, all_target: bool, current: &str) -> (r: Config)
        ensures
            r.base_dir@ == base_dir@,
            r.all_target == all_target,
            opt_text(r.current) == Some(current@),
            r.not_on_dirs == NotOnDirs::Error,
    {
        Config {
            base_dir: String::from_str(base_dir),
            all_target,
            current: Some(String::from_str(current)),
            not_on_dirs: NotOnDirs::Error,
        }
    }

    /// The same configuration, with `action` for the current directory that is
    /// not in the target directories.
    pub fn not_on_dirs(self, action: NotOnDirs) -> (r: Config)
        ensures
            r.base_dir@ == self.base_dir@,
            r.all_target == self.all_target,
            opt_text(r.current) == opt_text(self.current),
            r.not_on_dirs == action,
    {
        Config { not_on_dirs: action, ..self }
    }
}

/// `current` relative to `base`, or `current` itself when `base` is not its prefix.
pub open spec fn relative_current(current: Seq<char>, base: Seq<char>) -> Seq<char> {
    match strip_prefix_spec(current, base) {
        Some(rest) => rest,
        None => current,
    }
}

/// `dir` is the directory `wd`, both relative to `base`; a directory that is
/// not under `base` is never the current one.
pub open spec fn names_current(dir: Seq<char>, base: Seq<char>, wd: Seq<char>) -> bool {
    match strip_prefix_spec(dir, base) {
        Some(rest) => same_path_spec(rest, wd),
        None => false,
    }
}

/// `found` is the first index of `dirs` that is the directory `current`,
/// relative to `base`, or `None` when no entry is.
pub open spec fn first_current(
    dirs: Seq<Seq<char>>,
    base: Seq<char>,
    current: Seq<char>,
    found: Option<int>,
) -> bool {
    let wd = relative_current(current, base);
    match found {
        Some(i) => {
            &&& 0 <= i < dirs.len()
            &&& names_current(dirs[i], base, wd)
            &&& forall|j: int| 0 <= j < i ==> !names_current(#[trigger] dirs[j], base, wd)
        },
        None => forall|j: int| 0 <= j < dirs.len() ==> !names_current(#[trigger] dirs[j], base, wd),
    }
}

/// Return the index of `current` in `dirs`, both taken relative to `base_dir`,
/// or `None` if no current directory is given or it is not found.
pub fn find_current(base_dir: &str, dirs: &Vec<String>, current: &Option<String>) -> (r: Option<
    usize,
>)
    ensures
        match current {
            Some(c) => first_current(dirs.deep_view(), base_dir@, c@, opt_int(r)),
            None => r is None,
        },
{
    match current {
        None => None,
        Some(wanted) => {
            let wd = match strip_prefix(wanted.as_str(), base_dir) {
                Some(rest) => rest,
                None => wanted.clone(),
            };
            let ghost view = dirs.deep_view();
            let mut i: usize = 0;
            while i < dirs.len()
                invariant
                    i <= dirs.len(),
                    view == dirs.deep_view(),
                    wd@ == relative_current(wanted@, base_dir@),
                    *current == Some(*wanted),
                    forall|j: int| 0 <= j < i ==> !names_current(#[trigger] view[j], base_dir@, wd@),
                decreases dirs.len() - i,
            {
                assert(view[i as int] == dirs@[i as int]@);
                let found = match strip_prefix(dirs[i].as_str(), base_dir) {
                    Some(rest) => same_path(rest.as_str(), wd.as_str()),
                    None => false,
                };
                if found {
                    return Some(i);
                }
                i = i + 1;
            }
            None
        },
    }
}

/// The current position [`resolve_current`] gives: the first index of
/// `current` in `dirs`, or, when it is not there and `action` allows it, the
/// unknown position.
pub open spec fn resolves_to(
    dirs: Seq<Seq<char>>,
    base: Seq<char>,
    current: Option<Seq<char>>,
    action: NotOnDirs,
    found: Option<int>,
) -> bool {
    match current {
        None => found is None,
        Some(c) => match found {
            Some(i) => first_current(dirs, base, c, Some(i)),
            None => action == NotOnDirs::BeforeFirst && first_current(dirs, base, c, None),
        },
    }
}

/// The given current directory is not in `dirs`, and `action` makes it an error.
pub open spec fn unresolved(
    dirs: Seq<Seq<char>>,
    base: Seq<char>,
    current: Option<Seq<char>>,
    action: NotOnDirs,
) -> bool {
    match current {
        None => false,
        Some(c) => action == NotOnDirs::Error && first_current(dirs, base, c, None),
    }
}

/// The error of the current directory that is not in the target directories.
pub open spec fn not_found_error(current: Option<Seq<char>>, e: Error) -> bool {
    e matches Error::NotFound(p) && current == Some(p@)
}

/// The index of the current directory among `dirs`.
fn resolve_current(
    base_dir: &str,
    dirs: &Vec<String>,
    current: &Option<String>,
    action: NotOnDirs,
) -> (r: Result<Option<usize>>)
    ensures
        match r {
            Ok(found) => resolves_to(dirs.deep_view(), base_dir@, opt_text(*current), action, opt_int(found)),
            Err(e) => unresolved(dirs.deep_view(), base_dir@, opt_text(*current), action)
                && not_found_error(opt_text(*current), e),
        },
        r matches Ok(Some(i)) ==> i < dirs.len(),
{
    match current {
        None => Ok(None),
        Some(c) => match find_current(base_dir, dirs, current) {
            Some(i) => Ok(Some(i)),
            None => match action {
                NotOnDirs::BeforeFirst => Ok(None),
                NotOnDirs::Error => Err(Error::NotFound(c.clone())),
            },
        },
    }
}

impl Dirs {
    /// Build the [`Dirs`] instance whose current directory is `cwd`.
    ///
    /// # Errors
    ///
    /// Returns [`Error::NotFound`] if `cwd` is not in `entries`.
    pub fn new_with_wd(base_dir: String, entries: Vec<String>, cwd: String) -> (r: Result<Dirs>)
        ensures
            match r {
                Ok(d) => {
                    &&& d@.entries == entries.deep_view()
                    &&& d@.parent == base_dir@
                    &&& d@.current is Some
                    &&& first_current(entries.deep_view(), base_dir@, cwd@, d@.current)
                },
                Err(e) => {
                    &&& first_current(entries.deep_view(), base_dir@, cwd@, None)
                    &&& e matches Error::NotFound(p) && p@ == cwd@
                },
            },
    {
        let current = Some(cwd);
        match resolve_current(base_dir.as_str(), &entries, &current, NotOnDirs::Error) {
            Ok(index) => Ok(Dirs::from_parts(base_dir, entries, index)),
            Err(e) => Err(e),
        }
    }
}

/// What the caller found at the base directory.
#[derive(Debug)]
pub enum BaseProbe {
    /// The working directory was asked for, and it could not be read; the
    /// message of the I/O error.
    NoWorkingDir(String),
    /// The base directory does not exist.
    NotFound,
    /// The base directory is not a directory.
    NotDir,
    /// The base directory was listed: `dir` is the directory listed (the
    /// working directory for `.`, otherwise the base directory), `children` the paths of its child
    /// directories, and `errors` the messages of the I/O errors of the listing.
    Listed { dir: String, children: Vec<String>, errors: Vec<String> },
}

/// The parent of the listed directories: the configured base directory, or,
/// for `.`, the working directory that was listed.
pub open spec fn listed_parent(base_dir: Seq<char>, listed: Seq<char>) -> Seq<char> {
    if base_dir == "."@ {
        listed
    } else {
        base_dir
    }
}

/// The errors of the listing, each as an I/O error.
pub open spec fn io_errors(messages: Seq<Seq<char>>, errors: Seq<Error>) -> bool {
    &&& errors.len() == messages.len()
    &&& forall|i: int|
        0 <= i < errors.len() ==> (#[trigger] errors[i] matches Error::Io(m) && m@ == messages[i])
}

/// What [`create_dirs_from_base_path`] builds: the error of every I/O error of
/// the listing; otherwise the child directories in their order, with the
/// current one among them.
pub open spec fn built_from_listing(
    parent: Seq<char>,
    config: Config,
    children: Seq<Seq<char>>,
    errors: Seq<Seq<char>>,
    r: Result<Dirs>,
) -> bool {
    if errors.len() > 0 {
        r matches Err(Error::Array(es)) && io_errors(errors, es@)
    } else {
        match r {
            Ok(d) => {
                &&& d@.parent == parent
                &&& d@.entries.to_multiset() == children.to_multiset()
                &&& sorted_texts(d@.entries)
                &&& resolves_to(
                    d@.entries,
                    parent,
                    opt_text(config.current),
                    config.not_on_dirs,
                    d@.current,
                )
            },
            Err(e) => {
                &&& not_found_error(opt_text(config.current), e)
                &&& exists|entries: Seq<Seq<char>>|
                    {
                        &&& entries.to_multiset() == children.to_multiset()
                        &&& sorted_texts(entries)
                        &&& unresolved(entries, parent, opt_text(config.current), config.not_on_dirs)
                    }
            },
        }
    }
}

/// Build [`Dirs`] of the child directories of `parent`, sorted, and find the
/// current directory of `config` among them.
pub fn create_dirs_from_base_path(
    parent: &str,
    config: &Config,
    children: Vec<String>,
    errors: Vec<String>,
) -> (r: Result<Dirs>)
    ensures
        built_from_listing(parent@, *config, children.deep_view(), errors.deep_view(), r),
{
    if errors.len() > 0 {
        let mut array: Vec<Error> = Vec::new();
        let mut i: usize = 0;
        while i < errors.len()
            invariant
                i <= errors.len(),
                io_errors(errors.deep_view().take(i as int), array@),
            decreases errors.len() - i,
        {
            array.push(Error::Io(errors[i].clone()));
            i = i + 1;
        }
        assert(errors.deep_view().take(errors.len() as int) =~= errors.deep_view());
        return Err(Error::Array(array));
    }
    let entries = sort_texts(children);
    match resolve_current(parent, &entries, &config.current, config.not_on_dirs) {
        Ok(current) => {
            Ok(Dirs::from_parts(String::from_str(parent), entries, current))
        },
        Err(e) => Err(e),
    }
}

/// Factory of [`Dirs`].
#[derive(Debug)]
pub struct DirsFactory {}

impl DirsFactory {
    /// Create [`Dirs`] from the configuration and what the caller found at
    /// `config.base_dir`: the child directories of the base directory are the
    /// targets, and `config.current` is the current one.
    ///
    /// # Errors
    ///
    /// - [`Error::Io`] if the working directory, asked for by `.`, could not be read,
    /// - [`Error::NotFound`] if the base directory does not exist, or if
    ///   `config.current` is not among its child directories and
    ///   `config.not_on_dirs` is [`NotOnDirs::Error`],
    /// - [`Error::NotDir`] if the base directory is not a directory, and
    /// - [`Error::Array`] of the I/O errors of listing the base directory.
    pub fn create_with(config: &Config, probe: BaseProbe) -> (r: Result<Dirs>)
        ensures
            match probe {
                BaseProbe::NoWorkingDir(message) => r matches Err(Error::Io(m)) && m@
                    == message@,
                BaseProbe::NotFound => r matches Err(Error::NotFound(p)) && p@
                    == config.base_dir@,
                BaseProbe::NotDir => r matches Err(Error::NotDir(p)) && p@ == config.base_dir@,
                BaseProbe::Listed { dir, children, errors } => built_from_listing(
                    listed_parent(config.base_dir@, dir@),
                    *config,
                    children.deep_view(),
                    errors.deep_view(),
                    r,
                ),
            },
            config.base_dir@ != "."@ ==> (r matches Ok(d) ==> d@.parent == config.base_dir@),
    {
        match probe {
            BaseProbe::NoWorkingDir(message) => Err(Error::Io(message)),
            BaseProbe::NotFound => Err(Error::NotFound(config.base_dir.clone())),
            BaseProbe::NotDir => Err(Error::NotDir(config.base_dir.clone())),
            BaseProbe::Listed { dir, children, errors } => {
                let parent = if same_text(config.base_dir.as_str(), ".") {
                    dir
                } else {
                    config.base_dir.clone()
                };
                create_dirs_from_base_path(parent.as_str(), config, children, errors)
            },
        }
    }

    /// Create [`Dirs`] of the child directories of `base_dir`, without the
    /// current directory; `probe` is what the caller found at `base_dir`.
    pub fn create(base_dir: &str, probe: BaseProbe) -> (r: Result<Dirs>)
        ensures
            match probe {
                BaseProbe::NoWorkingDir(message) => r matches Err(Error::Io(m)) && m@
                    == message@,
                BaseProbe::NotFound => r matches Err(Error::NotFound(p)) && p@ == base_dir@,
                BaseProbe::NotDir => r matches Err(Error::NotDir(p)) && p@ == base_dir@,
                BaseProbe::Listed { dir, children, errors } => if errors.len() > 0 {
                    r matches Err(Error::Array(es)) && io_errors(errors.deep_view(), es@)
                } else {
                    r matches Ok(d) && d@.parent == listed_parent(base_dir@, dir@)
                        && d@.entries.to_multiset()
                        == children.deep_view().to_multiset() && sorted_texts(d@.entries)
                        && d@.current is None
                },
            },
    {
        let config = Config::new(base_dir, false);
        Self::create_with(&config, probe)
    }
}

/// Where a list of directories is read from.
#[derive(Debug, Clone, Copy, PartialEq, Eq, Structural)]
pub enum ListSource {
    /// The standard input, for `-`.
    Stdin,
    /// The file.
    File,
}

/// Decide where the list named `file` is read from, of what the caller found
/// at `file`: whether it exists, and whether it is a directory.
///
/// # Errors
///
/// - [`Error::NotFound`] if `file` is not `-` and does not exist, and
/// - [`Error::NotFile`] if `file` is not `-` and is a directory.
pub fn list_source(file: &str, exists: bool, is_dir: bool) -> (r: Result<ListSource>)
    ensures
        file@ == "-"@ ==> r == Ok::<ListSource, Error>(ListSource::Stdin),
        file@ != "-"@ && !exists ==> (r matches Err(Error::NotFound(p)) && p@ == file@),
        file@ != "-"@ && exists && is_dir ==> (r matches Err(Error::NotFile(p)) && p@ == file@),
        file@ != "-"@ && exists && !is_dir ==> r == Ok::<ListSource, Error>(ListSource::File),
{
    if same_text(file, "-") {
        Ok(ListSource::Stdin)
    } else if !exists {
        Err(Error::NotFound(String::from_str(file)))
    } else if is_dir {
        Err(Error::NotFile(String::from_str(file)))
    } else {
        Ok(ListSource::File)
    }
}

/// A line of a list of directories.
#[derive(Debug)]
pub enum ListLine {
    /// An empty line, or a comment starting with `#`.
    Ignored,
    /// `parent:` or `base_dir:`, and the base directory of the following entries.
    Base(String),
    /// `current:`, and the current directory, which is an entry as is.
    Current(String),
    /// An entry, to be resolved on the base directory.
    Entry(String),
}

/// The model of [`ListLine`].
pub enum ListLineView {
    Ignored,
    Base(Seq<char>),
    Current(Seq<char>),
    Entry(Seq<char>),
}

impl View for ListLine {
    type V = ListLineView;

    open spec fn view(&self) -> ListLineView {
        match self {
            ListLine::Ignored => ListLineView::Ignored,
            ListLine::Base(s) => ListLineView::Base(s@),
            ListLine::Current(s) => ListLineView::Current(s@),
            ListLine::Entry(s) => ListLineView::Entry(s@),
        }
    }
}

/// The value after the keyword `key` of the trimmed line `t`, trimmed.
pub open spec fn value_after(t: Seq<char>, key: Seq<char>) -> Seq<char> {
    trim_spec(t.subrange(key.len() as int, t.len() as int))
}

/// What a line of a list means; the line is trimmed first.
pub open spec fn line_of(raw: Seq<char>) -> ListLineView {
    let t = trim_spec(raw);
    if t.len() == 0 || starts_with(t, "#"@) {
        ListLineView::Ignored
    } else if starts_with(t, "base_dir:"@) {
        ListLineView::Base(value_after(t, "base_dir:"@))
    } else if starts_with(t, "parent:"@) {
        ListLineView::Base(value_after(t, "parent:"@))
    } else if starts_with(t, "current:"@) {
        ListLineView::Current(value_after(t, "current:"@))
    } else {
        ListLineView::Entry(t)
    }
}

/// The value after `key` of the trimmed line `t`, which starts with `key`.
fn value_of(t: &str, key: &str) -> (r: String)
    requires
        starts_with(t@, key@),
    ensures
        r@ == value_after(t@, key@),
{
    let n = key.unicode_len();
    String::from_str(trim(suffix(t, n)))
}

/// Tell what a line of a list means.
pub fn classify_line(raw: &str) -> (r: ListLine)
    ensures
        r@ == line_of(raw@),
{
    let t = trim(raw);
    if t.unicode_len() == 0 || has_prefix(t, "#") {
        ListLine::Ignored
    } else if has_prefix(t, "base_dir:") {
        ListLine::Base(value_of(t, "base_dir:"))
    } else if has_prefix(t, "parent:") {
        ListLine::Base(value_of(t, "parent:"))
    } else if has_prefix(t, "current:") {
        ListLine::Current(value_of(t, "current:"))
    } else {
        ListLine::Entry(String::from_str(t))
    }
}

/// The entries of a list before their existence is known: the base directory
/// after the last line, the paths of the entries in their order, and the
/// current directory, if the list or the configuration gives one.
#[derive(Debug)]
pub struct ListPlan {
    pub base_dir: String,
    pub candidates: Vec<String>,
    pub current: Option<String>,
}

/// The model of [`ListPlan`].
pub struct PlanView {
    pub base_dir: Seq<char>,
    pub candidates: Seq<Seq<char>>,
    pub current: Option<Seq<char>>,
}

impl View for ListPlan {
    type V = PlanView;

    open spec fn view(&self) -> PlanView {
        PlanView {
            base_dir: self.base_dir@,
            candidates: self.candidates.deep_view(),
            current: opt_text(self.current),
        }
    }
}

/// The plan of the lines, read in their order from the base directory `base`
/// and the current directory `current`: `parent:` and `base_dir:` change the
/// base directory of the following entries, `current:` adds its path as is and
/// makes it the current one, and an entry is joined to the base directory.
pub open spec fn plan_of(lines: Seq<Seq<char>>, base: Seq<char>, current: Option<Seq<char>>) -> PlanView
    decreases lines.len(),
{
    if lines.len() == 0 {
        PlanView { base_dir: base, candidates: Seq::empty(), current }
    } else {
        let p = plan_of(lines.drop_last(), base, current);
        match line_of(lines.last()) {
            ListLineView::Ignored => p,
            ListLineView::Base(b) => PlanView { base_dir: b, ..p },
            ListLineView::Current(c) => PlanView {
                candidates: p.candidates.push(c),
                current: Some(c),
                ..p
            },
            ListLineView::Entry(e) => PlanView {
                candidates: p.candidates.push(join_spec(p.base_dir, e)),
                ..p
            },
        }
    }
}

/// What the caller found of an entry of a list: whether it exists, and its
/// canonical path, if it has one.
#[derive(Debug)]
pub struct EntryProbe {
    pub exists: bool,
    pub canonical: Option<String>,
}

/// The items whose flag in `keep` is set, in their order.
pub open spec fn kept_of<A>(items: Seq<A>, keep: Seq<bool>) -> Seq<A>
    decreases items.len(),
{
    if items.len() == 0 {
        Seq::empty()
    } else {
        let rest = kept_of(items.drop_last(), keep.take(items.len() - 1));
        if keep[items.len() - 1] {
            rest.push(items.last())
        } else {
            rest
        }
    }
}

/// An entry is a target if it exists, or if every entry is.
pub open spec fn keeps(probes: Seq<EntryProbe>, all_target: bool) -> Seq<bool> {
    probes.map_values(|p: EntryProbe| p.exists || all_target)
}

/// The canonical paths of the entries.
pub open spec fn canonicals(probes: Seq<EntryProbe>) -> Seq<Option<Seq<char>>> {
    probes.map_values(|p: EntryProbe| opt_text(p.canonical))
}

/// `found` is the first index whose canonical path is the working directory's,
/// or `None` if no entry has it (or the working directory is unknown).
pub open spec fn first_working_dir(
    canons: Seq<Option<Seq<char>>>,
    wd: Option<Seq<char>>,
    found: Option<int>,
) -> bool {
    match wd {
        None => found is None,
        Some(w) => match found {
            Some(i) => {
                &&& 0 <= i < canons.len()
                &&& canons[i] == Some(w)
                &&& forall|j: int| 0 <= j < i ==> #[trigger] canons[j] != Some(w)
            },
            None => forall|j: int| 0 <= j < canons.len() ==> #[trigger] canons[j] != Some(w),
        },
    }
}

/// What [`DirsFactory::create_from_plan`] builds of the plan: the kept
/// entries, in their order, on the base directory of the plan; the current
/// one is the one the list or the configuration gives, or else the working
/// directory, if it is among them; the error when the given one is not there.
pub open spec fn built_from_list(
    plan: PlanView,
    probes: Seq<EntryProbe>,
    working_dir: Option<Seq<char>>,
    config: Config,
    r: Result<Dirs>,
) -> bool {
    let kept = kept_of(plan.candidates, keeps(probes, config.all_target));
    let kept_canons = kept_of(canonicals(probes), keeps(probes, config.all_target));
    match r {
        Ok(d) => {
            &&& d@.entries == kept
            &&& d@.parent == plan.base_dir
            &&& match plan.current {
                Some(c) => resolves_to(kept, plan.base_dir, Some(c), config.not_on_dirs, d@.current),
                None => first_working_dir(kept_canons, working_dir, d@.current),
            }
        },
        Err(e) => {
            &&& unresolved(kept, plan.base_dir, plan.current, config.not_on_dirs)
            &&& not_found_error(plan.current, e)
        },
    }
}

impl DirsFactory {
    /// Read the lines of a list of directories, one per line, with
    /// `config.base_dir` as the base directory and `config.current` as the
    /// current directory until the list gives its own.
    pub fn plan_list(lines: &Vec<String>, config: &Config) -> (r: ListPlan)
        ensures
            r@ == plan_of(lines.deep_view(), config.base_dir@, opt_text(config.current)),
    {
        let ghost view = lines.deep_view();
        let mut base_dir = config.base_dir.clone();
        let mut candidates: Vec<String> = Vec::new();
        let mut current = match &config.current {
            Some(c) => Some(c.clone()),
            None => None,
        };
        let mut i: usize = 0;
        assert(view.take(0) =~= Seq::<Seq<char>>::empty());
        assert(candidates.deep_view() =~= Seq::<Seq<char>>::empty());
        while i < lines.len()
            invariant
                i <= lines.len(),
                view == lines.deep_view(),
                (PlanView {
                    base_dir: base_dir@,
                    candidates: candidates.deep_view(),
                    current: opt_text(current),
                }) == plan_of(view.take(i as int), config.base_dir@, opt_text(config.current)),
            decreases lines.len() - i,
        {
            assert(view.take(i + 1).drop_last() =~= view.take(i as int));
            assert(view.take(i + 1).last() == lines@[i as int]@);
            match classify_line(lines[i].as_str()) {
                ListLine::Ignored => {},
                ListLine::Base(b) => {
                    base_dir = b;
                },
                ListLine::Current(c) => {
                    candidates.push(c.clone());
                    current = Some(c);
                    assert(candidates.deep_view() =~= plan_of(
                        view.take(i as int),
                        config.base_dir@,
                        opt_text(config.current),
                    ).candidates.push(c@));
                },
                ListLine::Entry(e) => {
                    let path = join(base_dir.as_str(), e.as_str());
                    let ghost before = candidates.deep_view();
                    candidates.push(path);
                    assert(candidates.deep_view() =~= before.push(path@));
                },
            }
            i = i + 1;
        }
        assert(view.take(lines.len() as int) =~= view);
        ListPlan { base_dir, candidates, current }
    }

    /// Create [`Dirs`] of a list read by [`DirsFactory::plan_list`]. The
    /// entries that do not exist are skipped unless `config.all_target`; the
    /// current directory is the one the list or the configuration gives, or else
    /// the first entry whose canonical path is the working directory's.
    ///
    /// # Errors
    ///
    /// Returns [`Error::NotFound`] if the given current directory is not among
    /// the targets and `config.not_on_dirs` is [`NotOnDirs::Error`].
    pub fn create_from_plan(
        plan: ListPlan,
        probes: &Vec<EntryProbe>,
        working_dir: &Option<String>,
        config: &Config,
    ) -> (r: Result<Dirs>)
        requires
            probes.len() == plan.candidates.len(),
        ensures
            built_from_list(plan@, probes@, opt_text(*working_dir), *config, r),
    {
        let ghost keep = keeps(probes@, config.all_target);
        let ghost candidates = plan@.candidates;
        let ghost canons = canonicals(probes@);
        let mut entries: Vec<String> = Vec::new();
        let mut entry_canons: Vec<Option<String>> = Vec::new();
        let mut i: usize = 0;
        while i < probes.len()
            invariant
                i <= probes.len() == plan.candidates.len(),
                candidates == plan.candidates.deep_view(),
                keep == keeps(probes@, config.all_target),
                canons == canonicals(probes@),
                entries.deep_view() == kept_of(candidates.take(i as int), keep.take(i as int)),
                entry_canons@.map_values(|c: Option<String>| opt_text(c)) == kept_of(
                    canons.take(i as int),
                    keep.take(i as int),
                ),
                entries.len() == entry_canons.len(),
            decreases probes.len() - i,
        {
            assert(candidates.take(i + 1).drop_last() =~= candidates.take(i as int));
            assert(canons.take(i + 1).drop_last() =~= canons.take(i as int));
            assert(keep.take(i + 1).take(i as int) =~= keep.take(i as int));
            let probe = &probes[i];
            if probe.exists || config.all_target {
                let ghost before = entries.deep_view();
                let ghost before_canons = entry_canons@.map_values(|c: Option<String>| opt_text(c));
                entries.push(plan.candidates[i].clone());
                let canon = match &probe.canonical {
                    Some(c) => Some(c.clone()),
                    None => None,
                };
                entry_canons.push(canon);
                assert(entries.deep_view() =~= before.push(candidates[i as int]));
                assert(entry_canons@.map_values(|c: Option<String>| opt_text(c)) =~= before_canons.push(
                    canons[i as int],
                ));
            }
            i = i + 1;
        }
        assert(candidates.take(probes.len() as int) =~= candidates);
        assert(canons.take(probes.len() as int) =~= canons);
        assert(keep.take(probes.len() as int) =~= keep);
        match &plan.current {
            Some(_) => {
                match resolve_current(plan.base_dir.as_str(), &entries, &plan.current, config.not_on_dirs) {
                    Ok(current) => Ok(Dirs::from_parts(plan.base_dir, entries, current)),
                    Err(e) => Err(e),
                }
            },
            None => {
                let current = find_working_dir(&entry_canons, working_dir);
                Ok(Dirs::from_parts(plan.base_dir, entries, current))
            },
        }
    }
}

/// The first index whose canonical path is the working directory's.
fn find_working_dir(canons: &Vec<Option<String>>, working_dir: &Option<String>) -> (r: Option<usize>)
    ensures
        first_working_dir(
            canons@.map_values(|c: Option<String>| opt_text(c)),
            opt_text(*working_dir),
            opt_int(r),
        ),
        r matches Some(i) ==> i < canons.len(),
{
    let ghost view = canons@.map_values(|c: Option<String>| opt_text(c));
    match working_dir {
        None => None,
        Some(wd) => {
            let mut i: usize = 0;
            while i < canons.len()
                invariant
                    i <= canons.len(),
                    view == canons@.map_values(|c: Option<String>| opt_text(c)),
                    *working_dir == Some(*wd),
                    forall|j: int| 0 <= j < i ==> #[trigger] view[j] != Some(wd@),
                decreases canons.len() - i,
            {
                let same = match &canons[i] {
                    Some(c) => *c == *wd,
                    None => false,
                };
                if same {
                    return Some(i);
                }
                i = i + 1;
            }
            None
        },
    }
}

} // verus!
