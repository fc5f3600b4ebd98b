//! The laws of the traversing and of building the target directories.
use vstd::prelude::*;
use vstd::string::*;

use crate::dirs::{found_by, start_of, step_fits, target_index, DirView, Dirs, DirsView};
use crate::error::{Error, Result};
use crate::factory::{
    built_from_list,
    canonicals,
    first_working_dir,
    opt_text,
    built_from_listing,
    keeps,
    kept_of,
    line_of,
    plan_of,
    Config,
    EntryProbe,
    ListLineView,
    NotOnDirs,
    PlanView,
};
use crate::command::{configured, script_file_of, BaseOpts};
use crate::path::{join_spec, parent_spec};
use crate::text::{decimal_of, lowercase_spec, right_aligned};
use crate::printer::{default_text, list_line, result_text, Format, PrintingOpts};
use crate::nexter::NexterType;

verus! {

/// A negative step traverses in the opposite direction: `Next` by `-step`
/// finds what `Previous` by `step` finds, for every step, and both can be
/// made on the same lists.
pub proof fn law_negative_step_reverses(len: int, current: Option<int>, step: int)
    ensures
        target_index(NexterType::Next, len, current, -step) == target_index(
            NexterType::Previous,
            len,
            current,
            step,
        ),
        target_index(NexterType::Previous, len, current, -step) == target_index(
            NexterType::Next,
            len,
            current,
            step,
        ),
        step_fits(NexterType::Previous, len, current, step) == step_fits(
            NexterType::Next,
            len,
            current,
            -step,
        ),
{
}

/// `Next` and `Previous` find the directory at the start moved by the step
/// (backward for `Previous`) exactly when that position is in the list, and
/// nothing otherwise, for every step.
pub proof fn law_out_of_list_finds_nothing(len: int, current: Option<int>, step: int)
    ensures
        ({
            let p = start_of(current) + step;
            &&& target_index(NexterType::Next, len, current, step) == if 0 <= p < len {
                Some(p)
            } else {
                None
            }
        }),
        ({
            let p = start_of(current) - step;
            &&& target_index(NexterType::Previous, len, current, step) == if 0 <= p < len {
                Some(p)
            } else {
                None
            }
        }),
{
}

/// What every kind but `Random` finds is determined by the list, the start,
/// and the step: hence `next` finds what `next_with` by the step 1 finds.
pub proof fn law_found_is_determined(
    kind: NexterType,
    len: int,
    current: Option<int>,
    step: int,
    a: Option<int>,
    b: Option<int>,
)
    requires
        kind != NexterType::Random,
        found_by(kind, len, current, step, a),
        found_by(kind, len, current, step, b),
    ensures
        a == b,
{
}

/// The step 0 points the current directory itself: `Next` and `Previous` by 0
/// find what `Keep` finds.
pub proof fn law_zero_step_keeps(dirs: DirsView)
    requires
        dirs.valid(),
    ensures
        target_index(NexterType::Next, dirs.len(), dirs.current, 0) == target_index(
            NexterType::Keep,
            dirs.len(),
            dirs.current,
            0,
        ),
        target_index(NexterType::Previous, dirs.len(), dirs.current, 0) == target_index(
            NexterType::Keep,
            dirs.len(),
            dirs.current,
            0,
        ),
{
}

/// The unknown current directory is the position before the first one: `Next`
/// by `step` finds the `step`-th directory, and `Previous` and `Keep` find
/// nothing.
pub proof fn law_unknown_is_before_first(len: int, step: int)
    requires
        len >= 0,
    ensures
        1 <= step <= len ==> target_index(NexterType::Next, len, None, step) == Some(step - 1),
        step > len ==> target_index(NexterType::Next, len, None, step) is None,
        step >= 0 ==> target_index(NexterType::Previous, len, None, step) is None,
        target_index(NexterType::Keep, len, None, step) is None,
{
}

/// No directory is found in the empty list, by any kind and step.
pub proof fn law_empty_finds_nothing(
    kind: NexterType,
    current: Option<int>,
    step: int,
    found: Option<int>,
)
    requires
        found_by(kind, 0, current, step, found),
    ensures
        found is None,
{
}

/// What the traversing finds is a directory of the list.
pub proof fn law_found_in_list(kind: NexterType, dirs: DirsView, step: int, found: Option<int>)
    requires
        dirs.valid(),
        found_by(kind, dirs.len(), dirs.current, step, found),
    ensures
        found matches Some(i) ==> 0 <= i < dirs.len(),
{
}

/// The step is ignored by all but `Next` and `Previous`: what may be found
/// is the same by any step, and no step overflows.
pub proof fn law_step_ignored(
    kind: NexterType,
    len: int,
    current: Option<int>,
    a: int,
    b: int,
    found: Option<int>,
)
    requires
        kind != NexterType::Next,
        kind != NexterType::Previous,
    ensures
        found_by(kind, len, current, a, found) == found_by(kind, len, current, b, found),
        step_fits(kind, len, current, a),
{
}

/// A found directory starts the traversing where the [`Dirs`] built of it by
/// [`Dir::dirs`](crate::Dir::dirs) starts: both hold the same entries, and
/// the found directory is the current one.
pub proof fn law_found_directory_is_current(dir: DirView, rebuilt: DirsView)
    requires
        rebuilt == (DirsView {
            entries: dir.siblings.entries,
            parent: dir.siblings.parent,
            current: Some(dir.index),
        }),
    ensures
        forall|kind: NexterType, step: int, found: Option<int>|
            found_by(kind, dir.siblings.len(), Some(dir.index), step, found) == #[trigger] found_by(
                kind,
                rebuilt.len(),
                rebuilt.current,
                step,
                found,
            ),
{
}

/// The traversing continues from the found directory: `Next` by `b` from the
/// directory that `Next` by `a` found is `Next` by `a + b` from the start.
pub proof fn law_continuous_next(len: int, current: Option<int>, a: int, b: int)
    requires
        target_index(NexterType::Next, len, current, a) is Some,
    ensures
        target_index(NexterType::Next, len, target_index(NexterType::Next, len, current, a), b)
            == target_index(NexterType::Next, len, current, a + b),
{
}

/// The same for `Previous`: `Previous` by `b` from the directory that
/// `Previous` by `a` found is `Previous` by `a + b` from the start.
pub proof fn law_continuous_previous(len: int, current: Option<int>, a: int, b: int)
    requires
        target_index(NexterType::Previous, len, current, a) is Some,
    ensures
        target_index(
            NexterType::Previous,
            len,
            target_index(NexterType::Previous, len, current, a),
            b,
        ) == target_index(NexterType::Previous, len, current, a + b),
{
}

/// With [`NotOnDirs::BeforeFirst`], the listing of a base directory without
/// I/O errors always builds [`Dirs`]: the current directory that is not among
/// the children is the unknown position, not an error.
pub proof fn law_before_first_never_fails(
    parent: Seq<char>,
    config: Config,
    children: Seq<Seq<char>>,
    r: Result<Dirs>,
)
    requires
        config.not_on_dirs == NotOnDirs::BeforeFirst,
        built_from_listing(parent, config, children, Seq::empty(), r),
    ensures
        r is Ok,
{
}

/// With [`NotOnDirs::BeforeFirst`], a list always builds [`Dirs`]: the given
/// current directory that is not among the targets is the unknown position.
pub proof fn law_list_before_first_never_fails(
    plan: PlanView,
    probes: Seq<EntryProbe>,
    working_dir: Option<Seq<char>>,
    config: Config,
    r: Result<Dirs>,
)
    requires
        config.not_on_dirs == NotOnDirs::BeforeFirst,
        built_from_list(plan, probes, working_dir, config, r),
    ensures
        r is Ok,
{
}

/// The `current:` line makes its path the current directory, and adds it to
/// the entries as is.
pub proof fn law_current_line_is_an_entry(
    lines: Seq<Seq<char>>,
    base: Seq<char>,
    current: Option<Seq<char>>,
    path: Seq<char>,
)
    requires
        lines.len() > 0,
        line_of(lines.last()) == ListLineView::Current(path),
    ensures
        plan_of(lines, base, current).current == Some(path),
        plan_of(lines, base, current).candidates.last() == path,
{
}

/// An entry line is resolved on the base directory of the lines before it:
/// `parent:` affects only the entries after it.
pub proof fn law_entry_on_preceding_base(
    lines: Seq<Seq<char>>,
    base: Seq<char>,
    current: Option<Seq<char>>,
    entry: Seq<char>,
)
    requires
        lines.len() > 0,
        line_of(lines.last()) == ListLineView::Entry(entry),
    ensures
        plan_of(lines, base, current).candidates.last() == join_spec(
            plan_of(lines.drop_last(), base, current).base_dir,
            entry,
        ),
        plan_of(lines, base, current).base_dir == plan_of(lines.drop_last(), base, current).base_dir,
{
}

/// Without a next directory, the `default` format prints nothing, while the
/// `json` and `csv` formats still print the current directory and the total.
pub proof fn law_formats_without_next(dirs: DirsView, shown: Seq<Seq<char>>, opts: PrintingOpts)
    ensures
        opts.format == Format::Default ==> result_text(dirs, shown, None, opts).len() == 0,
        opts.format == Format::Json || opts.format == Format::Csv ==> result_text(
            dirs,
            shown,
            None,
            opts,
        ).len() > 0,
{
    reveal_strlit("}");
    reveal_strlit("\"");
}

/// `zsh` shares the script of `bash`, `pwsh` the one of `powershell`, and
/// `elv` the one of `elvish`, in any case; `fish`, `powershell` and `elvish`
/// each have a script of their own, not the one of `bash`.
pub proof fn law_shared_init_scripts(a: Seq<char>, b: Seq<char>)
    ensures
        (lowercase_spec(a) == "bash"@ || lowercase_spec(a) == "zsh"@) && (lowercase_spec(b)
            == "bash"@ || lowercase_spec(b) == "zsh"@) ==> script_file_of(a) == script_file_of(b)
            && script_file_of(a) == Some("init.bash"@),
        (lowercase_spec(a) == "powershell"@ || lowercase_spec(a) == "pwsh"@) && (lowercase_spec(b)
            == "powershell"@ || lowercase_spec(b) == "pwsh"@) ==> script_file_of(a)
            == script_file_of(b) && script_file_of(a) == Some("init.ps1"@),
        (lowercase_spec(a) == "elvish"@ || lowercase_spec(a) == "elv"@) && (lowercase_spec(b)
            == "elvish"@ || lowercase_spec(b) == "elv"@) ==> script_file_of(a) == script_file_of(b)
            && script_file_of(a) == Some("init.elv"@),
        lowercase_spec(a) == "bash"@ && (lowercase_spec(b) == "fish"@ || lowercase_spec(b)
            == "powershell"@ || lowercase_spec(b) == "elvish"@) ==> script_file_of(a)
            != script_file_of(b),
{
    reveal_strlit("bash");
    reveal_strlit("zsh");
    reveal_strlit("fish");
    reveal_strlit("powershell");
    reveal_strlit("pwsh");
    reveal_strlit("elvish");
    reveal_strlit("elv");
    reveal_strlit("init.bash");
    reveal_strlit("init.fish");
    reveal_strlit("init.ps1");
    reveal_strlit("init.elv");
    assert("powershell"@.len() != "bash"@.len() && "powershell"@.len() != "zsh"@.len());
    assert("powershell"@.len() != "fish"@.len());
    assert("pwsh"@[0] != "bash"@[0] && "pwsh"@.len() != "zsh"@.len() && "pwsh"@[0] != "fish"@[0]);
    assert("elvish"@.len() != "bash"@.len() && "elvish"@.len() != "zsh"@.len());
    assert("elvish"@.len() != "fish"@.len() && "elvish"@.len() != "powershell"@.len());
    assert("elvish"@.len() != "pwsh"@.len());
    assert("elv"@.len() != "bash"@.len() && "elv"@[0] != "zsh"@[0] && "elv"@.len() != "fish"@.len());
    assert("elv"@.len() != "powershell"@.len() && "elv"@.len() != "pwsh"@.len());
    assert("fish"@[0] != "bash"@[0] && "fish"@.len() != "zsh"@.len());
    assert("init.fish"@[5] != "init.bash"@[5]);
    assert("init.ps1"@.len() != "init.bash"@.len());
    assert("init.elv"@.len() != "init.bash"@.len());
}

/// With `all_target`, every entry of a list is a target, in the order of the list.
pub proof fn law_all_targets_kept<A>(items: Seq<A>, probes: Seq<EntryProbe>)
    requires
        items.len() == probes.len(),
    ensures
        kept_of(items, keeps(probes, true)) == items,
    decreases items.len(),
{
    if items.len() > 0 {
        let n = items.len() - 1;
        assert(keeps(probes, true).take(n) =~= keeps(probes.take(n), true));
        law_all_targets_kept(items.drop_last(), probes.take(n));
        assert(kept_of(items, keeps(probes, true)) =~= items.drop_last().push(items.last()));
        assert(items.drop_last().push(items.last()) =~= items);
    }
}

/// With `progress`, the `default` format prints the found directory, a space,
/// and in brackets its one-based position, a slash, and the number of the
/// targets: the position comes first, and it is never greater than the total.
/// Without `progress` it prints the found directory alone.
pub proof fn law_default_progress(dirs: DirsView, shown: Seq<Seq<char>>, n: int, opts: PrintingOpts)
    requires
        0 <= n < dirs.len(),
        opts.format == Format::Default,
    ensures
        opts.progress ==> result_text(dirs, shown, Some(n), opts) == shown[n] + " ("@ + decimal_of(
            n + 1,
        ) + "/"@ + decimal_of(dirs.len()) + ")"@,
        !opts.progress ==> result_text(dirs, shown, Some(n), opts) == shown[n],
        default_text(shown, Some(n), dirs.len(), true) == shown[n] + " ("@ + decimal_of(n + 1) + "/"@
            + decimal_of(dirs.len()) + ")"@,
{
}

/// In the list format, the line of the found directory carries the mark `> `,
/// also when it is the current directory; `* ` marks the current directory
/// only when it is not the found one; the other lines carry two spaces. The
/// mark stands between the number of the line and the entry.
pub proof fn law_list_marks(
    shown: Seq<Seq<char>>,
    current: Option<int>,
    next: Option<int>,
    i: int,
)
    ensures
        next == Some(i) ==> list_line(shown, current, next, i) == right_aligned(decimal_of(i + 1), 4)
            + " "@ + "> "@ + shown[i],
        next != Some(i) && current == Some(i) ==> list_line(shown, current, next, i)
            == right_aligned(decimal_of(i + 1), 4) + " "@ + "* "@ + shown[i],
        next != Some(i) && current != Some(i) ==> list_line(shown, current, next, i)
            == right_aligned(decimal_of(i + 1), 4) + " "@ + "  "@ + shown[i],
        list_line(shown, Some(i), Some(i), i) == right_aligned(decimal_of(i + 1), 4) + " "@ + "> "@
            + shown[i],
{
}

/// `--base-path` is the base directory whenever it is given, whatever the
/// parent of the argument is, and then the argument needs no parent; the
/// parent of the argument is the base directory only when `--base-path` is
/// absent, and only then is its lack an error. A directory argument is the
/// current directory.
pub proof fn law_base_path_overrides_parent(
    opts: BaseOpts,
    target: Seq<char>,
    target_is_dir: bool,
    r: Result<Config>,
)
    requires
        configured(opts, target, target_is_dir, r),
    ensures
        opts.base_path matches Some(b) ==> (r matches Ok(c) && c.base_dir@ == b@),
        opts.base_path is None ==> (parent_spec(target) matches Some(p) ==> (r matches Ok(c)
            && c.base_dir@ == p)),
        opts.base_path is None && parent_spec(target) is None ==> (r matches Err(Error::NoParent(p))
            && p@ == target),
        r matches Ok(c) ==> c.all_target == opts.all && c.not_on_dirs == opts.not_on_dirs,
        r matches Ok(c) ==> opt_text(c.current) == if target_is_dir {
            Some(target)
        } else {
            None
        },
{
}

/// The number of the set flags among the first `n` ones.
pub open spec fn kept_count(keep: Seq<bool>, n: int) -> nat
    decreases n,
{
    if n <= 0 {
        0
    } else {
        kept_count(keep, n - 1) + if keep[n - 1] {
            1nat
        } else {
            0nat
        }
    }
}

/// Some flag among the first `n` is set and has `k` set flags before it.
spec fn has_kept_source(keep: Seq<bool>, n: int, k: int) -> bool {
    exists|j: int| 0 <= j < n && #[trigger] keep[j] && kept_count(keep, j) == k
}

proof fn lemma_kept_count_take(keep: Seq<bool>, m: int, n: int)
    requires
        0 <= n <= m <= keep.len(),
    ensures
        kept_count(keep.take(m), n) == kept_count(keep, n),
    decreases n,
{
    if n > 0 {
        lemma_kept_count_take(keep, m, n - 1);
    }
}

proof fn lemma_kept_count_grows(keep: Seq<bool>, i: int, j: int)
    requires
        0 <= i < j,
        keep[i],
    ensures
        kept_count(keep, i) < kept_count(keep, j),
    decreases j - i,
{
    if j > i + 1 {
        lemma_kept_count_grows(keep, i, j - 1);
    }
}

/// The kept items are as many as the set flags, and the item `j` that is kept
/// stands at the number of the kept items before it.
proof fn lemma_kept_index<A>(items: Seq<A>, keep: Seq<bool>)
    requires
        items.len() <= keep.len(),
    ensures
        kept_of(items, keep).len() == kept_count(keep, items.len() as int),
        forall|j: int|
            0 <= j < items.len() && keep[j] ==> #[trigger] kept_of(items, keep)[kept_count(keep, j)
                as int] == items[j],
        forall|k: int| 0 <= k < kept_of(items, keep).len() ==> #[trigger] has_kept_source(keep, items.len() as int, k),
    decreases items.len(),
{
    let n = items.len() as int;
    if n > 0 {
        let rest_keep = keep.take(n - 1);
        lemma_kept_index(items.drop_last(), rest_keep);
        lemma_kept_count_take(keep, n - 1, n - 1);
        let rest = kept_of(items.drop_last(), rest_keep);
        assert(rest.len() == kept_count(keep, n - 1));
        assert forall|j: int| 0 <= j < n && keep[j] implies #[trigger] kept_of(items, keep)[kept_count(
            keep,
            j,
        ) as int] == items[j] by {
            if j < n - 1 {
                lemma_kept_count_take(keep, n - 1, j);
                lemma_kept_count_grows(keep, j, n - 1);
                assert(rest_keep[j]);
                assert(rest[kept_count(rest_keep, j) as int] == items.drop_last()[j]);
            }
        }
        assert forall|k: int| 0 <= k < kept_of(items, keep).len() implies #[trigger] has_kept_source(
            keep,
            n,
            k,
        ) by {
            if k < rest.len() {
                assert(has_kept_source(rest_keep, n - 1, k));
                let j = choose|j: int|
                    0 <= j < n - 1 && #[trigger] rest_keep[j] && kept_count(rest_keep, j) == k;
                lemma_kept_count_take(keep, n - 1, j);
                assert(keep[j]);
            } else {
                assert(keep[n - 1]);
            }
        }
    }
}

/// Of a list that names no current directory, the current position of the
/// built targets is the first target whose canonical path is the working
/// directory's: it counts the targets only, so an entry skipped for not
/// existing is never the current one, nor does it move the position. Without
/// such a target, the position is unknown.
pub proof fn law_list_current_is_working_dir(
    plan: PlanView,
    probes: Seq<EntryProbe>,
    wd: Seq<char>,
    config: Config,
    d: Dirs,
)
    requires
        plan.current is None,
        probes.len() == plan.candidates.len(),
        built_from_list(plan, probes, Some(wd), config, Ok(d)),
    ensures
        d@.current matches Some(k) ==> exists|j: int|
            #![trigger probes[j]]
            {
                &&& 0 <= j < probes.len()
                &&& probes[j].exists || config.all_target
                &&& opt_text(probes[j].canonical) == Some(wd)
                &&& d@.entries[k] == plan.candidates[j]
                &&& kept_count(keeps(probes, config.all_target), j) == k
                &&& forall|i: int|
                    #![trigger probes[i]]
                    0 <= i < j && (probes[i].exists || config.all_target) ==> opt_text(
                        probes[i].canonical,
                    ) != Some(wd)
            },
        d@.current is None ==> forall|j: int|
            #![trigger probes[j]]
            0 <= j < probes.len() && (probes[j].exists || config.all_target) ==> opt_text(
                probes[j].canonical,
            ) != Some(wd),
{
    let keep = keeps(probes, config.all_target);
    let canons = canonicals(probes);
    lemma_kept_index(plan.candidates, keep);
    lemma_kept_index(canons, keep);
    let kept_canons = kept_of(canons, keep);
    assert(d@.entries == kept_of(plan.candidates, keep));
    assert(first_working_dir(kept_canons, Some(wd), d@.current));
    match d@.current {
        Some(k) => {
            assert(has_kept_source(keep, canons.len() as int, k));
            let j = choose|j: int|
                0 <= j < canons.len() && #[trigger] keep[j] && kept_count(keep, j) == k;
            assert(kept_canons[k] == canons[j]);
            assert(canons[j] == opt_text(probes[j].canonical));
            assert(keep[j] == (probes[j].exists || config.all_target));
            assert(d@.entries[k] == plan.candidates[j]);
            assert forall|i: int|
                #![trigger probes[i]]
                0 <= i < j && (probes[i].exists || config.all_target) implies opt_text(
                    probes[i].canonical,
                ) != Some(wd) by {
                assert(keep[i] == (probes[i].exists || config.all_target));
                lemma_kept_count_grows(keep, i, j);
                assert(kept_canons[kept_count(keep, i) as int] == canons[i]);
                assert(canons[i] == opt_text(probes[i].canonical));
            }
            assert(probes[j].exists || config.all_target);
            assert(opt_text(probes[j].canonical) == Some(wd));
            assert(kept_count(keeps(probes, config.all_target), j) == k);
        },
        None => {
            assert forall|j: int|
                #![trigger probes[j]]
                0 <= j < probes.len() && (probes[j].exists || config.all_target) implies opt_text(
                    probes[j].canonical,
                ) != Some(wd) by {
                assert(keep[j] == (probes[j].exists || config.all_target));
                lemma_kept_count_grows(keep, j, probes.len() as int);
                assert(kept_canons[kept_count(keep, j) as int] == canons[j]);
                assert(canons[j] == opt_text(probes[j].canonical));
            }
        },
    }

}

} // verus!
