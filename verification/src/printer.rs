//! The text the command prints for a traversing, in each format.
use vstd::prelude::*;
use vstd::string::*;

use crate::dirs::{found_index, opt_int, Dir, Dirs, DirsView, Nextable};
use crate::text::{
    align_right,
    csv_escape,
    csv_escaped,
    decimal_of,
    json_escape,
    json_escaped,
    right_aligned,
    unsigned_text,
};

verus! {

/// The format of the result.
#[derive(Debug, Clone, Copy, PartialEq, Eq, Structural)]
pub enum Format {
    Json,
    Csv,
    List,
    Default,
}

/// The options of printing. The paths are printed as the caller shows them:
/// `absolute` tells the caller to show the canonical paths.
#[derive(Debug, Clone, Copy)]
pub struct PrintingOpts {
    pub format: Format,
    pub absolute: bool,
    pub progress: bool,
}

/// The one-based number of an index, or -1 for none.
pub open spec fn number_text(i: Option<int>) -> Seq<char> {
    match i {
        Some(i) => decimal_of(i + 1),
        None => seq!['-', '1'],
    }
}

/// How the entry at `i` is shown, or nothing for none.
pub open spec fn shown_at(shown: Seq<Seq<char>>, i: Option<int>) -> Seq<char> {
    match i {
        Some(i) => shown[i],
        None => Seq::empty(),
    }
}

/// The JSON object of the current and the next directories, and the total.
pub open spec fn json_text(
    shown: Seq<Seq<char>>,
    current: Option<int>,
    next: Option<int>,
    total: int,
) -> Seq<char> {
    "{\"current\":{\"path\":\""@ + json_escaped(shown_at(shown, current)) + "\",\"index\":"@
        + number_text(current) + "},\"next\":{\"path\":\""@ + json_escaped(shown_at(shown, next))
        + "\",\"index\":"@ + number_text(next) + "},\"total\":"@ + decimal_of(total) + "}"@
}

/// The CSV record of the current and the next directories, and the total.
pub open spec fn csv_text(
    shown: Seq<Seq<char>>,
    current: Option<int>,
    next: Option<int>,
    total: int,
) -> Seq<char> {
    "\""@ + csv_escaped(shown_at(shown, current)) + "\",\""@ + csv_escaped(shown_at(shown, next))
        + "\","@ + number_text(current) + ","@ + number_text(next) + ","@ + decimal_of(total)
}

/// The mark of the entry `i` in the list: `> ` for the next directory, `* `
/// for the current one, and spaces for the others.
pub open spec fn list_mark(i: int, current: Option<int>, next: Option<int>) -> Seq<char> {
    if next == Some(i) {
        "> "@
    } else if current == Some(i) {
        "* "@
    } else {
        "  "@
    }
}

/// The line of the entry `i` in the list: its number in four columns, its mark,
/// and the entry.
pub open spec fn list_line(
    shown: Seq<Seq<char>>,
    current: Option<int>,
    next: Option<int>,
    i: int,
) -> Seq<char> {
    right_aligned(decimal_of(i + 1), 4) + " "@ + list_mark(i, current, next) + shown[i]
}

/// The lines of the first `count` entries, separated by new lines.
pub open spec fn list_lines(
    shown: Seq<Seq<char>>,
    current: Option<int>,
    next: Option<int>,
    count: nat,
) -> Seq<char>
    decreases count,
{
    if count == 0 {
        Seq::empty()
    } else if count == 1 {
        list_line(shown, current, next, 0)
    } else {
        list_lines(shown, current, next, (count - 1) as nat) + "\n"@ + list_line(
            shown,
            current,
            next,
            count - 1,
        )
    }
}

/// The text of the `default` format: nothing when no directory was found,
/// otherwise the found one, and its number and the total with `progress`.
pub open spec fn default_text(
    shown: Seq<Seq<char>>,
    next: Option<int>,
    total: int,
    progress: bool,
) -> Seq<char> {
    match next {
        None => Seq::empty(),
        Some(n) => if progress {
            shown[n] + " ("@ + decimal_of(n + 1) + "/"@ + decimal_of(total) + ")"@
        } else {
            shown[n]
        },
    }
}

/// The text printed for the traversing that found `next` in `dirs`, whose
/// entries are shown as `shown`.
pub open spec fn result_text(
    dirs: DirsView,
    shown: Seq<Seq<char>>,
    next: Option<int>,
    opts: PrintingOpts,
) -> Seq<char> {
    match opts.format {
        Format::Json => json_text(shown, dirs.current, next, dirs.len()),
        Format::Csv => csv_text(shown, dirs.current, next, dirs.len()),
        Format::List => list_lines(shown, dirs.current, next, dirs.len() as nat),
        Format::Default => default_text(shown, next, dirs.len(), opts.progress),
    }
}

/// The number of the found directory is computed in `i32`: it must fit there
/// in the formats that print it.
pub open spec fn next_number_fits(opts: PrintingOpts, next: Option<int>) -> bool {
    match next {
        None => true,
        Some(n) => match opts.format {
            Format::List => n <= i32::MAX,
            Format::Default => !opts.progress || n < i32::MAX,
            _ => n < i32::MAX,
        },
    }
}

/// The one-based number of the index, or -1 for none.
fn number(i: Option<usize>) -> (r: String)
    requires
        i matches Some(i) ==> i < usize::MAX,
    ensures
        r@ == number_text(opt_int(i)),
{
    match i {
        Some(i) => unsigned_text((i + 1) as u64),
        None => {
            let r = String::from_str("-1");
            proof {
                reveal_strlit("-1");
                assert(r@ =~= seq!['-', '1']);
            }
            r
        },
    }
}

/// How the entry at `i` is shown.
fn shown_str<'a>(shown: &'a Vec<String>, i: Option<usize>) -> (r: &'a str)
    requires
        i matches Some(i) ==> i < shown.len(),
    ensures
        r@ == shown_at(shown.deep_view(), opt_int(i)),
{
    match i {
        Some(i) => shown[i].as_str(),
        None => {
            proof {
                reveal_strlit("");
            }
            ""
        },
    }
}

/// The JSON object of the current and the next directories, and the total.
pub fn json_string(shown: &Vec<String>, current: Option<usize>, next: Option<usize>) -> (r: String)
    requires
        current matches Some(i) ==> i < shown.len(),
        next matches Some(i) ==> i < shown.len(),
    ensures
        r@ == json_text(shown.deep_view(), opt_int(current), opt_int(next), shown.len() as int),
{
    let mut out = String::from_str("{\"current\":{\"path\":\"");
    out.append(json_escape(shown_str(shown, current)).as_str());
    out.append("\",\"index\":");
    out.append(number(current).as_str());
    out.append("},\"next\":{\"path\":\"");
    out.append(json_escape(shown_str(shown, next)).as_str());
    out.append("\",\"index\":");
    out.append(number(next).as_str());
    out.append("},\"total\":");
    out.append(unsigned_text(shown.len() as u64).as_str());
    out.append("}");
    proof {
        assert(out@ =~= json_text(
            shown.deep_view(),
            opt_int(current),
            opt_int(next),
            shown.len() as int,
        ));
    }
    out
}

/// The CSV record of the current and the next directories, and the total.
pub fn csv_string(shown: &Vec<String>, current: Option<usize>, next: Option<usize>) -> (r: String)
    requires
        current matches Some(i) ==> i < shown.len(),
        next matches Some(i) ==> i < shown.len(),
    ensures
        r@ == csv_text(shown.deep_view(), opt_int(current), opt_int(next), shown.len() as int),
{
    let mut out = String::from_str("\"");
    out.append(csv_escape(shown_str(shown, current)).as_str());
    out.append("\",\"");
    out.append(csv_escape(shown_str(shown, next)).as_str());
    out.append("\",");
    out.append(number(current).as_str());
    out.append(",");
    out.append(number(next).as_str());
    out.append(",");
    out.append(unsigned_text(shown.len() as u64).as_str());
    proof {
        assert(out@ =~= csv_text(
            shown.deep_view(),
            opt_int(current),
            opt_int(next),
            shown.len() as int,
        ));
    }
    out
}

/// The numbered list of the entries, marking the next and the current ones.
pub fn list_string(shown: &Vec<String>, current: Option<usize>, next: Option<usize>) -> (r: String)
    ensures
        r@ == list_lines(shown.deep_view(), opt_int(current), opt_int(next), shown.len() as nat),
{
    let ghost view = shown.deep_view();
    let mut out = String::new();
    let mut i: usize = 0;
    while i < shown.len()
        invariant
            i <= shown.len(),
            view == shown.deep_view(),
            out@ == list_lines(view, opt_int(current), opt_int(next), i as nat),
        decreases shown.len() - i,
    {
        let ghost before = out@;
        if i > 0 {
            out.append("\n");
        }
        out.append(align_right(unsigned_text((i + 1) as u64).as_str(), 4).as_str());
        out.append(" ");
        let is_next = match next {
            Some(n) => n == i,
            None => false,
        };
        let is_current = match current {
            Some(c) => c == i,
            None => false,
        };
        if is_next {
            out.append("> ");
        } else if is_current {
            out.append("* ");
        } else {
            out.append("  ");
        }
        out.append(shown[i].as_str());
        proof {
            assert(view[i as int] == shown@[i as int]@);
            if i == 0 {
                assert(out@ =~= list_line(view, opt_int(current), opt_int(next), 0));
            } else {
                assert(out@ =~= before + "\n"@ + list_line(
                    view,
                    opt_int(current),
                    opt_int(next),
                    i as int,
                ));
            }
        }
        i = i + 1;
    }
    out
}

/// The text of the `default` format.
pub fn default_string(shown: &Vec<String>, next: Option<usize>, progress: bool) -> (r: String)
    requires
        next matches Some(i) ==> i < shown.len(),
    ensures
        r@ == default_text(shown.deep_view(), opt_int(next), shown.len() as int, progress),
{
    match next {
        None => String::new(),
        Some(n) => {
            assert(shown.deep_view()[n as int] == shown@[n as int]@);
            if progress {
                let mut out = String::from_str(shown[n].as_str());
                out.append(" (");
                out.append(unsigned_text((n + 1) as u64).as_str());
                out.append("/");
                out.append(unsigned_text(shown.len() as u64).as_str());
                out.append(")");
                proof {
                    assert(out@ =~= default_text(
                        shown.deep_view(),
                        opt_int(next),
                        shown.len() as int,
                        progress,
                    ));
                }
                out
            } else {
                String::from_str(shown[n].as_str())
            }
        },
    }
}

/// Build the string to print for the found directory `next` of `dirs`, whose
/// entries are shown as `shown`.
///
/// The `default` format prints nothing when no more sibling directory was
/// found; the status tells it. The other formats always print the result,
/// since the list of the siblings and the total count are still meaningful.
pub fn result_string(dirs: &Dirs, next: &Option<Dir<'_>>, opts: &PrintingOpts, shown: &Vec<String>) -> (r:
    String)
    requires
        shown.len() == dirs@.len(),
        next matches Some(d) ==> d@.siblings == dirs@,
        next_number_fits(*opts, found_index(*next)),
    ensures
        r@ == result_text(dirs@, shown.deep_view(), found_index(*next), *opts),
{
    let current = dirs.current_index();
    let next_index = match next {
        Some(d) => Some(d.index()),
        None => None,
    };
    match opts.format {
        Format::Json => json_string(shown, current, next_index),
        Format::Csv => csv_string(shown, current, next_index),
        Format::List => list_string(shown, current, next_index),
        Format::Default => default_string(shown, next_index, opts.progress),
    }
}

} // verus!
