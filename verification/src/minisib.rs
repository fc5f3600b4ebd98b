//! The arguments of `minisib`, the minimal form of the command for the shell
//! scripts: `minisib <NEXTER_TYPE> [NUM] [INPUT_FILE]`, where `NUM` and
//! `INPUT_FILE` can be in any order.
use vstd::prelude::*;
use vstd::string::*;

use crate::dirs::{found_index, Dir, Dirs};
use crate::error::{Error, Result};
use crate::factory::opt_text;
use crate::nexter::{parsed_kind, NexterType};
use crate::text::{decimal_of, unsigned_text};

verus! {

/// A decimal digit.
pub open spec fn is_digit(c: char) -> bool {
    48 <= (c as u32) <= 57
}

/// The value of the decimal digits `s`.
pub open spec fn digits_value(s: Seq<char>) -> int
    decreases s.len(),
{
    if s.len() == 0 {
        0
    } else {
        digits_value(s.drop_last()) * 10 + ((s.last() as u32) - 48)
    }
}

/// Every character of `s` is a decimal digit.
pub open spec fn all_digits(s: Seq<char>) -> bool {
    forall|i: int| 0 <= i < s.len() ==> is_digit(#[trigger] s[i])
}

/// The integer that `s` writes in decimal, with an optional sign `-` or `+`
/// before at least one digit, as `i32::from_str` reads it.
pub open spec fn integer_of(s: Seq<char>) -> Option<int> {
    if s.len() >= 2 && s[0] == '-' && all_digits(s.skip(1)) {
        Some(-digits_value(s.skip(1)))
    } else if s.len() >= 2 && s[0] == '+' && all_digits(s.skip(1)) {
        Some(digits_value(s.skip(1)))
    } else if s.len() >= 1 && all_digits(s) {
        Some(digits_value(s))
    } else {
        None
    }
}

/// The `i32` that `s` writes, if it is one.
pub open spec fn i32_of(s: Seq<char>) -> Option<int> {
    match integer_of(s) {
        Some(v) => if i32::MIN <= v <= i32::MAX {
            Some(v)
        } else {
            None
        },
        None => None,
    }
}

/// The digits have a value of zero or more, which does not decrease with more digits.
proof fn lemma_digits_grow(s: Seq<char>, k: int)
    requires
        all_digits(s),
        0 <= k <= s.len(),
    ensures
        0 <= digits_value(s.take(k)) <= digits_value(s),
    decreases s.len(),
{
    if s.len() == 0 {
        assert(s.take(k) =~= s);
    } else if k == s.len() {
        assert(s.take(k) =~= s);
        lemma_digits_grow(s.drop_last(), s.len() - 1);
        assert(s.drop_last().take(s.len() - 1) =~= s.drop_last());
        assert(is_digit(s[s.len() - 1]));
    } else {
        lemma_digits_grow(s.drop_last(), k);
        assert(s.drop_last().take(k) =~= s.take(k));
        assert(is_digit(s[s.len() - 1]));
    }
}

/// Parse `s` as an `i32`, as `i32::from_str` does.
pub fn parse_i32(s: &str) -> (r: Option<i32>)
    ensures
        match r {
            Some(v) => i32_of(s@) == Some(v as int),
            None => i32_of(s@) is None,
        },
{
    let n = s.unicode_len();
    if n == 0 {
        return None;
    }
    let first = s.get_char(0);
    let negative = first == '-';
    let start: usize = if first == '-' || first == '+' {
        1
    } else {
        0
    };
    if start == n {
        return None;
    }
    let ghost body = s@.subrange(start as int, n as int);
    proof {
        if start == 1 {
            assert(s@.skip(1) =~= body);
        } else {
            assert(s@ =~= body);
        }
    }
    assert(integer_of(s@) == if all_digits(body) {
        Some(
            if negative {
                -digits_value(body)
            } else {
                digits_value(body)
            },
        )
    } else {
        None::<int>
    });
    let mut value: i64 = 0;
    let mut i: usize = start;
    while i < n
        invariant
            start <= i <= n,
            n == s@.len(),
            body == s@.subrange(start as int, n as int),
            integer_of(s@) == if all_digits(body) {
                Some(
                    if negative {
                        -digits_value(body)
                    } else {
                        digits_value(body)
                    },
                )
            } else {
                None::<int>
            },
            all_digits(body.take(i - start)),
            value == digits_value(body.take(i - start)),
            0 <= value <= 2147483648,
        decreases n - i,
    {
        let c = s.get_char(i);
        let code = c as u32;
        if code < 48 || code > 57 {
            proof {
                assert(body[i - start] == c);
                assert(!all_digits(body));
            }
            return None;
        }
        proof {
            assert(body.take(i - start + 1).drop_last() =~= body.take(i - start));
            assert(body.take(i - start + 1).last() == c);
        }
        value = value * 10 + (code - 48) as i64;
        if value > 2147483648 {
            proof {
                if all_digits(body) {
                    lemma_digits_grow(body, i - start + 1);
                }
            }
            return None;
        }
        i = i + 1;
    }
    proof {
        assert(body.take(n - start) =~= body);
    }
    if negative {
        Some((-value) as i32)
    } else if value <= 2147483647 {
        Some(value as i32)
    } else {
        None
    }
}

/// The arguments of `minisib`.
#[derive(Debug)]
pub struct RawOpts {
    pub args: Vec<String>,
}

/// The options of `minisib`.
#[derive(Debug)]
pub struct MiniSibOpts {
    pub nexter_type: NexterType,
    pub step: i32,
    pub file: Option<String>,
}

impl MiniSibOpts {
    /// The options of the traversing of `nexter_type` by `step`, on the list in
    /// `file`, if given.
    pub fn new(nexter_type: NexterType, step: i32, file: Option<String>) -> (r: MiniSibOpts)
        ensures
            r.nexter_type == nexter_type,
            r.step == step,
            r.file == file,
    {
        MiniSibOpts { nexter_type, step, file }
    }
}

/// The options `r` hold the kind, the step, and the file.
pub open spec fn opts_are(
    r: Result<MiniSibOpts>,
    kind: NexterType,
    step: int,
    file: Option<Seq<char>>,
) -> bool {
    r matches Ok(o) && o.nexter_type == kind && o.step == step && opt_text(o.file) == file
}

/// The fatal error with the message `message`.
pub open spec fn fatal_is(r: Result<MiniSibOpts>, message: Seq<char>) -> bool {
    r matches Err(Error::Fatal(m)) && m@ == message
}

/// What [`RawOpts::parse`] makes of the arguments.
pub open spec fn parsed_as(args: Seq<Seq<char>>, r: Result<MiniSibOpts>) -> bool {
    if args.len() == 0 {
        fatal_is(r, "NEXTER_TYPE is required"@)
    } else if args.len() > 3 {
        fatal_is(r, "Too many arguments"@)
    } else {
        match parsed_kind(args[0]) {
            Err(name) => r matches Err(Error::UnknownNexterType(t)) && t@ == name,
            Ok(kind) => if args.len() == 1 {
                opts_are(r, kind, 1, None)
            } else if args.len() == 2 {
                match i32_of(args[1]) {
                    Some(step) => opts_are(r, kind, step, None),
                    None => opts_are(r, kind, 1, Some(args[1])),
                }
            } else {
                match i32_of(args[1]) {
                    Some(step) => opts_are(r, kind, step, Some(args[2])),
                    None => match i32_of(args[2]) {
                        Some(step) => opts_are(r, kind, step, Some(args[1])),
                        None => fatal_is(r, "Invalid step argument"@),
                    },
                }
            },
        }
    }
}

/// A fatal error of the message.
fn fatal(message: &str) -> (r: Result<MiniSibOpts>)
    ensures
        fatal_is(r, message@),
{
    Err(Error::Fatal(String::from_str(message)))
}

impl RawOpts {
    /// Read the arguments: the kind of the traversing first, then the step, the
    /// file, or both, in any order.
    ///
    /// # Errors
    ///
    /// - [`Error::Fatal`] if there is no argument, more than three, or two after
    ///   the kind of which neither is a step, and
    /// - [`Error::UnknownNexterType`] if the first argument names no kind.
    pub fn parse(&self) -> (r: Result<MiniSibOpts>)
        ensures
            parsed_as(self.args.deep_view(), r),
    {
        let ghost args = self.args.deep_view();
        let n = self.args.len();
        if n == 0 {
            return fatal("NEXTER_TYPE is required");
        }
        if n > 3 {
            return fatal("Too many arguments");
        }
        assert(args[0] == self.args@[0]@);
        let nexter = match NexterType::parse(self.args[0].as_str()) {
            Ok(kind) => kind,
            Err(e) => return Err(e),
        };
        if n == 1 {
            return Ok(MiniSibOpts::new(nexter, 1, None));
        }
        assert(args[1] == self.args@[1]@);
        if n == 2 {
            return match parse_i32(self.args[1].as_str()) {
                Some(step) => Ok(MiniSibOpts::new(nexter, step, None)),
                None => Ok(MiniSibOpts::new(nexter, 1, Some(self.args[1].clone()))),
            };
        }
        assert(args[2] == self.args@[2]@);
        match parse_i32(self.args[1].as_str()) {
            Some(step) => Ok(MiniSibOpts::new(nexter, step, Some(self.args[2].clone()))),
            None => match parse_i32(self.args[2].as_str()) {
                Some(step) => Ok(MiniSibOpts::new(nexter, step, Some(self.args[1].clone()))),
                None => fatal("Invalid step argument"),
            },
        }
    }
}

/// The found directory is the first or the last one of the list.
pub open spec fn at_an_end(len: int, i: int) -> bool {
    i == 0 || i == len - 1
}

/// The text `minisib` prints: the found directory as shown, the number of the
/// directories, its one-based number, and whether it is the first or the last
/// one; without a found directory, the parent as shown, the number of the
/// directories, -1, and `true`.
pub open spec fn mini_text_of(
    shown: Seq<Seq<char>>,
    shown_parent: Seq<char>,
    len: int,
    found: Option<int>,
) -> Seq<char> {
    match found {
        Some(i) => shown[i] + "\n"@ + decimal_of(len) + "\n"@ + decimal_of(i + 1) + "\n"@ + (
        if at_an_end(len, i) {
            "true"@
        } else {
            "false"@
        }),
        None => shown_parent + "\n"@ + decimal_of(len) + "\n-1\ntrue"@,
    }
}

/// Build the text `minisib` prints for the directory `found` in `dirs`, whose
/// entries are shown as `shown` and whose parent as `shown_parent`.
pub fn mini_text(dirs: &Dirs, found: &Option<Dir<'_>>, shown: &Vec<String>, shown_parent: &str) -> (r:
    String)
    requires
        shown.len() == dirs@.len(),
        found matches Some(d) ==> d@.siblings == dirs@,
    ensures
        r@ == mini_text_of(shown.deep_view(), shown_parent@, dirs@.len(), found_index(*found)),
{
    let len = dirs.len();
    match found {
        Some(d) => {
            let i = d.index();
            assert(shown.deep_view()[i as int] == shown@[i as int]@);
            let mut out = String::from_str(shown[i].as_str());
            out.append("\n");
            out.append(unsigned_text(len as u64).as_str());
            out.append("\n");
            out.append(unsigned_text((i + 1) as u64).as_str());
            out.append("\n");
            if i == 0 || i + 1 == len {
                out.append("true");
            } else {
                out.append("false");
            }
            proof {
                assert(out@ =~= mini_text_of(
                    shown.deep_view(),
                    shown_parent@,
                    dirs@.len(),
                    found_index(*found),
                ));
            }
            out
        },
        None => {
            let mut out = String::from_str(shown_parent);
            out.append("\n");
            out.append(unsigned_text(len as u64).as_str());
            out.append("\n-1\ntrue");
            proof {
                assert(out@ =~= mini_text_of(
                    shown.deep_view(),
                    shown_parent@,
                    dirs@.len(),
                    found_index(*found),
                ));
            }
            out
        },
    }
}

} // verus!
