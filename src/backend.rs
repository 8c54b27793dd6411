//! What is handed to the external display program, how its exit status is
//! read, and shell completions for option values.

use vstd::prelude::*;
use crate::presets::{Preset, all_presets, preset_name};
use crate::text::{is_prefix, push_char, starts_with, to_chars};
use crate::types::{AnsiMode, Backend, ansi_mode_name, backend_name};

verus! {

/// The names among `names` that begin with `input`, in order.
pub open spec fn completions(names: Seq<Seq<char>>, input: Seq<char>) -> Seq<Seq<char>>
    decreases names.len(),
{
    if names.len() == 0 {
        Seq::empty()
    } else {
        let prev = completions(names.drop_last(), input);
        if is_prefix(input, names.last()) {
            prev.push(names.last())
        } else {
            prev
        }
    }
}

/// The completion entries for the names that begin with `input`.
fn complete_from(names: &Vec<&'static str>, input: &str) -> (r: Vec<(String, Option<String>)>)
    ensures
        r@.len() == completions(names@.map_values(|n: &str| n@), input@).len(),
        forall|i: int|
            0 <= i < r@.len() ==> (#[trigger] r@[i]).0@ == completions(
                names@.map_values(|n: &str| n@),
                input@,
            )[i] && r@[i].1 is None,
{
    let ghost views = names@.map_values(|n: &str| n@);
    let mut r: Vec<(String, Option<String>)> = Vec::new();
    let mut i: usize = 0;
    while i < names.len()
        invariant
            i <= names@.len(),
            views == names@.map_values(|n: &str| n@),
            r@.len() == completions(views.subrange(0, i as int), input@).len(),
            forall|j: int|
                0 <= j < r@.len() ==> (#[trigger] r@[j]).0@ == completions(
                    views.subrange(0, i as int),
                    input@,
                )[j] && r@[j].1 is None,
        decreases names@.len() - i,
    {
        proof {
            let pre = views.subrange(0, i + 1);
            assert(pre.drop_last() =~= views.subrange(0, i as int));
            assert(pre.last() == names@[i as int]@);
        }
        if starts_with(names[i], input) {
            r.push((names[i].to_owned(), None));
        }
        i += 1;
    }
    assert(views.subrange(0, i as int) =~= views);
    r
}

/// Preset names that complete `input`.
pub fn complete_preset(input: &String) -> (r: Vec<(String, Option<String>)>)
    ensures
        r@.len() == completions(all_presets().map_values(|p: Preset| preset_name(p)), input@).len(),
        forall|i: int|
            0 <= i < r@.len() ==> (#[trigger] r@[i]).0@ == completions(
                all_presets().map_values(|p: Preset| preset_name(p)),
                input@,
            )[i] && r@[i].1 is None,
{
    let presets = Preset::variants();
    let mut names: Vec<&'static str> = Vec::new();
    let mut i: usize = 0;
    while i < presets.len()
        invariant
            presets@ == all_presets(),
            i <= presets@.len(),
            names@.len() == i,
            forall|j: int| 0 <= j < i ==> (#[trigger] names@[j])@ == preset_name(presets@[j]),
        decreases presets@.len() - i,
    {
        names.push(presets[i].name());
        i += 1;
    }
    assert(names@.map_values(|n: &str| n@) =~= all_presets().map_values(|p: Preset| preset_name(p)));
    complete_from(&names, input.as_str())
}

/// The mode names, in the order in which they are offered.
pub open spec fn mode_names() -> Seq<Seq<char>> {
    seq![ansi_mode_name(AnsiMode::Ansi256), ansi_mode_name(AnsiMode::Rgb)]
}

/// The backend names, in the order in which they are offered.
pub open spec fn backend_names() -> Seq<Seq<char>> {
    seq![backend_name(Backend::Neofetch), backend_name(Backend::Fastfetch)]
}

/// Colour mode names that complete `input`.
pub fn complete_mode(input: &String) -> (r: Vec<(String, Option<String>)>)
    ensures
        r@.len() == completions(mode_names(), input@).len(),
        forall|i: int|
            0 <= i < r@.len() ==> (#[trigger] r@[i]).0@ == completions(mode_names(), input@)[i]
                && r@[i].1 is None,
{
    let names: Vec<&'static str> = vec![AnsiMode::Ansi256.name(), AnsiMode::Rgb.name()];
    assert(names@.map_values(|n: &str| n@) =~= mode_names());
    complete_from(&names, input.as_str())
}

/// Backend names that complete `input`.
pub fn complete_backend(input: &String) -> (r: Vec<(String, Option<String>)>)
    ensures
        r@.len() == completions(backend_names(), input@).len(),
        forall|i: int|
            0 <= i < r@.len() ==> (#[trigger] r@[i]).0@ == completions(backend_names(), input@)[i]
                && r@[i].1 is None,
{
    let names: Vec<&'static str> = vec![Backend::Neofetch.name(), Backend::Fastfetch.name()];
    assert(names@.map_values(|n: &str| n@) =~= backend_names());
    complete_from(&names, input.as_str())
}

/// Every backslash doubled.
pub open spec fn escape_backslashes_spec(s: Seq<char>) -> Seq<char>
    decreases s.len(),
{
    if s.len() == 0 {
        Seq::empty()
    } else {
        let prev = escape_backslashes_spec(s.drop_last());
        if s.last() == '\\' {
            prev.push('\\').push('\\')
        } else {
            prev.push(s.last())
        }
    }
}

/// Every pair of backslashes, taken left to right, made one.
pub open spec fn unescape_backslashes_spec(s: Seq<char>) -> Seq<char>
    decreases s.len(),
{
    if s.len() == 0 {
        Seq::empty()
    } else if s.len() >= 2 && s[0] == '\\' && s[1] == '\\' {
        seq!['\\'] + unescape_backslashes_spec(s.subrange(2, s.len() as int))
    } else {
        seq![s[0]] + unescape_backslashes_spec(s.drop_first())
    }
}

/// Doubles every backslash, as the neofetch script expects of art it
/// prints through `printf`.
pub fn escape_backslashes(s: &str) -> (r: String)
    ensures
        r@ == escape_backslashes_spec(s@),
{
    let cs = to_chars(s);
    let mut r = String::new();
    let mut i: usize = 0;
    while i < cs.len()
        invariant
            i <= cs@.len(),
            cs@ == s@,
            r@ == escape_backslashes_spec(cs@.subrange(0, i as int)),
        decreases cs@.len() - i,
    {
        assert(cs@.subrange(0, i + 1).drop_last() =~= cs@.subrange(0, i as int));
        if cs[i] == '\\' {
            push_char(&mut r, '\\');
            push_char(&mut r, '\\');
        } else {
            push_char(&mut r, cs[i]);
        }
        i += 1;
    }
    assert(cs@.subrange(0, i as int) =~= cs@);
    r
}

/// Makes each pair of backslashes one, undoing the escaping of art that
/// the neofetch script prints.
pub fn unescape_backslashes(s: &str) -> (r: String)
    ensures
        r@ == unescape_backslashes_spec(s@),
{
    let cs = to_chars(s);
    let mut r = String::new();
    let mut i: usize = 0;
    assert(cs@.subrange(0, cs@.len() as int) =~= cs@);
    assert(r@ + unescape_backslashes_spec(cs@) =~= unescape_backslashes_spec(cs@));
    while i < cs.len()
        invariant
            i <= cs@.len(),
            cs@ == s@,
            r@ + unescape_backslashes_spec(cs@.subrange(i as int, cs@.len() as int))
                == unescape_backslashes_spec(cs@),
        decreases cs@.len() - i,
    {
        let ghost rest = cs@.subrange(i as int, cs@.len() as int);
        if i + 1 < cs.len() && cs[i] == '\\' && cs[i + 1] == '\\' {
            push_char(&mut r, '\\');
            assert(rest.subrange(2, rest.len() as int) =~= cs@.subrange(i + 2, cs@.len() as int));
            i += 2;
        } else {
            push_char(&mut r, cs[i]);
            assert(rest.drop_first() =~= cs@.subrange(i + 1, cs@.len() as int));
            i += 1;
        }
    }
    assert(cs@.subrange(0, cs@.len() as int) =~= cs@);
    assert(cs@.subrange(i as int, cs@.len() as int) =~= Seq::<char>::empty());
    r
}

/// What the display program is started with: a file holding the art and
/// the arguments before and after that file's path.
#[derive(Clone, Debug)]
pub struct BackendInvocation {
    pub backend: Backend,
    /// The contents of the art file.
    pub ascii_file: String,
    /// The arguments that come before the art file's path.
    pub args_before_file: Vec<String>,
    /// The arguments that come after the art file's path.
    pub args_after_file: Vec<String>,
}

/// The fixed arguments before the art file's path.
pub open spec fn leading_args(backend: Backend) -> Seq<Seq<char>> {
    match backend {
        Backend::Neofetch => seq!["--ascii"@, "--source"@],
        Backend::Fastfetch => seq!["--file-raw"@],
    }
}

/// The fixed arguments right after the art file's path.
pub open spec fn trailing_args(backend: Backend) -> Seq<Seq<char>> {
    match backend {
        Backend::Neofetch => seq!["--ascii_colors"@],
        Backend::Fastfetch => Seq::empty(),
    }
}

fn strings_of(names: &Vec<&'static str>) -> (r: Vec<String>)
    ensures
        r@.map_values(|x: String| x@) == names@.map_values(|n: &str| n@),
{
    let mut r: Vec<String> = Vec::new();
    let mut i: usize = 0;
    while i < names.len()
        invariant
            i <= names@.len(),
            r@.len() == i,
            forall|j: int| 0 <= j < i ==> (#[trigger] r@[j])@ == names@[j]@,
        decreases names@.len() - i,
    {
        r.push(names[i].to_owned());
        i += 1;
    }
    assert(r@.map_values(|x: String| x@) =~= names@.map_values(|n: &str| n@));
    r
}

/// Prepares the run of a backend on recoloured art: the art file's
/// contents (backslashes doubled for neofetch) and the arguments around
/// its path, the user's arguments last.
pub fn run(asc: String, backend: Backend, args: Option<&Vec<String>>) -> (r: BackendInvocation)
    ensures
        r.backend == backend,
        r.ascii_file@ == (match backend {
            Backend::Neofetch => escape_backslashes_spec(asc@),
            Backend::Fastfetch => asc@,
        }),
        r.args_before_file@.map_values(|x: String| x@) == leading_args(backend),
        r.args_after_file@.map_values(|x: String| x@) == trailing_args(backend) + (match args {
            Some(a) => a@.map_values(|x: String| x@),
            None => Seq::empty(),
        }),
{
    let (ascii_file, before, after) = match backend {
        Backend::Neofetch => (escape_backslashes(asc.as_str()), vec!["--ascii", "--source"], vec!["--ascii_colors"]),
        Backend::Fastfetch => (asc, vec!["--file-raw"], Vec::new()),
    };
    let args_before_file = strings_of(&before);
    let mut args_after_file = strings_of(&after);
    assert(before@.map_values(|n: &str| n@) =~= leading_args(backend));
    assert(after@.map_values(|n: &str| n@) =~= trailing_args(backend));
    match args {
        Some(a) => {
            let ghost base = args_after_file@;
            let mut i: usize = 0;
            while i < a.len()
                invariant
                    i <= a@.len(),
                    args_after_file@ == base + a@.subrange(0, i as int),
                decreases a@.len() - i,
            {
                args_after_file.push(a[i].clone());
                i += 1;
                assert(args_after_file@ =~= base + a@.subrange(0, i as int));
            }
            assert(a@.subrange(0, i as int) =~= a@);
            assert(args_after_file@.map_values(|x: String| x@) =~= base.map_values(|x: String| x@)
                + a@.map_values(|x: String| x@));
        },
        None => {
            assert(trailing_args(backend) + Seq::<Seq<char>>::empty() =~= trailing_args(backend));
        },
    }
    BackendInvocation { backend, ascii_file, args_before_file, args_after_file }
}

/// How a backend run ended unsuccessfully.
#[derive(Clone, Copy, Debug, PartialEq, Eq, Hash, Structural)]
pub enum CommandError {
    /// The program could not be found.
    NotFound,
    /// The program exited with a non-zero status code.
    ExitCode(i32),
    /// The program was terminated by a signal.
    Signal(i32),
    /// The program ended without status code or signal.
    NoStatus,
}

/// Reads the outcome of a finished child process: success, its exit code,
/// or the signal that terminated it.
pub fn process_command_status(success: bool, code: Option<i32>, signal: Option<i32>) -> (r: Result<(), CommandError>)
    ensures
        success ==> r is Ok,
        !success ==> r == Err::<(), CommandError>(match (code, signal) {
            (Some(c), _) => CommandError::ExitCode(c),
            (None, Some(s)) => CommandError::Signal(s),
            (None, None) => CommandError::NoStatus,
        }),
{
    if success {
        return Ok(());
    }
    match code {
        Some(c) => Err(CommandError::ExitCode(c)),
        None => match signal {
            Some(s) => Err(CommandError::Signal(s)),
            None => Err(CommandError::NoStatus),
        },
    }
}

} // verus!
