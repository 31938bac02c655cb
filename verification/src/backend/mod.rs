//! The package-manager backends: for each, what it is called and how its
//! command output is read; and what all of them share when they run a
//! command: whether `sudo` is needed, the command line, and what the run answers.
use vstd::prelude::*;
use vstd::string::*;
use crate::numfmt::{dec, push_decimal};
use crate::text::{chars_of, eq_str, trim, trim_slice};

pub mod apt;
pub mod dnf;
pub mod eopkg;
pub mod zypper;
pub mod xbps;
pub mod apk;
pub mod nix;
pub mod snap;
pub mod flatpak;
pub mod yay;
pub mod portage;
pub mod appimage;

verus! {

/// A package manager that the tool can drive.
pub trait PackageManagerBackend {
    /// The name under which the backend is shown, configured and chosen.
    fn name(&self) -> &'static str;
}

/// The view of an optional text.
pub open spec fn opt_text(o: Option<&str>) -> Option<Seq<char>> {
    match o {
        Some(s) => Some(s@),
        None => None,
    }
}

/// The tool runs with administrator rights: `USER` is `root`, or `id -u`
/// printed `0` (around white space).
pub open spec fn runs_as_root(user: Option<Seq<char>>, id_output: Option<Seq<char>>) -> bool {
    user == Some("root"@) || (id_output matches Some(o) && trim(o) == "0"@)
}

/// `runs_as_root` in code: `user` is the value of `USER` (if set), `id_output`
/// what `id -u` printed (if it ran).
pub fn is_root(user: Option<&str>, id_output: Option<&str>) -> (b: bool)
    ensures
        b == runs_as_root(opt_text(user), opt_text(id_output)),
{
    let by_user = match user {
        Some(u) => {
            let uv = chars_of(u);
            eq_str(uv.as_slice(), "root")
        },
        None => false,
    };
    if by_user {
        return true;
    }
    match id_output {
        Some(o) => {
            let v = chars_of(o);
            let t = trim_slice(v.as_slice());
            eq_str(t, "0")
        },
        None => false,
    }
}

/// The command line of a run that needs administrator rights: the program
/// and its arguments, behind `sudo` unless the tool already runs as root.
pub open spec fn privileged_line(program: Seq<char>, args: Seq<Seq<char>>, root: bool) -> Seq<Seq<char>> {
    if root {
        seq![program] + args
    } else {
        seq!["sudo"@, program] + args
    }
}

/// `privileged_line` in code.
pub fn privileged_argv(program: &str, args: &Vec<String>, root: bool) -> (r: Vec<String>)
    ensures
        r.deep_view() == privileged_line(program@, args.deep_view(), root),
{
    let mut r: Vec<String> = Vec::new();
    if !root {
        r.push("sudo".to_owned());
    }
    r.push(program.to_owned());
    let ghost head = r.deep_view();
    let mut i: usize = 0;
    while i < args.len()
        invariant
            i <= args@.len(),
            r.deep_view() == head + args.deep_view().take(i as int),
        decreases args@.len() - i,
    {
        let ghost before = r.deep_view();
        r.push(args[i].clone());
        assert(args.deep_view().take(i + 1) =~= args.deep_view().take(i as int).push(args[i as int]@));
        assert(r.deep_view() =~= before.push(args[i as int]@));
        i = i + 1;
    }
    assert(args.deep_view().take(args@.len() as int) =~= args.deep_view());
    assert(r.deep_view() =~= privileged_line(program@, args.deep_view(), root));
    r
}

/// An integer as `{}` writes it.
pub open spec fn int_text(c: int) -> Seq<char> {
    if c < 0 {
        "-"@ + dec((-c) as nat)
    } else {
        dec(c as nat)
    }
}

/// An exit code as `{:?}` writes an `Option<i32>`.
pub open spec fn debug_code(code: Option<i32>) -> Seq<char> {
    match code {
        Some(c) => "Some("@ + int_text(c as int) + ")"@,
        None => "None"@,
    }
}

/// What a command run for its effect answers: nothing when it succeeded,
/// else `failure_prefix` followed by its exit code.
pub fn command_outcome(failure_prefix: &str, success: bool, code: Option<i32>) -> (r: Result<(), String>)
    ensures
        success ==> r is Ok,
        !success ==> (r matches Err(m) && m@ == failure_prefix@ + debug_code(code)),
{
    if success {
        return Ok(());
    }
    let mut m = failure_prefix.to_owned();
    match code {
        Some(c) => {
            m.append("Some(");
            if c < 0 {
                m.append("-");
                push_decimal(&mut m, (0i64 - c as i64) as u128);
            } else {
                push_decimal(&mut m, c as u128);
            }
            m.append(")");
        },
        None => {
            m.append("None");
        },
    }
    Err(m)
}

/// What a command run for its output answers: its standard output when it
/// succeeded, else its error output.
pub fn captured_outcome(success: bool, stdout: String, stderr: String) -> (r: Result<String, String>)
    ensures
        success ==> (r matches Ok(o) && o@ == stdout@),
        !success ==> (r matches Err(e) && e@ == stderr@),
{
    if success {
        Ok(stdout)
    } else {
        Err(stderr)
    }
}

} // verus!
