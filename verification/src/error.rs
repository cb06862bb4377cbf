//! Kinds of failures of the CmdStan tool chain, and the test that decides
//! whether a tool's output looks as it should.
use vstd::prelude::*;
use crate::text::chars_of;

verus! {

/// The part of the CmdStan tool chain that failed.
#[derive(Clone, Copy, Debug, PartialEq, Eq, Hash, PartialOrd, Ord, Structural)]
pub enum ErrorKind {
    /// The Bernoulli example.
    Bernoulli,
    /// Compilation of a Stan program.
    Compilation,
    /// The `diagnose` utility.
    Diagnose,
    /// A compiled model executable.
    Executable,
    /// The CmdStan installation.
    Install,
    /// `make` in the CmdStan installation.
    Make,
    /// A Stan program file.
    ModelFile,
    /// The `stanc` compiler.
    StanC,
    /// The `stansummary` utility.
    StanSummary,
}

/// The operating system family that the tool chain runs on: it decides
/// the names of the executables.
#[derive(Clone, Copy, Debug, PartialEq, Eq, Hash, Structural)]
pub enum Platform {
    /// Unix-like systems: executables without an extension, `make`.
    Unix,
    /// Windows: executables with the extension `exe`, `mingw32-make`.
    Windows,
}

/// The name of the part that a kind of failure concerns, on platform `p`.
pub open spec fn kind_name(k: ErrorKind, p: Platform) -> Seq<char> {
    let win = p == Platform::Windows;
    match k {
        ErrorKind::Bernoulli => if win {
            "examples/bernoulli/bernoulli.exe"@
        } else {
            "examples/bernoulli/bernoulli"@
        },
        ErrorKind::Compilation => if win {
            "mingw32-make"@
        } else {
            "make"@
        },
        ErrorKind::Diagnose => if win {
            "bin/diagnose.exe"@
        } else {
            "bin/diagnose"@
        },
        ErrorKind::Executable => "model executable"@,
        ErrorKind::Install => "cmdstan install"@,
        ErrorKind::Make => if win {
            "mingw32-make"@
        } else {
            "make"@
        },
        ErrorKind::ModelFile => "model file"@,
        ErrorKind::StanC => if win {
            "bin/stanc.exe"@
        } else {
            "bin/stanc"@
        },
        ErrorKind::StanSummary => if win {
            "bin/stansummary.exe"@
        } else {
            "bin/stansummary"@
        },
    }
}

/// The text that the standard output of a working part holds (empty
/// where there is none to look for).
pub open spec fn kind_needle(k: ErrorKind) -> Seq<char> {
    match k {
        ErrorKind::Bernoulli => "Adjust your expectations accordingly!"@,
        ErrorKind::Compilation => ""@,
        ErrorKind::Diagnose => "diagnose <filename 1>"@,
        ErrorKind::Executable => "Bayesian inference with Markov Chain Monte Carlo"@,
        ErrorKind::Install => ""@,
        ErrorKind::Make => "Build CmdStan utilities"@,
        ErrorKind::ModelFile => ""@,
        ErrorKind::StanC => "stanc [option]"@,
        ErrorKind::StanSummary => "stansummary [OPTIONS]"@,
    }
}

impl ErrorKind {
    /// The name of the part that `self` concerns, on platform `p`.
    pub fn as_str(&self, p: Platform) -> (s: &'static str)
        ensures
            s@ == kind_name(*self, p),
    {
        let win = match p {
            Platform::Windows => true,
            Platform::Unix => false,
        };
        match self {
            ErrorKind::Bernoulli => if win {
                "examples/bernoulli/bernoulli.exe"
            } else {
                "examples/bernoulli/bernoulli"
            },
            ErrorKind::Compilation => if win {
                "mingw32-make"
            } else {
                "make"
            },
            ErrorKind::Diagnose => if win {
                "bin/diagnose.exe"
            } else {
                "bin/diagnose"
            },
            ErrorKind::Executable => "model executable",
            ErrorKind::Install => "cmdstan install",
            ErrorKind::Make => if win {
                "mingw32-make"
            } else {
                "make"
            },
            ErrorKind::ModelFile => "model file",
            ErrorKind::StanC => if win {
                "bin/stanc.exe"
            } else {
                "bin/stanc"
            },
            ErrorKind::StanSummary => if win {
                "bin/stansummary.exe"
            } else {
                "bin/stansummary"
            },
        }
    }

    /// The text that the standard output of a working part holds.
    pub fn needle(&self) -> (s: &'static str)
        ensures
            s@ == kind_needle(*self),
    {
        match self {
            ErrorKind::Bernoulli => "Adjust your expectations accordingly!",
            ErrorKind::Compilation => "",
            ErrorKind::Diagnose => "diagnose <filename 1>",
            ErrorKind::Executable => "Bayesian inference with Markov Chain Monte Carlo",
            ErrorKind::Install => "",
            ErrorKind::Make => "Build CmdStan utilities",
            ErrorKind::ModelFile => "",
            ErrorKind::StanC => "stanc [option]",
            ErrorKind::StanSummary => "stansummary [OPTIONS]",
        }
    }
}

/// `needle` occurs in `hay` at position `i`.
pub open spec fn occurs_at(hay: Seq<char>, needle: Seq<char>, i: int) -> bool {
    0 <= i && i + needle.len() <= hay.len() && hay.subrange(i, i + needle.len()) == needle
}

/// `needle` occurs somewhere in `hay`.
pub open spec fn contains(hay: Seq<char>, needle: Seq<char>) -> bool {
    exists|i: int| occurs_at(hay, needle, i)
}

fn occurs_at_exec(hay: &Vec<char>, needle: &Vec<char>, i: usize) -> (b: bool)
    requires
        i + needle@.len() <= hay@.len(),
    ensures
        b == occurs_at(hay@, needle@, i as int),
{
    let hl = hay.len();
    let mut k: usize = 0;
    while k < needle.len()
        invariant
            hl == hay@.len(),
            i + needle@.len() <= hay@.len(),
            0 <= k <= needle@.len(),
            forall|m: int| 0 <= m < k ==> hay@[i + m] == needle@[m],
        decreases needle@.len() - k,
    {
        if hay[i + k] != needle[k] {
            proof {
                assert(hay@.subrange(i as int, i + needle@.len())[k as int] != needle@[k as int]);
            }
            return false;
        }
        k = k + 1;
    }
    proof {
        assert(hay@.subrange(i as int, i + needle@.len()) =~= needle@);
    }
    true
}

/// Whether `needle` occurs in `hay`.
pub fn str_contains(hay: &str, needle: &str) -> (b: bool)
    ensures
        b == contains(hay@, needle@),
{
    let h = chars_of(hay);
    let n = chars_of(needle);
    if n.len() > h.len() {
        proof {
            assert forall|i: int| !occurs_at(hay@, needle@, i) by {}
        }
        return false;
    }
    let last = h.len() - n.len();
    let mut i: usize = 0;
    while i < last
        invariant
            h@ == hay@,
            n@ == needle@,
            last == h@.len() - n@.len(),
            0 <= i <= last,
            forall|j: int| 0 <= j < i ==> !occurs_at(hay@, needle@, j),
        decreases last - i,
    {
        if occurs_at_exec(&h, &n, i) {
            return true;
        }
        i = i + 1;
    }
    let b = occurs_at_exec(&h, &n, last);
    proof {
        if !b {
            assert forall|j: int| !occurs_at(hay@, needle@, j) by {
                if 0 <= j < i {
                }
            }
        }
    }
    b
}

/// A tool's output looks as it should: the tool exited successfully and
/// its standard output holds the needle of its kind.
pub open spec fn output_ok(k: ErrorKind, success: bool, stdout: Seq<char>) -> bool {
    success && contains(stdout, kind_needle(k))
}

/// Whether the output of the part `k` looks as it should, given whether
/// it exited successfully and its standard output.
pub fn appears_ok(k: ErrorKind, success: bool, stdout: &str) -> (b: bool)
    ensures
        b == output_ok(k, success, stdout@),
{
    success && str_contains(stdout, k.needle())
}

} // verus!
