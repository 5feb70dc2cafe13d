//! The command interpreter of the host: which one it is, what it is called
//! in a prompt, and how it is asked to run a single command.

use crate::text::{chars_of, same_text};
use vstd::prelude::*;

verus! {

/// A command interpreter that commands are generated for and run through.
#[derive(Clone, Copy, Debug, PartialEq, Eq, Structural)]
pub enum Shell {
    Powershell,
    BornAgainShell,
    Zsh,
    Fish,
    DebianAlmquistShell,
    KornShell,
    CShell,
    Unknown,
}

/// The offset in `path` just behind its last `/`, or 0 where it holds none.
pub open spec fn file_name_start(path: Seq<char>) -> int
    decreases path.len(),
{
    if path.len() > 0 && path.last() != '/' {
        file_name_start(path.drop_last())
    } else {
        path.len() as int
    }
}

/// The last component of `path`: what follows its last `/`.
pub open spec fn file_name_of(path: Seq<char>) -> Seq<char> {
    path.skip(file_name_start(path))
}

/// The file name starts inside the path and holds no separator.
pub proof fn lemma_file_name_start_bounds(path: Seq<char>)
    ensures
        0 <= file_name_start(path) <= path.len(),
        forall|i: int| file_name_start(path) <= i < path.len() ==> path[i] != '/',
        file_name_start(path) > 0 ==> path[file_name_start(path) - 1] == '/',
    decreases path.len(),
{
    if path.len() > 0 && path.last() != '/' {
        let shorter = path.drop_last();
        lemma_file_name_start_bounds(shorter);
        assert forall|i: int| file_name_start(path) <= i < path.len() implies path[i] != '/' by {
            if i < shorter.len() {
                assert(shorter[i] == path[i]);
            }
        }
        if file_name_start(path) > 0 {
            assert(shorter[file_name_start(path) - 1] == path[file_name_start(path) - 1]);
        }
    }
}

/// The last component of `path`: what follows its last `/`.
pub fn file_name<'a>(path: &'a str) -> (name: &'a str)
    ensures
        name@ == file_name_of(path@),
{
    let chars = chars_of(path);
    let mut start: usize = chars.len();
    assert(chars@.take(start as int) =~= chars@);
    while start > 0 && chars[start - 1] != '/'
        invariant
            start <= chars.len(),
            file_name_start(chars@.take(start as int)) == file_name_start(chars@),
        decreases start,
    {
        assert(chars@.take(start as int).drop_last() =~= chars@.take(start - 1));
        start -= 1;
    }
    path.substring_char(start, chars.len())
}

impl Shell {
    /// The interpreter that goes by the file name `name`.
    pub open spec fn named(name: Seq<char>) -> Shell {
        if name == "bash"@ || name == "sh"@ {
            Shell::BornAgainShell
        } else if name == "zsh"@ {
            Shell::Zsh
        } else if name == "fish"@ {
            Shell::Fish
        } else if name == "dash"@ {
            Shell::DebianAlmquistShell
        } else if name == "ksh"@ {
            Shell::KornShell
        } else if name == "csh"@ {
            Shell::CShell
        } else {
            Shell::Unknown
        }
    }

    /// The interpreter of a host whose operating system is `os` and whose
    /// login shell is the program at `shell_path`.
    pub open spec fn detected(os: Seq<char>, shell_path: Seq<char>) -> Shell {
        if os == "windows"@ {
            Shell::Powershell
        } else {
            Shell::named(file_name_of(shell_path))
        }
    }

    /// The interpreter that goes by the file name `name`; `Unknown` for any
    /// other name.
    pub fn from_name(name: &str) -> (shell: Shell)
        ensures
            shell == Shell::named(name@),
    {
        if same_text(name, "bash") || same_text(name, "sh") {
            Shell::BornAgainShell
        } else if same_text(name, "zsh") {
            Shell::Zsh
        } else if same_text(name, "fish") {
            Shell::Fish
        } else if same_text(name, "dash") {
            Shell::DebianAlmquistShell
        } else if same_text(name, "ksh") {
            Shell::KornShell
        } else if same_text(name, "csh") {
            Shell::CShell
        } else {
            Shell::Unknown
        }
    }

    /// Identifies the interpreter of the host from the name of its operating
    /// system and the path of the user's login shell (empty where the host
    /// names none). On Windows it is PowerShell whatever the path says.
    pub fn detect(os: &str, shell_path: &str) -> (shell: Shell)
        ensures
            shell == Shell::detected(os@, shell_path@),
    {
        if same_text(os, "windows") {
            Shell::Powershell
        } else {
            Shell::from_name(file_name(shell_path))
        }
    }

    /// The program that runs this interpreter.
    pub open spec fn program(self) -> Seq<char> {
        match self {
            Shell::Powershell => "powershell"@,
            Shell::BornAgainShell => "bash"@,
            Shell::Zsh => "zsh"@,
            Shell::Fish => "fish"@,
            Shell::DebianAlmquistShell => "dash"@,
            Shell::KornShell => "ksh"@,
            Shell::CShell => "csh"@,
            Shell::Unknown => "sh"@,
        }
    }

    /// The flag behind which this interpreter takes one command to run.
    pub open spec fn command_flag(self) -> Seq<char> {
        match self {
            Shell::Powershell => "-Command"@,
            _ => "-c"@,
        }
    }

    /// The program to start and the flag behind which it takes a single
    /// command, runs it and exits.
    pub fn to_shell_command_and_command_arg(&self) -> (invocation: (&'static str, &'static str))
        ensures
            invocation.0@ == self.program(),
            invocation.1@ == self.command_flag(),
    {
        match self {
            Shell::Powershell => ("powershell", "-Command"),
            Shell::BornAgainShell => ("bash", "-c"),
            Shell::Zsh => ("zsh", "-c"),
            Shell::Fish => ("fish", "-c"),
            Shell::DebianAlmquistShell => ("dash", "-c"),
            Shell::KornShell => ("ksh", "-c"),
            Shell::CShell => ("csh", "-c"),
            Shell::Unknown => ("sh", "-c"),
        }
    }

    /// How this interpreter is named to the language model: its full name
    /// with the program in brackets, and `fallback` where it is unknown.
    pub open spec fn described(self, fallback: Seq<char>) -> Seq<char> {
        match self {
            Shell::Powershell => "Windows PowerShell"@,
            Shell::BornAgainShell => "Bourne Again Shell (bash / sh)"@,
            Shell::Zsh => "Z Shell (zsh)"@,
            Shell::Fish => "Friendly Interactive Shell (fish)"@,
            Shell::DebianAlmquistShell => "Debian Almquist Shell (dash)"@,
            Shell::KornShell => "Korn Shell (ksh)"@,
            Shell::CShell => "C Shell (csh)"@,
            Shell::Unknown => fallback,
        }
    }

    /// How this interpreter is named to the language model, with `fallback`
    /// standing in for an unknown one.
    pub fn describe<'a>(&self, fallback: &'a str) -> (name: &'a str)
        ensures
            name@ == self.described(fallback@),
    {
        match self {
            Shell::Powershell => "Windows PowerShell",
            Shell::BornAgainShell => "Bourne Again Shell (bash / sh)",
            Shell::Zsh => "Z Shell (zsh)",
            Shell::Fish => "Friendly Interactive Shell (fish)",
            Shell::DebianAlmquistShell => "Debian Almquist Shell (dash)",
            Shell::KornShell => "Korn Shell (ksh)",
            Shell::CShell => "C Shell (csh)",
            Shell::Unknown => fallback,
        }
    }
}

} // verus!
