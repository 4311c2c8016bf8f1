//! Linking: which external command turns the object file into an executable.
//!
//! The command depends on the host system and on what was found on it. Finding out, and
//! running the command, is the caller's part; which command to run, and what its exit
//! means, is decided here.

use crate::text::{
    chars_between, chars_of, lemma_run_end_bounds, run_end, scan, string_of, trim, trim_range,
    CharClass,
};
use vstd::prelude::*;

verus! {

/// A host system that linking is known for.
#[derive(Clone, Copy, Debug, PartialEq, Eq, Structural)]
pub enum Host {
    MacOs,
    Linux,
    Windows,
}

/// Why no executable was produced.
#[derive(Clone, Copy, Debug, PartialEq, Eq, Structural)]
pub enum LinkError {
    /// Linking is not known for the host system.
    UnsupportedHost,
    /// The platform linker `ld` ended with a failure.
    LdFailed,
    /// The C compiler driver `gcc` ended with a failure.
    GccFailed,
    /// The linker `link.exe` ended with a failure.
    LinkExeFailed,
}

impl LinkError {
    /// The error in words.
    pub open spec fn message_spec(self) -> Seq<char> {
        match self {
            LinkError::UnsupportedHost =>
                "Unsupported OS: this compiler currently supports macOS, Linux, and Windows."@,
            LinkError::LdFailed => "ld failed"@,
            LinkError::GccFailed => "gcc link failed"@,
            LinkError::LinkExeFailed => "link.exe failed"@,
        }
    }

    /// The error in words.
    pub fn message(&self) -> (text: String)
        ensures
            text@ == self.message_spec(),
    {
        match self {
            LinkError::UnsupportedHost => String::from_str(
                "Unsupported OS: this compiler currently supports macOS, Linux, and Windows.",
            ),
            LinkError::LdFailed => String::from_str("ld failed"),
            LinkError::GccFailed => String::from_str("gcc link failed"),
            LinkError::LinkExeFailed => String::from_str("link.exe failed"),
        }
    }
}

/// What was found on the host before linking.
#[derive(Debug, Clone, PartialEq, Eq)]
pub struct Probes {
    /// Whether code is generated for 64-bit ARM rather than for x86-64.
    pub arm64: bool,
    /// What `xcrun --sdk macosx --show-sdk-path` printed.
    pub sdk_path: String,
    /// What `sw_vers -productVersion` printed.
    pub product_version: String,
    /// Whether `gcc` is on the search path.
    pub gcc: bool,
    /// Where `ld.lld` is on the search path, if it is.
    pub lld: Option<String>,
}

/// An external command: the program and its arguments.
#[derive(Debug, Clone, PartialEq, Eq)]
pub struct LinkCommand {
    pub program: String,
    pub args: Vec<String>,
}

/// Mathematical value of a [`LinkCommand`].
pub ghost struct LinkCommandView {
    pub program: Seq<char>,
    pub args: Seq<Seq<char>>,
}

/// The texts of a sequence of strings.
pub open spec fn texts(strings: Seq<String>) -> Seq<Seq<char>> {
    Seq::new(strings.len(), |i: int| strings[i]@)
}

impl View for LinkCommand {
    type V = LinkCommandView;

    open spec fn view(&self) -> LinkCommandView {
        LinkCommandView { program: self.program@, args: texts(self.args@) }
    }
}

/// The host that the name of an operating system stands for.
pub open spec fn host_spec(os: Seq<char>) -> Result<Host, LinkError> {
    if os == "macos"@ {
        Ok(Host::MacOs)
    } else if os == "linux"@ {
        Ok(Host::Linux)
    } else if os == "windows"@ {
        Ok(Host::Windows)
    } else {
        Err(LinkError::UnsupportedHost)
    }
}

/// The first two parts of a version of the operating system, joined by a dot: the text
/// before the first dot, and the text between the first and the second dot, or `0` where
/// the version has no dot. Whitespace around the version does not count.
pub open spec fn platform_version_spec(product_version: Seq<char>) -> Seq<char> {
    let version = trim(product_version);
    let first = run_end(version, 0, CharClass::Not('.'));
    let major = version.subrange(0, first);
    if first >= version.len() {
        major + seq!['.', '0']
    } else {
        let second = run_end(version, first + 1, CharClass::Not('.'));
        major + seq!['.'] + version.subrange(first + 1, second)
    }
}

/// The command that links `obj` into `out_exe` on `host`.
pub open spec fn link_spec(host: Host, probes: Probes, obj: Seq<char>, out_exe: Seq<char>) -> LinkCommandView {
    match host {
        Host::MacOs => {
            let version = platform_version_spec(probes.product_version@);
            LinkCommandView {
                program: "ld"@,
                args: seq![
                    "-o"@,
                    out_exe,
                    "-arch"@,
                    if probes.arm64 {
                        "arm64"@
                    } else {
                        "x86_64"@
                    },
                    "-platform_version"@,
                    "macos"@,
                    version,
                    version,
                    "-syslibroot"@,
                    trim(probes.sdk_path@),
                    "-e"@,
                    "_main"@,
                    obj,
                    "-lSystem"@,
                ],
            }
        },
        Host::Linux => LinkCommandView {
            program: if probes.gcc {
                "gcc"@
            } else {
                match probes.lld {
                    Some(path) => path@,
                    None => "ld"@,
                }
            },
            args: seq![obj, "-o"@, out_exe, "-lc"@],
        },
        Host::Windows => LinkCommandView {
            program: "link.exe"@,
            args: seq![
                obj,
                "/OUT:"@ + out_exe,
                "msvcrt.lib"@,
                "legacy_stdio_definitions.lib"@,
            ],
        },
    }
}

/// What the end of the link command means: nothing is wrong after a success, and a
/// failure is the error of the linker that was run.
pub open spec fn outcome_spec(host: Host, probes: Probes, success: bool) -> Result<(), LinkError> {
    if success {
        Ok(())
    } else {
        Err(
            match host {
                Host::MacOs => LinkError::LdFailed,
                Host::Linux => if probes.gcc {
                    LinkError::GccFailed
                } else {
                    LinkError::LdFailed
                },
                Host::Windows => LinkError::LinkExeFailed,
            },
        )
    }
}

/// Whether two strings hold the same text.
fn same_text(a: &str, b: &str) -> (r: bool)
    ensures
        r == (a@ == b@),
{
    let x = chars_of(a);
    let y = chars_of(b);
    if x.len() != y.len() {
        return false;
    }
    let mut i: usize = 0;
    while i < x.len()
        invariant
            x@ == a@,
            y@ == b@,
            i <= x.len(),
            x.len() == y.len(),
            forall|k: int| 0 <= k < i ==> x@[k] == y@[k],
        decreases x.len() - i,
    {
        if x[i] != y[i] {
            return false;
        }
        i += 1;
    }
    assert(x@ =~= y@);
    true
}

/// The host that the name of an operating system stands for, as the standard library
/// names it; an error for every system that linking is not known for.
pub fn host_of(os: &str) -> (r: Result<Host, LinkError>)
    ensures
        r == host_spec(os@),
{
    if same_text(os, "macos") {
        Ok(Host::MacOs)
    } else if same_text(os, "linux") {
        Ok(Host::Linux)
    } else if same_text(os, "windows") {
        Ok(Host::Windows)
    } else {
        Err(LinkError::UnsupportedHost)
    }
}

/// The platform version that the linker is given, from what `sw_vers` printed.
pub fn platform_version(product_version: &str) -> (version: String)
    ensures
        version@ == platform_version_spec(product_version@),
{
    let all = chars_of(product_version);
    let (from, to) = trim_range(&all, 0, all.len());
    assert(all@.subrange(0, all.len() as int) =~= all@);
    let chars = chars_between(&all, from, to);
    let n = chars.len();
    let first = scan(&chars, 0, n, CharClass::Not('.'));
    proof {
        lemma_run_end_bounds(chars@, 0, CharClass::Not('.'));
    }
    let mut version = string_of(&chars, 0, first);
    version.push('.');
    if first >= n {
        version.push('0');
        assert(version@ =~= chars@.subrange(0, first as int) + seq!['.', '0']);
    } else {
        let second = scan(&chars, first + 1, n, CharClass::Not('.'));
        proof {
            lemma_run_end_bounds(chars@, first as int + 1, CharClass::Not('.'));
        }
        let minor = string_of(&chars, first + 1, second);
        version = version.concat(minor.as_str());
        assert(version@ =~= chars@.subrange(0, first as int) + seq!['.'] + chars@.subrange(
            first as int + 1,
            second as int,
        ));
    }
    version
}

/// `text` without the whitespace at its ends.
fn trimmed(text: &str) -> (r: String)
    ensures
        r@ == trim(text@),
{
    let chars = chars_of(text);
    let (from, to) = trim_range(&chars, 0, chars.len());
    assert(chars@.subrange(0, chars.len() as int) =~= chars@);
    string_of(&chars, from, to)
}

/// The command that links the object file `obj` into the executable `out_exe`.
///
/// * macOS: the platform linker `ld` with the architecture, the platform version as
///   minimum and as current version, the SDK as library root, the entry symbol `_main`,
///   the object file and the system library.
/// * Linux: `gcc` if it was found, else `ld.lld` where it was found, else `ld`; with the
///   object file and the C library.
/// * Windows: `link.exe` with the object file and the import libraries of the C runtime.
pub fn link_exe(host: Host, probes: &Probes, obj: &str, out_exe: &str) -> (command: LinkCommand)
    ensures
        command@ == link_spec(host, *probes, obj@, out_exe@),
{
    match host {
        Host::MacOs => {
            let version = platform_version(probes.product_version.as_str());
            let mut args: Vec<String> = Vec::new();
            args.push(String::from_str("-o"));
            args.push(String::from_str(out_exe));
            args.push(String::from_str("-arch"));
            args.push(
                if probes.arm64 {
                    String::from_str("arm64")
                } else {
                    String::from_str("x86_64")
                },
            );
            args.push(String::from_str("-platform_version"));
            args.push(String::from_str("macos"));
            args.push(version.clone());
            args.push(version);
            args.push(String::from_str("-syslibroot"));
            args.push(trimmed(probes.sdk_path.as_str()));
            args.push(String::from_str("-e"));
            args.push(String::from_str("_main"));
            args.push(String::from_str(obj));
            args.push(String::from_str("-lSystem"));
            let command = LinkCommand { program: String::from_str("ld"), args };
            assert(command@.args =~= link_spec(host, *probes, obj@, out_exe@).args);
            command
        },
        Host::Linux => {
            let program = if probes.gcc {
                String::from_str("gcc")
            } else {
                match &probes.lld {
                    Some(path) => path.clone(),
                    None => String::from_str("ld"),
                }
            };
            let mut args: Vec<String> = Vec::new();
            args.push(String::from_str(obj));
            args.push(String::from_str("-o"));
            args.push(String::from_str(out_exe));
            args.push(String::from_str("-lc"));
            let command = LinkCommand { program, args };
            assert(command@.args =~= link_spec(host, *probes, obj@, out_exe@).args);
            command
        },
        Host::Windows => {
            let mut args: Vec<String> = Vec::new();
            args.push(String::from_str(obj));
            args.push(String::from_str("/OUT:").concat(out_exe));
            args.push(String::from_str("msvcrt.lib"));
            args.push(String::from_str("legacy_stdio_definitions.lib"));
            let command = LinkCommand { program: String::from_str("link.exe"), args };
            assert(command@.args =~= link_spec(host, *probes, obj@, out_exe@).args);
            command
        },
    }
}

/// What the end of the command of `link_exe` means.
pub fn link_outcome(host: Host, probes: &Probes, success: bool) -> (r: Result<(), LinkError>)
    ensures
        r == outcome_spec(host, *probes, success),
{
    if success {
        return Ok(());
    }
    Err(
        match host {
            Host::MacOs => LinkError::LdFailed,
            Host::Linux => if probes.gcc {
                LinkError::GccFailed
            } else {
                LinkError::LdFailed
            },
            Host::Windows => LinkError::LinkExeFailed,
        },
    )
}

} // verus!
