use mini::link::{
    host_of, link_exe, link_outcome, platform_version, Host, LinkCommand, LinkError, Probes,
};

fn probes() -> Probes {
    Probes {
        arm64: false,
        sdk_path: String::new(),
        product_version: String::new(),
        gcc: false,
        lld: None,
    }
}

fn command(program: &str, args: &[&str]) -> LinkCommand {
    LinkCommand {
        program: program.to_string(),
        args: args.iter().map(|a| a.to_string()).collect(),
    }
}

#[test]
fn hosts_by_name() {
    assert_eq!(host_of("macos"), Ok(Host::MacOs));
    assert_eq!(host_of("linux"), Ok(Host::Linux));
    assert_eq!(host_of("windows"), Ok(Host::Windows));
    assert_eq!(host_of("freebsd"), Err(LinkError::UnsupportedHost));
    assert_eq!(host_of("Linux"), Err(LinkError::UnsupportedHost));
    assert_eq!(host_of(""), Err(LinkError::UnsupportedHost));
}

#[test]
fn platform_version_is_major_and_minor() {
    assert_eq!(platform_version("14.5.1\n"), "14.5");
    assert_eq!(platform_version(" 13.0 "), "13.0");
    assert_eq!(platform_version("15"), "15.0");
    assert_eq!(platform_version("15."), "15.");
    assert_eq!(platform_version(""), ".0");
    assert_eq!(platform_version(".7"), ".7");
    assert_eq!(platform_version("10.15.7.1"), "10.15");
}

#[test]
fn macos_links_with_the_platform_linker() {
    let mut found = probes();
    found.arm64 = true;
    found.sdk_path = "/Library/SDKs/MacOSX.sdk\n".to_string();
    found.product_version = "14.5.1\n".to_string();
    assert_eq!(
        link_exe(Host::MacOs, &found, "out.o", "out"),
        command(
            "ld",
            &[
                "-o",
                "out",
                "-arch",
                "arm64",
                "-platform_version",
                "macos",
                "14.5",
                "14.5",
                "-syslibroot",
                "/Library/SDKs/MacOSX.sdk",
                "-e",
                "_main",
                "out.o",
                "-lSystem",
            ]
        )
    );
    found.arm64 = false;
    assert_eq!(link_exe(Host::MacOs, &found, "out.o", "out").args[3], "x86_64");
    assert_eq!(link_outcome(Host::MacOs, &found, false), Err(LinkError::LdFailed));
    assert_eq!(link_outcome(Host::MacOs, &found, true), Ok(()));
}

#[test]
fn linux_prefers_the_compiler_driver() {
    let mut found = probes();
    found.gcc = true;
    found.lld = Some("/usr/bin/ld.lld".to_string());
    assert_eq!(
        link_exe(Host::Linux, &found, "a.o", "a"),
        command("gcc", &["a.o", "-o", "a", "-lc"])
    );
    assert_eq!(link_outcome(Host::Linux, &found, false), Err(LinkError::GccFailed));
    found.gcc = false;
    assert_eq!(
        link_exe(Host::Linux, &found, "a.o", "a"),
        command("/usr/bin/ld.lld", &["a.o", "-o", "a", "-lc"])
    );
    assert_eq!(link_outcome(Host::Linux, &found, false), Err(LinkError::LdFailed));
    found.lld = None;
    assert_eq!(
        link_exe(Host::Linux, &found, "a.o", "a"),
        command("ld", &["a.o", "-o", "a", "-lc"])
    );
    assert_eq!(link_outcome(Host::Linux, &found, false), Err(LinkError::LdFailed));
    assert_eq!(link_outcome(Host::Linux, &found, true), Ok(()));
}

#[test]
fn windows_links_with_the_c_runtime() {
    assert_eq!(
        link_exe(Host::Windows, &probes(), "a.o", "a.exe"),
        command(
            "link.exe",
            &["a.o", "/OUT:a.exe", "msvcrt.lib", "legacy_stdio_definitions.lib"]
        )
    );
    assert_eq!(link_outcome(Host::Windows, &probes(), false), Err(LinkError::LinkExeFailed));
    assert_eq!(link_outcome(Host::Windows, &probes(), true), Ok(()));
}

#[test]
fn link_error_messages() {
    assert_eq!(LinkError::LdFailed.message(), "ld failed");
    assert_eq!(LinkError::GccFailed.message(), "gcc link failed");
    assert_eq!(LinkError::LinkExeFailed.message(), "link.exe failed");
    assert_eq!(
        LinkError::UnsupportedHost.message(),
        "Unsupported OS: this compiler currently supports macOS, Linux, and Windows."
    );
}
