use cc_version::decimal::IntFault;
use cc_version::detect::{version_from_banner, version_from_dump};
use cc_version::{
    cc_version, conclude, detect, get_msvc_version, Component, Error, Family, ParseFault, Query,
    Stream, Version,
};
use std::cell::Cell;

const BANNER: &str = "Microsoft(R) C/C++ Optimizing Compiler Version 19.16.27027.1 for x64
Copyright (C) Microsoft Corporation.  All rights reserved.";

fn numbers(version: &Version) -> (usize, Option<usize>, Option<usize>) {
    (version.major, version.minor, version.patch)
}

#[test]
fn msvc_version() {
    let version = get_msvc_version(
        "Microsoft(R) C/C++ Optimizing Compiler Version 19.16.27027.1 for x64
Copyright (C) Microsoft Corporation.  All rights reserved.",
    )
    .unwrap();
    assert_eq!(version, "19.16.27027.1");

    let version = Version::parse(&version).unwrap();
    assert_eq!(version.major, 19);
    assert_eq!(version.minor, Some(16));
    assert_eq!(version.patch, Some(27027));
}

#[test]
fn banner_without_a_marker_is_not_recognized() {
    assert!(matches!(get_msvc_version(""), Err(Error::BannerNotRecognized)));
    assert!(matches!(get_msvc_version("cl 19.16 for x64"), Err(Error::BannerNotRecognized)));
    assert!(matches!(get_msvc_version("Version 19.16"), Err(Error::BannerNotRecognized)));
    assert!(matches!(get_msvc_version("version 19.16 for x64"), Err(Error::BannerNotRecognized)));
}

#[test]
fn banner_with_the_markers_out_of_order_is_not_recognized() {
    assert!(matches!(get_msvc_version("cl for x64 Version 19.16"), Err(Error::BannerNotRecognized)));
    assert!(matches!(get_msvc_version("Version for x64"), Err(Error::BannerNotRecognized)));
}

#[test]
fn banner_version_lies_between_the_first_markers() {
    assert_eq!(get_msvc_version("Version  for ").unwrap(), "");
    assert_eq!(get_msvc_version("Version 1 for 2 for 3").unwrap(), "1");
    assert_eq!(get_msvc_version("Version a Version b for c").unwrap(), "a Version b");
    assert_eq!(get_msvc_version("Compilateur Version 19.0 \u{e9} for x86").unwrap(), "19.0 \u{e9}");
    assert_eq!(get_msvc_version("xVersion  19.1  for ").unwrap(), " 19.1 ");
}

#[test]
fn banner_text_is_trimmed_and_parsed() {
    let version = version_from_banner(BANNER).unwrap();
    assert_eq!(numbers(&version), (19, Some(16), Some(27027)));
    let version = version_from_banner("Version \t 14.2 \r\n for x86").unwrap();
    assert_eq!(numbers(&version), (14, Some(2), None));
    assert!(matches!(
        version_from_banner("Version  for x86"),
        Err(Error::ParseFailed(ParseFault { component: Component::Major, kind: IntFault::Empty }))
    ));
    assert!(matches!(version_from_banner("no banner"), Err(Error::BannerNotRecognized)));
}

#[test]
fn dump_text_is_trimmed_and_parsed() {
    let version = version_from_dump("11.2.0\n").unwrap();
    assert_eq!(numbers(&version), (11, Some(2), Some(0)));
    assert_eq!(version.to_string(), "11.2.0");
    let version = version_from_dump(" \t\u{a0}\u{3000}9\u{2028}\r\n").unwrap();
    assert_eq!(numbers(&version), (9, None, None));
    assert!(matches!(
        version_from_dump("11 .2"),
        Err(Error::ParseFailed(ParseFault {
            component: Component::Major,
            kind: IntFault::InvalidDigit
        }))
    ));
    assert!(matches!(
        version_from_dump(" \n"),
        Err(Error::ParseFailed(ParseFault { component: Component::Major, kind: IntFault::Empty }))
    ));
}

#[test]
fn family_is_the_first_that_is_affirmed() {
    assert_eq!(Family::from_flags(true, false, false), Family::Gnu);
    assert_eq!(Family::from_flags(false, true, false), Family::Clang);
    assert_eq!(Family::from_flags(false, false, true), Family::Msvc);
    assert_eq!(Family::from_flags(false, false, false), Family::Unknown);
    assert_eq!(Family::from_flags(true, true, true), Family::Gnu);
    assert_eq!(Family::from_flags(false, true, true), Family::Clang);
}

#[test]
fn unknown_family_has_no_query() {
    assert!(matches!(Query::of(Family::Unknown), Err(Error::UnknownCompiler)));
}

#[test]
fn each_known_family_has_its_query() {
    assert_eq!(Query::of(Family::Gnu).unwrap(), Query::DumpVersion);
    assert_eq!(Query::of(Family::Clang).unwrap(), Query::DumpVersion);
    assert_eq!(Query::of(Family::Msvc).unwrap(), Query::Banner);
}

#[test]
fn queries_name_their_command() {
    assert_eq!(Query::DumpVersion.program(), None);
    assert_eq!(Query::DumpVersion.argument(), Some("-dumpversion"));
    assert_eq!(Query::DumpVersion.stream(), Stream::Stdout);
    assert_eq!(Query::Banner.program(), Some("cl"));
    assert_eq!(Query::Banner.argument(), None);
    assert_eq!(Query::Banner.stream(), Stream::Stderr);
}

#[test]
fn conclude_hands_on_the_error_of_the_process() {
    let fault = std::io::Error::new(std::io::ErrorKind::NotFound, "no such compiler");
    match conclude(Query::DumpVersion, Err(fault)) {
        Err(Error::CommandFailed(e)) => {
            assert_eq!(e.kind(), std::io::ErrorKind::NotFound);
            assert_eq!(e.to_string(), "no such compiler");
        }
        other => panic!("expected the error of the process, got {:?}", other),
    }
    let fault = std::io::Error::from(std::io::ErrorKind::PermissionDenied);
    assert!(matches!(conclude(Query::Banner, Err(fault)), Err(Error::CommandFailed(_))));
}

#[test]
fn conclude_reads_the_dumped_version() {
    let version = conclude(Query::DumpVersion, Ok(b"11.2.0\n".to_vec())).unwrap();
    assert_eq!(numbers(&version), (11, Some(2), Some(0)));
    let version = conclude(Query::DumpVersion, Ok(b"  14\r\n".to_vec())).unwrap();
    assert_eq!(numbers(&version), (14, None, None));
}

#[test]
fn conclude_reads_the_banner() {
    let version = conclude(Query::Banner, Ok(BANNER.as_bytes().to_vec())).unwrap();
    assert_eq!(numbers(&version), (19, Some(16), Some(27027)));
    assert!(matches!(
        conclude(Query::Banner, Ok(b"11.2.0\n".to_vec())),
        Err(Error::BannerNotRecognized)
    ));
    assert!(matches!(conclude(Query::Banner, Ok(Vec::new())), Err(Error::BannerNotRecognized)));
}

#[test]
fn conclude_replaces_malformed_bytes() {
    let version = conclude(Query::DumpVersion, Ok(vec![0x20, 0x37, 0x2e, 0x35, 0x0a])).unwrap();
    assert_eq!(numbers(&version), (7, Some(5), None));
    assert!(matches!(
        conclude(Query::DumpVersion, Ok(vec![0x37, 0xff, 0x2e, 0x35])),
        Err(Error::ParseFailed(ParseFault {
            component: Component::Major,
            kind: IntFault::InvalidDigit
        }))
    ));
    let mut banner = b"Compilateur \xe9 Version 19.29.30133 for x86".to_vec();
    let version = conclude(Query::Banner, Ok(banner.clone())).unwrap();
    assert_eq!(numbers(&version), (19, Some(29), Some(30133)));
    banner.truncate(20);
    assert!(matches!(conclude(Query::Banner, Ok(banner)), Err(Error::BannerNotRecognized)));
}

fn tool_named(name: &str) -> cc::Tool {
    let mut build = cc::Build::new();
    build
        .target("x86_64-unknown-linux-gnu")
        .host("x86_64-unknown-linux-gnu")
        .opt_level(0)
        .debug(false)
        .cargo_metadata(false)
        .compiler(format!("/no/such/directory/{}", name));
    build.try_get_compiler().unwrap()
}

#[test]
fn family_of_a_tool_follows_its_predicates() {
    for (name, family) in
        [("x86_64-linux-gnu-gcc", Family::Gnu), ("clang", Family::Clang), ("cl.exe", Family::Msvc)]
    {
        let tool = tool_named(name);
        let expected =
            Family::from_flags(tool.is_like_gnu(), tool.is_like_clang(), tool.is_like_msvc());
        assert_eq!(Family::of(&tool), expected);
        assert_eq!(Family::of(&tool), family);
    }
}

#[test]
fn detect_runs_nothing_for_an_unknown_family() {
    let runs = Cell::new(0);
    let result = detect(Family::Unknown, |_| {
        runs.set(runs.get() + 1);
        Ok(b"11.2.0".to_vec())
    });
    assert!(matches!(result, Err(Error::UnknownCompiler)));
    assert_eq!(runs.get(), 0);
}

#[test]
fn detect_runs_the_query_of_the_family_once() {
    for family in [Family::Gnu, Family::Clang] {
        let runs = Cell::new(0);
        let version = detect(family, |query| {
            runs.set(runs.get() + 1);
            assert_eq!(query, Query::DumpVersion);
            Ok(b"11.2.0\n".to_vec())
        })
        .unwrap();
        assert_eq!(numbers(&version), (11, Some(2), Some(0)));
        assert_eq!(runs.get(), 1);
    }
    let runs = Cell::new(0);
    let version = detect(Family::Msvc, |query| {
        runs.set(runs.get() + 1);
        assert_eq!(query, Query::Banner);
        Ok(BANNER.as_bytes().to_vec())
    })
    .unwrap();
    assert_eq!(numbers(&version), (19, Some(16), Some(27027)));
    assert_eq!(runs.get(), 1);
}

#[test]
fn detect_hands_on_the_failure_to_run() {
    let result = detect(Family::Gnu, |_| {
        Err(std::io::Error::new(std::io::ErrorKind::NotFound, "no such compiler"))
    });
    match result {
        Err(Error::CommandFailed(e)) => assert_eq!(e.kind(), std::io::ErrorKind::NotFound),
        other => panic!("expected the error of the process, got {:?}", other),
    }
    let result = detect(Family::Clang, |_| Ok(b"clang version 15".to_vec()));
    assert!(matches!(
        result,
        Err(Error::ParseFailed(ParseFault {
            component: Component::Major,
            kind: IntFault::InvalidDigit
        }))
    ));
    let result = detect(Family::Msvc, |_| Ok(b"usage: cl".to_vec()));
    assert!(matches!(result, Err(Error::BannerNotRecognized)));
}

#[test]
fn cc_version_asks_a_tool_of_cc() {
    for (name, expected) in [
        ("x86_64-linux-gnu-gcc", Query::DumpVersion),
        ("clang", Query::DumpVersion),
        ("cl.exe", Query::Banner),
    ] {
        let tool = tool_named(name);
        let runs = Cell::new(0);
        let result = cc_version(&tool, |query| {
            runs.set(runs.get() + 1);
            assert_eq!(query, expected);
            match query {
                Query::DumpVersion => Ok(b"12.1\n".to_vec()),
                Query::Banner => Ok(b"Compiler Version 19.3 for x64".to_vec()),
            }
        });
        let version = result.unwrap();
        match expected {
            Query::DumpVersion => assert_eq!(numbers(&version), (12, Some(1), None)),
            Query::Banner => assert_eq!(numbers(&version), (19, Some(3), None)),
        }
        assert_eq!(runs.get(), 1);
    }
}

#[test]
fn white_space_is_what_the_standard_library_takes_for_it() {
    let listed = [
        '\u{9}', '\u{a}', '\u{b}', '\u{c}', '\u{d}', ' ', '\u{85}', '\u{a0}', '\u{1680}',
        '\u{2000}', '\u{2001}', '\u{2002}', '\u{2003}', '\u{2004}', '\u{2005}', '\u{2006}',
        '\u{2007}', '\u{2008}', '\u{2009}', '\u{200a}', '\u{2028}', '\u{2029}', '\u{202f}',
        '\u{205f}', '\u{3000}',
    ];
    let mut text = String::new();
    for code in 0..=0x10ffffu32 {
        let Some(c) = char::from_u32(code) else { continue };
        assert_eq!(c.is_whitespace(), listed.contains(&c), "on U+{:04X}", code);
        if c.is_ascii_digit() {
            continue;
        }
        text.clear();
        text.push(c);
        text.push('7');
        text.push(c);
        assert_eq!(version_from_dump(&text).is_ok(), listed.contains(&c), "on U+{:04X}", code);
    }
}

#[test]
fn dump_of_a_written_version_reads_back() {
    for version in [
        Version { major: 0, minor: None, patch: None },
        Version { major: 11, minor: Some(2), patch: None },
        Version { major: 11, minor: Some(2), patch: Some(0) },
    ] {
        let text = format!(" \t{}\r\n", version.to_string());
        let back = version_from_dump(&text).unwrap();
        assert_eq!(numbers(&back), numbers(&version));
        let back = conclude(Query::DumpVersion, Ok(text.into_bytes())).unwrap();
        assert_eq!(numbers(&back), numbers(&version));
    }
}
