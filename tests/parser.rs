use depot::krate::{Krate, KrateInfo, Krates, Tags};
use depot::lexer::{alphanumeric1_with_hyphen, identifier, ws, ws2};
use depot::listing::{parse_binary, parse_ver};
use depot::version::Version;

#[test]
fn parse_krates() {
    let s1 = r#"depot-rs v0.1.0:
        depot
        depot-rs
foo v0.1.0:
    foo"#;

    let s2 = r#"depot-rs v0.1.0:
        depot
        depot-rs"#;

    let s3 = r#"uv v0.6.16 (https://github.com/astral-sh/uv#43e5a6ef):
    uv
    uvx"#;

    assert_eq!(
        Krates::parse(s1).unwrap().1,
        Krates(vec![
            Krate {
                name: "depot-rs".to_string(),
                version: Version::parse("0.1.0").unwrap().1,
                binaries: vec!["depot".to_string(), "depot-rs".to_string()],
                ..Default::default()
            },
            Krate {
                name: "foo".to_string(),
                version: Version::parse("0.1.0").unwrap().1,
                binaries: vec!["foo".to_string()],
                ..Default::default()
            }
        ])
    );

    assert_eq!(
        Krates::parse(s2).unwrap().1,
        Krates(vec![Krate {
            name: "depot-rs".to_string(),
            version: Version::parse("0.1.0").unwrap().1,
            binaries: vec!["depot".to_string(), "depot-rs".to_string()],
            ..Default::default()
        },])
    );

    assert_eq!(
        Krates::parse(s3).unwrap().1,
        Krates(vec![Krate {
            name: "uv".to_string(),
            version: Version::parse("0.6.16").unwrap().1,
            binaries: vec!["uv".to_string(), "uvx".to_string()],
            ..Default::default()
        },])
    );
}

#[test]
fn parse_empty_krates() {
    let s = "";
    assert_eq!(Krates::parse(s).unwrap().1, Krates(vec![]))
}

#[test]
fn parse_krate() {
    let s1 = r#"depot-rs v0.1.0:
        depot
        depot-rs
            "#;

    let s2 = r#"depot-rs 0.1.0:
        depot
            "#;
    let s3 = "depot-rs v0.1.0:";

    let s4 = r#"
        depot-rs v0.1.0:
        depot
        depot-rs
            "#;

    assert_eq!(
        Krate::parse(s1).unwrap().1,
        Krate {
            name: "depot-rs".to_string(),
            version: Version::parse("0.1.0").unwrap().1,
            binaries: vec!["depot".to_string(), "depot-rs".to_string()],
            ..Default::default()
        }
    );

    assert!(Krate::parse(s2).is_err(),);
    assert!(Krate::parse(s3).is_err(),);
    assert!(Krate::parse(s4).is_err(),);
}

#[test]
fn parse_krate_version() {
    let s = " fooo foooo fooooo cargo-thesaurust v0.1.2:";

    assert_eq!(
        parse_ver(s, "cargo-thesaurust").unwrap().1,
        Version::parse("0.1.2").unwrap().1
    )
}

#[test]
fn parse_single_binary() {
    assert_eq!(parse_binary("\tdepot-rs").unwrap().1, "depot-rs")
}

#[test]
fn parse_tags() {
    assert_eq!(
        Tags::parse("#foo #bar #baz").unwrap().1,
        Tags(vec![
            "foo".to_string(),
            "bar".to_string(),
            "baz".to_string()
        ])
    );
}

#[test]
fn parse_krate_info() {
    let output = r#"cargo-thesaurust #ratatui #dictionary #tui #terminal #thesaurus
        A terminal-based dictionary app.
        version: 0.1.2
        license: MIT
        rust-version: unknown
        documentation: https://docs.rs/cargo-thesaurust/0.1.2
        homepage: https://moreenh.me/pages/projects/cargo-thesaurust
        repository: https://github.com/quietpigeon/cargo-thesaurust
        crates.io: https://crates.io/crates/cargo-thesaurust/0.1.2
        "#;

    assert_eq!(
        KrateInfo::parse(output).unwrap().1,
        KrateInfo {
            description: Some("A terminal-based dictionary app.".to_string()),
            tags: Some(Tags(vec![
                "ratatui".to_string(),
                "dictionary".to_string(),
                "tui".to_string(),
                "terminal".to_string(),
                "thesaurus".to_string()
            ])),
            latest_version: Some(Version { major: 0, minor: 1, patch: 2 }),
            license: Some("MIT".to_string()),
            rust_version: None,
            documentation: Some("https://docs.rs/cargo-thesaurust/0.1.2".to_string()),
            homepage: Some("https://moreenh.me/pages/projects/cargo-thesaurust".to_string()),
            repository: Some("https://github.com/quietpigeon/cargo-thesaurust".to_string()),
            crates_io: Some("https://crates.io/crates/cargo-thesaurust/0.1.2".to_string()),
            synced: true
        }
    )
}

#[test]
fn parse_krate_info_no_tags() {
    let output = r#"cargo-thesaurust
        A terminal-based dictionary app.
        version: 0.1.2
        license: MIT
        rust-version: unknown
        documentation: https://docs.rs/cargo-thesaurust/0.1.2
        homepage: https://moreenh.me/pages/projects/cargo-thesaurust
        repository: https://github.com/quietpigeon/cargo-thesaurust
        crates.io: https://crates.io/crates/cargo-thesaurust/0.1.2
        "#;

    assert_eq!(
        KrateInfo::parse(output).unwrap().1,
        KrateInfo {
            tags: Some(Tags(vec![])),
            description: Some("A terminal-based dictionary app.".to_string()),
            latest_version: Some(Version { major: 0, minor: 1, patch: 2 }),
            license: Some("MIT".to_string()),
            rust_version: None,
            documentation: Some("https://docs.rs/cargo-thesaurust/0.1.2".to_string()),
            homepage: Some("https://moreenh.me/pages/projects/cargo-thesaurust".to_string()),
            repository: Some("https://github.com/quietpigeon/cargo-thesaurust".to_string()),
            crates_io: Some("https://crates.io/crates/cargo-thesaurust/0.1.2".to_string()),
            synced: true
        }
    )
}

#[test]
fn parse_semver() {
    let v = Version::parse("1.12.0").unwrap().1;
    let semver = Version {
        major: 1,
        minor: 12,
        patch: 0,
    };

    assert_eq!(v, semver);
    assert!(Version::parse("1").is_err());
    assert!(Version::parse("1.1").is_err());
}

#[test]
fn parse_hyphenated() {
    assert_eq!(alphanumeric1_with_hyphen("depot-rs").unwrap().1, "depot-rs");
    assert_eq!(alphanumeric1_with_hyphen("depot").unwrap().1, "depot")
}

#[test]
fn parse_alphanumeric1_with_hyphen() {
    assert_eq!(
        alphanumeric1_with_hyphen("hello-world").unwrap().1,
        "hello-world"
    );
    assert_eq!(
        alphanumeric1_with_hyphen("hello-world-world").unwrap().1,
        "hello-world-world"
    );
    assert_eq!(alphanumeric1_with_hyphen("hello").unwrap().1, "hello");
}

#[test]
fn parse_with_ws() {
    assert_eq!(ws("foo", " \nfoo ").unwrap().1, "foo")
}

#[test]
fn parse_with_ws2() {
    assert_eq!(ws2("foo", "   foo\n").unwrap().0, "\n")
}

#[test]
fn identifier_rejects_and_accepts() {
    assert!(!identifier(""));
    assert!(!identifier("-foo"));
    assert!(!identifier("foo-"));
    assert!(!identifier("foo--bar"));
    assert!(identifier("foo"));
    assert!(identifier("foo-bar"));
    assert!(identifier("foo-bar-baz"));
}

#[test]
fn identifier_prefix_stops_before_bad_hyphen() {
    let (rest, id) = alphanumeric1_with_hyphen("foo--bar").unwrap();
    assert_eq!(id, "foo");
    assert_eq!(rest, "--bar");
    assert!(alphanumeric1_with_hyphen("-foo").is_err());
}

#[test]
fn version_components() {
    assert_eq!(
        Version::parse("0.6.16 (x)").unwrap(),
        (" (x)", Version { major: 0, minor: 6, patch: 16 })
    );
    assert!(Version::parse("01.2.3").is_err());
    assert!(Version::parse("4294967296.0.0").is_err());
    assert_eq!(
        Version::parse("4294967295.0.0").unwrap().1,
        Version { major: 4294967295, minor: 0, patch: 0 }
    );
    assert!(Version::parse("1..2").is_err());
}

#[test]
fn version_text_is_decimal() {
    assert_eq!(Version { major: 1, minor: 12, patch: 0 }.text(), "1.12.0");
    assert_eq!(Version { major: 0, minor: 0, patch: 4294967295 }.text(), "0.0.4294967295");
}

#[test]
fn listing_of_two_groups() {
    let s = "depot-rs v0.1.0:\n        depot\n        depot-rs\nfoo v0.1.0:\n    foo\n";
    let (rest, ks) = Krates::parse(s).unwrap();
    assert_eq!(rest, "\n");
    assert_eq!(ks.0.len(), 2);
    assert_eq!(ks.0[0].name, "depot-rs");
    assert_eq!(ks.0[0].binaries, vec!["depot".to_string(), "depot-rs".to_string()]);
    assert_eq!(ks.0[1].name, "foo");
    assert_eq!(ks.0[1].binaries, vec!["foo".to_string()]);
}

#[test]
fn listing_header_without_binaries_fails() {
    assert!(Krates::parse("depot-rs v0.1.0:").is_err());
    let err = Krates::parse("depot-rs v0.1.0:\n    depot\nfoo v0.2.0:\n").unwrap_err();
    assert_eq!(err.offset, 27);
}

#[test]
fn listing_stops_at_other_text() {
    let (rest, ks) = Krates::parse("nothing here").unwrap();
    assert_eq!(rest, "nothing here");
    assert!(ks.0.is_empty());
}

#[test]
fn listing_round_trips() {
    let s = "depot-rs v0.1.0:\n        depot\n        depot-rs\nfoo v1.20.3:\n    foo\n";
    let ks = Krates::parse(s).unwrap().1;
    let text = ks.to_listing();
    assert_eq!(text, "depot-rs v0.1.0:\n    depot\n    depot-rs\nfoo v1.20.3:\n    foo");
    assert_eq!(Krates::parse(text.as_str()).unwrap().1, ks);
}

#[test]
fn detail_with_toolchain_version() {
    let output = "foo\n  Does things.\n  version: 2.0.0\n  license: MIT OR Apache-2.0\n  rust-version: 1.2.0\n";
    let info = KrateInfo::parse(output).unwrap().1;
    assert_eq!(info.rust_version, Some(Version { major: 1, minor: 2, patch: 0 }));
    assert_eq!(info.license, Some("MIT OR Apache-2.0".to_string()));
    assert_eq!(info.description, Some("Does things.".to_string()));
    assert_eq!(info.documentation, None);
    assert_eq!(info.homepage, None);
    assert_eq!(info.repository, None);
    assert_eq!(info.crates_io, None);
    assert_eq!(info.tags, Some(Tags(vec![])));
    assert!(info.synced);
}

#[test]
fn detail_without_version_fails() {
    assert!(KrateInfo::parse("foo\n  Does things.\n  license: MIT\n").is_err());
    assert!(KrateInfo::parse("foo\n  Does things.\n  version: soon\n  license: MIT\n  rust-version: 1.0.0\n").is_err());
    assert!(KrateInfo::parse("").is_err());
}

#[test]
fn detail_skips_missing_optional_fields() {
    let output = "foo #a\n  d\n  version: 0.1.0\n  license: MIT\n  rust-version: unknown\n  repository: https://example.org/foo\n";
    let info = KrateInfo::parse(output).unwrap().1;
    assert_eq!(info.documentation, None);
    assert_eq!(info.homepage, None);
    assert_eq!(info.repository, Some("https://example.org/foo".to_string()));
    assert_eq!(info.tags, Some(Tags(vec!["a".to_string()])));
}

#[test]
fn trimming_wrappers_reject_missing_text() {
    assert!(ws("foo", " \n bar").is_err());
    assert!(ws2("foo", "\nfoo").is_err());
    assert_eq!(ws("foo", "foo \n\tbar").unwrap(), ("bar", "foo"));
}

#[test]
fn pre_release_and_build_parts_are_read_past() {
    assert_eq!(
        Version::parse("1.2.3-beta.1+build.5 rest").unwrap(),
        (" rest", Version { major: 1, minor: 2, patch: 3 })
    );
    let ks = Krates::parse("foo v1.0.0-rc.1:\n    foo\nbar v2.0.0+abc (path):\n    bar").unwrap().1;
    assert_eq!(ks.0[0].version, Version { major: 1, minor: 0, patch: 0 });
    assert_eq!(ks.0[1].version, Version { major: 2, minor: 0, patch: 0 });
    let info = KrateInfo::parse("foo\n  d\n  version: 0.2.0-alpha\n  license: MIT\n  rust-version: 1.80.0\n").unwrap().1;
    assert_eq!(info.latest_version, Some(Version { major: 0, minor: 2, patch: 0 }));
    assert_eq!(info.rust_version, Some(Version { major: 1, minor: 80, patch: 0 }));
}

#[test]
fn detail_failure_positions() {
    assert_eq!(KrateInfo::parse("").unwrap_err().offset, 0);
    assert_eq!(KrateInfo::parse("foo\n  no marker here").unwrap_err().offset, 6);
    let text = "foo\n  d\n  version: x\n";
    assert_eq!(KrateInfo::parse(text).unwrap_err().offset, 19);
    assert_eq!(ws("foo", "  bar").unwrap_err().offset, 2);
    assert_eq!(ws2("foo", "\t bar").unwrap_err().offset, 2);
    assert_eq!(parse_ver("abc", "foo").unwrap_err().offset, 3);
}
