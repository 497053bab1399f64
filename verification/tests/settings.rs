use mktool::context::{DeclaredDependency, DependencyKind, PackageAdmin, ValidationContext};
use mktool::settings::{
    parse_command, parse_depends, parse_list, parse_patterns, parse_system_paths, ConfigError,
    Settings,
};

fn settings() -> Settings {
    Settings {
        destdir: "/destdir".to_string(),
        cross_destdir: String::new(),
        wrkdir: "/wrk".to_string(),
        pkg_admin_cmd: "/usr/sbin/pkg_admin -K /var/db/pkg".to_string(),
        depends: "full libfoo>=1.0 libfoo-1.2\nbuild gmake-[0-9]* gmake-4.4\nindirect-full zlib zlib-1.3\n"
            .to_string(),
        platform_rpath: Some("/lib:/usr/lib".to_string()),
        check_shlibs_toxic: Some("^/usr/lib/libssl  libtoxic".to_string()),
        check_wrkref_extra_dirs: Some("/tmp/work /var/tmp".to_string()),
        skip_system_libs: true,
    }
}

fn dep(kind: DependencyKind, pattern: &str, package: &str) -> DeclaredDependency {
    DeclaredDependency { kind, pattern: pattern.to_string(), package: package.to_string() }
}

#[test]
fn settings_configure_a_context() {
    let ctx = match ValidationContext::from_settings(&settings()) {
        Ok(ctx) => ctx,
        Err(e) => panic!("{:?}", e),
    };
    assert_eq!(ctx.cross_destdir, None);
    assert_eq!(ctx.destdir, "/destdir");
    assert_eq!(ctx.system_paths, vec!["/lib", "/usr/lib"]);
    assert_eq!(ctx.wrkdir, "/wrk");
    assert_eq!(ctx.extra_wrkref_dirs, vec!["/tmp/work", "/var/tmp"]);
    let sources: Vec<&str> = ctx.toxic_patterns.iter().map(|p| p.as_str()).collect();
    assert_eq!(sources, vec!["^/usr/lib/libssl", "libtoxic"]);
    assert_eq!(
        ctx.declared_dependencies,
        vec![
            dep(DependencyKind::Full, "libfoo>=1.0", "libfoo-1.2"),
            dep(DependencyKind::Other("build".to_string()), "gmake-[0-9]*", "gmake-4.4"),
            dep(DependencyKind::IndirectFull, "zlib", "zlib-1.3"),
        ]
    );
    assert_eq!(
        ctx.package_admin,
        PackageAdmin {
            command: "/usr/sbin/pkg_admin".to_string(),
            args: vec!["-K".to_string(), "/var/db/pkg".to_string()],
        }
    );
    assert!(ctx.skip_system_libs);
}

#[test]
fn optional_settings_may_be_absent() {
    let mut s = settings();
    s.platform_rpath = None;
    s.check_shlibs_toxic = None;
    s.check_wrkref_extra_dirs = None;
    s.depends = String::new();
    s.skip_system_libs = false;
    let ctx = ValidationContext::from_settings(&s).ok().unwrap();
    assert!(ctx.system_paths.is_empty());
    assert!(ctx.toxic_patterns.is_empty());
    assert!(ctx.extra_wrkref_dirs.is_empty());
    assert!(ctx.declared_dependencies.is_empty());
    assert!(!ctx.skip_system_libs);
}

#[test]
fn cross_root_goes_in_front_of_system_directories() {
    let mut s = settings();
    s.cross_destdir = "/cross".to_string();
    s.platform_rpath = Some("lib:usr/lib".to_string());
    let ctx = ValidationContext::from_settings(&s).ok().unwrap();
    assert_eq!(ctx.cross_destdir, Some("/cross".to_string()));
    assert_eq!(ctx.system_paths, vec!["/cross/lib", "/cross/usr/lib"]);
    assert_eq!(
        parse_system_paths(&Some("/cross".to_string()), &Some("/lib:rel:".to_string())),
        vec!["/cross/lib", "/cross/rel", "/cross/"]
    );
    s.platform_rpath = Some("/lib:/usr/lib".to_string());
    let ctx = ValidationContext::from_settings(&s).ok().unwrap();
    assert_eq!(ctx.system_paths, vec!["/cross/lib", "/cross/usr/lib"]);
    assert_eq!(parse_system_paths(&None, &Some(String::new())), vec![""]);
    assert_eq!(parse_system_paths(&Some("/cross".to_string()), &None), Vec::<String>::new());
}

#[test]
fn command_without_a_word_is_malformed() {
    let mut s = settings();
    s.pkg_admin_cmd = "  \t ".to_string();
    s.depends = "bad line".to_string();
    assert_eq!(ValidationContext::from_settings(&s).err(), Some(ConfigError::MalformedCommand));
    assert_eq!(parse_command(""), None);
    assert_eq!(
        parse_command(" pkg_admin "),
        Some(PackageAdmin { command: "pkg_admin".to_string(), args: vec![] })
    );
}

#[test]
fn manifest_line_must_hold_three_words() {
    let mut s = settings();
    s.depends = "full a a-1\nbuild b\nfull c c-1 extra\n".to_string();
    s.check_shlibs_toxic = Some("(".to_string());
    assert_eq!(ValidationContext::from_settings(&s).err(), Some(ConfigError::BadDependsLine(1)));
    assert_eq!(parse_depends("full a a-1\n\nfull b b-1\n").err(), Some(1));
    assert_eq!(parse_depends("one two three four").err(), Some(0));
    assert_eq!(parse_depends("").ok(), Some(vec![]));
    assert_eq!(
        parse_depends("  weird\tp   q-1  ").ok(),
        Some(vec![dep(DependencyKind::Other("weird".to_string()), "p", "q-1")])
    );
}

#[test]
fn toxic_pattern_of_settings_must_compile() {
    let mut s = settings();
    s.check_shlibs_toxic = Some("fine a(b also-fine".to_string());
    assert_eq!(ValidationContext::from_settings(&s).err(), Some(ConfigError::BadToxicPattern(1)));
    assert_eq!(parse_patterns(&Some("[a-".to_string())).err(), Some(0));
    assert_eq!(parse_patterns(&Some("   ".to_string())).ok().map(|v| v.len()), Some(0));
    assert_eq!(parse_patterns(&None).ok().map(|v| v.len()), Some(0));
}

#[test]
fn lists_are_split_at_white_space() {
    assert_eq!(parse_list(&None), Vec::<String>::new());
    assert_eq!(parse_list(&Some(" /a  /b\n/c ".to_string())), vec!["/a", "/b", "/c"]);
}

#[test]
fn kinds_are_read_from_their_words() {
    assert_eq!(DependencyKind::from_word("full"), DependencyKind::Full);
    assert_eq!(DependencyKind::from_word("indirect-full"), DependencyKind::IndirectFull);
    assert_eq!(DependencyKind::from_word("Full"), DependencyKind::Other("Full".to_string()));
    assert_eq!(DependencyKind::from_word(""), DependencyKind::Other(String::new()));
    assert!(DependencyKind::Full.is_runtime());
    assert!(DependencyKind::IndirectFull.is_runtime());
    assert!(!DependencyKind::Other("full".to_string()).is_runtime());
}
