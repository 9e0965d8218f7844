use safelang::concurrency::ChannelError;
use safelang::concurrency::MutexError;
use safelang::concurrency::RwLockError;
use safelang::concurrency::ThreadError;
use safelang::concurrency::ThreadPoolError;
use safelang::driver::CompilerOptions;
use safelang::json::JsonParser;
use safelang::package::Dependency;
use safelang::package::Package;
use safelang::package::PackageError;
use safelang::package::PackageManager;
use safelang::path::SafePath;
use safelang::platform;
use safelang::profile::Profiler;
use safelang::simd::SimdVector;
use safelang::strutil;
use safelang::xml::XmlError;
use safelang::xml::XmlParser;

#[test]
fn test_safe_path_join_and_queries() {
    let base = SafePath::new("/usr/lib");
    assert!(base.is_absolute());
    assert_eq!(base.join("safelang").to_string(), "/usr/lib/safelang");
    assert_eq!(base.join("/etc").to_string(), "/etc");
    let relative = SafePath::new("docs/");
    assert!(!relative.is_absolute());
    assert_eq!(relative.join("guide.md").to_string(), "docs/guide.md");
    assert_eq!(SafePath::new("").join("a").to_string(), "a");
    assert_eq!(base.normalize().to_string(), "/usr/lib");
    assert_eq!(SafePath::platform_separator(), "/");
}

#[test]
fn test_platform_constants() {
    assert_eq!(platform::get_platform_name(), "linux");
    assert_eq!(platform::line_ending(), "\n");
    assert_eq!(platform::platform_path_separator(), "/");
}

#[test]
fn test_simd_vector() {
    let mut v: SimdVector<i64> = SimdVector::new(8);
    assert_eq!(v.len(), 0);
    v.push(3);
    v.push(4);
    assert_eq!(v.len(), 2);
}

#[test]
fn test_decimal_rendering() {
    assert_eq!(strutil::usize_to_string(0), "0");
    assert_eq!(strutil::usize_to_string(7), "7");
    assert_eq!(strutil::usize_to_string(42), "42");
    assert_eq!(strutil::usize_to_string(90210), "90210");
    assert_eq!(strutil::usize_to_padded_string(3, 4), "   3");
    assert_eq!(strutil::usize_to_padded_string(12345, 4), "12345");
}

#[test]
fn test_string_order() {
    assert!(strutil::str_lt("abc", "abd"));
    assert!(strutil::str_lt("ab", "abc"));
    assert!(!strutil::str_lt("abc", "abc"));
    assert!(!strutil::str_lt("b", "ab"));
    assert!(strutil::str_eq("same", "same"));
    assert!(!strutil::str_eq("same", "sameish"));
}

#[test]
fn test_line_lookup() {
    assert_eq!(strutil::nth_line("one\ntwo\nthree", 1), Some("two".to_string()));
    assert_eq!(strutil::nth_line("one\ntwo\n", 1), Some("two".to_string()));
    assert_eq!(strutil::nth_line("one\r\ntwo", 0), Some("one".to_string()));
    assert_eq!(strutil::nth_line("one", 1), None);
    assert_eq!(strutil::nth_line("", 0), None);
}

#[test]
fn test_package_manager_records() {
    let mut manager = PackageManager::new("https://registry.safelang.org", "/tmp/cache");
    assert_eq!(manager.installed_version("json"), None);
    manager.install("json", "1.2.0").unwrap();
    assert_eq!(
        manager.installed_version("json"),
        Some(&"1.2.0".to_string())
    );
    manager.install("json", "1.3.0").unwrap();
    assert_eq!(
        manager.installed_version("json"),
        Some(&"1.3.0".to_string())
    );
    assert_eq!(manager.installed_count_label(), "installed packages: 1");
}

#[test]
fn test_resolve_dependencies_shallow() {
    let manager = PackageManager::new("https://registry.safelang.org", "/tmp/cache");
    let package = Package {
        name: "app".to_string(),
        version: "0.1.0".to_string(),
        dependencies: vec![
            Dependency {
                name: "json".to_string(),
                version_req: "1".to_string(),
            },
            Dependency {
                name: "http".to_string(),
                version_req: "2".to_string(),
            },
        ],
    };
    let resolved = manager.resolve_dependencies(&package).unwrap();
    assert_eq!(resolved.len(), 2);
    assert_eq!(resolved[0].name, "json");
    assert_eq!(resolved[1].version, "2");
}

#[test]
fn test_package_error_messages() {
    assert_eq!(
        PackageError::ConfigError("bad toml".to_string()).message(),
        "Configuration error: bad toml"
    );
    assert_eq!(
        PackageError::PackageNotFound("jsonx".to_string()).message(),
        "Package not found: jsonx"
    );
    assert_eq!(
        PackageError::ListError("denied".to_string()).message(),
        "List error: denied"
    );
}

#[test]
fn test_concurrency_error_messages() {
    assert_eq!(ThreadError::JoinError.message(), "Failed to join thread");
    assert_eq!(ThreadError::AlreadyJoined.message(), "Thread already joined");
    assert_eq!(
        ThreadPoolError::SendError.message(),
        "Failed to send job to thread pool"
    );
    assert_eq!(ThreadPoolError::Shutdown.message(), "Thread pool is shut down");
    assert_eq!(MutexError::PoisonError.message(), "Mutex poisoned");
    assert_eq!(RwLockError::PoisonError.message(), "RwLock poisoned");
    assert_eq!(ChannelError::SendError.message(), "Failed to send message");
    assert_eq!(ChannelError::RecvError.message(), "Failed to receive message");
    assert_eq!(ChannelError::TryRecvError.message(), "No message available");
}

#[test]
fn test_compiler_options_default() {
    let options = CompilerOptions::default();
    assert_eq!(options.optimization_level, 0);
    assert!(!options.debug_info);
    assert!(options.fail_on_error);
    assert!(options.emit_warnings);
    assert_eq!(options.target_triple, "x86_64-unknown-linux-gnu");
}

#[test]
fn test_json_round_trip() {
    let parser = JsonParser;
    let value = parser.parse("{\"a\": [1, 2, 3]}").unwrap();
    assert_eq!(parser.stringify(&value), "{\"a\":[1,2,3]}");
    assert!(parser.parse("{not json").is_err());
}

#[test]
fn test_xml_subset() {
    let parser = XmlParser::new();
    let node = parser
        .parse("  <pkg name=\"safelang\" v=\"1\"><dep kind=\"build\"/>hello<dep/></pkg>")
        .unwrap();
    assert_eq!(node.name, "pkg");
    assert_eq!(
        node.attributes,
        vec![
            ("name".to_string(), "safelang".to_string()),
            ("v".to_string(), "1".to_string()),
        ]
    );
    assert_eq!(node.children.len(), 2);
    assert_eq!(node.children[0].name, "dep");
    assert_eq!(node.text, "hello");

    assert_eq!(parser.parse("plain text").unwrap_err(), XmlError::MalformedTag);
    assert_eq!(parser.parse("<open>").unwrap_err(), XmlError::UnexpectedEnd);
    // lenient mode closes the innermost element whatever the tag says
    assert!(parser.parse("<a></b>").is_ok());
}

#[test]
fn test_profiler_sections() {
    let mut profiler = Profiler::new();
    assert_eq!(profiler.report(), "Profiling Report:\n");
    profiler.start_section("parse");
    profiler.start_section("check"); // implicitly closes "parse"
    profiler.end_section();
    profiler.end_section(); // nothing open: no effect
    let report = profiler.report();
    assert!(report.starts_with("Profiling Report:\n"));
    assert!(report.contains("parse: "));
    assert!(report.contains("check: "));
    assert!(report.contains("%)\n"));
}
