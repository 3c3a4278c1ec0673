use lua_flow::glob::is_moderate_pattern;
use lua_flow::loader::{
    both_compiled, get_effective_encoding, is_wanted, loaded_files, read_file_with_encoding,
    text_without_errors, InvalidPattern, LuaFileInfo, WorkspaceLoader,
};

fn bytes(content: &[u8]) -> Vec<u8> {
    content.to_vec()
}

fn patterns(texts: &[&str]) -> Vec<String> {
    texts.iter().map(|t| t.to_string()).collect()
}

#[test]
fn file_info_comes_apart() {
    let info = LuaFileInfo { path: "a.lua".to_string(), content: "return 1".to_string() };
    assert_eq!(info.into_tuple(), ("a.lua".to_string(), Some("return 1".to_string())));
}

#[test]
fn utf8_is_read_without_its_mark() {
    let content = bytes(b"\xEF\xBB\xBFlocal \xC3\xA4");
    assert_eq!(read_file_with_encoding(Some(&content), "utf-8"), Some("local \u{e4}".to_string()));
    let content = bytes(b"plain");
    assert_eq!(read_file_with_encoding(Some(&content), "utf-8"), Some("plain".to_string()));
    let content = bytes(b"bad \xFF");
    assert_eq!(read_file_with_encoding(Some(&content), "utf-8"), None);
    assert_eq!(read_file_with_encoding(None, "utf-8"), None);
}

#[test]
fn labels_choose_the_encoding() {
    let content = bytes(b"\xC4\xE3");
    assert_eq!(read_file_with_encoding(Some(&content), "gbk"), Some("\u{4f60}".to_string()));
    let content = bytes(b"\xE4");
    assert_eq!(read_file_with_encoding(Some(&content), "latin1"), Some("\u{e4}".to_string()));
    let content = bytes(b"\xFF\xFEa\x00");
    assert_eq!(read_file_with_encoding(Some(&content), "utf-16le"), Some("a".to_string()));
    let content = bytes(b"a\x00\x00\xD8");
    assert_eq!(read_file_with_encoding(Some(&content), "utf-16le"), None);
}

#[test]
fn unknown_label_means_utf8() {
    let content = bytes(b"\xEF\xBB\xBF\xC3\xA4");
    let text = read_file_with_encoding(Some(&content), "no such encoding");
    assert_eq!(text, Some("\u{e4}".to_string()));
    let content = bytes(b"\xC3");
    assert_eq!(read_file_with_encoding(Some(&content), "no such encoding"), None);
}

#[test]
fn default_encoding_is_utf8() {
    assert_eq!(get_effective_encoding(None), "utf-8");
    assert_eq!(get_effective_encoding(Some("gbk")), "gbk");
}

#[test]
fn replaced_text_is_no_text() {
    assert_eq!(text_without_errors(("a".to_string(), false)), Some("a".to_string()));
    assert_eq!(text_without_errors(("a".to_string(), true)), None);
}

#[test]
fn invalid_patterns_are_told_apart() {
    let none = patterns(&[]);
    let good = patterns(&["**/*.lua"]);
    let bad = patterns(&["**/a{b"]);
    assert!(WorkspaceLoader::new(&good, &good, None).is_ok());
    for (globs, ignored) in [(&bad, &good), (&bad, &bad), (&bad, &none)] {
        let loader = WorkspaceLoader::new(globs, ignored, None);
        assert!(matches!(loader.err(), Some(InvalidPattern::Include(_))));
    }
    for globs in [&good, &none] {
        let loader = WorkspaceLoader::new(globs, &bad, None);
        assert!(matches!(loader.err(), Some(InvalidPattern::Exclude(_))));
    }
    let failed: Result<u8, u8> = Err(1);
    assert!(matches!(both_compiled(failed, Ok(2)), Err(InvalidPattern::Include(1))));
    assert!(matches!(both_compiled(failed, Err(3)), Err(InvalidPattern::Include(1))));
    assert!(matches!(both_compiled(Ok(2), failed), Err(InvalidPattern::Exclude(1))));
    assert!(matches!(both_compiled::<u8, u8>(Ok(1), Ok(2)), Ok((1, 2))));
}

#[test]
fn invalid_patterns_load_no_files() {
    let good = patterns(&["**/*.lua"]);
    let bad = patterns(&["**/a{b"]);
    assert_eq!(loaded_files(WorkspaceLoader::new(&bad, &good, None)).len(), 0);
    let mut loader = WorkspaceLoader::new(&good, &good, None).ok().unwrap();
    assert!(loader.add_file("a.lua".to_string(), Some(&bytes(b"ok"))));
    let loaded: Result<WorkspaceLoader, u8> = Ok(loader);
    assert_eq!(loaded_files(loaded)[0].path, "a.lua");
}

#[test]
fn wanted_files_are_included_and_not_excluded() {
    assert!(is_wanted(&vec![], false, true));
    assert!(is_wanted(&vec![false, false], false, true));
    assert!(!is_wanted(&vec![false, true], false, true));
    assert!(!is_wanted(&vec![], true, true));
    assert!(!is_wanted(&vec![], false, false));
}

#[test]
fn loader_goes_by_its_patterns() {
    let include_pattern = patterns(&["**/*.lua", "**/*.luau"]);
    let exclude_pattern = patterns(&["**/gen/**"]);
    let loader = WorkspaceLoader::new(&include_pattern, &exclude_pattern, None).unwrap();
    assert!(loader.wants(&vec![], "src/a.lua"));
    assert!(loader.wants(&vec![false], "a.luau"));
    assert!(!loader.wants(&vec![], "src/a.txt"));
    assert!(!loader.wants(&vec![], "src/gen/a.lua"));
    assert!(!loader.wants(&vec![true], "src/a.lua"));
}

#[test]
fn loader_keeps_what_it_can_decode() {
    let include_pattern = patterns(&["**/*.lua"]);
    let exclude_pattern = patterns(&[]);
    let mut loader =
        WorkspaceLoader::new(&include_pattern, &exclude_pattern, Some("gbk")).unwrap();
    assert!(loader.add_file("a.lua".to_string(), Some(&bytes(b"\xC4\xE3"))));
    assert!(!loader.add_file("b.lua".to_string(), None));
    assert!(!loader.add_file("c.lua".to_string(), Some(&bytes(b"\xFF\xFF"))));
    assert!(loader.add_file("d.lua".to_string(), Some(&bytes(b"ok"))));
    let files = loader.into_files();
    let loaded: Vec<(String, Option<String>)> = files.into_iter().map(|f| f.into_tuple()).collect();
    assert_eq!(
        loaded,
        vec![
            ("a.lua".to_string(), Some("\u{4f60}".to_string())),
            ("d.lua".to_string(), Some("ok".to_string())),
        ]
    );
}

/// `depth` repetitions that stand one in another, each with `before` and `after` inside it.
fn nested(depth: usize, before: &str, after: &str) -> String {
    format!("{}a{}", format!("<{}", before).repeat(depth), format!("{}>", after).repeat(depth))
}

/// The largest moderate pattern of a series.
fn largest_moderate(series: impl Fn(usize) -> String) -> (usize, String) {
    let mut n: usize = 1;
    while is_moderate_pattern(&series(n + 1)) {
        n += 1;
    }
    (n, series(n))
}

#[test]
fn patterns_are_moderate_unless_they_nest_or_repeat_a_lot() {
    assert!(is_moderate_pattern(""));
    assert!(is_moderate_pattern("**/*.{lua,txt}"));
    assert!(is_moderate_pattern("20240102030405.lua"));
    assert!(is_moderate_pattern(&"a".repeat(2000)));
    // Groups count where they stand one in another, with the levels that each of them needs.
    assert!(is_moderate_pattern(&"{a,b}".repeat(200)));
    assert!(is_moderate_pattern(&"<a>".repeat(200)));
    let braces = |n: usize| format!("{}a{}", "{".repeat(n), "}".repeat(n));
    assert_eq!(largest_moderate(braces).0, 122);
    let choices = |n: usize| format!("{}a{}", "{b,".repeat(n), "}".repeat(n));
    assert_eq!(largest_moderate(choices).0, 81);
    assert_eq!(largest_moderate(|n| nested(n, "", "")).0, 81);
    assert!(!is_moderate_pattern(&"{".repeat(124)));
    // Repetitions of more than one thing count where they stand one in another.
    assert!(is_moderate_pattern(&nested(13, "a", "a")));
    assert!(!is_moderate_pattern(&nested(14, "a", "a")));
    assert!(!is_moderate_pattern(&nested(14, "", "a")));
    assert!(is_moderate_pattern(&nested(2, "a", "a").repeat(100)));
    // Counts are numbers, and count together where they stand one in another.
    assert!(is_moderate_pattern("<[0-9]:1,6>.lua"));
    assert!(is_moderate_pattern("<[0-9]:4>-<[0-9]:2>-<[0-9]:2>"));
    assert!(is_moderate_pattern("log-{<[0-9]:3>,<[0-9]:4>-<[0-9]:2>-<[0-9]:2>}.txt"));
    assert!(is_moderate_pattern(&"<<[0-9]:1,3>.<[0-9]:1,3>.<[0-9]:1,3>:2>".repeat(9)));
    assert!(is_moderate_pattern("<[0123456789]20240102030405:2>"));
    assert!(is_moderate_pattern("<?:0,4294967295>"));
    assert!(!is_moderate_pattern("<?:0,4294967296>"));
    assert!(!is_moderate_pattern("<?:4294967296,>"));
    assert!(!is_moderate_pattern("<?:18446744073709551617>"));
    assert!(is_moderate_pattern("<<a:9>:9999999>"));
    assert!(!is_moderate_pattern("<<<a:9999999>:9999999>:9999999>"));
    assert!(is_moderate_pattern(&format!("<a:999>{}", "a".repeat(2000))));
    assert!(!is_moderate_pattern(&format!("<<a:4294967295>:999999999>{}", "a".repeat(2000))));
    // Escaped characters and those of a class open nothing.
    assert!(is_moderate_pattern(&r"\<".repeat(200)));
    assert!(is_moderate_pattern(&"[<{]".repeat(200)));
    assert!(is_moderate_pattern(&r"[\]<]".repeat(200)));
    assert!(!is_moderate_pattern(&r"\\<".repeat(124)));
}

fn is_compiled_or_rejected(pattern: &str) {
    assert!(is_moderate_pattern(pattern));
    let globs = patterns(&[pattern, "b"]);
    let loader = WorkspaceLoader::new(&globs, &globs, None);
    assert!(matches!(loader, Ok(_) | Err(InvalidPattern::Include(_))));
}

#[test]
fn deepest_moderate_patterns_are_compiled_or_rejected() {
    for (open, inner, close) in [
        ("{", "a", "}"),
        ("{b,", "a", "}"),
        ("{b,c", "a", "}"),
        ("{b,c", "a/**/b", "}"),
        ("{b,c", "[!a-z]", "d}"),
        ("<", "a", ">"),
        ("<", "a/**/b", ">"),
        ("<", "a", ":1,2>"),
        ("{<", "?", ">}"),
        ("{b<", "?", ">c}"),
    ] {
        let series = |n: usize| format!("{}{}{}", open.repeat(n), inner, close.repeat(n));
        let (n, pattern) = largest_moderate(series);
        assert!(n > 10);
        is_compiled_or_rejected(&pattern);
    }
    is_compiled_or_rejected(&"{".repeat(123));
    is_compiled_or_rejected(&"<".repeat(123));
}

#[test]
fn repetitions_with_neighbours_are_compiled_or_rejected() {
    for (before, after) in [("a", ""), ("", "a"), ("a", "a")] {
        is_compiled_or_rejected(&nested(13, before, after));
    }
}

#[test]
fn repetitions_between_wildcards_are_compiled_or_rejected() {
    is_compiled_or_rejected(&nested(13, "a?", "?a"));
}

#[test]
fn repetitions_between_separators_are_compiled_or_rejected() {
    is_compiled_or_rejected(&nested(13, "?/", "/?"));
}

#[test]
fn large_counts_are_compiled_or_rejected() {
    for pattern in [
        "<?:4294967295>",
        "<a:4294967295>",
        "<?:1,4294967295>",
        "<<a:9>:9999999>",
        "<<a:4294967295>:9999999>",
        "<<?:999>:999>",
        "<<<a:99>:99>:99>",
    ] {
        is_compiled_or_rejected(pattern);
    }
    let counted = format!("{}a{}", "<a".repeat(6), "a:9>".repeat(6));
    is_compiled_or_rejected(&counted);
}

#[test]
fn repetitions_with_neighbours_match() {
    let globs = patterns(&[&nested(8, "a", "b"), "log<-<[0-9]:3>:1,2>.txt"]);
    let none = patterns(&[]);
    let loader = WorkspaceLoader::new(&globs, &none, None).ok().unwrap();
    assert!(loader.wants(&vec![], "aaaaaaaaabbbbbbbb"));
    assert!(loader.wants(&vec![], "log-123-456.txt"));
    assert!(!loader.wants(&vec![], "log-abc.txt"));
}

#[test]
fn no_patterns_compile_and_want_nothing() {
    let none = patterns(&[]);
    let loader = WorkspaceLoader::new(&none, &none, None).ok().unwrap();
    assert!(!loader.wants(&vec![], "a.lua"));
    let lua = patterns(&["**/*.lua"]);
    let loader = WorkspaceLoader::new(&lua, &none, None).ok().unwrap();
    assert!(loader.wants(&vec![], "a.lua"));
}
