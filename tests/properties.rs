use std::collections::{HashMap, HashSet};

use dep_inference::{
    collect, get_dependencies, imports_from_patterns, Import, ImportCollector, ImportPattern,
    InferenceError, JavascriptInferenceMetadata, Pattern, StarMatch,
};

type Candidates = HashMap<String, (HashSet<String>, HashSet<String>)>;

fn entry(pattern: &str, replacements: &[&str]) -> ImportPattern {
    ImportPattern {
        pattern: pattern.to_string(),
        replacements: replacements.iter().map(|r| r.to_string()).collect(),
    }
}

fn set(items: &[&str]) -> HashSet<String> {
    items.iter().map(|s| s.to_string()).collect()
}

fn candidates(file: &str, code: &str, md: JavascriptInferenceMetadata) -> Candidates {
    let out = get_dependencies(code, file, md).unwrap();
    let n = out.imports.len();
    let map: Candidates = out
        .imports
        .into_iter()
        .map(|(k, info)| {
            let files: HashSet<String> = info.file_imports.iter().cloned().collect();
            let packages: HashSet<String> = info.package_imports.iter().cloned().collect();
            assert_eq!(files.len(), info.file_imports.len());
            assert_eq!(packages.len(), info.package_imports.len());
            (k, (files, packages))
        })
        .collect();
    assert_eq!(map.len(), n, "each specifier is listed once");
    map
}

fn expect(entries: &[(&str, &[&str], &[&str])]) -> Candidates {
    entries
        .iter()
        .map(|(k, f, p)| (k.to_string(), (set(f), set(p))))
        .collect()
}

fn collected(code: &str) -> HashSet<String> {
    let v = collect(code);
    let s: HashSet<String> = v.iter().cloned().collect();
    assert_eq!(s.len(), v.len());
    s
}

#[test]
fn scenario_file_in_directory() {
    assert_eq!(
        candidates("dir/index.js", "import a from './file.js'", Default::default()),
        expect(&[("./file.js", &["dir/file.js"], &[])])
    );
}

#[test]
fn scenario_package_and_parent_directory() {
    assert_eq!(
        candidates(
            "src/js/a/index.mjs",
            r#"import fs from "fs"; import {x} from "../xes.mjs";"#,
            Default::default()
        ),
        expect(&[("fs", &[], &["fs"]), ("../xes.mjs", &["src/js/xes.mjs"], &[])])
    );
}

#[test]
fn scenario_escape_is_passed_through() {
    assert_eq!(
        candidates("src/index.mjs", r#"import {x} from "../../xes.mjs";"#, Default::default()),
        expect(&[("../../xes.mjs", &["../../xes.mjs"], &[])])
    );
}

#[test]
fn scenario_subpath_file() {
    let md = JavascriptInferenceMetadata {
        package_root: "js".to_string(),
        import_patterns: vec![entry("#nested/*.mjs", &["./src/lib/nested/*.mjs"])],
        config_root: None,
        paths: vec![],
    };
    assert_eq!(
        candidates("js/src/lib/index.mjs", "import stuff from '#nested/stuff.mjs';", md),
        expect(&[("#nested/stuff.mjs", &["js/src/lib/nested/stuff.mjs"], &[])])
    );
}

#[test]
fn scenario_path_alias_keeps_specifier() {
    let md = JavascriptInferenceMetadata {
        package_root: "js/project".to_string(),
        import_patterns: vec![],
        config_root: Some("js/project".to_string()),
        paths: vec![entry("@component/*", &["./src/component/*"])],
    };
    assert_eq!(
        candidates(
            "js/project/src/app/index.js",
            r#"import {Button} from "@component/lib/button.js";"#,
            md
        ),
        expect(&[(
            "@component/lib/button.js",
            &["js/project/src/component/lib/button.js"],
            &["@component/lib/button.js"]
        )])
    );
}

#[test]
fn scenario_polyfill() {
    let md = JavascriptInferenceMetadata {
        package_root: "js".to_string(),
        import_patterns: vec![entry("#websockets", &["websockets", "./websockets-polyfill.js"])],
        config_root: None,
        paths: vec![],
    };
    assert_eq!(
        candidates("js/src/index.mjs", "import {ws} from '#websockets';", md),
        expect(&[("#websockets", &["js/websockets-polyfill.js"], &["websockets"])])
    );
}

#[test]
fn scenario_pragma_on_from_line() {
    assert!(collected("import a from 'b'; // pants: no-infer-dep").is_empty());
}

#[test]
fn scenario_pragma_off_from_line() {
    assert_eq!(collected("import { // pants: no-infer-dep\n a\n} from 'b';"), set(&["b"]));
}

#[test]
fn suppressed_statements_are_left_out() {
    let code = "import a from 'x'; // pants: no-infer-dep\nrequire('y') // pants: no-infer-dep\nimport('z')";
    assert_eq!(collected(code), set(&["z"]));
}

#[test]
fn specifier_named_again_without_pragma_stays() {
    let code = "import a from 'b'; // pants: no-infer-dep\nimport c from 'b';";
    assert_eq!(collected(code), set(&["b"]));
}

#[test]
fn bare_specifiers_without_patterns_are_packages() {
    assert_eq!(
        candidates("a/b.js", "import x from 'left-pad'; require('@scope/pkg/sub')", Default::default()),
        expect(&[("left-pad", &[], &["left-pad"]), ("@scope/pkg/sub", &[], &["@scope/pkg/sub"])])
    );
}

#[test]
fn relative_specifiers_are_normalized_files() {
    assert_eq!(
        candidates("a/b/c.js", "import x from './d/../e.js'; import y from '../f/./g.js';", Default::default()),
        expect(&[("./d/../e.js", &["a/b/e.js"], &[]), ("../f/./g.js", &["a/f/g.js"], &[])])
    );
}

#[test]
fn capture_substituted_gives_input() {
    let pattern = "#lib/*.js";
    let input = "#lib/a/b.js";
    match Pattern::matches(pattern, input) {
        Pattern::Match(_, Some(StarMatch(c))) => {
            assert_eq!(c, "a/b");
            assert_eq!(pattern.replace('*', &c), input);
        }
        other => panic!("no capture: {other:?}"),
    }
}

#[test]
fn substitution_round_trips() {
    for capture in ["x", "", "a/b/c", "🔥é"] {
        let input = "#p/*/q".replace('*', capture);
        assert_eq!(
            Pattern::matches("#p/*/q", &input),
            Pattern::Match(6, Some(StarMatch(capture.to_string())))
        );
    }
}

#[test]
fn match_length_counts_bytes() {
    assert_eq!(
        Pattern::matches("#á/*", "#á/x"),
        Pattern::Match(5, Some(StarMatch("x".to_string())))
    );
    assert_eq!(Pattern::matches("lit", "lit"), Pattern::Match(3, None));
}

#[test]
fn star_may_capture_nothing_between_parts() {
    assert_eq!(
        Pattern::matches("#lib/*", "#lib/"),
        Pattern::Match(6, Some(StarMatch(String::new())))
    );
}

#[test]
fn head_and_tail_may_not_overlap() {
    assert_eq!(Pattern::matches("ab*ba", "aba"), Pattern::NoMatch);
}

#[test]
fn two_stars_in_pattern_are_refused() {
    let md = JavascriptInferenceMetadata {
        package_root: String::new(),
        import_patterns: vec![entry("#a/*/*", &["./x/*"])],
        config_root: None,
        paths: vec![],
    };
    assert_eq!(
        get_dependencies("import a from '#a/b/c'", "f.js", md).unwrap_err(),
        InferenceError::InvalidMetadata
    );
}

#[test]
fn star_in_replacement_of_literal_is_refused() {
    let md = JavascriptInferenceMetadata {
        package_root: String::new(),
        import_patterns: vec![],
        config_root: None,
        paths: vec![entry("lit", &["./x/*"])],
    };
    assert_eq!(
        get_dependencies("", "f.js", md).unwrap_err(),
        InferenceError::InvalidMetadata
    );
}

#[test]
fn subpath_import_and_alias_are_combined() {
    let md = JavascriptInferenceMetadata {
        package_root: "p".to_string(),
        import_patterns: vec![entry("#x", &["./x.js"])],
        config_root: None,
        paths: vec![entry("*", &["./src/*"])],
    };
    assert_eq!(
        candidates("p/a.js", "import a from '#x'; import b from 'y';", md),
        expect(&[("#x", &["p/x.js", "p/src/#x"], &["#x"]), ("y", &["p/src/y"], &["y"])])
    );
}

#[test]
fn aliases_anchor_on_package_root_without_config_root() {
    let md = JavascriptInferenceMetadata {
        package_root: "root".to_string(),
        import_patterns: vec![],
        config_root: None,
        paths: vec![entry("~/*", &["./lib/*"])],
    };
    assert_eq!(
        candidates("root/a.js", "import a from '~/b';", md),
        expect(&[("~/b", &["root/lib/b"], &["~/b"])])
    );
}

#[test]
fn replacement_above_root_is_unmatched() {
    let patterns = vec![entry("#x", &["../../y.js"])];
    assert_eq!(
        imports_from_patterns("a", &patterns, "#x"),
        vec![Import::Unmatched("../../y.js".to_string())]
    );
}

#[test]
fn no_matching_pattern_yields_nothing() {
    let patterns = vec![entry("#x/*", &["./y/*"])];
    assert!(imports_from_patterns("a", &patterns, "#z/w").is_empty());
}

#[test]
fn side_effect_import_gives_nothing() {
    assert!(collected("import 'polyfill';").is_empty());
}

#[test]
fn strings_comments_and_templates_are_not_code() {
    let code = "const s = \"import a from 'x'\"; /* require('y') */ // import('z')\nconst t = `require('w')`;";
    assert!(collected(code).is_empty());
}

#[test]
fn member_calls_and_import_meta_are_not_imports() {
    assert!(collected("obj.require('a'); import.meta.url; x.import('b');").is_empty());
}

#[test]
fn empty_source_has_no_imports() {
    assert!(collected("").is_empty());
    assert!(get_dependencies("", "a.js", Default::default()).unwrap().imports.is_empty());
}

#[test]
fn repeated_specifier_is_listed_once() {
    assert_eq!(
        candidates("a.js", "import a from 'm'; require('m'); import('m');", Default::default()),
        expect(&[("m", &[], &["m"])])
    );
}

#[test]
fn pragma_lines_count_from_zero() {
    let c = ImportCollector::new("a\n// pants: no-infer-dep\nb // pants: no-infer-dep");
    assert_eq!(c.pragma_lines, vec![1, 2]);
}

#[test]
fn escaped_quote_stays_in_string() {
    assert_eq!(collected(r#"require("a\"b")"#), set(&["a\\\"b"]));
}

#[test]
fn call_inside_template_substitution_is_collected() {
    assert_eq!(collected("`${require('x')}`"), set(&["x"]));
    assert!(dep_inference::assert_imports("`${require('x')}`", &vec!["x".to_string()]));
}

#[test]
fn nested_braces_and_templates_in_substitution() {
    assert_eq!(
        collected("`a ${ {b: require('c')} } d ${`${import('n')}`}` + require('e')"),
        set(&["c", "n", "e"])
    );
}

#[test]
fn quote_inside_regex_does_not_open_string() {
    assert_eq!(collected("const r = /'/; import a from 'b';"), set(&["b"]));
    assert_eq!(collected("if (ok) { return /[/']/.test(s); }\nrequire('z')"), set(&["z"]));
}

#[test]
fn slash_after_value_is_division() {
    assert_eq!(collected("const h = w / 2; import x from 'y'; const q = (a) / b;"), set(&["y"]));
}

#[test]
fn pragma_after_other_comment_text_suppresses() {
    assert!(collected("import a from 'b'; // todo // pants: no-infer-dep").is_empty());
}

#[test]
fn longer_word_is_not_the_pragma() {
    assert_eq!(collected("import a from 'b'; // pants: no-infer-dependency"), set(&["b"]));
}
