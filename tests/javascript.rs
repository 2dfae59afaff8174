use std::collections::{HashMap, HashSet};

use dep_inference::{
    assert_imports, assert_matches_with_star, collect, get_dependencies, imports_from_patterns,
    Import, ImportCollector, ImportPattern, InferenceError, JavascriptImportInfo,
    JavascriptInferenceMetadata, Pattern,
};

fn check_imports(code: &str, imports: &[&str]) {
    let expected: Vec<String> = imports.iter().map(|s| s.to_string()).collect();
    let mut collector = ImportCollector::new(code);
    collector.collect();
    assert_eq!(
        expected.iter().cloned().collect::<HashSet<String>>(),
        collector.imports.iter().cloned().collect::<HashSet<String>>(),
        "code = {code:?}"
    );
    assert!(assert_imports(code, &expected));
}

fn table(entries: &[(&str, &[&str])]) -> Vec<ImportPattern> {
    entries
        .iter()
        .map(|(pattern, replacements)| ImportPattern {
            pattern: pattern.to_string(),
            replacements: replacements.iter().map(|r| r.to_string()).collect(),
        })
        .collect()
}

fn given_metadata(
    root: &str,
    pattern_replacements: &[(&str, &[&str])],
    config_root: Option<&str>,
    path_patterns: &[(&str, &[&str])],
) -> JavascriptInferenceMetadata {
    JavascriptInferenceMetadata {
        package_root: root.to_string(),
        import_patterns: table(pattern_replacements),
        config_root: config_root.map(str::to_string),
        paths: table(path_patterns),
    }
}

fn set(items: &[&str]) -> HashSet<String> {
    items.iter().map(|s| s.to_string()).collect()
}

fn assert_dependency_imports(
    file_path: &str,
    code: &str,
    file_imports: &[&str],
    package_imports: &[&str],
    metadata: JavascriptInferenceMetadata,
) {
    let result = get_dependencies(code, file_path, metadata).unwrap();
    assert_eq!(
        set(file_imports),
        result
            .imports
            .iter()
            .flat_map(|(_, val)| val.file_imports.clone())
            .collect::<HashSet<String>>(),
    );
    assert_eq!(
        set(package_imports),
        result
            .imports
            .iter()
            .flat_map(|(_, val)| val.package_imports.clone())
            .collect::<HashSet<String>>(),
    );
}

type Candidates = HashMap<String, (HashSet<String>, HashSet<String>)>;

fn candidates_of(
    file_path: &str,
    code: &str,
    metadata: JavascriptInferenceMetadata,
) -> Candidates {
    let result = get_dependencies(code, file_path, metadata).unwrap();
    result
        .imports
        .into_iter()
        .map(|(k, info)| {
            (
                k,
                (
                    info.file_imports.into_iter().collect(),
                    info.package_imports.into_iter().collect(),
                ),
            )
        })
        .collect()
}

fn expected_candidates(entries: &[(&str, JavascriptImportInfo)]) -> Candidates {
    entries
        .iter()
        .map(|(k, info)| {
            (
                k.to_string(),
                (
                    info.file_imports.iter().cloned().collect(),
                    info.package_imports.iter().cloned().collect(),
                ),
            )
        })
        .collect()
}

fn info(files: &[&str], packages: &[&str]) -> JavascriptImportInfo {
    JavascriptImportInfo::new(
        files.iter().map(|s| s.to_string()).collect(),
        packages.iter().map(|s| s.to_string()).collect(),
    )
}

fn check_star(pattern: Pattern, matched: Option<&str>) {
    assert!(
        assert_matches_with_star(&pattern, matched),
        "pattern = {pattern:?}, expected_match = {matched:?}"
    );
}

fn import_set(imports: Vec<Import>) -> HashSet<Import> {
    imports.into_iter().collect()
}

#[test]
fn simple_imports() {
    check_imports("import a from 'a'", &["a"]);
    check_imports("import('c')", &["c"]);
    check_imports("require('d')", &["d"]);
    check_imports("import('e');", &["e"]);
    check_imports("require('f');", &["f"]);
    check_imports("const g = import('g');", &["g"]);
    check_imports("const h = require('h');", &["h"]);
}

#[test]
fn type_imports() {
    check_imports("import type a from 'a'", &["a"]);
}

#[test]
fn await_import() {
    check_imports("const i = await import('i');", &["i"]);
}

#[test]
fn ignore_imports() {
    check_imports("import a from 'b'; // pants: no-infer-dep", &[]);
    check_imports("import a from 'c' // pants: no-infer-dep", &[]);
    check_imports("import('e') // pants: no-infer-dep", &[]);
    check_imports("require('f') // pants: no-infer-dep", &[]);
    check_imports("import('e'); // pants: no-infer-dep", &[]);
    check_imports("require('f'); // pants: no-infer-dep", &[]);

    check_imports(
        "import {
            a
        } from 'ignored'; // pants: no-infer-dep",
        &[],
    );
    check_imports(
        "
        import { // pants: no-infer-dep
            a
        } from 'b';
        import {
            c  // pants: no-infer-dep
        } from 'd';",
        &["b", "d"],
    );

    check_imports(
        "require(
            'ignored'
        ) // pants: no-infer-dep",
        &[],
    );
    check_imports(
        "require( // pants: no-infer-dep
            'a'
        );
        require(
            'b' // pants: no-infer-dep
        )",
        &["a", "b"],
    );

    check_imports(
        "import(
            'ignored'
        ) // pants: no-infer-dep",
        &[],
    );
    check_imports(
        "import( // pants: no-infer-dep
            'a'
        );
        import(
            'b' // pants: no-infer-dep
        )",
        &["a", "b"],
    );
}

#[test]
fn simple_exports() {
    check_imports(r#"export * from "module-name";"#, &["module-name"]);
    check_imports(r#"export * as name1 from "module-name";"#, &["module-name"]);
    check_imports(
        r#"export { name1, /* …, */ nameN } from "module-name";"#,
        &["module-name"],
    );
    check_imports(
        r#"export { import1 as name1, import2 as name2, /* …, */ nameN } from "module-name";"#,
        &["module-name"],
    );
    check_imports(
        r#"export { default, /* …, */ } from "module-name";"#,
        &["module-name"],
    );
    check_imports(
        r#"export { default as name1 } from "module-name";"#,
        &["module-name"],
    );
    check_imports("export * from './b/c'", &["./b/c"]);
}

#[test]
fn type_exports() {
    check_imports(
        r#"export type { Stuff } from "module-name";"#,
        &["module-name"],
    );
}

#[test]
fn export_without_from() {
    check_imports(
        "
// Exporting declarations
export let name1, name2/*, … */; // also var
export const name1 = 1, name2 = 2/*, … */; // also var, let
export function functionName() { /* … */ }
export class ClassName { /* … */ }
export function* generatorFunctionName() { /* … */ }
export const { name1, name2: bar } = o;
export const [ name1, name2 ] = array;

// Export list
export { name1, /* …, */ nameN };
export { variable1 as name1, variable2 as name2, /* …, */ nameN };
export { variable1 as \"string name\" };
export { name1 as default /*, … */ };

// Default exports
export default expression;
export default function functionName() { /* … */ }
export default class ClassName { /* … */ }
export default function* generatorFunctionName() { /* … */ }
export default function () { /* … */ }
export default class { /* … */ }
export default function* () { /* … */ }
",
        &[],
    );
}

#[test]
fn ignore_exports() {
    check_imports("export * from 'a'; // pants: no-infer-dep", &[]);
    check_imports("export * as x from './b' // pants: no-infer-dep", &[]);
    check_imports("export { y } from \"../c\"  // pants: no-infer-dep", &[]);

    check_imports(
        "export {
            a
        } from 'ignored'; // pants: no-infer-dep",
        &[],
    );
    check_imports(
        "export { // pants: no-infer-dep
            a
        } from 'b';
        export {
            c // pants: no-infer-dep
        } from 'd';",
        &["b", "d"],
    );
}

#[test]
fn still_parses_from_syntax_error() {
    check_imports("import a from '.'; x=", &["."]);
    check_imports("export {some nonsense} from '.'", &["."]);
}

#[test]
fn non_string_literals() {
    check_imports(
        r"
  const a = 5;
  require(a)
  ",
        &[],
    );
}

#[test]
fn constructor_is_not_import() {
    check_imports(
        r"
  new require('a')
  ",
        &[],
    );
}

#[test]
fn dynamic_scope() {
    check_imports(
        r"
    await import('some.wasm')
  ",
        &["some.wasm"],
    );
}

#[test]
fn adds_dir_to_file_imports() -> Result<(), InferenceError> {
    let result = get_dependencies(
        "import a from './file.js'",
        "dir/index.js",
        Default::default(),
    )?;
    assert_eq!(
        result
            .imports
            .into_iter()
            .flat_map(|(_, info)| info.file_imports)
            .collect::<HashSet<String>>(),
        HashSet::from_iter(["dir/file.js".to_string()])
    );
    Ok(())
}

#[test]
fn root_level_files_have_no_dir() {
    assert_dependency_imports(
        "index.mjs",
        r#"import a from "./file.js""#,
        &["file.js"],
        &[],
        given_metadata("", &[], None, &[]),
    )
}

#[test]
fn only_walks_one_dir_level_for_curdir() {
    assert_dependency_imports(
        "src/js/index.mjs",
        r#"
    import fs from "fs";
    import { x } from "./xes.mjs";
  "#,
        &["src/js/xes.mjs"],
        &["fs"],
        given_metadata("", &[], None, &[]),
    )
}

#[test]
fn walks_two_dir_levels_for_pardir() {
    assert_dependency_imports(
        "src/js/a/index.mjs",
        r#"
    import fs from "fs";
    import { x } from "../xes.mjs";
  "#,
        &["src/js/xes.mjs"],
        &["fs"],
        given_metadata("", &[], None, &[]),
    )
}

#[test]
fn silly_walking() {
    assert_dependency_imports(
        "src/js/a/index.mjs",
        r#"
    import { x } from "././///../../xes.mjs";
  "#,
        &["src/xes.mjs"],
        &[],
        given_metadata("", &[], None, &[]),
    )
}

#[test]
fn imports_outside_of_provided_source_root_are_unchanged() {
    assert_dependency_imports(
        "src/index.mjs",
        r#"
    import { x } from "../../xes.mjs";
  "#,
        &["../../xes.mjs"],
        &[],
        given_metadata("", &[], None, &[]),
    );

    assert_dependency_imports(
        "js/src/lib/index.mjs",
        r#"
    import { x } from "./../../../../lib2/xes.mjs";
  "#,
        &["./../../../../lib2/xes.mjs"],
        &[],
        given_metadata("", &[], None, &[]),
    );
}

#[test]
fn subpath_package_import() {
    assert_dependency_imports(
        "js/src/lib/index.mjs",
        r#"
    import chalk from '#myChalk';
    "#,
        &[],
        &["chalk"],
        given_metadata("", &[("#myChalk", &["chalk"])], None, &[]),
    );
}

#[test]
fn subpath_file_import() {
    assert_dependency_imports(
        "js/src/lib/index.mjs",
        r#"
    import stuff from '#nested/stuff.mjs';
    "#,
        &["js/src/lib/nested/stuff.mjs"],
        &[],
        given_metadata("js", &[("#nested/*.mjs", &["./src/lib/nested/*.mjs"])], None, &[]),
    );
}

#[test]
fn config_file_import() {
    assert_dependency_imports(
        "js/project/src/lib/index.js",
        r#"
    import stuff from 'lib/stuff';
    "#,
        &["js/project/src/lib/stuff"],
        &["lib/stuff"],
        given_metadata("js", &[], Some("js/project"), &[("*", &["./src/*"])]),
    );
}

#[test]
fn config_file_sharing_root_import() {
    assert_dependency_imports(
        "js/project/src/lib/index.js",
        r#"
    import stuff from 'lib/stuff';
    "#,
        &["js/project/src/lib/stuff"],
        &["lib/stuff"],
        given_metadata("js/project", &[], Some("js/project"), &[("*", &["./src/*"])]),
    );
}

#[test]
fn config_file_with_at_mapping_imports() {
    assert_dependency_imports(
        "js/project/src/app/index.js",
        r#"
    import { Button } from "@component/lib/button.js";
    "#,
        &["js/project/src/component/lib/button.js"],
        &["@component/lib/button.js"],
        given_metadata(
            "js/project",
            &[],
            Some("js/project"),
            &[("@component/*", &["./src/component/*"])],
        ),
    );
}

#[test]
fn polyfills() {
    assert_dependency_imports(
        "js/src/index.mjs",
        r#"
    import { ws } from '#websockets';
    "#,
        &["js/websockets-polyfill.js"],
        &["websockets"],
        given_metadata(
            "js",
            &[("#websockets", &["websockets", "./websockets-polyfill.js"])],
            None,
            &[],
        ),
    );
}

#[test]
fn pattern_matches_trailing_star() {
    let pattern = Pattern::matches("#lib/*", "#lib/something/index.js");
    check_star(pattern, Some("something/index.js"))
}

#[test]
fn pattern_matches_star() {
    let pattern = Pattern::matches("#lib/*/index.js", "#lib/something/index.js");
    check_star(pattern, Some("something"))
}

#[test]
fn pattern_matches_star_with_extension() {
    let pattern = Pattern::matches("#internal/*.js", "#internal/z.js");
    check_star(pattern, Some("z"))
}

#[test]
fn pattern_without_star_matches() {
    let pattern = Pattern::matches("#some-lib", "#some-lib");
    check_star(pattern, None)
}

#[test]
fn static_pattern_mismatch() {
    let pattern = Pattern::matches("#some-lib", "#some-other-lib");
    assert_eq!(pattern, Pattern::NoMatch)
}

#[test]
fn mismatch_after_star_pattern() {
    let pattern = Pattern::matches("#some-lib/*.mjs", "#some-lib/a.js");
    assert_eq!(pattern, Pattern::NoMatch)
}

#[test]
fn mismatch_before_star_pattern() {
    let pattern = Pattern::matches("#other-lib/*.js", "#some-lib/a.js");
    assert_eq!(pattern, Pattern::NoMatch)
}

#[test]
fn trailing_star_pattern_mismatch() {
    let pattern = Pattern::matches("#some-lib/*", "#some-other-lib");
    assert_eq!(pattern, Pattern::NoMatch)
}

#[test]
fn star_only_pattern() {
    let pattern = Pattern::matches("*", "some-other-lib");
    check_star(pattern, Some("some-other-lib"))
}

#[test]
fn empty_pattern_does_not_match_import() {
    let pattern = Pattern::matches("", "#some-other-lib");
    assert_eq!(pattern, Pattern::NoMatch)
}

#[test]
fn empty_import() {
    let pattern = Pattern::matches("", "");
    assert_eq!(pattern, Pattern::NoMatch)
}

#[test]
fn empty_import_and_star_pattern() {
    let pattern = Pattern::matches("*", "");
    assert_eq!(pattern, Pattern::NoMatch)
}

#[test]
fn unicode_shenanigans() {
    check_star(Pattern::matches("#🔥*🔥", "#🔥asd🔥"), Some("asd"));
}

#[test]
fn more_unicode_shenanigans() {
    check_star(
        Pattern::matches("#我的氣墊船充滿了鱔魚/*.js", "#我的氣墊船充滿了鱔魚/asd.js"),
        Some("asd"),
    );
}

#[test]
fn matching_unicode_shenanigans() {
    check_star(
        Pattern::matches("#*/stuff.js", "#🔥asd🔥/stuff.js"),
        Some("🔥asd🔥"),
    );
}

#[test]
fn unicode_shenanigans_with_equal_start_byte() {
    check_star(Pattern::matches("#á/*é.js", "#á/asdáé.js"), Some("asdá"));
}

#[test]
fn replaces_groups() {
    let patterns = table(&[("#internal/*.js", &["./src/internal/*.js"])]);
    let imports = imports_from_patterns("dir", &patterns, "#internal/z.js");

    assert_eq!(
        import_set(imports),
        HashSet::from_iter([Import::Matched("dir/src/internal/z.js".to_string())])
    )
}

#[test]
fn longest_prefix_wins() {
    let patterns = table(&[
        ("#internal/stuff/*.js", &["./src/stuff/*.js"]),
        ("#internal/*.js", &["./src/things/*.js"]),
    ]);

    let imports = imports_from_patterns("dir", &patterns, "#internal/stuff/index.js");

    assert_eq!(
        import_set(imports),
        HashSet::from_iter([Import::Matched("dir/src/stuff/index.js".to_string())])
    )
}

#[test]
fn candidate_imports_from_config_and_imports() {
    let result = candidates_of(
        "js/project/src/lib/index.js",
        r#"
    import { relative, or, package } from 'lib/stuff';
    import { subpath } from '#nested/index.js';
    "#,
        given_metadata(
            "js/project",
            &[("#nested/*", &["./src/lib/nested/*"])],
            Some("js/project"),
            &[("*", &["./src/*"])],
        ),
    );
    assert_eq!(
        expected_candidates(&[
            ("lib/stuff", info(&["js/project/src/lib/stuff"], &["lib/stuff"])),
            (
                "#nested/index.js",
                info(
                    &["js/project/src/lib/nested/index.js", "js/project/src/#nested/index.js"],
                    &["#nested/index.js"],
                ),
            ),
        ]),
        result
    );
}
