use erosion::languages::adapters::JavaScriptAdapter;
use erosion::languages::lines::source_line;
use erosion::languages::{Language, LanguageAdapter};
use erosion::metrics::FileAnalysis;

fn parse(source: &str, language: Language) -> FileAnalysis {
    let result = JavaScriptAdapter::new(language)
        .unwrap()
        .analyze(source.as_bytes())
        .unwrap();
    assert!(
        result.parsed(),
        "{language:?}: {source}\n{:?}",
        result.diagnostics
    );
    result
}

#[test]
fn test_paths_are_javascript_owned_and_component_bounded() {
    for language in [Language::JavaScript, Language::TypeScript, Language::Tsx] {
        let adapter = JavaScriptAdapter::new(language).unwrap();
        for path in [
            "tests/a.ts",
            "src/test/a.js",
            "__tests__/a.tsx",
            "__mocks__/client.js",
            "src/a.spec.mts",
            "a.test.cts",
            "a.tests.jsx",
            "a.cy.ts",
        ] {
            assert!(adapter.is_test_file(path), "{path}");
        }
        for path in [
            "contest/main.ts",
            "a.test.ts/main.ts",
            "src/test_helpers/main.js",
            "a.bench.ts",
            "test_main.js",
            "src/main_test.js",
            "src/Tests/main.ts",
            "main.TEST.js",
        ] {
            assert!(!adapter.is_test_file(path), "{path}");
        }
    }
}

#[test]
fn bound_frameworks_aliases_modifiers_and_helpers_are_excluded() {
    for language in [Language::JavaScript, Language::TypeScript, Language::Tsx] {
        for test in [
            "import {test as check, describe as group, beforeEach as setup} from 'node:test'; group('suite',()=>{ setup(()=>{if(x)work()}); check('case',{timeout:1},()=>{if(x)work()}) });",
            "import * as v from 'vitest'; v.describe.each([1,2])('suite',n=>{v.test.concurrent.each([1,2])('case',x=>{if(x)work()})});",
            "import {test} from 'vitest'; const check=test.extend({fixture:()=>{if(x)work()}}); check.for([1,2])('case',()=>{if(x)work()});",
            "import {test} from '@jest/globals'; test.each`value\\n${1}`('case',()=>{if(x)work()});",
            "const {test: check} = require('node:test'); check('case',()=>{if(x)work()});",
            "const node = require('node:test'); const {test: check} = node; check('case',()=>{if(x)work()});",
            "import check from 'node:test'; check('case',()=>{if(x)work()});",
            "const check = require('node:test'); check['skip']('case',()=>{if(x)work()});",
            "import check from 'ava'; check.serial('case',t=>{if(x)work()});",
            "const check=require('ava'); check.before(()=>{if(x)work()}); check('case',t=>{if(x)work()});",
            "import check from 'tape'; check.only('case',t=>{if(x)work()});",
            "import mocha from 'mocha'; mocha.describe('suite',()=>{mocha.it('case',()=>{if(x)work()})});",
            "import {test as base} from '@playwright/test'; const check = base.extend({fixture:async()=>{if(x)work()}}); check.beforeEach(()=>{if(x)work()}); check('case',async()=>{if(x)work()});",
            "import {suite} from 'uvu'; const check = suite('group'); check.before.each(()=>{if(x)work()}); check('case',()=>{if(x)work()}); check.run();",
            "import {test} from '@jest/globals'; const check = test; function helper(){if(x)work()} function example(){helper()} const callback = example; check('case',callback);",
        ] {
            let source = format!("export function production() {{ return 1; }}\n{test}\n");
            let file = parse(&source, language);
            assert!(file.functions.len() > 1, "{test}");
            let filtered = file.without_tests.expect(test);
            assert_eq!(
                filtered.functions.len(),
                1,
                "{language:?}: {test}: {:?}",
                filtered.functions
            );
            assert_eq!(filtered.functions[0].name, "production");
            assert_eq!(filtered.functions[0].complexity, 1);
            assert_eq!(filtered.functions[0].source_lines, 1);
        }
    }
}

#[test]
fn ambient_suites_require_unshadowed_framework_evidence() {
    for source in [
        "describe('group',()=>{beforeEach(()=>{if(x)work()}); it('case',()=>{if(x)work()})});",
        "describe.each([1,2])('group',()=>{test.concurrent.each([1])('case',()=>{if(x)work()})});",
        "import {expect} from 'vitest'; test('case',()=>{if(x)work()});",
        "import 'mocha'; it('case',()=>{if(x)work()});",
    ] {
        let result = parse(source, Language::TypeScript);
        assert!(
            result.without_tests.expect(source).functions.is_empty(),
            "{source}"
        );
    }
    for source in [
        "test('could be production',()=>{if(x)work()});",
        "describe('could be production',()=>{if(x)work()});",
        "function f(describe,it){describe('x',()=>{it('y',()=>{if(x)work()})})}",
        "const describe = production; describe('x',()=>{it('y',()=>{if(x)work()})});",
        "const regexp = /x/; regexp.test('value');",
    ] {
        assert!(
            parse(source, Language::JavaScript).without_tests.is_none(),
            "{source}"
        );
    }
    let mixed = parse(
        "describe('suite',()=>{it('case',()=>{})}); export function production(){test('unrelated',()=>{if(x)work()})}",
        Language::JavaScript,
    );
    assert_eq!(mixed.without_tests.unwrap().functions.len(), 2);
}

#[test]
fn lexical_shadowing_mutations_and_dynamic_scope_do_not_hide_production() {
    for source in [
        "import {test} from 'node:test'; function f(test) { test('production',()=>{if(x)work()}); }",
        "import {test} from 'node:test'; { const test = production; test('production',()=>{if(x)work()}); }",
        "import {test} from 'node:test'; function f() { test('production',()=>{if(x)work()}); { var test = production; } }",
        "import {test} from 'node:test'; function f({test}) { test('production',()=>{if(x)work()}); }",
        "import {test} from 'node:test'; try {} catch(test) {test('production',()=>{if(x)work()})}",
        "import {test} from 'node:test'; for (const test of values) {test('production',()=>{if(x)work()})}",
        "import {test} from 'node:test'; function f() { function test() {} test('production',()=>{if(x)work()}); }",
        "import {test} from 'node:test'; test = production; test('production',()=>{if(x)work()});",
        "const node = require('node:test'); const alias = node; alias.test = production; node.test('production',()=>{if(x)work()});",
        "function f(require) { const check = require('node:test'); check('production',()=>{if(x)work()}); }",
        "import {test} from './production'; test('production',()=>{if(x)work()});",
        "import {test} from 'node:test'; eval(code); test('uncertain',()=>{if(x)work()});",
        "import {test} from 'node:test'; test[method]('uncertain',()=>{if(x)work()});",
        "import {test} from 'node:test'; let a=b,b=a; a('uncertain',()=>{if(x)work()});",
        "const node=require('node:test'); ({test:node.test}=production); node.test('production',()=>{if(x)work()});",
        "require('node:test').test = production; require('node:test').test('production',()=>{if(x)work()});",
        "import {test} from 'node:test'; const C=class test {static only(){} f(){test.only('production',()=>{if(x)work()})}};",
        "import {it} from 'uvu'; it('unknown API',()=>{if(x)work()});",
        "import test from 'node:test'; test.serial('unknown API',()=>{if(x)work()});",
    ] {
        assert!(
            parse(source, Language::TypeScript).without_tests.is_none(),
            "{source}"
        );
    }
    let static_scope = parse(
        "import {test} from 'node:test'; class C {static {var test=production; test('production',()=>{});}} test('real',()=>{});",
        Language::JavaScript,
    );
    assert_eq!(static_scope.without_tests.unwrap().functions.len(), 1);
}

#[test]
fn mixed_scopes_recompute_enclosing_mass_and_keep_shared_or_exported_callbacks() {
    let source = "\u{feff}import {test} from 'node:test';\r\nexport function production(x) {\r\n if (x) work();\r\n test('case',()=>{\r\n  if(x)work();\r\n  if(x)work();\r\n });\r\n return x;\r\n}\r\n";
    let file = parse(source, Language::TypeScript);
    assert_eq!(file.functions[0].complexity, 4);
    let filtered = file.without_tests.unwrap();
    assert_eq!(filtered.functions.len(), 1);
    assert_eq!(filtered.functions[0].complexity, 2);
    assert_eq!(filtered.functions[0].source_lines, 3);
    assert_eq!(
        &source[filtered.regions[0].start_byte..filtered.regions[0].start_byte + 4],
        "test"
    );
    let file = parse(
        "import {test} from 'node:test'; export function prod(x){if(x)work(); test('case',()=>{if(x)work()}); return x;}",
        Language::TypeScript,
    );
    let filtered = file.without_tests.unwrap();
    assert_eq!(filtered.functions[0].complexity, 2);
    assert_eq!(filtered.functions[0].source_lines, 1);
    for source in [
        "import {test} from 'node:test'; function shared(){if(x)work()} shared(); test('case',shared);",
        "import {test} from 'node:test'; export function shared(){if(x)work()} test('case',shared);",
        "import {test} from 'node:test'; const prod=function recurse(){if(x)recurse()}; prod(); test('case',()=>{});",
    ] {
        let file = parse(source, Language::JavaScript);
        assert_eq!(file.without_tests.unwrap().functions.len(), 1, "{source}");
    }
}

#[test]
fn typescript_bindings_and_malformed_test_regions_remain_explicit() {
    for language in [Language::TypeScript, Language::Tsx] {
        let file = parse(
            "import test = require('node:test'); test('case',()=>{if(x)work()});",
            language,
        );
        assert!(file.without_tests.unwrap().functions.is_empty());
        let file = parse(
            "import {test} from 'node:test'; type Fn=(name:string,fn:()=>void)=>void; function f(test:Fn){test('prod',()=>{if(x)work()})}",
            language,
        );
        assert!(file.without_tests.is_none());
        let file = parse(
            "import type {test} from 'node:test'; test('uncertain',()=>{if(x)work()});",
            language,
        );
        assert!(file.without_tests.is_none());
        let bad = JavaScriptAdapter::new(language)
            .unwrap()
            .analyze(b"import {test} from 'node:test'; test('broken',()=>{")
            .unwrap();
        assert!(!bad.parsed());
        assert!(bad.without_tests.is_none());
    }
}

#[test]
fn all_grammars_and_callable_forms() {
    for language in [Language::JavaScript, Language::TypeScript, Language::Tsx] {
        let file = parse(
            "const a = function(x) { return x ? 1 : 0; };\nconst b = () => 2;\n[1].map(x => x + 1);",
            language,
        );
        assert_eq!(file.functions.len(), 3);
        assert_eq!(file.functions[0].complexity, 2);
        assert_eq!(parse("function* g() { yield 1; }\nconst g2 = function*() { yield 2; };\nclass C { method() { return 1; } }", language).functions.len(), 3);
    }
    assert_eq!(
        parse(
            "const View = () => <div>{true ? 'a' : 'b'}</div>;",
            Language::Tsx
        )
        .functions[0]
            .complexity,
        2
    );
    assert_eq!(
        parse("const View = () => <div>Hello</div>;", Language::JavaScript)
            .functions
            .len(),
        1
    );
    assert_eq!(
        parse(
            "function f(x: boolean) {\n if (x) return 1;\n return 0;\n}\n",
            Language::TypeScript
        )
        .functions[0]
            .source_lines,
        3
    );
}

#[test]
fn nested_and_operator_conventions() {
    let nested = parse(
        "function outer() {\n function inner(x) { if (x) return 1; }\n return inner(0);\n}",
        Language::JavaScript,
    );
    assert_eq!(
        nested
            .functions
            .iter()
            .map(|f| f.complexity)
            .collect::<Vec<_>>(),
        [2, 2]
    );
    assert_eq!(nested.functions[0].source_lines, 3);
    let file = parse(
        "function f(x) { switch(x) { case 1: break; case 2: break; } return x && x || x ?? x?.y; }",
        Language::TypeScript,
    );
    assert_eq!(file.functions[0].complexity, 4);
    let loops = parse(
        "function f(xs) { for (const x of xs) {} for (const x in xs) {} for (;;) { break; } while (false) {} do {} while(false); try {} catch(e) {} return xs ? 1 : 0; }",
        Language::JavaScript,
    );
    assert_eq!(loops.functions[0].complexity, 8);
}

#[test]
fn comments_punctuation_bom_and_line_endings() {
    assert!(!source_line(b"\x0b\t\x0c"));
    assert!(!source_line(b"\x0b}\x0c"));
    assert!(source_line("\u{a0}".as_bytes()));
    let file = parse(
        "// comment\nconst x = 1; /* note */\n/* multi\nline */\n",
        Language::JavaScript,
    );
    assert_eq!((file.physical_lines, file.source_lines), (4, 1));
    for ending in ["\n", "\r\n"] {
        let source = ["function f() {", "/* comment */", "return 1;", "}", ""].join(ending);
        let file = parse(&source, Language::JavaScript);
        assert_eq!(
            (file.physical_lines, file.functions[0].source_lines),
            (4, 2)
        );
    }
    let file = parse("\u{feff}const f = () => 1;", Language::TypeScript);
    assert_eq!(file.functions.len(), 1);
    assert_eq!(parse("", Language::TypeScript).physical_lines, 0);
    assert_eq!(
        parse("let x = 1;\n", Language::TypeScript).physical_lines,
        1
    );
}

#[test]
fn invalid_input_is_not_success() {
    let adapter = JavaScriptAdapter::new(Language::TypeScript).unwrap();
    for source in [b"function {".as_slice(), b"\xff"] {
        let result = adapter.analyze(source).unwrap();
        assert!(!result.parsed());
        assert!(result.functions.is_empty());
    }
}

#[test]
fn callables_on_the_same_lines_are_listed_from_the_inside() {
    let file = parse(
        "const f = () => { const g = (x) => x ? 1 : 2; return g(1) ? 3 : 4; };\nconst h = () => 5;\n",
        Language::JavaScript,
    );
    assert_eq!(
        file.functions
            .iter()
            .map(|f| (f.start_line, f.complexity))
            .collect::<Vec<_>>(),
        [(1, 2), (1, 3), (2, 1)]
    );
}
