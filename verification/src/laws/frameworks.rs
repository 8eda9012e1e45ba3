//! What the test frameworks of JavaScript export, and what it registers.

use vstd::prelude::*;

use crate::languages::javascript_api::{framework_spec, ApiKind, Framework, Role, TestApi};

verus! {

/// The member of that name of an export of that kind is an export of the other kind.
pub open spec fn gives(
    framework: Framework,
    kind: ApiKind,
    name: Seq<char>,
    result: ApiKind,
) -> bool {
    (TestApi { framework, kind }).member_spec(name) == Some(TestApi { framework, kind: result })
}

/// The member of that name of an export of that kind is not part of testing.
pub open spec fn gives_nothing(framework: Framework, kind: ApiKind, name: Seq<char>) -> bool {
    (TestApi { framework, kind }).member_spec(name) is None
}

/// The modifiers that every framework has on its tests and suites.
pub open spec fn common_modifier(name: Seq<char>) -> bool {
    name == "only"@ || name == "skip"@ || name == "todo"@
}

/// What a module of Node's test runner exports: its tests, its suites, its hooks and nothing else
/// that counts as testing.
pub proof fn node_exports(name: Seq<char>)
    ensures
        gives(Framework::Node, ApiKind::Namespace, name, ApiKind::Callable(Role::Test)) <==> name == "default"@ || name == "test"@ || name == "it"@ || name == "only"@ || name == "skip"@ || name == "todo"@,
        gives(Framework::Node, ApiKind::Namespace, name, ApiKind::Callable(Role::Suite)) <==> name == "describe"@ || name == "suite"@,
        gives(Framework::Node, ApiKind::Namespace, name, ApiKind::Callable(Role::Hook)) <==> name == "before"@ || name == "after"@ || name == "beforeEach"@ || name == "afterEach"@,
        gives_nothing(Framework::Node, ApiKind::Namespace, name) <==> !((name == "default"@ || name == "test"@ || name == "it"@ || name == "only"@ || name == "skip"@ || name == "todo"@) || (name == "describe"@ || name == "suite"@) || (name == "before"@ || name == "after"@ || name == "beforeEach"@ || name == "afterEach"@)),
{
    reveal_strlit("default");
    reveal_strlit("test");
    reveal_strlit("it");
    reveal_strlit("only");
    reveal_strlit("skip");
    reveal_strlit("todo");
    reveal_strlit("describe");
    reveal_strlit("suite");
    reveal_strlit("before");
    reveal_strlit("after");
    reveal_strlit("beforeEach");
    reveal_strlit("afterEach");
    reveal_strlit("xit");
    reveal_strlit("xtest");
    reveal_strlit("fit");
    reveal_strlit("xdescribe");
    reveal_strlit("fdescribe");
    reveal_strlit("beforeAll");
    reveal_strlit("afterAll");
    reveal_strlit("specify");
    reveal_strlit("context");
    reveal_strlit("xcontext");
    reveal_strlit("setup");
    reveal_strlit("teardown");
    reveal_strlit("suiteSetup");
    reveal_strlit("suiteTeardown");
    reveal_strlit("serial");
    assert("default"@.len() == 7 && "default"@[0] == 'd');
    assert("specify"@.len() == 7 && "specify"@[0] == 's');
    assert("context"@.len() == 7 && "context"@[0] == 'c');
    assert("test"@.len() == 4 && "test"@[1] == 'e');
    assert("only"@.len() == 4 && "only"@[1] == 'n');
    assert("skip"@.len() == 4 && "skip"@[1] == 'k');
    assert("todo"@.len() == 4 && "todo"@[1] == 'o');
    assert("it"@.len() == 2);
    assert("describe"@.len() == 8 && "describe"@[0] == 'd');
    assert("afterAll"@.len() == 8 && "afterAll"@[0] == 'a');
    assert("xcontext"@.len() == 8 && "xcontext"@[0] == 'x');
    assert("teardown"@.len() == 8 && "teardown"@[0] == 't');
    assert("suite"@.len() == 5 && "suite"@[1] == 'u');
    assert("after"@.len() == 5 && "after"@[1] == 'f');
    assert("xtest"@.len() == 5 && "xtest"@[1] == 't');
    assert("setup"@.len() == 5 && "setup"@[1] == 'e');
    assert("before"@.len() == 6 && "before"@[0] == 'b');
    assert("serial"@.len() == 6 && "serial"@[0] == 's');
    assert("beforeEach"@.len() == 10 && "beforeEach"@[0] == 'b');
    assert("suiteSetup"@.len() == 10 && "suiteSetup"@[0] == 's');
    assert("afterEach"@.len() == 9 && "afterEach"@[0] == 'a');
    assert("xdescribe"@.len() == 9 && "xdescribe"@[0] == 'x');
    assert("fdescribe"@.len() == 9 && "fdescribe"@[0] == 'f');
    assert("beforeAll"@.len() == 9 && "beforeAll"@[0] == 'b');
    assert("xit"@.len() == 3 && "xit"@[0] == 'x');
    assert("fit"@.len() == 3 && "fit"@[0] == 'f');
    assert("suiteTeardown"@.len() == 13);
}

/// What a module of Jest exports: its tests, its suites, its hooks and nothing else
/// that counts as testing.
pub proof fn jest_exports(name: Seq<char>)
    ensures
        gives(Framework::Jest, ApiKind::Namespace, name, ApiKind::Callable(Role::Test)) <==> name == "test"@ || name == "it"@ || name == "xit"@ || name == "xtest"@ || name == "fit"@,
        gives(Framework::Jest, ApiKind::Namespace, name, ApiKind::Callable(Role::Suite)) <==> name == "describe"@ || name == "xdescribe"@ || name == "fdescribe"@,
        gives(Framework::Jest, ApiKind::Namespace, name, ApiKind::Callable(Role::Hook)) <==> name == "beforeEach"@ || name == "afterEach"@ || name == "beforeAll"@ || name == "afterAll"@,
        gives_nothing(Framework::Jest, ApiKind::Namespace, name) <==> !((name == "test"@ || name == "it"@ || name == "xit"@ || name == "xtest"@ || name == "fit"@) || (name == "describe"@ || name == "xdescribe"@ || name == "fdescribe"@) || (name == "beforeEach"@ || name == "afterEach"@ || name == "beforeAll"@ || name == "afterAll"@)),
{
    reveal_strlit("default");
    reveal_strlit("test");
    reveal_strlit("it");
    reveal_strlit("only");
    reveal_strlit("skip");
    reveal_strlit("todo");
    reveal_strlit("describe");
    reveal_strlit("suite");
    reveal_strlit("before");
    reveal_strlit("after");
    reveal_strlit("beforeEach");
    reveal_strlit("afterEach");
    reveal_strlit("xit");
    reveal_strlit("xtest");
    reveal_strlit("fit");
    reveal_strlit("xdescribe");
    reveal_strlit("fdescribe");
    reveal_strlit("beforeAll");
    reveal_strlit("afterAll");
    reveal_strlit("specify");
    reveal_strlit("context");
    reveal_strlit("xcontext");
    reveal_strlit("setup");
    reveal_strlit("teardown");
    reveal_strlit("suiteSetup");
    reveal_strlit("suiteTeardown");
    reveal_strlit("serial");
    assert("default"@.len() == 7 && "default"@[0] == 'd');
    assert("specify"@.len() == 7 && "specify"@[0] == 's');
    assert("context"@.len() == 7 && "context"@[0] == 'c');
    assert("test"@.len() == 4 && "test"@[1] == 'e');
    assert("only"@.len() == 4 && "only"@[1] == 'n');
    assert("skip"@.len() == 4 && "skip"@[1] == 'k');
    assert("todo"@.len() == 4 && "todo"@[1] == 'o');
    assert("it"@.len() == 2);
    assert("describe"@.len() == 8 && "describe"@[0] == 'd');
    assert("afterAll"@.len() == 8 && "afterAll"@[0] == 'a');
    assert("xcontext"@.len() == 8 && "xcontext"@[0] == 'x');
    assert("teardown"@.len() == 8 && "teardown"@[0] == 't');
    assert("suite"@.len() == 5 && "suite"@[1] == 'u');
    assert("after"@.len() == 5 && "after"@[1] == 'f');
    assert("xtest"@.len() == 5 && "xtest"@[1] == 't');
    assert("setup"@.len() == 5 && "setup"@[1] == 'e');
    assert("before"@.len() == 6 && "before"@[0] == 'b');
    assert("serial"@.len() == 6 && "serial"@[0] == 's');
    assert("beforeEach"@.len() == 10 && "beforeEach"@[0] == 'b');
    assert("suiteSetup"@.len() == 10 && "suiteSetup"@[0] == 's');
    assert("afterEach"@.len() == 9 && "afterEach"@[0] == 'a');
    assert("xdescribe"@.len() == 9 && "xdescribe"@[0] == 'x');
    assert("fdescribe"@.len() == 9 && "fdescribe"@[0] == 'f');
    assert("beforeAll"@.len() == 9 && "beforeAll"@[0] == 'b');
    assert("xit"@.len() == 3 && "xit"@[0] == 'x');
    assert("fit"@.len() == 3 && "fit"@[0] == 'f');
    assert("suiteTeardown"@.len() == 13);
}

/// What a module of Vitest exports: its tests, its suites, its hooks and nothing else
/// that counts as testing.
pub proof fn vitest_exports(name: Seq<char>)
    ensures
        gives(Framework::Vitest, ApiKind::Namespace, name, ApiKind::Callable(Role::Test)) <==> name == "test"@ || name == "it"@,
        gives(Framework::Vitest, ApiKind::Namespace, name, ApiKind::Callable(Role::Suite)) <==> name == "describe"@ || name == "suite"@,
        gives(Framework::Vitest, ApiKind::Namespace, name, ApiKind::Callable(Role::Hook)) <==> name == "beforeEach"@ || name == "afterEach"@ || name == "beforeAll"@ || name == "afterAll"@,
        gives_nothing(Framework::Vitest, ApiKind::Namespace, name) <==> !((name == "test"@ || name == "it"@) || (name == "describe"@ || name == "suite"@) || (name == "beforeEach"@ || name == "afterEach"@ || name == "beforeAll"@ || name == "afterAll"@)),
{
    reveal_strlit("default");
    reveal_strlit("test");
    reveal_strlit("it");
    reveal_strlit("only");
    reveal_strlit("skip");
    reveal_strlit("todo");
    reveal_strlit("describe");
    reveal_strlit("suite");
    reveal_strlit("before");
    reveal_strlit("after");
    reveal_strlit("beforeEach");
    reveal_strlit("afterEach");
    reveal_strlit("xit");
    reveal_strlit("xtest");
    reveal_strlit("fit");
    reveal_strlit("xdescribe");
    reveal_strlit("fdescribe");
    reveal_strlit("beforeAll");
    reveal_strlit("afterAll");
    reveal_strlit("specify");
    reveal_strlit("context");
    reveal_strlit("xcontext");
    reveal_strlit("setup");
    reveal_strlit("teardown");
    reveal_strlit("suiteSetup");
    reveal_strlit("suiteTeardown");
    reveal_strlit("serial");
    assert("default"@.len() == 7 && "default"@[0] == 'd');
    assert("specify"@.len() == 7 && "specify"@[0] == 's');
    assert("context"@.len() == 7 && "context"@[0] == 'c');
    assert("test"@.len() == 4 && "test"@[1] == 'e');
    assert("only"@.len() == 4 && "only"@[1] == 'n');
    assert("skip"@.len() == 4 && "skip"@[1] == 'k');
    assert("todo"@.len() == 4 && "todo"@[1] == 'o');
    assert("it"@.len() == 2);
    assert("describe"@.len() == 8 && "describe"@[0] == 'd');
    assert("afterAll"@.len() == 8 && "afterAll"@[0] == 'a');
    assert("xcontext"@.len() == 8 && "xcontext"@[0] == 'x');
    assert("teardown"@.len() == 8 && "teardown"@[0] == 't');
    assert("suite"@.len() == 5 && "suite"@[1] == 'u');
    assert("after"@.len() == 5 && "after"@[1] == 'f');
    assert("xtest"@.len() == 5 && "xtest"@[1] == 't');
    assert("setup"@.len() == 5 && "setup"@[1] == 'e');
    assert("before"@.len() == 6 && "before"@[0] == 'b');
    assert("serial"@.len() == 6 && "serial"@[0] == 's');
    assert("beforeEach"@.len() == 10 && "beforeEach"@[0] == 'b');
    assert("suiteSetup"@.len() == 10 && "suiteSetup"@[0] == 's');
    assert("afterEach"@.len() == 9 && "afterEach"@[0] == 'a');
    assert("xdescribe"@.len() == 9 && "xdescribe"@[0] == 'x');
    assert("fdescribe"@.len() == 9 && "fdescribe"@[0] == 'f');
    assert("beforeAll"@.len() == 9 && "beforeAll"@[0] == 'b');
    assert("xit"@.len() == 3 && "xit"@[0] == 'x');
    assert("fit"@.len() == 3 && "fit"@[0] == 'f');
    assert("suiteTeardown"@.len() == 13);
}

/// What a module of Mocha exports: its tests, its suites, its hooks and nothing else
/// that counts as testing.
pub proof fn mocha_exports(name: Seq<char>)
    ensures
        gives(Framework::Mocha, ApiKind::Namespace, name, ApiKind::Callable(Role::Test)) <==> name == "test"@ || name == "it"@ || name == "xit"@ || name == "xtest"@ || name == "fit"@ || name == "specify"@,
        gives(Framework::Mocha, ApiKind::Namespace, name, ApiKind::Callable(Role::Suite)) <==> name == "describe"@ || name == "context"@ || name == "xdescribe"@ || name == "xcontext"@ || name == "suite"@,
        gives(Framework::Mocha, ApiKind::Namespace, name, ApiKind::Callable(Role::Hook)) <==> name == "before"@ || name == "after"@ || name == "beforeEach"@ || name == "afterEach"@ || name == "setup"@ || name == "teardown"@ || name == "suiteSetup"@ || name == "suiteTeardown"@,
        gives_nothing(Framework::Mocha, ApiKind::Namespace, name) <==> !((name == "test"@ || name == "it"@ || name == "xit"@ || name == "xtest"@ || name == "fit"@ || name == "specify"@) || (name == "describe"@ || name == "context"@ || name == "xdescribe"@ || name == "xcontext"@ || name == "suite"@) || (name == "before"@ || name == "after"@ || name == "beforeEach"@ || name == "afterEach"@ || name == "setup"@ || name == "teardown"@ || name == "suiteSetup"@ || name == "suiteTeardown"@)),
{
    reveal_strlit("default");
    reveal_strlit("test");
    reveal_strlit("it");
    reveal_strlit("only");
    reveal_strlit("skip");
    reveal_strlit("todo");
    reveal_strlit("describe");
    reveal_strlit("suite");
    reveal_strlit("before");
    reveal_strlit("after");
    reveal_strlit("beforeEach");
    reveal_strlit("afterEach");
    reveal_strlit("xit");
    reveal_strlit("xtest");
    reveal_strlit("fit");
    reveal_strlit("xdescribe");
    reveal_strlit("fdescribe");
    reveal_strlit("beforeAll");
    reveal_strlit("afterAll");
    reveal_strlit("specify");
    reveal_strlit("context");
    reveal_strlit("xcontext");
    reveal_strlit("setup");
    reveal_strlit("teardown");
    reveal_strlit("suiteSetup");
    reveal_strlit("suiteTeardown");
    reveal_strlit("serial");
    assert("default"@.len() == 7 && "default"@[0] == 'd');
    assert("specify"@.len() == 7 && "specify"@[0] == 's');
    assert("context"@.len() == 7 && "context"@[0] == 'c');
    assert("test"@.len() == 4 && "test"@[1] == 'e');
    assert("only"@.len() == 4 && "only"@[1] == 'n');
    assert("skip"@.len() == 4 && "skip"@[1] == 'k');
    assert("todo"@.len() == 4 && "todo"@[1] == 'o');
    assert("it"@.len() == 2);
    assert("describe"@.len() == 8 && "describe"@[0] == 'd');
    assert("afterAll"@.len() == 8 && "afterAll"@[0] == 'a');
    assert("xcontext"@.len() == 8 && "xcontext"@[0] == 'x');
    assert("teardown"@.len() == 8 && "teardown"@[0] == 't');
    assert("suite"@.len() == 5 && "suite"@[1] == 'u');
    assert("after"@.len() == 5 && "after"@[1] == 'f');
    assert("xtest"@.len() == 5 && "xtest"@[1] == 't');
    assert("setup"@.len() == 5 && "setup"@[1] == 'e');
    assert("before"@.len() == 6 && "before"@[0] == 'b');
    assert("serial"@.len() == 6 && "serial"@[0] == 's');
    assert("beforeEach"@.len() == 10 && "beforeEach"@[0] == 'b');
    assert("suiteSetup"@.len() == 10 && "suiteSetup"@[0] == 's');
    assert("afterEach"@.len() == 9 && "afterEach"@[0] == 'a');
    assert("xdescribe"@.len() == 9 && "xdescribe"@[0] == 'x');
    assert("fdescribe"@.len() == 9 && "fdescribe"@[0] == 'f');
    assert("beforeAll"@.len() == 9 && "beforeAll"@[0] == 'b');
    assert("xit"@.len() == 3 && "xit"@[0] == 'x');
    assert("fit"@.len() == 3 && "fit"@[0] == 'f');
    assert("suiteTeardown"@.len() == 13);
}

/// What a module of AVA exports: its tests, its suites, its hooks and nothing else
/// that counts as testing.
pub proof fn ava_exports(name: Seq<char>)
    ensures
        gives(Framework::Ava, ApiKind::Namespace, name, ApiKind::Callable(Role::Test)) <==> name == "default"@ || name == "only"@ || name == "skip"@ || name == "todo"@ || name == "serial"@,
        gives(Framework::Ava, ApiKind::Namespace, name, ApiKind::Callable(Role::Hook)) <==> name == "before"@ || name == "after"@ || name == "beforeEach"@ || name == "afterEach"@,
        gives_nothing(Framework::Ava, ApiKind::Namespace, name) <==> !((name == "default"@ || name == "only"@ || name == "skip"@ || name == "todo"@ || name == "serial"@) || (name == "before"@ || name == "after"@ || name == "beforeEach"@ || name == "afterEach"@)),
{
    reveal_strlit("default");
    reveal_strlit("test");
    reveal_strlit("it");
    reveal_strlit("only");
    reveal_strlit("skip");
    reveal_strlit("todo");
    reveal_strlit("describe");
    reveal_strlit("suite");
    reveal_strlit("before");
    reveal_strlit("after");
    reveal_strlit("beforeEach");
    reveal_strlit("afterEach");
    reveal_strlit("xit");
    reveal_strlit("xtest");
    reveal_strlit("fit");
    reveal_strlit("xdescribe");
    reveal_strlit("fdescribe");
    reveal_strlit("beforeAll");
    reveal_strlit("afterAll");
    reveal_strlit("specify");
    reveal_strlit("context");
    reveal_strlit("xcontext");
    reveal_strlit("setup");
    reveal_strlit("teardown");
    reveal_strlit("suiteSetup");
    reveal_strlit("suiteTeardown");
    reveal_strlit("serial");
    assert("default"@.len() == 7 && "default"@[0] == 'd');
    assert("specify"@.len() == 7 && "specify"@[0] == 's');
    assert("context"@.len() == 7 && "context"@[0] == 'c');
    assert("test"@.len() == 4 && "test"@[1] == 'e');
    assert("only"@.len() == 4 && "only"@[1] == 'n');
    assert("skip"@.len() == 4 && "skip"@[1] == 'k');
    assert("todo"@.len() == 4 && "todo"@[1] == 'o');
    assert("it"@.len() == 2);
    assert("describe"@.len() == 8 && "describe"@[0] == 'd');
    assert("afterAll"@.len() == 8 && "afterAll"@[0] == 'a');
    assert("xcontext"@.len() == 8 && "xcontext"@[0] == 'x');
    assert("teardown"@.len() == 8 && "teardown"@[0] == 't');
    assert("suite"@.len() == 5 && "suite"@[1] == 'u');
    assert("after"@.len() == 5 && "after"@[1] == 'f');
    assert("xtest"@.len() == 5 && "xtest"@[1] == 't');
    assert("setup"@.len() == 5 && "setup"@[1] == 'e');
    assert("before"@.len() == 6 && "before"@[0] == 'b');
    assert("serial"@.len() == 6 && "serial"@[0] == 's');
    assert("beforeEach"@.len() == 10 && "beforeEach"@[0] == 'b');
    assert("suiteSetup"@.len() == 10 && "suiteSetup"@[0] == 's');
    assert("afterEach"@.len() == 9 && "afterEach"@[0] == 'a');
    assert("xdescribe"@.len() == 9 && "xdescribe"@[0] == 'x');
    assert("fdescribe"@.len() == 9 && "fdescribe"@[0] == 'f');
    assert("beforeAll"@.len() == 9 && "beforeAll"@[0] == 'b');
    assert("xit"@.len() == 3 && "xit"@[0] == 'x');
    assert("fit"@.len() == 3 && "fit"@[0] == 'f');
    assert("suiteTeardown"@.len() == 13);
}

/// What a module of Tape exports: its tests, its suites, its hooks and nothing else
/// that counts as testing.
pub proof fn tape_exports(name: Seq<char>)
    ensures
        gives(Framework::Tape, ApiKind::Namespace, name, ApiKind::Callable(Role::Test)) <==> name == "default"@ || name == "only"@ || name == "skip"@ || name == "todo"@,
        gives_nothing(Framework::Tape, ApiKind::Namespace, name) <==> !((name == "default"@ || name == "only"@ || name == "skip"@ || name == "todo"@)),
{
    reveal_strlit("default");
    reveal_strlit("test");
    reveal_strlit("it");
    reveal_strlit("only");
    reveal_strlit("skip");
    reveal_strlit("todo");
    reveal_strlit("describe");
    reveal_strlit("suite");
    reveal_strlit("before");
    reveal_strlit("after");
    reveal_strlit("beforeEach");
    reveal_strlit("afterEach");
    reveal_strlit("xit");
    reveal_strlit("xtest");
    reveal_strlit("fit");
    reveal_strlit("xdescribe");
    reveal_strlit("fdescribe");
    reveal_strlit("beforeAll");
    reveal_strlit("afterAll");
    reveal_strlit("specify");
    reveal_strlit("context");
    reveal_strlit("xcontext");
    reveal_strlit("setup");
    reveal_strlit("teardown");
    reveal_strlit("suiteSetup");
    reveal_strlit("suiteTeardown");
    reveal_strlit("serial");
    assert("default"@.len() == 7 && "default"@[0] == 'd');
    assert("specify"@.len() == 7 && "specify"@[0] == 's');
    assert("context"@.len() == 7 && "context"@[0] == 'c');
    assert("test"@.len() == 4 && "test"@[1] == 'e');
    assert("only"@.len() == 4 && "only"@[1] == 'n');
    assert("skip"@.len() == 4 && "skip"@[1] == 'k');
    assert("todo"@.len() == 4 && "todo"@[1] == 'o');
    assert("it"@.len() == 2);
    assert("describe"@.len() == 8 && "describe"@[0] == 'd');
    assert("afterAll"@.len() == 8 && "afterAll"@[0] == 'a');
    assert("xcontext"@.len() == 8 && "xcontext"@[0] == 'x');
    assert("teardown"@.len() == 8 && "teardown"@[0] == 't');
    assert("suite"@.len() == 5 && "suite"@[1] == 'u');
    assert("after"@.len() == 5 && "after"@[1] == 'f');
    assert("xtest"@.len() == 5 && "xtest"@[1] == 't');
    assert("setup"@.len() == 5 && "setup"@[1] == 'e');
    assert("before"@.len() == 6 && "before"@[0] == 'b');
    assert("serial"@.len() == 6 && "serial"@[0] == 's');
    assert("beforeEach"@.len() == 10 && "beforeEach"@[0] == 'b');
    assert("suiteSetup"@.len() == 10 && "suiteSetup"@[0] == 's');
    assert("afterEach"@.len() == 9 && "afterEach"@[0] == 'a');
    assert("xdescribe"@.len() == 9 && "xdescribe"@[0] == 'x');
    assert("fdescribe"@.len() == 9 && "fdescribe"@[0] == 'f');
    assert("beforeAll"@.len() == 9 && "beforeAll"@[0] == 'b');
    assert("xit"@.len() == 3 && "xit"@[0] == 'x');
    assert("fit"@.len() == 3 && "fit"@[0] == 'f');
    assert("suiteTeardown"@.len() == 13);
}

/// What a module of Playwright exports: its tests, its suites, its hooks and nothing else
/// that counts as testing.
pub proof fn playwright_exports(name: Seq<char>)
    ensures
        gives(Framework::Playwright, ApiKind::Namespace, name, ApiKind::Callable(Role::Test)) <==> name == "test"@,
        gives_nothing(Framework::Playwright, ApiKind::Namespace, name) <==> !((name == "test"@)),
{
    reveal_strlit("default");
    reveal_strlit("test");
    reveal_strlit("it");
    reveal_strlit("only");
    reveal_strlit("skip");
    reveal_strlit("todo");
    reveal_strlit("describe");
    reveal_strlit("suite");
    reveal_strlit("before");
    reveal_strlit("after");
    reveal_strlit("beforeEach");
    reveal_strlit("afterEach");
    reveal_strlit("xit");
    reveal_strlit("xtest");
    reveal_strlit("fit");
    reveal_strlit("xdescribe");
    reveal_strlit("fdescribe");
    reveal_strlit("beforeAll");
    reveal_strlit("afterAll");
    reveal_strlit("specify");
    reveal_strlit("context");
    reveal_strlit("xcontext");
    reveal_strlit("setup");
    reveal_strlit("teardown");
    reveal_strlit("suiteSetup");
    reveal_strlit("suiteTeardown");
    reveal_strlit("serial");
    assert("default"@.len() == 7 && "default"@[0] == 'd');
    assert("specify"@.len() == 7 && "specify"@[0] == 's');
    assert("context"@.len() == 7 && "context"@[0] == 'c');
    assert("test"@.len() == 4 && "test"@[1] == 'e');
    assert("only"@.len() == 4 && "only"@[1] == 'n');
    assert("skip"@.len() == 4 && "skip"@[1] == 'k');
    assert("todo"@.len() == 4 && "todo"@[1] == 'o');
    assert("it"@.len() == 2);
    assert("describe"@.len() == 8 && "describe"@[0] == 'd');
    assert("afterAll"@.len() == 8 && "afterAll"@[0] == 'a');
    assert("xcontext"@.len() == 8 && "xcontext"@[0] == 'x');
    assert("teardown"@.len() == 8 && "teardown"@[0] == 't');
    assert("suite"@.len() == 5 && "suite"@[1] == 'u');
    assert("after"@.len() == 5 && "after"@[1] == 'f');
    assert("xtest"@.len() == 5 && "xtest"@[1] == 't');
    assert("setup"@.len() == 5 && "setup"@[1] == 'e');
    assert("before"@.len() == 6 && "before"@[0] == 'b');
    assert("serial"@.len() == 6 && "serial"@[0] == 's');
    assert("beforeEach"@.len() == 10 && "beforeEach"@[0] == 'b');
    assert("suiteSetup"@.len() == 10 && "suiteSetup"@[0] == 's');
    assert("afterEach"@.len() == 9 && "afterEach"@[0] == 'a');
    assert("xdescribe"@.len() == 9 && "xdescribe"@[0] == 'x');
    assert("fdescribe"@.len() == 9 && "fdescribe"@[0] == 'f');
    assert("beforeAll"@.len() == 9 && "beforeAll"@[0] == 'b');
    assert("xit"@.len() == 3 && "xit"@[0] == 'x');
    assert("fit"@.len() == 3 && "fit"@[0] == 'f');
    assert("suiteTeardown"@.len() == 13);
}

/// What a module of uvu exports: its tests, its suites, its hooks and nothing else
/// that counts as testing.
pub proof fn uvu_exports(name: Seq<char>)
    ensures
        gives(Framework::Uvu, ApiKind::Namespace, name, ApiKind::Callable(Role::Test)) <==> name == "test"@,
        gives(Framework::Uvu, ApiKind::Namespace, name, ApiKind::Factory(Role::Test)) <==> name == "suite"@,
        gives_nothing(Framework::Uvu, ApiKind::Namespace, name) <==> !((name == "test"@) || (name == "suite"@)),
{
    reveal_strlit("default");
    reveal_strlit("test");
    reveal_strlit("it");
    reveal_strlit("only");
    reveal_strlit("skip");
    reveal_strlit("todo");
    reveal_strlit("describe");
    reveal_strlit("suite");
    reveal_strlit("before");
    reveal_strlit("after");
    reveal_strlit("beforeEach");
    reveal_strlit("afterEach");
    reveal_strlit("xit");
    reveal_strlit("xtest");
    reveal_strlit("fit");
    reveal_strlit("xdescribe");
    reveal_strlit("fdescribe");
    reveal_strlit("beforeAll");
    reveal_strlit("afterAll");
    reveal_strlit("specify");
    reveal_strlit("context");
    reveal_strlit("xcontext");
    reveal_strlit("setup");
    reveal_strlit("teardown");
    reveal_strlit("suiteSetup");
    reveal_strlit("suiteTeardown");
    reveal_strlit("serial");
    assert("default"@.len() == 7 && "default"@[0] == 'd');
    assert("specify"@.len() == 7 && "specify"@[0] == 's');
    assert("context"@.len() == 7 && "context"@[0] == 'c');
    assert("test"@.len() == 4 && "test"@[1] == 'e');
    assert("only"@.len() == 4 && "only"@[1] == 'n');
    assert("skip"@.len() == 4 && "skip"@[1] == 'k');
    assert("todo"@.len() == 4 && "todo"@[1] == 'o');
    assert("it"@.len() == 2);
    assert("describe"@.len() == 8 && "describe"@[0] == 'd');
    assert("afterAll"@.len() == 8 && "afterAll"@[0] == 'a');
    assert("xcontext"@.len() == 8 && "xcontext"@[0] == 'x');
    assert("teardown"@.len() == 8 && "teardown"@[0] == 't');
    assert("suite"@.len() == 5 && "suite"@[1] == 'u');
    assert("after"@.len() == 5 && "after"@[1] == 'f');
    assert("xtest"@.len() == 5 && "xtest"@[1] == 't');
    assert("setup"@.len() == 5 && "setup"@[1] == 'e');
    assert("before"@.len() == 6 && "before"@[0] == 'b');
    assert("serial"@.len() == 6 && "serial"@[0] == 's');
    assert("beforeEach"@.len() == 10 && "beforeEach"@[0] == 'b');
    assert("suiteSetup"@.len() == 10 && "suiteSetup"@[0] == 's');
    assert("afterEach"@.len() == 9 && "afterEach"@[0] == 'a');
    assert("xdescribe"@.len() == 9 && "xdescribe"@[0] == 'x');
    assert("fdescribe"@.len() == 9 && "fdescribe"@[0] == 'f');
    assert("beforeAll"@.len() == 9 && "beforeAll"@[0] == 'b');
    assert("xit"@.len() == 3 && "xit"@[0] == 'x');
    assert("fit"@.len() == 3 && "fit"@[0] == 'f');
    assert("suiteTeardown"@.len() == 13);
}

/// What the exports of Node's test runner have as members: `role` is that of the export.
pub proof fn node_members(role: Role, name: Seq<char>)
    ensures
        gives(Framework::Node, ApiKind::Callable(role), name, ApiKind::Callable(Role::Test)) <==> name == "test"@ || name == "it"@ || (role == Role::Test && (common_modifier(name))),
        gives(Framework::Node, ApiKind::Callable(role), name, ApiKind::Callable(Role::Suite)) <==> name == "describe"@ || (role == Role::Suite && (common_modifier(name))),
        gives(Framework::Node, ApiKind::Callable(role), name, ApiKind::Callable(Role::Hook)) <==> name == "before"@ || name == "after"@ || name == "beforeEach"@ || name == "afterEach"@,
        gives_nothing(Framework::Node, ApiKind::Callable(role), name) <==> !((name == "test"@ || name == "it"@ || (role == Role::Test && (common_modifier(name)))) || (name == "describe"@ || (role == Role::Suite && (common_modifier(name)))) || (name == "before"@ || name == "after"@ || name == "beforeEach"@ || name == "afterEach"@)),
{
    reveal_strlit("only");
    reveal_strlit("skip");
    reveal_strlit("todo");
    reveal_strlit("concurrent");
    reveal_strlit("serial");
    reveal_strlit("parallel");
    reveal_strlit("sequential");
    reveal_strlit("fails");
    reveal_strlit("failing");
    reveal_strlit("always");
    reveal_strlit("each");
    reveal_strlit("for");
    reveal_strlit("skipIf");
    reveal_strlit("runIf");
    reveal_strlit("describe");
    reveal_strlit("test");
    reveal_strlit("it");
    reveal_strlit("before");
    reveal_strlit("after");
    reveal_strlit("beforeEach");
    reveal_strlit("afterEach");
    reveal_strlit("beforeAll");
    reveal_strlit("afterAll");
    reveal_strlit("extend");
    reveal_strlit("use");
    reveal_strlit("setTimeout");
    reveal_strlit("configure");
    reveal_strlit("step");
    reveal_strlit("fail");
    reveal_strlit("fixme");
    reveal_strlit("slow");
    reveal_strlit("run");
    assert("only"@.len() == 4 && "only"@[1] == 'n' && "only"@[0] == 'o');
    assert("skip"@.len() == 4 && "skip"@[1] == 'k' && "skip"@[0] == 's');
    assert("todo"@.len() == 4 && "todo"@[1] == 'o' && "todo"@[0] == 't');
    assert("each"@.len() == 4 && "each"@[1] == 'a' && "each"@[0] == 'e');
    assert("test"@.len() == 4 && "test"@[1] == 'e' && "test"@[0] == 't');
    assert("step"@.len() == 4 && "step"@[1] == 't' && "step"@[0] == 's');
    assert("fail"@.len() == 4 && "fail"@[1] == 'a' && "fail"@[0] == 'f');
    assert("slow"@.len() == 4 && "slow"@[1] == 'l' && "slow"@[0] == 's');
    assert("concurrent"@.len() == 10 && "concurrent"@[2] == 'n');
    assert("sequential"@.len() == 10 && "sequential"@[2] == 'q');
    assert("beforeEach"@.len() == 10 && "beforeEach"@[2] == 'f');
    assert("setTimeout"@.len() == 10 && "setTimeout"@[2] == 't');
    assert("serial"@.len() == 6 && "serial"@[2] == 'r');
    assert("always"@.len() == 6 && "always"@[2] == 'w');
    assert("skipIf"@.len() == 6 && "skipIf"@[2] == 'i');
    assert("before"@.len() == 6 && "before"@[2] == 'f');
    assert("extend"@.len() == 6 && "extend"@[2] == 't');
    assert("parallel"@.len() == 8 && "parallel"@[0] == 'p');
    assert("describe"@.len() == 8 && "describe"@[0] == 'd');
    assert("afterAll"@.len() == 8 && "afterAll"@[0] == 'a');
    assert("fails"@.len() == 5 && "fails"@[1] == 'a');
    assert("runIf"@.len() == 5 && "runIf"@[1] == 'u');
    assert("after"@.len() == 5 && "after"@[1] == 'f');
    assert("fixme"@.len() == 5 && "fixme"@[1] == 'i');
    assert("failing"@.len() == 7);
    assert("for"@.len() == 3 && "for"@[0] == 'f');
    assert("use"@.len() == 3 && "use"@[0] == 'u');
    assert("run"@.len() == 3 && "run"@[0] == 'r');
    assert("it"@.len() == 2);
    assert("afterEach"@.len() == 9 && "afterEach"@[0] == 'a');
    assert("beforeAll"@.len() == 9 && "beforeAll"@[0] == 'b');
    assert("configure"@.len() == 9 && "configure"@[0] == 'c');
}

/// What the exports of Jest have as members: `role` is that of the export.
pub proof fn jest_members(role: Role, name: Seq<char>)
    ensures
        gives(Framework::Jest, ApiKind::Callable(role), name, ApiKind::Callable(Role::Test)) <==> role == Role::Test && (common_modifier(name) || name == "concurrent"@ || name == "failing"@),
        gives(Framework::Jest, ApiKind::Callable(role), name, ApiKind::Callable(Role::Suite)) <==> role == Role::Suite && (common_modifier(name) || name == "concurrent"@ || name == "failing"@),
        gives(Framework::Jest, ApiKind::Callable(role), name, ApiKind::Callable(Role::Hook)) <==> role == Role::Hook && (name == "concurrent"@ || name == "failing"@),
        gives(Framework::Jest, ApiKind::Callable(role), name, ApiKind::Callable(Role::Configure)) <==> role == Role::Configure && (name == "concurrent"@ || name == "failing"@),
        gives(Framework::Jest, ApiKind::Callable(role), name, ApiKind::Factory(Role::Test)) <==> role == Role::Test && (name == "each"@),
        gives(Framework::Jest, ApiKind::Callable(role), name, ApiKind::Factory(Role::Suite)) <==> role == Role::Suite && (name == "each"@),
        gives(Framework::Jest, ApiKind::Callable(role), name, ApiKind::Factory(Role::Hook)) <==> role == Role::Hook && (name == "each"@),
        gives(Framework::Jest, ApiKind::Callable(role), name, ApiKind::Factory(Role::Configure)) <==> role == Role::Configure && (name == "each"@),
        gives_nothing(Framework::Jest, ApiKind::Callable(role), name) <==> !((role == Role::Test && (common_modifier(name) || name == "concurrent"@ || name == "failing"@)) || (role == Role::Suite && (common_modifier(name) || name == "concurrent"@ || name == "failing"@)) || (role == Role::Hook && (name == "concurrent"@ || name == "failing"@)) || (role == Role::Configure && (name == "concurrent"@ || name == "failing"@)) || (role == Role::Test && (name == "each"@)) || (role == Role::Suite && (name == "each"@)) || (role == Role::Hook && (name == "each"@)) || (role == Role::Configure && (name == "each"@))),
{
    reveal_strlit("only");
    reveal_strlit("skip");
    reveal_strlit("todo");
    reveal_strlit("concurrent");
    reveal_strlit("serial");
    reveal_strlit("parallel");
    reveal_strlit("sequential");
    reveal_strlit("fails");
    reveal_strlit("failing");
    reveal_strlit("always");
    reveal_strlit("each");
    reveal_strlit("for");
    reveal_strlit("skipIf");
    reveal_strlit("runIf");
    reveal_strlit("describe");
    reveal_strlit("test");
    reveal_strlit("it");
    reveal_strlit("before");
    reveal_strlit("after");
    reveal_strlit("beforeEach");
    reveal_strlit("afterEach");
    reveal_strlit("beforeAll");
    reveal_strlit("afterAll");
    reveal_strlit("extend");
    reveal_strlit("use");
    reveal_strlit("setTimeout");
    reveal_strlit("configure");
    reveal_strlit("step");
    reveal_strlit("fail");
    reveal_strlit("fixme");
    reveal_strlit("slow");
    reveal_strlit("run");
    assert("only"@.len() == 4 && "only"@[1] == 'n' && "only"@[0] == 'o');
    assert("skip"@.len() == 4 && "skip"@[1] == 'k' && "skip"@[0] == 's');
    assert("todo"@.len() == 4 && "todo"@[1] == 'o' && "todo"@[0] == 't');
    assert("each"@.len() == 4 && "each"@[1] == 'a' && "each"@[0] == 'e');
    assert("test"@.len() == 4 && "test"@[1] == 'e' && "test"@[0] == 't');
    assert("step"@.len() == 4 && "step"@[1] == 't' && "step"@[0] == 's');
    assert("fail"@.len() == 4 && "fail"@[1] == 'a' && "fail"@[0] == 'f');
    assert("slow"@.len() == 4 && "slow"@[1] == 'l' && "slow"@[0] == 's');
    assert("concurrent"@.len() == 10 && "concurrent"@[2] == 'n');
    assert("sequential"@.len() == 10 && "sequential"@[2] == 'q');
    assert("beforeEach"@.len() == 10 && "beforeEach"@[2] == 'f');
    assert("setTimeout"@.len() == 10 && "setTimeout"@[2] == 't');
    assert("serial"@.len() == 6 && "serial"@[2] == 'r');
    assert("always"@.len() == 6 && "always"@[2] == 'w');
    assert("skipIf"@.len() == 6 && "skipIf"@[2] == 'i');
    assert("before"@.len() == 6 && "before"@[2] == 'f');
    assert("extend"@.len() == 6 && "extend"@[2] == 't');
    assert("parallel"@.len() == 8 && "parallel"@[0] == 'p');
    assert("describe"@.len() == 8 && "describe"@[0] == 'd');
    assert("afterAll"@.len() == 8 && "afterAll"@[0] == 'a');
    assert("fails"@.len() == 5 && "fails"@[1] == 'a');
    assert("runIf"@.len() == 5 && "runIf"@[1] == 'u');
    assert("after"@.len() == 5 && "after"@[1] == 'f');
    assert("fixme"@.len() == 5 && "fixme"@[1] == 'i');
    assert("failing"@.len() == 7);
    assert("for"@.len() == 3 && "for"@[0] == 'f');
    assert("use"@.len() == 3 && "use"@[0] == 'u');
    assert("run"@.len() == 3 && "run"@[0] == 'r');
    assert("it"@.len() == 2);
    assert("afterEach"@.len() == 9 && "afterEach"@[0] == 'a');
    assert("beforeAll"@.len() == 9 && "beforeAll"@[0] == 'b');
    assert("configure"@.len() == 9 && "configure"@[0] == 'c');
}

/// What the exports of Vitest have as members: `role` is that of the export.
pub proof fn vitest_members(role: Role, name: Seq<char>)
    ensures
        gives(Framework::Vitest, ApiKind::Callable(role), name, ApiKind::Callable(Role::Test)) <==> role == Role::Test && (common_modifier(name) || name == "concurrent"@ || name == "sequential"@ || name == "fails"@),
        gives(Framework::Vitest, ApiKind::Callable(role), name, ApiKind::Callable(Role::Suite)) <==> role == Role::Suite && (common_modifier(name) || name == "concurrent"@ || name == "sequential"@ || name == "fails"@),
        gives(Framework::Vitest, ApiKind::Callable(role), name, ApiKind::Callable(Role::Hook)) <==> role == Role::Hook && (name == "concurrent"@ || name == "sequential"@ || name == "fails"@),
        gives(Framework::Vitest, ApiKind::Callable(role), name, ApiKind::Callable(Role::Configure)) <==> role == Role::Configure && (name == "concurrent"@ || name == "sequential"@ || name == "fails"@),
        gives(Framework::Vitest, ApiKind::Callable(role), name, ApiKind::Factory(Role::Test)) <==> name == "extend"@ || (role == Role::Test && (name == "each"@ || name == "for"@ || name == "skipIf"@ || name == "runIf"@)),
        gives(Framework::Vitest, ApiKind::Callable(role), name, ApiKind::Factory(Role::Suite)) <==> role == Role::Suite && (name == "each"@ || name == "for"@ || name == "skipIf"@ || name == "runIf"@),
        gives(Framework::Vitest, ApiKind::Callable(role), name, ApiKind::Factory(Role::Hook)) <==> role == Role::Hook && (name == "each"@ || name == "for"@ || name == "skipIf"@ || name == "runIf"@),
        gives(Framework::Vitest, ApiKind::Callable(role), name, ApiKind::Factory(Role::Configure)) <==> role == Role::Configure && (name == "each"@ || name == "for"@ || name == "skipIf"@ || name == "runIf"@),
        gives_nothing(Framework::Vitest, ApiKind::Callable(role), name) <==> !((role == Role::Test && (common_modifier(name) || name == "concurrent"@ || name == "sequential"@ || name == "fails"@)) || (role == Role::Suite && (common_modifier(name) || name == "concurrent"@ || name == "sequential"@ || name == "fails"@)) || (role == Role::Hook && (name == "concurrent"@ || name == "sequential"@ || name == "fails"@)) || (role == Role::Configure && (name == "concurrent"@ || name == "sequential"@ || name == "fails"@)) || (name == "extend"@ || (role == Role::Test && (name == "each"@ || name == "for"@ || name == "skipIf"@ || name == "runIf"@))) || (role == Role::Suite && (name == "each"@ || name == "for"@ || name == "skipIf"@ || name == "runIf"@)) || (role == Role::Hook && (name == "each"@ || name == "for"@ || name == "skipIf"@ || name == "runIf"@)) || (role == Role::Configure && (name == "each"@ || name == "for"@ || name == "skipIf"@ || name == "runIf"@))),
{
    reveal_strlit("only");
    reveal_strlit("skip");
    reveal_strlit("todo");
    reveal_strlit("concurrent");
    reveal_strlit("serial");
    reveal_strlit("parallel");
    reveal_strlit("sequential");
    reveal_strlit("fails");
    reveal_strlit("failing");
    reveal_strlit("always");
    reveal_strlit("each");
    reveal_strlit("for");
    reveal_strlit("skipIf");
    reveal_strlit("runIf");
    reveal_strlit("describe");
    reveal_strlit("test");
    reveal_strlit("it");
    reveal_strlit("before");
    reveal_strlit("after");
    reveal_strlit("beforeEach");
    reveal_strlit("afterEach");
    reveal_strlit("beforeAll");
    reveal_strlit("afterAll");
    reveal_strlit("extend");
    reveal_strlit("use");
    reveal_strlit("setTimeout");
    reveal_strlit("configure");
    reveal_strlit("step");
    reveal_strlit("fail");
    reveal_strlit("fixme");
    reveal_strlit("slow");
    reveal_strlit("run");
    assert("only"@.len() == 4 && "only"@[1] == 'n' && "only"@[0] == 'o');
    assert("skip"@.len() == 4 && "skip"@[1] == 'k' && "skip"@[0] == 's');
    assert("todo"@.len() == 4 && "todo"@[1] == 'o' && "todo"@[0] == 't');
    assert("each"@.len() == 4 && "each"@[1] == 'a' && "each"@[0] == 'e');
    assert("test"@.len() == 4 && "test"@[1] == 'e' && "test"@[0] == 't');
    assert("step"@.len() == 4 && "step"@[1] == 't' && "step"@[0] == 's');
    assert("fail"@.len() == 4 && "fail"@[1] == 'a' && "fail"@[0] == 'f');
    assert("slow"@.len() == 4 && "slow"@[1] == 'l' && "slow"@[0] == 's');
    assert("concurrent"@.len() == 10 && "concurrent"@[2] == 'n');
    assert("sequential"@.len() == 10 && "sequential"@[2] == 'q');
    assert("beforeEach"@.len() == 10 && "beforeEach"@[2] == 'f');
    assert("setTimeout"@.len() == 10 && "setTimeout"@[2] == 't');
    assert("serial"@.len() == 6 && "serial"@[2] == 'r');
    assert("always"@.len() == 6 && "always"@[2] == 'w');
    assert("skipIf"@.len() == 6 && "skipIf"@[2] == 'i');
    assert("before"@.len() == 6 && "before"@[2] == 'f');
    assert("extend"@.len() == 6 && "extend"@[2] == 't');
    assert("parallel"@.len() == 8 && "parallel"@[0] == 'p');
    assert("describe"@.len() == 8 && "describe"@[0] == 'd');
    assert("afterAll"@.len() == 8 && "afterAll"@[0] == 'a');
    assert("fails"@.len() == 5 && "fails"@[1] == 'a');
    assert("runIf"@.len() == 5 && "runIf"@[1] == 'u');
    assert("after"@.len() == 5 && "after"@[1] == 'f');
    assert("fixme"@.len() == 5 && "fixme"@[1] == 'i');
    assert("failing"@.len() == 7);
    assert("for"@.len() == 3 && "for"@[0] == 'f');
    assert("use"@.len() == 3 && "use"@[0] == 'u');
    assert("run"@.len() == 3 && "run"@[0] == 'r');
    assert("it"@.len() == 2);
    assert("afterEach"@.len() == 9 && "afterEach"@[0] == 'a');
    assert("beforeAll"@.len() == 9 && "beforeAll"@[0] == 'b');
    assert("configure"@.len() == 9 && "configure"@[0] == 'c');
}

/// What the exports of Mocha have as members: `role` is that of the export.
pub proof fn mocha_members(role: Role, name: Seq<char>)
    ensures
        gives(Framework::Mocha, ApiKind::Callable(role), name, ApiKind::Callable(Role::Test)) <==> role == Role::Test && (common_modifier(name)),
        gives(Framework::Mocha, ApiKind::Callable(role), name, ApiKind::Callable(Role::Suite)) <==> role == Role::Suite && (common_modifier(name)),
        gives_nothing(Framework::Mocha, ApiKind::Callable(role), name) <==> !((role == Role::Test && (common_modifier(name))) || (role == Role::Suite && (common_modifier(name)))),
{
    reveal_strlit("only");
    reveal_strlit("skip");
    reveal_strlit("todo");
    reveal_strlit("concurrent");
    reveal_strlit("serial");
    reveal_strlit("parallel");
    reveal_strlit("sequential");
    reveal_strlit("fails");
    reveal_strlit("failing");
    reveal_strlit("always");
    reveal_strlit("each");
    reveal_strlit("for");
    reveal_strlit("skipIf");
    reveal_strlit("runIf");
    reveal_strlit("describe");
    reveal_strlit("test");
    reveal_strlit("it");
    reveal_strlit("before");
    reveal_strlit("after");
    reveal_strlit("beforeEach");
    reveal_strlit("afterEach");
    reveal_strlit("beforeAll");
    reveal_strlit("afterAll");
    reveal_strlit("extend");
    reveal_strlit("use");
    reveal_strlit("setTimeout");
    reveal_strlit("configure");
    reveal_strlit("step");
    reveal_strlit("fail");
    reveal_strlit("fixme");
    reveal_strlit("slow");
    reveal_strlit("run");
    assert("only"@.len() == 4 && "only"@[1] == 'n' && "only"@[0] == 'o');
    assert("skip"@.len() == 4 && "skip"@[1] == 'k' && "skip"@[0] == 's');
    assert("todo"@.len() == 4 && "todo"@[1] == 'o' && "todo"@[0] == 't');
    assert("each"@.len() == 4 && "each"@[1] == 'a' && "each"@[0] == 'e');
    assert("test"@.len() == 4 && "test"@[1] == 'e' && "test"@[0] == 't');
    assert("step"@.len() == 4 && "step"@[1] == 't' && "step"@[0] == 's');
    assert("fail"@.len() == 4 && "fail"@[1] == 'a' && "fail"@[0] == 'f');
    assert("slow"@.len() == 4 && "slow"@[1] == 'l' && "slow"@[0] == 's');
    assert("concurrent"@.len() == 10 && "concurrent"@[2] == 'n');
    assert("sequential"@.len() == 10 && "sequential"@[2] == 'q');
    assert("beforeEach"@.len() == 10 && "beforeEach"@[2] == 'f');
    assert("setTimeout"@.len() == 10 && "setTimeout"@[2] == 't');
    assert("serial"@.len() == 6 && "serial"@[2] == 'r');
    assert("always"@.len() == 6 && "always"@[2] == 'w');
    assert("skipIf"@.len() == 6 && "skipIf"@[2] == 'i');
    assert("before"@.len() == 6 && "before"@[2] == 'f');
    assert("extend"@.len() == 6 && "extend"@[2] == 't');
    assert("parallel"@.len() == 8 && "parallel"@[0] == 'p');
    assert("describe"@.len() == 8 && "describe"@[0] == 'd');
    assert("afterAll"@.len() == 8 && "afterAll"@[0] == 'a');
    assert("fails"@.len() == 5 && "fails"@[1] == 'a');
    assert("runIf"@.len() == 5 && "runIf"@[1] == 'u');
    assert("after"@.len() == 5 && "after"@[1] == 'f');
    assert("fixme"@.len() == 5 && "fixme"@[1] == 'i');
    assert("failing"@.len() == 7);
    assert("for"@.len() == 3 && "for"@[0] == 'f');
    assert("use"@.len() == 3 && "use"@[0] == 'u');
    assert("run"@.len() == 3 && "run"@[0] == 'r');
    assert("it"@.len() == 2);
    assert("afterEach"@.len() == 9 && "afterEach"@[0] == 'a');
    assert("beforeAll"@.len() == 9 && "beforeAll"@[0] == 'b');
    assert("configure"@.len() == 9 && "configure"@[0] == 'c');
}

/// What the exports of AVA have as members: `role` is that of the export.
pub proof fn ava_members(role: Role, name: Seq<char>)
    ensures
        gives(Framework::Ava, ApiKind::Callable(role), name, ApiKind::Callable(Role::Test)) <==> role == Role::Test && (common_modifier(name) || name == "serial"@ || name == "failing"@),
        gives(Framework::Ava, ApiKind::Callable(role), name, ApiKind::Callable(Role::Suite)) <==> role == Role::Suite && (common_modifier(name) || name == "serial"@ || name == "failing"@),
        gives(Framework::Ava, ApiKind::Callable(role), name, ApiKind::Callable(Role::Hook)) <==> name == "before"@ || name == "after"@ || name == "beforeEach"@ || name == "afterEach"@ || (role == Role::Hook && (name == "serial"@ || name == "failing"@ || name == "always"@)),
        gives(Framework::Ava, ApiKind::Callable(role), name, ApiKind::Callable(Role::Configure)) <==> role == Role::Configure && (name == "serial"@ || name == "failing"@),
        gives_nothing(Framework::Ava, ApiKind::Callable(role), name) <==> !((role == Role::Test && (common_modifier(name) || name == "serial"@ || name == "failing"@)) || (role == Role::Suite && (common_modifier(name) || name == "serial"@ || name == "failing"@)) || (name == "before"@ || name == "after"@ || name == "beforeEach"@ || name == "afterEach"@ || (role == Role::Hook && (name == "serial"@ || name == "failing"@ || name == "always"@))) || (role == Role::Configure && (name == "serial"@ || name == "failing"@))),
{
    reveal_strlit("only");
    reveal_strlit("skip");
    reveal_strlit("todo");
    reveal_strlit("concurrent");
    reveal_strlit("serial");
    reveal_strlit("parallel");
    reveal_strlit("sequential");
    reveal_strlit("fails");
    reveal_strlit("failing");
    reveal_strlit("always");
    reveal_strlit("each");
    reveal_strlit("for");
    reveal_strlit("skipIf");
    reveal_strlit("runIf");
    reveal_strlit("describe");
    reveal_strlit("test");
    reveal_strlit("it");
    reveal_strlit("before");
    reveal_strlit("after");
    reveal_strlit("beforeEach");
    reveal_strlit("afterEach");
    reveal_strlit("beforeAll");
    reveal_strlit("afterAll");
    reveal_strlit("extend");
    reveal_strlit("use");
    reveal_strlit("setTimeout");
    reveal_strlit("configure");
    reveal_strlit("step");
    reveal_strlit("fail");
    reveal_strlit("fixme");
    reveal_strlit("slow");
    reveal_strlit("run");
    assert("only"@.len() == 4 && "only"@[1] == 'n' && "only"@[0] == 'o');
    assert("skip"@.len() == 4 && "skip"@[1] == 'k' && "skip"@[0] == 's');
    assert("todo"@.len() == 4 && "todo"@[1] == 'o' && "todo"@[0] == 't');
    assert("each"@.len() == 4 && "each"@[1] == 'a' && "each"@[0] == 'e');
    assert("test"@.len() == 4 && "test"@[1] == 'e' && "test"@[0] == 't');
    assert("step"@.len() == 4 && "step"@[1] == 't' && "step"@[0] == 's');
    assert("fail"@.len() == 4 && "fail"@[1] == 'a' && "fail"@[0] == 'f');
    assert("slow"@.len() == 4 && "slow"@[1] == 'l' && "slow"@[0] == 's');
    assert("concurrent"@.len() == 10 && "concurrent"@[2] == 'n');
    assert("sequential"@.len() == 10 && "sequential"@[2] == 'q');
    assert("beforeEach"@.len() == 10 && "beforeEach"@[2] == 'f');
    assert("setTimeout"@.len() == 10 && "setTimeout"@[2] == 't');
    assert("serial"@.len() == 6 && "serial"@[2] == 'r');
    assert("always"@.len() == 6 && "always"@[2] == 'w');
    assert("skipIf"@.len() == 6 && "skipIf"@[2] == 'i');
    assert("before"@.len() == 6 && "before"@[2] == 'f');
    assert("extend"@.len() == 6 && "extend"@[2] == 't');
    assert("parallel"@.len() == 8 && "parallel"@[0] == 'p');
    assert("describe"@.len() == 8 && "describe"@[0] == 'd');
    assert("afterAll"@.len() == 8 && "afterAll"@[0] == 'a');
    assert("fails"@.len() == 5 && "fails"@[1] == 'a');
    assert("runIf"@.len() == 5 && "runIf"@[1] == 'u');
    assert("after"@.len() == 5 && "after"@[1] == 'f');
    assert("fixme"@.len() == 5 && "fixme"@[1] == 'i');
    assert("failing"@.len() == 7);
    assert("for"@.len() == 3 && "for"@[0] == 'f');
    assert("use"@.len() == 3 && "use"@[0] == 'u');
    assert("run"@.len() == 3 && "run"@[0] == 'r');
    assert("it"@.len() == 2);
    assert("afterEach"@.len() == 9 && "afterEach"@[0] == 'a');
    assert("beforeAll"@.len() == 9 && "beforeAll"@[0] == 'b');
    assert("configure"@.len() == 9 && "configure"@[0] == 'c');
}

/// What the exports of Tape have as members: `role` is that of the export.
pub proof fn tape_members(role: Role, name: Seq<char>)
    ensures
        gives(Framework::Tape, ApiKind::Callable(role), name, ApiKind::Callable(Role::Test)) <==> role == Role::Test && (common_modifier(name)),
        gives(Framework::Tape, ApiKind::Callable(role), name, ApiKind::Callable(Role::Suite)) <==> role == Role::Suite && (common_modifier(name)),
        gives_nothing(Framework::Tape, ApiKind::Callable(role), name) <==> !((role == Role::Test && (common_modifier(name))) || (role == Role::Suite && (common_modifier(name)))),
{
    reveal_strlit("only");
    reveal_strlit("skip");
    reveal_strlit("todo");
    reveal_strlit("concurrent");
    reveal_strlit("serial");
    reveal_strlit("parallel");
    reveal_strlit("sequential");
    reveal_strlit("fails");
    reveal_strlit("failing");
    reveal_strlit("always");
    reveal_strlit("each");
    reveal_strlit("for");
    reveal_strlit("skipIf");
    reveal_strlit("runIf");
    reveal_strlit("describe");
    reveal_strlit("test");
    reveal_strlit("it");
    reveal_strlit("before");
    reveal_strlit("after");
    reveal_strlit("beforeEach");
    reveal_strlit("afterEach");
    reveal_strlit("beforeAll");
    reveal_strlit("afterAll");
    reveal_strlit("extend");
    reveal_strlit("use");
    reveal_strlit("setTimeout");
    reveal_strlit("configure");
    reveal_strlit("step");
    reveal_strlit("fail");
    reveal_strlit("fixme");
    reveal_strlit("slow");
    reveal_strlit("run");
    assert("only"@.len() == 4 && "only"@[1] == 'n' && "only"@[0] == 'o');
    assert("skip"@.len() == 4 && "skip"@[1] == 'k' && "skip"@[0] == 's');
    assert("todo"@.len() == 4 && "todo"@[1] == 'o' && "todo"@[0] == 't');
    assert("each"@.len() == 4 && "each"@[1] == 'a' && "each"@[0] == 'e');
    assert("test"@.len() == 4 && "test"@[1] == 'e' && "test"@[0] == 't');
    assert("step"@.len() == 4 && "step"@[1] == 't' && "step"@[0] == 's');
    assert("fail"@.len() == 4 && "fail"@[1] == 'a' && "fail"@[0] == 'f');
    assert("slow"@.len() == 4 && "slow"@[1] == 'l' && "slow"@[0] == 's');
    assert("concurrent"@.len() == 10 && "concurrent"@[2] == 'n');
    assert("sequential"@.len() == 10 && "sequential"@[2] == 'q');
    assert("beforeEach"@.len() == 10 && "beforeEach"@[2] == 'f');
    assert("setTimeout"@.len() == 10 && "setTimeout"@[2] == 't');
    assert("serial"@.len() == 6 && "serial"@[2] == 'r');
    assert("always"@.len() == 6 && "always"@[2] == 'w');
    assert("skipIf"@.len() == 6 && "skipIf"@[2] == 'i');
    assert("before"@.len() == 6 && "before"@[2] == 'f');
    assert("extend"@.len() == 6 && "extend"@[2] == 't');
    assert("parallel"@.len() == 8 && "parallel"@[0] == 'p');
    assert("describe"@.len() == 8 && "describe"@[0] == 'd');
    assert("afterAll"@.len() == 8 && "afterAll"@[0] == 'a');
    assert("fails"@.len() == 5 && "fails"@[1] == 'a');
    assert("runIf"@.len() == 5 && "runIf"@[1] == 'u');
    assert("after"@.len() == 5 && "after"@[1] == 'f');
    assert("fixme"@.len() == 5 && "fixme"@[1] == 'i');
    assert("failing"@.len() == 7);
    assert("for"@.len() == 3 && "for"@[0] == 'f');
    assert("use"@.len() == 3 && "use"@[0] == 'u');
    assert("run"@.len() == 3 && "run"@[0] == 'r');
    assert("it"@.len() == 2);
    assert("afterEach"@.len() == 9 && "afterEach"@[0] == 'a');
    assert("beforeAll"@.len() == 9 && "beforeAll"@[0] == 'b');
    assert("configure"@.len() == 9 && "configure"@[0] == 'c');
}

/// What the exports of Playwright have as members: `role` is that of the export.
pub proof fn playwright_members(role: Role, name: Seq<char>)
    ensures
        gives(Framework::Playwright, ApiKind::Callable(role), name, ApiKind::Callable(Role::Test)) <==> role == Role::Test && (common_modifier(name) || name == "serial"@ || name == "parallel"@),
        gives(Framework::Playwright, ApiKind::Callable(role), name, ApiKind::Callable(Role::Suite)) <==> name == "describe"@ || (role == Role::Suite && (common_modifier(name) || name == "serial"@ || name == "parallel"@)),
        gives(Framework::Playwright, ApiKind::Callable(role), name, ApiKind::Callable(Role::Hook)) <==> name == "beforeEach"@ || name == "afterEach"@ || name == "beforeAll"@ || name == "afterAll"@ || (role == Role::Hook && (name == "serial"@ || name == "parallel"@)),
        gives(Framework::Playwright, ApiKind::Callable(role), name, ApiKind::Callable(Role::Configure)) <==> name == "use"@ || name == "setTimeout"@ || name == "configure"@ || name == "step"@ || name == "fail"@ || name == "fixme"@ || name == "slow"@ || (role == Role::Configure && (name == "serial"@ || name == "parallel"@)),
        gives(Framework::Playwright, ApiKind::Callable(role), name, ApiKind::Factory(Role::Test)) <==> name == "extend"@,
        gives_nothing(Framework::Playwright, ApiKind::Callable(role), name) <==> !((role == Role::Test && (common_modifier(name) || name == "serial"@ || name == "parallel"@)) || (name == "describe"@ || (role == Role::Suite && (common_modifier(name) || name == "serial"@ || name == "parallel"@))) || (name == "beforeEach"@ || name == "afterEach"@ || name == "beforeAll"@ || name == "afterAll"@ || (role == Role::Hook && (name == "serial"@ || name == "parallel"@))) || (name == "use"@ || name == "setTimeout"@ || name == "configure"@ || name == "step"@ || name == "fail"@ || name == "fixme"@ || name == "slow"@ || (role == Role::Configure && (name == "serial"@ || name == "parallel"@))) || (name == "extend"@)),
{
    reveal_strlit("only");
    reveal_strlit("skip");
    reveal_strlit("todo");
    reveal_strlit("concurrent");
    reveal_strlit("serial");
    reveal_strlit("parallel");
    reveal_strlit("sequential");
    reveal_strlit("fails");
    reveal_strlit("failing");
    reveal_strlit("always");
    reveal_strlit("each");
    reveal_strlit("for");
    reveal_strlit("skipIf");
    reveal_strlit("runIf");
    reveal_strlit("describe");
    reveal_strlit("test");
    reveal_strlit("it");
    reveal_strlit("before");
    reveal_strlit("after");
    reveal_strlit("beforeEach");
    reveal_strlit("afterEach");
    reveal_strlit("beforeAll");
    reveal_strlit("afterAll");
    reveal_strlit("extend");
    reveal_strlit("use");
    reveal_strlit("setTimeout");
    reveal_strlit("configure");
    reveal_strlit("step");
    reveal_strlit("fail");
    reveal_strlit("fixme");
    reveal_strlit("slow");
    reveal_strlit("run");
    assert("only"@.len() == 4 && "only"@[1] == 'n' && "only"@[0] == 'o');
    assert("skip"@.len() == 4 && "skip"@[1] == 'k' && "skip"@[0] == 's');
    assert("todo"@.len() == 4 && "todo"@[1] == 'o' && "todo"@[0] == 't');
    assert("each"@.len() == 4 && "each"@[1] == 'a' && "each"@[0] == 'e');
    assert("test"@.len() == 4 && "test"@[1] == 'e' && "test"@[0] == 't');
    assert("step"@.len() == 4 && "step"@[1] == 't' && "step"@[0] == 's');
    assert("fail"@.len() == 4 && "fail"@[1] == 'a' && "fail"@[0] == 'f');
    assert("slow"@.len() == 4 && "slow"@[1] == 'l' && "slow"@[0] == 's');
    assert("concurrent"@.len() == 10 && "concurrent"@[2] == 'n');
    assert("sequential"@.len() == 10 && "sequential"@[2] == 'q');
    assert("beforeEach"@.len() == 10 && "beforeEach"@[2] == 'f');
    assert("setTimeout"@.len() == 10 && "setTimeout"@[2] == 't');
    assert("serial"@.len() == 6 && "serial"@[2] == 'r');
    assert("always"@.len() == 6 && "always"@[2] == 'w');
    assert("skipIf"@.len() == 6 && "skipIf"@[2] == 'i');
    assert("before"@.len() == 6 && "before"@[2] == 'f');
    assert("extend"@.len() == 6 && "extend"@[2] == 't');
    assert("parallel"@.len() == 8 && "parallel"@[0] == 'p');
    assert("describe"@.len() == 8 && "describe"@[0] == 'd');
    assert("afterAll"@.len() == 8 && "afterAll"@[0] == 'a');
    assert("fails"@.len() == 5 && "fails"@[1] == 'a');
    assert("runIf"@.len() == 5 && "runIf"@[1] == 'u');
    assert("after"@.len() == 5 && "after"@[1] == 'f');
    assert("fixme"@.len() == 5 && "fixme"@[1] == 'i');
    assert("failing"@.len() == 7);
    assert("for"@.len() == 3 && "for"@[0] == 'f');
    assert("use"@.len() == 3 && "use"@[0] == 'u');
    assert("run"@.len() == 3 && "run"@[0] == 'r');
    assert("it"@.len() == 2);
    assert("afterEach"@.len() == 9 && "afterEach"@[0] == 'a');
    assert("beforeAll"@.len() == 9 && "beforeAll"@[0] == 'b');
    assert("configure"@.len() == 9 && "configure"@[0] == 'c');
}

/// What the exports of uvu have as members: `role` is that of the export.
pub proof fn uvu_members(role: Role, name: Seq<char>)
    ensures
        gives(Framework::Uvu, ApiKind::Callable(role), name, ApiKind::Callable(Role::Test)) <==> role == Role::Test && (common_modifier(name)),
        gives(Framework::Uvu, ApiKind::Callable(role), name, ApiKind::Callable(Role::Suite)) <==> role == Role::Suite && (common_modifier(name)),
        gives(Framework::Uvu, ApiKind::Callable(role), name, ApiKind::Callable(Role::Hook)) <==> name == "before"@ || name == "after"@ || (role == Role::Hook && (name == "each"@)),
        gives(Framework::Uvu, ApiKind::Callable(role), name, ApiKind::Callable(Role::Configure)) <==> name == "run"@,
        gives_nothing(Framework::Uvu, ApiKind::Callable(role), name) <==> !((role == Role::Test && (common_modifier(name))) || (role == Role::Suite && (common_modifier(name))) || (name == "before"@ || name == "after"@ || (role == Role::Hook && (name == "each"@))) || (name == "run"@)),
{
    reveal_strlit("only");
    reveal_strlit("skip");
    reveal_strlit("todo");
    reveal_strlit("concurrent");
    reveal_strlit("serial");
    reveal_strlit("parallel");
    reveal_strlit("sequential");
    reveal_strlit("fails");
    reveal_strlit("failing");
    reveal_strlit("always");
    reveal_strlit("each");
    reveal_strlit("for");
    reveal_strlit("skipIf");
    reveal_strlit("runIf");
    reveal_strlit("describe");
    reveal_strlit("test");
    reveal_strlit("it");
    reveal_strlit("before");
    reveal_strlit("after");
    reveal_strlit("beforeEach");
    reveal_strlit("afterEach");
    reveal_strlit("beforeAll");
    reveal_strlit("afterAll");
    reveal_strlit("extend");
    reveal_strlit("use");
    reveal_strlit("setTimeout");
    reveal_strlit("configure");
    reveal_strlit("step");
    reveal_strlit("fail");
    reveal_strlit("fixme");
    reveal_strlit("slow");
    reveal_strlit("run");
    assert("only"@.len() == 4 && "only"@[1] == 'n' && "only"@[0] == 'o');
    assert("skip"@.len() == 4 && "skip"@[1] == 'k' && "skip"@[0] == 's');
    assert("todo"@.len() == 4 && "todo"@[1] == 'o' && "todo"@[0] == 't');
    assert("each"@.len() == 4 && "each"@[1] == 'a' && "each"@[0] == 'e');
    assert("test"@.len() == 4 && "test"@[1] == 'e' && "test"@[0] == 't');
    assert("step"@.len() == 4 && "step"@[1] == 't' && "step"@[0] == 's');
    assert("fail"@.len() == 4 && "fail"@[1] == 'a' && "fail"@[0] == 'f');
    assert("slow"@.len() == 4 && "slow"@[1] == 'l' && "slow"@[0] == 's');
    assert("concurrent"@.len() == 10 && "concurrent"@[2] == 'n');
    assert("sequential"@.len() == 10 && "sequential"@[2] == 'q');
    assert("beforeEach"@.len() == 10 && "beforeEach"@[2] == 'f');
    assert("setTimeout"@.len() == 10 && "setTimeout"@[2] == 't');
    assert("serial"@.len() == 6 && "serial"@[2] == 'r');
    assert("always"@.len() == 6 && "always"@[2] == 'w');
    assert("skipIf"@.len() == 6 && "skipIf"@[2] == 'i');
    assert("before"@.len() == 6 && "before"@[2] == 'f');
    assert("extend"@.len() == 6 && "extend"@[2] == 't');
    assert("parallel"@.len() == 8 && "parallel"@[0] == 'p');
    assert("describe"@.len() == 8 && "describe"@[0] == 'd');
    assert("afterAll"@.len() == 8 && "afterAll"@[0] == 'a');
    assert("fails"@.len() == 5 && "fails"@[1] == 'a');
    assert("runIf"@.len() == 5 && "runIf"@[1] == 'u');
    assert("after"@.len() == 5 && "after"@[1] == 'f');
    assert("fixme"@.len() == 5 && "fixme"@[1] == 'i');
    assert("failing"@.len() == 7);
    assert("for"@.len() == 3 && "for"@[0] == 'f');
    assert("use"@.len() == 3 && "use"@[0] == 'u');
    assert("run"@.len() == 3 && "run"@[0] == 'r');
    assert("it"@.len() == 2);
    assert("afterEach"@.len() == 9 && "afterEach"@[0] == 'a');
    assert("beforeAll"@.len() == 9 && "beforeAll"@[0] == 'b');
    assert("configure"@.len() == 9 && "configure"@[0] == 'c');
}

/// A factory has no members. Called, it gives an export of its role; nothing else gives
/// an export when called. A member and a result stay in the framework.
pub proof fn factories(api: TestApi, role: Role, name: Seq<char>)
    ensures
        api.kind == ApiKind::Factory(role) ==> api.member_spec(name) is None && api.called_spec()
            == Some(TestApi { framework: api.framework, kind: ApiKind::Callable(role) }),
        !(api.kind is Factory) ==> api.called_spec() is None,
        api.member_spec(name) is Some ==> api.member_spec(name)->0.framework == api.framework,
        api.called_spec() is Some ==> api.called_spec()->0.framework == api.framework,
{
}

/// A call of an export registers tests, and a call of a whole module does where the
/// module is itself the test function.
pub proof fn registrations(framework: Framework, role: Role)
    ensures
        (TestApi { framework, kind: ApiKind::Callable(role) }).registers(),
        (TestApi { framework, kind: ApiKind::Factory(role) }).registers(),
        (TestApi { framework, kind: ApiKind::Namespace }).registers() <==> gives(
            framework,
            ApiKind::Namespace,
            "default"@,
            ApiKind::Callable(Role::Test),
        ),
{
    reveal_strlit("default");
    reveal_strlit("test");
    reveal_strlit("it");
    reveal_strlit("only");
    reveal_strlit("skip");
    reveal_strlit("todo");
    reveal_strlit("describe");
    reveal_strlit("suite");
    reveal_strlit("before");
    reveal_strlit("after");
    reveal_strlit("beforeEach");
    reveal_strlit("afterEach");
    reveal_strlit("xit");
    reveal_strlit("xtest");
    reveal_strlit("fit");
    reveal_strlit("xdescribe");
    reveal_strlit("fdescribe");
    reveal_strlit("beforeAll");
    reveal_strlit("afterAll");
    reveal_strlit("specify");
    reveal_strlit("context");
    reveal_strlit("xcontext");
    reveal_strlit("setup");
    reveal_strlit("teardown");
    reveal_strlit("suiteSetup");
    reveal_strlit("suiteTeardown");
    reveal_strlit("serial");
    assert("default"@.len() == 7 && "default"@[0] == 'd');
    assert("specify"@.len() == 7 && "specify"@[0] == 's');
    assert("context"@.len() == 7 && "context"@[0] == 'c');
    assert("test"@.len() == 4 && "test"@[1] == 'e');
    assert("only"@.len() == 4 && "only"@[1] == 'n');
    assert("skip"@.len() == 4 && "skip"@[1] == 'k');
    assert("todo"@.len() == 4 && "todo"@[1] == 'o');
    assert("it"@.len() == 2);
    assert("describe"@.len() == 8 && "describe"@[0] == 'd');
    assert("afterAll"@.len() == 8 && "afterAll"@[0] == 'a');
    assert("xcontext"@.len() == 8 && "xcontext"@[0] == 'x');
    assert("teardown"@.len() == 8 && "teardown"@[0] == 't');
    assert("suite"@.len() == 5 && "suite"@[1] == 'u');
    assert("after"@.len() == 5 && "after"@[1] == 'f');
    assert("xtest"@.len() == 5 && "xtest"@[1] == 't');
    assert("setup"@.len() == 5 && "setup"@[1] == 'e');
    assert("before"@.len() == 6 && "before"@[0] == 'b');
    assert("serial"@.len() == 6 && "serial"@[0] == 's');
    assert("beforeEach"@.len() == 10 && "beforeEach"@[0] == 'b');
    assert("suiteSetup"@.len() == 10 && "suiteSetup"@[0] == 's');
    assert("afterEach"@.len() == 9 && "afterEach"@[0] == 'a');
    assert("xdescribe"@.len() == 9 && "xdescribe"@[0] == 'x');
    assert("fdescribe"@.len() == 9 && "fdescribe"@[0] == 'f');
    assert("beforeAll"@.len() == 9 && "beforeAll"@[0] == 'b');
    assert("xit"@.len() == 3 && "xit"@[0] == 'x');
    assert("fit"@.len() == 3 && "fit"@[0] == 'f');
    assert("suiteTeardown"@.len() == 13);
}

/// The modules that tests import are those of the frameworks, each by one name.
pub proof fn framework_modules(name: Seq<char>)
    ensures
        framework_spec(name) == Some(Framework::Node) <==> name == "node:test"@,
        framework_spec(name) == Some(Framework::Jest) <==> name == "@jest/globals"@,
        framework_spec(name) == Some(Framework::Vitest) <==> name == "vitest"@,
        framework_spec(name) == Some(Framework::Mocha) <==> name == "mocha"@,
        framework_spec(name) == Some(Framework::Ava) <==> name == "ava"@,
        framework_spec(name) == Some(Framework::Tape) <==> name == "tape"@,
        framework_spec(name) == Some(Framework::Playwright) <==> name == "@playwright/test"@,
        framework_spec(name) == Some(Framework::Uvu) <==> name == "uvu"@,
        framework_spec(name) is None <==> !(name == "node:test"@ || name == "@jest/globals"@ || name == "vitest"@ || name == "mocha"@ || name == "ava"@ || name == "tape"@ || name == "@playwright/test"@ || name == "uvu"@),
{
    reveal_strlit("node:test");
    reveal_strlit("@jest/globals");
    reveal_strlit("vitest");
    reveal_strlit("mocha");
    reveal_strlit("ava");
    reveal_strlit("tape");
    reveal_strlit("@playwright/test");
    reveal_strlit("uvu");
    assert("node:test"@.len() == 9);
    assert("@jest/globals"@.len() == 13);
    assert("vitest"@.len() == 6);
    assert("mocha"@.len() == 5);
    assert("ava"@.len() == 3 && "ava"@[0] == 'a');
    assert("uvu"@.len() == 3 && "uvu"@[0] == 'u');
    assert("tape"@.len() == 4);
    assert("@playwright/test"@.len() == 16);
}

} // verus!
