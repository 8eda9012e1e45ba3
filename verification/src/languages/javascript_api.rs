//! What the members of JavaScript test frameworks stand for.

use vstd::prelude::*;

use crate::text::same;

verus! {

#[derive(Clone, Copy, Debug, PartialEq, Eq, Structural)]
pub enum Framework {
    Node,
    Jest,
    Vitest,
    Mocha,
    Ava,
    Tape,
    Playwright,
    Uvu,
}

/// What a registration is for.
#[derive(Clone, Copy, Debug, PartialEq, Eq, Structural)]
pub enum Role {
    Test,
    Suite,
    Hook,
    Configure,
}

/// A framework as a whole, a function that registers, or one that returns such
/// a function.
#[derive(Clone, Copy, Debug, PartialEq, Eq, Structural)]
pub enum ApiKind {
    Namespace,
    Callable(Role),
    Factory(Role),
}

#[derive(Clone, Copy, Debug, PartialEq, Eq, Structural)]
pub struct TestApi {
    pub framework: Framework,
    pub kind: ApiKind,
}

impl TestApi {
    /// What kind of API a member is.
    pub open spec fn member_kind(self, name: Seq<char>) -> Option<ApiKind> {
        match self.kind {
            ApiKind::Namespace => {
                let node = self.framework == Framework::Node;
                let jest = self.framework == Framework::Jest;
                let vitest = self.framework == Framework::Vitest;
                let mocha = self.framework == Framework::Mocha;
                let ava = self.framework == Framework::Ava;
                let tape = self.framework == Framework::Tape;
                let uvu = self.framework == Framework::Uvu;
                if name == "default"@ && (node || ava || tape) {
                    Some(ApiKind::Callable(Role::Test))
                } else if name == "test"@ && !ava && !tape {
                    Some(ApiKind::Callable(Role::Test))
                } else if name == "it"@ && (node || mocha || jest || vitest) {
                    Some(ApiKind::Callable(Role::Test))
                } else if (name == "xit"@ || name == "xtest"@ || name == "fit"@) && (jest
                    || mocha) {
                    Some(ApiKind::Callable(Role::Test))
                } else if name == "describe"@ && (node || mocha || jest || vitest) {
                    Some(ApiKind::Callable(Role::Suite))
                } else if name == "context"@ && mocha {
                    Some(ApiKind::Callable(Role::Suite))
                } else if (name == "xdescribe"@ || name == "fdescribe"@) && jest {
                    Some(ApiKind::Callable(Role::Suite))
                } else if (name == "xdescribe"@ || name == "xcontext"@) && mocha {
                    Some(ApiKind::Callable(Role::Suite))
                } else if name == "suite"@ && uvu {
                    Some(ApiKind::Factory(Role::Test))
                } else if name == "suite"@ && (node || mocha || vitest) {
                    Some(ApiKind::Callable(Role::Suite))
                } else if name == "specify"@ && mocha {
                    Some(ApiKind::Callable(Role::Test))
                } else if (name == "beforeEach"@ || name == "afterEach"@) && (node || mocha
                    || jest || vitest || ava) {
                    Some(ApiKind::Callable(Role::Hook))
                } else if (name == "before"@ || name == "after"@) && (node || mocha || ava) {
                    Some(ApiKind::Callable(Role::Hook))
                } else if (name == "beforeAll"@ || name == "afterAll"@) && (jest || vitest) {
                    Some(ApiKind::Callable(Role::Hook))
                } else if (name == "setup"@ || name == "teardown"@ || name == "suiteSetup"@ || name == "suiteTeardown"@) && mocha {
                    Some(ApiKind::Callable(Role::Hook))
                } else if (name == "only"@ || name == "skip"@ || name == "todo"@) && (node
                    || ava || tape) {
                    Some(ApiKind::Callable(Role::Test))
                } else if name == "serial"@ && ava {
                    Some(ApiKind::Callable(Role::Test))
                } else {
                    None
                }
            },
            ApiKind::Callable(role) => {
                let node = self.framework == Framework::Node;
                let jest = self.framework == Framework::Jest;
                let vitest = self.framework == Framework::Vitest;
                let ava = self.framework == Framework::Ava;
                let playwright = self.framework == Framework::Playwright;
                let uvu = self.framework == Framework::Uvu;
                if (name == "only"@ || name == "skip"@ || name == "todo"@) && (role
                    == Role::Test || role == Role::Suite) {
                    Some(ApiKind::Callable(role))
                } else if name == "concurrent"@ && (jest || vitest) {
                    Some(ApiKind::Callable(role))
                } else if name == "serial"@ && (ava || playwright) {
                    Some(ApiKind::Callable(role))
                } else if name == "parallel"@ && playwright {
                    Some(ApiKind::Callable(role))
                } else if (name == "sequential"@ || name == "fails"@) && vitest {
                    Some(ApiKind::Callable(role))
                } else if name == "failing"@ && (jest || ava) {
                    Some(ApiKind::Callable(role))
                } else if name == "always"@ && ava && role == Role::Hook {
                    Some(ApiKind::Callable(Role::Hook))
                } else if name == "each"@ && uvu && role == Role::Hook {
                    Some(ApiKind::Callable(Role::Hook))
                } else if name == "each"@ && (jest || vitest) {
                    Some(ApiKind::Factory(role))
                } else if (name == "for"@ || name == "skipIf"@ || name == "runIf"@)
                    && vitest {
                    Some(ApiKind::Factory(role))
                } else if name == "describe"@ && (node || playwright) {
                    Some(ApiKind::Callable(Role::Suite))
                } else if (name == "test"@ || name == "it"@) && node {
                    Some(ApiKind::Callable(Role::Test))
                } else if (name == "before"@ || name == "after"@) && (node || uvu || ava) {
                    Some(ApiKind::Callable(Role::Hook))
                } else if (name == "beforeEach"@ || name == "afterEach"@) && (node
                    || playwright || ava) {
                    Some(ApiKind::Callable(Role::Hook))
                } else if (name == "beforeAll"@ || name == "afterAll"@) && playwright {
                    Some(ApiKind::Callable(Role::Hook))
                } else if name == "extend"@ && (playwright || vitest) {
                    Some(ApiKind::Factory(Role::Test))
                } else if (name == "use"@ || name == "setTimeout"@ || name == "configure"@
                    || name == "step"@ || name == "fail"@ || name == "fixme"@ || name == "slow"@) && playwright {
                    Some(ApiKind::Callable(Role::Configure))
                } else if name == "run"@ && uvu {
                    Some(ApiKind::Callable(Role::Configure))
                } else {
                    None
                }
            },
            ApiKind::Factory(_) => None,
        }
    }

    /// The API that a member is.
    pub open spec fn member_spec(self, name: Seq<char>) -> Option<TestApi> {
        match self.member_kind(name) {
            Some(kind) => Some(TestApi { kind, ..self }),
            None => None,
        }
    }

    fn kind_of_member(self, name: &str) -> (kind: Option<ApiKind>)
        ensures
            kind == self.member_kind(name@),
    {
        match self.kind {
            ApiKind::Namespace => {
                let node: bool = self.framework == Framework::Node;
                let jest: bool = self.framework == Framework::Jest;
                let vitest: bool = self.framework == Framework::Vitest;
                let mocha: bool = self.framework == Framework::Mocha;
                let ava: bool = self.framework == Framework::Ava;
                let tape: bool = self.framework == Framework::Tape;
                let uvu: bool = self.framework == Framework::Uvu;
                if same(name, "default") && (node || ava || tape) {
                    Some(ApiKind::Callable(Role::Test))
                } else if same(name, "test") && !ava && !tape {
                    Some(ApiKind::Callable(Role::Test))
                } else if same(name, "it") && (node || mocha || jest || vitest) {
                    Some(ApiKind::Callable(Role::Test))
                } else if (same(name, "xit") || same(name, "xtest") || same(name, "fit")) && (jest
                    || mocha) {
                    Some(ApiKind::Callable(Role::Test))
                } else if same(name, "describe") && (node || mocha || jest || vitest) {
                    Some(ApiKind::Callable(Role::Suite))
                } else if same(name, "context") && mocha {
                    Some(ApiKind::Callable(Role::Suite))
                } else if (same(name, "xdescribe") || same(name, "fdescribe")) && jest {
                    Some(ApiKind::Callable(Role::Suite))
                } else if (same(name, "xdescribe") || same(name, "xcontext")) && mocha {
                    Some(ApiKind::Callable(Role::Suite))
                } else if same(name, "suite") && uvu {
                    Some(ApiKind::Factory(Role::Test))
                } else if same(name, "suite") && (node || mocha || vitest) {
                    Some(ApiKind::Callable(Role::Suite))
                } else if same(name, "specify") && mocha {
                    Some(ApiKind::Callable(Role::Test))
                } else if (same(name, "beforeEach") || same(name, "afterEach")) && (node || mocha
                    || jest || vitest || ava) {
                    Some(ApiKind::Callable(Role::Hook))
                } else if (same(name, "before") || same(name, "after")) && (node || mocha || ava) {
                    Some(ApiKind::Callable(Role::Hook))
                } else if (same(name, "beforeAll") || same(name, "afterAll")) && (jest || vitest) {
                    Some(ApiKind::Callable(Role::Hook))
                } else if (same(name, "setup") || same(name, "teardown") || same(
                    name,
                    "suiteSetup",
                ) || same(name, "suiteTeardown")) && mocha {
                    Some(ApiKind::Callable(Role::Hook))
                } else if (same(name, "only") || same(name, "skip") || same(name, "todo")) && (node
                    || ava || tape) {
                    Some(ApiKind::Callable(Role::Test))
                } else if same(name, "serial") && ava {
                    Some(ApiKind::Callable(Role::Test))
                } else {
                    None
                }
            },
            ApiKind::Callable(role) => {
                let node: bool = self.framework == Framework::Node;
                let jest: bool = self.framework == Framework::Jest;
                let vitest: bool = self.framework == Framework::Vitest;
                let ava: bool = self.framework == Framework::Ava;
                let playwright: bool = self.framework == Framework::Playwright;
                let uvu: bool = self.framework == Framework::Uvu;
                if (same(name, "only") || same(name, "skip") || same(name, "todo")) && (role
                    == Role::Test || role == Role::Suite) {
                    Some(ApiKind::Callable(role))
                } else if same(name, "concurrent") && (jest || vitest) {
                    Some(ApiKind::Callable(role))
                } else if same(name, "serial") && (ava || playwright) {
                    Some(ApiKind::Callable(role))
                } else if same(name, "parallel") && playwright {
                    Some(ApiKind::Callable(role))
                } else if (same(name, "sequential") || same(name, "fails")) && vitest {
                    Some(ApiKind::Callable(role))
                } else if same(name, "failing") && (jest || ava) {
                    Some(ApiKind::Callable(role))
                } else if same(name, "always") && ava && role == Role::Hook {
                    Some(ApiKind::Callable(Role::Hook))
                } else if same(name, "each") && uvu && role == Role::Hook {
                    Some(ApiKind::Callable(Role::Hook))
                } else if same(name, "each") && (jest || vitest) {
                    Some(ApiKind::Factory(role))
                } else if (same(name, "for") || same(name, "skipIf") || same(name, "runIf"))
                    && vitest {
                    Some(ApiKind::Factory(role))
                } else if same(name, "describe") && (node || playwright) {
                    Some(ApiKind::Callable(Role::Suite))
                } else if (same(name, "test") || same(name, "it")) && node {
                    Some(ApiKind::Callable(Role::Test))
                } else if (same(name, "before") || same(name, "after")) && (node || uvu || ava) {
                    Some(ApiKind::Callable(Role::Hook))
                } else if (same(name, "beforeEach") || same(name, "afterEach")) && (node
                    || playwright || ava) {
                    Some(ApiKind::Callable(Role::Hook))
                } else if (same(name, "beforeAll") || same(name, "afterAll")) && playwright {
                    Some(ApiKind::Callable(Role::Hook))
                } else if same(name, "extend") && (playwright || vitest) {
                    Some(ApiKind::Factory(Role::Test))
                } else if (same(name, "use") || same(name, "setTimeout") || same(name, "configure")
                    || same(name, "step") || same(name, "fail") || same(name, "fixme") || same(
                    name,
                    "slow",
                )) && playwright {
                    Some(ApiKind::Callable(Role::Configure))
                } else if same(name, "run") && uvu {
                    Some(ApiKind::Callable(Role::Configure))
                } else {
                    None
                }
            },
            ApiKind::Factory(_) => None,
        }
    }

    /// The API that a member is.
    pub fn member(self, name: &str) -> (api: Option<TestApi>)
        ensures
            api == self.member_spec(name@),
    {
        match self.kind_of_member(name) {
            Some(kind) => Some(TestApi { framework: self.framework, kind }),
            None => None,
        }
    }

    /// What a call of the API returns.
    pub open spec fn called_spec(self) -> Option<TestApi> {
        match self.kind {
            ApiKind::Factory(role) => Some(TestApi { kind: ApiKind::Callable(role), ..self }),
            _ => None,
        }
    }

    /// What a call of the API returns.
    pub fn called(self) -> (api: Option<TestApi>)
        ensures
            api == self.called_spec(),
    {
        match self.kind {
            ApiKind::Factory(role) => Some(
                TestApi { framework: self.framework, kind: ApiKind::Callable(role) },
            ),
            _ => None,
        }
    }

    /// A call of the API registers something with the framework.
    pub open spec fn registers(self) -> bool {
        self.kind != ApiKind::Namespace || self.framework == Framework::Node || self.framework
            == Framework::Ava || self.framework == Framework::Tape
    }

    /// A call of the API registers something with the framework.
    pub fn registration(self) -> (r: bool)
        ensures
            r == self.registers(),
    {
        self.kind != ApiKind::Namespace || self.framework == Framework::Node || self.framework
            == Framework::Ava || self.framework == Framework::Tape
    }
}

/// The framework that a module name stands for.
pub open spec fn framework_spec(name: Seq<char>) -> Option<Framework> {
    if name == "node:test"@ {
        Some(Framework::Node)
    } else if name == "@jest/globals"@ {
        Some(Framework::Jest)
    } else if name == "vitest"@ {
        Some(Framework::Vitest)
    } else if name == "mocha"@ {
        Some(Framework::Mocha)
    } else if name == "ava"@ {
        Some(Framework::Ava)
    } else if name == "tape"@ {
        Some(Framework::Tape)
    } else if name == "@playwright/test"@ {
        Some(Framework::Playwright)
    } else if name == "uvu"@ {
        Some(Framework::Uvu)
    } else {
        None
    }
}

/// The framework that a module name stands for.
pub fn framework(name: &str) -> (result: Option<Framework>)
    ensures
        result == framework_spec(name@),
{
    if same(name, "node:test") {
        Some(Framework::Node)
    } else if same(name, "@jest/globals") {
        Some(Framework::Jest)
    } else if same(name, "vitest") {
        Some(Framework::Vitest)
    } else if same(name, "mocha") {
        Some(Framework::Mocha)
    } else if same(name, "ava") {
        Some(Framework::Ava)
    } else if same(name, "tape") {
        Some(Framework::Tape)
    } else if same(name, "@playwright/test") {
        Some(Framework::Playwright)
    } else if same(name, "uvu") {
        Some(Framework::Uvu)
    } else {
        None
    }
}

} // verus!
