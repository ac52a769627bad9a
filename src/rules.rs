//! Decisions of two lint rules: deprecated Jest functions, and TypeScript namespaces.
use vstd::prelude::*;
use vstd::string::StrSliceExecFns;

verus! {

/// Whether `a` and `b` hold the same characters.
pub fn str_eq(a: &str, b: &str) -> (r: bool)
    ensures
        r == (a@ == b@),
{
    let n = a.unicode_len();
    if n != b.unicode_len() {
        return false;
    }
    let mut i: usize = 0;
    while i < n
        invariant
            n == a@.len(),
            n == b@.len(),
            i <= n,
            a@.take(i as int) == b@.take(i as int),
        decreases n - i,
    {
        if a.get_char(i) != b.get_char(i) {
            assert(a@[i as int] != b@[i as int]);
            return false;
        }
        assert(a@.take(i + 1) =~= a@.take(i as int).push(a@[i as int]));
        assert(b@.take(i + 1) =~= b@.take(i as int).push(b@[i as int]));
        i = i + 1;
    }
    assert(a@ =~= a@.take(n as int));
    assert(b@ =~= b@.take(n as int));
    true
}

/// The characters of a version before its first `.`.
pub open spec fn major_of(s: Seq<char>) -> Seq<char>
    decreases s.len(),
{
    if s.len() == 0 || s[0] == '.' {
        Seq::empty()
    } else {
        seq![s[0]] + major_of(s.drop_first())
    }
}

/// The value of a run of decimal digits, optionally after one `+`; `None` where `s` is not such
/// a run.
pub open spec fn decimal_value(s: Seq<char>) -> Option<nat> {
    let digits = unsigned_part(s);
    if digits.len() > 0 && all_digits(digits) {
        Some(digits_value(digits))
    } else {
        None
    }
}

/// `s` without one leading `+`.
pub open spec fn unsigned_part(s: Seq<char>) -> Seq<char> {
    if s.len() > 0 && s[0] == '+' {
        s.drop_first()
    } else {
        s
    }
}

pub open spec fn all_digits(s: Seq<char>) -> bool {
    forall|i: int| 0 <= i < s.len() ==> '0' <= #[trigger] s[i] && s[i] <= '9'
}

pub open spec fn digits_value(s: Seq<char>) -> nat
    decreases s.len(),
{
    if s.len() == 0 {
        0
    } else {
        digits_value(s.drop_last()) * 10 + (s.last() as nat - '0' as nat) as nat
    }
}

/// The version of Jest that the rule checks against.
#[derive(Debug)]
pub struct JestConfig {
    version: String,
}

impl JestConfig {
    pub closed spec fn spec_version(&self) -> Seq<char> {
        self.version@
    }

    /// The major version, as configured.
    pub fn version(&self) -> (r: &str)
        ensures
            r@ == self.spec_version(),
    {
        self.version.as_str()
    }
}

#[derive(Debug)]
pub struct NoDeprecatedFunctionsConfig {
    jest: JestConfig,
}

impl NoDeprecatedFunctionsConfig {
    /// The Jest settings.
    pub fn jest(&self) -> (r: &JestConfig)
        ensures
            r.spec_version() == self.spec_jest().spec_version(),
    {
        &self.jest
    }

    pub closed spec fn spec_jest(&self) -> JestConfig {
        self.jest
    }
}

/// Reports calls of Jest functions that the configured Jest version has deprecated.
#[derive(Debug)]
pub struct NoDeprecatedFunctions(Box<NoDeprecatedFunctionsConfig>);

/// The version that deprecated `name` and the function that replaces it, for the functions that
/// Jest deprecated.
pub open spec fn deprecated_entry(name: Seq<char>) -> Option<(nat, Seq<char>)> {
    if name == "jest.resetModuleRegistry"@ {
        Some((15, "jest.resetModules"@))
    } else if name == "jest.addMatchers"@ {
        Some((17, "expect.extend"@))
    } else if name == "require.requireMock"@ {
        Some((21, "jest.requireMock"@))
    } else if name == "require.requireActual"@ {
        Some((21, "jest.requireMock"@))
    } else if name == "jest.runTimersToTime"@ {
        Some((22, "jest.advanceTimersByTime"@))
    } else if name == "jest.genMockFromModule"@ {
        Some((26, "jest.createMockFromModule"@))
    } else {
        None
    }
}

/// The major Jest version assumed where none is configured, or where it is not a number.
pub const DEFAULT_JEST_VERSION: usize = 29;

/// The version that deprecated `name` and its replacement.
pub fn deprecated_function(name: &str) -> (r: Option<(usize, &'static str)>)
    ensures
        match deprecated_entry(name@) {
            Some((v, repl)) => r is Some && r->Some_0.0 == v && r->Some_0.1@ == repl,
            None => r is None,
        },
{
    if str_eq(name, "jest.resetModuleRegistry") {
        Some((15, "jest.resetModules"))
    } else if str_eq(name, "jest.addMatchers") {
        Some((17, "expect.extend"))
    } else if str_eq(name, "require.requireMock") {
        Some((21, "jest.requireMock"))
    } else if str_eq(name, "require.requireActual") {
        Some((21, "jest.requireMock"))
    } else if str_eq(name, "jest.runTimersToTime") {
        Some((22, "jest.advanceTimersByTime"))
    } else if str_eq(name, "jest.genMockFromModule") {
        Some((26, "jest.createMockFromModule"))
    } else {
        None
    }
}

/// The characters of `s` before its first `.`.
pub fn major_version(s: &str) -> (r: String)
    ensures
        r@ == major_of(s@),
{
    let n = s.unicode_len();
    let mut i: usize = 0;
    assert(s@.skip(0) =~= s@);
    assert(s@.take(0) + major_of(s@) =~= major_of(s@));
    while i < n && s.get_char(i) != '.'
        invariant
            n == s@.len(),
            i <= n,
            forall|j: int| 0 <= j < i ==> s@[j] != '.',
            major_of(s@) == s@.take(i as int) + major_of(s@.skip(i as int)),
        decreases n - i,
    {
        proof {
            let t = s@.skip(i as int);
            assert(t[0] == s@[i as int]);
            assert(t.drop_first() =~= s@.skip(i + 1));
            assert(s@.take(i + 1) =~= s@.take(i as int) + seq![s@[i as int]]);
        }
        i = i + 1;
    }
    proof {
        let t = s@.skip(i as int);
        if i < n {
            assert(t[0] == '.');
        }
        assert(major_of(t) =~= Seq::<char>::empty());
        assert(s@.take(i as int) + Seq::<char>::empty() =~= s@.take(i as int));
    }
    let part = s.substring_char(0, i);
    assert(part@ =~= s@.take(i as int));
    part.to_owned()
}

/// The value of `s` read as a decimal `usize`, or `None` where it is not one.
pub fn parse_decimal(s: &str) -> (r: Option<usize>)
    ensures
        match decimal_value(s@) {
            Some(v) => if v <= usize::MAX {
                r == Some(v as usize)
            } else {
                r is None
            },
            None => r is None,
        },
{
    let n = s.unicode_len();
    let start: usize = if n > 0 && s.get_char(0) == '+' { 1 } else { 0 };
    let ghost digits = unsigned_part(s@);
    assert(digits =~= s@.skip(start as int));
    if start == n {
        return None;
    }
    let mut value: usize = 0;
    let mut overflow = false;
    let mut i: usize = start;
    while i < n
        invariant
            n == s@.len(),
            start <= i <= n,
            digits == s@.skip(start as int),
            digits == unsigned_part(s@),
            forall|j: int| start <= j < i ==> '0' <= #[trigger] s@[j] && s@[j] <= '9',
            !overflow ==> value == digits_value(s@.subrange(start as int, i as int)),
            overflow ==> digits_value(s@.subrange(start as int, i as int)) > usize::MAX,
        decreases n - i,
    {
        let c = s.get_char(i);
        if c < '0' || c > '9' {
            assert(!('0' <= digits[i - start] <= '9'));
            assert(!all_digits(digits));
            assert(decimal_value(s@) is None);
            return None;
        }
        let ghost prev = s@.subrange(start as int, i as int);
        let ghost next = s@.subrange(start as int, i + 1);
        assert(next.drop_last() =~= prev);
        assert(next.last() == c);
        let d = (c as u32 - '0' as u32) as usize;
        if !overflow {
            if value > (usize::MAX - d) / 10 {
                overflow = true;
                assert(digits_value(next) > usize::MAX) by (nonlinear_arith)
                    requires
                        digits_value(next) == value * 10 + d,
                        value > (usize::MAX - d) / 10,
                        d <= 9,
                ;
            } else {
                assert(value * 10 + d <= usize::MAX) by (nonlinear_arith)
                    requires
                        value <= (usize::MAX - d) / 10,
                        d <= 9,
                ;
                value = value * 10 + d;
            }
        } else {
            assert(digits_value(next) >= digits_value(prev)) by (nonlinear_arith)
                requires
                    digits_value(next) == digits_value(prev) * 10 + d,
            ;
        }
        i = i + 1;
    }
    assert(s@.subrange(start as int, n as int) =~= digits);
    if overflow {
        None
    } else {
        Some(value)
    }
}

impl NoDeprecatedFunctions {
    pub closed spec fn spec_version(&self) -> Seq<char> {
        self.0.jest.version@
    }

    /// The rule for the Jest version `version` (major version first, `.`-separated), or for the
    /// default version where none is given.
    pub fn from_configuration(version: Option<&str>) -> (r: Self)
        ensures
            r.spec_version() == major_of(
                match version {
                    Some(v) => v@,
                    None => "29"@,
                },
            ),
    {
        let version = match version {
            Some(v) => v,
            None => "29",
        };
        NoDeprecatedFunctions(Box::new(NoDeprecatedFunctionsConfig { jest: JestConfig { version: major_version(version) } }))
    }

    /// The configuration.
    pub fn config(&self) -> (r: &NoDeprecatedFunctionsConfig)
        ensures
            r.spec_jest().spec_version() == self.spec_version(),
    {
        &self.0
    }

    /// The major version checked against: the configured one, or the default where it is not
    /// a number.
    pub open spec fn spec_version_number(&self) -> nat {
        match decimal_value(self.spec_version()) {
            Some(v) => if v <= usize::MAX {
                v
            } else {
                DEFAULT_JEST_VERSION as nat
            },
            None => DEFAULT_JEST_VERSION as nat,
        }
    }

    /// The replacement to suggest for a use of the member expression `name` (an object name and
    /// a property name joined by `.`), where the configured version has deprecated it.
    pub fn check(&self, name: &str) -> (r: Option<&'static str>)
        ensures
            match deprecated_entry(name@) {
                Some((base, repl)) => if self.spec_version_number() >= base {
                    r is Some && r->Some_0@ == repl
                } else {
                    r is None
                },
                None => r is None,
            },
    {
        let version = match parse_decimal(self.0.jest.version.as_str()) {
            Some(v) => v,
            None => DEFAULT_JEST_VERSION,
        };
        match deprecated_function(name) {
            Some((base, replacement)) => {
                if version >= base {
                    Some(replacement)
                } else {
                    None
                }
            },
            None => None,
        }
    }
}

/// How a TypeScript module declaration is written.
#[derive(Clone, Copy, Debug, PartialEq, Eq, Structural)]
pub enum ModuleDeclarationKind {
    /// `declare global { .. }`
    Global,
    /// `module x { .. }`
    Module,
    /// `namespace x { .. }`
    Namespace,
}

/// What the rule reads of a TypeScript module declaration.
#[derive(Debug)]
pub struct ModuleDeclaration {
    pub kind: ModuleDeclarationKind,
    /// The declared name where it is an identifier; `None` where it is a string literal.
    pub name: Option<String>,
    /// Whether the declaration is written with `declare`.
    pub declare: bool,
}

/// Reports TypeScript namespaces, which ES2015 modules supersede.
#[derive(Clone, Copy, Debug, PartialEq, Eq, Structural)]
pub struct NoNamespace {
    allow_declarations: bool,
    allow_definition_files: bool,
}

/// Whether one of the ancestors is a module declaration written with `declare`; each ancestor
/// is given as `Some(declare)` where it is a module declaration and `None` where it is not.
pub fn is_any_ancestor_declaration(ancestors: &[Option<bool>]) -> (r: bool)
    ensures
        r == exists|i: int| 0 <= i < ancestors@.len() && ancestors@[i] == Some(true),
{
    let mut i: usize = 0;
    while i < ancestors.len()
        invariant
            i <= ancestors@.len(),
            forall|j: int| 0 <= j < i ==> ancestors@[j] != Some(true),
        decreases ancestors@.len() - i,
    {
        if let Some(true) = ancestors[i] {
            return true;
        }
        i = i + 1;
    }
    false
}

impl Default for NoNamespace {
    /// Declarations are reported; definition files are not.
    fn default() -> (r: Self)
        ensures
            r.spec_allow_declarations() == false,
            r.spec_allow_definition_files() == true,
    {
        NoNamespace { allow_declarations: false, allow_definition_files: true }
    }
}

impl NoNamespace {
    pub closed spec fn spec_allow_declarations(&self) -> bool {
        self.allow_declarations
    }

    pub closed spec fn spec_allow_definition_files(&self) -> bool {
        self.allow_definition_files
    }

    /// The rule with the given options; an option not given keeps its default.
    pub fn from_configuration(allow_declarations: Option<bool>, allow_definition_files: Option<bool>) -> (r: Self)
        ensures
            r.spec_allow_declarations() == match allow_declarations {
                Some(b) => b,
                None => false,
            },
            r.spec_allow_definition_files() == match allow_definition_files {
                Some(b) => b,
                None => true,
            },
    {
        NoNamespace {
            allow_declarations: match allow_declarations {
                Some(b) => b,
                None => false,
            },
            allow_definition_files: match allow_definition_files {
                Some(b) => b,
                None => true,
            },
        }
    }

    /// Whether the rule applies to a file: TypeScript, and not a definition file where those
    /// are allowed.
    pub fn should_run(&self, is_typescript: bool, is_typescript_definition: bool) -> (r: bool)
        ensures
            r == (is_typescript && !(self.spec_allow_definition_files() && is_typescript_definition)),
    {
        if self.allow_definition_files && is_typescript_definition {
            return false;
        }
        is_typescript
    }

    /// The keyword to report on `declaration`, if it is reported. A declaration named by a
    /// string, `global`, one nested directly in another module declaration, and, where
    /// declarations are allowed, one written with `declare` or inside such a one, are not.
    pub fn run(&self, declaration: &ModuleDeclaration, parent_is_module_declaration: bool, ancestors: &[Option<bool>]) -> (r: Option<&'static str>)
        ensures
            r is Some <==> {
                &&& declaration.name is Some
                &&& declaration.name->Some_0@ != "global"@
                &&& !parent_is_module_declaration
                &&& !(self.spec_allow_declarations() && (declaration.declare
                    || exists|i: int| 0 <= i < ancestors@.len() && ancestors@[i] == Some(true)))
                &&& declaration.kind != ModuleDeclarationKind::Global
            },
            r is Some ==> r->Some_0@ == (if declaration.kind == ModuleDeclarationKind::Module {
                "module"@
            } else {
                "namespace"@
            }),
    {
        let name = match &declaration.name {
            Some(name) => name,
            None => {
                return None;
            },
        };
        if str_eq(name.as_str(), "global") {
            return None;
        }
        if parent_is_module_declaration {
            return None;
        }
        if self.allow_declarations && (declaration.declare || is_any_ancestor_declaration(ancestors)) {
            return None;
        }
        match declaration.kind {
            ModuleDeclarationKind::Global => None,
            ModuleDeclarationKind::Module => Some("module"),
            ModuleDeclarationKind::Namespace => Some("namespace"),
        }
    }
}

} // verus!
