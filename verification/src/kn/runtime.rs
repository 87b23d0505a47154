//! The languages a function can be written in: naming them, the files a new function
//! starts with, and what a build needs.

use crate::kn::templates::{
    cargo_toml, cargo_toml_spec, dockerfile, dockerfile_spec, function_template, python_app_template,
    python_dockerfile, python_dockerfile_spec, python_pyproject, python_pyproject_spec, python_template,
    python_template_spec, python_test_template, runtime_main, PYTHON_APP_TEMPLATE, PYTHON_TEST_TEMPLATE,
    RUST_FUNCTION_TEMPLATE, RUST_RUNTIME_MAIN,
};
use crate::text::{ascii_lower, chars_of, concat3, lower, owned, slice_chars, string_of, trim_text, trimmed};
use vstd::prelude::*;

verus! {

/// A function's language.
#[derive(Clone, Copy, Debug, PartialEq, Eq, Structural)]
pub enum FunctionRuntime {
    Python,
    Rust,
}

/// `str::to_ascii_lowercase`.
pub fn ascii_lowercase(s: &str) -> (r: String)
    ensures
        r@ == lower(s@),
{
    let v = chars_of(s);
    let mut out: Vec<char> = Vec::new();
    let mut i: usize = 0;
    while i < v.len()
        invariant
            i <= v@.len(),
            v@ == s@,
            out@ == lower(s@).take(i as int),
        decreases v@.len() - i,
    {
        let c = v[i];
        let l = if 'A' <= c && c <= 'Z' {
            let u: u8 = (c as u8) + 32;
            u as char
        } else {
            c
        };
        assert(l == ascii_lower(c));
        out.push(l);
        assert(lower(s@).take(i + 1) =~= lower(s@).take(i as int).push(ascii_lower(s@[i as int])));
        i = i + 1;
    }
    assert(lower(s@).take(v@.len() as int) =~= lower(s@));
    string_of(out.as_slice())
}

/// A runtime name as written, trimmed and lower-cased.
pub open spec fn normalize_spec(s: Seq<char>) -> Seq<char> {
    lower(trimmed(s))
}

/// Trims a runtime name and lower-cases its ASCII letters.
pub fn normalize(value: &str) -> (r: String)
    ensures
        r@ == normalize_spec(value@),
{
    let t = trim_text(value);
    ascii_lowercase(t.as_str())
}

/// The runtime a name stands for: `python` or `py`, `rust` or `rs`, in any case and with
/// surrounding whitespace; any other name is an error that lists the supported ones.
pub open spec fn runtime_for(name: Seq<char>) -> Result<FunctionRuntime, Seq<char>> {
    let n = normalize_spec(name);
    if n == "python"@ || n == "py"@ {
        Ok(FunctionRuntime::Python)
    } else if n == "rust"@ || n == "rs"@ {
        Ok(FunctionRuntime::Rust)
    } else {
        Err("unsupported function runtime "@ + n + "; supported runtimes: python, rust"@)
    }
}

/// A runtime result with the error by its characters.
pub open spec fn runtime_result(r: Result<FunctionRuntime, String>) -> Result<FunctionRuntime, Seq<char>> {
    match r {
        Ok(v) => Ok(v),
        Err(m) => Err(m@),
    }
}

/// A file of a new function directory: its path inside the directory and its text.
#[derive(Clone, Debug, PartialEq, Eq)]
pub struct TemplateFile {
    pub path: String,
    pub content: String,
}

/// Files as pairs of path and text.
pub open spec fn files_view(files: Seq<TemplateFile>) -> Seq<(Seq<char>, Seq<char>)> {
    files.map_values(|f: TemplateFile| (f.path@, f.content@))
}

/// What a new function `name` in `runtime` starts with, besides `func.yaml`: its
/// directories and its files, in the order they are made.
pub open spec fn template_spec(runtime: FunctionRuntime, name: Seq<char>) -> (Seq<Seq<char>>, Seq<(Seq<char>, Seq<char>)>) {
    match runtime {
        FunctionRuntime::Python => (
            seq!["function"@, "tests"@],
            seq![
                ("function/__init__.py"@, ""@),
                ("function/func.py"@, python_template_spec(name)),
                ("tests/test_func.py"@, PYTHON_TEST_TEMPLATE@),
                ("function/app.py"@, PYTHON_APP_TEMPLATE@),
                ("requirements.txt"@, ""@),
                ("Dockerfile"@, python_dockerfile_spec(8080)),
                ("pyproject.toml"@, python_pyproject_spec(name)),
            ],
        ),
        FunctionRuntime::Rust => (
            seq!["src"@],
            seq![
                ("Cargo.toml"@, cargo_toml_spec(name)),
                ("src/main.rs"@, RUST_RUNTIME_MAIN@),
                ("src/function.rs"@, RUST_FUNCTION_TEMPLATE@),
                ("Dockerfile"@, dockerfile_spec(name, 8080)),
            ],
        ),
    }
}

/// What a build of a function in `runtime` needs in its directory, in the order checked.
pub open spec fn required_spec(runtime: FunctionRuntime) -> Seq<Seq<char>> {
    match runtime {
        FunctionRuntime::Python => seq!["function/func.py"@, "function/app.py"@, "Dockerfile"@],
        FunctionRuntime::Rust => seq!["Cargo.toml"@, "src/main.rs"@],
    }
}

/// The first required file among the first `n` that is absent, if any.
pub open spec fn first_missing(required: Seq<Seq<char>>, present: Seq<bool>, n: int) -> Option<Seq<char>>
    decreases n,
{
    if n <= 0 {
        None
    } else {
        match first_missing(required, present, n - 1) {
            Some(f) => Some(f),
            None => if present[n - 1] {
                None
            } else {
                Some(required[n - 1])
            },
        }
    }
}

fn file(path: &str, content: String) -> (r: TemplateFile)
    ensures
        r.path@ == path@,
        r.content == content,
{
    TemplateFile { path: owned(path), content }
}

impl FunctionRuntime {
    /// The runtime a `--language` value names.
    pub fn from_language(language: &str) -> (r: Result<FunctionRuntime, String>)
        ensures
            runtime_result(r) == runtime_for(language@),
    {
        let n = normalize(language);
        if n == owned("python") || n == owned("py") {
            Ok(FunctionRuntime::Python)
        } else if n == owned("rust") || n == owned("rs") {
            Ok(FunctionRuntime::Rust)
        } else {
            Err(concat3("unsupported function runtime ", n.as_str(), "; supported runtimes: python, rust"))
        }
    }

    /// The runtime a `func.yaml` names; the same names as `--language`.
    pub fn from_config(runtime: &str) -> (r: Result<FunctionRuntime, String>)
        ensures
            runtime_result(r) == runtime_for(runtime@),
    {
        FunctionRuntime::from_language(runtime)
    }

    /// The runtime's name: `python` or `rust`.
    pub fn name(self) -> (r: &'static str)
        ensures
            self == FunctionRuntime::Python ==> r@ == "python"@,
            self == FunctionRuntime::Rust ==> r@ == "rust"@,
    {
        match self {
            FunctionRuntime::Python => "python",
            FunctionRuntime::Rust => "rust",
        }
    }

    /// The directories and files `create` makes for a new function `name`.
    pub fn create(self, name: &str) -> (r: (Vec<String>, Vec<TemplateFile>))
        ensures
            r.0@.map_values(|d: String| d@) == template_spec(self, name@).0,
            files_view(r.1@) == template_spec(self, name@).1,
    {
        let mut dirs: Vec<String> = Vec::new();
        let mut files: Vec<TemplateFile> = Vec::new();
        match self {
            FunctionRuntime::Python => {
                dirs.push(owned("function"));
                dirs.push(owned("tests"));
                files.push(file("function/__init__.py", String::new()));
                files.push(file("function/func.py", python_template(name)));
                files.push(file("tests/test_func.py", owned(python_test_template())));
                files.push(file("function/app.py", owned(python_app_template())));
                files.push(file("requirements.txt", String::new()));
                files.push(file("Dockerfile", python_dockerfile(crate::kn::default_port())));
                files.push(file("pyproject.toml", python_pyproject(name)));
                proof {
                    reveal_strlit("");
                    let fv = files_view(files@);
                    let want = template_spec(self, name@).1;
                    assert(fv.len() == want.len());
                    assert forall|j: int| 0 <= j < fv.len() implies fv[j] == want[j] by {
                        assert(fv[j] == (files@[j].path@, files@[j].content@));
                    }
                    assert(fv =~= want);
                }
            },
            FunctionRuntime::Rust => {
                dirs.push(owned("src"));
                files.push(file("Cargo.toml", cargo_toml(name)));
                files.push(file("src/main.rs", owned(runtime_main())));
                files.push(file("src/function.rs", owned(function_template())));
                files.push(file("Dockerfile", dockerfile(name, crate::kn::default_port())));
                proof {
                    let fv = files_view(files@);
                    let want = template_spec(self, name@).1;
                    assert(fv.len() == want.len());
                    assert forall|j: int| 0 <= j < fv.len() implies fv[j] == want[j] by {
                        assert(fv[j] == (files@[j].path@, files@[j].content@));
                    }
                    assert(fv =~= want);
                }
            },
        }
        proof {
            assert(dirs_match(dirs@, template_spec(self, name@).0));
        }
        (dirs, files)
    }

    /// The files a build needs, in the order they are checked.
    pub fn required_files(self) -> (r: Vec<&'static str>)
        ensures
            r@.map_values(|f: &'static str| f@) == required_spec(self),
    {
        let mut r: Vec<&'static str> = Vec::new();
        match self {
            FunctionRuntime::Python => {
                r.push("function/func.py");
                r.push("function/app.py");
                r.push("Dockerfile");
            },
            FunctionRuntime::Rust => {
                r.push("Cargo.toml");
                r.push("src/main.rs");
            },
        }
        assert(r@.map_values(|f: &'static str| f@) =~= required_spec(self));
        r
    }

    /// Checks a function directory before a build, given which of `required_files` exist:
    /// the first absent one is the error `<dir> is missing <file>`.
    pub fn check_sources(self, dir_display: &str, present: &Vec<bool>) -> (r: Result<(), String>)
        requires
            present@.len() == required_spec(self).len(),
        ensures
            match first_missing(required_spec(self), present@, present@.len() as int) {
                Some(f) => r matches Err(m) && m@ == dir_display@ + " is missing "@ + f,
                None => r.is_ok(),
            },
    {
        let required = self.required_files();
        let ghost req = required_spec(self);
        let mut i: usize = 0;
        while i < present.len()
            invariant
                i <= present@.len(),
                present@.len() == req.len(),
                required@.len() == req.len(),
                req == required_spec(self),
                forall|j: int| 0 <= j < req.len() ==> (#[trigger] required@[j])@ == req[j],
                first_missing(req, present@, i as int).is_none(),
            decreases present@.len() - i,
        {
            if !present[i] {
                proof {
                    lemma_first_missing_stays(req, present@, i + 1, present@.len() as int);
                }
                return Err(concat3(dir_display, " is missing ", required[i]));
            }
            i = i + 1;
        }
        Ok(())
    }
}

spec fn dirs_match(d: Seq<String>, want: Seq<Seq<char>>) -> bool {
    d.map_values(|x: String| x@) =~= want
}

proof fn lemma_first_missing_stays(required: Seq<Seq<char>>, present: Seq<bool>, n: int, m: int)
    requires
        0 <= n <= m,
        first_missing(required, present, n).is_some(),
    ensures
        first_missing(required, present, m) == first_missing(required, present, n),
    decreases m - n,
{
    if m > n {
        lemma_first_missing_stays(required, present, n, m - 1);
    }
}

/// The target triple a Rust function image is built for on a host architecture.
pub open spec fn musl_target_spec(arch: Seq<char>) -> Result<Seq<char>, Seq<char>> {
    if arch == "x86_64"@ {
        Ok("x86_64-unknown-linux-musl"@)
    } else if arch == "aarch64"@ {
        Ok("aarch64-unknown-linux-musl"@)
    } else {
        Err("unsupported Rust function image architecture "@ + arch + "; supported: x86_64, aarch64"@)
    }
}

/// The static Linux target for the host architecture `arch`.
pub fn linux_musl_target(arch: &str) -> (r: Result<&'static str, String>)
    ensures
        match r {
            Ok(t) => musl_target_spec(arch@) == Ok::<Seq<char>, Seq<char>>(t@),
            Err(m) => musl_target_spec(arch@) == Err::<Seq<char>, Seq<char>>(m@),
        },
{
    let a = owned(arch);
    if a == owned("x86_64") {
        Ok("x86_64-unknown-linux-musl")
    } else if a == owned("aarch64") {
        Ok("aarch64-unknown-linux-musl")
    } else {
        Err(concat3("unsupported Rust function image architecture ", arch, "; supported: x86_64, aarch64"))
    }
}

/// The message asking to install a missing Rust target.
pub fn missing_target_message(target: &str) -> (r: String)
    ensures
        r@ == "Rust target "@ + target@
            + " is required to build lightweight scratch function images; install it with `rustup target add "@
            + target@ + "`"@,
{
    let mut r = concat3(
        "Rust target ",
        target,
        " is required to build lightweight scratch function images; install it with `rustup target add ",
    );
    r.append(target);
    r.append("`");
    r
}


/// `s[i..j]` is one of the lines `str::lines` yields: it starts the text or follows a
/// newline, ends at a newline or the end, holds no newline, and does not start at the end.
pub open spec fn is_line(s: Seq<char>, i: int, j: int) -> bool {
    &&& 0 <= i <= j <= s.len()
    &&& i < s.len()
    &&& (i == 0 || s[i - 1] == '\n')
    &&& (j == s.len() || s[j] == '\n')
    &&& forall|k: int| i <= k < j ==> s[k] != '\n'
}

/// Some line of `listing`, trimmed, is `target`.
pub open spec fn lists_target(listing: Seq<char>, target: Seq<char>) -> bool {
    exists|i: int, j: int| is_line(listing, i, j) && trimmed(#[trigger] listing.subrange(i, j)) == target
}

/// Whether `rustup target list --installed` printed `target` on a line of its own.
pub fn target_installed(listing: &str, target: &str) -> (r: bool)
    ensures
        r == lists_target(listing@, target@),
{
    let v = chars_of(listing);
    let n = v.len();
    let t = owned(target);
    let ghost s = listing@;
    let mut start: usize = 0;
    let mut k: usize = 0;
    while k < n
        invariant
            v@ == s,
            s == listing@,
            n == s.len(),
            t@ == target@,
            start <= k <= n,
            start == 0 || s[start - 1] == '\n',
            forall|m: int| start <= m < k ==> s[m] != '\n',
            forall|i: int, j: int| #![trigger s.subrange(i, j)] is_line(s, i, j) && i < start ==> trimmed(s.subrange(i, j)) != target@,
        decreases n - k,
    {
        if v[k] == '\n' {
            if segment_is(&v, start, k, &t) {
                proof {
                    assert(is_line(s, start as int, k as int));
                    assert(trimmed(s.subrange(start as int, k as int)) == target@);
                    assert(lists_target(listing@, target@));
                }
                return true;
            }
            proof {
                assert forall|i: int, j: int| #![trigger s.subrange(i, j)] is_line(s, i, j) && i < k + 1 implies trimmed(s.subrange(i, j)) != target@ by {
                    if i >= start {
                        if i > start {
                            assert(s[i - 1] == '\n');
                        }
                        assert(i == start);
                        if j < k {
                            assert(s[j] == '\n');
                        }
                        if j > k {
                            assert(s[k as int] == '\n');
                        }
                        assert(j == k);
                    }
                }
            }
            start = k + 1;
        }
        k = k + 1;
    }
    if start < n {
        if segment_is(&v, start, n, &t) {
            proof {
                assert(is_line(s, start as int, n as int));
                assert(lists_target(listing@, target@));
            }
            return true;
        }
    }
    proof {
        assert forall|i: int, j: int| is_line(s, i, j) implies trimmed(#[trigger] s.subrange(i, j)) != target@ by {
            if i >= start {
                if i > start {
                    assert(s[i - 1] == '\n');
                }
                assert(i == start);
                if j < n {
                    assert(s[j] == '\n');
                }
                assert(j == n);
            }
        }
    }
    false
}

/// Whether the characters from `from` up to `to`, trimmed, are `t`.
fn segment_is(v: &Vec<char>, from: usize, to: usize, t: &String) -> (r: bool)
    requires
        from <= to <= v@.len(),
    ensures
        r == (trimmed(v@.subrange(from as int, to as int)) == t@),
{
    let seg = slice_chars(v, from, to);
    let text = string_of(seg.as_slice());
    let line = trim_text(text.as_str());
    line == *t
}


/// The check of the Python-only command line: a language or configured runtime other than
/// `python` (in any ASCII case, not trimmed) is refused.
pub fn require_python(language: &str) -> (r: Result<(), String>)
    ensures
        r.is_ok() == (lower(language@) == "python"@),
        r matches Err(m) ==> m@ == "only python functions are currently supported"@,
{
    let l = ascii_lowercase(language);
    if l == owned("python") {
        Ok(())
    } else {
        Err(owned("only python functions are currently supported"))
    }
}

} // verus!
