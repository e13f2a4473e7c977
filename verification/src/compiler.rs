//! The compiler front end over whole files: every source file is emitted
//! as a module, after the set of files as a whole is checked — there must
//! be at least one file, every name must carry the source extension, and
//! exactly the entry module `main.ly` must be among them.

use vstd::prelude::*;

use crate::emitter::{generate_module, module_text};
use crate::errors::CompileError;
use crate::text::{str_eq, trim_ly, trim_ly_str};

verus! {

/// One source file: its name (with the source extension) and its lines.
pub struct SourceFile {
    pub name: String,
    pub lines: Vec<String>,
}

/// The mathematical model of a `SourceFile`.
pub ghost struct SourceFileModel {
    pub name: Seq<char>,
    pub lines: Seq<Seq<char>>,
}

impl View for SourceFile {
    type V = SourceFileModel;

    open spec fn view(&self) -> SourceFileModel {
        SourceFileModel { name: self.name@, lines: self.lines.deep_view() }
    }
}

impl DeepView for SourceFile {
    type V = SourceFileModel;

    open spec fn deep_view(&self) -> SourceFileModel {
        self.view()
    }
}

/// One generated module: the module's base name, its definition file's
/// text, and — for a non-entry module — its declaration file's text.
pub struct GeneratedModule {
    pub base: String,
    pub source: String,
    pub header: Option<String>,
}

/// The mathematical model of a `GeneratedModule`.
pub ghost struct GeneratedModuleModel {
    pub base: Seq<char>,
    pub source: Seq<char>,
    pub header: Option<Seq<char>>,
}

impl View for GeneratedModule {
    type V = GeneratedModuleModel;

    open spec fn view(&self) -> GeneratedModuleModel {
        GeneratedModuleModel {
            base: self.base@,
            source: self.source@,
            header: self.header.deep_view(),
        }
    }
}

impl DeepView for GeneratedModule {
    type V = GeneratedModuleModel;

    open spec fn deep_view(&self) -> GeneratedModuleModel {
        self.view()
    }
}

/// A usable source filename: something before the extension, then the
/// source extension itself.
pub open spec fn valid_filename(name: Seq<char>) -> bool {
    name.len() > 3 && name.subrange(name.len() - 3, name.len() as int) == ".ly"@
}

/// The modules generated from the files from index `i` on, in order; the
/// first failing file ends the compilation.
pub open spec fn compile_each(files: Seq<SourceFileModel>, i: nat) -> Result<
    Seq<GeneratedModuleModel>,
    CompileError,
>
    decreases files.len() - i,
{
    if i >= files.len() {
        Ok(Seq::empty())
    } else {
        match module_text(files[i as int].name, files[i as int].lines) {
            Err(e) => Err(e),
            Ok(st) => match compile_each(files, i + 1) {
                Err(e) => Err(e),
                Ok(rest) => Ok(
                    seq![
                        GeneratedModuleModel {
                            base: trim_ly(files[i as int].name),
                            source: st.0,
                            header: st.1,
                        },
                    ] + rest,
                ),
            },
        }
    }
}

/// What compiling a set of source files produces: one generated module
/// per file, in the given order. An empty set, a name without the source
/// extension, and a set without the entry module are each rejected
/// before any module is generated.
pub open spec fn compile_model(files: Seq<SourceFileModel>) -> Result<
    Seq<GeneratedModuleModel>,
    CompileError,
> {
    if files.len() == 0 {
        Err(CompileError::NoSourceFiles)
    } else if !(forall|i: int| 0 <= i < files.len() ==> valid_filename(#[trigger] files[i].name)) {
        Err(CompileError::InvalidFilename)
    } else if !(exists|i: int| 0 <= i < files.len() && #[trigger] files[i].name == "main.ly"@) {
        Err(CompileError::NoEntryModule)
    } else {
        compile_each(files, 0)
    }
}

/// Merges already generated modules with the outcome of the remaining
/// files.
pub open spec fn compile_merge(
    pre: Seq<GeneratedModuleModel>,
    r: Result<Seq<GeneratedModuleModel>, CompileError>,
) -> Result<Seq<GeneratedModuleModel>, CompileError> {
    match r {
        Ok(rest) => Ok(pre + rest),
        Err(e) => Err(e),
    }
}

fn has_ly_extension(name: &str) -> (r: bool)
    ensures
        r == valid_filename(name@),
{
    let n = name.unicode_len();
    if n <= 3 {
        proof {
            reveal_strlit(".ly");
        }
        return false;
    }
    let r = name.get_char(n - 3) == '.' && name.get_char(n - 2) == 'l' && name.get_char(n - 1)
        == 'y';
    proof {
        reveal_strlit(".ly");
        if r {
            assert(name@.subrange(n - 3, n as int) =~= ".ly"@);
        } else {
            if name@.subrange(n - 3, n as int) == ".ly"@ {
                let suf = name@.subrange(n - 3, n as int);
                assert(name@[n - 3] == suf[0]);
                assert(name@[n - 2] == suf[1]);
                assert(name@[n - 1] == suf[2]);
            }
        }
    }
    r
}

/// Compiles a set of source files to their generated modules, exactly as
/// `compile_model` describes: it succeeds if and only if there is at
/// least one file, every name ends in the source extension, the entry
/// module is among the files, and every file's lines lex and generate
/// cleanly; the first failure is the compilation's failure.
#[verifier::rlimit(50)]
pub fn compile(files: &Vec<SourceFile>) -> (r: Result<Vec<GeneratedModule>, CompileError>)
    ensures
        match r {
            Ok(v) => compile_model(files.deep_view()) == Ok::<
                Seq<GeneratedModuleModel>,
                CompileError,
            >(v.deep_view()),
            Err(e) => compile_model(files.deep_view()) == Err::<
                Seq<GeneratedModuleModel>,
                CompileError,
            >(e),
        },
{
    let ghost fs = files.deep_view();
    let n = files.len();
    proof {
        assert(forall|i: int| 0 <= i < n ==> fs[i] == #[trigger] files@[i].deep_view());
    }
    if n == 0 {
        return Err(CompileError::NoSourceFiles);
    }

    // Every name must carry the source extension.
    let mut i: usize = 0;
    while i < n
        invariant
            i <= n,
            n == fs.len(),
            fs == files.deep_view(),
            forall|k: int| 0 <= k < i ==> valid_filename(#[trigger] fs[k].name),
        decreases n - i,
    {
        if !has_ly_extension(files[i].name.as_str()) {
            proof {
                assert(!valid_filename(fs[i as int].name));
            }
            return Err(CompileError::InvalidFilename);
        }
        i = i + 1;
    }

    // The entry module must be among the files.
    let mut has_entry = false;
    let mut j: usize = 0;
    while j < n
        invariant
            j <= n,
            n == fs.len(),
            fs == files.deep_view(),
            has_entry ==> exists|k: int| 0 <= k < n && #[trigger] fs[k].name == "main.ly"@,
            !has_entry ==> forall|k: int| 0 <= k < j ==> #[trigger] fs[k].name != "main.ly"@,
        decreases n - j,
    {
        if str_eq(files[j].name.as_str(), "main.ly") {
            proof {
                assert(fs[j as int].name == "main.ly"@);
            }
            has_entry = true;
            j = n;
        } else {
            j = j + 1;
        }
    }
    if !has_entry {
        return Err(CompileError::NoEntryModule);
    }

    // Generate every module in order.
    let mut out: Vec<GeneratedModule> = Vec::new();
    let mut k: usize = 0;
    proof {
        lemma_compile_merge_empty(compile_each(fs, 0));
        assert(out.deep_view() =~= Seq::<GeneratedModuleModel>::empty());
    }
    while k < n
        invariant
            k <= n,
            n == fs.len(),
            fs == files.deep_view(),
            compile_each(fs, 0) == compile_merge(out.deep_view(), compile_each(fs, k as nat)),
        decreases n - k,
    {
        let f = &files[k];
        let ghost before = out.deep_view();
        match generate_module(f.name.as_str(), &f.lines) {
            Err(e) => {
                return Err(e);
            },
            Ok(m) => {
                let gm = GeneratedModule {
                    base: crate::text::str_to_string(trim_ly_str(f.name.as_str())),
                    source: m.source,
                    header: m.header,
                };
                proof {
                    assert(gm@ == GeneratedModuleModel {
                        base: trim_ly(fs[k as int].name),
                        source: module_text(fs[k as int].name, fs[k as int].lines)->Ok_0.0,
                        header: module_text(fs[k as int].name, fs[k as int].lines)->Ok_0.1,
                    });
                }
                out.push(gm);
                proof {
                    assert(out.deep_view() =~= before.push(gm@));
                    lemma_compile_step(before, gm@, fs, k as nat);
                }
            },
        }
        k = k + 1;
    }
    proof {
        assert(compile_each(fs, k as nat) == Ok::<Seq<GeneratedModuleModel>, CompileError>(
            Seq::empty(),
        ));
        assert(out.deep_view() + Seq::<GeneratedModuleModel>::empty() =~= out.deep_view());
    }
    Ok(out)
}

proof fn lemma_compile_merge_empty(r: Result<Seq<GeneratedModuleModel>, CompileError>)
    ensures
        compile_merge(Seq::empty(), r) == r,
{
    match r {
        Ok(rest) => {
            assert(Seq::empty() + rest =~= rest);
        },
        Err(_) => {},
    }
}

proof fn lemma_compile_step(
    pre: Seq<GeneratedModuleModel>,
    gm: GeneratedModuleModel,
    fs: Seq<SourceFileModel>,
    k: nat,
)
    requires
        k < fs.len(),
        module_text(fs[k as int].name, fs[k as int].lines) matches Ok(st) && gm
            == (GeneratedModuleModel { base: trim_ly(fs[k as int].name), source: st.0, header: st.1 }),
    ensures
        compile_merge(pre, compile_each(fs, k)) == compile_merge(
            pre.push(gm),
            compile_each(fs, k + 1),
        ),
{
    match compile_each(fs, k + 1) {
        Ok(rest) => {
            assert(compile_each(fs, k) == Ok::<Seq<GeneratedModuleModel>, CompileError>(
                seq![gm] + rest,
            ));
            assert(pre + (seq![gm] + rest) =~= pre.push(gm) + rest);
        },
        Err(_) => {},
    }
}

} // verus!
