//! What a build of the C++ side needs: the files to compile, the files to
//! run the Qt tools on, and the lines that tell cargo how to link.

use crate::gen::{header, header_spec, source, source_spec};
use crate::install::{lib_name_spec, MajorVersion, Platform, QtInstall, QtInstallView};
use crate::model::{object_views, Object};
use crate::text::{join_path, join_path_spec, string_views};
use vstd::prelude::*;

verus! {

/// A `Builder` as plain values.
pub struct BuilderView {
    /// The Qt installation to build against
    pub qt_install: QtInstallView,
    /// Files to compile
    pub files: Seq<Seq<char>>,
    /// Files to run `moc` on
    pub moc_files: Seq<Seq<char>>,
    /// Files to run `rcc` on
    pub res_files: Seq<Seq<char>>,
}

/// Collects what a build is made of.
#[derive(Debug)]
pub struct Builder {
    qt_install: QtInstall,
    files: Vec<String>,
    moc_files: Vec<String>,
    res_files: Vec<String>,
}

impl View for Builder {
    type V = BuilderView;

    closed spec fn view(&self) -> BuilderView {
        BuilderView {
            qt_install: self.qt_install@,
            files: string_views(self.files@),
            moc_files: string_views(self.moc_files@),
            res_files: string_views(self.res_files@),
        }
    }
}

/// The line that tells cargo where the Qt libraries are.
pub open spec fn link_search_spec(install: QtInstallView) -> Seq<char> {
    match install.platform {
        Platform::MacOs => "cargo:rustc-link-search=framework="@ + install.lib_dir,
        _ => "cargo:rustc-link-search=native="@ + install.lib_dir,
    }
}

/// The line that tells cargo to link the Qt library of `module`.
pub open spec fn link_lib_spec(install: QtInstallView, module: Seq<char>) -> Seq<char> {
    match install.platform {
        Platform::MacOs => "cargo:rustc-link-lib=framework="@ + lib_name_spec(
            install.platform,
            module,
            install.major_version,
        ),
        _ => "cargo:rustc-link-lib="@ + lib_name_spec(
            install.platform,
            module,
            install.major_version,
        ),
    }
}

impl Builder {
    /// A builder for the given Qt installation, without any file.
    pub fn new(qt_install: QtInstall) -> (result: Self)
        ensures
            result@ == (BuilderView {
                qt_install: qt_install@,
                files: Seq::empty(),
                moc_files: Seq::empty(),
                res_files: Seq::empty(),
            }),
    {
        let result = Builder {
            qt_install,
            files: Vec::new(),
            moc_files: Vec::new(),
            res_files: Vec::new(),
        };
        proof {
            assert(result@.files =~= Seq::<Seq<char>>::empty());
            assert(result@.moc_files =~= Seq::<Seq<char>>::empty());
            assert(result@.res_files =~= Seq::<Seq<char>>::empty());
        }
        result
    }

    /// A builder for the Qt installation that the given values describe,
    /// without any file; `None` where the major version is not `Qt5`.
    pub fn from_info(
        platform: Platform,
        major_version: &str,
        version: String,
        bin_dir: String,
        lib_dir: String,
        include_dir: String,
    ) -> (result: Option<Self>)
        ensures
            result is Some <==> major_version@ == "Qt5"@,
            result is Some ==> result->0@ == (BuilderView {
                qt_install: QtInstallView {
                    platform,
                    major_version: MajorVersion::Qt5,
                    version: version@,
                    bin_dir: bin_dir@,
                    lib_dir: lib_dir@,
                    include_dir: include_dir@,
                },
                files: Seq::empty(),
                moc_files: Seq::empty(),
                res_files: Seq::empty(),
            }),
    {
        match MajorVersion::from_str(major_version) {
            Some(major) => Some(
                Builder::new(
                    QtInstall::new(platform, major, version, bin_dir, lib_dir, include_dir),
                ),
            ),
            None => None,
        }
    }

    /// Adds a file to compile.
    pub fn file(self, path: &str) -> (result: Self)
        ensures
            result@ == (BuilderView { files: self@.files.push(path@), ..self@ }),
    {
        let mut files = self.files;
        files.push(String::from_str(path));
        let result = Builder {
            qt_install: self.qt_install,
            files,
            moc_files: self.moc_files,
            res_files: self.res_files,
        };
        proof {
            assert(result@.files =~= self@.files.push(path@));
        }
        result
    }

    /// Sets the files to compile.
    pub fn files(self, paths: Vec<String>) -> (result: Self)
        ensures
            result@ == (BuilderView { files: string_views(paths@), ..self@ }),
    {
        Builder {
            qt_install: self.qt_install,
            files: paths,
            moc_files: self.moc_files,
            res_files: self.res_files,
        }
    }

    /// Adds a file to run `moc` on.
    pub fn moc_file(self, path: &str) -> (result: Self)
        ensures
            result@ == (BuilderView { moc_files: self@.moc_files.push(path@), ..self@ }),
    {
        let mut moc_files = self.moc_files;
        moc_files.push(String::from_str(path));
        let result = Builder {
            qt_install: self.qt_install,
            files: self.files,
            moc_files,
            res_files: self.res_files,
        };
        proof {
            assert(result@.moc_files =~= self@.moc_files.push(path@));
        }
        result
    }

    /// Sets the files to run `moc` on.
    pub fn moc_files(self, paths: Vec<String>) -> (result: Self)
        ensures
            result@ == (BuilderView { moc_files: string_views(paths@), ..self@ }),
    {
        Builder {
            qt_install: self.qt_install,
            files: self.files,
            moc_files: paths,
            res_files: self.res_files,
        }
    }

    /// Adds a file to run `rcc` on.
    pub fn res_file(self, path: &str) -> (result: Self)
        ensures
            result@ == (BuilderView { res_files: self@.res_files.push(path@), ..self@ }),
    {
        let mut res_files = self.res_files;
        res_files.push(String::from_str(path));
        let result = Builder {
            qt_install: self.qt_install,
            files: self.files,
            moc_files: self.moc_files,
            res_files,
        };
        proof {
            assert(result@.res_files =~= self@.res_files.push(path@));
        }
        result
    }

    /// Sets the files to run `rcc` on.
    pub fn res_files(self, paths: Vec<String>) -> (result: Self)
        ensures
            result@ == (BuilderView { res_files: string_views(paths@), ..self@ }),
    {
        Builder {
            qt_install: self.qt_install,
            files: self.files,
            moc_files: self.moc_files,
            res_files: paths,
        }
    }

    /// The Qt installation to build against.
    pub fn qt_install(&self) -> (result: &QtInstall)
        ensures
            result@ == self@.qt_install,
    {
        &self.qt_install
    }

    /// The files to compile.
    pub fn source_files(&self) -> (result: &Vec<String>)
        ensures
            string_views(result@) == self@.files,
    {
        &self.files
    }

    /// The files to run `moc` on.
    pub fn moc_inputs(&self) -> (result: &Vec<String>)
        ensures
            string_views(result@) == self@.moc_files,
    {
        &self.moc_files
    }

    /// The files to run `rcc` on.
    pub fn res_inputs(&self) -> (result: &Vec<String>)
        ensures
            string_views(result@) == self@.res_files,
    {
        &self.res_files
    }

    /// The line that tells cargo where the Qt libraries are: a framework
    /// directory under macOS, a native one elsewhere.
    pub fn link_search(&self) -> (result: String)
        ensures
            result@ == link_search_spec(self@.qt_install),
    {
        match self.qt_install.platform() {
            Platform::MacOs => String::from_str("cargo:rustc-link-search=framework=").concat(
                self.qt_install.lib_dir(),
            ),
            _ => String::from_str("cargo:rustc-link-search=native=").concat(
                self.qt_install.lib_dir(),
            ),
        }
    }

    /// The line that tells cargo to link the Qt library of `module`.
    pub fn link_lib(&self, module: &str) -> (result: String)
        ensures
            result@ == link_lib_spec(self@.qt_install, module@),
    {
        let lib = self.qt_install.lib_name(module);
        match self.qt_install.platform() {
            Platform::MacOs => String::from_str("cargo:rustc-link-lib=framework=").concat(
                lib.as_str(),
            ),
            _ => String::from_str("cargo:rustc-link-lib=").concat(lib.as_str()),
        }
    }
}

/// A Qt tool that turns an input file into a C++ file.
#[derive(Debug)]
pub struct Tool {
    name: String,
    tool: String,
    args: Vec<String>,
}

/// The name of the file that the tool `name` writes for an input whose
/// file name, without its extension, is `stem`.
pub open spec fn output_name_spec(name: Seq<char>, stem: Seq<char>) -> Seq<char> {
    name + "_"@ + stem + ".cpp"@
}

impl Tool {
    /// The name of the tool.
    pub closed spec fn name_view(&self) -> Seq<char> {
        self.name@
    }

    /// The path to the tool.
    pub closed spec fn tool_view(&self) -> Seq<char> {
        self.tool@
    }

    /// The arguments that come before the input.
    pub closed spec fn args_view(&self) -> Seq<Seq<char>> {
        string_views(self.args@)
    }

    /// `moc`, at the given path.
    pub fn moc(tool: &str) -> (result: Self)
        ensures
            result.name_view() == "moc"@,
            result.tool_view() == tool@,
            result.args_view() == Seq::<Seq<char>>::empty(),
    {
        let result = Tool {
            name: String::from_str("moc"),
            tool: String::from_str(tool),
            args: Vec::new(),
        };
        proof {
            assert(result.args_view() =~= Seq::<Seq<char>>::empty());
        }
        result
    }

    /// `rcc`, at the given path, for the resource `name`.
    pub fn rcc(tool: &str, name: &str) -> (result: Self)
        ensures
            result.name_view() == "rcc"@,
            result.tool_view() == tool@,
            result.args_view() == seq!["-name"@, name@],
    {
        let mut args: Vec<String> = Vec::new();
        args.push(String::from_str("-name"));
        args.push(String::from_str(name));
        let result = Tool { name: String::from_str("rcc"), tool: String::from_str(tool), args };
        proof {
            assert(result.args_view() =~= seq!["-name"@, name@]);
        }
        result
    }

    /// The path to the tool.
    pub fn tool(&self) -> (result: &str)
        ensures
            result@ == self.tool_view(),
    {
        self.tool.as_str()
    }

    /// The name of the file that the tool writes for an input whose file
    /// name, without its extension, is `stem`.
    pub fn output_name(&self, stem: &str) -> (result: String)
        ensures
            result@ == output_name_spec(self.name_view(), stem@),
    {
        let mut text = String::from_str(self.name.as_str());
        text.append("_");
        text.append(stem);
        text.append(".cpp");
        text
    }

    /// The arguments of a run: those of the tool, the input, `-o` and the
    /// output.
    pub fn arguments(&self, input: &str, output: &str) -> (result: Vec<String>)
        ensures
            string_views(result@) == self.args_view() + seq![input@, "-o"@, output@],
    {
        let mut result: Vec<String> = Vec::new();
        let mut i: usize = 0;
        while i < self.args.len()
            invariant
                i <= self.args.len(),
                result@.len() == i,
                forall|k: int| 0 <= k < i ==> (#[trigger] result@[k])@ == self.args@[k]@,
            decreases self.args.len() - i,
        {
            result.push(String::from_str(self.args[i].as_str()));
            i += 1;
        }
        result.push(String::from_str(input));
        result.push(String::from_str("-o"));
        result.push(String::from_str(output));
        proof {
            assert(string_views(result@) =~= self.args_view() + seq![input@, "-o"@, output@]);
        }
        result
    }
}

/// What building the bindings of a project takes: the two generated
/// texts, the files to write them to, and the builder that compiles them.
#[derive(Debug)]
pub struct BindingsBuild {
    /// Where the header goes
    pub header_path: String,
    /// The header text
    pub header: String,
    /// Where the source goes
    pub source_path: String,
    /// The source text
    pub source: String,
    /// The builder, with the source to compile and the header to run
    /// `moc` on
    pub builder: Builder,
}

/// Plans the build of the bindings for the objects of a project.
///
/// The header goes to `bindings.h` and the source to `bindings.cpp`, both
/// in `build_dir`. The builder gets the source as a file to compile and
/// the header as a file to run `moc` on, after the files that it has.
pub fn build(objects: &Vec<Object>, builder: Builder, build_dir: &str) -> (result: BindingsBuild)
    ensures
        result.header_path@ == join_path_spec(
            build_dir@,
            "bindings.h"@,
            builder@.qt_install.platform.separator_spec(),
        ),
        result.source_path@ == join_path_spec(
            build_dir@,
            "bindings.cpp"@,
            builder@.qt_install.platform.separator_spec(),
        ),
        result.header@ == header_spec(object_views(objects@)),
        result.source@ == source_spec(object_views(objects@)),
        result.builder@ == (BuilderView {
            files: builder@.files.push(result.source_path@),
            moc_files: builder@.moc_files.push(result.header_path@),
            ..builder@
        }),
{
    let sep = builder.qt_install().platform().separator();
    let header_path = join_path(build_dir, "bindings.h", sep);
    let source_path = join_path(build_dir, "bindings.cpp", sep);
    let header_text = header(objects);
    let source_text = source(objects);
    let builder = builder.file(source_path.as_str()).moc_file(header_path.as_str());
    BindingsBuild {
        header_path,
        header: header_text,
        source_path,
        source: source_text,
        builder,
    }
}

} // verus!
