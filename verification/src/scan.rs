//! Collection of version records from a set of discovered files.
//!
//! The file-discovery collaborator hands over, for each directory entry,
//! its plain file name, its full path and its textual content; this
//! module decides by file name which grammar applies and gathers the
//! extracted records in entry order.

use vstd::prelude::*;
use vstd::string::StringExecFns;
use crate::parse::{
    parse_bare_version, parse_tool_versions, spec_parse_tool_versions, spec_parse_version,
};
use crate::version::{RubyVersion, VersionView};

verus! {

/// One discovered file: its plain name, the path it was found under, and
/// its full textual content.
pub struct SourceFile {
    pub name: String,
    pub path: String,
    pub content: String,
}

/// Mathematical view of a `SourceFile`.
pub ghost struct SourceFileView {
    pub name: Seq<char>,
    pub path: Seq<char>,
    pub content: Seq<char>,
}

impl View for SourceFile {
    type V = SourceFileView;

    open spec fn view(&self) -> SourceFileView {
        SourceFileView { name: self.name@, path: self.path@, content: self.content@ }
    }
}

impl DeepView for SourceFile {
    type V = SourceFileView;

    open spec fn deep_view(&self) -> SourceFileView {
        self.view()
    }
}

/// A `.ruby-version` file whose content does not start with a version
/// declaration. Such a file is assumed well formed, so this aborts the
/// whole scan; it is the only error the scan reports itself.
#[derive(Debug)]
pub struct MalformedVersionError {
    pub path: String,
}

/// The name of the bare-version file kind.
pub open spec fn ruby_version_file_name() -> Seq<char> {
    ".ruby-version"@
}

/// The name of the tool-versions file kind.
pub open spec fn tool_versions_file_name() -> Seq<char> {
    ".tool-versions"@
}

/// The records gathered from the files in order: each `.ruby-version`
/// file must yield one, each `.tool-versions` file may yield one, and
/// every other file is ignored. The first `.ruby-version` file that
/// yields none makes the whole scan fail with that file's path.
pub open spec fn spec_collect_versions(files: Seq<SourceFileView>) -> Result<
    Seq<VersionView>,
    Seq<char>,
>
    decreases files.len(),
{
    if files.len() == 0 {
        Ok(Seq::empty())
    } else {
        let f = files[0];
        if f.name == ruby_version_file_name() {
            match spec_parse_version(f.content, f.path) {
                Some(v) => match spec_collect_versions(files.drop_first()) {
                    Ok(rest) => Ok(seq![v] + rest),
                    Err(e) => Err(e),
                },
                None => Err(f.path),
            }
        } else if f.name == tool_versions_file_name() {
            match spec_parse_tool_versions(f.content, f.path) {
                Some(v) => match spec_collect_versions(files.drop_first()) {
                    Ok(rest) => Ok(seq![v] + rest),
                    Err(e) => Err(e),
                },
                None => spec_collect_versions(files.drop_first()),
            }
        } else {
            spec_collect_versions(files.drop_first())
        }
    }
}

/// Gathers one version record from each recognized file, in entry order:
/// `.ruby-version` content is parsed as a bare version and must match;
/// `.tool-versions` content contributes the version of its first `ruby `
/// line, if it has one; files of any other name are ignored. Fails with
/// the path of the first `.ruby-version` file whose content does not
/// start with a version declaration.
pub fn parse_files_for_versions(files: &Vec<SourceFile>) -> (r: Result<
    Vec<RubyVersion>,
    MalformedVersionError,
>)
    ensures
        (match r {
            Ok(versions) => spec_collect_versions(files.deep_view()) == Ok::<_, Seq<char>>(
                versions.deep_view(),
            ),
            Err(e) => spec_collect_versions(files.deep_view()) == Err::<Seq<VersionView>, _>(
                e.path@,
            ),
        }),
{
    let ghost fv = files.deep_view();
    let ruby_version_name: String = String::from_str(".ruby-version");
    let tool_versions_name: String = String::from_str(".tool-versions");
    let mut versions: Vec<RubyVersion> = Vec::new();
    let mut idx: usize = 0;
    proof {
        assert(fv.skip(0) =~= fv);
        match spec_collect_versions(fv) {
            Ok(rest) => {
                assert(versions.deep_view() + rest =~= rest);
            },
            Err(_) => {},
        }
    }
    while idx < files.len()
        invariant
            fv == files.deep_view(),
            idx <= files.len(),
            ruby_version_name@ == ruby_version_file_name(),
            tool_versions_name@ == tool_versions_file_name(),
            spec_collect_versions(fv) == (match spec_collect_versions(fv.skip(idx as int)) {
                Ok(rest) => Ok::<_, Seq<char>>(versions.deep_view() + rest),
                Err(e) => Err::<Seq<VersionView>, _>(e),
            }),
        decreases files.len() - idx,
    {
        let file = &files[idx];
        let ghost remaining = fv.skip(idx as int);
        proof {
            assert(remaining.drop_first() =~= fv.skip(idx as int + 1));
            assert(remaining[0] == fv[idx as int]);
        }
        let ghost versions_before = versions.deep_view();
        if file.name == ruby_version_name {
            match parse_bare_version(file.content.as_str(), file.path.as_str()) {
                Some(version) => {
                    versions.push(version);
                    proof {
                        assert(spec_parse_version(remaining[0].content, remaining[0].path)
                            == Some(version@));
                        assert(versions.deep_view() =~= versions_before + seq![version@]);
                        match spec_collect_versions(fv.skip(idx as int + 1)) {
                            Ok(rest) => {
                                assert(versions_before + (seq![version@] + rest)
                                    =~= versions.deep_view() + rest);
                            },
                            Err(_) => {},
                        }
                    }
                },
                None => {
                    return Err(MalformedVersionError { path: file.path.clone() });
                },
            }
        } else if file.name == tool_versions_name {
            match parse_tool_versions(file.content.as_str(), file.path.as_str()) {
                Some(version) => {
                    versions.push(version);
                    proof {
                        assert(spec_parse_tool_versions(remaining[0].content, remaining[0].path)
                            == Some(version@));
                        assert(versions.deep_view() =~= versions_before + seq![version@]);
                        match spec_collect_versions(fv.skip(idx as int + 1)) {
                            Ok(rest) => {
                                assert(versions_before + (seq![version@] + rest)
                                    =~= versions.deep_view() + rest);
                            },
                            Err(_) => {},
                        }
                    }
                },
                None => {},
            }
        }
        idx = idx + 1;
    }
    proof {
        assert(fv.skip(idx as int) =~= Seq::<SourceFileView>::empty());
        assert(versions.deep_view() + Seq::<VersionView>::empty() =~= versions.deep_view());
    }
    Ok(versions)
}

} // verus!
