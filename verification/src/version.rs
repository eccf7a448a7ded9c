//! The normalized version record, the mismatch level, and the mismatch record.

use vstd::prelude::*;
use vstd::string::StringExecFns;

verus! {

/// The version component at which two records diverge, from coarsest
/// (`Major`) to finest (`Patch`).
#[derive(Clone, Copy, Debug, PartialEq, Eq, Structural)]
pub enum VersionLevel {
    Major,
    Minor,
    Teeny,
    Patch,
}

impl VersionLevel {
    /// The human-readable name of the level.
    pub open spec fn spec_label(self) -> Seq<char> {
        match self {
            VersionLevel::Major => "Major"@,
            VersionLevel::Minor => "Minor"@,
            VersionLevel::Teeny => "Teeny"@,
            VersionLevel::Patch => "Patch"@,
        }
    }

    /// Returns the human-readable name of the level.
    pub fn label(&self) -> (r: &'static str)
        ensures
            r@ == self.spec_label(),
    {
        match self {
            VersionLevel::Major => "Major",
            VersionLevel::Minor => "Minor",
            VersionLevel::Teeny => "Teeny",
            VersionLevel::Patch => "Patch",
        }
    }
}

/// Mathematical view of a `RubyVersion`: each textual field as a sequence
/// of characters.
pub ghost struct VersionView {
    pub major: Seq<char>,
    pub minor: Seq<char>,
    pub teeny: Option<Seq<char>>,
    pub patch: Option<Seq<char>>,
    pub found_in_file: Seq<char>,
}

/// A normalized version declaration extracted from one file.
///
/// `major` and `minor` are always present; `teeny` is the third dotted
/// component when the declaration had one; `patch` is the numeric `-p`
/// release suffix when the declaration had one.
#[derive(Debug, Hash)]
pub struct RubyVersion {
    pub major: String,
    pub minor: String,
    pub teeny: Option<String>,
    pub patch: Option<String>,
    pub found_in_file: String,
}

impl View for RubyVersion {
    type V = VersionView;

    open spec fn view(&self) -> VersionView {
        VersionView {
            major: self.major@,
            minor: self.minor@,
            teeny: match self.teeny {
                Some(t) => Some(t@),
                None => None,
            },
            patch: match self.patch {
                Some(p) => Some(p@),
                None => None,
            },
            found_in_file: self.found_in_file@,
        }
    }
}

impl DeepView for RubyVersion {
    type V = VersionView;

    open spec fn deep_view(&self) -> VersionView {
        self.view()
    }
}

/// The display form of a record: `MAJOR.MINOR`, `MAJOR.MINOR.TEENY` or
/// `MAJOR.MINOR.TEENY-pPATCH`. A `patch` without a `teeny` is not rendered.
pub open spec fn spec_render(v: VersionView) -> Seq<char> {
    let base = v.major + seq!['.'] + v.minor;
    match v.teeny {
        Some(teeny) => {
            let with_teeny = base + seq!['.'] + teeny;
            match v.patch {
                Some(patch) => with_teeny + seq!['-', 'p'] + patch,
                None => with_teeny,
            }
        },
        None => base,
    }
}

/// Record equality: all five fields must agree; for `teeny` and `patch`,
/// a value on one side and none on the other makes the records unequal.
pub open spec fn spec_eq_records(a: VersionView, b: VersionView) -> bool {
    a.major == b.major && a.minor == b.minor && a.teeny == b.teeny && a.patch == b.patch
        && a.found_in_file == b.found_in_file
}

impl RubyVersion {
    /// Renders the record in its display form.
    pub fn render(&self) -> (r: String)
        ensures
            r@ == spec_render(self@),
    {
        proof {
            reveal_strlit(".");
            reveal_strlit("-p");
        }
        let mut s = String::new();
        s.append(self.major.as_str());
        s.append(".");
        s.append(self.minor.as_str());
        match &self.teeny {
            Some(teeny) => {
                s.append(".");
                s.append(teeny.as_str());
                match &self.patch {
                    Some(patch) => {
                        s.append("-p");
                        s.append(patch.as_str());
                    },
                    None => {},
                }
            },
            None => {},
        }
        proof {
            assert("."@ =~= seq!['.']);
            assert("-p"@ =~= seq!['-', 'p']);
            assert(s@ =~= spec_render(self@));
        }
        s
    }
}

impl Clone for RubyVersion {
    /// The clone is equal to the original, field by field.
    fn clone(&self) -> (r: Self)
        ensures
            r == *self,
    {
        RubyVersion {
            major: self.major.clone(),
            minor: self.minor.clone(),
            teeny: match &self.teeny {
                Some(t) => Some(t.clone()),
                None => None,
            },
            patch: match &self.patch {
                Some(p) => Some(p.clone()),
                None => None,
            },
            found_in_file: self.found_in_file.clone(),
        }
    }
}

impl PartialEq for RubyVersion {
    fn eq(&self, other: &Self) -> (r: bool)
    {
        let fields_eq = self.major == other.major && self.minor == other.minor
            && self.found_in_file == other.found_in_file;
        let teeny_eq = match (&self.teeny, &other.teeny) {
            (Some(a), Some(b)) => *a == *b,
            (None, None) => true,
            _ => false,
        };
        let patch_eq = match (&self.patch, &other.patch) {
            (Some(a), Some(b)) => *a == *b,
            (None, None) => true,
            _ => false,
        };
        fields_eq && teeny_eq && patch_eq
    }
}

impl vstd::std_specs::cmp::PartialEqSpecImpl for RubyVersion {
    open spec fn obeys_eq_spec() -> bool {
        true
    }

    open spec fn eq_spec(&self, other: &RubyVersion) -> bool {
        spec_eq_records(self@, other@)
    }
}

impl Eq for RubyVersion {}

/// Mathematical view of a `VersionMismatch`.
pub ghost struct MismatchView {
    pub level: VersionLevel,
    pub versions: Seq<VersionView>,
}

/// One detected divergence between exactly two version records.
#[derive(Debug)]
pub struct VersionMismatch {
    pub level: VersionLevel,
    pub versions: Vec<RubyVersion>,
}

impl View for VersionMismatch {
    type V = MismatchView;

    open spec fn view(&self) -> MismatchView {
        MismatchView { level: self.level, versions: self.versions.deep_view() }
    }
}

impl DeepView for VersionMismatch {
    type V = MismatchView;

    open spec fn deep_view(&self) -> MismatchView {
        self.view()
    }
}

} // verus!
