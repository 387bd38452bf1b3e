//! The mod package manifest: package metadata and its validation.
//!
//! Validation collects human-readable violations instead of failing fast;
//! callers decide whether to treat them as fatal.

use vstd::prelude::*;
use vstd::string::StrSliceExecFns;
use vstd::string::StringExecFns;
use crate::text::spec_file_name;
use crate::text::spec_string_views;
use crate::text::file_name;

verus! {

/// The kebab-case rendering of a string, a function of its characters
/// alone.
pub uninterp spec fn spec_kebab_of(s: Seq<char>) -> Seq<char>;

/// Relies on `heck::AsKebabCase`: renders a string in kebab-case,
/// depending on the input characters alone.
#[verifier::external_body]
fn kebab_case(s: &str) -> (r: String)
    ensures
        r@ == spec_kebab_of(s@),
{
    format!("{}", heck::AsKebabCase(s))
}

/// A character a package name may contain: ASCII alphanumeric or `-`.
pub open spec fn spec_is_name_char(c: char) -> bool {
    (97 <= c as u32 <= 122) || (65 <= c as u32 <= 90) || (48 <= c as u32 <= 57) || c == '-'
}

/// The accepted package keywords.
pub open spec fn spec_is_valid_keyword(k: Seq<char>) -> bool {
    k == "qol"@ || k == "cheat"@ || k == "bugfix"@ || k == "cosmetic"@ || k == "feature"@
}

/// The violation reported for an unknown keyword.
pub open spec fn spec_invalid_keyword_message(k: Seq<char>) -> Seq<char> {
    "invalid keyword: "@ + k
        + " (valid keywords: [\"qol\", \"cheat\", \"bugfix\", \"cosmetic\", \"feature\"])"@
}

/// The violations reported for a keyword list, one per unknown keyword, in
/// order.
pub open spec fn spec_keyword_messages(ks: Seq<Seq<char>>) -> Seq<Seq<char>>
    decreases ks.len(),
{
    if ks.len() == 0 {
        Seq::<Seq<char>>::empty()
    } else {
        spec_keyword_messages(ks.drop_last()) + (if spec_is_valid_keyword(ks.last()) {
            Seq::<Seq<char>>::empty()
        } else {
            seq![spec_invalid_keyword_message(ks.last())]
        })
    }
}

/// Package metadata, as the package manifest carries it.
pub struct Package {
    name: String,
    version: String,
    authors: Vec<String>,
    description: String,
    license: String,
    keywords: Vec<String>,
}

impl Package {
    /// The package name, as characters.
    pub closed spec fn spec_name(self) -> Seq<char> {
        self.name@
    }

    /// The package version, as characters.
    pub closed spec fn spec_version(self) -> Seq<char> {
        self.version@
    }

    /// The author lines, as characters.
    pub closed spec fn spec_authors(self) -> Seq<Seq<char>> {
        spec_string_views(self.authors@)
    }

    /// The description, as characters.
    pub closed spec fn spec_description(self) -> Seq<char> {
        self.description@
    }

    /// The license identifier, as characters.
    pub closed spec fn spec_license(self) -> Seq<char> {
        self.license@
    }

    /// The keywords, as characters.
    pub closed spec fn spec_keywords(self) -> Seq<Seq<char>> {
        spec_string_views(self.keywords@)
    }
}

/// Every violation `validate` reports for `p`, in order.
pub open spec fn spec_validation_messages(p: Package) -> Seq<Seq<char>> {
    let m = Seq::<Seq<char>>::empty();
    let m = if p.spec_name().len() == 0 {
        m.push("name cannot be empty"@)
    } else {
        m
    };
    let m = if spec_kebab_of(p.spec_name()) != p.spec_name() {
        m.push("name must be kebab-case"@)
    } else {
        m
    };
    let m = if exists|i: int| 0 <= i < p.spec_name().len() && !spec_is_name_char(
        p.spec_name()[i],
    ) {
        m.push("name must be alphanumeric"@)
    } else {
        m
    };
    let m = if p.spec_version().len() == 0 {
        m.push("version cannot be empty"@)
    } else {
        m
    };
    let m = if p.spec_authors().len() == 0 {
        m.push("authors cannot be empty"@)
    } else {
        m
    };
    let m = if p.spec_description().len() == 0 {
        m.push("description cannot be empty"@)
    } else {
        m
    };
    let m = if p.spec_description().len() > 100 {
        m.push("description must be less than 100 characters"@)
    } else {
        m
    };
    let m = if p.spec_license().len() == 0 {
        m.push("license cannot be empty"@)
    } else {
        m
    };
    m + spec_keyword_messages(p.spec_keywords())
}

/// Whether the package name holds a character outside ASCII alphanumerics
/// and `-`.
fn name_has_invalid_char(name: &str) -> (b: bool)
    ensures
        b == exists|i: int| 0 <= i < name@.len() && !spec_is_name_char(name@[i]),
{
    let n: usize = name.unicode_len();
    let mut i: usize = 0;
    while i < n
        invariant
            n == name@.len(),
            0 <= i <= n,
            forall|j: int| 0 <= j < i ==> spec_is_name_char(name@[j]),
        decreases n - i,
    {
        let c = name.get_char(i);
        let u = c as u32;
        if !((97 <= u && u <= 122) || (65 <= u && u <= 90) || (48 <= u && u <= 57) || c == '-') {
            return true;
        }
        i = i + 1;
    }
    false
}

impl Package {
    /// Builds package metadata from its parts.
    pub fn new(
        name: String,
        version: String,
        authors: Vec<String>,
        description: String,
        license: String,
        keywords: Vec<String>,
    ) -> (p: Package)
        ensures
            p.spec_name() == name@,
            p.spec_version() == version@,
            p.spec_authors() == spec_string_views(authors@),
            p.spec_description() == description@,
            p.spec_license() == license@,
            p.spec_keywords() == spec_string_views(keywords@),
    {
        Package { name, version, authors, description, license, keywords }
    }

    /// The package name.
    pub fn name(&self) -> (r: &str)
        ensures
            r@ == self.spec_name(),
    {
        self.name.as_str()
    }

    /// The package version.
    pub fn version(&self) -> (r: &str)
        ensures
            r@ == self.spec_version(),
    {
        self.version.as_str()
    }

    /// The author lines.
    pub fn authors(&self) -> (r: &Vec<String>)
        ensures
            spec_string_views(r@) == self.spec_authors(),
    {
        &self.authors
    }

    /// The description.
    pub fn description(&self) -> (r: &str)
        ensures
            r@ == self.spec_description(),
    {
        self.description.as_str()
    }

    /// The license identifier.
    pub fn license(&self) -> (r: &str)
        ensures
            r@ == self.spec_license(),
    {
        self.license.as_str()
    }

    /// The keywords.
    pub fn keywords(&self) -> (r: &Vec<String>)
        ensures
            spec_string_views(r@) == self.spec_keywords(),
    {
        &self.keywords
    }

    /// Validates the package metadata, returning every violation, in
    /// order.
    pub fn validate(&self) -> (r: Vec<String>)
        ensures
            r@.len() == spec_validation_messages(*self).len(),
            forall|i: int|
                0 <= i < r@.len() ==> r@[i]@ == spec_validation_messages(*self)[i],
    {
        let mut errors: Vec<String> = Vec::new();
        if self.name.as_str().is_empty() {
            errors.push("name cannot be empty".to_owned());
        }
        let kebab = kebab_case(self.name.as_str());
        if !(kebab == self.name) {
            errors.push("name must be kebab-case".to_owned());
        }
        if name_has_invalid_char(self.name.as_str()) {
            errors.push("name must be alphanumeric".to_owned());
        }
        if self.version.as_str().is_empty() {
            errors.push("version cannot be empty".to_owned());
        }
        if self.authors.len() == 0 {
            errors.push("authors cannot be empty".to_owned());
        }
        if self.description.as_str().is_empty() {
            errors.push("description cannot be empty".to_owned());
        }
        if self.description.as_str().unicode_len() > 100 {
            errors.push("description must be less than 100 characters".to_owned());
        }
        if self.license.as_str().is_empty() {
            errors.push("license cannot be empty".to_owned());
        }
        let ghost base = errors@;
        let ghost kws = self.spec_keywords();
        proof {
            assert(spec_validation_messages(*self) =~= spec_string_views(base)
                + spec_keyword_messages(kws));
            assert(spec_keyword_messages(kws.take(0)) =~= Seq::<Seq<char>>::empty());
            assert(spec_string_views(errors@) =~= spec_string_views(base)
                + spec_keyword_messages(kws.take(0)));
        }
        let n = self.keywords.len();
        let mut i: usize = 0;
        while i < n
            invariant
                n == self.keywords@.len(),
                0 <= i <= n,
                kws == self.spec_keywords(),
                spec_validation_messages(*self) == spec_string_views(base)
                    + spec_keyword_messages(kws),
                errors@.len() == base.len() + spec_keyword_messages(kws.take(i as int)).len(),
                forall|j: int| 0 <= j < base.len() ==> errors@[j] == base[j],
                forall|j: int|
                    base.len() <= j < errors@.len() ==> errors@[j]@ == spec_keyword_messages(
                        kws.take(i as int),
                    )[j - base.len()],
            decreases n - i,
        {
            let kw = &self.keywords[i];
            let valid = *kw == "qol".to_owned() || *kw == "cheat".to_owned() || *kw
                == "bugfix".to_owned() || *kw == "cosmetic".to_owned() || *kw
                == "feature".to_owned();
            proof {
                assert(kws.take(i + 1).drop_last() =~= kws.take(i as int));
                assert(kws.take(i + 1).last() == kws[i as int]);
                assert(kws[i as int] == self.keywords@[i as int]@);
                assert(valid == spec_is_valid_keyword(kws[i as int]));
            }
            if !valid {
                let mut msg = "invalid keyword: ".to_owned();
                msg.append(kw.as_str());
                msg.append(
                    " (valid keywords: [\"qol\", \"cheat\", \"bugfix\", \"cosmetic\", \"feature\"])",
                );
                proof {
                    assert(msg@ == spec_invalid_keyword_message(kws[i as int]));
                }
                errors.push(msg);
            }
            proof {
                assert(spec_keyword_messages(kws.take(i + 1)) =~= spec_keyword_messages(
                    kws.take(i as int),
                ) + (if spec_is_valid_keyword(kws[i as int]) {
                    Seq::<Seq<char>>::empty()
                } else {
                    seq![spec_invalid_keyword_message(kws[i as int])]
                }));
            }
            i = i + 1;
        }
        proof {
            assert(kws.take(n as int) =~= kws);
            let m = spec_validation_messages(*self);
            assert(spec_string_views(base).len() == base.len());
            assert forall|j: int| 0 <= j < errors@.len() implies errors@[j]@ == m[j] by {
                if j < base.len() {
                    assert(errors@[j] == base[j]);
                    assert(spec_string_views(base)[j] == base[j]@);
                } else {
                    assert(errors@[j]@ == spec_keyword_messages(kws)[j - base.len()]);
                }
            }
        }
        errors
    }

    /// Whether the metadata has no violations.
    pub fn is_valid(&self) -> (r: bool)
        ensures
            r == (spec_validation_messages(*self).len() == 0),
    {
        self.validate().len() == 0
    }
}

/// A dependency on another package, by version constraint.
pub struct Dependency {
    /// The version constraint.
    pub version: String,
}

/// A named entry of the dependency table.
pub struct DependencyEntry {
    /// The depended-on package's name.
    pub name: String,
    /// The constraint on it.
    pub dependency: Dependency,
}

/// The package manifest: the base revision the mod is built on, the
/// package metadata, and the dependency table.
pub struct Config {
    /// The revision of the vendored source tree this mod is based on.
    pub base_commit: String,
    /// Package metadata.
    pub package: Package,
    /// The dependency table, one entry per depended-on package.
    pub dependencies: Vec<DependencyEntry>,
}

/// An author line, `name <email>`.
pub open spec fn spec_author_string(name: Seq<char>, email: Seq<char>) -> Seq<char> {
    name + " <"@ + email + ">"@
}

/// Composes an author line, `name <email>`.
pub fn author_string(name: &str, email: &str) -> (r: String)
    ensures
        r@ == spec_author_string(name@, email@),
{
    name.to_owned().concat(" <").concat(email).concat(">")
}

impl Config {
    /// The default manifest for a new mod: named after its directory,
    /// with the given author and base revision, no keywords and no
    /// dependencies.
    pub fn default_for_mod(mod_path: &str, author: String, base_commit: String) -> (c: Config)
        requires
            spec_file_name(mod_path@).len() > 0,
        ensures
            c.package.spec_name() == spec_file_name(mod_path@),
            c.package.spec_version() == "0.1.0"@,
            c.package.spec_authors().len() == 1,
            c.package.spec_authors()[0] == author@,
            c.package.spec_description() == "An amazing mod"@,
            c.package.spec_license() == "CC-BY-SA-4.0"@,
            c.package.spec_keywords().len() == 0,
            c.base_commit == base_commit,
            c.dependencies@.len() == 0,
    {
        let name = file_name(mod_path);
        let mut authors: Vec<String> = Vec::new();
        authors.push(author);
        Config {
            package: Package {
                name,
                version: "0.1.0".to_owned(),
                authors,
                description: "An amazing mod".to_owned(),
                license: "CC-BY-SA-4.0".to_owned(),
                keywords: Vec::new(),
            },
            base_commit,
            dependencies: Vec::new(),
        }
    }
}

} // verus!
