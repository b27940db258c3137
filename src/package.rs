use vstd::prelude::*;
use crate::manifest::{Manifest, PackageType, package_type_text};
use crate::path::{full_package_name, has_prefix, join, join_path, last_segment, trim_trailing_slashes};

verus! {

/// The archive produced by packaging, as publishing consumes it.
pub struct PackagedTarball {
    pub tarball_path: String,
    pub name: String,
    pub version: String,
}

pub uninterp spec fn is_semver(s: Seq<char>) -> bool;

/// How many times `c` occurs in `s`.
pub open spec fn count_char(s: Seq<char>, c: char) -> nat
    decreases s.len(),
{
    if s.len() == 0 {
        0
    } else {
        count_char(s.drop_last(), c) + if s.last() == c { 1nat } else { 0nat }
    }
}

pub open spec fn is_ascii_digit(c: char) -> bool {
    '0' <= c && c <= '9'
}

/// Relies on `semver::Version::parse`, which accepts exactly the texts that
/// are semantic versions (`MAJOR.MINOR.PATCH`, optional pre-release and build).
/// Its source rejects the empty text, a text that does not start with a digit
/// and one with fewer than two dots (major, minor and patch are each digits,
/// joined by dots), and accepts three single digits joined by dots.
#[verifier::external_body]
fn parses_as_semver(s: &str) -> (r: bool)
    ensures
        r == is_semver(s@),
        s@.len() == 0 ==> !r,
        s@.len() > 0 && !is_ascii_digit(s@[0]) ==> !r,
        count_char(s@, '.') < 2 ==> !r,
        s@.len() == 5 && is_ascii_digit(s@[0]) && s@[1] == '.' && is_ascii_digit(s@[2]) && s@[3] == '.'
            && is_ascii_digit(s@[4]) ==> r,
{
    semver::Version::parse(s).is_ok()
}

/// Whether `s` is a semantic version.
pub fn is_valid_version(s: &str) -> (r: bool)
    ensures
        r == is_semver(s@),
        s@.len() == 0 ==> !r,
        s@.len() > 0 && !is_ascii_digit(s@[0]) ==> !r,
        count_char(s@, '.') < 2 ==> !r,
        s@.len() == 5 && is_ascii_digit(s@[0]) && s@[1] == '.' && is_ascii_digit(s@[2]) && s@[3] == '.'
            && is_ascii_digit(s@[4]) ==> r,
{
    parses_as_semver(s)
}

pub open spec fn is_ascii_alnum(c: char) -> bool {
    ('a' <= c && c <= 'z') || ('A' <= c && c <= 'Z') || ('0' <= c && c <= '9')
}

pub open spec fn is_separator(c: char) -> bool {
    c == '-' || c == '_'
}

/// `c` equals the lower-case letter or symbol `l`, ignoring ASCII case.
pub open spec fn char_eq_ignore_case(c: char, l: char) -> bool {
    c == l || ('a' <= l && l <= 'z' && c as u32 + 32 == l as u32)
}

pub open spec fn eq_ignore_case(s: Seq<char>, l: Seq<char>) -> bool {
    s.len() == l.len() && forall|i: int| 0 <= i < s.len() ==> char_eq_ignore_case(s[i], l[i])
}

/// Names that are device names on some systems: `nul`, `con`, `prn`, `aux`,
/// `clock$`, `com1`..`com9`, `lpt1`..`lpt9`, in any case.
pub open spec fn is_reserved_name(s: Seq<char>) -> bool {
    ||| eq_ignore_case(s, "nul"@)
    ||| eq_ignore_case(s, "con"@)
    ||| eq_ignore_case(s, "prn"@)
    ||| eq_ignore_case(s, "aux"@)
    ||| eq_ignore_case(s, "clock$"@)
    ||| (s.len() == 4 && (eq_ignore_case(s.take(3), "com"@) || eq_ignore_case(s.take(3), "lpt"@))
        && '1' <= s[3] && s[3] <= '9')
}

/// The package name rule: 1 to 64 characters, ASCII letters, digits, `-`
/// and `_` only, a letter or digit first and last, no two separators in a
/// row, and not a reserved name.
pub open spec fn valid_package_name(s: Seq<char>) -> bool {
    &&& 0 < s.len() <= 64
    &&& forall|i: int| 0 <= i < s.len() ==> is_ascii_alnum(#[trigger] s[i]) || is_separator(s[i])
    &&& is_ascii_alnum(s[0]) && is_ascii_alnum(s.last())
    &&& forall|i: int| 0 <= i < s.len() - 1 ==> !(is_separator(#[trigger] s[i]) && is_separator(s[i + 1]))
    &&& !is_reserved_name(s)
}

/// Which part of the name rule a name breaks.
#[derive(Clone, Copy, Debug, PartialEq, Eq, Structural)]
pub enum NameRule {
    Empty,
    TooLong,
    InvalidCharacter,
    BadEdge,
    ConsecutiveSeparators,
    Reserved,
}

/// The first part of the name rule that `s` breaks, checked in the order
/// of `NameRule`.
pub open spec fn name_violation(s: Seq<char>) -> Option<NameRule> {
    if s.len() == 0 {
        Some(NameRule::Empty)
    } else if s.len() > 64 {
        Some(NameRule::TooLong)
    } else if (exists|i: int| 0 <= i < s.len() && !(is_ascii_alnum(#[trigger] s[i]) || is_separator(s[i]))) {
        Some(NameRule::InvalidCharacter)
    } else if !(is_ascii_alnum(s[0]) && is_ascii_alnum(s.last())) {
        Some(NameRule::BadEdge)
    } else if (exists|i: int| 0 <= i < s.len() - 1 && is_separator(#[trigger] s[i]) && is_separator(s[i + 1])) {
        Some(NameRule::ConsecutiveSeparators)
    } else if is_reserved_name(s) {
        Some(NameRule::Reserved)
    } else {
        None
    }
}

/// A name breaks no part of the rule exactly when it is valid.
pub proof fn lemma_name_violation_iff_invalid(s: Seq<char>)
    ensures
        name_violation(s).is_none() <==> valid_package_name(s),
{
}

fn is_alnum(c: char) -> (r: bool)
    ensures
        r == is_ascii_alnum(c),
{
    ('a' <= c && c <= 'z') || ('A' <= c && c <= 'Z') || ('0' <= c && c <= '9')
}

fn is_sep(c: char) -> (r: bool)
    ensures
        r == is_separator(c),
{
    c == '-' || c == '_'
}

fn eq_ignoring_case(s: &str, from: usize, lower: &str) -> (r: bool)
    requires
        from <= s@.len(),
    ensures
        r == eq_ignore_case(s@.subrange(from as int, s@.len() as int), lower@),
{
    let n = s.unicode_len();
    let m = lower.unicode_len();
    if n - from != m {
        return false;
    }
    let ghost t = s@.subrange(from as int, n as int);
    let mut i: usize = 0;
    while i < m
        invariant
            n == s@.len(),
            m == lower@.len(),
            from <= n,
            n - from == m,
            t == s@.subrange(from as int, n as int),
            i <= m,
            forall|j: int| 0 <= j < i ==> char_eq_ignore_case(t[j], lower@[j]),
        decreases m - i,
    {
        let c = s.get_char(from + i);
        let l = lower.get_char(i);
        if !(c == l || ('a' <= l && l <= 'z' && (c as u32) + 32 == l as u32)) {
            assert(t[i as int] == c);
            return false;
        }
        i = i + 1;
    }
    true
}

fn reserved(s: &str) -> (r: bool)
    ensures
        r == is_reserved_name(s@),
{
    let n = s.unicode_len();
    proof {
        reveal_strlit("nul");
        reveal_strlit("con");
        reveal_strlit("prn");
        reveal_strlit("aux");
        reveal_strlit("clock$");
        reveal_strlit("com");
        reveal_strlit("lpt");
        assert(s@.subrange(0, n as int) =~= s@);
    }
    if eq_ignoring_case(s, 0, "nul") || eq_ignoring_case(s, 0, "con") || eq_ignoring_case(s, 0, "prn")
        || eq_ignoring_case(s, 0, "aux") || eq_ignoring_case(s, 0, "clock$") {
        return true;
    }
    if n != 4 {
        return false;
    }
    let head = s.substring_char(0, 3);
    proof {
        assert(head@ =~= s@.take(3));
        assert(head@.subrange(0, 3) =~= head@);
    }
    let d = s.get_char(3);
    (eq_ignoring_case(head, 0, "com") || eq_ignoring_case(head, 0, "lpt")) && '1' <= d && d <= '9'
}

/// Checks a package name against the name rule.
pub fn validate_name(name: &str) -> (r: Result<(), NameRule>)
    ensures
        match name_violation(name@) {
            None => r is Ok,
            Some(rule) => r == Err::<(), NameRule>(rule),
        },
{
    let n = name.unicode_len();
    if n == 0 {
        return Err(NameRule::Empty);
    }
    if n > 64 {
        return Err(NameRule::TooLong);
    }
    let mut i: usize = 0;
    while i < n
        invariant
            n == name@.len(),
            0 < n <= 64,
            i <= n,
            forall|j: int| 0 <= j < i ==> is_ascii_alnum(#[trigger] name@[j]) || is_separator(name@[j]),
        decreases n - i,
    {
        let c = name.get_char(i);
        if !(is_alnum(c) || is_sep(c)) {
            assert(!(is_ascii_alnum(name@[i as int]) || is_separator(name@[i as int])));
            return Err(NameRule::InvalidCharacter);
        }
        i = i + 1;
    }
    if !(is_alnum(name.get_char(0)) && is_alnum(name.get_char(n - 1))) {
        return Err(NameRule::BadEdge);
    }
    let mut k: usize = 0;
    while k + 1 < n
        invariant
            n == name@.len(),
            0 < n <= 64,
            k < n,
            forall|j: int| 0 <= j < n ==> is_ascii_alnum(#[trigger] name@[j]) || is_separator(name@[j]),
            is_ascii_alnum(name@[0]) && is_ascii_alnum(name@.last()),
            forall|j: int| 0 <= j < k ==> !(is_separator(#[trigger] name@[j]) && is_separator(name@[j + 1])),
        decreases n - k,
    {
        if is_sep(name.get_char(k)) && is_sep(name.get_char(k + 1)) {
            assert(is_separator(name@[k as int]) && is_separator(name@[k + 1]));
            return Err(NameRule::ConsecutiveSeparators);
        }
        k = k + 1;
    }
    if reserved(name) {
        return Err(NameRule::Reserved);
    }
    Ok(())
}


/// Unicode `White_Space`, the characters `char::is_whitespace` accepts.
pub open spec fn is_white_space(c: char) -> bool {
    let u = c as u32;
    (0x9 <= u <= 0xd) || u == 0x20 || u == 0x85 || u == 0xa0 || u == 0x1680 || (0x2000 <= u <= 0x200a)
        || u == 0x2028 || u == 0x2029 || u == 0x202f || u == 0x205f || u == 0x3000
}

fn white_space(c: char) -> (r: bool)
    ensures
        r == is_white_space(c),
{
    let u = c as u32;
    (0x9 <= u && u <= 0xd) || u == 0x20 || u == 0x85 || u == 0xa0 || u == 0x1680 || (0x2000 <= u && u
        <= 0x200a) || u == 0x2028 || u == 0x2029 || u == 0x202f || u == 0x205f || u == 0x3000
}

/// Why a project cannot be packaged or published.
#[derive(Debug)]
pub enum PackageError {
    TypeNotSet,
    WrongType(PackageType),
    VersionNotSet,
    InvalidVersion(String),
    NameNotSet,
    InvalidName(String, NameRule),
    /// The name is empty or white space only.
    EmptyName(String),
}

/// All characters of `s` are white space (so is the empty name).
pub open spec fn is_blank(s: Seq<char>) -> bool {
    forall|i: int| 0 <= i < s.len() ==> is_white_space(#[trigger] s[i])
}

fn blank(name: &str) -> (r: bool)
    ensures
        r == is_blank(name@),
{
    let n = name.unicode_len();
    let mut i: usize = 0;
    while i < n
        invariant
            n == name@.len(),
            i <= n,
            forall|j: int| 0 <= j < i ==> is_white_space(#[trigger] name@[j]),
        decreases n - i,
    {
        if !white_space(name.get_char(i)) {
            return false;
        }
        i = i + 1;
    }
    true
}

/// Checks a package name: a blank name is reported as empty; any other name
/// must follow the name rule.
pub fn validate_name_is_not_empty(name: &str) -> (r: Result<(), PackageError>)
    ensures
        is_blank(name@) ==> (r matches Err(PackageError::EmptyName(n)) && n@ == name@),
        !is_blank(name@) ==> match name_violation(name@) {
            None => r is Ok,
            Some(rule) => r matches Err(PackageError::InvalidName(n, x)) && n@ == name@ && x == rule,
        },
{
    if blank(name) {
        return Err(PackageError::EmptyName(String::from_str(name)));
    }
    match validate_name(name) {
        Ok(()) => Ok(()),
        Err(rule) => Err(PackageError::InvalidName(String::from_str(name), rule)),
    }
}

pub open spec fn name_rule_text(rule: NameRule) -> Seq<char> {
    match rule {
        NameRule::Empty => "it cannot be empty"@,
        NameRule::TooLong => "it must be at most 64 characters long"@,
        NameRule::InvalidCharacter => "only ASCII letters, digits, '-' and '_' are allowed"@,
        NameRule::BadEdge => "it must start and end with a letter or digit"@,
        NameRule::ConsecutiveSeparators => "'-' and '_' cannot follow one another"@,
        NameRule::Reserved => "it is a reserved name"@,
    }
}

impl NameRule {
    /// The rule in words.
    pub fn describe(&self) -> (r: &'static str)
        ensures
            r@ == name_rule_text(*self),
    {
        match self {
            NameRule::Empty => "it cannot be empty",
            NameRule::TooLong => "it must be at most 64 characters long",
            NameRule::InvalidCharacter => "only ASCII letters, digits, '-' and '_' are allowed",
            NameRule::BadEdge => "it must start and end with a letter or digit",
            NameRule::ConsecutiveSeparators => "'-' and '_' cannot follow one another",
            NameRule::Reserved => "it is a reserved name",
        }
    }
}

pub open spec fn type_example() -> Seq<char> {
    " Assure package type is set to 'lib'. Example:\n\n[package]\ntype = \"lib\""@
}

pub open spec fn version_example() -> Seq<char> {
    " Assure correct semantic versioning value. Example:\n\n[package]\nversion = \"0.0.1\""@
}

pub open spec fn package_error_text(e: PackageError) -> Seq<char> {
    match e {
        PackageError::TypeNotSet => "package type in Nargo.toml file is not set."@ + type_example(),
        PackageError::WrongType(t) => "package type "@ + package_type_text(t)
            + " in Nargo.toml file is incorrect."@ + type_example(),
        PackageError::VersionNotSet => "package version in Nargo.toml file is not set."@
            + version_example(),
        PackageError::InvalidVersion(v) => "package version "@ + v@
            + " in Nargo.toml file is incorrect."@ + version_example(),
        PackageError::NameNotSet =>
            "package name in Nargo.toml file is not set. Please provide valid package name. Example:\n\n[package]\nname = \"my_example_package\""@,
        PackageError::InvalidName(n, rule) => "package name "@ + n@ + " in Nargo.toml file is invalid: "@
            + name_rule_text(rule),
        PackageError::EmptyName(n) => "package name "@ + n@
            + " in Nargo.toml file is invalid. It cannot be empty."@,
    }
}

impl PackageError {
    /// The error in words, naming the offending value and showing a fix.
    pub fn message(&self) -> (r: String)
        ensures
            r@ == package_error_text(*self),
    {
        match self {
            PackageError::TypeNotSet => {
                let mut r = String::from_str("package type in Nargo.toml file is not set.");
                r.append(" Assure package type is set to 'lib'. Example:\n\n[package]\ntype = \"lib\"");
                r
            },
            PackageError::WrongType(t) => {
                let mut r = String::from_str("package type ");
                r.append(t.as_str());
                r.append(" in Nargo.toml file is incorrect.");
                r.append(" Assure package type is set to 'lib'. Example:\n\n[package]\ntype = \"lib\"");
                r
            },
            PackageError::VersionNotSet => {
                let mut r = String::from_str("package version in Nargo.toml file is not set.");
                r.append(" Assure correct semantic versioning value. Example:\n\n[package]\nversion = \"0.0.1\"");
                r
            },
            PackageError::InvalidVersion(v) => {
                let mut r = String::from_str("package version ");
                r.append(v.as_str());
                r.append(" in Nargo.toml file is incorrect.");
                r.append(" Assure correct semantic versioning value. Example:\n\n[package]\nversion = \"0.0.1\"");
                r
            },
            PackageError::NameNotSet => String::from_str(
                "package name in Nargo.toml file is not set. Please provide valid package name. Example:\n\n[package]\nname = \"my_example_package\"",
            ),
            PackageError::InvalidName(n, rule) => {
                let mut r = String::from_str("package name ");
                r.append(n.as_str());
                r.append(" in Nargo.toml file is invalid: ");
                r.append(rule.describe());
                r
            },
            PackageError::EmptyName(n) => {
                let mut r = String::from_str("package name ");
                r.append(n.as_str());
                r.append(" in Nargo.toml file is invalid. It cannot be empty.");
                r
            },
        }
    }
}

/// Checks that the manifest declares a library.
pub fn verify_package_type_is_lib(manifest: &Manifest) -> (r: Result<(), PackageError>)
    ensures
        match manifest.package.package_type {
            None => r matches Err(PackageError::TypeNotSet),
            Some(PackageType::Library) => r is Ok,
            Some(t) => r matches Err(PackageError::WrongType(u)) && u == t,
        },
{
    match manifest.package.package_type {
        None => Err(PackageError::TypeNotSet),
        Some(PackageType::Library) => Ok(()),
        Some(t) => Err(PackageError::WrongType(t)),
    }
}

/// The manifest's version, when it is set and a semantic version.
pub fn verify_and_get_version(manifest: &Manifest) -> (r: Result<String, PackageError>)
    ensures
        match manifest.package.version {
            None => r matches Err(PackageError::VersionNotSet),
            Some(v) => if is_semver(v@) {
                r matches Ok(w) && w@ == v@
            } else {
                r matches Err(PackageError::InvalidVersion(w)) && w@ == v@
            },
        },
{
    match &manifest.package.version {
        None => Err(PackageError::VersionNotSet),
        Some(v) => {
            if is_valid_version(v.as_str()) {
                Ok(v.clone())
            } else {
                Err(PackageError::InvalidVersion(v.clone()))
            }
        },
    }
}

/// The manifest's package name, when it is set and follows the name rule.
pub fn verify_and_get_package_name(manifest: &Manifest) -> (r: Result<String, PackageError>)
    ensures
        match manifest.package.name {
            None => r matches Err(PackageError::NameNotSet),
            Some(n) => match name_violation(n@) {
                None => r matches Ok(w) && w@ == n@,
                Some(rule) => r matches Err(PackageError::InvalidName(w, x)) && w@ == n@ && x == rule,
            },
        },
{
    match &manifest.package.name {
        None => Err(PackageError::NameNotSet),
        Some(n) => match validate_name(n.as_str()) {
            Ok(()) => Ok(n.clone()),
            Err(rule) => Err(PackageError::InvalidName(n.clone(), rule)),
        },
    }
}


/// The first check that the `[package]` table fails when packaging: its
/// type, then its version, then its name.
pub open spec fn package_failure(manifest: Manifest) -> Option<PackageError> {
    let p = manifest.package;
    match p.package_type {
        None => Some(PackageError::TypeNotSet),
        Some(t) => if t != PackageType::Library {
            Some(PackageError::WrongType(t))
        } else {
            match p.version {
                None => Some(PackageError::VersionNotSet),
                Some(v) => if !is_semver(v@) {
                    Some(PackageError::InvalidVersion(v))
                } else {
                    match p.name {
                        None => Some(PackageError::NameNotSet),
                        Some(n) => match name_violation(n@) {
                            Some(rule) => Some(PackageError::InvalidName(n, rule)),
                            None => None,
                        },
                    }
                }
            }
        },
    }
}

/// `{stage}.tar.gz`
pub open spec fn tarball_file(stage: Seq<char>) -> Seq<char> {
    stage + ".tar.gz"@
}

/// Where packaging puts things, and what it leaves out of the copy.
pub struct PackagePlan {
    pub tarball: PackagedTarball,
    /// `<output_root>/<name>_<version>`, replaced if it exists.
    pub staging_root: String,
    /// `<staging_root>/<name>_<version>`, which receives the copy and is
    /// archived under its own name.
    pub staging_dir: String,
    /// Names of directories (and files) that are not copied.
    pub excluded_dirs: Vec<String>,
    /// Names of files that are not copied.
    pub excluded_files: Vec<String>,
}

pub open spec fn strings_view(v: Seq<String>) -> Seq<Seq<char>> {
    v.map_values(|s: String| s@)
}

fn tarball_name(stage: &str) -> (r: String)
    ensures
        r@ == tarball_file(stage@),
{
    let mut r = String::from_str(stage);
    r.append(".tar.gz");
    r
}

/// Validates a project's manifest and lays out its packaging: with
/// `stage = name_version`, the tree is copied into
/// `<output_root>/<stage>/<stage>` (leaving out `target`, `.cargo`,
/// `.vscode`, the staging folder and `.env` files) and archived as
/// `<output_root>/<stage>/<stage>.tar.gz`.
pub fn package(manifest: &Manifest, output_root: &str) -> (r: Result<PackagePlan, PackageError>)
    ensures
        match package_failure(*manifest) {
            Some(e) => r matches Err(f) && f == e,
            None => r matches Ok(plan) && {
                let name = manifest.package.name.unwrap()@;
                let version = manifest.package.version.unwrap()@;
                let stage = full_package_name(name, version);
                let root = join_path(output_root@, stage);
                &&& plan.tarball.name@ == name
                &&& plan.tarball.version@ == version
                &&& plan.staging_root@ == root
                &&& plan.staging_dir@ == join_path(root, stage)
                &&& plan.tarball.tarball_path@ == join_path(root, tarball_file(stage))
                &&& strings_view(plan.excluded_dirs@) == seq!["target"@, ".cargo"@, ".vscode"@, stage]
                &&& strings_view(plan.excluded_files@) == seq![".env"@]
            },
        },
{
    match &manifest.package.package_type {
        None => { return Err(PackageError::TypeNotSet); },
        Some(PackageType::Library) => {},
        Some(t) => { return Err(PackageError::WrongType(*t)); },
    }
    let version = match &manifest.package.version {
        None => { return Err(PackageError::VersionNotSet); },
        Some(v) => {
            if !is_valid_version(v.as_str()) {
                return Err(PackageError::InvalidVersion(v.clone()));
            }
            v
        },
    };
    let name = match &manifest.package.name {
        None => { return Err(PackageError::NameNotSet); },
        Some(n) => {
            match validate_name(n.as_str()) {
                Err(rule) => { return Err(PackageError::InvalidName(n.clone(), rule)); },
                Ok(()) => {},
            }
            n
        },
    };
    let stage = crate::path::get_full_package_name(name.as_str(), version.as_str());
    let staging_root = join(output_root, stage.as_str());
    let staging_dir = join(staging_root.as_str(), stage.as_str());
    let file = tarball_name(stage.as_str());
    let tarball_path = join(staging_root.as_str(), file.as_str());
    let mut excluded_dirs: Vec<String> = Vec::new();
    excluded_dirs.push(String::from_str("target"));
    excluded_dirs.push(String::from_str(".cargo"));
    excluded_dirs.push(String::from_str(".vscode"));
    excluded_dirs.push(stage);
    let mut excluded_files: Vec<String> = Vec::new();
    excluded_files.push(String::from_str(".env"));
    assert(strings_view(excluded_dirs@) =~= seq!["target"@, ".cargo"@, ".vscode"@, stage@]);
    assert(strings_view(excluded_files@) =~= seq![".env"@]);
    Ok(PackagePlan {
        tarball: PackagedTarball { tarball_path, name: name.clone(), version: version.clone() },
        staging_root,
        staging_dir,
        excluded_dirs,
        excluded_files,
    })
}

/// The last component of a path.
pub open spec fn file_name(p: Seq<char>) -> Seq<char> {
    last_segment(trim_trailing_slashes(p))
}

/// `p` is `dir` or lies below it.
pub open spec fn within_dir(p: Seq<char>, dir: Seq<char>) -> bool {
    &&& dir.len() > 0
    &&& has_prefix(p, dir)
    &&& (p.len() == dir.len() || dir.last() == '/' || p[dir.len() as int] == '/')
}

/// Whether the project tree walk copies the entry at `path`: `.gitignore`
/// always; otherwise not what lies in the staging directory, nor an entry
/// whose name is excluded.
pub open spec fn included_in_package(
    path: Seq<char>,
    staging_dir: Seq<char>,
    excluded_dirs: Seq<Seq<char>>,
    excluded_files: Seq<Seq<char>>,
) -> bool {
    file_name(path) == ".gitignore"@ || (!within_dir(path, staging_dir) && !excluded_files.contains(
        file_name(path),
    ) && !excluded_dirs.contains(file_name(path)))
}

fn contains_string(v: &Vec<String>, s: &String) -> (r: bool)
    ensures
        r == strings_view(v@).contains(s@),
{
    let mut i: usize = 0;
    while i < v.len()
        invariant
            i <= v@.len(),
            forall|j: int| 0 <= j < i ==> v@[j]@ != s@,
        decreases v@.len() - i,
    {
        if v[i] == *s {
            assert(strings_view(v@)[i as int] == s@);
            return true;
        }
        i = i + 1;
    }
    assert forall|j: int| 0 <= j < strings_view(v@).len() implies strings_view(v@)[j] != s@ by {
        assert(strings_view(v@)[j] == v@[j]@);
    }
    false
}

fn file_name_of(p: &str) -> (r: String)
    ensures
        r@ == file_name(p@),
{
    let q = crate::path::trimmed(p);
    let n = q.unicode_len();
    proof { crate::path::lemma_last_index_of(q@, '/'); }
    match crate::path::find_last(q.as_str(), '/') {
        Some(i) => String::from_str(q.as_str().substring_char(i + 1, n)),
        None => q,
    }
}

fn within(p: &str, dir: &str) -> (r: bool)
    ensures
        r == within_dir(p@, dir@),
{
    let m = dir.unicode_len();
    if m == 0 || !crate::path::starts_with(p, dir) {
        return false;
    }
    p.unicode_len() == m || dir.get_char(m - 1) == '/' || p.get_char(m) == '/'
}

/// The filter of the project tree walk (see `included_in_package`).
pub fn include_in_package(
    path: &str,
    staging_dir: &str,
    excluded_dirs: &Vec<String>,
    excluded_files: &Vec<String>,
) -> (r: bool)
    ensures
        r == included_in_package(
            path@,
            staging_dir@,
            strings_view(excluded_dirs@),
            strings_view(excluded_files@),
        ),
{
    let name = file_name_of(path);
    let gitignore = String::from_str(".gitignore");
    if name == gitignore {
        return true;
    }
    !within(path, staging_dir) && !contains_string(excluded_files, &name) && !contains_string(
        excluded_dirs,
        &name,
    )
}

/// The archive that `package` produced for a project, as publishing expects
/// it: `<project_dir>/target/package/<stage>/<stage>.tar.gz`, after the
/// version and name checks.
pub fn publishable_tarball(manifest: &Manifest, project_dir: &str) -> (r: Result<PackagedTarball, PackageError>)
    ensures
        match manifest.package.version {
            None => r matches Err(PackageError::VersionNotSet),
            Some(v) => if !is_semver(v@) {
                r matches Err(PackageError::InvalidVersion(w)) && w@ == v@
            } else {
                match manifest.package.name {
                    None => r matches Err(PackageError::NameNotSet),
                    Some(n) => match name_violation(n@) {
                        Some(rule) => r matches Err(PackageError::InvalidName(w, x)) && w@ == n@ && x
                            == rule,
                        None => r matches Ok(t) && {
                            let stage = full_package_name(n@, v@);
                            let root = join_path(
                                join_path(project_dir@, crate::config::PACKAGING_OUTPUT_FOLDER_PATH@),
                                stage,
                            );
                            &&& t.name@ == n@
                            &&& t.version@ == v@
                            &&& t.tarball_path@ == join_path(root, tarball_file(stage))
                        },
                    },
                }
            },
        },
{
    let version = verify_and_get_version(manifest)?;
    let name = verify_and_get_package_name(manifest)?;
    let stage = crate::path::get_full_package_name(name.as_str(), version.as_str());
    let output = join(project_dir, crate::config::PACKAGING_OUTPUT_FOLDER_PATH);
    let root = join(output.as_str(), stage.as_str());
    let file = tarball_name(stage.as_str());
    let tarball_path = join(root.as_str(), file.as_str());
    Ok(PackagedTarball { tarball_path, name, version })
}

} // verus!
