//! A manifest held in memory, and the edits made on it before it is written.
use vstd::prelude::*;
use crate::error::ManifestError;
use crate::path::{ManifestPath, directory_of, join_on, joined_on};
use crate::rewrite::PathRewrite;
use crate::value::{
    Entry, Value, edited_in, find_key, has_str, is_first, is_str, keys_unique, lemma_lookup_first,
    lemma_lookup_push, lemma_lookup_push_any, lemma_unique_push, lookup, put_table, replace_value,
    same_except, sub_table, table_at, table_ok, take_table, value_is_str,
};

verus! {

/// Key of the library section.
pub const LIB: &'static str = "lib";
/// Key of the library's list of output kinds.
pub const CRATE_TYPE: &'static str = "crate-type";
/// Key of the profiles section.
pub const PROFILE: &'static str = "profile";
/// Key of the release profile within the profiles section.
pub const RELEASE: &'static str = "release";
/// Key of the link-time optimisation flag of a profile.
pub const LTO: &'static str = "lto";

/// Key of the package section.
pub const PACKAGE_SECTION: &'static str = "package";
/// Key of the metadata table of a package or workspace.
pub const METADATA: &'static str = "metadata";
/// Key of this tool's table within the package metadata.
pub const CONTRACT: &'static str = "contract";
/// Key of the optimisation pass count within the tool's table.
pub const OPTIMIZATION_PASSES: &'static str = "optimization-passes";

/// The optimisation pass setting under `package.metadata.contract`, if every
/// table on the way is there.
pub open spec fn optimization_passes_of(doc: Seq<Entry>) -> Option<Value> {
    match sub_table(doc, PACKAGE_SECTION@) {
        Some(p) => match sub_table(p, METADATA@) {
            Some(m) => match sub_table(m, CONTRACT@) {
                Some(c) => lookup(c, OPTIMIZATION_PASSES@),
                None => None,
            },
            None => None,
        },
        None => None,
    }
}

/// Key of the lint tool's table within the workspace metadata.
pub const DYLINT: &'static str = "dylint";
/// Key of the lint tool's list of lint libraries.
pub const LIBRARIES: &'static str = "libraries";
/// Keys and values of the lint library descriptor.
pub const GIT: &'static str = "git";
pub const GIT_URL: &'static str = "https://github.com/paritytech/ink/";
pub const TAG: &'static str = "tag";
pub const TAG_NAME: &'static str = "v4.0.0-alpha.3";
pub const PATTERN: &'static str = "pattern";
pub const PATTERN_DIR: &'static str = "linting/";

/// The tables on the way to the lint library list are absent or tables, and
/// the list absent or an array.
pub open spec fn dylint_ok(doc: Seq<Entry>) -> bool {
    let w = table_at(doc, WORKSPACE@);
    let m = table_at(w, METADATA@);
    let d = table_at(m, DYLINT@);
    table_ok(doc, WORKSPACE@) && table_ok(w, METADATA@) && table_ok(m, DYLINT@) && array_ok(d, LIBRARIES@)
}

/// `v` is the descriptor of the lint library: a table of its repository, tag
/// and directory.
pub open spec fn is_lint_library(v: Value) -> bool {
    v matches Value::Table(t) && {
        &&& t@.len() == 3
        &&& lookup(t@, GIT@) matches Some(Value::Str(s)) && s@ == GIT_URL@
        &&& lookup(t@, TAG@) matches Some(Value::Str(s)) && s@ == TAG_NAME@
        &&& lookup(t@, PATTERN@) matches Some(Value::Str(s)) && s@ == PATTERN_DIR@
    }
}

/// Some element of `a` is the lint library descriptor.
pub open spec fn lists_lint_library(a: Seq<Value>) -> bool {
    exists|j: int| 0 <= j < a.len() && #[trigger] is_lint_library(a[j])
}

/// `b` is `a` with the lint library descriptor appended, unless `a` already
/// lists it.
pub open spec fn lint_library_added(a: Seq<Value>, b: Seq<Value>) -> bool {
    if lists_lint_library(a) {
        b == a
    } else {
        b.len() == a.len() + 1 && b.drop_last() == a && is_lint_library(b.last())
    }
}

/// Key of the package's name.
pub const NAME: &'static str = "name";
/// Key of the dependencies section.
pub const DEPENDENCIES_SECTION: &'static str = "dependencies";
/// Name of the language crate that the metadata package depends on.
pub const INK: &'static str = "ink";

/// The package name, or the error that the metadata package inputs report
/// without one.
pub open spec fn package_name_of(doc: Seq<Entry>) -> Result<Seq<char>, ManifestError> {
    match lookup(doc, PACKAGE_SECTION@) {
        None => Err(ManifestError::MissingField(arbitrary())),
        Some(Value::Table(t)) => match lookup(t@, NAME@) {
            Some(Value::Str(n)) => Ok(n@),
            None => Err(ManifestError::MissingField(arbitrary())),
            Some(_) => Err(ManifestError::MissingField(arbitrary())),
        },
        Some(_) => Err(ManifestError::MissingField(arbitrary())),
    }
}

/// The table of the language crate's dependency entry, or the error that
/// the metadata package inputs report without one.
pub open spec fn ink_dependency_of(doc: Seq<Entry>) -> Result<Seq<Entry>, ManifestError> {
    match lookup(doc, DEPENDENCIES_SECTION@) {
        None => Err(ManifestError::MissingField(arbitrary())),
        Some(Value::Table(t)) => match lookup(t@, INK@) {
            Some(Value::Table(i)) => Ok(i@),
            None => Err(ManifestError::MissingField(arbitrary())),
            Some(_) => Err(ManifestError::MissingField(arbitrary())),
        },
        Some(_) => Err(ManifestError::MissingField(arbitrary())),
    }
}

/// Key of the workspace section.
pub const WORKSPACE: &'static str = "workspace";
/// Key of the workspace's member list.
pub const MEMBERS: &'static str = "members";
/// Where the metadata package was generated by earlier releases.
pub const LEGACY_METADATA_PACKAGE_PATH: &'static str = ".ink/abi_gen";
/// Where the metadata package is generated.
pub const METADATA_PACKAGE_PATH: &'static str = ".ink/metadata_gen";

/// What registering the metadata package did.
#[derive(PartialEq, Eq, Structural, Debug, Clone, Copy)]
pub enum Registration {
    /// The metadata package was appended to the workspace members.
    Registered,
    /// The members already list the legacy metadata package, which is to be
    /// removed by hand; nothing was appended.
    SkippedLegacyPresent,
}

/// The workspace section is absent or a table, and its member list absent or an array.
pub open spec fn members_ok(doc: Seq<Entry>) -> bool {
    table_ok(doc, WORKSPACE@) && array_ok(table_at(doc, WORKSPACE@), MEMBERS@)
}

/// `k` is absent from `s` or holds an array.
pub open spec fn array_ok(s: Seq<Entry>, k: Seq<char>) -> bool {
    lookup(s, k) is None || lookup(s, k)->Some_0 is Array
}

/// `new` is the member list `old` after registration of the metadata
/// package: unchanged where it lists the legacy or the current package.
pub open spec fn members_registered(old: Seq<Value>, new: Seq<Value>) -> bool {
    if has_str(old, LEGACY_METADATA_PACKAGE_PATH@) || has_str(old, METADATA_PACKAGE_PATH@) {
        new == old
    } else {
        appended_str(old, new, METADATA_PACKAGE_PATH@)
    }
}

/// The profiles section and the release profile in it are absent or tables.
pub open spec fn release_ok(doc: Seq<Entry>) -> bool {
    table_ok(doc, PROFILE@) && table_ok(table_at(doc, PROFILE@), RELEASE@)
}

/// `new` is `old` where the release profile (created, with the profiles
/// section, where absent) has been edited as `rel` says, and nothing else
/// changed.
pub open spec fn release_edited(
    old: Seq<Entry>,
    new: Seq<Entry>,
    rel: spec_fn(Seq<Entry>, Seq<Entry>) -> bool,
) -> bool {
    edited_in(old, new, PROFILE@, |p: Seq<Entry>, p2: Seq<Entry>| edited_in(p, p2, RELEASE@, rel))
}

/// `new` holds what `old` holds, and, under each key that `old` lacks, what
/// `defaults` holds; it repeats no key where `old` repeats none.
pub open spec fn merged(old: Seq<Entry>, defaults: Seq<Entry>, new: Seq<Entry>) -> bool {
    &&& forall|k: Seq<char>| #[trigger] lookup(new, k) == if lookup(old, k) is Some {
        lookup(old, k)
    } else {
        lookup(defaults, k)
    }
    &&& keys_unique(old) ==> keys_unique(new)
}

/// `new` is `old` where the array under `k` (an empty one when `k` was
/// absent) has been edited as `rel` says, and nothing else changed.
pub open spec fn array_edited(
    old: Seq<Entry>,
    new: Seq<Entry>,
    k: Seq<char>,
    rel: spec_fn(Seq<Value>, Seq<Value>) -> bool,
) -> bool {
    &&& same_except(old, new, k)
    &&& lookup(new, k) matches Some(Value::Array(a)) && rel(array_at(old, k), a@)
}

/// The array that `s` holds under `k`; empty when `k` holds no array.
pub open spec fn array_at(s: Seq<Entry>, k: Seq<char>) -> Seq<Value> {
    match lookup(s, k) {
        Some(Value::Array(a)) => a@,
        _ => Seq::empty(),
    }
}

/// `new` is `old` with the string `k` appended, unless `old` already holds it.
pub open spec fn kind_added(old: Seq<Value>, new: Seq<Value>, k: Seq<char>) -> bool {
    if has_str(old, k) {
        new == old
    } else {
        appended_str(old, new, k)
    }
}

/// `new` is `old` with the string `k` appended.
pub open spec fn appended_str(old: Seq<Value>, new: Seq<Value>, k: Seq<char>) -> bool {
    &&& new.len() == old.len() + 1
    &&& new.drop_last() == old
    &&& is_str(new.last(), k)
}

/// `s` without the elements that are the string `k`, in order.
pub open spec fn without(s: Seq<Value>, k: Seq<char>) -> Seq<Value>
    decreases s.len(),
{
    if s.len() == 0 {
        s
    } else if is_str(s.last(), k) {
        without(s.drop_last(), k)
    } else {
        without(s.drop_last(), k).push(s.last())
    }
}

/// Where the library's output kinds are missing or malformed, the error
/// that an edit of them reports.
pub open spec fn crate_types_error(doc: Seq<Entry>) -> Option<ManifestError> {
    match lookup(doc, LIB@) {
        None => Some(ManifestError::MissingSection(arbitrary())),
        Some(Value::Table(t)) => match lookup(t@, CRATE_TYPE@) {
            None => Some(ManifestError::MissingField(arbitrary())),
            Some(Value::Array(_)) => None,
            Some(_) => Some(ManifestError::WrongShape(arbitrary())),
        },
        Some(_) => Some(ManifestError::MissingField(arbitrary())),
    }
}

/// The same error variant, whatever its message.
pub open spec fn same_kind(a: ManifestError, b: ManifestError) -> bool {
    match a {
        ManifestError::InvalidManifestName => b is InvalidManifestName,
        ManifestError::MissingSection(_) => b is MissingSection,
        ManifestError::MissingField(_) => b is MissingField,
        ManifestError::WrongShape(_) => b is WrongShape,
        ManifestError::NotAString(_) => b is NotAString,
        ManifestError::NoDefaultPath(_) => b is NoDefaultPath,
    }
}

/// Whether some element of `crate_types` is the string `crate_type`.
pub fn crate_type_exists(crate_type: &str, crate_types: &Vec<Value>) -> (r: bool)
    ensures
        r == has_str(crate_types@, crate_type@),
{
    let mut i: usize = 0;
    while i < crate_types.len()
        invariant
            0 <= i <= crate_types@.len(),
            forall|j: int| 0 <= j < i ==> !is_str(#[trigger] crate_types@[j], crate_type@),
        decreases crate_types@.len() - i,
    {
        if value_is_str(&crate_types[i], crate_type) {
            return true;
        }
        i = i + 1;
    }
    false
}

fn push_str(a: &mut Vec<Value>, s: &str)
    ensures
        appended_str(old(a)@, final(a)@, s@),
{
    a.push(Value::Str(s.to_owned()));
    assert(final(a)@.drop_last() =~= old(a)@);
}

fn remove_str(a: Vec<Value>, s: &str) -> (r: Vec<Value>)
    ensures
        r@ == without(a@, s@),
{
    let mut out: Vec<Value> = Vec::new();
    let mut i: usize = 0;
    let ghost a0 = a@;
    let mut a = a;
    let n = a.len();
    assert(a0.take(0) =~= Seq::<Value>::empty());
    assert(a0.skip(0) =~= a0);
    while a.len() > 0
        invariant
            i + a@.len() == a0.len(),
            a0.len() == n,
            a@ == a0.skip(i as int),
            out@ == without(a0.take(i as int), s@),
        decreases a@.len(),
    {
        let v = a.remove(0);
        assert(a0.take(i + 1).drop_last() =~= a0.take(i as int));
        assert(a@ =~= a0.skip(i + 1));
        if !value_is_str(&v, s) {
            out.push(v);
        }
        i = i + 1;
    }
    assert(a0.take(i as int) =~= a0);
    out
}

/// Takes the array under `k` out of `entries`, leaving a placeholder at its
/// first position; an absent `k` is first added, and yields an empty array.
/// Nothing changes when `k` holds something other than an array.
fn take_array(entries: &mut Vec<Entry>, k: &str) -> (r: Option<(usize, Vec<Value>)>)
    ensures
        match r {
            Some((i, a)) => {
                &&& array_ok(old(entries)@, k@)
                &&& is_first(final(entries)@, k@, i as int)
                &&& same_except(old(entries)@, final(entries)@, k@)
                &&& a@ == array_at(old(entries)@, k@)
            },
            None => {
                &&& !array_ok(old(entries)@, k@)
                &&& final(entries)@ == old(entries)@
            },
        },
{
    match find_key(entries, k) {
        Some(i) => {
            if matches!(entries[i].value, Value::Array(_)) {
                let v = replace_value(entries, i, Value::Bool(false));
                match v {
                    Value::Array(a) => Some((i, a)),
                    _ => None,
                }
            } else {
                None
            }
        },
        None => {
            let ghost e0 = entries@;
            entries.push(Entry { key: k.to_owned(), value: Value::Bool(false) });
            proof {
                assert forall|x: Seq<char>| x != k@ implies #[trigger] lookup(e0, x) == lookup(entries@, x) by {
                    lemma_lookup_push(e0, entries@.last(), x);
                }
            }
            let i = entries.len() - 1;
            Some((i, Vec::new()))
        },
    }
}

/// Puts the array `a` back at position `i`, the first position of its key.
fn put_array(entries: &mut Vec<Entry>, i: usize, a: Vec<Value>)
    requires
        i < old(entries)@.len(),
        is_first(old(entries)@, old(entries)@[i as int].key@, i as int),
    ensures
        same_except(old(entries)@, final(entries)@, old(entries)@[i as int].key@),
        lookup(final(entries)@, old(entries)@[i as int].key@) == Some(Value::Array(a)),
{
    let _ = replace_value(entries, i, Value::Array(a));
}

/// Whether `v` is the lint library descriptor.
fn is_lint_library_value(v: &Value) -> (r: bool)
    ensures
        r == is_lint_library(*v),
{
    match v {
        Value::Table(t) => {
            if t.len() != 3 {
                return false;
            }
            let g = match find_key(t, GIT) {
                Some(i) => value_is_str(&t[i].value, GIT_URL),
                None => false,
            };
            let a = match find_key(t, TAG) {
                Some(i) => value_is_str(&t[i].value, TAG_NAME),
                None => false,
            };
            let p = match find_key(t, PATTERN) {
                Some(i) => value_is_str(&t[i].value, PATTERN_DIR),
                None => false,
            };
            g && a && p
        },
        _ => false,
    }
}

/// Whether some element of `a` is the lint library descriptor.
fn lists_lint_library_exec(a: &Vec<Value>) -> (r: bool)
    ensures
        r == lists_lint_library(a@),
{
    let mut i: usize = 0;
    while i < a.len()
        invariant
            0 <= i <= a@.len(),
            forall|j: int| 0 <= j < i ==> !is_lint_library(#[trigger] a@[j]),
        decreases a@.len() - i,
    {
        if is_lint_library_value(&a[i]) {
            return true;
        }
        i = i + 1;
    }
    false
}

/// A manifest document together with the path it was loaded from.
pub struct Manifest {
    path: ManifestPath,
    toml: Vec<Entry>,
    metadata_package: bool,
}

impl Manifest {
    /// The document.
    pub closed spec fn doc(&self) -> Seq<Entry> {
        self.toml@
    }

    /// Whether a metadata package is to be generated next to the written copy.
    pub closed spec fn has_metadata_package(&self) -> bool {
        self.metadata_package
    }

    /// The path the manifest was loaded from.
    pub closed spec fn source(&self) -> Seq<char> {
        self.path@
    }

    /// A manifest for the document `toml`, loaded from `path`.
    pub fn new(path: ManifestPath, toml: Vec<Entry>) -> (r: Manifest)
        ensures
            r.doc() == toml@,
            r.source() == path@,
            !r.has_metadata_package(),
    {
        Manifest { path, toml, metadata_package: false }
    }

    /// The path the manifest was loaded from.
    pub fn path(&self) -> (r: &ManifestPath)
        ensures
            r@ == self.source(),
    {
        &self.path
    }

    /// The document as it now stands.
    pub fn document(&self) -> (r: &Vec<Entry>)
        ensures
            r@ == self.doc(),
    {
        &self.toml
    }

    /// Whether a metadata package is to be generated next to the written copy.
    pub fn metadata_package(&self) -> (r: bool)
        ensures
            r == self.has_metadata_package(),
    {
        self.metadata_package
    }

    /// Position of the library section, after checking that its output kinds
    /// are a list.
    fn crate_types_position(&self) -> (r: Result<(usize, usize), ManifestError>)
        ensures
            match r {
                Ok((i, j)) => {
                    &&& crate_types_error(self.doc()) is None
                    &&& is_first(self.doc(), LIB@, i as int)
                    &&& self.doc()[i as int].value matches Value::Table(t) && is_first(t@, CRATE_TYPE@, j as int)
                },
                Err(e) => crate_types_error(self.doc()) matches Some(f) && same_kind(f, e),
            },
    {
        let i = match find_key(&self.toml, LIB) {
            Some(i) => i,
            None => {
                return Err(ManifestError::MissingSection(LIB.to_owned()));
            },
        };
        match &self.toml[i].value {
            Value::Table(t) => match find_key(t, CRATE_TYPE) {
                Some(j) => {
                    if matches!(t[j].value, Value::Array(_)) {
                        Ok((i, j))
                    } else {
                        Err(ManifestError::WrongShape(CRATE_TYPE.to_owned()))
                    }
                },
                None => Err(ManifestError::MissingField(CRATE_TYPE.to_owned())),
            },
            _ => Err(ManifestError::MissingField(CRATE_TYPE.to_owned())),
        }
    }

    /// Edits the library's list of output kinds: appends `crate_type` when
    /// `add` holds and the list lacks it, else removes every occurrence.
    fn edit_crate_types(&mut self, crate_type: &str, add: bool) -> (r: Result<(), ManifestError>)
        ensures
            crate_types_error(old(self).doc()) is None <==> r is Ok,
            r is Err ==> *final(self) == *old(self) && same_kind(crate_types_error(old(self).doc())->Some_0, r->Err_0),
            r is Ok ==> edited_in(old(self).doc(), final(self).doc(), LIB@, |l: Seq<Entry>, l2: Seq<Entry>|
                array_edited(l, l2, CRATE_TYPE@, |a: Seq<Value>, b: Seq<Value>|
                    if add { kind_added(a, b, crate_type@) } else { b == without(a, crate_type@) })),
            final(self).has_metadata_package() == old(self).has_metadata_package(),
            final(self).source() == old(self).source(),
    {
        let (i, j) = match self.crate_types_position() {
            Ok(p) => p,
            Err(e) => {
                return Err(e);
            },
        };
        let ghost d0 = self.toml@;
        proof {
            lemma_lookup_first(d0, LIB@, i as int);
        }
        let (i2, mut lib) = match take_table(&mut self.toml, LIB) {
            Some(p) => p,
            None => {
                return Err(ManifestError::MissingSection(LIB.to_owned()));
            },
        };
        let ghost l0 = lib@;
        proof {
            lemma_lookup_first(l0, CRATE_TYPE@, j as int);
        }
        let v = replace_value(&mut lib, j, Value::Bool(false));
        match v {
            Value::Array(a) => {
                let mut a = a;
                if add {
                    if !crate_type_exists(crate_type, &a) {
                        push_str(&mut a, crate_type);
                    }
                } else {
                    a = remove_str(a, crate_type);
                }
                let _ = replace_value(&mut lib, j, Value::Array(a));
            },
            _ => {},
        }
        put_table(&mut self.toml, i2, lib);
        Ok(())
    }

    /// Adds `crate_type` to the library's output kinds, unless it is there.
    pub fn with_added_crate_type(&mut self, crate_type: &str) -> (r: Result<(), ManifestError>)
        ensures
            crate_types_error(old(self).doc()) is None <==> r is Ok,
            r is Err ==> *final(self) == *old(self) && same_kind(crate_types_error(old(self).doc())->Some_0, r->Err_0),
            r is Ok ==> edited_in(old(self).doc(), final(self).doc(), LIB@, |l: Seq<Entry>, l2: Seq<Entry>|
                array_edited(l, l2, CRATE_TYPE@, |a: Seq<Value>, b: Seq<Value>| kind_added(a, b, crate_type@))),
            final(self).has_metadata_package() == old(self).has_metadata_package(),
            final(self).source() == old(self).source(),
    {
        self.edit_crate_types(crate_type, true)
    }

    /// Removes every occurrence of `crate_type` from the library's output kinds.
    pub fn with_removed_crate_type(&mut self, crate_type: &str) -> (r: Result<(), ManifestError>)
        ensures
            crate_types_error(old(self).doc()) is None <==> r is Ok,
            r is Err ==> *final(self) == *old(self) && same_kind(crate_types_error(old(self).doc())->Some_0, r->Err_0),
            r is Ok ==> edited_in(old(self).doc(), final(self).doc(), LIB@, |l: Seq<Entry>, l2: Seq<Entry>|
                array_edited(l, l2, CRATE_TYPE@, |a: Seq<Value>, b: Seq<Value>| b == without(a, crate_type@))),
            final(self).has_metadata_package() == old(self).has_metadata_package(),
            final(self).source() == old(self).source(),
    {
        self.edit_crate_types(crate_type, false)
    }

    /// Whether the profiles section and its release profile are absent or tables.
    fn check_release(&self) -> (r: bool)
        ensures
            r == release_ok(self.doc()),
    {
        match find_key(&self.toml, PROFILE) {
            None => true,
            Some(i) => match &self.toml[i].value {
                Value::Table(p) => match find_key(p, RELEASE) {
                    None => true,
                    Some(j) => matches!(p[j].value, Value::Table(_)),
                },
                _ => false,
            },
        }
    }

    /// Edits the release profile: sets its LTO flag to `enabled` when `lto`
    /// holds, else adds each entry of `defaults` whose key it lacks.
    fn edit_release(&mut self, lto: bool, enabled: bool, defaults: Vec<Entry>) -> (r: Result<(), ManifestError>)
        ensures
            release_ok(old(self).doc()) <==> r is Ok,
            r is Err ==> *final(self) == *old(self) && r->Err_0 is WrongShape,
            r is Ok ==> release_edited(old(self).doc(), final(self).doc(), |r0: Seq<Entry>, r2: Seq<Entry>|
                if lto {
                    same_except(r0, r2, LTO@) && lookup(r2, LTO@) == Some(Value::Bool(enabled))
                } else {
                    merged(r0, defaults@, r2)
                }),
            final(self).has_metadata_package() == old(self).has_metadata_package(),
            final(self).source() == old(self).source(),
    {
        if !self.check_release() {
            return Err(ManifestError::WrongShape(PROFILE.to_owned()));
        }
        let (i, mut profile) = match take_table(&mut self.toml, PROFILE) {
            Some(p) => p,
            None => {
                return Err(ManifestError::WrongShape(PROFILE.to_owned()));
            },
        };
        let (j, mut release) = match take_table(&mut profile, RELEASE) {
            Some(p) => p,
            None => {
                return Err(ManifestError::WrongShape(RELEASE.to_owned()));
            },
        };
        let ghost r0 = release@;
        if lto {
            match find_key(&release, LTO) {
                Some(k) => {
                    let _ = replace_value(&mut release, k, Value::Bool(enabled));
                },
                None => {
                    release.push(Entry { key: LTO.to_owned(), value: Value::Bool(enabled) });
                    proof {
                        assert forall|x: Seq<char>| true implies #[trigger] lookup(release@, x) == if x == LTO@ {
                            Some(Value::Bool(enabled))
                        } else {
                            lookup(r0, x)
                        } by {
                            lemma_lookup_push(r0, release@.last(), x);
                        }
                    }
                },
            }
        } else {
            let mut d = defaults;
            let ghost dd = d@;
            let n = d.len();
            let mut m: usize = 0;
            assert(dd.skip(0) =~= dd);
            proof {
                assert forall|x: Seq<char>| true implies #[trigger] lookup(release@, x) == if lookup(r0, x) is Some {
                    lookup(r0, x)
                } else {
                    lookup(dd.take(0), x)
                } by {
                    assert(dd.take(0) =~= Seq::<Entry>::empty());
                }
            }
            while d.len() > 0
                invariant
                    m + d@.len() == dd.len(),
                    dd.len() == n,
                    d@ == dd.skip(m as int),
                    keys_unique(r0) ==> keys_unique(release@),
                    forall|x: Seq<char>| #[trigger] lookup(release@, x) == if lookup(r0, x) is Some {
                        lookup(r0, x)
                    } else {
                        lookup(dd.take(m as int), x)
                    },
                decreases d@.len(),
            {
                let e = d.remove(0);
                assert(d@ =~= dd.skip(m + 1));
                assert(dd.take(m + 1) =~= dd.take(m as int).push(e));
                let ghost before = release@;
                if find_key(&release, e.key.as_str()).is_none() {
                    release.push(e);
                    proof {
                        if keys_unique(r0) {
                            lemma_unique_push(before, release@.last());
                            assert(before.push(release@.last()) =~= release@);
                        }
                    }
                    proof {
                        assert forall|x: Seq<char>| true implies #[trigger] lookup(release@, x) == if lookup(r0, x) is Some {
                            lookup(r0, x)
                        } else {
                            lookup(dd.take(m + 1), x)
                        } by {
                            lemma_lookup_push_any(before, release@.last(), x);
                            lemma_lookup_push_any(dd.take(m as int), release@.last(), x);
                        }
                    }
                } else {
                    proof {
                        assert forall|x: Seq<char>| true implies #[trigger] lookup(release@, x) == if lookup(r0, x) is Some {
                            lookup(r0, x)
                        } else {
                            lookup(dd.take(m + 1), x)
                        } by {
                            lemma_lookup_push_any(dd.take(m as int), e, x);
                        }
                    }
                }
                m = m + 1;
            }
            assert(dd.take(m as int) =~= dd);
        }
        put_table(&mut profile, j, release);
        put_table(&mut self.toml, i, profile);
        Ok(())
    }

    /// Sets the LTO flag of the release profile, creating the profile where
    /// absent.
    pub fn with_profile_release_lto(&mut self, enabled: bool) -> (r: Result<(), ManifestError>)
        ensures
            release_ok(old(self).doc()) <==> r is Ok,
            r is Err ==> *final(self) == *old(self) && r->Err_0 is WrongShape,
            r is Ok ==> release_edited(old(self).doc(), final(self).doc(), |r0: Seq<Entry>, r2: Seq<Entry>|
                same_except(r0, r2, LTO@) && lookup(r2, LTO@) == Some(Value::Bool(enabled))),
            final(self).has_metadata_package() == old(self).has_metadata_package(),
            final(self).source() == old(self).source(),
    {
        self.edit_release(true, enabled, Vec::new())
    }

    /// Adds to the release profile each setting of `defaults` that it lacks;
    /// settings already there are kept.
    pub fn with_profile_release_defaults(&mut self, defaults: Vec<Entry>) -> (r: Result<(), ManifestError>)
        ensures
            release_ok(old(self).doc()) <==> r is Ok,
            r is Err ==> *final(self) == *old(self) && r->Err_0 is WrongShape,
            r is Ok ==> release_edited(old(self).doc(), final(self).doc(), |r0: Seq<Entry>, r2: Seq<Entry>|
                merged(r0, defaults@, r2)),
            final(self).has_metadata_package() == old(self).has_metadata_package(),
            final(self).source() == old(self).source(),
    {
        self.edit_release(false, false, defaults)
    }

    /// Adds an empty workspace section where there is none; an existing one
    /// is left as it is.
    pub fn with_workspace(&mut self) -> (r: Result<(), ManifestError>)
        ensures
            r is Ok,
            lookup(old(self).doc(), WORKSPACE@) is Some ==> *final(self) == *old(self),
            lookup(old(self).doc(), WORKSPACE@) is None ==> same_except(old(self).doc(), final(self).doc(), WORKSPACE@)
                && sub_table(final(self).doc(), WORKSPACE@) == Some(Seq::<Entry>::empty()),
            final(self).has_metadata_package() == old(self).has_metadata_package(),
            final(self).source() == old(self).source(),
    {
        if find_key(&self.toml, WORKSPACE).is_none() {
            let ghost d0 = self.toml@;
            self.toml.push(Entry { key: WORKSPACE.to_owned(), value: Value::Table(Vec::new()) });
            proof {
                assert forall|x: Seq<char>| true implies #[trigger] lookup(self.toml@, x) == if x == WORKSPACE@ {
                    Some(self.toml@.last().value)
                } else {
                    lookup(d0, x)
                } by {
                    lemma_lookup_push(d0, self.toml@.last(), x);
                }
                assert(self.toml@.last().value->Table_0@ =~= Seq::<Entry>::empty());
            }
        }
        Ok(())
    }

    /// Whether the workspace section is absent or a table, and its member
    /// list absent or an array.
    fn check_members(&self) -> (r: bool)
        ensures
            r == members_ok(self.doc()),
    {
        match find_key(&self.toml, WORKSPACE) {
            None => true,
            Some(i) => match &self.toml[i].value {
                Value::Table(w) => match find_key(w, MEMBERS) {
                    None => true,
                    Some(j) => matches!(w[j].value, Value::Array(_)),
                },
                _ => false,
            },
        }
    }

    /// Registers the metadata package as a workspace member, creating the
    /// section and the list where absent, unless the legacy metadata package
    /// is listed; either way marks the manifest for metadata generation.
    pub fn with_metadata_package(&mut self) -> (r: Result<Registration, ManifestError>)
        ensures
            members_ok(old(self).doc()) <==> r is Ok,
            r is Err ==> *final(self) == *old(self) && r->Err_0 is WrongShape,
            r is Ok ==> {
                &&& edited_in(old(self).doc(), final(self).doc(), WORKSPACE@, |w: Seq<Entry>, w2: Seq<Entry>|
                    array_edited(w, w2, MEMBERS@, |m: Seq<Value>, m2: Seq<Value>| members_registered(m, m2)))
                &&& final(self).has_metadata_package()
                &&& (r->Ok_0 == Registration::Registered) == !has_str(
                    array_at(table_at(old(self).doc(), WORKSPACE@), MEMBERS@),
                    LEGACY_METADATA_PACKAGE_PATH@,
                )
            },
            final(self).source() == old(self).source(),
    {
        if !self.check_members() {
            return Err(ManifestError::WrongShape(WORKSPACE.to_owned()));
        }
        let (i, mut ws) = match take_table(&mut self.toml, WORKSPACE) {
            Some(p) => p,
            None => {
                return Err(ManifestError::WrongShape(WORKSPACE.to_owned()));
            },
        };
        let (j, mut members) = match take_array(&mut ws, MEMBERS) {
            Some(p) => p,
            None => {
                return Err(ManifestError::WrongShape(MEMBERS.to_owned()));
            },
        };
        let outcome = if crate_type_exists(LEGACY_METADATA_PACKAGE_PATH, &members) {
            Registration::SkippedLegacyPresent
        } else {
            if !crate_type_exists(METADATA_PACKAGE_PATH, &members) {
                push_str(&mut members, METADATA_PACKAGE_PATH);
            }
            Registration::Registered
        };
        put_array(&mut ws, j, members);
        put_table(&mut self.toml, i, ws);
        self.metadata_package = true;
        Ok(outcome)
    }

    /// Anchors the relative paths of the document as `rewrite` says; see
    /// `PathRewrite::rewrite_relative_paths`.
    pub fn rewrite_relative_paths(&mut self, rewrite: &PathRewrite) -> (r: Result<(), ManifestError>)
        ensures
            r is Ok <==> rewrite.pass_ok(old(self).doc()),
            r is Ok ==> rewrite.rewritten(old(self).doc(), final(self).doc()),
            r is Err ==> final(self).doc() == old(self).doc(),
            r is Err ==> (rewrite.first_pass_error(old(self).doc()) matches Some(e) && same_kind(e, r->Err_0)),
            final(self).has_metadata_package() == old(self).has_metadata_package(),
            final(self).source() == old(self).source(),
    {
        rewrite.rewrite_relative_paths(&mut self.toml)
    }

    /// The optimisation pass setting under `package.metadata.contract`; none
    /// where any table on the way is absent or not a table.
    pub fn get_profile_optimization_passes(&self) -> (r: Option<&Value>)
        ensures
            match optimization_passes_of(self.doc()) {
                None => r is None,
                Some(v) => r == Some(&v),
            },
    {
        let p = match find_key(&self.toml, PACKAGE_SECTION) {
            Some(i) => match &self.toml[i].value {
                Value::Table(t) => t,
                _ => {
                    return None;
                },
            },
            None => {
                return None;
            },
        };
        let m = match find_key(p, METADATA) {
            Some(i) => match &p[i].value {
                Value::Table(t) => t,
                _ => {
                    return None;
                },
            },
            None => {
                return None;
            },
        };
        let c = match find_key(m, CONTRACT) {
            Some(i) => match &m[i].value {
                Value::Table(t) => t,
                _ => {
                    return None;
                },
            },
            None => {
                return None;
            },
        };
        match find_key(c, OPTIMIZATION_PASSES) {
            Some(i) => Some(&c[i].value),
            None => None,
        }
    }

    /// Whether the tables on the way to the lint library list are absent or
    /// tables, and the list absent or an array.
    fn check_dylint(&self) -> (r: bool)
        ensures
            r == dylint_ok(self.doc()),
    {
        let w = match find_key(&self.toml, WORKSPACE) {
            None => {
                return true;
            },
            Some(i) => match &self.toml[i].value {
                Value::Table(t) => t,
                _ => {
                    return false;
                },
            },
        };
        let m = match find_key(w, METADATA) {
            None => {
                return true;
            },
            Some(i) => match &w[i].value {
                Value::Table(t) => t,
                _ => {
                    return false;
                },
            },
        };
        let d = match find_key(m, DYLINT) {
            None => {
                return true;
            },
            Some(i) => match &m[i].value {
                Value::Table(t) => t,
                _ => {
                    return false;
                },
            },
        };
        match find_key(d, LIBRARIES) {
            None => true,
            Some(i) => matches!(d[i].value, Value::Array(_)),
        }
    }

    /// Appends the lint library descriptor to `workspace.metadata.dylint.libraries`,
    /// creating each table on the way, and the list, where absent.
    pub fn with_dylint(&mut self) -> (r: Result<(), ManifestError>)
        ensures
            dylint_ok(old(self).doc()) <==> r is Ok,
            r is Err ==> *final(self) == *old(self) && r->Err_0 is WrongShape,
            r is Ok ==> edited_in(old(self).doc(), final(self).doc(), WORKSPACE@, |w: Seq<Entry>, w2: Seq<Entry>|
                edited_in(w, w2, METADATA@, |m: Seq<Entry>, m2: Seq<Entry>|
                    edited_in(m, m2, DYLINT@, |d: Seq<Entry>, d2: Seq<Entry>|
                        array_edited(d, d2, LIBRARIES@, |a: Seq<Value>, b: Seq<Value>| lint_library_added(a, b))))),
            final(self).has_metadata_package() == old(self).has_metadata_package(),
            final(self).source() == old(self).source(),
    {
        if !self.check_dylint() {
            return Err(ManifestError::WrongShape(WORKSPACE.to_owned()));
        }
        let mut lib: Vec<Entry> = Vec::new();
        lib.push(Entry { key: GIT.to_owned(), value: Value::Str(GIT_URL.to_owned()) });
        let ghost l1 = lib@;
        lib.push(Entry { key: TAG.to_owned(), value: Value::Str(TAG_NAME.to_owned()) });
        let ghost l2 = lib@;
        lib.push(Entry { key: PATTERN.to_owned(), value: Value::Str(PATTERN_DIR.to_owned()) });
        proof {
            reveal_strlit("git");
            reveal_strlit("tag");
            reveal_strlit("pattern");
            assert(GIT@[0] != TAG@[0]);
            assert(GIT@.len() != PATTERN@.len());
            assert(TAG@.len() != PATTERN@.len());
            assert(l1.drop_first() =~= Seq::<Entry>::empty());
            assert(lookup(l1, GIT@) is Some);
            lemma_lookup_push_any(l1, l2.last(), GIT@);
            lemma_lookup_push_any(l1, l2.last(), TAG@);
            lemma_lookup_push_any(l2, lib@.last(), GIT@);
            lemma_lookup_push_any(l2, lib@.last(), TAG@);
            lemma_lookup_push_any(l2, lib@.last(), PATTERN@);
            lemma_lookup_push_any(l1, l2.last(), PATTERN@);
            assert(lookup(l1, TAG@) is None) by {
                assert(lookup(l1.drop_first(), TAG@) is None);
            }
            assert(lookup(l1, PATTERN@) is None) by {
                assert(lookup(l1.drop_first(), PATTERN@) is None);
            }
        }
        let ghost lv = Value::Table(lib);
        let (i, mut ws) = match take_table(&mut self.toml, WORKSPACE) {
            Some(p) => p,
            None => {
                return Err(ManifestError::WrongShape(WORKSPACE.to_owned()));
            },
        };
        let (j, mut meta) = match take_table(&mut ws, METADATA) {
            Some(p) => p,
            None => {
                return Err(ManifestError::WrongShape(METADATA.to_owned()));
            },
        };
        let (k, mut dy) = match take_table(&mut meta, DYLINT) {
            Some(p) => p,
            None => {
                return Err(ManifestError::WrongShape(DYLINT.to_owned()));
            },
        };
        let (l, mut libs) = match take_array(&mut dy, LIBRARIES) {
            Some(p) => p,
            None => {
                return Err(ManifestError::WrongShape(LIBRARIES.to_owned()));
            },
        };
        let ghost a0 = libs@;
        if !lists_lint_library_exec(&libs) {
            libs.push(Value::Table(lib));
            assert(libs@.drop_last() =~= a0);
            assert(libs@.last() == lv);
        }
        put_array(&mut dy, l, libs);
        put_table(&mut meta, k, dy);
        put_table(&mut ws, j, meta);
        put_table(&mut self.toml, i, ws);
        Ok(())
    }

    /// The package name, which the metadata package is generated for.
    pub fn package_name(&self) -> (r: Result<&String, ManifestError>)
        ensures
            match package_name_of(self.doc()) {
                Ok(n) => r matches Ok(x) && x@ == n,
                Err(e) => r matches Err(f) && same_kind(e, f),
            },
    {
        match find_key(&self.toml, PACKAGE_SECTION) {
            None => Err(ManifestError::MissingField(PACKAGE_SECTION.to_owned())),
            Some(i) => match &self.toml[i].value {
                Value::Table(t) => match find_key(t, NAME) {
                    Some(j) => match &t[j].value {
                        Value::Str(n) => Ok(n),
                        _ => Err(ManifestError::MissingField(NAME.to_owned())),
                    },
                    None => Err(ManifestError::MissingField(NAME.to_owned())),
                },
                _ => Err(ManifestError::MissingField(NAME.to_owned())),
            },
        }
    }

    /// The dependency entry of the language crate, which the metadata
    /// package depends on too.
    pub fn ink_dependency(&self) -> (r: Result<&Vec<Entry>, ManifestError>)
        ensures
            match ink_dependency_of(self.doc()) {
                Ok(d) => r matches Ok(x) && x@ == d,
                Err(e) => r matches Err(f) && same_kind(e, f),
            },
    {
        match find_key(&self.toml, DEPENDENCIES_SECTION) {
            None => Err(ManifestError::MissingField(DEPENDENCIES_SECTION.to_owned())),
            Some(i) => match &self.toml[i].value {
                Value::Table(t) => match find_key(t, INK) {
                    Some(j) => match &t[j].value {
                        Value::Table(d) => Ok(d),
                        _ => Err(ManifestError::MissingField(INK.to_owned())),
                    },
                    None => Err(ManifestError::MissingField(INK.to_owned())),
                },
                _ => Err(ManifestError::MissingField(INK.to_owned())),
            },
        }
    }

    /// Where the metadata package of a copy written to `target` goes: under
    /// the target's directory, or at the package path itself when the target
    /// is the bare manifest file name.
    pub fn metadata_package_dir(target: &ManifestPath) -> (r: String)
        ensures
            r@ == match directory_of(target.is_windows(), target@) {
                Some(d) => joined_on(target.is_windows(), d, METADATA_PACKAGE_PATH@),
                None => METADATA_PACKAGE_PATH@,
            },
    {
        match target.directory() {
            Some(d) => join_on(target.windows(), d.as_str(), METADATA_PACKAGE_PATH),
            None => METADATA_PACKAGE_PATH.to_owned(),
        }
    }
}

} // verus!
