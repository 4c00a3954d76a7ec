//! The pass that anchors the relative paths of a manifest at its directory.
use vstd::prelude::*;
use crate::error::ManifestError;
use crate::manifest::same_kind;
use crate::path::{absolute_windows, anchored, backslash, backslashed, is_absolute, is_absolute_windows, join_on, joined_on};
use crate::value::{
    Entry, Value, find_key, keys_unique, lemma_lookup_push, lookup, replace_value, same_except,
    str_eq,
};

verus! {

/// Key of a path field.
pub const PATH: &'static str = "path";
/// Key of the field that names a dependency's package.
pub const PACKAGE: &'static str = "package";
/// Key of the binaries section.
pub const BIN: &'static str = "bin";
/// Key of the dependencies section.
pub const DEPENDENCIES: &'static str = "dependencies";
/// Key of the development dependencies section.
pub const DEV_DEPENDENCIES: &'static str = "dev-dependencies";
/// Entry point of the library when none is given.
pub const DEFAULT_LIB_PATH: &'static str = "src/lib.rs";
/// Entry point of a binary when none is given.
pub const DEFAULT_BIN_PATH: &'static str = "src/main.rs";

/// What the pass needs: the manifest's absolute directory, the dependencies
/// whose paths stay as they are, whether the default entry points exist, and
/// whether paths follow Windows rules, where the separator is `\\`.
pub struct PathRewrite {
    pub exclude_deps: Vec<String>,
    pub manifest_dir: String,
    pub lib_default_exists: bool,
    pub bin_default_exists: bool,
    pub windows: bool,
}

/// Where an entry-point section `v` cannot be rewritten, why.
pub open spec fn entry_point_error(v: Value, default_exists: bool) -> Option<ManifestError> {
    match v {
        Value::Table(t) => match lookup(t@, PATH@) {
            Some(Value::Str(_)) => None,
            Some(_) => Some(ManifestError::NotAString(arbitrary())),
            None => if default_exists {
                None
            } else {
                Some(ManifestError::NoDefaultPath(arbitrary()))
            },
        },
        _ => Some(ManifestError::WrongShape(arbitrary())),
    }
}

/// The entry-point section `new` is `old` with its path anchored at `dir`,
/// or, where it has none, with the anchored `default`.
pub open spec fn entry_point_rewritten(
    windows: bool,
    dir: Seq<char>,
    old: Value,
    new: Value,
    default: Seq<char>,
) -> bool {
    old matches Value::Table(t) && new matches Value::Table(t2) && {
        &&& same_except(t@, t2@, PATH@)
        &&& lookup(t2@, PATH@) matches Some(Value::Str(q)) && q@ == match lookup(t@, PATH@) {
            Some(Value::Str(p)) => anchored(windows, dir, p@),
            _ => joined_on(windows, dir, default),
        }
    }
}

/// The four sections that the pass walks have distinct keys.
pub proof fn lemma_section_keys_distinct()
    ensures
        crate::manifest::LIB@ != BIN@,
        crate::manifest::LIB@ != DEPENDENCIES@,
        crate::manifest::LIB@ != DEV_DEPENDENCIES@,
        BIN@ != DEPENDENCIES@,
        BIN@ != DEV_DEPENDENCIES@,
        DEPENDENCIES@ != DEV_DEPENDENCIES@,
{
    reveal_strlit("lib");
    reveal_strlit("bin");
    reveal_strlit("dependencies");
    reveal_strlit("dev-dependencies");
    assert(crate::manifest::LIB@[0] != BIN@[0]);
    assert(DEPENDENCIES@.len() != DEV_DEPENDENCIES@.len());
    assert(DEPENDENCIES@.len() != BIN@.len());
    assert(DEPENDENCIES@.len() != crate::manifest::LIB@.len());
    assert(DEV_DEPENDENCIES@.len() != BIN@.len());
    assert(DEV_DEPENDENCIES@.len() != crate::manifest::LIB@.len());
}

/// The name a dependency entry stands for: its `package` field where that is
/// a string, else its key.
pub open spec fn dep_name(e: Entry) -> Seq<char> {
    match e.value {
        Value::Table(t) => match lookup(t@, PACKAGE@) {
            Some(Value::Str(s)) => s@,
            _ => e.key@,
        },
        _ => e.key@,
    }
}

/// The error of the first binary section in `a` that cannot be rewritten.
pub open spec fn first_bin_error(a: Seq<Value>, default_exists: bool) -> Option<ManifestError>
    decreases a.len(),
{
    if a.len() == 0 {
        None
    } else if entry_point_error(a[0], default_exists) is Some {
        entry_point_error(a[0], default_exists)
    } else {
        first_bin_error(a.drop_first(), default_exists)
    }
}

/// Where the sections before `j` can be rewritten, the first error is that
/// of the section at `j`, or none when `j` is past the end.
pub proof fn lemma_first_bin_error(a: Seq<Value>, default_exists: bool, j: int)
    requires
        0 <= j <= a.len(),
        forall|i: int| 0 <= i < j ==> entry_point_error(#[trigger] a[i], default_exists) is None,
        j == a.len() || entry_point_error(a[j], default_exists) is Some,
    ensures
        first_bin_error(a, default_exists) == if j == a.len() {
            None
        } else {
            entry_point_error(a[j], default_exists)
        },
    decreases j,
{
    if a.len() > 0 && j > 0 {
        assert(entry_point_error(a[0], default_exists) is None);
        assert forall|i: int| 0 <= i < j - 1 implies entry_point_error(#[trigger] a.drop_first()[i], default_exists) is None by {
            assert(a.drop_first()[i] == a[i + 1]);
        }
        lemma_first_bin_error(a.drop_first(), default_exists, j - 1);
    }
}

/// An entry-point section is absent or can be rewritten.
pub open spec fn entry_point_ok(v: Option<Value>, default_exists: bool) -> bool {
    v is None || entry_point_error(v->Some_0, default_exists) is None
}

impl PathRewrite {
    /// The path field of a dependency entry that the pass rewrites: none for
    /// an excluded dependency or one without a path.
    pub open spec fn dep_path(&self, e: Entry) -> Option<Value> {
        if self.excludes(dep_name(e)) {
            None
        } else {
            match e.value {
                Value::Table(t) => lookup(t@, PATH@),
                _ => None,
            }
        }
    }

    /// The dependency entry can be rewritten.
    pub open spec fn dep_ok(&self, e: Entry) -> bool {
        self.dep_path(e) is None || self.dep_path(e)->Some_0 is Str
    }

    /// The entry `new` is the dependency entry `old` after the pass.
    pub open spec fn dep_rewritten(&self, old: Entry, new: Entry) -> bool {
        match self.dep_path(old) {
            Some(Value::Str(p)) => {
                &&& new.key == old.key
                &&& old.value matches Value::Table(t) && new.value matches Value::Table(t2) && {
                    &&& same_except(t@, t2@, PATH@)
                    &&& lookup(t2@, PATH@) matches Some(Value::Str(q)) && q@ == anchored(self.windows, self.manifest_dir@, p@)
                }
            },
            _ => new == old,
        }
    }

    /// A binaries section is absent or an array of sections that can be rewritten.
    pub open spec fn bins_ok(&self, v: Option<Value>) -> bool {
        match v {
            None => true,
            Some(Value::Array(a)) => forall|j: int| 0 <= j < a@.len() ==> entry_point_error(#[trigger] a@[j], self.bin_default_exists) is None,
            _ => false,
        }
    }

    /// A dependencies section is absent or a table of entries that can be rewritten.
    pub open spec fn deps_ok(&self, v: Option<Value>) -> bool {
        match v {
            None => true,
            Some(Value::Table(d)) => self.deps_table_ok(d@),
            _ => false,
        }
    }

    /// Every entry of a dependencies table can be rewritten.
    pub open spec fn deps_table_ok(&self, d: Seq<Entry>) -> bool {
        forall|j: int| 0 <= j < d.len() ==> self.dep_ok(#[trigger] d[j])
    }

    /// The section `v` under `k` is absent or can be rewritten.
    pub open spec fn section_ok(&self, k: Seq<char>, v: Option<Value>) -> bool {
        if k == crate::manifest::LIB@ {
            entry_point_ok(v, self.lib_default_exists)
        } else if k == BIN@ {
            self.bins_ok(v)
        } else {
            self.deps_ok(v)
        }
    }

    /// Why the section `v` under `k` cannot be rewritten, if it cannot: for
    /// the library, its entry-point error; for the binaries, a shape error
    /// or the first binary's error; for dependencies, a shape error or a
    /// path that is no string.
    pub open spec fn section_error(&self, k: Seq<char>, v: Option<Value>) -> Option<ManifestError> {
        match v {
            None => None,
            Some(x) => if k == crate::manifest::LIB@ {
                entry_point_error(x, self.lib_default_exists)
            } else if k == BIN@ {
                match x {
                    Value::Array(a) => first_bin_error(a@, self.bin_default_exists),
                    _ => Some(ManifestError::WrongShape(arbitrary())),
                }
            } else {
                match x {
                    Value::Table(d) => if self.deps_table_ok(d@) {
                        None
                    } else {
                        Some(ManifestError::NotAString(arbitrary()))
                    },
                    _ => Some(ManifestError::WrongShape(arbitrary())),
                }
            },
        }
    }

    /// The error of the pass on `doc`: that of the first section that cannot
    /// be rewritten, in the order library, binaries, dependencies,
    /// development dependencies.
    pub open spec fn first_pass_error(&self, doc: Seq<Entry>) -> Option<ManifestError> {
        let e0 = self.section_error(crate::manifest::LIB@, lookup(doc, crate::manifest::LIB@));
        let e1 = self.section_error(BIN@, lookup(doc, BIN@));
        let e2 = self.section_error(DEPENDENCIES@, lookup(doc, DEPENDENCIES@));
        let e3 = self.section_error(DEV_DEPENDENCIES@, lookup(doc, DEV_DEPENDENCIES@));
        if e0 is Some {
            e0
        } else if e1 is Some {
            e1
        } else if e2 is Some {
            e2
        } else {
            e3
        }
    }

    /// The pass succeeds on `doc`.
    pub open spec fn pass_ok(&self, doc: Seq<Entry>) -> bool {
        &&& self.section_ok(crate::manifest::LIB@, lookup(doc, crate::manifest::LIB@))
        &&& self.section_ok(BIN@, lookup(doc, BIN@))
        &&& self.section_ok(DEPENDENCIES@, lookup(doc, DEPENDENCIES@))
        &&& self.section_ok(DEV_DEPENDENCIES@, lookup(doc, DEV_DEPENDENCIES@))
    }

    /// The section `new` is the binaries section `old` after the pass.
    pub open spec fn bins_rewritten(&self, old: Value, new: Value) -> bool {
        old matches Value::Array(a) && new matches Value::Array(a2) && {
            &&& a2@.len() == a@.len()
            &&& forall|j: int| 0 <= j < a@.len() ==> entry_point_rewritten(self.windows, self.manifest_dir@, #[trigger] a@[j], a2@[j], DEFAULT_BIN_PATH@)
        }
    }

    /// The section `new` is the dependencies section `old` after the pass.
    pub open spec fn deps_rewritten(&self, old: Value, new: Value) -> bool {
        old matches Value::Table(d) && new matches Value::Table(d2) && {
            &&& d2@.len() == d@.len()
            &&& forall|j: int| 0 <= j < d@.len() ==> self.dep_rewritten(#[trigger] d@[j], d2@[j])
        }
    }

    /// The section under `k` of `new` is that of `old` after the pass; an
    /// absent section stays absent.
    pub open spec fn section_rewritten(&self, old: Seq<Entry>, new: Seq<Entry>, k: Seq<char>) -> bool {
        match lookup(old, k) {
            None => lookup(new, k) is None,
            Some(v) => lookup(new, k) matches Some(v2) && if k == crate::manifest::LIB@ {
                entry_point_rewritten(self.windows, self.manifest_dir@, v, v2, DEFAULT_LIB_PATH@)
            } else if k == BIN@ {
                self.bins_rewritten(v, v2)
            } else {
                self.deps_rewritten(v, v2)
            },
        }
    }

    /// `new` is the document `old` after the pass.
    pub open spec fn rewritten(&self, old: Seq<Entry>, new: Seq<Entry>) -> bool {
        &&& keys_unique(old) ==> keys_unique(new)
        &&& self.section_rewritten(old, new, crate::manifest::LIB@)
        &&& self.section_rewritten(old, new, BIN@)
        &&& self.section_rewritten(old, new, DEPENDENCIES@)
        &&& self.section_rewritten(old, new, DEV_DEPENDENCIES@)
        &&& forall|x: Seq<char>|
            x != crate::manifest::LIB@ && x != BIN@ && x != DEPENDENCIES@ && x != DEV_DEPENDENCIES@
                ==> #[trigger] lookup(new, x) == lookup(old, x)
    }

    /// Whether `name` is one of the excluded dependencies.
    fn is_excluded(&self, name: &str) -> (r: bool)
        ensures
            r == self.excludes(name@),
    {
        let mut i: usize = 0;
        while i < self.exclude_deps.len()
            invariant
                0 <= i <= self.exclude_deps@.len(),
                forall|j: int| 0 <= j < i ==> #[trigger] self.exclude_deps@[j]@ != name@,
            decreases self.exclude_deps@.len() - i,
        {
            if str_eq(self.exclude_deps[i].as_str(), name) {
                return true;
            }
            i = i + 1;
        }
        false
    }

    /// Whether the pass rewrites the dependency entry, and whether it can.
    fn dep_status(&self, e: &Entry) -> (r: (bool, bool))
        ensures
            r.0 == self.dep_path(*e) is Some,
            r.1 == self.dep_ok(*e),
    {
        match &e.value {
            Value::Table(t) => {
                let name = match find_key(t, PACKAGE) {
                    Some(i) => match &t[i].value {
                        Value::Str(s) => s.as_str(),
                        _ => e.key.as_str(),
                    },
                    None => e.key.as_str(),
                };
                if self.is_excluded(name) {
                    return (false, true);
                }
                match find_key(t, PATH) {
                    Some(i) => (true, matches!(t[i].value, Value::Str(_))),
                    None => (false, true),
                }
            },
            _ => (false, true),
        }
    }

    /// Whether `name` is one of the excluded dependencies.
    pub open spec fn excludes(&self, name: Seq<char>) -> bool {
        exists|i: int| 0 <= i < self.exclude_deps@.len() && #[trigger] self.exclude_deps@[i]@ == name
    }

    /// The path value `p` of the manifest anchored at the manifest's
    /// directory; an absolute one as it is.
    pub fn absolute(&self, p: &str) -> (r: String)
        ensures
            r@ == anchored(self.windows, self.manifest_dir@, p@),
            !self.windows && is_absolute(p@) ==> r@ == p@,
            self.windows && is_absolute_windows(backslashed(p@)) ==> r@ == p@,
    {
        if self.windows {
            let q = backslash(p);
            if absolute_windows(q.as_str()) {
                return p.to_owned();
            }
            join_on(true, self.manifest_dir.as_str(), q.as_str())
        } else {
            join_on(false, self.manifest_dir.as_str(), p)
        }
    }

    /// The default entry point `p` joined onto the manifest's directory.
    fn anchor_default(&self, p: &str) -> (r: String)
        ensures
            r@ == joined_on(self.windows, self.manifest_dir@, p@),
    {
        join_on(self.windows, self.manifest_dir.as_str(), p)
    }

    /// Where the entry-point section `v` cannot be rewritten, why.
    fn entry_point_check(v: &Value, default_exists: bool) -> (r: Option<ManifestError>)
        ensures
            match entry_point_error(*v, default_exists) {
                None => r is None,
                Some(e) => r matches Some(f) && same_kind(e, f),
            },
    {
        match v {
            Value::Table(t) => match find_key(t, PATH) {
                Some(i) => match &t[i].value {
                    Value::Str(_) => None,
                    _ => Some(ManifestError::NotAString(PATH.to_owned())),
                },
                None => if default_exists {
                    None
                } else {
                    Some(ManifestError::NoDefaultPath(PATH.to_owned()))
                },
            },
            _ => Some(ManifestError::WrongShape(PATH.to_owned())),
        }
    }

    /// The entry-point section `v` with its path anchored, or the anchored
    /// `default` where it has none.
    fn rewrite_entry_point(&self, v: Value, default: &str) -> (r: Value)
        requires
            entry_point_error(v, true) is None,
        ensures
            entry_point_rewritten(self.windows, self.manifest_dir@, v, r, default@),
    {
        match v {
            Value::Table(t) => {
                let mut t = t;
                let ghost t0 = t@;
                match find_key(&t, PATH) {
                    Some(i) => {
                        let old_path = replace_value(&mut t, i, Value::Bool(false));
                        let q = match &old_path {
                            Value::Str(p) => self.absolute(p.as_str()),
                            _ => self.anchor_default(default),
                        };
                        let _ = replace_value(&mut t, i, Value::Str(q));
                    },
                    None => {
                        let q = self.anchor_default(default);
                        t.push(Entry { key: PATH.to_owned(), value: Value::Str(q) });
                        proof {
                            assert forall|x: Seq<char>| true implies #[trigger] lookup(t@, x) == if x == PATH@ {
                                Some(t@.last().value)
                            } else {
                                lookup(t0, x)
                            } by {
                                lemma_lookup_push(t0, t@.last(), x);
                            }
                        }
                    },
                }
                Value::Table(t)
            },
            _ => v,
        }
    }

    /// Whether the section `v` under `k` can be rewritten.
    fn section_check(&self, k: &str, v: &Value) -> (r: Option<ManifestError>)
        ensures
            r is None == self.section_ok(k@, Some(*v)),
            match self.section_error(k@, Some(*v)) {
                None => r is None,
                Some(e) => r matches Some(f) && same_kind(e, f),
            },
    {
        proof {
            lemma_section_keys_distinct();
        }
        if str_eq(k, crate::manifest::LIB) {
            return Self::entry_point_check(v, self.lib_default_exists);
        }
        if str_eq(k, BIN) {
            match v {
                Value::Array(a) => {
                    let mut j: usize = 0;
                    while j < a.len()
                        invariant
                            0 <= j <= a@.len(),
                            *v == Value::Array(*a),
                            k@ == BIN@,
                            BIN@ != crate::manifest::LIB@,
                            forall|i: int| 0 <= i < j ==> entry_point_error(#[trigger] a@[i], self.bin_default_exists) is None,
                        decreases a@.len() - j,
                    {
                        let aj = &a[j];
                        assert(*aj == a@[j as int]);
                        let e = Self::entry_point_check(aj, self.bin_default_exists);
                        if e.is_some() {
                            assert(entry_point_error(a@[j as int], self.bin_default_exists) is Some);
                            proof {
                                lemma_first_bin_error(a@, self.bin_default_exists, j as int);
                                assert(self.section_error(k@, Some(*v)) == entry_point_error(a@[j as int], self.bin_default_exists));
                            }
                            return e;
                        }
                        j = j + 1;
                    }
                    proof {
                        lemma_first_bin_error(a@, self.bin_default_exists, j as int);
                    }
                    None
                },
                _ => Some(ManifestError::WrongShape(BIN.to_owned())),
            }
        } else {
            match v {
                Value::Table(d) => {
                    let mut j: usize = 0;
                    while j < d.len()
                        invariant
                            0 <= j <= d@.len(),
                            *v == Value::Table(*d),
                            k@ != BIN@ && k@ != crate::manifest::LIB@,
                            forall|i: int| 0 <= i < j ==> self.dep_ok(#[trigger] d@[i]),
                        decreases d@.len() - j,
                    {
                        let dj = &d[j];
                        assert(*dj == d@[j as int]);
                        let st = self.dep_status(dj);
                        assert(st.1 == self.dep_ok(*dj));
                        if !st.1 {
                            assert(!self.dep_ok(d@[j as int]));
                            assert(!self.deps_table_ok(d@));
                            return Some(ManifestError::NotAString(d[j].key.clone()));
                        }
                        j = j + 1;
                    }
                    None
                },
                _ => Some(ManifestError::WrongShape(k.to_owned())),
            }
        }
    }

    /// The dependency entry `e` after the pass.
    fn rewrite_dep(&self, e: Entry) -> (r: Entry)
        requires
            self.dep_ok(e),
        ensures
            self.dep_rewritten(e, r),
    {
        let (rewrite, _) = self.dep_status(&e);
        if !rewrite {
            return e;
        }
        let Entry { key, value } = e;
        match value {
            Value::Table(t) => {
                let mut t = t;
                let ghost t0 = t@;
                match find_key(&t, PATH) {
                    Some(i) => {
                        let old_path = replace_value(&mut t, i, Value::Bool(false));
                        let q = match &old_path {
                            Value::Str(p) => self.absolute(p.as_str()),
                            _ => String::new(),
                        };
                        let _ = replace_value(&mut t, i, Value::Str(q));
                        Entry { key, value: Value::Table(t) }
                    },
                    None => Entry { key, value: Value::Table(t) },
                }
            },
            _ => Entry { key, value },
        }
    }

    /// The section `v` under `k` after the pass.
    fn rewrite_section(&self, k: &str, v: Value) -> (r: Value)
        requires
            self.section_ok(k@, Some(v)),
        ensures
            k@ == crate::manifest::LIB@ ==> entry_point_rewritten(self.windows, self.manifest_dir@, v, r, DEFAULT_LIB_PATH@),
            k@ == BIN@ ==> self.bins_rewritten(v, r),
            k@ != crate::manifest::LIB@ && k@ != BIN@ ==> self.deps_rewritten(v, r),
    {
        proof {
            lemma_section_keys_distinct();
        }
        if str_eq(k, crate::manifest::LIB) {
            return self.rewrite_entry_point(v, DEFAULT_LIB_PATH);
        }
        let is_bin = str_eq(k, BIN);
        match v {
            Value::Array(a) => {
                if !is_bin {
                    return Value::Array(a);
                }
                let ghost a0 = a@;
                let mut a = a;
                let mut out: Vec<Value> = Vec::new();
                while a.len() > 0
                    invariant
                        out@.len() + a@.len() == a0.len(),
                        a@ == a0.skip(out@.len() as int),
                        is_bin,
                        forall|j: int| 0 <= j < a0.len() ==> entry_point_error(#[trigger] a0[j], self.bin_default_exists) is None,
                        forall|j: int| 0 <= j < out@.len() ==> entry_point_rewritten(self.windows, self.manifest_dir@, #[trigger] a0[j], out@[j], DEFAULT_BIN_PATH@),
                    decreases a@.len(),
                {
                    let ghost m = out@.len() as int;
                    let x = a.remove(0);
                    assert(x == a0[m]);
                    assert(a@ =~= a0.skip(m + 1));
                    let y = self.rewrite_entry_point(x, DEFAULT_BIN_PATH);
                    out.push(y);
                }
                Value::Array(out)
            },
            Value::Table(d) => {
                if is_bin {
                    return Value::Table(d);
                }
                let ghost d0 = d@;
                let mut d = d;
                let mut out: Vec<Entry> = Vec::new();
                while d.len() > 0
                    invariant
                        out@.len() + d@.len() == d0.len(),
                        d@ == d0.skip(out@.len() as int),
                        !is_bin,
                        forall|j: int| 0 <= j < d0.len() ==> self.dep_ok(#[trigger] d0[j]),
                        forall|j: int| 0 <= j < out@.len() ==> self.dep_rewritten(#[trigger] d0[j], out@[j]),
                    decreases d@.len(),
                {
                    let ghost m = out@.len() as int;
                    let x = d.remove(0);
                    assert(x == d0[m]);
                    assert(d@ =~= d0.skip(m + 1));
                    let y = self.rewrite_dep(x);
                    out.push(y);
                }
                Value::Table(out)
            },
            _ => v,
        }
    }

    /// Whether the section under `k` of `doc` is absent or can be rewritten.
    fn key_check(&self, doc: &Vec<Entry>, k: &str) -> (r: Option<ManifestError>)
        ensures
            r is None == self.section_ok(k@, lookup(doc@, k@)),
            match self.section_error(k@, lookup(doc@, k@)) {
                None => r is None,
                Some(e) => r matches Some(f) && same_kind(e, f),
            },
    {
        match find_key(doc, k) {
            None => None,
            Some(i) => self.section_check(k, &doc[i].value),
        }
    }

    /// Rewrites the section under `k` of `doc`, where present.
    fn rewrite_key(&self, doc: &mut Vec<Entry>, k: &str)
        requires
            self.section_ok(k@, lookup(old(doc)@, k@)),
        ensures
            same_except(old(doc)@, final(doc)@, k@),
            self.section_rewritten(old(doc)@, final(doc)@, k@),
    {
        proof {
            lemma_section_keys_distinct();
        }
        match find_key(doc, k) {
            None => {},
            Some(i) => {
                let v = replace_value(doc, i, Value::Bool(false));
                let v2 = self.rewrite_section(k, v);
                let _ = replace_value(doc, i, v2);
            },
        }
    }

    /// Anchors the relative paths of `doc` at the manifest's directory: the
    /// library's entry point, each binary's, and the path of each dependency
    /// and development dependency that is not excluded. A missing entry point
    /// is set to the anchored default. Where some section cannot be
    /// rewritten, `doc` is left as it is.
    pub fn rewrite_relative_paths(&self, doc: &mut Vec<Entry>) -> (r: Result<(), ManifestError>)
        ensures
            r is Ok <==> self.pass_ok(old(doc)@),
            r is Ok ==> self.rewritten(old(doc)@, final(doc)@),
            r is Err ==> final(doc)@ == old(doc)@,
            r is Err ==> (self.first_pass_error(old(doc)@) matches Some(e) && same_kind(e, r->Err_0)),
    {
        proof {
            lemma_section_keys_distinct();
        }
        let keys = [crate::manifest::LIB, BIN, DEPENDENCIES, DEV_DEPENDENCIES];
        let mut j: usize = 0;
        while j < 4
            invariant
                0 <= j <= 4,
                keys@ == seq![crate::manifest::LIB, BIN, DEPENDENCIES, DEV_DEPENDENCIES],
                doc@ == old(doc)@,
                forall|i: int| 0 <= i < j ==> self.section_ok(#[trigger] keys@[i]@, lookup(doc@, keys@[i]@)),
                forall|i: int| 0 <= i < j ==> (#[trigger] self.section_error(keys@[i]@, lookup(doc@, keys@[i]@))) is None,
            decreases 4 - j,
        {
            match self.key_check(doc, keys[j]) {
                Some(e) => {
                    assert(self.section_error(keys@[0]@, lookup(doc@, keys@[0]@)) is None || j == 0);
                    assert(self.section_error(keys@[1]@, lookup(doc@, keys@[1]@)) is None || j <= 1);
                    assert(self.section_error(keys@[2]@, lookup(doc@, keys@[2]@)) is None || j <= 2);
                    return Err(e);
                },
                None => {},
            }
            j = j + 1;
        }
        assert(self.section_ok(keys@[0]@, lookup(doc@, keys@[0]@)));
        assert(self.section_ok(keys@[1]@, lookup(doc@, keys@[1]@)));
        assert(self.section_ok(keys@[2]@, lookup(doc@, keys@[2]@)));
        assert(self.section_ok(keys@[3]@, lookup(doc@, keys@[3]@)));
        let ghost d0 = doc@;
        self.rewrite_key(doc, crate::manifest::LIB);
        let ghost d1 = doc@;
        self.rewrite_key(doc, BIN);
        let ghost d2 = doc@;
        self.rewrite_key(doc, DEPENDENCIES);
        let ghost d3 = doc@;
        self.rewrite_key(doc, DEV_DEPENDENCIES);
        assert(lookup(d3, crate::manifest::LIB@) == lookup(d1, crate::manifest::LIB@));
        assert(lookup(d3, BIN@) == lookup(d2, BIN@));
        assert(lookup(doc@, crate::manifest::LIB@) == lookup(d1, crate::manifest::LIB@));
        assert(lookup(doc@, BIN@) == lookup(d2, BIN@));
        assert(lookup(doc@, DEPENDENCIES@) == lookup(d3, DEPENDENCIES@));
        Ok(())
    }
}

} // verus!
