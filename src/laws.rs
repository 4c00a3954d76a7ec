//! Properties that hold across the operations of a manifest.
use vstd::prelude::*;
use crate::manifest::{
    LEGACY_METADATA_PACKAGE_PATH, METADATA_PACKAGE_PATH, appended_str, kind_added, lint_library_added, lists_lint_library, members_registered,
    is_lint_library,
    merged, without,
};
use crate::path::{anchored, backslashed, is_absolute, is_absolute_windows};
use crate::rewrite::{PathRewrite, dep_name};
use crate::value::{Entry, Value, has_str, is_str, lookup};

verus! {

/// Adding an output kind twice leaves the list as adding it once does.
pub proof fn law_add_kind_idempotent(a: Seq<Value>, b: Seq<Value>, c: Seq<Value>, k: Seq<char>)
    requires
        kind_added(a, b, k),
        kind_added(b, c, k),
    ensures
        c == b,
{
    if !has_str(a, k) {
        assert(is_str(b[b.len() - 1], k));
    }
}

/// Removing an output kind that the list lacks leaves the list as it is.
pub proof fn law_remove_absent_kind(s: Seq<Value>, k: Seq<char>)
    requires
        !has_str(s, k),
    ensures
        without(s, k) == s,
    decreases s.len(),
{
    if s.len() > 0 {
        assert(!is_str(s[s.len() - 1], k));
        assert forall|i: int| 0 <= i < s.drop_last().len() implies !#[trigger] is_str(s.drop_last()[i], k) by {
            assert(s.drop_last()[i] == s[i]);
        }
        law_remove_absent_kind(s.drop_last(), k);
        assert(s.drop_last().push(s.last()) =~= s);
    }
}

/// After removal no element of the list is the removed kind, however many
/// there were.
pub proof fn law_remove_kind_leaves_none(s: Seq<Value>, k: Seq<char>)
    ensures
        !has_str(without(s, k), k),
    decreases s.len(),
{
    if s.len() > 0 {
        law_remove_kind_leaves_none(s.drop_last(), k);
        let r = without(s.drop_last(), k);
        if !is_str(s.last(), k) {
            assert forall|i: int| 0 <= i < r.push(s.last()).len() implies !#[trigger] is_str(r.push(s.last())[i], k) by {
                if i < r.len() {
                    assert(r.push(s.last())[i] == r[i]);
                }
            }
        }
    }
}

/// Merging defaults into the release profile keeps every setting it has and
/// adds each one it lacks.
pub proof fn law_release_defaults_keep_existing(old: Seq<Entry>, defaults: Seq<Entry>, new: Seq<Entry>, k: Seq<char>)
    requires
        merged(old, defaults, new),
    ensures
        lookup(old, k) is Some ==> lookup(new, k) == lookup(old, k),
        lookup(old, k) is None ==> lookup(new, k) == lookup(defaults, k),
{
    assert(lookup(new, k) == if lookup(old, k) is Some {
        lookup(old, k)
    } else {
        lookup(defaults, k)
    });
}

/// Anchoring a path that is already absolute leaves it as it is.
pub proof fn law_absolute_path_unchanged(dir: Seq<char>, p: Seq<char>)
    ensures
        is_absolute(p) ==> anchored(false, dir, p) == p,
        is_absolute_windows(backslashed(p)) ==> anchored(true, dir, p) == p,
{
}

/// The pass leaves an excluded dependency as it is, and anchors the path of
/// one that is not excluded.
pub proof fn law_dependency_exclusion(rw: PathRewrite, e: Entry, e2: Entry)
    requires
        rw.dep_rewritten(e, e2),
    ensures
        rw.excludes(dep_name(e)) ==> e2 == e && rw.dep_path(e) is None,
        rw.dep_path(e) matches Some(Value::Str(p)) ==> {
            &&& e2.key == e.key
            &&& e2.value matches Value::Table(t2) && lookup(t2@, crate::rewrite::PATH@) matches Some(Value::Str(q))
                && q@ == anchored(rw.windows, rw.manifest_dir@, p@)
        },
{
}

/// Registering the metadata package adds no member where the legacy package
/// or the package itself is listed, and exactly the package otherwise.
pub proof fn law_registration_dedup(old: Seq<Value>, new: Seq<Value>)
    requires
        members_registered(old, new),
    ensures
        has_str(old, LEGACY_METADATA_PACKAGE_PATH@) ==> new.len() == old.len() && new == old,
        !has_str(old, LEGACY_METADATA_PACKAGE_PATH@) && !has_str(old, METADATA_PACKAGE_PATH@) ==> new.len()
            == old.len() + 1 && new.drop_last() == old && is_str(new.last(), METADATA_PACKAGE_PATH@),
{
}

/// Registering the metadata package twice leaves the members as registering
/// it once does.
pub proof fn law_registration_idempotent(a: Seq<Value>, b: Seq<Value>, c: Seq<Value>)
    requires
        members_registered(a, b),
        members_registered(b, c),
    ensures
        c == b,
{
    if !has_str(a, LEGACY_METADATA_PACKAGE_PATH@) && !has_str(a, METADATA_PACKAGE_PATH@) {
        assert(is_str(b[b.len() - 1], METADATA_PACKAGE_PATH@));
    }
}

/// Adding the lint library twice leaves the list as adding it once does.
pub proof fn law_lint_library_idempotent(a: Seq<Value>, b: Seq<Value>, c: Seq<Value>)
    requires
        lint_library_added(a, b),
        lint_library_added(b, c),
    ensures
        c == b,
{
    if !lists_lint_library(a) {
        assert(is_lint_library(b[b.len() - 1]));
    }
}

} // verus!
