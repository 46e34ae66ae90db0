//! Stateless predicates over surfaced entries, meant to narrow a walk's
//! stream downstream of the walker (`iter.filter(|e| files(e))`).

use vstd::prelude::*;
use crate::entry::{Entry, FileKind};
use crate::pattern::{Pattern, wildcard_match};

verus! {

/// The entry is known to be a regular file.
pub open spec fn spec_files(e: Entry) -> bool {
    e.kind == Some(FileKind::File)
}

/// The entry is known to be a directory.
pub open spec fn spec_dirs(e: Entry) -> bool {
    e.kind == Some(FileKind::Dir)
}

/// The entry is known to be a symbolic link.
pub open spec fn spec_symlink(e: Entry) -> bool {
    e.kind == Some(FileKind::Symlink)
}

/// The entry's name is matched by the pattern.
pub open spec fn spec_includes(p: Seq<u8>, e: Entry) -> bool {
    wildcard_match(p, e.name@)
}

/// The entry's name is not matched by the pattern.
pub open spec fn spec_exclude(p: Seq<u8>, e: Entry) -> bool {
    !wildcard_match(p, e.name@)
}

/// Keeps regular files; an entry whose kind is unknown is dropped.
pub fn files(entry: &Entry) -> (r: bool)
    ensures
        r == spec_files(*entry),
{
    match entry.kind {
        Some(FileKind::File) => true,
        _ => false,
    }
}

/// Keeps directories; an entry whose kind is unknown is dropped.
pub fn dirs(entry: &Entry) -> (r: bool)
    ensures
        r == spec_dirs(*entry),
{
    match entry.kind {
        Some(FileKind::Dir) => true,
        _ => false,
    }
}

/// Keeps symbolic links; an entry whose kind is unknown is dropped.
pub fn symlink(entry: &Entry) -> (r: bool)
    ensures
        r == spec_symlink(*entry),
{
    match entry.kind {
        Some(FileKind::Symlink) => true,
        _ => false,
    }
}

/// Keeps the entries whose name the pattern matches.
pub fn includes(pattern: &Pattern, entry: &Entry) -> (r: bool)
    ensures
        r == spec_includes(pattern@, *entry),
{
    pattern.is_match(entry.name.as_slice())
}

/// Keeps the entries whose name the pattern does not match.
pub fn exclude(pattern: &Pattern, entry: &Entry) -> (r: bool)
    ensures
        r == spec_exclude(pattern@, *entry),
{
    !pattern.is_match(entry.name.as_slice())
}

/// The kind filters split the entries whose kind is known: each such entry
/// is kept by exactly one of `files`, `dirs` and `symlink`.
pub proof fn lemma_kind_filters_partition(e: Entry)
    requires
        e.kind is Some,
    ensures
        spec_files(e) || spec_dirs(e) || spec_symlink(e),
        !(spec_files(e) && spec_dirs(e)),
        !(spec_files(e) && spec_symlink(e)),
        !(spec_dirs(e) && spec_symlink(e)),
{
    match e.kind {
        Some(FileKind::File) => {},
        Some(FileKind::Dir) => {},
        Some(FileKind::Symlink) => {},
        None => {},
    }
}

/// An entry whose kind is unknown is kept by none of the kind filters.
pub proof fn lemma_kind_filters_drop_unknown(e: Entry)
    requires
        e.kind is None,
    ensures
        !spec_files(e) && !spec_dirs(e) && !spec_symlink(e),
{
}

/// For every pattern and entry, `exclude` keeps exactly what `includes` drops.
pub proof fn lemma_name_filters_complementary(p: Seq<u8>, e: Entry)
    ensures
        spec_includes(p, e) == !spec_exclude(p, e),
{
}

/// An entry known to be a regular file is kept by `files` and by neither
/// `dirs` nor `symlink`.
pub proof fn lemma_file_kept_by_files_only(e: Entry)
    requires
        e.kind == Some(FileKind::File),
    ensures
        spec_files(e),
        !spec_dirs(e),
        !spec_symlink(e),
{
}

} // verus!
