//! The resource registry: named assets a project compiles in or points at.
//!
//! An asset is either a byte blob held in memory or the path of a file on
//! disk.  The registry itself is plain data; reading a `Dynamic` entry's
//! file is the host layer's work.

use vstd::prelude::*;

use crate::shader::{chars_string, str_chars};

verus! {

/// One registered asset: bytes held directly, or the path of the file
/// holding them.
#[derive(Clone, Debug)]
pub enum ResourceType {
    Static(Vec<u8>),
    Dynamic(String),
}

/// Mathematical view of a [`ResourceType`].
pub enum ResourceTypeModel {
    Static(Seq<u8>),
    Dynamic(Seq<char>),
}

impl View for ResourceType {
    type V = ResourceTypeModel;

    open spec fn view(&self) -> ResourceTypeModel {
        match self {
            ResourceType::Static(bytes) => ResourceTypeModel::Static(bytes@),
            ResourceType::Dynamic(path) => ResourceTypeModel::Dynamic(path@),
        }
    }
}

/// The registry: resource paths and their assets, looked up front to back.
pub struct ResourceMap {
    pub entries: Vec<(String, ResourceType)>,
}

/// A path with every backslash replaced by a forward slash, so both
/// spellings name the same asset.
pub open spec fn spec_normalized(path: Seq<char>) -> Seq<char> {
    Seq::new(
        path.len(),
        |i: int|
            if path[i] == '\\' {
                '/'
            } else {
                path[i]
            },
    )
}

/// The asset registered under a path, if any: the first entry whose key
/// matches.
pub open spec fn spec_lookup(entries: Seq<(String, ResourceType)>, key: Seq<char>) -> Option<
    ResourceTypeModel,
>
    decreases entries.len(),
{
    if entries.len() == 0 {
        None
    } else if entries[0].0@ == key {
        Some(entries[0].1@)
    } else {
        spec_lookup(entries.drop_first(), key)
    }
}

/// Replaces every backslash in a path with a forward slash.
pub fn normalize_path(path: &str) -> (r: String)
    ensures
        r@ == spec_normalized(path@),
{
    let chars = str_chars(path);
    let mut out: Vec<char> = Vec::new();
    let mut i: usize = 0;
    while i < chars.len()
        invariant
            i <= chars@.len(),
            chars@ == path@,
            out@.len() == i,
            forall|j: int| 0 <= j < i ==> out@[j] == spec_normalized(path@)[j],
        decreases chars@.len() - i,
    {
        let c = chars[i];
        if c == '\\' {
            out.push('/');
        } else {
            out.push(c);
        }
        i = i + 1;
    }
    let r = chars_string(&out);
    assert(r@ =~= spec_normalized(path@));
    r
}

/// Finds the asset registered under a path, with backslashes in the path
/// normalized first.  Returns the first matching entry, or nothing when
/// the path is not registered.
pub fn lookup_resource<'a>(map: &'a ResourceMap, path: &str) -> (r: Option<&'a ResourceType>)
    ensures
        match r {
            Some(t) => spec_lookup(map.entries@, spec_normalized(path@)) == Some(t@),
            None => spec_lookup(map.entries@, spec_normalized(path@)) is None,
        },
{
    let key = normalize_path(path);
    let ghost keyv = spec_normalized(path@);
    proof {
        assert(map.entries@.skip(0) =~= map.entries@);
    }
    let mut i: usize = 0;
    while i < map.entries.len()
        invariant
            i <= map.entries@.len(),
            keyv == spec_normalized(path@),
            key@ == keyv,
            spec_lookup(map.entries@, keyv) == spec_lookup(map.entries@.skip(i as int), keyv),
        decreases map.entries@.len() - i,
    {
        proof {
            assert(map.entries@.skip(i as int).drop_first() =~= map.entries@.skip(i + 1));
            assert(map.entries@.skip(i as int)[0] == map.entries@[i as int]);
        }
        if map.entries[i].0.eq(&key) {
            return Some(&map.entries[i].1);
        }
        i = i + 1;
    }
    None
}

} // verus!
