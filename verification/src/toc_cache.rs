//! Where the tables of contents of a Crazyflie are cached on disk.
use crate::text::{hex, hex_digit_value, hex_injective, hex_reads_back, is_hex_digit, push_hex};
use vstd::prelude::*;

verus! {

/// The directory that the cache directory stands under.
#[derive(Clone, Copy, Debug, PartialEq, Eq, Structural)]
pub enum CacheRoot {
    /// The user's cache directory.
    UserCache,
    /// The current directory, where the user has no cache directory.
    CurrentDir,
}

/// A cache that keeps one file for every key.
#[derive(Clone, Debug)]
pub struct FileTocCache {
    pub root: CacheRoot,
    /// The directories below the root, outermost first.
    pub cache_dir: Vec<String>,
}

/// The texts of a list of path components.
pub open spec fn components(path: Seq<String>) -> Seq<Seq<char>> {
    path.map_values(|s: String| s@)
}

/// The name of the file that caches the table of contents of `key`.
pub open spec fn toc_file_name(key: Seq<u8>) -> Seq<char> {
    hex(key) + ".json"@
}

impl FileTocCache {
    /// A cache under the user's cache directory if there is one, else under the
    /// current directory.
    pub fn new(user_cache: bool) -> (r: Self)
        ensures
            r.root == (if user_cache {
                CacheRoot::UserCache
            } else {
                CacheRoot::CurrentDir
            }),
            components(r.cache_dir@) == seq!["loco-lh-alignment-tool"@, "toc_cache"@],
    {
        let mut cache_dir: Vec<String> = Vec::new();
        cache_dir.push("loco-lh-alignment-tool".to_owned());
        cache_dir.push("toc_cache".to_owned());
        assert(components(cache_dir@) =~= seq!["loco-lh-alignment-tool"@, "toc_cache"@]);
        FileTocCache {
            root: if user_cache {
                CacheRoot::UserCache
            } else {
                CacheRoot::CurrentDir
            },
            cache_dir,
        }
    }

    /// The path, below the root, of the file that caches `key`: the cache
    /// directory and a file named by the key in hexadecimal.
    pub fn path_for(&self, key: &[u8]) -> (r: Vec<String>)
        ensures
            components(r@) == components(self.cache_dir@).push(toc_file_name(key@)),
    {
        let mut path: Vec<String> = Vec::new();
        let mut i: usize = 0;
        while i < self.cache_dir.len()
            invariant
                i <= self.cache_dir@.len(),
                components(path@) == components(self.cache_dir@).take(i as int),
            decreases self.cache_dir.len() - i,
        {
            let ghost shorter = path@;
            path.push(self.cache_dir[i].clone());
            assert(components(path@) =~= components(shorter).push(self.cache_dir@[i as int]@));
            assert(components(self.cache_dir@).take(i + 1) =~= components(self.cache_dir@).take(
                i as int,
            ).push(self.cache_dir@[i as int]@));
            i += 1;
        }
        assert(components(self.cache_dir@).take(i as int) =~= components(self.cache_dir@));
        let mut name = String::new();
        push_hex(&mut name, key);
        name.append(".json");
        let ghost dirs = path@;
        path.push(name);
        assert(name@ =~= toc_file_name(key@));
        assert(components(path@) =~= components(dirs).push(toc_file_name(key@)));
        path
    }
}

/// Different keys are cached in different files.
pub proof fn distinct_keys_have_distinct_paths(
    cache_dir: Seq<Seq<char>>,
    a: Seq<u8>,
    b: Seq<u8>,
)
    requires
        cache_dir.push(toc_file_name(a)) == cache_dir.push(toc_file_name(b)),
    ensures
        a == b,
{
    let n: int = cache_dir.len() as int;
    assert(cache_dir.push(toc_file_name(a))[n] == cache_dir.push(toc_file_name(b))[n]);
    assert(toc_file_name(a).len() == hex(a).len() + ".json"@.len());
    assert(toc_file_name(b).len() == hex(b).len() + ".json"@.len());
    assert(hex(a) =~= toc_file_name(a).take(hex(a).len() as int));
    assert(hex(b) =~= toc_file_name(b).take(hex(b).len() as int));
    hex_injective(a, b);
}

/// The path of a key leads through the cache directory to a file of its own: its
/// name ends in ".json", and every byte of the key reads back from it.
pub proof fn key_reads_back_from_its_path(
    cache: &FileTocCache,
    key: &[u8],
    r: Vec<String>,
    i: int,
)
    requires
        call_ensures(FileTocCache::path_for, (cache, key), r),
    ensures
        r@.len() == cache.cache_dir@.len() + 1,
        forall|k: int|
            0 <= k < cache.cache_dir@.len() ==> (#[trigger] r@[k])@ == cache.cache_dir@[k]@,
        ({
            let name = r@.last()@;
            let digits = name.take(2 * key@.len() as int);
            &&& name == digits + ".json"@
            &&& 0 <= i < key@.len() ==> {
                &&& is_hex_digit(name[2 * i])
                &&& is_hex_digit(name[2 * i + 1])
                &&& hex_digit_value(name[2 * i]) * 16 + hex_digit_value(name[2 * i + 1]) == key@[i]
            }
        }),
{
    if 0 <= i < key@.len() {
        hex_reads_back(key@, i);
    }
    let dirs = components(cache.cache_dir@);
    let path = components(r@);
    assert(path == dirs.push(toc_file_name(key@)));
    assert(r@.len() == path.len());
    assert forall|k: int| 0 <= k < cache.cache_dir@.len() implies (#[trigger] r@[k])@
        == cache.cache_dir@[k]@ by {
        assert(path[k] == dirs[k]);
    }
    let name = r@.last()@;
    assert(path[path.len() - 1] == name);
    assert(name == hex(key@) + ".json"@);
    assert(name.take(2 * key@.len() as int) =~= hex(key@));
}

/// A cache stands below the user's cache directory if there is one, in two
/// directories of its own.
pub proof fn cache_has_its_own_directory(user_cache: bool, r: FileTocCache)
    requires
        call_ensures(FileTocCache::new, (user_cache,), r),
    ensures
        r.root is UserCache <==> user_cache,
        r.cache_dir@.len() == 2,
        r.cache_dir@[0]@ == "loco-lh-alignment-tool"@,
        r.cache_dir@[1]@ == "toc_cache"@,
{
    let path = components(r.cache_dir@);
    assert(path.len() == r.cache_dir@.len());
    assert(path[0] == r.cache_dir@[0]@);
    assert(path[1] == r.cache_dir@[1]@);
}

} // verus!
