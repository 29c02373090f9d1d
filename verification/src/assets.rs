//! An asset cache that loads each asset once and hands out shared references
//! to it for as long as something else still holds it.
use std::sync::Arc;
use vstd::hash_map::StringHashMap;
use vstd::prelude::*;

verus! {

/// Loads assets of one type from a location on disc.
pub trait AssetLoader<AssetType: 'static> {
    /// Whether `asset` is what this loader can give for `path`. What is on
    /// disc may change between calls, so this names no single asset.
    spec fn loads(&self, path: String, asset: AssetType) -> bool;

    /// Load an asset from a given location on disc.
    fn load_asset(&self, path: &String) -> (asset: AssetType)
        ensures
            self.loads(*path, asset),
    ;
}

/// Another reference to the asset that `asset` points to.
///
/// Calls `Arc::clone`, which makes a new pointer to the same allocation, so
/// the value seen through it is the same.
#[verifier::external_body]
fn share<AssetType>(asset: &Arc<AssetType>) -> (shared: Arc<AssetType>)
    ensures
        shared == *asset,
{
    Arc::clone(asset)
}

/// The number of references to the asset that `asset` points to.
///
/// Calls `Arc::strong_count`. The count depends on the references held
/// elsewhere in the program; only that `asset` itself is one of them is
/// stated.
#[verifier::external_body]
fn reference_count<AssetType>(asset: &Arc<AssetType>) -> (count: usize)
    ensures
        count >= 1,
{
    Arc::strong_count(asset)
}

/// Manages assets of one type: the loader registered for the type, and the
/// assets loaded so far by path.
///
/// The cache holds one reference to each asset it loaded; an asset counts as
/// released once the cache's reference is the only one left, and the next
/// request for its path loads it again. A released asset stays in memory
/// until then: the cache keeps a strong reference, not a weak one.
#[verifier::reject_recursive_types(AssetType)]
pub struct AssetManager<AssetType: 'static> {
    asset_loader: Option<Box<dyn AssetLoader<AssetType>>>,
    loaded_assets: StringHashMap<Arc<AssetType>>,
}

impl<AssetType: 'static> AssetManager<AssetType> {
    /// Whether a loader is registered.
    pub closed spec fn has_loader(&self) -> bool {
        self.asset_loader is Some
    }

    /// The registered loader, if any.
    pub closed spec fn loader(&self) -> Option<Box<dyn AssetLoader<AssetType>>> {
        self.asset_loader
    }

    /// The cached asset of each path loaded so far.
    pub closed spec fn cache(&self) -> Map<Seq<char>, AssetType> {
        self.loaded_assets@.map_values(|a: Arc<AssetType>| *a)
    }

    /// No loader and nothing cached.
    pub fn new() -> (am: Self)
        ensures
            !am.has_loader(),
            am.cache() == Map::<Seq<char>, AssetType>::empty(),
    {
        let am = AssetManager { asset_loader: None, loaded_assets: StringHashMap::new() };
        assert(am.cache() =~= Map::<Seq<char>, AssetType>::empty());
        am
    }

    /// Registers the loader for the asset type; a loader registered before
    /// stays, and the new one is dropped.
    pub fn register(&mut self, loader: Box<dyn AssetLoader<AssetType>>)
        ensures
            final(self).has_loader(),
            old(self).has_loader() ==> final(self).loader() == old(self).loader(),
            final(self).cache() == old(self).cache(),
    {
        if self.asset_loader.is_none() {
            self.asset_loader = Some(loader);
        }
    }

    /// Returns the cached asset of `path` when `cached_in_use` says that
    /// something besides the cache still holds it; otherwise loads the asset
    /// with the registered loader, caches it under `path` and returns it.
    pub fn lookup_or_load(&mut self, path: String, cached_in_use: bool) -> (asset: Arc<AssetType>)
        requires
            old(self).has_loader(),
        ensures
            final(self).loader() == old(self).loader(),
            old(self).cache().contains_key(path@) && cached_in_use ==> {
                &&& *asset == old(self).cache()[path@]
                &&& final(self).cache() == old(self).cache()
            },
            !(old(self).cache().contains_key(path@) && cached_in_use) ==> {
                &&& old(self).loader().unwrap().loads(path, *asset)
                &&& final(self).cache() == old(self).cache().insert(path@, *asset)
            },
    {
        if cached_in_use {
            match self.loaded_assets.get(path.as_str()) {
                Some(asset) => {
                    return share(asset);
                },
                None => {},
            }
        }
        let loaded: AssetType = self.asset_loader.as_ref().unwrap().load_asset(&path);
        let asset = Arc::new(loaded);
        self.loaded_assets.insert(path, share(&asset));
        proof {
            assert(self.cache() =~= old(self).cache().insert(path@, *asset));
        }
        asset
    }

    /// Returns the cached asset of `path` if something besides the cache
    /// still holds it; otherwise loads it with the registered loader and
    /// caches it.
    pub fn get_asset(&mut self, path: String) -> (asset: Arc<AssetType>)
        requires
            old(self).has_loader(),
        ensures
            final(self).loader() == old(self).loader(),
            (old(self).cache().contains_key(path@) && *asset == old(self).cache()[path@]
                && final(self).cache() == old(self).cache()) || (old(
                self,
            ).loader().unwrap().loads(path, *asset) && final(self).cache() == old(
                self,
            ).cache().insert(path@, *asset)),
            !old(self).cache().contains_key(path@) ==> {
                &&& old(self).loader().unwrap().loads(path, *asset)
                &&& final(self).cache() == old(self).cache().insert(path@, *asset)
            },
    {
        let cached_in_use = match self.loaded_assets.get(path.as_str()) {
            Some(asset) => reference_count(asset) > 1,
            None => false,
        };
        self.lookup_or_load(path, cached_in_use)
    }
}

} // verus!
