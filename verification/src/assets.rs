//! Asset forge: the index of a project's game assets (images, audio, fonts,
//! tilemaps, animations, scripts).
//!
//! Phase 1 keeps the index in memory; an asset is registered under its id,
//! a second registration with the same id replaces the first.

use crate::clock::Timestamp;
use crate::json::JsonValue;
use crate::table::{
    Table,
    keys_match,
    lemma_del_keys_match,
    lemma_put_keys_match,
    values_of,
};
use crate::text::{decimal, u64_to_decimal};
use vstd::prelude::*;

verus! {

/// The kind of an asset.
#[derive(Debug, Clone, PartialEq, Eq)]
pub enum AssetType {
    Image,
    Audio,
    Font,
    Tilemap,
    Animation,
    Script,
    Other(String),
}

/// An asset's metadata.
#[derive(Debug)]
pub struct Asset {
    pub id: String,
    pub project_id: String,
    pub name: String,
    pub asset_type: AssetType,
    pub url: String,
    pub size: u64,
    pub created_at: Timestamp,
    pub metadata: JsonValue,
}

/// Why an asset operation failed.
#[derive(Debug)]
pub enum AssetError {
    NotFound(String),
    InvalidType(String),
    Storage(String),
    TooLarge { size: u64, max: u64 },
}

impl AssetError {
    /// The text that describes the error.
    pub open spec fn spec_message(&self) -> Seq<char> {
        match self {
            AssetError::NotFound(id) => "asset not found: "@ + id@,
            AssetError::InvalidType(t) => "invalid asset type: "@ + t@,
            AssetError::Storage(m) => "storage error: "@ + m@,
            AssetError::TooLarge { size, max } => "asset too large: "@ + decimal(*size as nat)
                + " bytes (max "@ + decimal(*max as nat) + ")"@,
        }
    }

    /// The text that describes the error.
    pub fn message(&self) -> (s: String)
        ensures
            s@ == self.spec_message(),
    {
        match self {
            AssetError::NotFound(id) => String::from_str("asset not found: ").concat(id.as_str()),
            AssetError::InvalidType(t) => String::from_str("invalid asset type: ").concat(t.as_str()),
            AssetError::Storage(m) => String::from_str("storage error: ").concat(m.as_str()),
            AssetError::TooLarge { size, max } => {
                let a = u64_to_decimal(*size);
                let b = u64_to_decimal(*max);
                String::from_str("asset too large: ").concat(a.as_str()).concat(" bytes (max ").concat(
                    b.as_str(),
                ).concat(")")
            },
        }
    }
}

/// The id an asset is indexed by.
pub open spec fn asset_key(a: Asset) -> Seq<char> {
    a.id@
}

/// The asset index.
pub struct AssetStore {
    assets: Table<Asset>,
    base_path: String,
}

impl AssetStore {
    /// The assets by id.
    pub closed spec fn assets(&self) -> Map<Seq<char>, Asset> {
        self.assets@
    }

    /// The assets in registration order.
    pub closed spec fn asset_list(&self) -> Seq<Asset> {
        values_of(self.assets.pairs())
    }

    /// Where the assets' files are kept.
    pub closed spec fn base_path(&self) -> Seq<char> {
        self.base_path@
    }

    /// The index is well formed: every asset is kept under its own id.
    pub closed spec fn wf(&self) -> bool {
        &&& self.assets.wf()
        &&& keys_match(self.assets.pairs(), |a: Asset| asset_key(a))
    }

    /// An empty index for files under `base_path`.
    pub fn new(base_path: &str) -> (s: Self)
        ensures
            s.wf(),
            s.assets() == Map::<Seq<char>, Asset>::empty(),
            s.asset_list() == Seq::<Asset>::empty(),
            s.base_path() == base_path@,
    {
        let s = AssetStore { assets: Table::new(), base_path: String::from_str(base_path) };
        assert(s.asset_list() =~= Seq::<Asset>::empty());
        s
    }

    /// Registers an asset under its id, replacing an asset with the same id.
    pub fn register(&mut self, asset: Asset) -> (r: Result<(), AssetError>)
        requires
            old(self).wf(),
        ensures
            final(self).wf(),
            r is Ok,
            final(self).assets() == old(self).assets().insert(asset.id@, asset),
            final(self).base_path() == old(self).base_path(),
    {
        let ghost s = self.assets.pairs();
        let key = asset.id.clone();
        proof {
            lemma_put_keys_match(s, key@, asset, |a: Asset| asset_key(a));
        }
        self.assets.insert(key, asset);
        Ok(())
    }

    /// The asset `id`; `NotFound(id)` when there is none.
    pub fn get(&self, id: &str) -> (r: Result<&Asset, AssetError>)
        requires
            self.wf(),
        ensures
            match r {
                Ok(a) => self.assets().contains_key(id@) && *a == self.assets()[id@],
                Err(e) => !self.assets().contains_key(id@) && (e matches AssetError::NotFound(n)
                    && n@ == id@),
            },
    {
        match self.assets.get(id) {
            Some(a) => Ok(a),
            None => Err(AssetError::NotFound(String::from_str(id))),
        }
    }

    /// The assets of project `project_id`, in registration order.
    pub fn list_by_project(&self, project_id: &str) -> (r: Vec<&Asset>)
        requires
            self.wf(),
        ensures
            r@.map_values(|a: &Asset| *a) == self.asset_list().filter(
                |a: Asset| a.project_id@ == project_id@,
            ),
    {
        let ghost all = self.asset_list();
        let ghost pred = |a: Asset| a.project_id@ == project_id@;
        let mut out: Vec<&Asset> = Vec::new();
        let mut i: usize = 0;
        assert(all.take(0).filter(pred) =~= Seq::<Asset>::empty()) by {
            reveal(Seq::filter);
        }
        while i < self.assets.len()
            invariant
                i <= all.len(),
                all == self.asset_list(),
                all.len() == self.assets.pairs().len(),
                pred == (|a: Asset| a.project_id@ == project_id@),
                out@.map_values(|a: &Asset| *a) == all.take(i as int).filter(pred),
            decreases all.len() - i,
        {
            let a = self.assets.value_at(i);
            let ghost before = out@.map_values(|a: &Asset| *a);
            assert(all[i as int] == *a);
            assert(all.take(i + 1) =~= all.take(i as int).push(*a));
            proof {
                all.take(i as int).lemma_filter_push(*a, pred);
            }
            if crate::text::str_eq(a.project_id.as_str(), project_id) {
                out.push(a);
                assert(out@.map_values(|a: &Asset| *a) =~= before.push(*a));
            }
            i = i + 1;
        }
        assert(all.take(i as int) =~= all);
        out
    }

    /// Removes the asset `id`, returning it; `NotFound(id)` when there is none.
    pub fn remove(&mut self, id: &str) -> (r: Result<Asset, AssetError>)
        requires
            old(self).wf(),
        ensures
            final(self).wf(),
            final(self).assets() == old(self).assets().remove(id@),
            final(self).base_path() == old(self).base_path(),
            match r {
                Ok(a) => old(self).assets().contains_key(id@) && a == old(self).assets()[id@],
                Err(e) => !old(self).assets().contains_key(id@) && (e matches AssetError::NotFound(n)
                    && n@ == id@),
            },
    {
        let ghost s = self.assets.pairs();
        proof {
            lemma_del_keys_match(s, id@, |a: Asset| asset_key(a));
        }
        match self.assets.remove(id) {
            Some(a) => Ok(a),
            None => Err(AssetError::NotFound(String::from_str(id))),
        }
    }
}

} // verus!
