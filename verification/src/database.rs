//! Prepared assets in the runtime asset database.
//!
//! The build-prepared bytes are published under one key for each object of an
//! asset and read back under the same keys.  Nothing reaches the device that
//! was not read back first.
use crate::asset::PreparedAsset;
use crate::bits::bytes_equal;
use crate::material::{
    material_matches, material_parameter_bytes, material_parameters_from_bytes, DatabasePreparedMaterial,
    MaterialRole, RetainedMaterialParameters,
};
#[allow(unused_imports)]
use crate::material::{lemma_parameters_survive, parameters_of, same_parameters};
use vstd::prelude::*;
use vstd::slice::slice_to_vec;
use vstd::string::*;

verus! {

/// The number of objects that an asset is published as.
pub const OBJECT_COUNT: usize = 8;

/// The key of an asset's object.
pub open spec fn key_of(asset: Seq<char>, object: Seq<char>) -> Seq<char> {
    asset + "/prepared/"@ + object
}

/// The names of an asset's objects, in the order of publication.
pub open spec fn object_text(object: int) -> Seq<char> {
    if object == 0 {
        "mesh/vertices"@
    } else if object == 1 {
        "mesh/indices"@
    } else if object == 2 {
        "material/base-color"@
    } else if object == 3 {
        "material/metallic-roughness"@
    } else if object == 4 {
        "material/emissive"@
    } else if object == 5 {
        "material/occlusion"@
    } else if object == 6 {
        "material/normal"@
    } else {
        "material/parameters.f32le"@
    }
}

/// The key under which the database holds an asset's object.
pub fn prepared_asset_key(asset: &str, object: &str) -> (key: String)
    ensures
        key@ == key_of(asset@, object@),
{
    let mut key: String = asset.to_owned();
    key.append("/prepared/");
    key.append(object);
    key
}

/// The name of an asset's object.
pub fn object_name(object: usize) -> (name: &'static str)
    requires
        object < OBJECT_COUNT,
    ensures
        name@ == object_text(object as int),
{
    match object {
        0 => "mesh/vertices",
        1 => "mesh/indices",
        2 => "material/base-color",
        3 => "material/metallic-roughness",
        4 => "material/emissive",
        5 => "material/occlusion",
        6 => "material/normal",
        _ => "material/parameters.f32le",
    }
}

/// The bytes that an asset publishes under an object's key.
pub open spec fn object_bytes(asset: PreparedAsset, object: int) -> Seq<u8> {
    if object == 0 {
        asset.vertices@
    } else if object == 1 {
        asset.indices@
    } else if object < 7 {
        asset.material.maps()[object - 2]
    } else {
        asset.material.parameters.image()
    }
}

/// One write to the database.
pub struct Publication {
    pub key: String,
    pub bytes: Vec<u8>,
}

/// The write that publishes one object of an asset.
pub fn publication(asset: &PreparedAsset, object: usize) -> (publication: Publication)
    requires
        object < OBJECT_COUNT,
    ensures
        publication.key@ == key_of(asset.name@, object_text(object as int)),
        publication.bytes@ == object_bytes(*asset, object as int),
{
    let key = prepared_asset_key(asset.name, object_name(object));
    let bytes: Vec<u8> = match object {
        0 => slice_to_vec(asset.vertices),
        1 => slice_to_vec(asset.indices),
        2 => slice_to_vec(asset.material.texture(MaterialRole::BaseColor).bytes),
        3 => slice_to_vec(asset.material.texture(MaterialRole::MetallicRoughness).bytes),
        4 => slice_to_vec(asset.material.texture(MaterialRole::Emissive).bytes),
        5 => slice_to_vec(asset.material.texture(MaterialRole::Occlusion).bytes),
        6 => slice_to_vec(asset.material.texture(MaterialRole::Normal).bytes),
        _ => material_parameter_bytes(&asset.material.parameters),
    };
    Publication { key, bytes }
}

/// Whether writes publish a catalog: asset after asset, each object by object.
pub open spec fn publish(publications: Seq<Publication>, assets: Seq<PreparedAsset>) -> bool {
    &&& publications.len() == 8 * assets.len()
    &&& forall|n: int|
        0 <= n < publications.len() ==> {
            &&& (#[trigger] publications[n]).key@ == key_of(
                assets[n / 8].name@,
                object_text(n % 8),
            )
            &&& publications[n].bytes@ == object_bytes(assets[n / 8], n % 8)
        }
}

/// The writes that publish a catalog: asset after asset, each object by object.
pub fn put_prepared_assets(assets: &[PreparedAsset]) -> (publications: Vec<Publication>)
    ensures
        publish(publications@, assets@),
        publications@.len() == OBJECT_COUNT * assets@.len(),
        forall|n: int|
            0 <= n < publications@.len() ==> {
                &&& (#[trigger] publications@[n]).key@ == key_of(
                    assets@[n / 8].name@,
                    object_text(n % 8),
                )
                &&& publications@[n].bytes@ == object_bytes(assets@[n / 8], n % 8)
            },
{
    let mut publications: Vec<Publication> = Vec::new();
    let mut slot: usize = 0;
    while slot < assets.len()
        invariant
            slot <= assets@.len(),
            publications@.len() == OBJECT_COUNT * slot,
            forall|n: int|
                0 <= n < publications@.len() ==> {
                    &&& (#[trigger] publications@[n]).key@ == key_of(
                        assets@[n / 8].name@,
                        object_text(n % 8),
                    )
                    &&& publications@[n].bytes@ == object_bytes(assets@[n / 8], n % 8)
                },
        decreases assets@.len() - slot,
    {
        let mut object: usize = 0;
        while object < OBJECT_COUNT
            invariant
                slot < assets@.len(),
                object <= OBJECT_COUNT,
                publications@.len() == OBJECT_COUNT * slot + object,
                forall|n: int|
                    0 <= n < publications@.len() ==> {
                        &&& (#[trigger] publications@[n]).key@ == key_of(
                            assets@[n / 8].name@,
                            object_text(n % 8),
                        )
                        &&& publications@[n].bytes@ == object_bytes(assets@[n / 8], n % 8)
                    },
            decreases OBJECT_COUNT - object,
        {
            publications.push(publication(&assets[slot], object));
            object += 1;
        }
        slot += 1;
    }
    publications
}

/// An asset as it was read back from the database.
pub struct DatabasePreparedAsset {
    pub vertices: Vec<u8>,
    pub indices: Vec<u8>,
    pub material: DatabasePreparedMaterial,
}

/// Every asset, as read back from the database.
pub struct DatabasePreparedCatalog {
    pub assets: Vec<DatabasePreparedAsset>,
}

/// What an asset that was read back holds: the bytes of its first seven
/// objects, and the parameters that the eighth spells.
#[verifier::ext_equal]
pub struct AssetContents {
    pub objects: Seq<Seq<u8>>,
    pub parameters: RetainedMaterialParameters,
}

impl View for DatabasePreparedAsset {
    type V = AssetContents;

    open spec fn view(&self) -> AssetContents {
        AssetContents {
            objects: seq![self.vertices@, self.indices@] + self.material.maps(),
            parameters: self.material.parameters,
        }
    }
}

impl View for DatabasePreparedCatalog {
    type V = Seq<AssetContents>;

    open spec fn view(&self) -> Seq<AssetContents> {
        self.assets@.map_values(|asset: DatabasePreparedAsset| asset@)
    }
}

/// What a prepared asset holds, in the same terms.
pub open spec fn prepared_contents(asset: PreparedAsset) -> AssetContents {
    AssetContents {
        objects: seq![asset.vertices@, asset.indices@] + asset.material.maps(),
        parameters: asset.material.parameters,
    }
}

/// Whether an asset that was read back is the prepared one.
pub open spec fn contents_match(runtime: AssetContents, asset: PreparedAsset) -> bool {
    &&& runtime.objects == prepared_contents(asset).objects
    &&& same_parameters(runtime.parameters, asset.material.parameters)
}

/// Whether an asset that was read back is the prepared one: the same mesh
/// bytes and a matching material.
pub fn asset_matches(runtime: &DatabasePreparedAsset, asset: &PreparedAsset) -> (matches: bool)
    ensures
        matches == contents_match(runtime@, *asset),
{
    let same_mesh = bytes_equal(&runtime.vertices, asset.vertices) && bytes_equal(
        &runtime.indices,
        asset.indices,
    );
    proof {
        let (a, b) = (runtime@.objects, prepared_contents(*asset).objects);
        if a == b {
            assert(a[0] == runtime.vertices@ && a[1] == runtime.indices@);
            assert(b[0] == asset.vertices@ && b[1] == asset.indices@);
            assert(runtime.material.maps() =~= a.skip(2));
            assert(asset.material.maps() =~= b.skip(2));
        }
    }
    same_mesh && material_matches(&runtime.material, &asset.material)
}

/// The progress of reading a catalog back.
#[verifier::ext_equal]
pub struct LoadProgress {
    /// The assets that are complete.
    pub done: Seq<AssetContents>,
    /// The objects of the next asset that were read so far.
    pub fetched: Seq<Seq<u8>>,
    /// Whether an object was missing or malformed, which ends the reading.
    pub missing: bool,
}

impl LoadProgress {
    /// Nothing read yet.
    pub open spec fn start() -> LoadProgress {
        LoadProgress { done: Seq::empty(), fetched: Seq::empty(), missing: false }
    }

    /// Whether reading `count` assets has ended.
    pub open spec fn ended(self, count: int) -> bool {
        self.missing || self.done.len() >= count
    }

    /// The progress after the database answered the next key.
    pub open spec fn after(self, found: Option<Seq<u8>>) -> LoadProgress {
        match found {
            None => LoadProgress { missing: true, ..self },
            Some(bytes) => {
                let fetched = self.fetched.push(bytes);
                if fetched.len() < OBJECT_COUNT {
                    LoadProgress { fetched, ..self }
                } else {
                    match parameters_of(bytes) {
                        None => LoadProgress { missing: true, ..self },
                        Some(parameters) => LoadProgress {
                            done: self.done.push(
                                AssetContents { objects: self.fetched, parameters },
                            ),
                            fetched: Seq::empty(),
                            missing: self.missing,
                        },
                    }
                }
            },
        }
    }
}

/// Reads a catalog back, one key at a time.
pub struct CatalogLoader {
    assets: Vec<DatabasePreparedAsset>,
    fetched: Vec<Vec<u8>>,
    missing: bool,
}

impl View for CatalogLoader {
    type V = LoadProgress;

    closed spec fn view(&self) -> LoadProgress {
        LoadProgress {
            done: self.assets@.map_values(|asset: DatabasePreparedAsset| asset@),
            fetched: self.fetched@.map_values(|bytes: Vec<u8>| bytes@),
            missing: self.missing,
        }
    }
}

impl CatalogLoader {
    /// The reading of an asset never holds a full set of objects between keys.
    pub closed spec fn wf(self) -> bool {
        self.fetched@.len() < OBJECT_COUNT
    }

    pub proof fn lemma_wf(self)
        ensures
            self.wf() == (self@.fetched.len() < OBJECT_COUNT),
    {
    }

    /// A loader that has read nothing.
    pub fn new() -> (loader: CatalogLoader)
        ensures
            loader.wf(),
            loader@ == LoadProgress::start(),
    {
        let loader = CatalogLoader { assets: Vec::new(), fetched: Vec::new(), missing: false };
        assert(loader@ =~= LoadProgress::start());
        loader
    }

    /// The key to read next, unless the reading has ended.
    pub fn next_key(&self, assets: &[PreparedAsset]) -> (key: Option<String>)
        requires
            self.wf(),
        ensures
            key is None <==> self@.ended(assets@.len() as int),
            key matches Some(text) ==> text@ == key_of(
                assets@[self@.done.len() as int].name@,
                object_text(self@.fetched.len() as int),
            ),
    {
        if self.missing || self.assets.len() >= assets.len() {
            None
        } else {
            Some(
                prepared_asset_key(assets[self.assets.len()].name, object_name(self.fetched.len())),
            )
        }
    }

    /// Take the database's answer to the next key.
    pub fn supply(&mut self, found: Option<Vec<u8>>)
        requires
            old(self).wf(),
        ensures
            final(self).wf(),
            final(self)@ == old(self)@.after(
                match found {
                    Some(bytes) => Some(bytes@),
                    None => None,
                },
            ),
    {
        let ghost before = self@;
        match found {
            None => {
                self.missing = true;
                assert(self@ =~= before.after(None));
            },
            Some(bytes) => {
                let ghost answer = bytes@;
                if self.fetched.len() + 1 < OBJECT_COUNT {
                    self.fetched.push(bytes);
                    assert(self@.fetched =~= before.fetched.push(answer));
                    assert(self@ =~= before.after(Some(answer)));
                } else {
                    match material_parameters_from_bytes(&bytes) {
                        None => {
                            self.missing = true;
                            assert(self@ =~= before.after(Some(answer)));
                        },
                        Some(parameters) => {
                            let ghost objects = before.fetched;
                            let normal = self.fetched.remove(6);
                            let occlusion = self.fetched.remove(5);
                            let emissive = self.fetched.remove(4);
                            let metallic_roughness = self.fetched.remove(3);
                            let base_color = self.fetched.remove(2);
                            let indices = self.fetched.remove(1);
                            let vertices = self.fetched.remove(0);
                            let asset = DatabasePreparedAsset {
                                vertices,
                                indices,
                                material: DatabasePreparedMaterial {
                                    base_color,
                                    metallic_roughness,
                                    emissive,
                                    occlusion,
                                    normal,
                                    parameters,
                                },
                            };
                            assert(asset@.objects =~= objects);
                            let ghost contents = asset@;
                            self.assets.push(asset);
                            assert(self@.done =~= before.done.push(contents));
                            assert(self@.fetched =~= Seq::empty());
                            assert(self@ =~= before.after(Some(answer)));
                        },
                    }
                }
            },
        }
    }

    /// The catalog, unless something was missing.
    pub fn finish(self) -> (catalog: Option<DatabasePreparedCatalog>)
        ensures
            catalog is None <==> self@.missing,
            catalog matches Some(catalog) ==> catalog@ == self@.done,
    {
        if self.missing {
            None
        } else {
            Some(DatabasePreparedCatalog { assets: self.assets })
        }
    }
}

/// A database, as the map from its keys to what they hold.
pub type Contents = Map<Seq<char>, Seq<u8>>;

/// The database's answer to a key.
pub open spec fn lookup(database: Contents, key: Seq<char>) -> Option<Seq<u8>> {
    if database.dom().contains(key) {
        Some(database[key])
    } else {
        None
    }
}

/// The key that an asset's object has in a catalog.
pub open spec fn catalog_key(assets: Seq<PreparedAsset>, slot: int, object: int) -> Seq<char> {
    key_of(assets[slot].name@, object_text(object))
}

/// The database after the first `count` writes of a catalog's publication.
pub open spec fn published(database: Contents, assets: Seq<PreparedAsset>, count: nat) -> Contents
    decreases count,
{
    if count == 0 {
        database
    } else {
        let n = count - 1;
        published(database, assets, n as nat).insert(
            catalog_key(assets, n / 8, n % 8),
            object_bytes(assets[n / 8], n % 8),
        )
    }
}

/// The progress once a loader has read from a database until it ended.
pub open spec fn loaded(
    progress: LoadProgress,
    assets: Seq<PreparedAsset>,
    database: Contents,
) -> LoadProgress
    decreases 8 * (assets.len() - progress.done.len()) - progress.fetched.len(),
    when progress.fetched.len() < OBJECT_COUNT
    via loaded_decreases
{
    if progress.ended(assets.len() as int) {
        progress
    } else {
        let key = catalog_key(
            assets,
            progress.done.len() as int,
            progress.fetched.len() as int,
        );
        let next = progress.after(lookup(database, key));
        if next.missing {
            next
        } else {
            loaded(next, assets, database)
        }
    }
}

#[via_fn]
proof fn loaded_decreases(progress: LoadProgress, assets: Seq<PreparedAsset>, database: Contents) {
}

/// Whether no two assets of a catalog share a name.
pub open spec fn names_distinct(assets: Seq<PreparedAsset>) -> bool {
    forall|i: int, j: int|
        0 <= i < assets.len() && 0 <= j < assets.len() && (#[trigger] assets[i]).name@ == (
        #[trigger] assets[j]).name@ ==> i == j
}

/// The last five characters of each object's name.
proof fn lemma_object_tail(object: int)
    requires
        0 <= object < OBJECT_COUNT,
    ensures
        object_text(object).len() >= 5,
        object_text(object).skip(object_text(object).len() - 5) == (if object == 0 {
            seq!['t', 'i', 'c', 'e', 's']
        } else if object == 1 {
            seq!['d', 'i', 'c', 'e', 's']
        } else if object == 2 {
            seq!['c', 'o', 'l', 'o', 'r']
        } else if object == 3 {
            seq!['h', 'n', 'e', 's', 's']
        } else if object == 4 {
            seq!['s', 's', 'i', 'v', 'e']
        } else if object == 5 {
            seq!['u', 's', 'i', 'o', 'n']
        } else if object == 6 {
            seq!['o', 'r', 'm', 'a', 'l']
        } else {
            seq!['f', '3', '2', 'l', 'e']
        }),
{
    reveal_strlit("mesh/vertices");
    reveal_strlit("mesh/indices");
    reveal_strlit("material/base-color");
    reveal_strlit("material/metallic-roughness");
    reveal_strlit("material/emissive");
    reveal_strlit("material/occlusion");
    reveal_strlit("material/normal");
    reveal_strlit("material/parameters.f32le");
    let tail = object_text(object).skip(object_text(object).len() - 5);
    assert(tail.len() == 5);
    if object == 0 {
        assert(tail =~= seq!['t', 'i', 'c', 'e', 's']);
    } else if object == 1 {
        assert(tail =~= seq!['d', 'i', 'c', 'e', 's']);
    } else if object == 2 {
        assert(tail =~= seq!['c', 'o', 'l', 'o', 'r']);
    } else if object == 3 {
        assert(tail =~= seq!['h', 'n', 'e', 's', 's']);
    } else if object == 4 {
        assert(tail =~= seq!['s', 's', 'i', 'v', 'e']);
    } else if object == 5 {
        assert(tail =~= seq!['u', 's', 'i', 'o', 'n']);
    } else if object == 6 {
        assert(tail =~= seq!['o', 'r', 'm', 'a', 'l']);
    } else {
        assert(tail =~= seq!['f', '3', '2', 'l', 'e']);
    }
}

/// Keys never collide: two objects of two assets have one key only where the
/// asset's name and the object are the same.
pub proof fn lemma_keys_are_distinct(left: Seq<char>, i: int, right: Seq<char>, j: int)
    requires
        0 <= i < OBJECT_COUNT,
        0 <= j < OBJECT_COUNT,
        key_of(left, object_text(i)) == key_of(right, object_text(j)),
    ensures
        i == j,
        left == right,
{
    let (a, b) = (object_text(i), object_text(j));
    let key = key_of(left, a);
    lemma_object_tail(i);
    lemma_object_tail(j);
    let tail = key.skip(key.len() - 5);
    assert(tail =~= a.skip(a.len() - 5));
    assert(tail =~= b.skip(b.len() - 5));
    let (p, q) = (a.skip(a.len() - 5), b.skip(b.len() - 5));
    assert(p[0] == q[0] && p[1] == q[1] && p[2] == q[2] && p[3] == q[3] && p[4] == q[4]);
    assert(i == j);
    assert(left =~= key.take(key.len() - a.len() - "/prepared/"@.len()));
    assert(right =~= key.take(key.len() - b.len() - "/prepared/"@.len()));
}

/// After the first `count` writes, the objects that they published are held
/// under their keys.
proof fn lemma_published(database: Contents, assets: Seq<PreparedAsset>, count: nat)
    requires
        names_distinct(assets),
        count <= 8 * assets.len(),
    ensures
        forall|slot: int, object: int|
            0 <= slot && 0 <= object < OBJECT_COUNT && 8 * slot + object < count ==> lookup(
                published(database, assets, count),
                #[trigger] catalog_key(assets, slot, object),
            ) == Some(object_bytes(assets[slot], object)),
    decreases count,
{
    if count > 0 {
        let n = count - 1;
        lemma_published(database, assets, n as nat);
        let earlier = published(database, assets, n as nat);
        let written = catalog_key(assets, n / 8, n % 8);
        assert forall|slot: int, object: int|
            0 <= slot && 0 <= object < OBJECT_COUNT && 8 * slot + object < count implies lookup(
            published(database, assets, count),
            #[trigger] catalog_key(assets, slot, object),
        ) == Some(object_bytes(assets[slot], object)) by {
            let key = catalog_key(assets, slot, object);
            if 8 * slot + object == n {
                assert(slot == n / 8 && object == n % 8);
            } else {
                assert(8 * slot + object < n);
                assert(lookup(earlier, key) == Some(object_bytes(assets[slot], object)));
                if key == written {
                    lemma_keys_are_distinct(
                        assets[slot].name@,
                        object,
                        assets[n / 8].name@,
                        n % 8,
                    );
                    assert(slot == n / 8);
                    assert(false);
                }
            }
        }
    }
}

/// Whether a database holds every object of a catalog, with parameters of the
/// exact length.
pub open spec fn holds_catalog(database: Contents, assets: Seq<PreparedAsset>) -> bool {
    &&& forall|slot: int, object: int|
        0 <= slot < assets.len() && 0 <= object < OBJECT_COUNT ==> database.dom().contains(
            #[trigger] catalog_key(assets, slot, object),
        )
    &&& forall|slot: int|
        0 <= slot < assets.len() ==> parameters_of(
            database[#[trigger] catalog_key(assets, slot, 7)],
        ) is Some
}

/// What a database holds of one asset of a catalog.
pub open spec fn held_contents(
    database: Contents,
    assets: Seq<PreparedAsset>,
    slot: int,
) -> AssetContents {
    AssetContents {
        objects: Seq::new(7, |object: int| database[catalog_key(assets, slot, object)]),
        parameters: parameters_of(database[catalog_key(assets, slot, 7)])->Some_0,
    }
}

/// Whether progress agrees with what a database holds.
pub open spec fn faithful(
    progress: LoadProgress,
    assets: Seq<PreparedAsset>,
    database: Contents,
) -> bool {
    &&& progress.done.len() <= assets.len()
    &&& progress.fetched.len() < OBJECT_COUNT
    &&& progress.done.len() == assets.len() ==> progress.fetched.len() == 0
    &&& forall|slot: int|
        0 <= slot < progress.done.len() ==> #[trigger] progress.done[slot] == held_contents(
            database,
            assets,
            slot,
        )
    &&& forall|slot: int, object: int|
        0 <= slot < progress.done.len() && 0 <= object < OBJECT_COUNT
            ==> database.dom().contains(#[trigger] catalog_key(assets, slot, object))
    &&& forall|slot: int|
        0 <= slot < progress.done.len() ==> parameters_of(
            database[#[trigger] catalog_key(assets, slot, 7)],
        ) is Some
    &&& forall|object: int|
        0 <= object < progress.fetched.len() ==> {
            let key = #[trigger] catalog_key(assets, progress.done.len() as int, object);
            database.dom().contains(key) && progress.fetched[object] == database[key]
        }
}

/// Reading on from faithful progress ends complete exactly where the database
/// holds the catalog, and then with what it holds.
proof fn lemma_loaded_from(
    progress: LoadProgress,
    assets: Seq<PreparedAsset>,
    database: Contents,
)
    requires
        faithful(progress, assets, database),
        !progress.missing,
    ensures
        loaded(progress, assets, database).missing <==> !holds_catalog(database, assets),
        !loaded(progress, assets, database).missing ==> loaded(progress, assets, database).done
            == Seq::new(assets.len(), |slot: int| held_contents(database, assets, slot)),
    decreases 8 * (assets.len() - progress.done.len()) - progress.fetched.len(),
{
    if progress.ended(assets.len() as int) {
        assert(holds_catalog(database, assets));
        assert(progress.done =~= Seq::new(
            assets.len(),
            |slot: int| held_contents(database, assets, slot),
        ));
    } else {
        let slot = progress.done.len() as int;
        let object = progress.fetched.len() as int;
        let key = catalog_key(assets, slot, object);
        let next = progress.after(lookup(database, key));
        if !next.missing {
            if object == 7 {
                assert(progress.fetched =~= held_contents(database, assets, slot).objects);
                assert(next.done[slot] == held_contents(database, assets, slot));
                assert forall|o: int| 0 <= o < OBJECT_COUNT implies database.dom().contains(
                    #[trigger] catalog_key(assets, slot, o),
                ) by {}
            }
            assert(faithful(next, assets, database));
            lemma_loaded_from(next, assets, database);
        } else {
            assert(!holds_catalog(database, assets)) by {
                if database.dom().contains(key) {
                    assert(object == 7);
                    assert(parameters_of(database[catalog_key(assets, slot, 7)]) is None);
                } else {
                    assert(!database.dom().contains(catalog_key(assets, slot, object)));
                }
            }
        }
    }
}

/// A catalog is read back exactly where the database holds every one of its
/// objects, with parameters of the right length; and what is read back is what
/// the database holds.
pub proof fn lemma_load_reads_what_is_held(assets: Seq<PreparedAsset>, database: Contents)
    ensures
        loaded(LoadProgress::start(), assets, database).missing <==> !holds_catalog(
            database,
            assets,
        ),
        !loaded(LoadProgress::start(), assets, database).missing ==> loaded(
            LoadProgress::start(),
            assets,
            database,
        ).done == Seq::new(assets.len(), |slot: int| held_contents(database, assets, slot)),
{
    lemma_loaded_from(LoadProgress::start(), assets, database);
}

/// Reading back a published catalog gives the prepared bytes of every asset,
/// whatever the database held before.
pub proof fn lemma_published_catalog_is_read_back(
    database: Contents,
    assets: Seq<PreparedAsset>,
)
    requires
        names_distinct(assets),
    ensures
        ({
            let after = published(database, assets, 8 * assets.len());
            let end = loaded(LoadProgress::start(), assets, after);
            &&& !end.missing
            &&& end.done == assets.map_values(|asset: PreparedAsset| prepared_contents(asset))
        }),
{
    let after = published(database, assets, 8 * assets.len());
    lemma_published(database, assets, 8 * assets.len());
    assert forall|slot: int, object: int|
        0 <= slot < assets.len() && 0 <= object < OBJECT_COUNT implies lookup(
        after,
        #[trigger] catalog_key(assets, slot, object),
    ) == Some(object_bytes(assets[slot], object)) by {}
    assert forall|slot: int| 0 <= slot < assets.len() implies parameters_of(
        after[#[trigger] catalog_key(assets, slot, 7)],
    ) == Some(assets[slot].material.parameters) by {
        assert(lookup(after, catalog_key(assets, slot, 7)) == Some(object_bytes(assets[slot], 7)));
        lemma_parameters_survive(assets[slot].material.parameters);
    }
    assert(holds_catalog(after, assets));
    lemma_load_reads_what_is_held(assets, after);
    let end = loaded(LoadProgress::start(), assets, after);
    assert forall|slot: int| 0 <= slot < assets.len() implies #[trigger] end.done[slot]
        == prepared_contents(assets[slot]) by {
        let held = held_contents(after, assets, slot);
        assert(held.objects =~= prepared_contents(assets[slot]).objects) by {
            assert forall|object: int| 0 <= object < 7 implies #[trigger] held.objects[object]
                == prepared_contents(assets[slot]).objects[object] by {
                assert(lookup(after, catalog_key(assets, slot, object)) == Some(
                    object_bytes(assets[slot], object),
                ));
            }
        }
        assert(lookup(after, catalog_key(assets, slot, 7)) == Some(object_bytes(assets[slot], 7)));
    }
    assert(end.done =~= assets.map_values(|asset: PreparedAsset| prepared_contents(asset)));
}

/// An asset that was read back unchanged passes the comparison with the
/// prepared one, as long as its parameters are numbers.
pub proof fn lemma_unchanged_asset_matches(asset: PreparedAsset)
    requires
        asset.material.parameters.is_number(),
    ensures
        contents_match(prepared_contents(asset), asset),
{
    let numbers = asset.material.parameters.numbers();
    assert forall|i: int| 0 <= i < numbers.len() implies #[trigger] crate::bits::same_number(
        numbers[i],
        numbers[i],
    ) by {
        assert(!crate::bits::is_nan(asset.material.parameters.numbers()[i]));
    }
}

/// A key begins with the asset's name, ends with the object's, and has
/// "/prepared/" between them.
pub proof fn lemma_keys_join_their_parts(asset: Seq<char>, object: Seq<char>)
    ensures
        ({
            let key = key_of(asset, object);
            &&& key.len() == asset.len() + 10 + object.len()
            &&& key.take(asset.len() as int) == asset
            &&& key.subrange(asset.len() as int, asset.len() as int + 10) == "/prepared/"@
            &&& key.skip(asset.len() as int + 10) == object
        }),
{
    reveal_strlit("/prepared/");
    let key = key_of(asset, object);
    assert(key.take(asset.len() as int) =~= asset);
    assert(key.subrange(asset.len() as int, asset.len() as int + 10) =~= "/prepared/"@);
    assert(key.skip(asset.len() as int + 10) =~= object);
}

/// The objects are the two streams of the mesh, the maps of the roles under the
/// roles' own names, and the parameters.
pub proof fn lemma_objects_are_named_after_what_they_hold(role: MaterialRole)
    ensures
        object_text(0) == "mesh/vertices"@,
        object_text(1) == "mesh/indices"@,
        object_text(2 + role.index()) == "material/"@ + role.text(),
        object_text(7) == "material/parameters.f32le"@,
{
    reveal_strlit("material/");
    reveal_strlit("material/base-color");
    reveal_strlit("material/metallic-roughness");
    reveal_strlit("material/emissive");
    reveal_strlit("material/occlusion");
    reveal_strlit("material/normal");
    reveal_strlit("base-color");
    reveal_strlit("metallic-roughness");
    reveal_strlit("emissive");
    reveal_strlit("occlusion");
    reveal_strlit("normal");
    assert(object_text(2 + role.index()) =~= "material/"@ + role.text());
}

/// An asset publishes its own streams, the bytes of its own maps and the image
/// of its own parameters, each under the object that is named after it.
pub proof fn lemma_assets_publish_their_own_bytes(asset: PreparedAsset)
    ensures
        object_bytes(asset, 0) == asset.vertices@,
        object_bytes(asset, 1) == asset.indices@,
        object_bytes(asset, 2) == asset.material.base_color.bytes@,
        object_bytes(asset, 3) == asset.material.metallic_roughness.bytes@,
        object_bytes(asset, 4) == asset.material.emissive.bytes@,
        object_bytes(asset, 5) == asset.material.occlusion.bytes@,
        object_bytes(asset, 6) == asset.material.normal.bytes@,
        object_bytes(asset, 7) == asset.material.parameters.image(),
{
}

/// An asset that was read back holds in its fields what was read under the
/// objects' names, and matches a prepared one exactly where all bytes are the
/// same and the parameters are equal.
pub proof fn lemma_assets_match_field_by_field(
    runtime: DatabasePreparedAsset,
    asset: PreparedAsset,
)
    ensures
        runtime@.objects.len() == 7,
        runtime@.objects[0] == runtime.vertices@,
        runtime@.objects[1] == runtime.indices@,
        runtime@.objects[2] == runtime.material.base_color@,
        runtime@.objects[3] == runtime.material.metallic_roughness@,
        runtime@.objects[4] == runtime.material.emissive@,
        runtime@.objects[5] == runtime.material.occlusion@,
        runtime@.objects[6] == runtime.material.normal@,
        runtime@.parameters == runtime.material.parameters,
        contents_match(runtime@, asset) <==> {
            &&& runtime.vertices@ == asset.vertices@
            &&& runtime.indices@ == asset.indices@
            &&& runtime.material.base_color@ == asset.material.base_color.bytes@
            &&& runtime.material.metallic_roughness@ == asset.material.metallic_roughness.bytes@
            &&& runtime.material.emissive@ == asset.material.emissive.bytes@
            &&& runtime.material.occlusion@ == asset.material.occlusion.bytes@
            &&& runtime.material.normal@ == asset.material.normal.bytes@
            &&& same_parameters(runtime.material.parameters, asset.material.parameters)
        },
{
    let (a, b) = (runtime@.objects, prepared_contents(asset).objects);
    assert(b[0] == asset.vertices@ && b[1] == asset.indices@);
    assert(b[2] == asset.material.base_color.bytes@ && b[3]
        == asset.material.metallic_roughness.bytes@ && b[4] == asset.material.emissive.bytes@
        && b[5] == asset.material.occlusion.bytes@ && b[6] == asset.material.normal.bytes@);
    assert(a[0] == runtime.vertices@ && a[1] == runtime.indices@);
    assert(a[2] == runtime.material.base_color@ && a[3] == runtime.material.metallic_roughness@
        && a[4] == runtime.material.emissive@ && a[5] == runtime.material.occlusion@ && a[6]
        == runtime.material.normal@);
    if a[0] == b[0] && a[1] == b[1] && a[2] == b[2] && a[3] == b[3] && a[4] == b[4] && a[5] == b[5]
        && a[6] == b[6] {
        assert(a =~= b);
    }
}

/// What is read back of a published asset, object by object, is what the asset
/// holds.
pub proof fn lemma_prepared_contents_are_the_assets(asset: PreparedAsset)
    ensures
        prepared_contents(asset).objects.len() == 7,
        forall|object: int|
            0 <= object < 7 ==> #[trigger] prepared_contents(asset).objects[object]
                == object_bytes(asset, object),
        prepared_contents(asset).parameters == asset.material.parameters,
{
}

/// What a database holds of an asset is what it holds under the asset's keys.
pub proof fn lemma_assets_are_held_under_their_keys(
    database: Contents,
    assets: Seq<PreparedAsset>,
    slot: int,
    object: int,
)
    requires
        0 <= slot < assets.len(),
        0 <= object < 7,
    ensures
        held_contents(database, assets, slot).objects.len() == 7,
        held_contents(database, assets, slot).objects[object] == database[key_of(
            assets[slot].name@,
            object_text(object),
        )],
        parameters_of(database[key_of(assets[slot].name@, object_text(7))])
            matches Some(parameters) ==> held_contents(database, assets, slot).parameters
            == parameters,
{
}

/// Publishing writes each object under its own key, one after another, and
/// touches no other key.
pub proof fn lemma_publishing_writes_key_by_key(
    database: Contents,
    assets: Seq<PreparedAsset>,
    count: nat,
    key: Seq<char>,
)
    ensures
        published(database, assets, 0) == database,
        published(database, assets, count + 1) == published(database, assets, count).insert(
            key_of(assets[count as int / 8].name@, object_text(count as int % 8)),
            object_bytes(assets[count as int / 8], count as int % 8),
        ),
        (forall|n: int|
            0 <= n < count ==> key != key_of(
                #[trigger] assets[n / 8].name@,
                object_text(n % 8),
            )) ==> lookup(published(database, assets, count), key) == lookup(database, key),
    decreases count,
{
    if count > 0 {
        lemma_publishing_writes_key_by_key(database, assets, (count - 1) as nat, key);
        let n = count - 1;
        if forall|n: int|
            0 <= n < count ==> key != key_of(#[trigger] assets[n / 8].name@, object_text(n % 8)) {
            assert(key != key_of(assets[n / 8].name@, object_text(n % 8)));
        }
    }
}

/// Reading goes on object by object: an answer is kept at the next place until
/// the eighth completes the asset, and nothing that was read is lost; a missing
/// object or a malformed eighth ends the reading.
pub proof fn lemma_reading_keeps_what_it_read(progress: LoadProgress, found: Option<Seq<u8>>)
    requires
        progress.fetched.len() < 8,
    ensures
        ({
            let after = progress.after(found);
            &&& progress.done.is_prefix_of(after.done)
            &&& progress.missing ==> after.missing
            &&& found is None ==> after.missing && after.done == progress.done
            &&& found matches Some(bytes) ==> {
                &&& progress.fetched.len() < 7 ==> after.done == progress.done && after.fetched
                    == progress.fetched.push(bytes) && after.missing == progress.missing
                &&& progress.fetched.len() == 7 && bytes.len() != 64 ==> after.missing
                    && after.done == progress.done
                &&& progress.fetched.len() == 7 && bytes.len() == 64 ==> {
                    &&& after.missing == progress.missing
                    &&& after.fetched.len() == 0
                    &&& after.done.len() == progress.done.len() + 1
                    &&& after.done.last().objects == progress.fetched
                    &&& after.done.last().parameters.image() == bytes
                }
            }
        }),
{
    let after = progress.after(found);
    assert(progress.done =~= after.done.take(progress.done.len() as int));
    if let Some(bytes) = found {
        if bytes.len() == 64 {
            crate::material::lemma_images_survive(bytes);
        }
    }
}

/// Reading ends exactly where an object was missing or every asset is there.
pub proof fn lemma_when_reading_ends(progress: LoadProgress, count: int)
    ensures
        progress.ended(count) <==> progress.missing || progress.done.len() >= count,
        LoadProgress::start().done.len() == 0,
        LoadProgress::start().fetched.len() == 0,
        !LoadProgress::start().missing,
{
}

/// A database answers with what it holds under a key, and no two assets share a
/// name where no two places of the catalog do.
pub proof fn lemma_answers_and_names(
    database: Contents,
    key: Seq<char>,
    assets: Seq<PreparedAsset>,
)
    ensures
        lookup(database, key) is Some <==> database.dom().contains(key),
        lookup(database, key) is Some ==> lookup(database, key) == Some(database[key]),
        names_distinct(assets) <==> forall|i: int, j: int|
            0 <= i < j < assets.len() ==> (#[trigger] assets[i]).name@ != (
            #[trigger] assets[j]).name@,
{
    if forall|i: int, j: int|
        0 <= i < j < assets.len() ==> (#[trigger] assets[i]).name@ != (#[trigger] assets[j]).name@ {
        assert forall|i: int, j: int|
            0 <= i < assets.len() && 0 <= j < assets.len() && (#[trigger] assets[i]).name@ == (
            #[trigger] assets[j]).name@ implies i == j by {
            if i < j {
                assert(assets[i].name@ != assets[j].name@);
            }
            if j < i {
                assert(assets[j].name@ != assets[i].name@);
            }
        }
    }
}

/// A database after a number of writes, one after another.
pub open spec fn written(
    database: Contents,
    publications: Seq<Publication>,
    count: nat,
) -> Contents
    decreases count,
{
    if count == 0 {
        database
    } else {
        written(database, publications, (count - 1) as nat).insert(
            publications[count - 1].key@,
            publications[count - 1].bytes@,
        )
    }
}

/// The writes that publish a catalog leave every object of every asset under
/// its key, and with it a catalog that is read back as it was prepared.
pub proof fn lemma_publications_make_the_catalog(
    database: Contents,
    publications: Seq<Publication>,
    assets: Seq<PreparedAsset>,
)
    requires
        publish(publications, assets),
        names_distinct(assets),
    ensures
        publications.len() == 8 * assets.len(),
        forall|slot: int, object: int|
            0 <= slot < assets.len() && 0 <= object < 8 ==> lookup(
                written(database, publications, publications.len()),
                #[trigger] catalog_key(assets, slot, object),
            ) == Some(object_bytes(assets[slot], object)),
        loaded(
            LoadProgress::start(),
            assets,
            written(database, publications, publications.len()),
        ).done == assets.map_values(|asset: PreparedAsset| prepared_contents(asset)),
{
    lemma_written_is_published(database, publications, assets, publications.len());
    lemma_published(database, assets, publications.len());
    lemma_published_catalog_is_read_back(database, assets);
}

proof fn lemma_written_is_published(
    database: Contents,
    publications: Seq<Publication>,
    assets: Seq<PreparedAsset>,
    count: nat,
)
    requires
        publish(publications, assets),
        count <= publications.len(),
    ensures
        written(database, publications, count) == published(database, assets, count),
    decreases count,
{
    if count > 0 {
        lemma_written_is_published(database, publications, assets, (count - 1) as nat);
        assert(publications[count - 1].key@ == key_of(
            assets[(count - 1) / 8].name@,
            object_text((count - 1) % 8),
        ));
    }
}

} // verus!
