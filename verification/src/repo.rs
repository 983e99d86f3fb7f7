//! Repositories: stores that keep one item for each SKU.

use crate::domain::{all_of_sku, batch_views, Batch, BatchView, Product, ProductView};
use vstd::hash_map::StringHashMap;
use vstd::prelude::*;
use vstd::string::StringExecFns;

verus! {

/// Why a repository refuses a call.
#[derive(Debug, PartialEq, Eq)]
pub enum RepoError {
    /// Nothing is kept under this SKU.
    InvalidSku(String),
    /// Something is kept under this SKU already.
    SkuExists(String),
}

impl Clone for RepoError {
    fn clone(&self) -> (error: RepoError)
        ensures
            error == *self,
    {
        match self {
            RepoError::InvalidSku(sku) => RepoError::InvalidSku(sku.clone()),
            RepoError::SkuExists(sku) => RepoError::SkuExists(sku.clone()),
        }
    }
}

impl RepoError {
    /// What the error says in words.
    pub open spec fn message(self) -> Seq<char> {
        match self {
            RepoError::InvalidSku(sku) => "Invalid SKU: "@ + sku@,
            RepoError::SkuExists(sku) => "SKU "@ + sku@
                + " exists, must update if changes are expected"@,
        }
    }

    pub fn to_string(&self) -> (message: String)
        ensures
            message@ == self.message(),
    {
        match self {
            RepoError::InvalidSku(sku) => "Invalid SKU: ".to_owned().concat(sku.as_str()),
            RepoError::SkuExists(sku) => "SKU ".to_owned().concat(sku.as_str()).concat(
                " exists, must update if changes are expected",
            ),
        }
    }
}

/// What a repository can keep: a thing with a SKU to keep it under.
pub trait Keyed: View {
    /// The SKU under which a repository keeps `item`.
    spec fn key(item: Self::V) -> Seq<char>;
}

impl Keyed for Product {
    open spec fn key(item: ProductView) -> Seq<char> {
        item.sku
    }
}

/// A store that keeps one item for each SKU, each under its own SKU.
pub trait Repository<T: Keyed> {
    /// What the repository keeps, by SKU.
    spec fn items(&self) -> Map<Seq<char>, T::V>;

    /// Keeps `item` under its SKU, in place of what was kept there, if
    /// anything was.
    fn update(&mut self, item: T) -> (result: Result<(), RepoError>)
        ensures
            result is Ok,
            final(self).items() == old(self).items().insert(T::key(item@), item@),
    ;

    /// Keeps `item` under its SKU if nothing is kept there yet, and refuses
    /// it, changing nothing, if something is.
    fn write(&mut self, item: T) -> (result: Result<(), RepoError>)
        ensures
            match result {
                Ok(()) => {
                    &&& !old(self).items().contains_key(T::key(item@))
                    &&& final(self).items() == old(self).items().insert(T::key(item@), item@)
                },
                Err(RepoError::SkuExists(sku)) => {
                    &&& old(self).items().contains_key(T::key(item@))
                    &&& sku@ == T::key(item@)
                    &&& final(self).items() == old(self).items()
                },
                Err(RepoError::InvalidSku(_)) => false,
            },
    ;

    /// A copy of what is kept under `key`, if anything is.
    fn read(&self, key: &str) -> (result: Result<T, RepoError>)
        ensures
            match result {
                Ok(item) => {
                    &&& self.items().contains_key(key@)
                    &&& item@ == self.items()[key@]
                    &&& T::key(item@) == key@
                },
                Err(RepoError::InvalidSku(sku)) => {
                    &&& !self.items().contains_key(key@)
                    &&& sku@ == key@
                },
                Err(RepoError::SkuExists(_)) => false,
            },
    ;
}

/// A repository of products that lives in memory.
pub struct LocalBatchRepo {
    products: StringHashMap<Vec<Batch>>,
}

/// Whether the batches under each SKU are batches of that SKU.
spec fn keyed_by_sku(products: Map<Seq<char>, Vec<Batch>>) -> bool {
    forall|sku: Seq<char>| #[trigger]
        products.contains_key(sku) ==> all_of_sku(batch_views(products[sku]@), sku)
}

/// The products that a map from SKU to batches holds.
spec fn products_of(products: Map<Seq<char>, Vec<Batch>>) -> Map<Seq<char>, ProductView> {
    Map::new(
        |sku: Seq<char>| products.contains_key(sku),
        |sku: Seq<char>| ProductView { sku, batches: batch_views(products[sku]@) },
    )
}

/// The property of being a batch of the product `sku`.
pub open spec fn has_sku(sku: Seq<char>) -> spec_fn(BatchView) -> bool {
    |batch: BatchView| batch.sku == sku
}

/// The products that a list of batches makes up: one for each SKU that
/// occurs in the list, with the batches of that SKU in the order of the list.
pub open spec fn group_by_sku(batches: Seq<BatchView>) -> Map<Seq<char>, ProductView> {
    Map::new(
        |sku: Seq<char>| exists|i: int| 0 <= i < batches.len() && (#[trigger] batches[i]).sku == sku,
        |sku: Seq<char>| ProductView { sku, batches: batches.filter(has_sku(sku)) },
    )
}

/// What one more batch at the end of the list does to the products that the
/// list makes up: the batch joins the product of its SKU, which is new if
/// the list had no batch of that SKU.
proof fn lemma_group_one_more(batches: Seq<BatchView>, batch: BatchView)
    ensures
        group_by_sku(batches.push(batch)) == group_by_sku(batches).insert(
            batch.sku,
            ProductView {
                sku: batch.sku,
                batches: if group_by_sku(batches).contains_key(batch.sku) {
                    group_by_sku(batches)[batch.sku].batches.push(batch)
                } else {
                    seq![batch]
                },
            },
        ),
{
    let longer = batches.push(batch);
    let grown = group_by_sku(batches).insert(
        batch.sku,
        ProductView {
            sku: batch.sku,
            batches: if group_by_sku(batches).contains_key(batch.sku) {
                group_by_sku(batches)[batch.sku].batches.push(batch)
            } else {
                seq![batch]
            },
        },
    );
    assert forall|sku: Seq<char>| group_by_sku(longer).contains_key(sku) implies grown.contains_key(
        sku,
    ) by {
        let i = choose|i: int| 0 <= i < longer.len() && (#[trigger] longer[i]).sku == sku;
        if i < batches.len() {
            assert(batches[i].sku == sku);
        }
    }
    assert forall|sku: Seq<char>| grown.contains_key(sku) implies group_by_sku(longer).contains_key(
        sku,
    ) by {
        if sku == batch.sku {
            assert(longer[batches.len() as int].sku == sku);
        } else {
            let i = choose|i: int| 0 <= i < batches.len() && (#[trigger] batches[i]).sku == sku;
            assert(longer[i].sku == sku);
        }
    }
    assert forall|sku: Seq<char>| grown.contains_key(sku) implies group_by_sku(longer)[sku]
        == grown[sku] by {
        batches.lemma_filter_push(batch, has_sku(sku));
        if sku == batch.sku && !group_by_sku(batches).contains_key(sku) {
            assert(batches.all(|other: BatchView| !has_sku(sku)(other))) by {
                assert forall|i: int| 0 <= i < batches.len() implies !has_sku(sku)(
                    #[trigger] batches[i],
                ) by {}
            }
            batches.lemma_all_neg_filter_empty(has_sku(sku));
            assert(batches.filter(has_sku(sku)) =~= Seq::empty());
            assert(batches.filter(has_sku(sku)).push(batch) =~= seq![batch]);
        }
    }
    assert(group_by_sku(longer) =~= grown);
}

/// Puts `item` into `products` under its SKU. Where something is there
/// already, it is replaced if `update` is set, and the item is refused if not.
fn _update_map(products: &mut StringHashMap<Vec<Batch>>, item: Product, update: bool) -> (result:
    Result<(), RepoError>)
    requires
        keyed_by_sku(old(products)@),
    ensures
        keyed_by_sku(final(products)@),
        match result {
            Ok(()) => {
                &&& update || !products_of(old(products)@).contains_key(item@.sku)
                &&& products_of(final(products)@) == products_of(old(products)@).insert(
                    item@.sku,
                    item@,
                )
            },
            Err(RepoError::SkuExists(sku)) => {
                &&& !update
                &&& products_of(old(products)@).contains_key(item@.sku)
                &&& sku@ == item@.sku
                &&& final(products)@ == old(products)@
            },
            Err(RepoError::InvalidSku(_)) => false,
        },
{
    let sku_exists = products.contains_key(item.sku());
    if !update && sku_exists {
        Err(RepoError::SkuExists(item.sku().to_owned()))
    } else {
        let (sku, batches) = item.into_parts();
        products.insert(sku, batches);
        proof {
            assert(products_of(final(products)@) =~= products_of(old(products)@).insert(
                item@.sku,
                item@,
            ));
        }
        Ok(())
    }
}

impl LocalBatchRepo {
    #[verifier::type_invariant]
    spec fn inv(self) -> bool {
        keyed_by_sku(self.products@)
    }

    /// A repository that keeps nothing yet.
    pub fn new() -> (repo: LocalBatchRepo)
        ensures
            repo.items() == Map::<Seq<char>, ProductView>::empty(),
    {
        let repo = LocalBatchRepo { products: StringHashMap::new() };
        proof {
            assert(repo.items() =~= Map::<Seq<char>, ProductView>::empty());
        }
        repo
    }
}

impl LocalBatchRepo {
    /// A repository of the products that `batches` make up: it keeps one
    /// product for each SKU among them, with the batches of that SKU in the
    /// order in which they stand in `batches`.
    pub fn populate_from_vec(batches: Vec<Batch>) -> (repo: LocalBatchRepo)
        ensures
            repo.items() == group_by_sku(batch_views(batches@)),
    {
        let ghost views = batch_views(batches@);
        let mut products: StringHashMap<Vec<Batch>> = StringHashMap::new();
        let mut i: usize = 0;
        proof {
            assert(products_of(products@) =~= group_by_sku(views.take(0)));
        }
        while i < batches.len()
            invariant
                i <= batches@.len(),
                views == batch_views(batches@),
                keyed_by_sku(products@),
                products_of(products@) == group_by_sku(views.take(i as int)),
            decreases batches@.len() - i,
        {
            let batch = batches[i].clone();
            let mut group: Vec<Batch> = match products.get(batch.sku()) {
                Some(known) => known.clone(),
                None => Vec::new(),
            };
            let ghost before = products@;
            let ghost joined = batch_views(group@);
            proof {
                if before.contains_key(batch@.sku) {
                    assert(joined =~= batch_views(before[batch@.sku]@));
                } else {
                    assert(joined =~= Seq::empty());
                }
            }
            let sku = batch.sku().to_owned();
            group.push(batch);
            products.insert(sku, group);
            proof {
                let front = views.take(i as int);
                assert(views.take(i + 1) =~= front.push(batch@));
                lemma_group_one_more(front, batch@);
                assert(batch_views(group@) =~= joined.push(batch@));
                assert(products_of(products@) =~= group_by_sku(front.push(batch@)));
            }
            i += 1;
        }
        proof {
            assert(views.take(i as int) =~= views);
        }
        LocalBatchRepo { products }
    }
}

impl Default for LocalBatchRepo {
    fn default() -> (repo: LocalBatchRepo)
        ensures
            repo.items() == Map::<Seq<char>, ProductView>::empty(),
    {
        LocalBatchRepo::new()
    }
}

impl Repository<Product> for LocalBatchRepo {
    closed spec fn items(&self) -> Map<Seq<char>, ProductView> {
        products_of(self.products@)
    }

    fn update(&mut self, item: Product) -> (result: Result<(), RepoError>) {
        proof {
            use_type_invariant(&*self);
        }
        let mut products: StringHashMap<Vec<Batch>> = StringHashMap::new();
        std::mem::swap(&mut self.products, &mut products);
        let result = _update_map(&mut products, item, true);
        std::mem::swap(&mut self.products, &mut products);
        result
    }

    fn write(&mut self, item: Product) -> (result: Result<(), RepoError>) {
        proof {
            use_type_invariant(&*self);
        }
        let mut products: StringHashMap<Vec<Batch>> = StringHashMap::new();
        std::mem::swap(&mut self.products, &mut products);
        let result = _update_map(&mut products, item, false);
        std::mem::swap(&mut self.products, &mut products);
        result
    }

    fn read(&self, key: &str) -> (result: Result<Product, RepoError>) {
        proof {
            use_type_invariant(self);
        }
        let batch = self.products.get(key);
        match batch {
            Some(b) => {
                let copy = b.clone();
                proof {
                    assert(batch_views(copy@) =~= batch_views(b@));
                }
                Ok(Product::new(key.to_owned(), copy))
            },
            None => Err(RepoError::InvalidSku(key.to_owned())),
        }
    }
}

} // verus!
