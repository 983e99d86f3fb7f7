//! The two services over a repository of products: to add a batch of stock
//! and to allocate an order line.

use crate::allocate::is_preferred;
use crate::domain::{Batch, DomainError, OrderLine, Product, ProductView};
use crate::repo::{RepoError, Repository};
use vstd::prelude::*;
use vstd::string::StringExecFns;

verus! {

/// Why a service fails: the repository refused, or the product did.
#[derive(Debug, PartialEq, Eq)]
pub enum ServiceError {
    IO(RepoError),
    Processing(DomainError),
}

impl Clone for ServiceError {
    fn clone(&self) -> (error: ServiceError)
        ensures
            error == *self,
    {
        match self {
            ServiceError::IO(error) => ServiceError::IO(error.clone()),
            ServiceError::Processing(error) => ServiceError::Processing(error.clone()),
        }
    }
}

impl ServiceError {
    /// What the error says in words: which side refused, and what it said.
    pub open spec fn message(self) -> Seq<char> {
        match self {
            ServiceError::IO(error) => "IO error: "@ + error.message(),
            ServiceError::Processing(error) => "Processing error: "@ + error.message(),
        }
    }

    pub fn to_string(&self) -> (message: String)
        ensures
            message@ == self.message(),
    {
        match self {
            ServiceError::IO(error) => "IO error: ".to_owned().concat(error.to_string().as_str()),
            ServiceError::Processing(error) => "Processing error: ".to_owned().concat(
                error.to_string().as_str(),
            ),
        }
    }
}

impl From<RepoError> for ServiceError {
    fn from(value: RepoError) -> (error: ServiceError) {
        ServiceError::IO(value)
    }
}

impl vstd::std_specs::convert::FromSpecImpl<RepoError> for ServiceError {
    open spec fn obeys_from_spec() -> bool {
        true
    }

    open spec fn from_spec(value: RepoError) -> ServiceError {
        ServiceError::IO(value)
    }
}

impl From<DomainError> for ServiceError {
    fn from(value: DomainError) -> (error: ServiceError) {
        ServiceError::Processing(value)
    }
}

impl vstd::std_specs::convert::FromSpecImpl<DomainError> for ServiceError {
    open spec fn obeys_from_spec() -> bool {
        true
    }

    open spec fn from_spec(value: DomainError) -> ServiceError {
        ServiceError::Processing(value)
    }
}

/// The product that holds `batch` once the batch is added to what the
/// repository keeps under its SKU: that product with one more batch, or a
/// new product of this one batch where the repository keeps none.
pub open spec fn with_batch(items: Map<Seq<char>, ProductView>, batch: crate::domain::BatchView)
    -> ProductView {
    if items.contains_key(batch.sku) {
        items[batch.sku].append_batch(batch)
    } else {
        ProductView { sku: batch.sku, batches: seq![batch] }
    }
}

/// Adds `batch` to the product of its SKU in the repository. Where the
/// repository has no product of that SKU yet, it gets one, which holds this
/// batch and no other. Nothing else in the repository changes, and the
/// service does not fail.
pub fn add_batch<R: Repository<Product>>(batch: Batch, repo: &mut R) -> (result: Result<
    (),
    ServiceError,
>)
    ensures
        result is Ok,
        final(repo).items() == old(repo).items().insert(
            batch@.sku,
            with_batch(old(repo).items(), batch@),
        ),
        !old(repo).items().contains_key(batch@.sku) ==> final(repo).items()[batch@.sku] == (
        ProductView { sku: batch@.sku, batches: seq![batch@] }),
{
    let mut product = match repo.read(batch.sku()) {
        Ok(product) => product,
        Err(_) => {
            let empty: Vec<Batch> = Vec::new();
            proof {
                assert(crate::domain::batch_views(empty@) =~= Seq::empty());
            }
            Product::new(batch.sku().to_owned(), empty)
        },
    };
    let ghost before = product@;
    match product.append_batch(batch) {
        Ok(()) => {},
        Err(error) => {
            return Err(ServiceError::from(error));
        },
    }
    proof {
        if !old(repo).items().contains_key(batch@.sku) {
            assert(before.batches.push(batch@) =~= seq![batch@]);
        }
    }
    match repo.update(product) {
        Ok(()) => Ok(()),
        Err(error) => Err(ServiceError::from(error)),
    }
}

/// Allocates `line` to the product of its SKU in the repository, and returns
/// the reference of the batch that took it. The product is kept again with
/// the line in that batch; nothing else in the repository changes. Where the
/// repository has no product of that SKU, the service fails with what the
/// repository says; where no batch of the product can take the line, with
/// what the product says. A failure changes nothing.
pub fn allocate<R: Repository<Product>>(line: &OrderLine, repo: &mut R) -> (result: Result<
    String,
    ServiceError,
>)
    ensures
        match result {
            Ok(reference) => {
                let product = old(repo).items()[line@.sku];
                &&& old(repo).items().contains_key(line@.sku)
                &&& product.can_allocate(line@)
                &&& is_preferred(product.batches, line@, product.chosen(line@))
                &&& reference@ == product.batches[product.chosen(line@)].reference
                &&& final(repo).items() == old(repo).items().insert(
                    line@.sku,
                    product.allocate(line@),
                )
            },
            Err(ServiceError::IO(RepoError::InvalidSku(sku))) => {
                &&& !old(repo).items().contains_key(line@.sku)
                &&& sku@ == line@.sku
                &&& final(repo).items() == old(repo).items()
            },
            Err(ServiceError::Processing(DomainError::OutOfStock(sku))) => {
                &&& old(repo).items().contains_key(line@.sku)
                &&& !old(repo).items()[line@.sku].can_allocate(line@)
                &&& sku@ == line@.sku
                &&& final(repo).items() == old(repo).items()
            },
            Err(_) => false,
        },
{
    let mut product = match repo.read(line.sku()) {
        Ok(product) => product,
        Err(error) => {
            return Err(ServiceError::from(error));
        },
    };
    let batch_ref = match product.allocate(line) {
        Ok(reference) => reference,
        Err(error) => {
            return Err(ServiceError::from(error));
        },
    };
    match repo.update(product) {
        Ok(()) => Ok(batch_ref),
        Err(error) => Err(ServiceError::from(error)),
    }
}

} // verus!
