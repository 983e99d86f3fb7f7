use cosmicrust::date::Date;
use cosmicrust::domain::{Batch, Product};
use cosmicrust::repo::{LocalBatchRepo, RepoError, Repository};

#[test]
fn test_that_local_store_can_read_and_write_batch() {
    let mut local_store = LocalBatchRepo::new();
    let product =
        Product::new(String::from("CUSHION"), vec![Batch::new("ref5", "CUSHION", 10, None)]);
    // write
    let written = local_store.write(product.clone());
    assert!(written.is_ok());
    //read
    let result = local_store.read("CUSHION");

    assert!(result.is_ok());
    let product_result = result.unwrap();
    assert_eq!(product_result.sku(), product.sku());
    assert_eq!(product_result.batches(), product.batches());
}

#[test]
fn test_returns_multiple() {
    let batches =
        vec![Batch::new("ref1", "SKU1", 10, None), Batch::new("ref2", "SKU1", 10, None)];
    let local_store = LocalBatchRepo::populate_from_vec(batches);

    // when
    let result = local_store.read("SKU1");
    // then
    assert_eq!(result.unwrap().batches().len(), 2);
}

#[test]
fn test_update_value() {
    // given
    let mut local_store = LocalBatchRepo::new();
    let initial_product =
        Product::new(String::from("CUSHION"), vec![Batch::new("ref5", "CUSHION", 10, None)]);
    assert!(local_store.update(initial_product).is_ok());
    assert_eq!(local_store.read("CUSHION").unwrap().batches()[0].available_quantity(), 10);
    let updated_product =
        Product::new(String::from("CUSHION"), vec![Batch::new("ref5", "CUSHION", 0, None)]);
    // when
    assert!(local_store.update(updated_product).is_ok());
    // then
    let readback = local_store.read("CUSHION");
    assert_eq!(readback.unwrap().batches()[0].available_quantity(), 0);
}

#[test]
fn write_refuses_a_sku_that_is_there_and_changes_nothing() {
    let mut repo = LocalBatchRepo::new();
    let first = Product::new(String::from("CUSHION"), vec![Batch::new("ref1", "CUSHION", 10, None)]);
    let second = Product::new(
        String::from("CUSHION"),
        vec![Batch::new("ref2", "CUSHION", 20, None), Batch::new("ref3", "CUSHION", 30, None)],
    );
    assert_eq!(repo.write(first), Ok(()));
    assert_eq!(repo.write(second.clone()), Err(RepoError::SkuExists(String::from("CUSHION"))));
    let kept = repo.read("CUSHION").unwrap();
    assert_eq!(kept.batches().len(), 1);
    assert_eq!(kept.batches()[0].reference(), "ref1");

    assert_eq!(repo.update(second), Ok(()));
    let kept = repo.read("CUSHION").unwrap();
    assert_eq!(kept.batches().len(), 2);
    assert_eq!(kept.batches()[0].reference(), "ref2");
    assert_eq!(kept.batches()[1].reference(), "ref3");
}

#[test]
fn read_of_a_sku_that_is_not_there_fails() {
    let repo = LocalBatchRepo::new();
    assert_eq!(repo.read("NOPE").err(), Some(RepoError::InvalidSku(String::from("NOPE"))));
    let repo = LocalBatchRepo::default();
    assert!(repo.read("").is_err());
}

#[test]
fn populate_groups_the_batches_by_sku_in_their_order() {
    let repo = LocalBatchRepo::populate_from_vec(vec![
        Batch::new("a1", "A", 1, None),
        Batch::new("b1", "B", 2, Date::from_ymd_opt(2022, 5, 22)),
        Batch::new("a2", "A", 3, None),
        Batch::new("c1", "C", 4, None),
        Batch::new("b2", "B", 5, None),
        Batch::new("a3", "A", 6, None),
    ]);
    let a = repo.read("A").unwrap();
    let b = repo.read("B").unwrap();
    let c = repo.read("C").unwrap();
    let refs = |p: &Product| -> Vec<String> {
        p.batches().iter().map(|batch| batch.reference().to_owned()).collect()
    };
    assert_eq!(a.sku(), "A");
    assert_eq!(refs(&a), vec!["a1", "a2", "a3"]);
    assert_eq!(refs(&b), vec!["b1", "b2"]);
    assert_eq!(refs(&c), vec!["c1"]);
    assert_eq!(b.batches()[0].eta(), Date::from_ymd_opt(2022, 5, 22));
    assert_eq!(a.batches()[2].purchased_quantity(), 6);
    assert!(repo.read("D").is_err());
    assert!(LocalBatchRepo::populate_from_vec(Vec::new()).read("A").is_err());
}

#[test]
fn read_hands_out_a_copy() {
    let mut repo = LocalBatchRepo::populate_from_vec(vec![Batch::new("a1", "A", 10, None)]);
    let mut product = repo.read("A").unwrap();
    let line = cosmicrust::domain::OrderLine::new("o1", "A", 4);
    assert!(product.allocate(&line).is_ok());
    assert_eq!(repo.read("A").unwrap().batches()[0].available_quantity(), 10);
    assert!(repo.update(product).is_ok());
    assert_eq!(repo.read("A").unwrap().batches()[0].available_quantity(), 6);
}

#[test]
fn repo_error_messages() {
    assert_eq!(RepoError::InvalidSku(String::from("X")).to_string(), "Invalid SKU: X");
    assert_eq!(
        RepoError::SkuExists(String::from("X")).to_string(),
        "SKU X exists, must update if changes are expected"
    );
    let error = RepoError::SkuExists(String::from("X"));
    assert_eq!(error.clone(), error);
}
