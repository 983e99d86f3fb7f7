use cosmicrust::date::Date;
use cosmicrust::domain::{Batch, DomainError, OrderLine, Product};
use std::cmp::Ordering;

fn make_batch_and_line(sku: &str, batch_qty: i64, line_qty: i64) -> (Batch, OrderLine) {
    let date = Date::from_ymd_opt(2022, 3, 26);
    let batch = Batch::new("batch-001", sku, batch_qty, date);
    let order = OrderLine::new("order-123", sku, line_qty);
    (batch, order)
}

#[test]
fn test_sort_vec_of_batches() {
    let mut batches = vec![
        Batch::new("shipment_batch", "RETRO-CLOCK", 100, Date::from_ymd_opt(2022, 5, 22)),
        Batch::new("in_stock_batch", "RETRO-CLOCK", 100, None),
    ];

    batches.sort_by(|a, b| a.cmp(b));

    assert_eq!(
        batches,
        vec![
            Batch::new("in_stock_batch", "RETRO-CLOCK", 100, None),
            Batch::new("shipment_batch", "RETRO-CLOCK", 100, Date::from_ymd_opt(2022, 5, 22))
        ]
    );
    assert_eq!(batches[0].reference(), "in_stock_batch");
    assert_eq!(batches[1].reference(), "shipment_batch");
}

#[test]
fn test_allocated_arithmetic() {
    let mut batch = Batch::new("abc123", "sku1", 100, None);
    let order_line = OrderLine::new("id1", "sku1", 10);

    assert_eq!(batch.allocated_quantity(), 0);
    assert_eq!(batch.available_quantity(), 100);

    batch.allocate(&order_line);

    assert_eq!(batch.allocated_quantity(), 10);
    assert_eq!(batch.available_quantity(), 90);
}

#[test]
fn test_can_allocate_if_available_greater_than_required() {
    let (large_batch, small_line) = make_batch_and_line("ELEGANT-LAMP", 20, 2);
    assert!(large_batch.can_allocate(&small_line))
}

#[test]
fn test_cannot_allocate_if_available_smaller_than_required() {
    let (small_batch, large_line) = make_batch_and_line("ELEGANT-LAMP", 2, 20);
    assert!(!small_batch.can_allocate(&large_line));
}

#[test]
fn test_can_allocate_if_available_eq_to_required() {
    let (batch, line) = make_batch_and_line("ELEGANT-LAMP", 2, 2);
    assert!(batch.can_allocate(&line));
}

#[test]
fn test_cannot_allocate_if_skus_do_not_match() {
    let batch = Batch::new("batch-001", "UNCOMFORTABLE-CHAIR", 100, None);
    let different_sku_line = OrderLine::new("order-123", "EXPENSIVE-TOASTER", 10);
    assert!(!batch.can_allocate(&different_sku_line));
}

#[test]
fn test_allocation_is_idempotent() {
    let (mut batch, line) = make_batch_and_line("ANGULAR-DESK", 20, 2);
    batch.allocate(&line);
    batch.allocate(&line);
    assert_eq!(batch.available_quantity(), 18);
}

#[test]
fn test_partial_ord_for_batches() {
    let in_stock_batch = Batch::new("in_stock_batch", "RETRO-CLOCK", 100, None);
    let shipment_batch =
        Batch::new("shipment_batch", "RETRO-CLOCK", 100, Date::from_ymd_opt(2022, 5, 22));
    assert!(in_stock_batch < shipment_batch);
}

#[test]
fn test_product_cannot_allocate() {
    // given
    let in_stock_sku = "in_stock_batch";
    let in_stock_batch = Batch::new("ref1", in_stock_sku, 100, None);
    let in_stock_orderline = OrderLine::new("order1", in_stock_sku, 200);
    let not_preset_orderline = OrderLine::new("order2", "not_present", 100);
    let mut product = Product::new(String::from(in_stock_sku), vec![in_stock_batch]);

    // invalid sku
    let result_not_present = product.allocate(&not_preset_orderline);
    assert!(result_not_present.is_err());
    // present but too not enough units
    let result_not_enough = product.allocate(&in_stock_orderline);
    assert!(result_not_enough.is_err());

    assert_eq!(result_not_present, Err(DomainError::InvalidSku(String::from("not_present"))));
    assert_eq!(result_not_enough, Err(DomainError::OutOfStock(String::from(in_stock_sku))));
    assert_eq!(product.batches()[0].available_quantity(), 100);
}

#[test]
fn test_product_can_allocate() {
    // given
    let in_stock_sku = "in_stock_batch";
    let in_stock_batch = Batch::new("ref1", in_stock_sku, 100, None);
    let in_stock_orderline = OrderLine::new("order1", in_stock_sku, 20);
    let mut product = Product::new(String::from(in_stock_sku), vec![in_stock_batch]);
    // when
    let result = product.allocate(&in_stock_orderline);
    // then
    assert!(result.is_ok());
    assert_eq!(result.unwrap(), String::from("ref1"));
    assert_eq!(product.batches()[0].available_quantity(), 80);
}

#[test]
fn batch_order_follows_the_arrival_date() {
    let none = Batch::new("a", "S", 1, None);
    let other_none = Batch::new("b", "S", 7, None);
    let may = Batch::new("c", "S", 1, Date::from_ymd_opt(2022, 5, 22));
    let june = Batch::new("d", "S", 1, Date::from_ymd_opt(2022, 6, 1));
    assert_eq!(none.cmp(&may), Ordering::Less);
    assert_eq!(may.cmp(&none), Ordering::Greater);
    assert_eq!(may.cmp(&june), Ordering::Less);
    assert_eq!(june.cmp(&may), Ordering::Greater);
    assert_eq!(none.cmp(&other_none), Ordering::Equal);
    assert_eq!(may.cmp(&may.clone()), Ordering::Equal);
    assert_eq!(may.partial_cmp(&june), Some(Ordering::Less));
    assert!(may < june);
    assert!(!(june < may));
    assert!(!(none < other_none));
}

#[test]
fn batches_are_equal_by_sku_and_arrival_date() {
    let a = Batch::new("a", "S", 1, Date::from_ymd_opt(2022, 5, 22));
    let b = Batch::new("b", "S", 9, Date::from_ymd_opt(2022, 5, 22));
    let other_sku = Batch::new("a", "T", 1, Date::from_ymd_opt(2022, 5, 22));
    let other_day = Batch::new("a", "S", 1, Date::from_ymd_opt(2022, 5, 23));
    let in_stock = Batch::new("a", "S", 1, None);
    assert!(a == b);
    assert!(a != other_sku);
    assert!(a != other_day);
    assert!(a != in_stock);
    assert!(in_stock == Batch::new("z", "S", 3, None));
}

#[test]
fn order_lines_are_equal_by_all_three_fields() {
    let line = OrderLine::new("o1", "S", 2);
    assert!(line == OrderLine::new("o1", "S", 2));
    assert!(line != OrderLine::new("o2", "S", 2));
    assert!(line != OrderLine::new("o1", "T", 2));
    assert!(line != OrderLine::new("o1", "S", 3));
    assert!(line == line.clone());
    assert_eq!(line.order_id(), "o1");
    assert_eq!(line.sku(), "S");
    assert_eq!(line.qty(), 2);
}

#[test]
fn allocation_takes_the_quantity_once_for_each_line() {
    let mut batch = Batch::new("b", "S", 10, None);
    let first = OrderLine::new("o1", "S", 4);
    let second = OrderLine::new("o2", "S", 6);
    let third = OrderLine::new("o3", "S", 1);
    batch.allocate(&first);
    batch.allocate(&second);
    assert_eq!(batch.allocated_quantity(), 10);
    assert_eq!(batch.available_quantity(), 0);
    assert!(!batch.can_allocate(&third));
    batch.allocate(&third);
    assert_eq!(batch.allocated_quantity(), 10);
    batch.allocate(&first);
    assert_eq!(batch.allocated_quantity(), 10);
}

#[test]
fn deallocate_gives_the_quantity_back() {
    let mut batch = Batch::new("b", "S", 10, None);
    let first = OrderLine::new("o1", "S", 4);
    let second = OrderLine::new("o2", "S", 6);
    batch.allocate(&first);
    batch.allocate(&second);
    batch.deallocate(&first);
    assert_eq!(batch.allocated_quantity(), 6);
    assert_eq!(batch.available_quantity(), 4);
    batch.deallocate(&first);
    assert_eq!(batch.available_quantity(), 4);
    batch.deallocate(&OrderLine::new("o9", "S", 6));
    assert_eq!(batch.available_quantity(), 4);
    batch.deallocate(&second);
    assert_eq!(batch.allocated_quantity(), 0);
    assert_eq!(batch.available_quantity(), 10);
}

#[test]
fn batch_keeps_what_it_was_made_with() {
    let eta = Date::from_ymd_opt(2022, 5, 22);
    let batch = Batch::new("ref", "S", -3, eta);
    assert_eq!(batch.reference(), "ref");
    assert_eq!(batch.sku(), "S");
    assert_eq!(batch.eta(), eta);
    assert_eq!(batch.purchased_quantity(), -3);
    assert_eq!(batch.available_quantity(), -3);
    assert!(!batch.can_allocate(&OrderLine::new("o", "S", 1)));
    let copy = batch.clone();
    assert_eq!(copy.reference(), "ref");
    assert_eq!(copy.purchased_quantity(), -3);
}

#[test]
fn append_batch_lets_in_batches_of_the_product_only() {
    let mut product = Product::new(String::from("S"), Vec::new());
    assert_eq!(product.append_batch(Batch::new("b1", "S", 10, None)), Ok(()));
    assert_eq!(
        product.append_batch(Batch::new("b2", "T", 10, None)),
        Err(DomainError::InvalidSku(String::from("T")))
    );
    assert_eq!(product.append_batch(Batch::new("b3", "S", 5, None)), Ok(()));
    assert_eq!(product.sku(), "S");
    assert_eq!(product.batches().len(), 2);
    assert_eq!(product.batches()[0].reference(), "b1");
    assert_eq!(product.batches()[1].reference(), "b3");
    let (sku, batches) = product.clone().into_parts();
    assert_eq!(sku, "S");
    assert_eq!(batches.len(), 2);
}

#[test]
fn product_allocates_in_place_to_the_preferred_batch() {
    let shipment = Batch::new("shipment", "S", 100, Date::from_ymd_opt(2022, 5, 22));
    let in_stock = Batch::new("in_stock", "S", 100, None);
    let mut product = Product::new(String::from("S"), vec![shipment, in_stock]);
    let result = product.allocate(&OrderLine::new("o1", "S", 10));
    assert_eq!(result, Ok(String::from("in_stock")));
    assert_eq!(product.batches()[0].reference(), "shipment");
    assert_eq!(product.batches()[0].available_quantity(), 100);
    assert_eq!(product.batches()[1].reference(), "in_stock");
    assert_eq!(product.batches()[1].available_quantity(), 90);
}

#[test]
fn domain_error_messages() {
    assert_eq!(DomainError::InvalidSku(String::from("X")).to_string(), "Invalid SKU: X");
    assert_eq!(DomainError::OutOfStock(String::from("X")).to_string(), "Out of stock for SKU: X");
    let error = DomainError::OutOfStock(String::from("X"));
    assert_eq!(error.clone(), error);
}
