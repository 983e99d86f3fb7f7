//! The entities of the allocation domain: order lines, batches of stock and
//! products.

use crate::allocate::{allocate, any_can_allocate, is_preferred, preferred_index, views_of};
use crate::date::{Date, DateView};
use std::cmp::Ordering;
use vstd::prelude::*;
use vstd::set::fold::{is_fun_commutative, lemma_fold_empty, lemma_fold_insert};
use vstd::string::StringExecFns;

verus! {

/// An order line as mathematical values.
pub struct OrderLineView {
    pub order_id: Seq<char>,
    pub sku: Seq<char>,
    pub qty: int,
}

/// A request for a quantity of one product, part of a customer's order.
///
/// An order line is a value: two lines are equal when their order, their SKU
/// and their quantity are. Its quantity is positive, and nothing changes it
/// once it is made.
#[derive(Debug, Hash)]
pub struct OrderLine {
    order_id: String,
    sku: String,
    qty: i64,
}

impl View for OrderLine {
    type V = OrderLineView;

    closed spec fn view(&self) -> OrderLineView {
        OrderLineView { order_id: self.order_id@, sku: self.sku@, qty: self.qty as int }
    }
}

impl OrderLine {
    #[verifier::type_invariant]
    spec fn has_positive_qty(self) -> bool {
        self.qty > 0
    }

    /// The line of the order `order_id` that asks for `qty` units of `sku`.
    pub fn new(order_id: &str, sku: &str, qty: i64) -> (line: OrderLine)
        requires
            qty > 0,
        ensures
            line@ == (OrderLineView { order_id: order_id@, sku: sku@, qty: qty as int }),
    {
        OrderLine { order_id: order_id.to_owned(), sku: sku.to_owned(), qty }
    }

    pub fn order_id(&self) -> (order_id: &str)
        ensures
            order_id@ == self@.order_id,
    {
        self.order_id.as_str()
    }

    pub fn sku(&self) -> (sku: &str)
        ensures
            sku@ == self@.sku,
    {
        self.sku.as_str()
    }

    pub fn qty(&self) -> (qty: i64)
        ensures
            qty == self@.qty,
            qty > 0,
    {
        proof {
            use_type_invariant(self);
        }
        self.qty
    }
}

impl Clone for OrderLine {
    fn clone(&self) -> (line: OrderLine)
        ensures
            line@ == self@,
    {
        proof {
            use_type_invariant(self);
        }
        OrderLine { order_id: self.order_id.clone(), sku: self.sku.clone(), qty: self.qty }
    }
}

impl PartialEq for OrderLine {
    fn eq(&self, other: &OrderLine) -> (equal: bool) {
        self.sku == other.sku && self.qty == other.qty && self.order_id == other.order_id
    }
}

impl Eq for OrderLine {

}

impl vstd::std_specs::cmp::PartialEqSpecImpl for OrderLine {
    open spec fn obeys_eq_spec() -> bool {
        true
    }

    open spec fn eq_spec(&self, other: &OrderLine) -> bool {
        self@ == other@
    }
}

/// Adds the quantity of one order line to a sum.
pub open spec fn add_qty() -> spec_fn(int, OrderLineView) -> int {
    |sum: int, line: OrderLineView| sum + line.qty
}

/// The sum of the quantities of a finite set of order lines.
pub open spec fn total_qty(lines: Set<OrderLineView>) -> int {
    lines.fold(0int, add_qty())
}

/// No order lines, no quantity.
pub proof fn lemma_total_qty_of_none()
    ensures
        total_qty(Set::empty()) == 0,
{
    lemma_fold_empty(0int, add_qty());
}

/// One more order line adds its quantity to the sum.
pub proof fn lemma_total_qty_insert(lines: Set<OrderLineView>, line: OrderLineView)
    requires
        lines.finite(),
        !lines.contains(line),
    ensures
        total_qty(lines.insert(line)) == total_qty(lines) + line.qty,
{
    assert(is_fun_commutative(add_qty()));
    lemma_fold_insert(lines, 0int, add_qty(), line);
}

/// One order line less takes its quantity from the sum.
pub proof fn lemma_total_qty_remove(lines: Set<OrderLineView>, line: OrderLineView)
    requires
        lines.finite(),
        lines.contains(line),
    ensures
        total_qty(lines.remove(line)) == total_qty(lines) - line.qty,
{
    lemma_total_qty_insert(lines.remove(line), line);
    assert(lines.remove(line).insert(line) =~= lines);
}

spec fn line_views(lines: Seq<OrderLine>) -> Seq<OrderLineView> {
    lines.map_values(|line: OrderLine| line@)
}

spec fn seq_qty(lines: Seq<OrderLineView>) -> int
    decreases lines.len(),
{
    if lines.len() == 0 {
        0
    } else {
        seq_qty(lines.drop_last()) + lines.last().qty
    }
}

spec fn all_positive(lines: Seq<OrderLineView>) -> bool {
    forall|i: int| 0 <= i < lines.len() ==> (#[trigger] lines[i]).qty > 0
}

proof fn lemma_seq_qty_is_total_qty(lines: Seq<OrderLineView>)
    requires
        lines.no_duplicates(),
    ensures
        seq_qty(lines) == total_qty(lines.to_set()),
    decreases lines.len(),
{
    if lines.len() == 0 {
        assert(lines.to_set() =~= Set::empty());
        lemma_total_qty_of_none();
    } else {
        let front = lines.drop_last();
        lemma_seq_qty_is_total_qty(front);
        vstd::seq_lib::seq_to_set_is_finite(front);
        assert(front.to_set().insert(lines.last()) =~= lines.to_set()) by {
            assert forall|line: OrderLineView| lines.to_set().contains(line) implies front.to_set()
                .insert(lines.last()).contains(line) by {
                let i = choose|i: int| 0 <= i < lines.len() && lines[i] == line;
                if i < lines.len() - 1 {
                    assert(front[i] == line);
                }
            }
            assert forall|line: OrderLineView|
                front.to_set().insert(lines.last()).contains(line) implies lines.to_set().contains(
                line,
            ) by {
                if line != lines.last() {
                    let i = choose|i: int| 0 <= i < front.len() && front[i] == line;
                    assert(lines[i] == line);
                } else {
                    assert(lines[lines.len() - 1] == line);
                }
            }
        }
        lemma_total_qty_insert(front.to_set(), lines.last());
    }
}

proof fn lemma_seq_qty_of_front(lines: Seq<OrderLineView>, n: int)
    requires
        all_positive(lines),
        0 <= n <= lines.len(),
    ensures
        0 <= seq_qty(lines.take(n)) <= seq_qty(lines),
        n < lines.len() ==> seq_qty(lines.take(n + 1)) == seq_qty(lines.take(n)) + lines[n].qty,
    decreases lines.len() - n,
{
    if n == lines.len() {
        assert(lines.take(n) =~= lines);
        lemma_seq_qty_is_not_negative(lines);
    } else {
        lemma_seq_qty_of_front(lines, n + 1);
        assert(lines.take(n + 1).drop_last() =~= lines.take(n));
        assert(all_positive(lines.take(n))) by {
            assert forall|i: int| 0 <= i < lines.take(n).len() implies (#[trigger] lines.take(
                n,
            )[i]).qty > 0 by {
                assert(lines.take(n)[i] == lines[i]);
            }
        }
        lemma_seq_qty_is_not_negative(lines.take(n));
    }
}

proof fn lemma_seq_qty_is_not_negative(lines: Seq<OrderLineView>)
    requires
        all_positive(lines),
    ensures
        0 <= seq_qty(lines),
        lines.len() > 0 ==> 0 < seq_qty(lines),
    decreases lines.len(),
{
    if lines.len() > 0 {
        assert(all_positive(lines.drop_last())) by {
            assert forall|i: int| 0 <= i < lines.drop_last().len() implies (
            #[trigger] lines.drop_last()[i]).qty > 0 by {
                assert(lines.drop_last()[i] == lines[i]);
            }
        }
        lemma_seq_qty_is_not_negative(lines.drop_last());
        assert(lines.last() == lines[lines.len() - 1]);
    }
}

/// An arrival date as mathematical values.
pub open spec fn eta_view(eta: Option<Date>) -> Option<DateView> {
    match eta {
        Some(date) => Some(date@),
        None => None,
    }
}

/// Whether stock that arrives at `a` is preferred to stock that arrives at
/// `b`. No arrival date means that the stock is in the warehouse: it is
/// preferred to every shipment, and of two shipments the earlier one is
/// preferred.
pub open spec fn eta_is_before(a: Option<DateView>, b: Option<DateView>) -> bool {
    match (a, b) {
        (None, Some(_)) => true,
        (Some(first), Some(second)) => first.is_before(second),
        _ => false,
    }
}

/// The preference between two arrival dates as an `Ordering`: `Less` where
/// the first is preferred, `Equal` where neither is.
pub open spec fn eta_ordering(a: Option<DateView>, b: Option<DateView>) -> Ordering {
    if eta_is_before(a, b) {
        Ordering::Less
    } else if eta_is_before(b, a) {
        Ordering::Greater
    } else {
        Ordering::Equal
    }
}

/// A batch of stock as mathematical values.
pub struct BatchView {
    pub reference: Seq<char>,
    pub sku: Seq<char>,
    pub eta: Option<DateView>,
    pub purchased_qty: int,
    pub allocations: Set<OrderLineView>,
}

impl BatchView {
    /// What holds of every batch: it has finitely many order lines, each of
    /// its own SKU, and what they take together was there to be taken.
    pub open spec fn wf(self) -> bool {
        &&& self.allocations.finite()
        &&& forall|line: OrderLineView| #[trigger]
            self.allocations.contains(line) ==> line.qty > 0 && line.sku == self.sku
        &&& self.allocations.is_empty() || self.allocated_quantity() <= self.purchased_qty
    }

    pub open spec fn allocated_quantity(self) -> int {
        total_qty(self.allocations)
    }

    pub open spec fn available_quantity(self) -> int {
        self.purchased_qty - self.allocated_quantity()
    }

    pub open spec fn can_allocate(self, line: OrderLineView) -> bool {
        self.sku == line.sku && self.available_quantity() >= line.qty
    }

    /// The batch after an attempt to allocate `line` to it.
    pub open spec fn allocate(self, line: OrderLineView) -> BatchView {
        if self.can_allocate(line) {
            BatchView { allocations: self.allocations.insert(line), ..self }
        } else {
            self
        }
    }

    /// The batch after `line` is taken from it.
    pub open spec fn deallocate(self, line: OrderLineView) -> BatchView {
        BatchView { allocations: self.allocations.remove(line), ..self }
    }

    /// Whether allocation prefers `self` to `other`.
    pub open spec fn sorts_before(self, other: BatchView) -> bool {
        eta_is_before(self.eta, other.eta)
    }
}

/// A quantity of stock of one product, bought at one time: in the warehouse,
/// or on its way and expected at `eta`.
#[derive(Debug)]
pub struct Batch {
    reference: String,
    sku: String,
    eta: Option<Date>,
    purchased_qty: i64,
    allocations: Vec<OrderLine>,
}

impl View for Batch {
    type V = BatchView;

    closed spec fn view(&self) -> BatchView {
        BatchView {
            reference: self.reference@,
            sku: self.sku@,
            eta: eta_view(self.eta),
            purchased_qty: self.purchased_qty as int,
            allocations: line_views(self.allocations@).to_set(),
        }
    }
}

impl Batch {
    #[verifier::type_invariant]
    spec fn inv(self) -> bool {
        let lines = line_views(self.allocations@);
        &&& lines.no_duplicates()
        &&& all_positive(lines)
        &&& forall|i: int| 0 <= i < lines.len() ==> (#[trigger] lines[i]).sku == self.sku@
        &&& lines.len() > 0 ==> seq_qty(lines) <= self.purchased_qty
    }

    proof fn lemma_view(self)
        requires
            self.inv(),
        ensures
            self@.wf(),
            self@.allocated_quantity() == seq_qty(line_views(self.allocations@)),
            self.allocations@.len() == 0 <==> self@.allocations.is_empty(),
    {
        let lines = line_views(self.allocations@);
        vstd::seq_lib::seq_to_set_is_finite(lines);
        lemma_seq_qty_is_total_qty(lines);
        if lines.len() > 0 {
            assert(lines.to_set().contains(lines[0]));
        } else {
            assert(lines.to_set() =~= Set::empty());
        }
    }

    /// A batch of `qty` units of `sku`, with nothing allocated yet. It is in
    /// stock if `eta` is `None`, and expected at that date otherwise.
    pub fn new(reference: &str, sku: &str, qty: i64, eta: Option<Date>) -> (batch: Batch)
        ensures
            batch@ == (BatchView {
                reference: reference@,
                sku: sku@,
                eta: eta_view(eta),
                purchased_qty: qty as int,
                allocations: Set::empty(),
            }),
            batch@.wf(),
    {
        let batch = Batch {
            reference: reference.to_owned(),
            sku: sku.to_owned(),
            eta,
            purchased_qty: qty,
            allocations: Vec::new(),
        };
        proof {
            assert(line_views(batch.allocations@) =~= Seq::empty());
            assert(line_views(batch.allocations@).to_set() =~= Set::empty());
        }
        batch
    }

    /// Where among the allocations `line` stands, if it is among them.
    fn position_of(&self, line: &OrderLine) -> (position: Option<usize>)
        ensures
            match position {
                Some(i) => i < self.allocations@.len() && self.allocations@[i as int]@ == line@,
                None => !self@.allocations.contains(line@),
            },
    {
        let mut i: usize = 0;
        while i < self.allocations.len()
            invariant
                i <= self.allocations@.len(),
                forall|j: int| 0 <= j < i ==> (#[trigger] self.allocations@[j])@ != line@,
            decreases self.allocations@.len() - i,
        {
            if self.allocations[i] == *line {
                return Some(i);
            }
            i += 1;
        }
        proof {
            let lines = line_views(self.allocations@);
            if lines.to_set().contains(line@) {
                let j = choose|j: int| 0 <= j < lines.len() && lines[j] == line@;
                assert(self.allocations@[j]@ == line@);
            }
        }
        None
    }

    /// The sum of the quantities of the order lines allocated to the batch.
    pub fn allocated_quantity(&self) -> (quantity: i64)
        ensures
            quantity == self@.allocated_quantity(),
            quantity >= 0,
            self@.wf(),
    {
        proof {
            use_type_invariant(self);
            self.lemma_view();
        }
        let ghost lines = line_views(self.allocations@);
        let mut quantity: i64 = 0;
        let mut i: usize = 0;
        while i < self.allocations.len()
            invariant
                i <= self.allocations@.len(),
                lines == line_views(self.allocations@),
                all_positive(lines),
                lines.len() > 0 ==> seq_qty(lines) <= self.purchased_qty,
                quantity == seq_qty(lines.take(i as int)),
            decreases self.allocations@.len() - i,
        {
            proof {
                lemma_seq_qty_of_front(lines, i as int);
                lemma_seq_qty_of_front(lines, i + 1);
            }
            quantity = quantity + self.allocations[i].qty;
            i += 1;
        }
        proof {
            assert(lines.take(i as int) =~= lines);
            lemma_seq_qty_is_not_negative(lines);
        }
        quantity
    }

    /// What is left of the batch: the quantity purchased less the quantity
    /// allocated. It is not negative unless the quantity purchased is.
    pub fn available_quantity(&self) -> (quantity: i64)
        ensures
            quantity == self@.available_quantity(),
            self@.purchased_qty >= 0 ==> quantity >= 0,
            self@.wf(),
    {
        proof {
            use_type_invariant(self);
            self.lemma_view();
        }
        self.purchased_qty - self.allocated_quantity()
    }

    /// Whether `line` asks for the product of this batch and for no more than
    /// is left of it. A line for another product cannot be allocated,
    /// whatever its quantity; a line for this product can be if and only if
    /// the quantity left is at least its own.
    pub fn can_allocate(&self, line: &OrderLine) -> (can: bool)
        ensures
            can == self@.can_allocate(line@),
            line@.sku != self@.sku ==> !can,
            line@.sku == self@.sku ==> (can <==> self@.available_quantity() >= line@.qty),
            self@.wf(),
    {
        let sku_match = self.sku == line.sku;
        let qty_ok = self.available_quantity() >= line.qty;
        sku_match && qty_ok
    }

    /// Allocates `line` to this batch if it can be allocated, and does
    /// nothing if it cannot. A batch holds a line once: to allocate it again
    /// changes nothing.
    pub fn allocate(&mut self, line: &OrderLine)
        ensures
            final(self)@ == old(self)@.allocate(line@),
            final(self)@.wf(),
    {
        proof {
            use_type_invariant(&*self);
            use_type_invariant(line);
            self.lemma_view();
        }
        if self.can_allocate(line) {
            match self.position_of(line) {
                None => {
                    let ghost before = line_views(self.allocations@);
                    let mut lines: Vec<OrderLine> = Vec::new();
                    proof {
                        assert(line_views(lines@) =~= Seq::empty());
                    }
                    std::mem::swap(&mut self.allocations, &mut lines);
                    lines.push(line.clone());
                    proof {
                        let after = line_views(lines@);
                        assert(after =~= before.push(line@));
                        assert(after.drop_last() =~= before);
                        before.lemma_push_to_set_commute(line@);
                        lemma_seq_qty_is_not_negative(before);
                    }
                    std::mem::swap(&mut self.allocations, &mut lines);
                    proof {
                        use_type_invariant(&*self);
                        self.lemma_view();
                    }
                },
                Some(i) => {
                    proof {
                        assert(line_views(self.allocations@)[i as int] == line@);
                        assert(self@.allocations.insert(line@) =~= self@.allocations);
                    }
                },
            }
        }
    }

    /// Takes `line` from this batch if the batch holds it, and does nothing
    /// if it does not.
    pub fn deallocate(&mut self, line: &OrderLine)
        ensures
            final(self)@ == old(self)@.deallocate(line@),
            final(self)@.wf(),
    {
        proof {
            use_type_invariant(&*self);
            self.lemma_view();
        }
        match self.position_of(line) {
            Some(i) => {
                let ghost before = line_views(self.allocations@);
                let mut lines: Vec<OrderLine> = Vec::new();
                proof {
                    assert(line_views(lines@) =~= Seq::empty());
                }
                std::mem::swap(&mut self.allocations, &mut lines);
                lines.remove(i);
                proof {
                    lemma_remove_line(before, i as int);
                    assert(line_views(lines@) =~= before.remove(i as int));
                }
                std::mem::swap(&mut self.allocations, &mut lines);
                proof {
                    use_type_invariant(&*self);
                    self.lemma_view();
                }
            },
            None => {
                assert(self@.allocations.remove(line@) =~= self@.allocations);
            },
        }
    }

    pub fn reference(&self) -> (reference: &str)
        ensures
            reference@ == self@.reference,
    {
        self.reference.as_str()
    }

    pub fn sku(&self) -> (sku: &str)
        ensures
            sku@ == self@.sku,
    {
        self.sku.as_str()
    }

    pub fn eta(&self) -> (eta: Option<Date>)
        ensures
            eta_view(eta) == self@.eta,
    {
        self.eta
    }

    pub fn purchased_quantity(&self) -> (quantity: i64)
        ensures
            quantity == self@.purchased_qty,
    {
        self.purchased_qty
    }
}

impl Clone for Batch {
    fn clone(&self) -> (batch: Batch)
        ensures
            batch@ == self@,
    {
        proof {
            use_type_invariant(self);
        }
        let allocations = self.allocations.clone();
        proof {
            assert(line_views(allocations@) =~= line_views(self.allocations@));
        }
        Batch {
            reference: self.reference.clone(),
            sku: self.sku.clone(),
            eta: self.eta,
            purchased_qty: self.purchased_qty,
            allocations,
        }
    }
}

impl Batch {
    /// The order in which allocation takes batches: `Less` where `self` is
    /// preferred to `other`. A batch in stock comes before every shipment,
    /// whatever the date of the shipment, and of two shipments the one that
    /// arrives earlier comes first. Neither the reference nor the quantities
    /// count.
    pub fn cmp(&self, other: &Batch) -> (order: Ordering)
        ensures
            order == eta_ordering(self@.eta, other@.eta),
            self@.eta is None && other@.eta is Some ==> order == Ordering::Less,
            self@.eta is Some && other@.eta is Some ==> (order == Ordering::Less
                <==> self@.eta->0.is_before(other@.eta->0)),
    {
        match (self.eta, other.eta) {
            (None, None) => Ordering::Equal,
            (None, Some(_)) => Ordering::Less,
            (Some(_), None) => Ordering::Greater,
            (Some(first), Some(second)) => {
                if first.is_before(&second) {
                    Ordering::Less
                } else if second.is_before(&first) {
                    Ordering::Greater
                } else {
                    Ordering::Equal
                }
            },
        }
    }
}

impl PartialEq for Batch {
    /// Batches compare by SKU and arrival date alone: two batches of one
    /// product that arrive together are equal, whatever their references and
    /// quantities.
    fn eq(&self, other: &Batch) -> (equal: bool) {
        let same_eta = match (self.eta, other.eta) {
            (None, None) => true,
            (Some(first), Some(second)) => first == second,
            _ => false,
        };
        self.sku == other.sku && same_eta
    }
}

impl Eq for Batch {

}

impl vstd::std_specs::cmp::PartialEqSpecImpl for Batch {
    open spec fn obeys_eq_spec() -> bool {
        true
    }

    open spec fn eq_spec(&self, other: &Batch) -> bool {
        self@.sku == other@.sku && self@.eta == other@.eta
    }
}

impl PartialOrd for Batch {
    fn partial_cmp(&self, other: &Batch) -> (order: Option<Ordering>) {
        Some(self.cmp(other))
    }
}

impl vstd::std_specs::cmp::PartialOrdSpecImpl for Batch {
    open spec fn obeys_partial_cmp_spec() -> bool {
        true
    }

    open spec fn partial_cmp_spec(&self, other: &Batch) -> Option<Ordering> {
        Some(eta_ordering(self@.eta, other@.eta))
    }
}

/// To allocate an order line a second time changes nothing: the quantity
/// available goes down by the quantity of the line once, when the line is
/// first allocated, and not again.
pub proof fn lemma_allocate_is_idempotent(batch: BatchView, line: OrderLineView)
    requires
        batch.wf(),
    ensures
        batch.allocate(line).allocate(line) == batch.allocate(line),
        batch.can_allocate(line) && !batch.allocations.contains(line) ==> batch.allocate(
            line,
        ).allocate(line).available_quantity() == batch.available_quantity() - line.qty,
        !batch.can_allocate(line) || batch.allocations.contains(line) ==> batch.allocate(
            line,
        ).allocate(line).available_quantity() == batch.available_quantity(),
{
    let once = batch.allocate(line);
    if batch.can_allocate(line) {
        assert(once.allocations.insert(line) =~= once.allocations);
        if batch.allocations.contains(line) {
            assert(batch.allocations.insert(line) =~= batch.allocations);
        } else {
            lemma_total_qty_insert(batch.allocations, line);
        }
    }
}

/// A batch stays well formed when an order line is allocated to it, and
/// after that it has at least nothing left.
pub proof fn lemma_allocate_keeps_wf(batch: BatchView, line: OrderLineView)
    requires
        batch.wf(),
        line.qty > 0,
    ensures
        batch.allocate(line).wf(),
        batch.can_allocate(line) ==> batch.allocate(line).available_quantity() >= 0,
{
    if batch.can_allocate(line) {
        if batch.allocations.contains(line) {
            assert(batch.allocations.insert(line) =~= batch.allocations);
        } else {
            lemma_total_qty_insert(batch.allocations, line);
        }
    }
}

/// What is left of a sequence of distinct order lines when one leaves.
proof fn lemma_remove_line(lines: Seq<OrderLineView>, i: int)
    requires
        lines.no_duplicates(),
        all_positive(lines),
        0 <= i < lines.len(),
    ensures
        lines.remove(i).no_duplicates(),
        all_positive(lines.remove(i)),
        lines.remove(i).to_set() == lines.to_set().remove(lines[i]),
        seq_qty(lines.remove(i)) == seq_qty(lines) - lines[i].qty,
        forall|j: int|
            0 <= j < lines.remove(i).len() ==> lines.to_set().contains(
                #[trigger] lines.remove(i)[j],
            ),
{
    let rest = lines.remove(i);
    assert forall|j: int| 0 <= j < rest.len() implies rest[j] == lines[if j < i {
        j
    } else {
        j + 1
    }] by {}
    assert forall|j: int| 0 <= j < rest.len() implies lines.to_set().contains(
        #[trigger] rest[j],
    ) by {
        assert(rest[j] == lines[if j < i {
            j
        } else {
            j + 1
        }]);
    }
    assert(rest.to_set() =~= lines.to_set().remove(lines[i])) by {
        assert forall|line: OrderLineView|
            lines.to_set().remove(lines[i]).contains(line) implies rest.to_set().contains(line) by {
            let j = choose|j: int| 0 <= j < lines.len() && lines[j] == line;
            if j < i {
                assert(rest[j] == line);
            } else {
                assert(rest[j - 1] == line);
            }
        }
    }
    vstd::seq_lib::seq_to_set_is_finite(lines);
    lemma_seq_qty_is_total_qty(lines);
    lemma_seq_qty_is_total_qty(rest);
    lemma_total_qty_remove(lines.to_set(), lines[i]);
}

/// Why a product refuses an order line or a batch.
#[derive(Debug, PartialEq, Eq)]
pub enum DomainError {
    /// The order line or the batch is for another product; holds its SKU.
    InvalidSku(String),
    /// No batch of the product can take the order line; holds its SKU.
    OutOfStock(String),
}

impl Clone for DomainError {
    fn clone(&self) -> (error: DomainError)
        ensures
            error == *self,
    {
        match self {
            DomainError::InvalidSku(sku) => DomainError::InvalidSku(sku.clone()),
            DomainError::OutOfStock(sku) => DomainError::OutOfStock(sku.clone()),
        }
    }
}

impl DomainError {
    /// What the error says in words.
    pub open spec fn message(self) -> Seq<char> {
        match self {
            DomainError::InvalidSku(sku) => "Invalid SKU: "@ + sku@,
            DomainError::OutOfStock(sku) => "Out of stock for SKU: "@ + sku@,
        }
    }

    pub fn to_string(&self) -> (message: String)
        ensures
            message@ == self.message(),
    {
        match self {
            DomainError::InvalidSku(sku) => "Invalid SKU: ".to_owned().concat(sku.as_str()),
            DomainError::OutOfStock(sku) => "Out of stock for SKU: ".to_owned().concat(
                sku.as_str(),
            ),
        }
    }
}

/// A list of batches as mathematical values.
pub open spec fn batch_views(batches: Seq<Batch>) -> Seq<BatchView> {
    batches.map_values(|batch: Batch| batch@)
}

/// Whether every batch of the list is of the product `sku`.
pub open spec fn all_of_sku(batches: Seq<BatchView>, sku: Seq<char>) -> bool {
    forall|i: int| 0 <= i < batches.len() ==> (#[trigger] batches[i]).sku == sku
}

/// A product as mathematical values.
pub struct ProductView {
    pub sku: Seq<char>,
    pub batches: Seq<BatchView>,
}

impl ProductView {
    /// What holds of every product: its batches are well formed, and all of
    /// them are batches of this product.
    pub open spec fn wf(self) -> bool {
        &&& all_of_sku(self.batches, self.sku)
        &&& forall|i: int| 0 <= i < self.batches.len() ==> (#[trigger] self.batches[i]).wf()
    }

    /// Whether one of the batches can take `line`.
    pub open spec fn can_allocate(self, line: OrderLineView) -> bool {
        any_can_allocate(self.batches, line)
    }

    /// The place of the batch that takes `line`, where one can.
    pub open spec fn chosen(self, line: OrderLineView) -> int {
        preferred_index(self.batches, line)
    }

    /// The product after `line` is allocated to the batch that takes it.
    pub open spec fn allocate(self, line: OrderLineView) -> ProductView {
        let chosen = self.chosen(line);
        ProductView {
            batches: self.batches.update(chosen, self.batches[chosen].allocate(line)),
            ..self
        }
    }

    /// The product with one more batch.
    pub open spec fn append_batch(self, batch: BatchView) -> ProductView {
        ProductView { batches: self.batches.push(batch), ..self }
    }
}

/// All the stock of one product: the batches of one SKU, in the order in
/// which they were added. Whatever is allocated or added goes through the
/// product, which lets in no batch of another SKU.
#[derive(Debug)]
pub struct Product {
    sku: String,
    batches: Vec<Batch>,
}

impl View for Product {
    type V = ProductView;

    closed spec fn view(&self) -> ProductView {
        ProductView { sku: self.sku@, batches: batch_views(self.batches@) }
    }
}

/// A mutable reference to each batch of the list, in the order of the list.
fn borrow_all<'a>(batches: &'a mut Vec<Batch>) -> (refs: Vec<&'a mut Batch>)
    ensures
        refs@.len() == old(batches)@.len(),
        final(batches)@.len() == refs@.len(),
        forall|i: int| 0 <= i < refs@.len() ==> *#[trigger] refs@[i] == old(batches)@[i],
        forall|i: int| 0 <= i < refs@.len() ==> final(batches)@[i] == *final(#[trigger] refs@[i]),
{
    let ghost before = batches@;
    let mut rest: &mut [Batch] = batches.as_mut_slice();
    let ghost whole = rest;
    let mut refs: Vec<&mut Batch> = Vec::new();
    while rest.len() > 0
        invariant
            refs@.len() + rest@.len() == before.len(),
            forall|i: int| 0 <= i < refs@.len() ==> *#[trigger] refs@[i] == before[i],
            forall|i: int| 0 <= i < rest@.len() ==> #[trigger] rest@[i] == before[refs@.len() + i],
            final(whole)@ =~= Seq::new(refs@.len(), |i: int| *final(refs@[i])) + final(rest)@,
        decreases rest@.len(),
    {
        let (head, tail) = rest.split_at_mut(1);
        let first = head.first_mut().unwrap();
        refs.push(first);
        rest = tail;
    }
    refs
}

impl Product {
    #[verifier::type_invariant]
    spec fn inv(self) -> bool {
        all_of_sku(batch_views(self.batches@), self.sku@)
    }

    /// The product `sku` with the given batches, all of which are batches of
    /// that product.
    pub fn new(sku: String, batches: Vec<Batch>) -> (product: Product)
        requires
            all_of_sku(batch_views(batches@), sku@),
        ensures
            product@ == (ProductView { sku: sku@, batches: batch_views(batches@) }),
    {
        Product { sku, batches }
    }

    pub fn sku(&self) -> (sku: &str)
        ensures
            sku@ == self@.sku,
    {
        self.sku.as_str()
    }

    pub fn batches(&self) -> (batches: &Vec<Batch>)
        ensures
            batch_views(batches@) == self@.batches,
            all_of_sku(self@.batches, self@.sku),
    {
        proof {
            use_type_invariant(self);
        }
        &self.batches
    }

    /// The SKU and the batches of the product, which is no more.
    pub fn into_parts(self) -> (parts: (String, Vec<Batch>))
        ensures
            parts.0@ == self@.sku,
            batch_views(parts.1@) == self@.batches,
            all_of_sku(self@.batches, self@.sku),
    {
        proof {
            use_type_invariant(&self);
        }
        (self.sku, self.batches)
    }

    /// Adds `batch` to the product if it is a batch of this product, and
    /// refuses it if it is not.
    pub fn append_batch(&mut self, batch: Batch) -> (result: Result<(), DomainError>)
        ensures
            match result {
                Ok(()) => batch@.sku == old(self)@.sku && final(self)@ == old(self)@.append_batch(
                    batch@,
                ),
                Err(DomainError::InvalidSku(sku)) => batch@.sku != old(self)@.sku && sku@
                    == batch@.sku && final(self)@ == old(self)@,
                Err(DomainError::OutOfStock(_)) => false,
            },
    {
        proof {
            use_type_invariant(&*self);
        }
        if batch.sku == self.sku {
            let ghost before = batch_views(self.batches@);
            let mut batches: Vec<Batch> = Vec::new();
            proof {
                assert(batch_views(batches@) =~= Seq::empty());
            }
            std::mem::swap(&mut self.batches, &mut batches);
            batches.push(batch);
            proof {
                assert(batch_views(batches@) =~= before.push(batch@));
            }
            std::mem::swap(&mut self.batches, &mut batches);
            Ok(())
        } else {
            Err(DomainError::InvalidSku(batch.sku.clone()))
        }
    }

    /// Allocates `line` to the batch of this product that is preferred
    /// among those that can take it, and returns the reference of that batch.
    /// A line for another product is refused as `InvalidSku`; where no batch
    /// can take the line, the product is `OutOfStock`. A refusal changes
    /// nothing.
    pub fn allocate(&mut self, line: &OrderLine) -> (result: Result<String, DomainError>)
        ensures
            match result {
                Ok(reference) => {
                    &&& line@.sku == old(self)@.sku
                    &&& old(self)@.can_allocate(line@)
                    &&& is_preferred(old(self)@.batches, line@, old(self)@.chosen(line@))
                    &&& reference@ == old(self)@.batches[old(self)@.chosen(line@)].reference
                    &&& final(self)@ == old(self)@.allocate(line@)
                },
                Err(DomainError::InvalidSku(sku)) => {
                    &&& line@.sku != old(self)@.sku
                    &&& sku@ == line@.sku
                    &&& final(self)@ == old(self)@
                },
                Err(DomainError::OutOfStock(sku)) => {
                    &&& line@.sku == old(self)@.sku
                    &&& !old(self)@.can_allocate(line@)
                    &&& sku@ == line@.sku
                    &&& final(self)@ == old(self)@
                },
            },
    {
        proof {
            use_type_invariant(&*self);
        }
        if line.sku != self.sku {
            return Err(DomainError::InvalidSku(line.sku.clone()));
        }
        let ghost before = batch_views(self.batches@);
        let mut batches: Vec<Batch> = Vec::new();
        proof {
            assert(batch_views(batches@) =~= Seq::empty());
        }
        std::mem::swap(&mut self.batches, &mut batches);
        let refs = borrow_all(&mut batches);
        proof {
            assert(views_of(refs@) =~= before);
        }
        let result = allocate(line, refs);
        proof {
            match result {
                Ok(_) => {
                    let chosen = preferred_index(before, line@);
                    assert(batch_views(batches@) =~= before.update(
                        chosen,
                        before[chosen].allocate(line@),
                    ));
                },
                Err(_) => {
                    assert(batch_views(batches@) =~= before);
                },
            }
        }
        std::mem::swap(&mut self.batches, &mut batches);
        match result {
            Ok(reference) => Ok(reference),
            Err(_) => Err(DomainError::OutOfStock(line.sku.clone())),
        }
    }
}

impl Clone for Product {
    fn clone(&self) -> (product: Product)
        ensures
            product@ == self@,
    {
        proof {
            use_type_invariant(self);
        }
        let batches = self.batches.clone();
        proof {
            assert(batch_views(batches@) =~= batch_views(self.batches@));
        }
        Product { sku: self.sku.clone(), batches }
    }
}

} // verus!
