//! Facts about receipt totals that hold for every order.
use vstd::prelude::*;

use crate::fixed::UNIT;
use crate::items::Item;
use crate::quantity::Quantity;
use crate::receipt::{
    charge_amount, grand_total, is_totals_of, items_total, order_running_total, order_subtotal,
    order_tax, sales_rate, sum_lines, OrderLine, Totals,
};

verus! {

/// Appending a line adds its figures to the three sums.
proof fn lemma_push_line(lines: Seq<OrderLine>, line: OrderLine)
    ensures
        order_subtotal(lines.push(line)) == order_subtotal(lines) + crate::receipt::line_subtotal(line) * UNIT as int,
        order_tax(lines.push(line)) == order_tax(lines) + crate::receipt::line_tax(line) * UNIT as int,
        items_total(lines.push(line)) == items_total(lines) + crate::receipt::line_total(line),
{
    assert(lines.push(line).drop_last() =~= lines);
    let fs = |l: OrderLine| crate::receipt::line_subtotal(l);
    let ft = |l: OrderLine| crate::receipt::line_tax(l);
    assert(sum_lines(lines.push(line), fs) == sum_lines(lines, fs) + fs(line));
    assert(sum_lines(lines.push(line), ft) == sum_lines(lines, ft) + ft(line));
    assert((sum_lines(lines, fs) + fs(line)) * UNIT as int == sum_lines(lines, fs) * UNIT as int + fs(line) * UNIT as int) by (nonlinear_arith);
    assert((sum_lines(lines, ft) + ft(line)) * UNIT as int == sum_lines(lines, ft) * UNIT as int + ft(line) * UNIT as int) by (nonlinear_arith);
}

/// An empty order has every figure zero, whatever the service charge and
/// gratuity percentages are.
pub proof fn lemma_empty_order_totals(service: i64, gratuity: i64, t: Totals)
    requires
        is_totals_of(t, Seq::<OrderLine>::empty(), service, gratuity),
    ensures
        t == (Totals { subtotal: 0, tax: 0, service_charge: 0, gratuity: 0, total: 0 }),
{
    let lines = Seq::<OrderLine>::empty();
    assert(items_total(lines) == 0);
    assert(order_subtotal(lines) == 0);
    assert(order_tax(lines) == 0);
}

/// An order of one taxed line with price `P`, quantity `Q` and sales-tax
/// rate `R` has subtotal `P * Q`, tax `P * R * Q` and a running total of
/// `(P + P * R) * Q` before charges. Prices and rates are in millionths and
/// the figures in units of 10^-18, hence the powers of `UNIT`.
pub proof fn lemma_single_taxed_line(item: Item, quantity: Quantity, rate: i64)
    requires
        !item.tax_overide,
        sales_rate(item) == Some(rate),
    ensures
        order_subtotal(seq![(item, quantity)])
            == item.price as int * quantity.0 as int * UNIT as int * UNIT as int,
        order_tax(seq![(item, quantity)])
            == item.price as int * rate as int * quantity.0 as int * UNIT as int,
        order_running_total(seq![(item, quantity)])
            == (item.price as int * UNIT as int + item.price as int * rate as int) * quantity.0 as int * UNIT as int,
{
    let lines = seq![(item, quantity)];
    lemma_push_line(Seq::<OrderLine>::empty(), (item, quantity));
    assert(Seq::<OrderLine>::empty().push((item, quantity)) =~= lines);
}

/// A line whose tax is overridden leaves the subtotal and the tax as they
/// were and adds exactly its price times its quantity to the running total.
pub proof fn lemma_overridden_line(lines: Seq<OrderLine>, item: Item, quantity: Quantity)
    requires
        item.tax_overide,
    ensures
        order_subtotal(lines.push((item, quantity))) == order_subtotal(lines),
        order_tax(lines.push((item, quantity))) == order_tax(lines),
        order_running_total(lines.push((item, quantity)))
            == order_running_total(lines) + item.price as int * quantity.0 as int * UNIT as int * UNIT as int,
{
    lemma_push_line(lines, (item, quantity));
    let t = items_total(lines);
    let x = item.price as int * quantity.0 as int * UNIT as int;
    assert((t + x) * UNIT as int == t * UNIT as int + x * UNIT as int) by (nonlinear_arith);
}

/// A taxed line whose tax group has no tax named "Sales Tax" changes no
/// figure of the receipt.
pub proof fn lemma_line_without_sales_tax(
    lines: Seq<OrderLine>,
    item: Item,
    quantity: Quantity,
    service: i64,
    gratuity: i64,
)
    requires
        !item.tax_overide,
        sales_rate(item) is None,
    ensures
        order_subtotal(lines.push((item, quantity))) == order_subtotal(lines),
        order_tax(lines.push((item, quantity))) == order_tax(lines),
        order_running_total(lines.push((item, quantity))) == order_running_total(lines),
        charge_amount(service, lines.push((item, quantity))) == charge_amount(service, lines),
        charge_amount(gratuity, lines.push((item, quantity))) == charge_amount(gratuity, lines),
        grand_total(lines.push((item, quantity)), service, gratuity) == grand_total(lines, service, gratuity),
{
    lemma_push_line(lines, (item, quantity));
}

/// The service charge and the gratuity are both percentages of the
/// running total after the order lines: neither is taken on the subtotal,
/// and the gratuity is not taken on the service charge. The grand total is
/// that running total plus the two charges.
pub proof fn lemma_charges_on_running_total(lines: Seq<OrderLine>, service: i64, gratuity: i64, t: Totals)
    requires
        is_totals_of(t, lines, service, gratuity),
    ensures
        t.service_charge * UNIT as int == service as int * order_running_total(lines),
        t.gratuity * UNIT as int == gratuity as int * order_running_total(lines),
        t.total == order_running_total(lines) + t.service_charge + t.gratuity,
{
    let i = items_total(lines);
    let u = UNIT as int;
    assert(service as int * i * u == service as int * (i * u)) by (nonlinear_arith);
    assert(gratuity as int * i * u == gratuity as int * (i * u)) by (nonlinear_arith);
}

/// The totals are a function of the order and the two percentages: two
/// computations on the same unchanged receipt give the same figures.
pub proof fn lemma_totals_determined(
    lines: Seq<OrderLine>,
    service: i64,
    gratuity: i64,
    first: Totals,
    second: Totals,
)
    requires
        is_totals_of(first, lines, service, gratuity),
        is_totals_of(second, lines, service, gratuity),
    ensures
        first == second,
{
}

} // verus!
