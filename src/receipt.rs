use vstd::prelude::*;

use crate::fixed::{abs, lemma_abs_mul, lemma_mul_le, UNIT};
use crate::gratuity::Gratuity;
use crate::items::Item;
use crate::quantity::Quantity;
use crate::service_charge::ServiceCharge;

verus! {

/// The name of the tax that is applied to an item's price.
pub const SALES_TAX: &'static str = "Sales Tax";

/// One order line: an item and how many of it were ordered.
pub type OrderLine = (Item, Quantity);

/// The sales-tax rate that applies to `item`, if its tax group has one.
pub open spec fn sales_rate(item: Item) -> Option<i64> {
    item.tax_group.spec_tax_percent(SALES_TAX@)
}

/// The sales-tax rate of the item, or zero where it has none.
pub open spec fn rate_or_zero(item: Item) -> int {
    match sales_rate(item) {
        Some(r) => r as int,
        None => 0,
    }
}

/// What a line adds to the subtotal, in units of 10^-12: an overridden
/// line adds nothing, nor does one whose group has no sales tax.
pub open spec fn line_subtotal(line: OrderLine) -> int {
    let (item, q) = line;
    if item.tax_overide {
        0
    } else {
        match sales_rate(item) {
            Some(_) => item.price as int * q.0 as int * UNIT as int,
            None => 0,
        }
    }
}

/// What a line adds to the tax, in units of 10^-12: `price * rate * quantity`.
pub open spec fn line_tax(line: OrderLine) -> int {
    let (item, q) = line;
    if item.tax_overide {
        0
    } else {
        match sales_rate(item) {
            Some(r) => item.price as int * r as int * q.0 as int,
            None => 0,
        }
    }
}

/// What a line adds to the running total, in units of 10^-12: the price
/// times the quantity for an overridden line, `(price + price * rate) *
/// quantity` for a taxed one, nothing where no sales tax is found.
pub open spec fn line_total(line: OrderLine) -> int {
    let (item, q) = line;
    if item.tax_overide {
        item.price as int * q.0 as int * UNIT as int
    } else {
        match sales_rate(item) {
            Some(r) => (item.price as int * UNIT as int + item.price as int * r as int) * q.0 as int,
            None => 0,
        }
    }
}

/// An upper bound of the magnitude of every figure a line adds.
pub open spec fn line_magnitude(line: OrderLine) -> int {
    let (item, q) = line;
    abs(item.price as int) * abs(q.0 as int) * (UNIT as int + abs(rate_or_zero(item)))
}

/// The sum of `f` over the lines.
pub open spec fn sum_lines(lines: Seq<OrderLine>, f: spec_fn(OrderLine) -> int) -> int
    decreases lines.len(),
{
    if lines.len() == 0 {
        0
    } else {
        sum_lines(lines.drop_last(), f) + f(lines.last())
    }
}

/// The running total after the order lines, in units of 10^-12.
pub open spec fn items_total(lines: Seq<OrderLine>) -> int {
    sum_lines(lines, |l: OrderLine| line_total(l))
}

/// The subtotal of an order, in units of 10^-18.
pub open spec fn order_subtotal(lines: Seq<OrderLine>) -> int {
    sum_lines(lines, |l: OrderLine| line_subtotal(l)) * UNIT as int
}

/// The tax of an order, in units of 10^-18.
pub open spec fn order_tax(lines: Seq<OrderLine>) -> int {
    sum_lines(lines, |l: OrderLine| line_tax(l)) * UNIT as int
}

/// The running total after the order lines, before any charge, in units
/// of 10^-18.
pub open spec fn order_running_total(lines: Seq<OrderLine>) -> int {
    items_total(lines) * UNIT as int
}

/// A percentage charge (service charge or gratuity) on an order, in units
/// of 10^-18: `percent` times the running total after the order lines.
pub open spec fn charge_amount(percent: i64, lines: Seq<OrderLine>) -> int {
    percent as int * items_total(lines)
}

/// The grand total: the running total after the lines plus both charges,
/// each charge taken on that same running total.
pub open spec fn grand_total(lines: Seq<OrderLine>, service: i64, gratuity: i64) -> int {
    order_running_total(lines) + charge_amount(service, lines) + charge_amount(gratuity, lines)
}

/// The sum of the lines' magnitudes.
pub open spec fn order_magnitude(lines: Seq<OrderLine>) -> int {
    sum_lines(lines, |l: OrderLine| line_magnitude(l))
}

/// Every figure of the totals, and every partial sum on the way, fits in
/// an `i128`.
pub open spec fn totals_fit(lines: Seq<OrderLine>, service: i64, gratuity: i64) -> bool {
    order_magnitude(lines) * (UNIT as int + abs(service as int) + abs(gratuity as int))
        <= i128::MAX as int
}

/// The figures of a receipt, each in units of 10^-18 (`TOTAL_UNIT` in one).
#[derive(Debug, Clone, Copy, PartialEq, Eq, Structural)]
pub struct Totals {
    pub subtotal: i128,
    pub tax: i128,
    pub service_charge: i128,
    pub gratuity: i128,
    pub total: i128,
}

/// `t` holds the totals of an order with these charge percentages.
pub open spec fn is_totals_of(t: Totals, lines: Seq<OrderLine>, service: i64, gratuity: i64) -> bool {
    &&& t.subtotal == order_subtotal(lines)
    &&& t.tax == order_tax(lines)
    &&& t.service_charge == charge_amount(service, lines)
    &&& t.gratuity == charge_amount(gratuity, lines)
    &&& t.total == grand_total(lines, service, gratuity)
}

/// Adding one line to a sum over a prefix.
pub proof fn lemma_sum_step(lines: Seq<OrderLine>, i: int, f: spec_fn(OrderLine) -> int)
    requires
        0 <= i < lines.len(),
    ensures
        sum_lines(lines.take(i + 1), f) == sum_lines(lines.take(i), f) + f(lines[i]),
{
    assert(lines.take(i + 1).drop_last() =~= lines.take(i));
}

/// A line's figures are bounded by its magnitude.
pub proof fn lemma_line_bounds(line: OrderLine)
    ensures
        line_magnitude(line) >= 0,
        abs(line_subtotal(line)) <= line_magnitude(line),
        abs(line_tax(line)) <= line_magnitude(line),
        abs(line_total(line)) <= line_magnitude(line),
        abs(line.0.price as int * line.1.0 as int * UNIT as int) <= line_magnitude(line),
        abs(line.0.price as int * line.1.0 as int * rate_or_zero(line.0)) <= line_magnitude(line),
{
    let (item, q) = line;
    let p = item.price as int;
    let n = q.0 as int;
    let r = rate_or_zero(item);
    let u = UNIT as int;
    let ab = abs(p) * abs(n);
    let c = abs(r);
    lemma_abs_mul(p, n);
    lemma_abs_mul(p * n, u);
    lemma_abs_mul(p * n, r);
    assert(ab * (u + c) == ab * u + ab * c) by (nonlinear_arith);
    assert(ab * c >= 0 && ab * u >= 0) by (nonlinear_arith)
        requires
            ab >= 0,
            c >= 0,
            u > 0,
    ;
    assert(p * r * n == p * n * r) by (nonlinear_arith);
    assert((p * u + p * r) * n == p * n * u + p * n * r) by (nonlinear_arith);
}

/// Over a sequence of lines, a sum of figures is bounded by the sum of
/// the magnitudes.
pub proof fn lemma_sum_bounded(lines: Seq<OrderLine>, f: spec_fn(OrderLine) -> int)
    requires
        forall|l: OrderLine| abs(#[trigger] f(l)) <= line_magnitude(l),
    ensures
        abs(sum_lines(lines, f)) <= order_magnitude(lines),
    decreases lines.len(),
{
    if lines.len() > 0 {
        lemma_sum_bounded(lines.drop_last(), f);
        assert(abs(f(lines.last())) <= line_magnitude(lines.last()));
    }
}

/// The subtotal, tax and running total of lines are each bounded by the
/// lines' magnitude.
pub proof fn lemma_figures_bounded(lines: Seq<OrderLine>)
    ensures
        abs(sum_lines(lines, |l: OrderLine| line_subtotal(l))) <= order_magnitude(lines),
        abs(sum_lines(lines, |l: OrderLine| line_tax(l))) <= order_magnitude(lines),
        abs(sum_lines(lines, |l: OrderLine| line_total(l))) <= order_magnitude(lines),
{
    let fs = |l: OrderLine| line_subtotal(l);
    let ft = |l: OrderLine| line_tax(l);
    let ftt = |l: OrderLine| line_total(l);
    assert forall|l: OrderLine| abs(#[trigger] fs(l)) <= line_magnitude(l) by {
        lemma_line_bounds(l);
    }
    assert forall|l: OrderLine| abs(#[trigger] ft(l)) <= line_magnitude(l) by {
        lemma_line_bounds(l);
    }
    assert forall|l: OrderLine| abs(#[trigger] ftt(l)) <= line_magnitude(l) by {
        lemma_line_bounds(l);
    }
    lemma_sum_bounded(lines, fs);
    lemma_sum_bounded(lines, ft);
    lemma_sum_bounded(lines, ftt);
}

/// The magnitude of a prefix is nonnegative and at most that of the whole.
pub proof fn lemma_magnitude_prefix(lines: Seq<OrderLine>, k: int)
    requires
        0 <= k <= lines.len(),
    ensures
        0 <= order_magnitude(lines.take(k)) <= order_magnitude(lines),
    decreases lines.len(),
{
    if k == lines.len() {
        assert(lines.take(k) =~= lines);
        if lines.len() > 0 {
            lemma_magnitude_prefix(lines.drop_last(), k - 1);
            assert(lines.drop_last().take(k - 1) =~= lines.drop_last());
            lemma_line_bounds(lines.last());
        }
    } else {
        lemma_magnitude_prefix(lines.drop_last(), k);
        assert(lines.drop_last().take(k) =~= lines.take(k));
        lemma_line_bounds(lines.last());
    }
}

/// An order on a receipt, with one service charge and one gratuity.
#[derive(Debug, Clone, PartialEq, Eq, Default)]
pub struct Receipt {
    id: i32,
    name: String,
    order: Vec<OrderLine>,
    service_charge: ServiceCharge,
    gratuity: Gratuity,
}

impl Receipt {
    /// The order lines, in the order they were added.
    pub closed spec fn lines(&self) -> Seq<OrderLine> {
        self.order@
    }

    /// The receipt's id.
    pub closed spec fn spec_id(&self) -> i32 {
        self.id
    }

    /// The receipt's name.
    pub closed spec fn spec_name(&self) -> Seq<char> {
        self.name@
    }

    /// The service charge applied to the receipt.
    pub closed spec fn spec_service_charge(&self) -> ServiceCharge {
        self.service_charge
    }

    /// The gratuity applied to the receipt.
    pub closed spec fn spec_gratuity(&self) -> Gratuity {
        self.gratuity
    }

    /// The totals of this receipt fit the representation.
    pub open spec fn spec_within_range(&self) -> bool {
        totals_fit(self.lines(), self.spec_service_charge().percent, self.spec_gratuity().percent)
    }

    /// A receipt with an empty order.
    pub fn new(id: i32, name: String, service_charge: ServiceCharge, gratuity: Gratuity) -> (r: Receipt)
        ensures
            r.lines() == Seq::<OrderLine>::empty(),
            r.spec_id() == id,
            r.spec_name() == name@,
            r.spec_service_charge() == service_charge,
            r.spec_gratuity() == gratuity,
    {
        Receipt { id, name, order: Vec::new(), service_charge, gratuity }
    }

    /// Appends a line to the order.
    pub fn add_item(&mut self, item: Item, quantity: Quantity)
        ensures
            final(self).lines() == old(self).lines().push((item, quantity)),
            final(self).spec_id() == old(self).spec_id(),
            final(self).spec_name() == old(self).spec_name(),
            final(self).spec_service_charge() == old(self).spec_service_charge(),
            final(self).spec_gratuity() == old(self).spec_gratuity(),
    {
        self.order.push((item, quantity));
    }

    /// Tells whether the totals of this receipt fit the representation,
    /// which `calculate_total` needs.
    pub fn within_range(&self) -> (r: bool)
        ensures
            r == self.spec_within_range(),
    {
        let ghost lines = self.order@;
        let ghost fm = |l: OrderLine| line_magnitude(l);
        let ghost factor = UNIT as int + abs(self.service_charge.percent as int) + abs(self.gratuity.percent as int);
        let mut acc: i128 = 0;
        let mut i: usize = 0;
        while i < self.order.len()
            invariant
                lines == self.order@,
                fm == (|l: OrderLine| line_magnitude(l)),
                factor == UNIT as int + abs(self.service_charge.percent as int) + abs(self.gratuity.percent as int),
                0 <= i <= lines.len(),
                acc == sum_lines(lines.take(i as int), fm),
            decreases lines.len() - i,
        {
            let line = &self.order[i];
            proof {
                lemma_sum_step(lines, i as int, fm);
                lemma_magnitude_prefix(lines, i as int);
                lemma_magnitude_prefix(lines, i as int + 1);
                lemma_mul_le(order_magnitude(lines), 1, factor);
            }
            match line_magnitude_checked(&line.0, line.1) {
                Some(m) => {
                    match acc.checked_add(m) {
                        Some(next) => {
                            acc = next;
                        },
                        None => {
                            return false;
                        },
                    }
                },
                None => {
                    proof {
                        lemma_line_bounds(lines[i as int]);
                    }
                    return false;
                },
            }
            i = i + 1;
        }
        proof {
            assert(lines.take(lines.len() as int) =~= lines);
            lemma_magnitude_prefix(lines, lines.len() as int);
        }
        let factor_exec = UNIT as i128 + abs_i128(self.service_charge.percent) + abs_i128(self.gratuity.percent);
        proof {
            assert(acc * factor_exec >= 0) by (nonlinear_arith)
                requires
                    acc >= 0,
                    factor_exec >= 0,
            ;
        }
        acc.checked_mul(factor_exec).is_some()
    }

    /// Computes the totals. The subtotal and tax count the taxed lines
    /// only; an overridden line enters the running total untaxed; a line
    /// whose group has no sales tax is left out. The service charge and the
    /// gratuity are both taken on the running total after the lines.
    pub fn calculate_total(&self) -> (r: Totals)
        requires
            self.spec_within_range(),
        ensures
            is_totals_of(r, self.lines(), self.spec_service_charge().percent, self.spec_gratuity().percent),
    {
        let ghost lines = self.order@;
        let ghost bound = order_magnitude(lines);
        let ghost fs = |l: OrderLine| line_subtotal(l);
        let ghost ft = |l: OrderLine| line_tax(l);
        let ghost ftt = |l: OrderLine| line_total(l);
        proof {
            lemma_magnitude_prefix(lines, lines.len() as int);
            assert(lines.take(lines.len() as int) =~= lines);
        }
        let mut subtotal: i128 = 0;
        let mut tax: i128 = 0;
        let mut total: i128 = 0;
        let mut i: usize = 0;
        while i < self.order.len()
            invariant
                lines == self.order@,
                bound == order_magnitude(lines),
                0 <= i <= lines.len(),
                totals_fit(lines, self.service_charge.percent, self.gratuity.percent),
                subtotal == sum_lines(lines.take(i as int), fs),
                tax == sum_lines(lines.take(i as int), ft),
                total == sum_lines(lines.take(i as int), ftt),
                fs == (|l: OrderLine| line_subtotal(l)),
                ft == (|l: OrderLine| line_tax(l)),
                ftt == (|l: OrderLine| line_total(l)),
            decreases lines.len() - i,
        {
            let line = &self.order[i];
            proof {
                let k = i as int;
                let fm = |l: OrderLine| line_magnitude(l);
                lemma_sum_step(lines, k, fs);
                lemma_sum_step(lines, k, ft);
                lemma_sum_step(lines, k, ftt);
                lemma_sum_step(lines, k, fm);
                lemma_magnitude_prefix(lines, k);
                lemma_magnitude_prefix(lines, k + 1);
                lemma_figures_bounded(lines.take(k + 1));
                lemma_line_bounds(lines[k]);
                let factor = UNIT as int + abs(self.service_charge.percent as int) + abs(self.gratuity.percent as int);
                lemma_mul_le(bound, 1, factor);
            }
            let (s, t, tt) = line_amounts(&line.0, line.1);
            subtotal = subtotal + s;
            tax = tax + t;
            total = total + tt;
            i = i + 1;
        }
        proof {
            assert(lines.take(lines.len() as int) =~= lines);
            lemma_figures_bounded(lines);
            lemma_charge_bounds(
                subtotal as int,
                tax as int,
                total as int,
                bound,
                self.service_charge.percent as int,
                self.gratuity.percent as int,
            );
        }
        let unit = UNIT as i128;
        let service_amount = self.service_charge.percent as i128 * total;
        let gratuity_amount = self.gratuity.percent as i128 * total;
        let mut grand = total * unit;
        grand = grand + service_amount;
        grand = grand + gratuity_amount;
        Totals {
            subtotal: subtotal * unit,
            tax: tax * unit,
            service_charge: service_amount,
            gratuity: gratuity_amount,
            total: grand,
        }
    }
}

/// The magnitude of an `i64`, which always fits an `i128`.
fn abs_i128(x: i64) -> (r: i128)
    ensures
        r == abs(x as int),
{
    if x < 0 {
        -(x as i128)
    } else {
        x as i128
    }
}

/// The magnitude of a line, or `None` where it does not fit an `i128`.
fn line_magnitude_checked(item: &Item, quantity: Quantity) -> (r: Option<i128>)
    ensures
        match r {
            Some(m) => m == line_magnitude((*item, quantity)),
            None => line_magnitude((*item, quantity)) > i128::MAX as int,
        },
{
    let ghost line = (*item, quantity);
    let rate: i128 = match item.tax_group.get_tax_percent(SALES_TAX) {
        Some(x) => abs_i128(x),
        None => 0,
    };
    let factor = UNIT as i128 + rate;
    let price = abs_i128(item.price);
    let count = if quantity.0 < 0 {
        -(quantity.0 as i128)
    } else {
        quantity.0 as i128
    };
    match price.checked_mul(count) {
        Some(pc) => pc.checked_mul(factor),
        None => {
            proof {
                let ab = abs(item.price as int) * abs(quantity.0 as int);
                lemma_mul_le(ab, 1, factor as int);
            }
            None
        },
    }
}

/// Bounds for the last steps of the totals.
proof fn lemma_charge_bounds(s: int, x: int, t: int, b: int, sc: int, gr: int)
    requires
        abs(s) <= b,
        abs(x) <= b,
        abs(t) <= b,
        b * (UNIT as int + abs(sc) + abs(gr)) <= i128::MAX as int,
    ensures
        abs(s * UNIT as int) <= i128::MAX as int,
        abs(x * UNIT as int) <= i128::MAX as int,
        abs(t * UNIT as int) <= i128::MAX as int,
        abs(sc * t) <= i128::MAX as int,
        abs(gr * t) <= i128::MAX as int,
        abs(t * UNIT as int + sc * t) <= i128::MAX as int,
        abs(t * UNIT as int + sc * t + gr * t) <= i128::MAX as int,
{
    let u = UNIT as int;
    lemma_abs_mul(sc, t);
    lemma_abs_mul(gr, t);
    lemma_mul_le(abs(sc), abs(t), b);
    lemma_mul_le(abs(gr), abs(t), b);
    assert(b * (u + abs(sc) + abs(gr)) == b * u + abs(sc) * b + abs(gr) * b) by (nonlinear_arith);
    assert(abs(sc) * b >= 0 && abs(gr) * b >= 0) by (nonlinear_arith)
        requires
            b >= 0,
    ;
}

/// The figures one line adds to the subtotal, the tax and the running
/// total, in units of 10^-12.
fn line_amounts(item: &Item, quantity: Quantity) -> (r: (i128, i128, i128))
    requires
        line_magnitude((*item, quantity)) <= i128::MAX as int,
    ensures
        r.0 == line_subtotal((*item, quantity)),
        r.1 == line_tax((*item, quantity)),
        r.2 == line_total((*item, quantity)),
{
    let ghost line = (*item, quantity);
    proof {
        lemma_line_bounds(line);
        let p = item.price as int;
        let n = quantity.0 as int;
        lemma_abs_mul(p, n);
        lemma_mul_le(abs(p) * abs(n), 1, UNIT as int + abs(rate_or_zero(*item)));
    }
    let price = item.price as i128;
    let count = quantity.0 as i128;
    let units = price * count;
    let base = units * (UNIT as i128);
    if item.tax_overide {
        (0, 0, base)
    } else {
        match item.tax_group.get_tax_percent(SALES_TAX) {
            Some(rate) => {
                let tax = units * (rate as i128);
                proof {
                    let (p, n, x, u) = (price as int, count as int, rate as int, UNIT as int);
                    assert(p * x * n == p * n * x) by (nonlinear_arith);
                    assert((p * u + p * x) * n == p * n * u + p * n * x) by (nonlinear_arith);
                }
                (base, tax, base + tax)
            },
            None => (0, 0, 0),
        }
    }
}

} // verus!
