//! The order book engine: order intake and settlement against the ledger.
//!
//! The engine stores orders under sequential ids minted by a monotonic
//! counter, and settles a single named order against a single counterparty.
//! The model is collapsed to one asset per order: both settlement legs of a
//! buy order — the payment of `amount * price` and the delivery of `amount`
//! units — move the same token, and they are applied as one atomic unit or
//! not at all. A sell order delivers `amount` units from the owner to the
//! counterparty.

use crate::ledger::Ledger;
use crate::DexError;
use crate::Side;
use vstd::prelude::*;

verus! {

/// A resting trade intent.
#[derive(Clone, Copy, Debug, PartialEq, Eq, Structural)]
pub struct Order {
    /// Unique identifier, assigned at creation and never reused.
    pub id: u64,
    /// The account that created the order.
    pub owner: u64,
    /// The traded asset.
    pub token: u64,
    /// Quantity, fixed at creation; always positive for a stored order.
    pub amount: u64,
    /// Unit price, fixed at creation; always positive for a stored order.
    pub price: u64,
    /// Which side of the trade the owner takes.
    pub side: Side,
    /// Terminal flag: false at creation, set true once execution has
    /// occurred, never cleared.
    pub filled: bool,
}

/// Owns the order records and the counter that mints their ids.
pub struct OrderBook {
    orders: Vec<Order>,
    order_count: u64,
}

/// The settlement arithmetic of one execution: given the order's side, the
/// owner's and the counterparty's balances of the traded token, the executed
/// amount and the order's price, the new balance pair `(owner,
/// counterparty)`, or the error that stops the settlement. A buy order is a
/// two-leg exchange collapsed onto the traded token: the owner pays the
/// cost `amount * price` to the counterparty and the counterparty delivers
/// `amount` units back. The two legs are applied as one atomic unit, and
/// only when each of them could succeed on its own: the two debits and the
/// two credits are checked against the balances as they stood before the
/// call, and on any failure neither leg is applied. A sell order delivers
/// `amount` units from the owner to the counterparty.
pub open spec fn spec_settle(
    side: Side,
    owner_bal: u64,
    cp_bal: u64,
    amount: u64,
    price: u64,
) -> Result<(u64, u64), DexError> {
    match side {
        Side::Buy => {
            if amount * price > u64::MAX {
                Err(DexError::Overflow)
            } else if owner_bal < amount * price {
                Err(DexError::InsufficientBalance)
            } else if cp_bal < amount {
                Err(DexError::InsufficientBalance)
            } else if cp_bal + amount * price > u64::MAX {
                Err(DexError::Overflow)
            } else if owner_bal + amount > u64::MAX {
                Err(DexError::Overflow)
            } else {
                Ok(
                    (
                        ((owner_bal - amount * price + amount) as u64),
                        ((cp_bal + amount * price - amount) as u64),
                    ),
                )
            }
        },
        Side::Sell => {
            if owner_bal < amount {
                Err(DexError::InsufficientBalance)
            } else if cp_bal + amount > u64::MAX {
                Err(DexError::Overflow)
            } else {
                Ok((((owner_bal - amount) as u64), ((cp_bal + amount) as u64)))
            }
        },
    }
}

/// The exact outcome of `execute_order`: the error raised by the first
/// failing check, or success when the order exists, is open, the request is
/// valid, the counterparty differs from the owner, and the settlement
/// arithmetic goes through.
pub open spec fn spec_execute_result(
    book: OrderBook,
    ledger: Ledger,
    order_id: u64,
    counterparty: u64,
    amount: u64,
) -> Result<(), DexError> {
    match book.spec_order(order_id) {
        Option::None => Err(DexError::OrderNotFound),
        Option::Some(o) => {
            if o.filled {
                Err(DexError::OrderAlreadyFilled)
            } else if amount == 0 {
                Err(DexError::InvalidOrder)
            } else if counterparty == o.owner {
                Err(DexError::SelfTrade)
            } else {
                match spec_settle(
                    o.side,
                    ledger.spec_balance(o.owner, o.token),
                    ledger.spec_balance(counterparty, o.token),
                    amount,
                    o.price,
                ) {
                    Result::Ok(_) => Ok(()),
                    Result::Err(e) => Err(e),
                }
            }
        },
    }
}

impl OrderBook {
    /// The stored orders, in creation order.
    pub closed spec fn spec_orders(self) -> Seq<Order> {
        self.orders@
    }

    /// The id counter: the number of orders created so far.
    pub closed spec fn spec_order_count(self) -> u64 {
        self.order_count
    }

    /// Well-formedness: the counter equals the number of stored orders, the
    /// order stored at index `i` carries id `i`, and every stored order has
    /// a positive amount and price.
    pub open spec fn wf(self) -> bool {
        &&& self.spec_order_count() == self.spec_orders().len()
        &&& forall|i: int|
            0 <= i < self.spec_orders().len() ==> ((#[trigger] self.spec_orders()[i]).id == i
                && self.spec_orders()[i].amount > 0 && self.spec_orders()[i].price > 0)
    }

    /// The stored order under `order_id`, if any.
    pub open spec fn spec_order(self, order_id: u64) -> Option<Order> {
        if order_id < self.spec_orders().len() {
            Some(self.spec_orders()[order_id as int])
        } else {
            None
        }
    }

    /// An empty book whose counter starts at zero.
    pub fn new() -> (r: OrderBook)
        ensures
            r.wf(),
            r.spec_order_count() == 0,
            r.spec_orders() == Seq::<Order>::empty(),
    {
        OrderBook { orders: Vec::new(), order_count: 0 }
    }

    /// The number of orders created so far.
    pub fn order_count(&self) -> (r: u64)
        ensures
            r == self.spec_order_count(),
    {
        self.order_count
    }

    /// Simple lookup by id.
    pub fn get_order(&self, order_id: u64) -> (r: Option<Order>)
        requires
            self.wf(),
        ensures
            r == self.spec_order(order_id),
    {
        // the length bound of the vector lets the id be cast to usize
        let n: usize = self.orders.len();
        if order_id < self.order_count {
            Some(self.orders[order_id as usize])
        } else {
            None
        }
    }

    /// Places a new order owned by `caller`. Fails with `InvalidOrder`
    /// unless `amount > 0` and `price > 0`; once the inputs are valid it
    /// always succeeds: it stores the order, open, under the next id,
    /// advances the counter by exactly one, and returns that id.
    pub fn create_order(
        &mut self,
        caller: u64,
        token: u64,
        amount: u64,
        price: u64,
        side: Side,
    ) -> (r: Result<u64, DexError>)
        requires
            old(self).wf(),
            old(self).spec_order_count() < u64::MAX,
        ensures
            final(self).wf(),
            amount == 0 || price == 0 ==> r == Err::<u64, DexError>(DexError::InvalidOrder)
                && *final(self) == *old(self),
            amount > 0 && price > 0 ==> {
                &&& r == Ok::<u64, DexError>(old(self).spec_order_count())
                &&& final(self).spec_order_count() == old(self).spec_order_count() + 1
                &&& final(self).spec_orders() == old(self).spec_orders().push(
                    (Order {
                        id: old(self).spec_order_count(),
                        owner: caller,
                        token,
                        amount,
                        price,
                        side,
                        filled: false,
                    }),
                )
            },
    {
        if amount == 0 || price == 0 {
            return Err(DexError::InvalidOrder);
        }
        let id: u64 = self.order_count;
        let order = Order { id, owner: caller, token, amount, price, side, filled: false };
        self.orders.push(order);
        self.order_count = id + 1;
        Ok(id)
    }

    /// Settles `amount` units of the order under `order_id` against
    /// `counterparty`, which takes the other side of the trade. Validation
    /// runs before any write: the order must exist (`OrderNotFound`), must
    /// be open (`OrderAlreadyFilled`), `amount` must be positive
    /// (`InvalidOrder`), and the counterparty must differ from the owner
    /// (`SelfTrade`); the settlement arithmetic of `spec_settle` then
    /// decides between `InsufficientBalance`, `Overflow` and success. On
    /// success the two parties' balances move as `spec_settle` says — for a
    /// buy order the payment leg and the delivery leg as one atomic pair of
    /// transfers — and the order becomes filled; on any failure nothing
    /// changes.
    pub fn execute_order(
        &mut self,
        ledger: &mut Ledger,
        order_id: u64,
        counterparty: u64,
        amount: u64,
    ) -> (r: Result<(), DexError>)
        requires
            old(self).wf(),
        ensures
            final(self).wf(),
            // settlement never mints an id: the counter only advances in
            // `create_order`
            final(self).spec_order_count() == old(self).spec_order_count(),
            r == spec_execute_result(*old(self), *old(ledger), order_id, counterparty, amount),
            r is Err ==> *final(self) == *old(self) && *final(ledger) == *old(ledger),
            r is Ok ==> ({
                let o = old(self).spec_orders()[order_id as int];
                let settled = spec_settle(
                    o.side,
                    old(ledger).spec_balance(o.owner, o.token),
                    old(ledger).spec_balance(counterparty, o.token),
                    amount,
                    o.price,
                );
                &&& final(self).spec_order_count() == old(self).spec_order_count()
                &&& final(self).spec_orders() == old(self).spec_orders().update(
                    order_id as int,
                    (Order { filled: true, ..o }),
                )
                &&& settled is Ok
                &&& final(ledger).spec_balance(o.owner, o.token) == settled->Ok_0.0
                &&& final(ledger).spec_balance(counterparty, o.token) == settled->Ok_0.1
                &&& forall|a: u64, t: u64|
                    !(a == o.owner && t == o.token) && !(a == counterparty && t == o.token)
                        ==> final(ledger).spec_balance(a, t) == old(ledger).spec_balance(a, t)
            }),
    {
        // the length bound of the vector lets the id be cast to usize
        let n: usize = self.orders.len();
        if order_id >= self.order_count {
            return Err(DexError::OrderNotFound);
        }
        let order: Order = self.orders[order_id as usize];
        if order.filled {
            return Err(DexError::OrderAlreadyFilled);
        }
        if amount == 0 {
            return Err(DexError::InvalidOrder);
        }
        if counterparty == order.owner {
            return Err(DexError::SelfTrade);
        }
        match order.side {
            Side::Buy => {
                proof {
                    assert((amount as int) * (order.price as int) <= u128::MAX)
                        by (nonlinear_arith)
                        requires
                            amount <= u64::MAX,
                            order.price <= u64::MAX,
                    ;
                }
                let cost_wide: u128 = (amount as u128) * (order.price as u128);
                if cost_wide > (u64::MAX as u128) {
                    return Err(DexError::Overflow);
                }
                let cost: u64 = cost_wide as u64;
                let owner_bal: u64 = ledger.balance_of(order.owner, order.token);
                if owner_bal < cost {
                    return Err(DexError::InsufficientBalance);
                }
                let cp_bal: u64 = ledger.balance_of(counterparty, order.token);
                if cp_bal < amount {
                    return Err(DexError::InsufficientBalance);
                }
                if cp_bal > u64::MAX - cost {
                    return Err(DexError::Overflow);
                }
                if owner_bal > u64::MAX - amount {
                    return Err(DexError::Overflow);
                }
                // every debit and credit is covered, so neither transfer
                // below can fail: the payment leg and the delivery leg are
                // applied as one unit
                match ledger.transfer(order.owner, counterparty, order.token, cost) {
                    Result::Ok(()) => {},
                    Result::Err(e) => {
                        return Err(e);
                    },
                }
                match ledger.transfer(counterparty, order.owner, order.token, amount) {
                    Result::Ok(()) => {},
                    Result::Err(e) => {
                        return Err(e);
                    },
                }
            },
            Side::Sell => {
                let owner_bal: u64 = ledger.balance_of(order.owner, order.token);
                if owner_bal < amount {
                    return Err(DexError::InsufficientBalance);
                }
                match ledger.transfer(order.owner, counterparty, order.token, amount) {
                    Result::Ok(()) => {},
                    Result::Err(e) => {
                        return Err(e);
                    },
                }
            },
        }
        let filled_order = Order { filled: true, ..order };
        self.orders.set(order_id as usize, filled_order);
        Ok(())
    }
}

/// Order ids form the strictly increasing sequence 0, 1, 2, ...: in a
/// well-formed book the order stored at index `i` carries id `i`, so ids
/// start at zero, rise by one with every creation, and the counter equals
/// the number of orders created.
pub proof fn lemma_order_ids_sequential(book: OrderBook)
    requires
        book.wf(),
    ensures
        forall|i: int|
            0 <= i < book.spec_orders().len() ==> (#[trigger] book.spec_orders()[i]).id == i,
        forall|i: int, j: int|
            0 <= i < j < book.spec_orders().len() ==> (#[trigger] book.spec_orders()[i]).id < (
            #[trigger] book.spec_orders()[j]).id,
        book.spec_order_count() == book.spec_orders().len(),
{
}

/// Execution against a filled order is rejected, always and without effect:
/// the outcome is `OrderAlreadyFilled` whatever the other arguments, and
/// since a failing `execute_order` changes nothing, a second call on the
/// same order answers the same way.
pub proof fn lemma_execute_filled_is_rejected(
    book: OrderBook,
    ledger: Ledger,
    order_id: u64,
    counterparty: u64,
    amount: u64,
)
    requires
        book.spec_order(order_id) is Some,
        book.spec_order(order_id)->Some_0.filled,
    ensures
        spec_execute_result(book, ledger, order_id, counterparty, amount) == Err::<(), DexError>(
            DexError::OrderAlreadyFilled,
        ),
{
}

/// Conservation: a successful settlement moves value but neither creates
/// nor destroys it — the owner's and the counterparty's balances of the
/// traded token sum to the same total before and after.
pub proof fn lemma_settle_conserves(side: Side, owner_bal: u64, cp_bal: u64, amount: u64, price: u64)
    requires
        spec_settle(side, owner_bal, cp_bal, amount, price) is Ok,
    ensures
        ({
            let b = spec_settle(side, owner_bal, cp_bal, amount, price)->Ok_0;
            b.0 + b.1 == owner_bal + cp_bal
        }),
{
}

} // verus!
