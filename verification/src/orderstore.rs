//! The order ledger: orders keyed by id, created by NewOrderSingle and
//! mutated by cancel and cancel/replace requests. The in-memory map is the
//! authoritative state; serializing it into the memory-mapped backing file
//! happens outside the library, reading the entries through `order_at`.
use vstd::prelude::*;

verus! {

use crate::intmap::IntMap;
use crate::intmap::spec_int_get;
use crate::intmap::spec_int_has;
use crate::intmap::spec_int_insert;
use crate::intmap::spec_int_remove;
use crate::strmap::StrMap;
use crate::strmap::spec_map_get;
use crate::dictionary::FixError;
use crate::strings::str_to_chars;
use crate::numbers::spec_parse_u64;
use crate::numbers::parse_u64;

/// An order as the contracts see it.
pub ghost struct OrderView {
    pub id: u64,
    pub account: Seq<char>,
    pub symbol: Seq<char>,
    pub side: Seq<char>,
    pub quantity: u64,
    pub price: u64,
    pub ordtype: Seq<char>,
    pub transacttime: Seq<char>,
    pub ordstatus: Seq<char>,
}

/// One order of the ledger.
#[derive(Debug)]
pub struct Order {
    pub id: u64,
    pub account: String,
    pub symbol: String,
    pub side: String,
    pub quantity: u64,
    pub price: u64,
    pub ordtype: String,
    pub transacttime: String,
    pub ordstatus: String,
}

impl View for Order {
    type V = OrderView;

    open spec fn view(&self) -> OrderView {
        OrderView {
            id: self.id,
            account: self.account@,
            symbol: self.symbol@,
            side: self.side@,
            quantity: self.quantity,
            price: self.price,
            ordtype: self.ordtype@,
            transacttime: self.transacttime@,
            ordstatus: self.ordstatus@,
        }
    }
}

impl Order {
    /// A copy of this order.
    pub fn clone_order(&self) -> (r: Self)
        ensures
            r@ == self@,
    {
        Order {
            id: self.id,
            account: self.account.clone(),
            symbol: self.symbol.clone(),
            side: self.side.clone(),
            quantity: self.quantity,
            price: self.price,
            ordtype: self.ordtype.clone(),
            transacttime: self.transacttime.clone(),
            ordstatus: self.ordstatus.clone(),
        }
    }
}

/// The keyed order ledger.
pub struct OrderStore {
    orders: IntMap<Order>,
}

impl View for OrderStore {
    type V = Seq<(u64, OrderView)>;

    closed spec fn view(&self) -> Seq<(u64, OrderView)> {
        self.orders@
    }
}

impl OrderStore {
    /// An empty ledger.
    pub fn new() -> (r: Self)
        ensures
            r@ == Seq::<(u64, OrderView)>::empty(),
    {
        OrderStore { orders: IntMap::new() }
    }

    /// Records the order under its id; an existing order with the same id
    /// is replaced in place.
    pub fn add_order(&mut self, order: Order) -> (r: Result<(), FixError>)
        ensures
            r is Ok,
            final(self)@ == spec_int_insert(old(self)@, order.id, order@),
    {
        let id = order.id;
        self.orders.insert(id, order);
        Ok(())
    }

    /// Replaces the order with this id; an unknown id is an error and the
    /// ledger does not change.
    pub fn update_order(&mut self, order: Order) -> (r: Result<(), FixError>)
        ensures
            spec_int_has(old(self)@, order.id) ==> r is Ok && final(self)@ == spec_int_insert(
                old(self)@,
                order.id,
                order@,
            ),
            !spec_int_has(old(self)@, order.id) ==> r is Err && final(self)@ == old(self)@,
    {
        if self.orders.has_key(order.id) {
            let id = order.id;
            self.orders.insert(id, order);
            Ok(())
        } else {
            Err(FixError::ParseError(String::from_str("Order ID not found")))
        }
    }

    /// Replaces the ledger entry keyed `order_id` with this order. The
    /// entry keeps its key, so a cancel or replace stays recorded under the
    /// original order's id while the order itself carries the request's new
    /// `ClOrdID`. An unknown id is an error and the ledger does not change.
    pub fn replace_order(&mut self, order_id: u64, order: Order) -> (r: Result<(), FixError>)
        ensures
            spec_int_has(old(self)@, order_id) ==> r is Ok && final(self)@ == spec_int_insert(
                old(self)@,
                order_id,
                order@,
            ),
            !spec_int_has(old(self)@, order_id) ==> r is Err && final(self)@ == old(self)@,
    {
        if self.orders.has_key(order_id) {
            self.orders.insert(order_id, order);
            Ok(())
        } else {
            Err(FixError::ParseError(String::from_str("Order ID not found")))
        }
    }

    /// The order with this id, if any.
    pub fn get_order(&self, order_id: u64) -> (r: Option<Order>)
        ensures
            match r {
                Some(o) => spec_int_get(self@, order_id) == Some(o@),
                None => spec_int_get(self@, order_id) is None,
            },
    {
        match self.orders.get(order_id) {
            Some(o) => Some(o.clone_order()),
            None => None,
        }
    }

    /// Takes the order with this id out; an unknown id changes nothing.
    pub fn remove_order(&mut self, order_id: u64) -> (r: Result<(), FixError>)
        ensures
            r is Ok,
            final(self)@ == spec_int_remove(old(self)@, order_id),
    {
        self.orders.remove(order_id);
        Ok(())
    }

    /// Number of orders held.
    pub fn count(&self) -> (r: usize)
        ensures
            r == self@.len(),
    {
        self.orders.len()
    }

    /// The order at a ledger position, for serialization and display.
    pub fn order_at(&self, i: usize) -> (r: &Order)
        requires
            i < self@.len(),
        ensures
            r@ == self@[i as int].1,
    {
        self.orders.value_at(i)
    }
}

/// The field under `k`, when present.
pub open spec fn map_val(m: Seq<(Seq<char>, Seq<char>)>, k: Seq<char>) -> Option<Seq<char>> {
    spec_map_get(m, k)
}

/// The order a business message's fields describe: `ClOrdID`, `OrderQty`
/// and `Price` must be present and numeric, `Symbol`, `Side`, `OrdType`,
/// `TransactTime` and `OrdStatus` present, and `Account` defaults to empty.
pub open spec fn spec_order_of_map(m: Seq<(Seq<char>, Seq<char>)>) -> Option<OrderView> {
    let id = match map_val(m, "ClOrdID"@) {
        Some(v) => spec_parse_u64(v),
        None => None,
    };
    let qty = match map_val(m, "OrderQty"@) {
        Some(v) => spec_parse_u64(v),
        None => None,
    };
    let price = match map_val(m, "Price"@) {
        Some(v) => spec_parse_u64(v),
        None => None,
    };
    if id is Some && qty is Some && price is Some && map_val(m, "Symbol"@) is Some && map_val(
        m,
        "Side"@,
    ) is Some && map_val(m, "OrdType"@) is Some && map_val(m, "TransactTime"@) is Some && map_val(
        m,
        "OrdStatus"@,
    ) is Some {
        Some(
            OrderView {
                id: id->0,
                account: match map_val(m, "Account"@) {
                    Some(a) => a,
                    None => Seq::empty(),
                },
                symbol: map_val(m, "Symbol"@)->0,
                side: map_val(m, "Side"@)->0,
                quantity: qty->0,
                price: price->0,
                ordtype: map_val(m, "OrdType"@)->0,
                transacttime: map_val(m, "TransactTime"@)->0,
                ordstatus: map_val(m, "OrdStatus"@)->0,
            },
        )
    } else {
        None
    }
}

/// A cancel or cancel/replace update: the original order's id taken from
/// `OrigClOrdID`, and the order the message describes (whose own id is the
/// request's new `ClOrdID`), to be recorded under the original id.
pub open spec fn spec_update_of_map(m: Seq<(Seq<char>, Seq<char>)>) -> Option<(u64, OrderView)> {
    let orig = match map_val(m, "OrigClOrdID"@) {
        Some(v) => spec_parse_u64(v),
        None => None,
    };
    match (orig, spec_order_of_map(m)) {
        (Some(o), Some(ov)) => Some((o, ov)),
        _ => None,
    }
}

/// Builds the order a message describes, or reports the missing or
/// malformed field.
fn order_of_map(msg_map: &StrMap<String>) -> (r: Result<Order, FixError>)
    ensures
        match r {
            Ok(o) => spec_order_of_map(msg_map@) == Some(o@),
            Err(_) => spec_order_of_map(msg_map@) is None,
        },
{
    let id = match msg_map.get("ClOrdID") {
        Some(v) => match parse_u64(&str_to_chars(v.as_str())) {
            Some(n) => n,
            None => {
                return Err(FixError::ParseError(String::from_str("Invalid ClOrdID")));
            },
        },
        None => {
            return Err(FixError::ParseError(String::from_str("Invalid ClOrdID")));
        },
    };
    let qty = match msg_map.get("OrderQty") {
        Some(v) => match parse_u64(&str_to_chars(v.as_str())) {
            Some(n) => n,
            None => {
                return Err(FixError::ParseError(String::from_str("Invalid OrderQty")));
            },
        },
        None => {
            return Err(FixError::ParseError(String::from_str("Invalid OrderQty")));
        },
    };
    let price = match msg_map.get("Price") {
        Some(v) => match parse_u64(&str_to_chars(v.as_str())) {
            Some(n) => n,
            None => {
                return Err(FixError::ParseError(String::from_str("Invalid Price")));
            },
        },
        None => {
            return Err(FixError::ParseError(String::from_str("Invalid Price")));
        },
    };
    let account = match msg_map.get("Account") {
        Some(v) => v.clone(),
        None => String::new(),
    };
    let symbol = match msg_map.get("Symbol") {
        Some(v) => v.clone(),
        None => {
            return Err(FixError::ParseError(String::from_str("Missing Symbol")));
        },
    };
    let side = match msg_map.get("Side") {
        Some(v) => v.clone(),
        None => {
            return Err(FixError::ParseError(String::from_str("Missing Side")));
        },
    };
    let ordtype = match msg_map.get("OrdType") {
        Some(v) => v.clone(),
        None => {
            return Err(FixError::ParseError(String::from_str("Missing OrdType")));
        },
    };
    let transacttime = match msg_map.get("TransactTime") {
        Some(v) => v.clone(),
        None => {
            return Err(FixError::ParseError(String::from_str("Missing TransactTime")));
        },
    };
    let ordstatus = match msg_map.get("OrdStatus") {
        Some(v) => v.clone(),
        None => {
            return Err(FixError::ParseError(String::from_str("Missing OrdStatus")));
        },
    };
    Ok(Order { id, account, symbol, side, quantity: qty, price, ordtype, transacttime, ordstatus })
}

/// Adds the order a business message describes to the ledger.
pub fn add_order_to_store(order_store: &mut OrderStore, msg_map: &StrMap<String>) -> (r: Result<
    (),
    FixError,
>)
    ensures
        match spec_order_of_map(msg_map@) {
            Some(ov) => r is Ok && final(order_store)@ == spec_int_insert(
                old(order_store)@,
                ov.id,
                ov,
            ),
            None => r is Err && final(order_store)@ == old(order_store)@,
        },
{
    match order_of_map(msg_map) {
        Ok(order) => order_store.add_order(order),
        Err(e) => Err(e),
    }
}

/// Replaces the ledger entry the message's `OrigClOrdID` names with the
/// order the message describes, which carries the request's new `ClOrdID`;
/// an unknown original id, or a missing or malformed field, leaves the
/// ledger unchanged.
pub fn update_order_in_store(order_store: &mut OrderStore, msg_map: &StrMap<String>) -> (r: Result<
    (),
    FixError,
>)
    ensures
        match spec_update_of_map(msg_map@) {
            Some((orig, ov)) => {
                &&& spec_int_has(old(order_store)@, orig) ==> r is Ok && final(order_store)@
                    == spec_int_insert(old(order_store)@, orig, ov)
                &&& !spec_int_has(old(order_store)@, orig) ==> r is Err && final(order_store)@
                    == old(order_store)@
            },
            None => r is Err && final(order_store)@ == old(order_store)@,
        },
{
    let orig = match msg_map.get("OrigClOrdID") {
        Some(v) => match parse_u64(&str_to_chars(v.as_str())) {
            Some(n) => n,
            None => {
                return Err(FixError::ParseError(String::from_str("Invalid OrigClOrdID")));
            },
        },
        None => {
            return Err(FixError::ParseError(String::from_str("Invalid OrigClOrdID")));
        },
    };
    match order_of_map(msg_map) {
        Ok(order) => order_store.replace_order(orig, order),
        Err(e) => Err(e),
    }
}

/// Removes the ledger entry the message's `ClOrdID` names.
pub fn remove_order_from_store(order_store: &mut OrderStore, msg_map: &StrMap<String>) -> (r:
    Result<(), FixError>)
    ensures
        match map_val(msg_map@, "ClOrdID"@) {
            Some(v) => match spec_parse_u64(v) {
                Some(id) => r is Ok && final(order_store)@ == spec_int_remove(
                    old(order_store)@,
                    id,
                ),
                None => r is Err && final(order_store)@ == old(order_store)@,
            },
            None => r is Err && final(order_store)@ == old(order_store)@,
        },
{
    match msg_map.get("ClOrdID") {
        Some(v) => match parse_u64(&str_to_chars(v.as_str())) {
            Some(id) => order_store.remove_order(id),
            None => Err(FixError::ParseError(String::from_str("Invalid ClOrdID"))),
        },
        None => Err(FixError::ParseError(String::from_str("Invalid ClOrdID"))),
    }
}

} // verus!
