//! The session engine: routing decoded messages, the sequence discipline
//! (advance, resend request on a gap, logout on a low sequence number),
//! admin replies, and the order lifecycle driven by business messages.
//! Socket reads and writes stay outside the library: these functions take
//! the received text and hand back what must be sent.
use vstd::prelude::*;

verus! {

use crate::strmap::StrMap;
use crate::strmap::spec_map_get;
use crate::strmap::spec_map_insert;
use crate::intmap::IntMap;
use crate::dictionary::FixTag;
use crate::payload::FixMsgTag;
use crate::message_converter::spec_encode_template;
use crate::message_converter::encode_from_template;
use crate::message_converter::spec_decode;
use crate::message_converter::fixmsg2msgtype;
use crate::message_validator::FixMessage;
use crate::message_validator::spec_parse_fields;
use crate::message_validator::spec_validate;
use crate::message_validator::strs_view;
use crate::sequence::SequenceNumberStore;
use crate::orderstore::OrderStore;
use crate::orderstore::OrderView;
use crate::orderstore::spec_order_of_map;
use crate::orderstore::add_order_to_store;
use crate::orderstore::update_order_in_store;
use crate::intmap::spec_int_insert;
use crate::strings::spec_contains;
use crate::strings::spec_split;
use crate::strings::contains_sub;
use crate::strings::spec_replace;
use crate::strings::replace_chars;
use crate::strings::str_to_chars;
use crate::strings::chars_to_string;
use crate::strings::str_eq;
use crate::numbers::spec_digits;
use crate::numbers::u64_to_chars;
use crate::numbers::spec_parse_u64;
use crate::numbers::parse_u64;

/// A point in time, held as whole seconds since the Unix epoch.
pub struct AtomicDateTime {
    seconds: u64,
}

impl AtomicDateTime {
    pub closed spec fn spec_seconds(&self) -> u64 {
        self.seconds
    }

    pub fn new(seconds: u64) -> (r: Self)
        ensures
            r.spec_seconds() == seconds,
    {
        AtomicDateTime { seconds }
    }

    pub fn load(&self) -> (r: u64)
        ensures
            r == self.spec_seconds(),
    {
        self.seconds
    }

    pub fn store(&mut self, seconds: u64)
        ensures
            final(self).spec_seconds() == seconds,
    {
        self.seconds = seconds;
    }
}

/// The session flags and intervals as the contracts see them.
pub ghost struct SessionView {
    pub is_initiator: bool,
    pub sent_logon: bool,
    pub received_logon: bool,
    pub is_logged_on: bool,
    pub heart_bt_int: u64,
    pub reconnect_interval: u64,
    pub last_sent_time: u64,
}

/// The session-global flags, intervals and last-sent timestamp. Every
/// worker shares one context; the callers serialize access.
pub struct SessionContext {
    pub is_initiator: bool,
    pub sent_logon: bool,
    pub received_logon: bool,
    pub is_logged_on: bool,
    pub heart_bt_int: u64,
    pub reconnect_interval: u64,
    pub last_sent_time: AtomicDateTime,
}

impl View for SessionContext {
    type V = SessionView;

    open spec fn view(&self) -> SessionView {
        SessionView {
            is_initiator: self.is_initiator,
            sent_logon: self.sent_logon,
            received_logon: self.received_logon,
            is_logged_on: self.is_logged_on,
            heart_bt_int: self.heart_bt_int,
            reconnect_interval: self.reconnect_interval,
            last_sent_time: self.last_sent_time.spec_seconds(),
        }
    }
}

impl SessionContext {
    /// A fresh context: no logon yet, the default heartbeat and reconnect
    /// intervals, and the given start time.
    pub fn new(is_initiator: bool, now_secs: u64) -> (r: Self)
        ensures
            r@ == (SessionView {
                is_initiator,
                sent_logon: false,
                received_logon: false,
                is_logged_on: false,
                heart_bt_int: 15,
                reconnect_interval: 30,
                last_sent_time: now_secs,
            }),
    {
        SessionContext {
            is_initiator,
            sent_logon: false,
            received_logon: false,
            is_logged_on: false,
            heart_bt_int: 15,
            reconnect_interval: 30,
            last_sent_time: AtomicDateTime::new(now_secs),
        }
    }
}

/// The dictionaries, templates and derived lists one session works with.
pub struct MessageMap {
    pub fix_header: StrMap<String>,
    pub fix_tag_number_map: IntMap<FixTag>,
    pub admin_msg_list: Vec<String>,
    pub admin_msg: StrMap<StrMap<String>>,
    pub app_msg: StrMap<StrMap<String>>,
    pub fix_tag_name_map: StrMap<FixTag>,
    pub msgname_fields_map: StrMap<FixMsgTag>,
    pub msgnumber_fields_map: StrMap<FixMsgTag>,
    pub valid_msg_types: Vec<String>,
    pub required_fields: Vec<String>,
}

/// Whether the text looks like a FIX message at all.
pub fn is_fix_message(message: &str) -> (r: bool)
    ensures
        r == spec_contains(message@, "8=FIX"@),
{
    let chars = str_to_chars(message);
    let pat = str_to_chars("8=FIX");
    contains_sub(&chars, &pat)
}

/// Whether the decoded type name is one of the configured admin types.
pub fn is_admin_message(msgtype: &str, admin_msg_list: &Vec<String>) -> (r: bool)
    ensures
        r == strs_view(admin_msg_list@).contains(msgtype@),
{
    let mut i: usize = 0;
    let mut found = false;
    while i < admin_msg_list.len()
        invariant
            0 <= i <= admin_msg_list.len(),
            found == exists|k: int| 0 <= k < i && strs_view(admin_msg_list@)[k] == msgtype@,
        decreases admin_msg_list.len() - i,
    {
        if str_eq(admin_msg_list[i].as_str(), msgtype) {
            found = true;
            assert(strs_view(admin_msg_list@)[i as int] == msgtype@);
        }
        i = i + 1;
    }
    proof {
        if found {
            assert(strs_view(admin_msg_list@).contains(msgtype@));
        } else if strs_view(admin_msg_list@).contains(msgtype@) {
            let k = choose|k: int|
                0 <= k < strs_view(admin_msg_list@).len() && strs_view(admin_msg_list@)[k]
                    == msgtype@;
        }
    }
    found
}

/// The map with `key` set to `value` when the value is given and
/// non-empty; unchanged otherwise.
pub open spec fn spec_insert_if(
    m: Seq<(Seq<char>, Seq<char>)>,
    k: Seq<char>,
    v: Option<Seq<char>>,
) -> Seq<(Seq<char>, Seq<char>)> {
    match v {
        Some(s) => if s.len() > 0 {
            spec_map_insert(m, k, s)
        } else {
            m
        },
        None => m,
    }
}

/// View of an optional borrowed string.
pub open spec fn opt_str_view(v: Option<&str>) -> Option<Seq<char>> {
    match v {
        Some(s) => Some(s@),
        None => None,
    }
}

/// Sets `key` to `value` when the value is given and non-empty.
pub fn insert_if_some_and_not_empty(map: &mut StrMap<String>, key: &str, value: Option<&str>)
    ensures
        final(map)@ == spec_insert_if(old(map)@, key@, opt_str_view(value)),
{
    match value {
        Some(v) => {
            if !v.is_empty() {
                map.insert(String::from_str(key), String::from_str(v));
            }
        },
        None => {},
    }
}

/// The override map of an execution report, from its sixteen optional
/// fields, inserted in report order and skipping absent or empty values.
pub open spec fn spec_execution_report(
    orderid: Option<Seq<char>>,
    execid: Option<Seq<char>>,
    account: Option<Seq<char>>,
    symbol: Option<Seq<char>>,
    side: Option<Seq<char>>,
    ordtype: Option<Seq<char>>,
    transactiontime: Option<Seq<char>>,
    orderqty: Option<Seq<char>>,
    lastshares: Option<Seq<char>>,
    lastpx: Option<Seq<char>>,
    leavesqty: Option<Seq<char>>,
    cumqty: Option<Seq<char>>,
    avgpx: Option<Seq<char>>,
    exectranstype: Option<Seq<char>>,
    exectype: Option<Seq<char>>,
    ordstatus: Option<Seq<char>>,
) -> Seq<(Seq<char>, Seq<char>)> {
    let m = Seq::<(Seq<char>, Seq<char>)>::empty();
    let m = spec_insert_if(m, "OrderID"@, orderid);
    let m = spec_insert_if(m, "ExecID"@, execid);
    let m = spec_insert_if(m, "Account"@, account);
    let m = spec_insert_if(m, "Symbol"@, symbol);
    let m = spec_insert_if(m, "Side"@, side);
    let m = spec_insert_if(m, "OrdType"@, ordtype);
    let m = spec_insert_if(m, "TransactionTime"@, transactiontime);
    let m = spec_insert_if(m, "OrderQty"@, orderqty);
    let m = spec_insert_if(m, "LastShares"@, lastshares);
    let m = spec_insert_if(m, "LastPx"@, lastpx);
    let m = spec_insert_if(m, "LeavesQty"@, leavesqty);
    let m = spec_insert_if(m, "CumQty"@, cumqty);
    let m = spec_insert_if(m, "AvgPx"@, avgpx);
    let m = spec_insert_if(m, "ExecTransType"@, exectranstype);
    let m = spec_insert_if(m, "ExecType"@, exectype);
    spec_insert_if(m, "OrdStatus"@, ordstatus)
}

/// Builds the override map of an execution report.
pub fn prepare_execution_report(
    orderid: Option<&str>,
    execid: Option<&str>,
    account: Option<&str>,
    symbol: Option<&str>,
    side: Option<&str>,
    ordtype: Option<&str>,
    transactiontime: Option<&str>,
    orderqty: Option<&str>,
    lastshares: Option<&str>,
    lastpx: Option<&str>,
    leavesqty: Option<&str>,
    cumqty: Option<&str>,
    avgpx: Option<&str>,
    exectranstype: Option<&str>,
    exectype: Option<&str>,
    ordstatus: Option<&str>,
) -> (r: StrMap<String>)
    ensures
        r@ == spec_execution_report(
            opt_str_view(orderid),
            opt_str_view(execid),
            opt_str_view(account),
            opt_str_view(symbol),
            opt_str_view(side),
            opt_str_view(ordtype),
            opt_str_view(transactiontime),
            opt_str_view(orderqty),
            opt_str_view(lastshares),
            opt_str_view(lastpx),
            opt_str_view(leavesqty),
            opt_str_view(cumqty),
            opt_str_view(avgpx),
            opt_str_view(exectranstype),
            opt_str_view(exectype),
            opt_str_view(ordstatus),
        ),
{
    let mut override_map: StrMap<String> = StrMap::new();
    insert_if_some_and_not_empty(&mut override_map, "OrderID", orderid);
    insert_if_some_and_not_empty(&mut override_map, "ExecID", execid);
    insert_if_some_and_not_empty(&mut override_map, "Account", account);
    insert_if_some_and_not_empty(&mut override_map, "Symbol", symbol);
    insert_if_some_and_not_empty(&mut override_map, "Side", side);
    insert_if_some_and_not_empty(&mut override_map, "OrdType", ordtype);
    insert_if_some_and_not_empty(&mut override_map, "TransactionTime", transactiontime);
    insert_if_some_and_not_empty(&mut override_map, "OrderQty", orderqty);
    insert_if_some_and_not_empty(&mut override_map, "LastShares", lastshares);
    insert_if_some_and_not_empty(&mut override_map, "LastPx", lastpx);
    insert_if_some_and_not_empty(&mut override_map, "LeavesQty", leavesqty);
    insert_if_some_and_not_empty(&mut override_map, "CumQty", cumqty);
    insert_if_some_and_not_empty(&mut override_map, "AvgPx", avgpx);
    insert_if_some_and_not_empty(&mut override_map, "ExecTransType", exectranstype);
    insert_if_some_and_not_empty(&mut override_map, "ExecType", exectype);
    insert_if_some_and_not_empty(&mut override_map, "OrdStatus", ordstatus);
    override_map
}

/// The wire (SOH) form of an in-memory message.
pub fn to_wire(msg: &String) -> (r: String)
    ensures
        r@ == spec_replace(msg@, '|', '\x01'),
{
    let chars = str_to_chars(msg.as_str());
    let soh = replace_chars(&chars, '|', '\x01');
    chars_to_string(&soh)
}

/// The decimal text of `n`.
pub fn u64_string(n: u64) -> (r: String)
    ensures
        r@ == spec_digits(n as nat),
{
    let chars = u64_to_chars(n);
    chars_to_string(&chars)
}

/// What the ledger holds after a NewOrderSingle: when the message carries
/// a complete, well-formed order it is recorded with status `New`;
/// otherwise the ledger does not change.
pub open spec fn nos_store_effect(
    msg: Seq<(Seq<char>, Seq<char>)>,
    store: Seq<(u64, OrderView)>,
) -> Seq<(u64, OrderView)> {
    match spec_order_of_map(spec_map_insert(msg, "OrdStatus"@, "New"@)) {
        Some(ov) => spec_int_insert(store, ov.id, ov),
        None => store,
    }
}

/// The seven fields a NewOrderSingle must carry.
pub open spec fn nos_has_all(msg: Seq<(Seq<char>, Seq<char>)>) -> bool {
    &&& spec_map_get(msg, "ClOrdID"@) is Some
    &&& spec_map_get(msg, "Symbol"@) is Some
    &&& spec_map_get(msg, "Side"@) is Some
    &&& spec_map_get(msg, "OrderQty"@) is Some
    &&& spec_map_get(msg, "Price"@) is Some
    &&& spec_map_get(msg, "OrdType"@) is Some
    &&& spec_map_get(msg, "TransactTime"@) is Some
}

/// A field's value, or empty when absent.
pub open spec fn field_or_empty(msg: Seq<(Seq<char>, Seq<char>)>, k: Seq<char>) -> Seq<char> {
    match spec_map_get(msg, k) {
        Some(v) => v,
        None => Seq::empty(),
    }
}

/// The execution report confirming a new order, built from its fields.
pub open spec fn nos_report_ok(msg: Seq<(Seq<char>, Seq<char>)>) -> Seq<(Seq<char>, Seq<char>)> {
    spec_execution_report(
        Some(field_or_empty(msg, "ClOrdID"@)),
        Some("XYZ123"@),
        Some(field_or_empty(msg, "Account"@)),
        Some(field_or_empty(msg, "Symbol"@)),
        Some(field_or_empty(msg, "Side"@)),
        Some(field_or_empty(msg, "OrdType"@)),
        Some(field_or_empty(msg, "TransactTime"@)),
        Some(field_or_empty(msg, "OrderQty"@)),
        Some("0"@),
        Some(field_or_empty(msg, "Price"@)),
        Some("0"@),
        Some("0"@),
        Some("0"@),
        Some("0"@),
        Some("0"@),
        Some("0"@),
    )
}

/// The execution report rejecting a malformed order.
pub open spec fn nos_report_rejected(msg: Seq<(Seq<char>, Seq<char>)>) -> Seq<
    (Seq<char>, Seq<char>),
> {
    spec_execution_report(
        Some(field_or_empty(msg, "ClOrdID"@)),
        Some("XYZ123"@),
        Some(field_or_empty(msg, "Account"@)),
        Some(field_or_empty(msg, "Symbol"@)),
        Some(field_or_empty(msg, "Side"@)),
        Some(field_or_empty(msg, "OrdType"@)),
        Some(field_or_empty(msg, "TransactTime"@)),
        Some("0"@),
        Some("0"@),
        Some(field_or_empty(msg, "Price"@)),
        Some("0"@),
        Some("0"@),
        Some("0"@),
        Some("0"@),
        Some("8"@),
        Some("8"@),
    )
}

/// The response a NewOrderSingle earns: nothing for an initiator, a `New`
/// execution report for a complete well-formed order, and a `Rejected`
/// report otherwise.
pub open spec fn nos_response(
    msg: Seq<(Seq<char>, Seq<char>)>,
    app_msg: Seq<(Seq<char>, Seq<(Seq<char>, Seq<char>)>)>,
    tags: Seq<(Seq<char>, crate::dictionary::TagView)>,
    outgoing: u64,
    is_initiator: bool,
    ts: Seq<char>,
) -> Seq<char> {
    if is_initiator {
        Seq::empty()
    } else if nos_has_all(msg) && spec_order_of_map(spec_map_insert(msg, "OrdStatus"@, "New"@))
        is Some {
        spec_encode_template(
            "Execution_Report"@,
            app_msg,
            tags,
            Some(nos_report_ok(msg)),
            outgoing,
            ts,
        )
    } else {
        spec_encode_template(
            "Execution_Report"@,
            app_msg,
            tags,
            Some(nos_report_rejected(msg)),
            outgoing,
            ts,
        )
    }
}

/// Handles a NewOrderSingle: records the order (status `New`) when it is
/// complete and well formed, and answers with the matching execution
/// report; initiators record but never answer.
pub fn handle_new_order_single(
    msg_map: &StrMap<String>,
    app_msg: &StrMap<StrMap<String>>,
    fix_tag_name_map: &StrMap<FixTag>,
    seq_store: &SequenceNumberStore,
    order_store: &mut OrderStore,
    is_initiator: bool,
) -> (r: String)
    ensures
        final(order_store)@ == nos_store_effect(msg_map@, old(order_store)@),
        exists|ts: Seq<char>|
            r@ == #[trigger] nos_response(
                msg_map@,
                app_msg@,
                fix_tag_name_map@,
                seq_store.spec_outgoing(),
                is_initiator,
                ts,
            ),
{
    let has_all = msg_map.has_key("ClOrdID") && msg_map.has_key("Symbol") && msg_map.has_key(
        "Side",
    ) && msg_map.has_key("OrderQty") && msg_map.has_key("Price") && msg_map.has_key("OrdType")
        && msg_map.has_key("TransactTime");
    let mut msg_map_clone = msg_map.clone_map();
    msg_map_clone.insert(String::from_str("OrdStatus"), String::from_str("New"));
    let added = match add_order_to_store(order_store, &msg_map_clone) {
        Ok(_) => true,
        Err(_) => false,
    };
    if is_initiator {
        let r = String::new();
        proof {
            let ts = Seq::<char>::empty();
            assert(r@ == nos_response(
                msg_map@,
                app_msg@,
                fix_tag_name_map@,
                seq_store.spec_outgoing(),
                is_initiator,
                ts,
            ));
        }
        return r;
    }
    if has_all && added {
        let clordid = get_or_empty(msg_map, "ClOrdID");
        let account = get_or_empty(msg_map, "Account");
        let symbol = get_or_empty(msg_map, "Symbol");
        let side = get_or_empty(msg_map, "Side");
        let ordtype = get_or_empty(msg_map, "OrdType");
        let transacttime = get_or_empty(msg_map, "TransactTime");
        let orderqty = get_or_empty(msg_map, "OrderQty");
        let price = get_or_empty(msg_map, "Price");
        let override_map = prepare_execution_report(
            Some(clordid.as_str()),
            Some("XYZ123"),
            Some(account.as_str()),
            Some(symbol.as_str()),
            Some(side.as_str()),
            Some(ordtype.as_str()),
            Some(transacttime.as_str()),
            Some(orderqty.as_str()),
            Some("0"),
            Some(price.as_str()),
            Some("0"),
            Some("0"),
            Some("0"),
            Some("0"),
            Some("0"),
            Some("0"),
        );
        let mt = String::from_str("Execution_Report");
        let ts = crate::message_converter::sending_time_now();
        let r = encode_from_template(
            &mt,
            app_msg,
            fix_tag_name_map,
            Some(&override_map),
            seq_store.get_outgoing(),
            &ts,
        );
        proof {
            assert(override_map@ == nos_report_ok(msg_map@));
            assert(r@ == nos_response(
                msg_map@,
                app_msg@,
                fix_tag_name_map@,
                seq_store.spec_outgoing(),
                is_initiator,
                ts@,
            ));
        }
        r
    } else {
        let clordid = get_or_empty(msg_map, "ClOrdID");
        let account = get_or_empty(msg_map, "Account");
        let symbol = get_or_empty(msg_map, "Symbol");
        let side = get_or_empty(msg_map, "Side");
        let ordtype = get_or_empty(msg_map, "OrdType");
        let transacttime = get_or_empty(msg_map, "TransactTime");
        let price = get_or_empty(msg_map, "Price");
        let override_map = prepare_execution_report(
            Some(clordid.as_str()),
            Some("XYZ123"),
            Some(account.as_str()),
            Some(symbol.as_str()),
            Some(side.as_str()),
            Some(ordtype.as_str()),
            Some(transacttime.as_str()),
            Some("0"),
            Some("0"),
            Some(price.as_str()),
            Some("0"),
            Some("0"),
            Some("0"),
            Some("0"),
            Some("8"),
            Some("8"),
        );
        let mt = String::from_str("Execution_Report");
        let ts = crate::message_converter::sending_time_now();
        let r = encode_from_template(
            &mt,
            app_msg,
            fix_tag_name_map,
            Some(&override_map),
            seq_store.get_outgoing(),
            &ts,
        );
        proof {
            assert(override_map@ == nos_report_rejected(msg_map@));
            assert(r@ == nos_response(
                msg_map@,
                app_msg@,
                fix_tag_name_map@,
                seq_store.spec_outgoing(),
                is_initiator,
                ts@,
            ));
        }
        r
    }
}

/// The field's value cloned, or an empty string.
fn get_or_empty(msg_map: &StrMap<String>, key: &str) -> (r: String)
    ensures
        r@ == field_or_empty(msg_map@, key@),
{
    match msg_map.get(key) {
        Some(v) => v.clone(),
        None => String::new(),
    }
}


/// The eight fields a cancel or cancel/replace request must carry.
pub open spec fn ocr_has_all(msg: Seq<(Seq<char>, Seq<char>)>) -> bool {
    &&& spec_map_get(msg, "OrigClOrdID"@) is Some
    &&& nos_has_all(msg)
}

/// What the ledger holds after a cancel or cancel/replace: when the
/// request is complete and well formed and `OrigClOrdID` names a known
/// order, that entry is replaced with the new status and the request's new
/// `ClOrdID` recorded on it; otherwise the ledger does not change.
pub open spec fn ocr_store_effect(
    msg: Seq<(Seq<char>, Seq<char>)>,
    store: Seq<(u64, OrderView)>,
    status: Seq<char>,
) -> Seq<(u64, OrderView)> {
    if ocr_has_all(msg) {
        match crate::orderstore::spec_update_of_map(spec_map_insert(msg, "OrdStatus"@, status)) {
            Some((orig, ov)) => if crate::intmap::spec_int_has(store, orig) {
                spec_int_insert(store, orig, ov)
            } else {
                store
            },
            None => store,
        }
    } else {
        store
    }
}

/// The execution report confirming a cancel/replace.
pub open spec fn ocr_report(msg: Seq<(Seq<char>, Seq<char>)>) -> Seq<(Seq<char>, Seq<char>)> {
    spec_execution_report(
        Some(field_or_empty(msg, "ClOrdID"@)),
        Some("XYZ123"@),
        Some(field_or_empty(msg, "Account"@)),
        Some(field_or_empty(msg, "Symbol"@)),
        Some(field_or_empty(msg, "Side"@)),
        Some(field_or_empty(msg, "OrdType"@)),
        Some(field_or_empty(msg, "TransactTime"@)),
        Some(field_or_empty(msg, "OrderQty"@)),
        Some("0"@),
        Some(field_or_empty(msg, "Price"@)),
        Some("0"@),
        Some("0"@),
        Some("0"@),
        Some("2"@),
        Some("5"@),
        Some("5"@),
    )
}

/// The execution report confirming a cancel.
pub open spec fn oc_report(msg: Seq<(Seq<char>, Seq<char>)>) -> Seq<(Seq<char>, Seq<char>)> {
    spec_execution_report(
        Some(field_or_empty(msg, "ClOrdID"@)),
        Some("XYZ123"@),
        None,
        Some(field_or_empty(msg, "Symbol"@)),
        Some(field_or_empty(msg, "Side"@)),
        None,
        Some(field_or_empty(msg, "TransactTime"@)),
        None,
        None,
        None,
        None,
        None,
        None,
        Some("1"@),
        Some("4"@),
        Some("4"@),
    )
}

/// The response a cancel/replace earns: nothing for an initiator, a
/// `Replaced` execution report for a complete request, and an
/// OrderCancelReject otherwise.
pub open spec fn ocr_response(
    msg: Seq<(Seq<char>, Seq<char>)>,
    app_msg: Seq<(Seq<char>, Seq<(Seq<char>, Seq<char>)>)>,
    tags: Seq<(Seq<char>, crate::dictionary::TagView)>,
    outgoing: u64,
    is_initiator: bool,
    ts: Seq<char>,
) -> Seq<char> {
    if is_initiator {
        Seq::empty()
    } else if ocr_has_all(msg) {
        spec_encode_template("Execution_Report"@, app_msg, tags, Some(ocr_report(msg)), outgoing, ts)
    } else {
        spec_encode_template("Order_Cancel_Reject"@, app_msg, tags, None, outgoing, ts)
    }
}

/// The response a cancel earns, in the same shape.
pub open spec fn oc_response(
    msg: Seq<(Seq<char>, Seq<char>)>,
    app_msg: Seq<(Seq<char>, Seq<(Seq<char>, Seq<char>)>)>,
    tags: Seq<(Seq<char>, crate::dictionary::TagView)>,
    outgoing: u64,
    is_initiator: bool,
    ts: Seq<char>,
) -> Seq<char> {
    if is_initiator {
        Seq::empty()
    } else if ocr_has_all(msg) {
        spec_encode_template("Execution_Report"@, app_msg, tags, Some(oc_report(msg)), outgoing, ts)
    } else {
        spec_encode_template("Order_Cancel_Reject"@, app_msg, tags, None, outgoing, ts)
    }
}

/// Handles an OrderCancelReplaceRequest: replaces the order `OrigClOrdID`
/// names (status `Replaced`, the new `ClOrdID` recorded) and answers with
/// the matching report, or an OrderCancelReject when fields are missing;
/// initiators never answer.
pub fn handle_order_cancel_replace_request(
    msg_map: &StrMap<String>,
    app_msg: &StrMap<StrMap<String>>,
    fix_tag_name_map: &StrMap<FixTag>,
    seq_store: &SequenceNumberStore,
    order_store: &mut OrderStore,
    is_initiator: bool,
) -> (r: String)
    ensures
        final(order_store)@ == ocr_store_effect(msg_map@, old(order_store)@, "Replaced"@),
        exists|ts: Seq<char>|
            r@ == #[trigger] ocr_response(
                msg_map@,
                app_msg@,
                fix_tag_name_map@,
                seq_store.spec_outgoing(),
                is_initiator,
                ts,
            ),
{
    let has_all = msg_map.has_key("OrigClOrdID") && msg_map.has_key("ClOrdID") && msg_map.has_key(
        "Symbol",
    ) && msg_map.has_key("Side") && msg_map.has_key("OrderQty") && msg_map.has_key("Price")
        && msg_map.has_key("OrdType") && msg_map.has_key("TransactTime");
    if has_all {
        let mut msg_map_clone = msg_map.clone_map();
        msg_map_clone.insert(String::from_str("OrdStatus"), String::from_str("Replaced"));
        let _ = update_order_in_store(order_store, &msg_map_clone);
    }
    if is_initiator {
        let r = String::new();
        proof {
            let ts = Seq::<char>::empty();
            assert(r@ == ocr_response(
                msg_map@,
                app_msg@,
                fix_tag_name_map@,
                seq_store.spec_outgoing(),
                is_initiator,
                ts,
            ));
        }
        return r;
    }
    if has_all {
        let clordid = get_or_empty(msg_map, "ClOrdID");
        let account = get_or_empty(msg_map, "Account");
        let symbol = get_or_empty(msg_map, "Symbol");
        let side = get_or_empty(msg_map, "Side");
        let ordtype = get_or_empty(msg_map, "OrdType");
        let transacttime = get_or_empty(msg_map, "TransactTime");
        let orderqty = get_or_empty(msg_map, "OrderQty");
        let price = get_or_empty(msg_map, "Price");
        let override_map = prepare_execution_report(
            Some(clordid.as_str()),
            Some("XYZ123"),
            Some(account.as_str()),
            Some(symbol.as_str()),
            Some(side.as_str()),
            Some(ordtype.as_str()),
            Some(transacttime.as_str()),
            Some(orderqty.as_str()),
            Some("0"),
            Some(price.as_str()),
            Some("0"),
            Some("0"),
            Some("0"),
            Some("2"),
            Some("5"),
            Some("5"),
        );
        let mt = String::from_str("Execution_Report");
        let ts = crate::message_converter::sending_time_now();
        let r = encode_from_template(
            &mt,
            app_msg,
            fix_tag_name_map,
            Some(&override_map),
            seq_store.get_outgoing(),
            &ts,
        );
        proof {
            assert(override_map@ == ocr_report(msg_map@));
            assert(r@ == ocr_response(
                msg_map@,
                app_msg@,
                fix_tag_name_map@,
                seq_store.spec_outgoing(),
                is_initiator,
                ts@,
            ));
        }
        r
    } else {
        let mt = String::from_str("Order_Cancel_Reject");
        let ts = crate::message_converter::sending_time_now();
        let r = encode_from_template(
            &mt,
            app_msg,
            fix_tag_name_map,
            None,
            seq_store.get_outgoing(),
            &ts,
        );
        proof {
            assert(r@ == ocr_response(
                msg_map@,
                app_msg@,
                fix_tag_name_map@,
                seq_store.spec_outgoing(),
                is_initiator,
                ts@,
            ));
        }
        r
    }
}

/// Handles an OrderCancelRequest: marks the order `OrigClOrdID` names
/// `Canceled` (the new `ClOrdID` recorded on it) and answers with the
/// matching report, or an OrderCancelReject when fields are missing;
/// initiators never answer.
pub fn handle_order_cancel_request(
    msg_map: &StrMap<String>,
    app_msg: &StrMap<StrMap<String>>,
    fix_tag_name_map: &StrMap<FixTag>,
    seq_store: &SequenceNumberStore,
    order_store: &mut OrderStore,
    is_initiator: bool,
) -> (r: String)
    ensures
        final(order_store)@ == ocr_store_effect(msg_map@, old(order_store)@, "Canceled"@),
        exists|ts: Seq<char>|
            r@ == #[trigger] oc_response(
                msg_map@,
                app_msg@,
                fix_tag_name_map@,
                seq_store.spec_outgoing(),
                is_initiator,
                ts,
            ),
{
    let has_all = msg_map.has_key("OrigClOrdID") && msg_map.has_key("ClOrdID") && msg_map.has_key(
        "Symbol",
    ) && msg_map.has_key("Side") && msg_map.has_key("OrderQty") && msg_map.has_key("Price")
        && msg_map.has_key("OrdType") && msg_map.has_key("TransactTime");
    if has_all {
        let mut msg_map_clone = msg_map.clone_map();
        msg_map_clone.insert(String::from_str("OrdStatus"), String::from_str("Canceled"));
        let _ = update_order_in_store(order_store, &msg_map_clone);
    }
    if is_initiator {
        let r = String::new();
        proof {
            let ts = Seq::<char>::empty();
            assert(r@ == oc_response(
                msg_map@,
                app_msg@,
                fix_tag_name_map@,
                seq_store.spec_outgoing(),
                is_initiator,
                ts,
            ));
        }
        return r;
    }
    if has_all {
        let clordid = get_or_empty(msg_map, "ClOrdID");
        let symbol = get_or_empty(msg_map, "Symbol");
        let side = get_or_empty(msg_map, "Side");
        let transacttime = get_or_empty(msg_map, "TransactTime");
        let override_map = prepare_execution_report(
            Some(clordid.as_str()),
            Some("XYZ123"),
            None,
            Some(symbol.as_str()),
            Some(side.as_str()),
            None,
            Some(transacttime.as_str()),
            None,
            None,
            None,
            None,
            None,
            None,
            Some("1"),
            Some("4"),
            Some("4"),
        );
        let mt = String::from_str("Execution_Report");
        let ts = crate::message_converter::sending_time_now();
        let r = encode_from_template(
            &mt,
            app_msg,
            fix_tag_name_map,
            Some(&override_map),
            seq_store.get_outgoing(),
            &ts,
        );
        proof {
            assert(override_map@ == oc_report(msg_map@));
            assert(r@ == oc_response(
                msg_map@,
                app_msg@,
                fix_tag_name_map@,
                seq_store.spec_outgoing(),
                is_initiator,
                ts@,
            ));
        }
        r
    } else {
        let mt = String::from_str("Order_Cancel_Reject");
        let ts = crate::message_converter::sending_time_now();
        let r = encode_from_template(
            &mt,
            app_msg,
            fix_tag_name_map,
            None,
            seq_store.get_outgoing(),
            &ts,
        );
        proof {
            assert(r@ == oc_response(
                msg_map@,
                app_msg@,
                fix_tag_name_map@,
                seq_store.spec_outgoing(),
                is_initiator,
                ts@,
            ));
        }
        r
    }
}


/// The response a business message earns, by its decoded type name.
pub open spec fn business_response(
    msgtype: Seq<char>,
    msg: Seq<(Seq<char>, Seq<char>)>,
    app_msg: Seq<(Seq<char>, Seq<(Seq<char>, Seq<char>)>)>,
    tags: Seq<(Seq<char>, crate::dictionary::TagView)>,
    outgoing: u64,
    is_initiator: bool,
    ts: Seq<char>,
) -> Seq<char> {
    if msgtype == "NEW_ORDER_SINGLE"@ {
        nos_response(msg, app_msg, tags, outgoing, is_initiator, ts)
    } else if msgtype == "ORDER_CANCEL_REPLACE_REQUEST"@ {
        ocr_response(msg, app_msg, tags, outgoing, is_initiator, ts)
    } else if msgtype == "ORDER_CANCEL_REQUEST"@ {
        oc_response(msg, app_msg, tags, outgoing, is_initiator, ts)
    } else if msgtype == "EXECUTION_REPORT"@ {
        Seq::empty()
    } else {
        spec_encode_template("Business_Message_Reject"@, app_msg, tags, None, outgoing, ts)
    }
}

/// What a business message does to the order ledger, by its type name.
pub open spec fn business_store_effect(
    msgtype: Seq<char>,
    msg: Seq<(Seq<char>, Seq<char>)>,
    store: Seq<(u64, OrderView)>,
) -> Seq<(u64, OrderView)> {
    if msgtype == "NEW_ORDER_SINGLE"@ {
        nos_store_effect(msg, store)
    } else if msgtype == "ORDER_CANCEL_REPLACE_REQUEST"@ {
        ocr_store_effect(msg, store, "Replaced"@)
    } else if msgtype == "ORDER_CANCEL_REQUEST"@ {
        ocr_store_effect(msg, store, "Canceled"@)
    } else {
        store
    }
}

/// Routes a business message to its handler, sends nothing when the
/// handler produced nothing, and counts one outbound message otherwise.
pub fn handle_business_message(
    msgtype: &str,
    msg_map: &StrMap<String>,
    app_msg: &StrMap<StrMap<String>>,
    fix_tag_name_map: &StrMap<FixTag>,
    seq_store: &mut SequenceNumberStore,
    order_store: &mut OrderStore,
    is_initiator: bool,
) -> (r: Option<String>)
    requires
        old(seq_store).spec_outgoing() < u64::MAX,
    ensures
        final(order_store)@ == business_store_effect(msgtype@, msg_map@, old(order_store)@),
        final(seq_store).spec_incoming() == old(seq_store).spec_incoming(),
        exists|ts: Seq<char>|
            {
                let resp = #[trigger] business_response(
                    msgtype@,
                    msg_map@,
                    app_msg@,
                    fix_tag_name_map@,
                    old(seq_store).spec_outgoing(),
                    is_initiator,
                    ts,
                );
                if resp.len() == 0 {
                    r is None && final(seq_store).spec_outgoing()
                        == old(seq_store).spec_outgoing()
                } else {
                    r == Some(r->0) && r->0@ == spec_replace(resp, '|', '\x01')
                        && final(seq_store).spec_outgoing() == old(seq_store).spec_outgoing() + 1
                }
            },
{
    let ghost out0 = seq_store.spec_outgoing();
    let response: String = if str_eq(msgtype, "NEW_ORDER_SINGLE") {
        let resp = handle_new_order_single(
            msg_map,
            app_msg,
            fix_tag_name_map,
            seq_store,
            order_store,
            is_initiator,
        );
        proof {
            let ts = choose|ts: Seq<char>|
                resp@ == #[trigger] nos_response(
                    msg_map@,
                    app_msg@,
                    fix_tag_name_map@,
                    out0,
                    is_initiator,
                    ts,
                );
            assert(resp@ == business_response(
                msgtype@,
                msg_map@,
                app_msg@,
                fix_tag_name_map@,
                out0,
                is_initiator,
                ts,
            ));
        }
        resp
    } else if str_eq(msgtype, "ORDER_CANCEL_REPLACE_REQUEST") {
        let resp = handle_order_cancel_replace_request(
            msg_map,
            app_msg,
            fix_tag_name_map,
            seq_store,
            order_store,
            is_initiator,
        );
        proof {
            let ts = choose|ts: Seq<char>|
                resp@ == #[trigger] ocr_response(
                    msg_map@,
                    app_msg@,
                    fix_tag_name_map@,
                    out0,
                    is_initiator,
                    ts,
                );
            assert(resp@ == business_response(
                msgtype@,
                msg_map@,
                app_msg@,
                fix_tag_name_map@,
                out0,
                is_initiator,
                ts,
            ));
        }
        resp
    } else if str_eq(msgtype, "ORDER_CANCEL_REQUEST") {
        let resp = handle_order_cancel_request(
            msg_map,
            app_msg,
            fix_tag_name_map,
            seq_store,
            order_store,
            is_initiator,
        );
        proof {
            let ts = choose|ts: Seq<char>|
                resp@ == #[trigger] oc_response(
                    msg_map@,
                    app_msg@,
                    fix_tag_name_map@,
                    out0,
                    is_initiator,
                    ts,
                );
            assert(resp@ == business_response(
                msgtype@,
                msg_map@,
                app_msg@,
                fix_tag_name_map@,
                out0,
                is_initiator,
                ts,
            ));
        }
        resp
    } else if str_eq(msgtype, "EXECUTION_REPORT") {
        let resp = String::new();
        proof {
            let ts = Seq::<char>::empty();
            assert(resp@ == business_response(
                msgtype@,
                msg_map@,
                app_msg@,
                fix_tag_name_map@,
                out0,
                is_initiator,
                ts,
            ));
        }
        resp
    } else {
        let mt = String::from_str("Business_Message_Reject");
        let ts = crate::message_converter::sending_time_now();
        let resp = encode_from_template(
            &mt,
            app_msg,
            fix_tag_name_map,
            None,
            seq_store.get_outgoing(),
            &ts,
        );
        proof {
            assert(resp@ == business_response(
                msgtype@,
                msg_map@,
                app_msg@,
                fix_tag_name_map@,
                out0,
                is_initiator,
                ts@,
            ));
        }
        resp
    };
    let ghost wts = choose|ts: Seq<char>|
        response@ == #[trigger] business_response(
            msgtype@,
            msg_map@,
            app_msg@,
            fix_tag_name_map@,
            out0,
            is_initiator,
            ts,
        );
    if !response.as_str().is_empty() {
        let wire = to_wire(&response);
        seq_store.increment_outgoing();
        proof {
            assert(wire@ == spec_replace(
                business_response(
                    msgtype@,
                    msg_map@,
                    app_msg@,
                    fix_tag_name_map@,
                    out0,
                    is_initiator,
                    wts,
                ),
                '|',
                '\x01',
            ));
        }
        Some(wire)
    } else {
        None
    }
}

/// Whether an admin message of this type earns a reply, given the flags.
pub open spec fn admin_has_response(msgtype: Seq<char>, ctxv: SessionView) -> bool {
    if ctxv.sent_logon && msgtype == "LOGON"@ {
        false
    } else {
        msgtype == "LOGON"@ || msgtype == "HEARTBEAT"@ || msgtype == "TEST_REQUEST"@ || msgtype
            == "RESEND_REQUEST"@
    }
}

/// The reply an admin message earns: a Logon for a first peer Logon, a
/// Heartbeat for a Heartbeat or TestRequest, a SequenceReset carrying the
/// expected incoming number for a ResendRequest, and nothing else.
pub open spec fn admin_response(
    msgtype: Seq<char>,
    ctxv: SessionView,
    incoming: u64,
    outgoing: u64,
    admin_msg: Seq<(Seq<char>, Seq<(Seq<char>, Seq<char>)>)>,
    tags: Seq<(Seq<char>, crate::dictionary::TagView)>,
    ts: Seq<char>,
) -> Seq<char> {
    if ctxv.sent_logon && msgtype == "LOGON"@ {
        Seq::empty()
    } else if msgtype == "LOGON"@ {
        spec_encode_template("Logon"@, admin_msg, tags, None, outgoing, ts)
    } else if msgtype == "HEARTBEAT"@ || msgtype == "TEST_REQUEST"@ {
        spec_encode_template("Heartbeat"@, admin_msg, tags, None, outgoing, ts)
    } else if msgtype == "RESEND_REQUEST"@ {
        spec_encode_template(
            "Sequence_Reset"@,
            admin_msg,
            tags,
            Some(
                spec_map_insert(
                    Seq::<(Seq<char>, Seq<char>)>::empty(),
                    "NewSeqNo"@,
                    spec_digits(incoming as nat),
                ),
            ),
            outgoing,
            ts,
        )
    } else {
        Seq::empty()
    }
}

/// The outgoing counter after an admin message: a SequenceReset installs
/// its NewSeqNo, any sent reply counts one message, and nothing else moves
/// it.
pub open spec fn admin_outgoing(
    msgtype: Seq<char>,
    msg: Seq<(Seq<char>, Seq<char>)>,
    ctxv: SessionView,
    outgoing: u64,
) -> u64 {
    if ctxv.sent_logon && msgtype == "LOGON"@ {
        outgoing
    } else if msgtype == "SEQUENCE_RESET"@ {
        match spec_map_get(msg, "NewSeqNo"@) {
            Some(v) => match spec_parse_u64(v) {
                Some(n) => n,
                None => outgoing,
            },
            None => outgoing,
        }
    } else if admin_has_response(msgtype, ctxv) {
        (outgoing + 1) as u64
    } else {
        outgoing
    }
}

/// The session flags after an admin message: a first peer Logon marks the
/// logon received (and, for an initiator seeing the awaited reply, logged
/// on), and any sent reply stamps the send time.
pub open spec fn admin_ctx(msgtype: Seq<char>, ctxv: SessionView, now_secs: u64) -> SessionView {
    if ctxv.sent_logon && msgtype == "LOGON"@ {
        SessionView {
            received_logon: ctxv.received_logon || ctxv.is_initiator,
            is_logged_on: ctxv.is_logged_on || ctxv.is_initiator,
            ..ctxv
        }
    } else {
        let c1 = if msgtype == "LOGON"@ {
            SessionView { received_logon: true, sent_logon: true, is_logged_on: true, ..ctxv }
        } else {
            ctxv
        };
        if admin_has_response(msgtype, ctxv) {
            SessionView { last_sent_time: now_secs, ..c1 }
        } else {
            c1
        }
    }
}

/// Handles an admin message: produces the canonical reply for its type,
/// updates the logon flags, applies a SequenceReset to the outgoing
/// counter, and counts and stamps any sent reply.
pub fn handle_admin_message(
    msgtype: &str,
    msg_map: &StrMap<String>,
    admin_msg: &StrMap<StrMap<String>>,
    fix_tag_name_map: &StrMap<FixTag>,
    seq_store: &mut SequenceNumberStore,
    ctx: &mut SessionContext,
    now_secs: u64,
) -> (r: Option<String>)
    requires
        old(seq_store).spec_outgoing() < u64::MAX,
    ensures
        final(seq_store).spec_incoming() == old(seq_store).spec_incoming(),
        final(seq_store).spec_outgoing() == admin_outgoing(
            msgtype@,
            msg_map@,
            old(ctx)@,
            old(seq_store).spec_outgoing(),
        ),
        final(ctx)@ == admin_ctx(msgtype@, old(ctx)@, now_secs),
        exists|ts: Seq<char>|
            {
                let resp = #[trigger] admin_response(
                    msgtype@,
                    old(ctx)@,
                    old(seq_store).spec_incoming(),
                    old(seq_store).spec_outgoing(),
                    admin_msg@,
                    fix_tag_name_map@,
                    ts,
                );
                if resp.len() == 0 {
                    r is None
                } else {
                    r == Some(r->0) && r->0@ == spec_replace(resp, '|', '\x01')
                }
            },
{
    let ghost ctx0 = ctx@;
    let ghost inc0 = seq_store.spec_incoming();
    let ghost out0 = seq_store.spec_outgoing();
    if ctx.sent_logon && str_eq(msgtype, "LOGON") {
        if ctx.is_initiator {
            ctx.received_logon = true;
            ctx.is_logged_on = true;
        }
        proof {
            let ts = Seq::<char>::empty();
            assert(admin_response(
                msgtype@,
                ctx0,
                inc0,
                out0,
                admin_msg@,
                fix_tag_name_map@,
                ts,
            ).len() == 0);
            assert(ctx@ =~= admin_ctx(msgtype@, ctx0, now_secs));
        }
        return None;
    }
    let response: String = if str_eq(msgtype, "LOGON") {
        ctx.received_logon = true;
        ctx.sent_logon = true;
        ctx.is_logged_on = true;
        let mt = String::from_str("Logon");
        let ts = crate::message_converter::sending_time_now();
        let resp = encode_from_template(
            &mt,
            admin_msg,
            fix_tag_name_map,
            None,
            seq_store.get_outgoing(),
            &ts,
        );
        proof {
            crate::message_converter::lemma_encode_template_nonempty(
                "Logon"@,
                admin_msg@,
                fix_tag_name_map@,
                None,
                out0,
                ts@,
            );
            assert(resp@ == admin_response(
                msgtype@,
                ctx0,
                inc0,
                out0,
                admin_msg@,
                fix_tag_name_map@,
                ts@,
            ));
        }
        resp
    } else if str_eq(msgtype, "HEARTBEAT") || str_eq(msgtype, "TEST_REQUEST") {
        let mt = String::from_str("Heartbeat");
        let ts = crate::message_converter::sending_time_now();
        let resp = encode_from_template(
            &mt,
            admin_msg,
            fix_tag_name_map,
            None,
            seq_store.get_outgoing(),
            &ts,
        );
        proof {
            crate::message_converter::lemma_encode_template_nonempty(
                "Heartbeat"@,
                admin_msg@,
                fix_tag_name_map@,
                None,
                out0,
                ts@,
            );
            assert(resp@ == admin_response(
                msgtype@,
                ctx0,
                inc0,
                out0,
                admin_msg@,
                fix_tag_name_map@,
                ts@,
            ));
        }
        resp
    } else if str_eq(msgtype, "RESEND_REQUEST") {
        let mut override_map: StrMap<String> = StrMap::new();
        override_map.insert(String::from_str("NewSeqNo"), u64_string(seq_store.get_incoming()));
        let mt = String::from_str("Sequence_Reset");
        let ts = crate::message_converter::sending_time_now();
        let resp = encode_from_template(
            &mt,
            admin_msg,
            fix_tag_name_map,
            Some(&override_map),
            seq_store.get_outgoing(),
            &ts,
        );
        proof {
            crate::message_converter::lemma_encode_template_nonempty(
                "Sequence_Reset"@,
                admin_msg@,
                fix_tag_name_map@,
                Some(override_map@),
                out0,
                ts@,
            );
            assert(override_map@ == spec_map_insert(
                Seq::<(Seq<char>, Seq<char>)>::empty(),
                "NewSeqNo"@,
                spec_digits(inc0 as nat),
            ));
            assert(resp@ == admin_response(
                msgtype@,
                ctx0,
                inc0,
                out0,
                admin_msg@,
                fix_tag_name_map@,
                ts@,
            ));
        }
        resp
    } else if str_eq(msgtype, "SEQUENCE_RESET") {
        match msg_map.get("NewSeqNo") {
            Some(v) => {
                match parse_u64(&str_to_chars(v.as_str())) {
                    Some(new_seqno) => {
                        seq_store.set_outgoing(new_seqno);
                    },
                    None => {},
                }
            },
            None => {},
        }
        let resp = String::new();
        proof {
            let ts = Seq::<char>::empty();
            assert(resp@ == admin_response(
                msgtype@,
                ctx0,
                inc0,
                out0,
                admin_msg@,
                fix_tag_name_map@,
                ts,
            ));
        }
        resp
    } else {
        let resp = String::new();
        proof {
            let ts = Seq::<char>::empty();
            assert(resp@ == admin_response(
                msgtype@,
                ctx0,
                inc0,
                out0,
                admin_msg@,
                fix_tag_name_map@,
                ts,
            ));
        }
        resp
    };
    let ghost wts = choose|ts: Seq<char>|
        response@ == #[trigger] admin_response(
            msgtype@,
            ctx0,
            inc0,
            out0,
            admin_msg@,
            fix_tag_name_map@,
            ts,
        );
    proof {
        reveal_strlit("LOGON");
        reveal_strlit("HEARTBEAT");
        reveal_strlit("TEST_REQUEST");
        reveal_strlit("RESEND_REQUEST");
        reveal_strlit("SEQUENCE_RESET");
        assert("RESEND_REQUEST"@ != "SEQUENCE_RESET"@) by {
            assert("RESEND_REQUEST"@[0] == 'R');
            assert("SEQUENCE_RESET"@[0] == 'S');
        }
        assert("LOGON"@.len() == 5);
        assert("HEARTBEAT"@.len() == 9);
        assert("TEST_REQUEST"@.len() == 12);
        assert("SEQUENCE_RESET"@.len() == 14);
        assert("LOGON"@ != "SEQUENCE_RESET"@);
        assert("HEARTBEAT"@ != "SEQUENCE_RESET"@);
        assert("TEST_REQUEST"@ != "SEQUENCE_RESET"@);
    }
    if !response.as_str().is_empty() {
        proof {
            assert(admin_has_response(msgtype@, ctx0));
            assert(seq_store.spec_outgoing() == out0);
        }
        let wire = to_wire(&response);
        seq_store.increment_outgoing();
        ctx.last_sent_time.store(now_secs);
        proof {
            assert(!(ctx0.sent_logon && msgtype@ == "LOGON"@));
            assert(msgtype@ != "SEQUENCE_RESET"@);
            assert(seq_store.spec_outgoing() == out0 + 1);
            assert(admin_outgoing(msgtype@, msg_map@, ctx0, out0) == (out0 + 1) as u64);
            assert(seq_store.spec_outgoing() == admin_outgoing(msgtype@, msg_map@, ctx0, out0));
            assert(ctx@ =~= admin_ctx(msgtype@, ctx0, now_secs));
            assert(wire@ == spec_replace(
                admin_response(msgtype@, ctx0, inc0, out0, admin_msg@, fix_tag_name_map@, wts),
                '|',
                '\x01',
            ));
        }
        Some(wire)
    } else {
        proof {
            assert(seq_store.spec_outgoing() == admin_outgoing(msgtype@, msg_map@, ctx0, out0));
            assert(ctx@ =~= admin_ctx(msgtype@, ctx0, now_secs));
        }
        None
    }
}

/// Builds and counts the ResendRequest that answers a sequence gap: its
/// BeginSeqNo is the expected incoming number, and EndSeqNo stays the
/// template's zero, meaning all following messages.
pub fn handle_resend_request(
    expected_incoming_seq_num: u64,
    admin_msg: &StrMap<StrMap<String>>,
    fix_tag_name_map: &StrMap<FixTag>,
    seq_store: &mut SequenceNumberStore,
) -> (r: String)
    requires
        old(seq_store).spec_outgoing() < u64::MAX,
    ensures
        final(seq_store).spec_incoming() == old(seq_store).spec_incoming(),
        final(seq_store).spec_outgoing() == old(seq_store).spec_outgoing() + 1,
        exists|ts: Seq<char>|
            r@ == spec_replace(
                #[trigger] spec_encode_template(
                    "Resend_Request"@,
                    admin_msg@,
                    fix_tag_name_map@,
                    Some(
                        spec_map_insert(
                            Seq::<(Seq<char>, Seq<char>)>::empty(),
                            "BeginSeqNo"@,
                            spec_digits(expected_incoming_seq_num as nat),
                        ),
                    ),
                    old(seq_store).spec_outgoing(),
                    ts,
                ),
                '|',
                '\x01',
            ),
{
    let mut override_map: StrMap<String> = StrMap::new();
    override_map.insert(String::from_str("BeginSeqNo"), u64_string(expected_incoming_seq_num));
    let mt = String::from_str("Resend_Request");
    let ts = crate::message_converter::sending_time_now();
    let fix_msg = encode_from_template(
        &mt,
        admin_msg,
        fix_tag_name_map,
        Some(&override_map),
        seq_store.get_outgoing(),
        &ts,
    );
    let wire = to_wire(&fix_msg);
    seq_store.increment_outgoing();
    wire
}

/// Builds and counts the Logout that answers a too-low sequence number,
/// carrying the explanatory text.
pub fn handle_logout(
    err_text: &str,
    admin_msg: &StrMap<StrMap<String>>,
    fix_tag_name_map: &StrMap<FixTag>,
    seq_store: &mut SequenceNumberStore,
) -> (r: String)
    requires
        old(seq_store).spec_outgoing() < u64::MAX,
    ensures
        final(seq_store).spec_incoming() == old(seq_store).spec_incoming(),
        final(seq_store).spec_outgoing() == old(seq_store).spec_outgoing() + 1,
        exists|ts: Seq<char>|
            r@ == spec_replace(
                #[trigger] spec_encode_template(
                    "Logout"@,
                    admin_msg@,
                    fix_tag_name_map@,
                    Some(
                        spec_map_insert(
                            Seq::<(Seq<char>, Seq<char>)>::empty(),
                            "Text"@,
                            err_text@,
                        ),
                    ),
                    old(seq_store).spec_outgoing(),
                    ts,
                ),
                '|',
                '\x01',
            ),
{
    let mut override_map: StrMap<String> = StrMap::new();
    override_map.insert(String::from_str("Text"), String::from_str(err_text));
    let mt = String::from_str("Logout");
    let ts = crate::message_converter::sending_time_now();
    let fix_msg = encode_from_template(
        &mt,
        admin_msg,
        fix_tag_name_map,
        Some(&override_map),
        seq_store.get_outgoing(),
        &ts,
    );
    let wire = to_wire(&fix_msg);
    seq_store.increment_outgoing();
    wire
}


/// What one inbound message produced: at most one outbound wire message,
/// and whether the session must terminate (sequence number too low).
pub struct ProcessOutcome {
    pub outbound: Option<String>,
    pub fatal: bool,
}

/// The text of the Logout sent for a too-low sequence number.
pub open spec fn too_low_text(expected: u64, observed: u64) -> Seq<char> {
    "MsgSeqNum too low, expecting "@ + spec_digits(expected as nat) + " but received "@
        + spec_digits(observed as nat) + "!!"@
}

/// Whether the raw message passes parsing and validation.
pub open spec fn msg_accepted(message: Seq<char>, maps_required: Seq<Seq<char>>, maps_valid: Seq<Seq<char>>, msgnumber: Seq<(Seq<char>, crate::payload::MsgTagView)>) -> bool {
    let parsed = spec_parse_fields(spec_replace(message, '\x01', '|'));
    parsed is Some && spec_validate(parsed->0, maps_required, maps_valid, msgnumber)
}

/// The sequence number an accepted message carries, if it parses.
pub open spec fn msg_seq_num(message: Seq<char>, tags: Seq<(u64, crate::dictionary::TagView)>) -> Option<u64> {
    match spec_map_get(spec_decode(message, tags).fields, "MsgSeqNum"@) {
        Some(v) => spec_parse_u64(v),
        None => None,
    }
}

/// The outbound message of the fatal case: a Logout whose Text names the
/// expected and received sequence numbers.
pub open spec fn logout_outbound_ok(
    out: Option<String>,
    admin_msg: Seq<(Seq<char>, Seq<(Seq<char>, Seq<char>)>)>,
    tags: Seq<(Seq<char>, crate::dictionary::TagView)>,
    expected: u64,
    observed: u64,
    out0: u64,
) -> bool {
    out is Some && exists|ts: Seq<char>|
        out->0@ == spec_replace(
            #[trigger] spec_encode_template(
                "Logout"@,
                admin_msg,
                tags,
                Some(
                    spec_map_insert(
                        Seq::<(Seq<char>, Seq<char>)>::empty(),
                        "Text"@,
                        too_low_text(expected, observed),
                    ),
                ),
                out0,
                ts,
            ),
            '|',
            '\x01',
        )
}

/// Applies the sequence discipline to one received message and routes it.
/// An accepted message with the expected number advances the incoming
/// counter and earns its admin or business reply; a higher number leaves
/// the counter alone and earns a ResendRequest from the expected number
/// (unless it is itself a SequenceReset, which is applied); a lower number
/// earns a Logout naming both numbers and ends the session.
#[verifier::rlimit(100)]
pub fn process_fix_message(
    message: &str,
    maps: &MessageMap,
    ctx: &mut SessionContext,
    seq_store: &mut SequenceNumberStore,
    order_store: &mut OrderStore,
    now_secs: u64,
) -> (r: ProcessOutcome)
    requires
        old(seq_store).spec_incoming() < u64::MAX,
        old(seq_store).spec_outgoing() < u64::MAX,
    ensures
        ({
            let dec = spec_decode(message@, maps.fix_tag_number_map@);
            let accepted = msg_accepted(
                message@,
                strs_view(maps.required_fields@),
                strs_view(maps.valid_msg_types@),
                maps.msgnumber_fields_map@,
            );
            let seqnum = if accepted {
                msg_seq_num(message@, maps.fix_tag_number_map@)
            } else {
                None::<u64>
            };
            let expected = old(seq_store).spec_incoming();
            let out0 = old(seq_store).spec_outgoing();
            match seqnum {
                None => {
                    &&& r.outbound is None
                    &&& !r.fatal
                    &&& final(seq_store).spec_incoming() == expected
                    &&& final(seq_store).spec_outgoing() == out0
                    &&& final(ctx)@ == old(ctx)@
                    &&& final(order_store)@ == old(order_store)@
                },
                Some(observed) => {
                    if observed == expected {
                        &&& !r.fatal
                        &&& final(seq_store).spec_incoming() == expected + 1
                        &&& if strs_view(maps.admin_msg_list@).contains(dec.msgtype) {
                            &&& final(order_store)@ == old(order_store)@
                            &&& final(ctx)@ == admin_ctx(dec.msgtype, old(ctx)@, now_secs)
                            &&& final(seq_store).spec_outgoing() == admin_outgoing(
                                dec.msgtype,
                                dec.fields,
                                old(ctx)@,
                                out0,
                            )
                            &&& exists|ts: Seq<char>|
                                {
                                    let resp = #[trigger] admin_response(
                                        dec.msgtype,
                                        old(ctx)@,
                                        (expected + 1) as u64,
                                        out0,
                                        maps.admin_msg@,
                                        maps.fix_tag_name_map@,
                                        ts,
                                    );
                                    if resp.len() == 0 {
                                        r.outbound is None
                                    } else {
                                        r.outbound == Some(r.outbound->0) && r.outbound->0@
                                            == spec_replace(resp, '|', '\x01')
                                    }
                                }
                        } else {
                            &&& final(ctx)@ == old(ctx)@
                            &&& final(order_store)@ == business_store_effect(
                                dec.msgtype,
                                dec.fields,
                                old(order_store)@,
                            )
                            &&& exists|ts: Seq<char>|
                                {
                                    let resp = #[trigger] business_response(
                                        dec.msgtype,
                                        dec.fields,
                                        maps.app_msg@,
                                        maps.fix_tag_name_map@,
                                        out0,
                                        old(ctx)@.is_initiator,
                                        ts,
                                    );
                                    if resp.len() == 0 {
                                        r.outbound is None && final(seq_store).spec_outgoing()
                                            == out0
                                    } else {
                                        r.outbound == Some(r.outbound->0) && r.outbound->0@
                                            == spec_replace(resp, '|', '\x01')
                                            && final(seq_store).spec_outgoing() == out0 + 1
                                    }
                                }
                        }
                    } else if observed > expected {
                        if dec.msgtype == "SEQUENCE_RESET"@ {
                            &&& !r.fatal
                            &&& final(seq_store).spec_incoming() == expected
                            &&& final(order_store)@ == old(order_store)@
                            &&& final(ctx)@ == admin_ctx(dec.msgtype, old(ctx)@, now_secs)
                            &&& final(seq_store).spec_outgoing() == admin_outgoing(
                                dec.msgtype,
                                dec.fields,
                                old(ctx)@,
                                out0,
                            )
                            &&& exists|ts: Seq<char>|
                                {
                                    let resp = #[trigger] admin_response(
                                        dec.msgtype,
                                        old(ctx)@,
                                        expected,
                                        out0,
                                        maps.admin_msg@,
                                        maps.fix_tag_name_map@,
                                        ts,
                                    );
                                    if resp.len() == 0 {
                                        r.outbound is None
                                    } else {
                                        r.outbound == Some(r.outbound->0) && r.outbound->0@
                                            == spec_replace(resp, '|', '\x01')
                                    }
                                }
                        } else {
                            &&& !r.fatal
                            &&& final(seq_store).spec_incoming() == expected
                            &&& final(seq_store).spec_outgoing() == out0 + 1
                            &&& final(ctx)@ == old(ctx)@
                            &&& final(order_store)@ == old(order_store)@
                            &&& exists|ts: Seq<char>|
                                r.outbound == Some(r.outbound->0) && r.outbound->0@
                                    == spec_replace(
                                    #[trigger] spec_encode_template(
                                        "Resend_Request"@,
                                        maps.admin_msg@,
                                        maps.fix_tag_name_map@,
                                        Some(
                                            spec_map_insert(
                                                Seq::<(Seq<char>, Seq<char>)>::empty(),
                                                "BeginSeqNo"@,
                                                spec_digits(expected as nat),
                                            ),
                                        ),
                                        out0,
                                        ts,
                                    ),
                                    '|',
                                    '\x01',
                                )
                        }
                    } else {
                        &&& r.fatal
                        &&& final(seq_store).spec_incoming() == expected
                        &&& final(seq_store).spec_outgoing() == out0 + 1
                        &&& final(ctx)@ == old(ctx)@
                        &&& final(order_store)@ == old(order_store)@
                        &&& logout_outbound_ok(
                            r.outbound,
                            maps.admin_msg@,
                            maps.fix_tag_name_map@,
                            expected,
                            observed,
                            out0,
                        )
                    }
                },
            }
        }),
{
    let raw = str_to_chars(message);
    let modified_chars = replace_chars(&raw, '\x01', '|');
    let modified = chars_to_string(&modified_chars);
    let fix_message = match FixMessage::parse(modified.as_str()) {
        Ok(m) => m,
        Err(_) => {
            return ProcessOutcome { outbound: None, fatal: false };
        },
    };
    if !fix_message.validate(
        &maps.required_fields,
        &maps.valid_msg_types,
        &maps.msgnumber_fields_map,
    ) {
        return ProcessOutcome { outbound: None, fatal: false };
    }
    let (msgtype, msg_map) = match fixmsg2msgtype(message, &maps.fix_tag_number_map) {
        Ok(t) => t,
        Err(_) => {
            return ProcessOutcome { outbound: None, fatal: false };
        },
    };
    let expected = seq_store.get_incoming();
    let observed = match msg_map.get("MsgSeqNum") {
        Some(s) => match parse_u64(&str_to_chars(s.as_str())) {
            Some(n) => n,
            None => {
                return ProcessOutcome { outbound: None, fatal: false };
            },
        },
        None => {
            return ProcessOutcome { outbound: None, fatal: false };
        },
    };
    if observed == expected {
        seq_store.increment_incoming();
        let mts = msgtype.as_str();
        if is_admin_message(mts, &maps.admin_msg_list) {
            let ghost dec = spec_decode(message@, maps.fix_tag_number_map@);
            let outbound = handle_admin_message(
                mts,
                &msg_map,
                &maps.admin_msg,
                &maps.fix_tag_name_map,
                seq_store,
                ctx,
                now_secs,
            );
            proof {
                let ts = choose|ts: Seq<char>|
                    {
                        let resp = #[trigger] admin_response(
                            mts@,
                            old(ctx)@,
                            (expected + 1) as u64,
                            old(seq_store).spec_outgoing(),
                            maps.admin_msg@,
                            maps.fix_tag_name_map@,
                            ts,
                        );
                        if resp.len() == 0 {
                            outbound is None
                        } else {
                            outbound == Some(outbound->0) && outbound->0@ == spec_replace(
                                resp,
                                '|',
                                '\x01',
                            )
                        }
                    };
                assert({
                    let resp = admin_response(
                        dec.msgtype,
                        old(ctx)@,
                        (expected + 1) as u64,
                        old(seq_store).spec_outgoing(),
                        maps.admin_msg@,
                        maps.fix_tag_name_map@,
                        ts,
                    );
                    if resp.len() == 0 {
                        outbound is None
                    } else {
                        outbound == Some(outbound->0) && outbound->0@ == spec_replace(
                            resp,
                            '|',
                            '\x01',
                        )
                    }
                });
            }
            return ProcessOutcome { outbound, fatal: false };
        } else {
            let ghost dec = spec_decode(message@, maps.fix_tag_number_map@);
            let ghost outc = seq_store.spec_outgoing();
            let is_init = ctx.is_initiator;
            let outbound = handle_business_message(
                mts,
                &msg_map,
                &maps.app_msg,
                &maps.fix_tag_name_map,
                seq_store,
                order_store,
                is_init,
            );
            proof {
                assert(outc == old(seq_store).spec_outgoing());
                assert(is_init == old(ctx)@.is_initiator);
                let ts = choose|ts: Seq<char>|
                    {
                        let resp = #[trigger] business_response(
                            mts@,
                            msg_map@,
                            maps.app_msg@,
                            maps.fix_tag_name_map@,
                            outc,
                            is_init,
                            ts,
                        );
                        if resp.len() == 0 {
                            outbound is None && seq_store.spec_outgoing() == outc
                        } else {
                            outbound == Some(outbound->0) && outbound->0@ == spec_replace(
                                resp,
                                '|',
                                '\x01',
                            ) && seq_store.spec_outgoing() == outc + 1
                        }
                    };
                assert({
                    let resp = business_response(
                        dec.msgtype,
                        dec.fields,
                        maps.app_msg@,
                        maps.fix_tag_name_map@,
                        old(seq_store).spec_outgoing(),
                        old(ctx)@.is_initiator,
                        ts,
                    );
                    if resp.len() == 0 {
                        outbound is None && seq_store.spec_outgoing() == old(
                            seq_store,
                        ).spec_outgoing()
                    } else {
                        outbound == Some(outbound->0) && outbound->0@ == spec_replace(
                            resp,
                            '|',
                            '\x01',
                        ) && seq_store.spec_outgoing() == old(seq_store).spec_outgoing() + 1
                    }
                });
            }
            return ProcessOutcome { outbound, fatal: false };
        }
    } else if expected < observed {
        let mts = msgtype.as_str();
        if str_eq(mts, "SEQUENCE_RESET") {
            let ghost dec = spec_decode(message@, maps.fix_tag_number_map@);
            let outbound = handle_admin_message(
                mts,
                &msg_map,
                &maps.admin_msg,
                &maps.fix_tag_name_map,
                seq_store,
                ctx,
                now_secs,
            );
            proof {
                let ts = choose|ts: Seq<char>|
                    {
                        let resp = #[trigger] admin_response(
                            mts@,
                            old(ctx)@,
                            expected,
                            old(seq_store).spec_outgoing(),
                            maps.admin_msg@,
                            maps.fix_tag_name_map@,
                            ts,
                        );
                        if resp.len() == 0 {
                            outbound is None
                        } else {
                            outbound == Some(outbound->0) && outbound->0@ == spec_replace(
                                resp,
                                '|',
                                '\x01',
                            )
                        }
                    };
                assert({
                    let resp = admin_response(
                        dec.msgtype,
                        old(ctx)@,
                        expected,
                        old(seq_store).spec_outgoing(),
                        maps.admin_msg@,
                        maps.fix_tag_name_map@,
                        ts,
                    );
                    if resp.len() == 0 {
                        outbound is None
                    } else {
                        outbound == Some(outbound->0) && outbound->0@ == spec_replace(
                            resp,
                            '|',
                            '\x01',
                        )
                    }
                });
            }
            return ProcessOutcome { outbound, fatal: false };
        } else {
            let ghost outc = seq_store.spec_outgoing();
            let m = handle_resend_request(
                expected,
                &maps.admin_msg,
                &maps.fix_tag_name_map,
                seq_store,
            );
            proof {
                assert(outc == old(seq_store).spec_outgoing());
                let ts = choose|ts: Seq<char>|
                    m@ == spec_replace(
                        #[trigger] spec_encode_template(
                            "Resend_Request"@,
                            maps.admin_msg@,
                            maps.fix_tag_name_map@,
                            Some(
                                spec_map_insert(
                                    Seq::<(Seq<char>, Seq<char>)>::empty(),
                                    "BeginSeqNo"@,
                                    spec_digits(expected as nat),
                                ),
                            ),
                            outc,
                            ts,
                        ),
                        '|',
                        '\x01',
                    );
                assert(m@ == spec_replace(
                    spec_encode_template(
                        "Resend_Request"@,
                        maps.admin_msg@,
                        maps.fix_tag_name_map@,
                        Some(
                            spec_map_insert(
                                Seq::<(Seq<char>, Seq<char>)>::empty(),
                                "BeginSeqNo"@,
                                spec_digits(expected as nat),
                            ),
                        ),
                        old(seq_store).spec_outgoing(),
                        ts,
                    ),
                    '|',
                    '\x01',
                ));
            }
            return ProcessOutcome { outbound: Some(m), fatal: false };
        }
    } else {
        let err_text = String::from_str("MsgSeqNum too low, expecting ").concat(
            u64_string(expected).as_str(),
        ).concat(" but received ").concat(u64_string(observed).as_str()).concat("!!");
        proof {
            assert(err_text@ == too_low_text(expected, observed));
        }
        let ghost outc = seq_store.spec_outgoing();
        let m = handle_logout(
            err_text.as_str(),
            &maps.admin_msg,
            &maps.fix_tag_name_map,
            seq_store,
        );
        proof {
            assert(outc == old(seq_store).spec_outgoing());
            let ts = choose|ts: Seq<char>|
                m@ == spec_replace(
                    #[trigger] spec_encode_template(
                        "Logout"@,
                        maps.admin_msg@,
                        maps.fix_tag_name_map@,
                        Some(
                            spec_map_insert(
                                Seq::<(Seq<char>, Seq<char>)>::empty(),
                                "Text"@,
                                err_text@,
                            ),
                        ),
                        outc,
                        ts,
                    ),
                    '|',
                    '\x01',
                );
            assert(m@ == spec_replace(
                spec_encode_template(
                    "Logout"@,
                    maps.admin_msg@,
                    maps.fix_tag_name_map@,
                    Some(
                        spec_map_insert(
                            Seq::<(Seq<char>, Seq<char>)>::empty(),
                            "Text"@,
                            too_low_text(expected, observed),
                        ),
                    ),
                    old(seq_store).spec_outgoing(),
                    ts,
                ),
                '|',
                '\x01',
            ));
        }
        proof {
            assert(exists|ts: Seq<char>|
                m@ == spec_replace(
                    #[trigger] spec_encode_template(
                        "Logout"@,
                        maps.admin_msg@,
                        maps.fix_tag_name_map@,
                        Some(
                            spec_map_insert(
                                Seq::<(Seq<char>, Seq<char>)>::empty(),
                                "Text"@,
                                too_low_text(expected, observed),
                            ),
                        ),
                        old(seq_store).spec_outgoing(),
                        ts,
                    ),
                    '|',
                    '\x01',
                ));
            assert(logout_outbound_ok(
                Some(m),
                maps.admin_msg@,
                maps.fix_tag_name_map@,
                expected,
                observed,
                old(seq_store).spec_outgoing(),
            ));
        }
        ProcessOutcome { outbound: Some(m), fatal: true }
    }
}

/// Whether the heartbeat deadline has passed: the seconds since the last
/// send have reached the heartbeat interval.
pub fn check_interval(ctx: &SessionContext, now_secs: u64) -> (r: bool)
    ensures
        r == (now_secs as int - ctx@.last_sent_time as int >= ctx@.heart_bt_int as int),
{
    let last = ctx.last_sent_time.load();
    if now_secs >= last {
        now_secs - last >= ctx.heart_bt_int
    } else {
        false
    }
}

/// The type of the periodic message: a Logon while the peer's Logon is
/// still awaited, a Heartbeat afterwards.
pub open spec fn periodic_msgtype(received_logon: bool) -> Seq<char> {
    if !received_logon {
        "Logon"@
    } else {
        "Heartbeat"@
    }
}

/// The periodic message sent when the heartbeat deadline passes: a Logon
/// while the peer's Logon is still awaited, a Heartbeat afterwards. Counts
/// the outbound message and stamps the send time.
pub fn perform_task(
    admin_msg: &StrMap<StrMap<String>>,
    fix_tag_name_map: &StrMap<FixTag>,
    seq_store: &mut SequenceNumberStore,
    ctx: &mut SessionContext,
    now_secs: u64,
) -> (r: String)
    requires
        old(seq_store).spec_outgoing() < u64::MAX,
    ensures
        final(seq_store).spec_incoming() == old(seq_store).spec_incoming(),
        final(seq_store).spec_outgoing() == old(seq_store).spec_outgoing() + 1,
        final(ctx)@ == (SessionView { last_sent_time: now_secs, ..old(ctx)@ }),
        exists|ts: Seq<char>|
            r@ == spec_replace(
                #[trigger] spec_encode_template(
                    periodic_msgtype(old(ctx)@.received_logon),
                    admin_msg@,
                    fix_tag_name_map@,
                    None,
                    old(seq_store).spec_outgoing(),
                    ts,
                ),
                '|',
                '\x01',
            ),
{
    let mt = if !ctx.received_logon {
        String::from_str("Logon")
    } else {
        String::from_str("Heartbeat")
    };
    let ts = crate::message_converter::sending_time_now();
    let response = encode_from_template(
        &mt,
        admin_msg,
        fix_tag_name_map,
        None,
        seq_store.get_outgoing(),
        &ts,
    );
    let wire = to_wire(&response);
    seq_store.increment_outgoing();
    ctx.last_sent_time.store(now_secs);
    proof {
        assert(ctx@ =~= (SessionView { last_sent_time: now_secs, ..old(ctx)@ }));
        assert(mt@ == periodic_msgtype(old(ctx)@.received_logon));
        assert(wire@ == spec_replace(
            spec_encode_template(
                periodic_msgtype(old(ctx)@.received_logon),
                admin_msg@,
                fix_tag_name_map@,
                None,
                old(seq_store).spec_outgoing(),
                ts@,
            ),
            '|',
            '\x01',
        ));
    }
    wire
}

/// The Logon that opens a session, in wire form, for the current outgoing
/// number.
pub fn build_logon_message(
    admin_msg: &StrMap<StrMap<String>>,
    fix_tag_name_map: &StrMap<FixTag>,
    seq_store: &SequenceNumberStore,
) -> (r: String)
    ensures
        exists|ts: Seq<char>|
            r@ == spec_replace(
                #[trigger] spec_encode_template(
                    "Logon"@,
                    admin_msg@,
                    fix_tag_name_map@,
                    None,
                    seq_store.spec_outgoing(),
                    ts,
                ),
                '|',
                '\x01',
            ),
{
    let mt = String::from_str("Logon");
    let ts = crate::message_converter::sending_time_now();
    let fix_msg = encode_from_template(
        &mt,
        admin_msg,
        fix_tag_name_map,
        None,
        seq_store.get_outgoing(),
        &ts,
    );
    to_wire(&fix_msg)
}

/// The initiator's opening Logon: builds it, counts it, and marks the
/// logon as sent.
pub fn prepare_logon(
    admin_msg: &StrMap<StrMap<String>>,
    fix_tag_name_map: &StrMap<FixTag>,
    seq_store: &mut SequenceNumberStore,
    ctx: &mut SessionContext,
) -> (r: String)
    requires
        old(seq_store).spec_outgoing() < u64::MAX,
    ensures
        final(seq_store).spec_incoming() == old(seq_store).spec_incoming(),
        final(seq_store).spec_outgoing() == old(seq_store).spec_outgoing() + 1,
        final(ctx)@ == (SessionView { sent_logon: true, ..old(ctx)@ }),
        exists|ts: Seq<char>|
            r@ == spec_replace(
                #[trigger] spec_encode_template(
                    "Logon"@,
                    admin_msg@,
                    fix_tag_name_map@,
                    None,
                    old(seq_store).spec_outgoing(),
                    ts,
                ),
                '|',
                '\x01',
            ),
{
    let r = build_logon_message(admin_msg, fix_tag_name_map, seq_store);
    seq_store.increment_outgoing();
    ctx.sent_logon = true;
    proof {
        assert(ctx@ =~= (SessionView { sent_logon: true, ..old(ctx)@ }));
    }
    r
}


/// Keys of a map view, in map order.
pub open spec fn keys_of<T>(m: Seq<(Seq<char>, T)>) -> Seq<Seq<char>> {
    m.map_values(|e: (Seq<char>, T)| e.0)
}

/// The configured admin list: comma-separated names, trimmed and folded to
/// upper case.
pub open spec fn admin_list_of(s: Seq<char>) -> Seq<Seq<char>> {
    crate::strings::spec_split(s, ',').map_values(|p: Seq<char>| crate::strings::spec_upper(crate::strings::spec_trim(p)))
}

/// Assembles the session's dictionary bundle: the admin type list from the
/// configured names, the known message types from the tag 35 enum, and the
/// header-required fields from the `<` entry of the message dictionary.
#[verifier::loop_isolation(false)]
pub fn initialize_message_maps(
    admin_messages_list: &str,
    fix_tag_number_map: IntMap<FixTag>,
    fix_tag_name_map: StrMap<FixTag>,
    msgtype_name_map: StrMap<String>,
    msgname_fields_map: StrMap<FixMsgTag>,
    msgnumber_fields_map: StrMap<FixMsgTag>,
    fix_header: StrMap<String>,
    admin_msg: StrMap<StrMap<String>>,
    app_msg: StrMap<StrMap<String>>,
) -> (r: MessageMap)
    ensures
        r.fix_tag_number_map@ == fix_tag_number_map@,
        r.fix_tag_name_map@ == fix_tag_name_map@,
        r.msgname_fields_map@ == msgname_fields_map@,
        r.msgnumber_fields_map@ == msgnumber_fields_map@,
        r.fix_header@ == fix_header@,
        r.admin_msg@ == admin_msg@,
        r.app_msg@ == app_msg@,
        strs_view(r.admin_msg_list@) == admin_list_of(admin_messages_list@),
        strs_view(r.valid_msg_types@) == keys_of(msgtype_name_map@),
        strs_view(r.required_fields@) == match spec_map_get(msgnumber_fields_map@, "<"@) {
            Some(t) => match t.field {
                Some(f) => keys_of(f),
                None => Seq::<Seq<char>>::empty(),
            },
            None => Seq::<Seq<char>>::empty(),
        },
{
    let chars = str_to_chars(admin_messages_list);
    let parts = crate::strings::split_chars(&chars, ',');
    let ghost pv = crate::strings::spec_split(admin_messages_list@, ',');
    let mut admin_msg_list: Vec<String> = Vec::new();
    let mut i: usize = 0;
    while i < parts.len()
        invariant
            0 <= i <= parts.len(),
            parts.deep_view() == pv,
            strs_view(admin_msg_list@) =~= admin_list_of(admin_messages_list@).subrange(
                0,
                i as int,
            ),
        decreases parts.len() - i,
    {
        proof {
            assert(parts.deep_view()[i as int] == parts@[i as int]@);
        }
        let t = crate::strings::trim_chars(&parts[i]);
        let u = crate::strings::upper_chars(&t);
        admin_msg_list.push(chars_to_string(&u));
        proof {
            assert(strs_view(admin_msg_list@) =~= admin_list_of(admin_messages_list@).subrange(
                0,
                i + 1 as int,
            ));
        }
        i = i + 1;
    }
    proof {
        assert(admin_list_of(admin_messages_list@).subrange(
            0,
            admin_list_of(admin_messages_list@).len() as int,
        ) == admin_list_of(admin_messages_list@));
        assert(strs_view(admin_msg_list@) =~= admin_list_of(admin_messages_list@));
    }
    let mut valid_msg_types: Vec<String> = Vec::new();
    let n = msgtype_name_map.len();
    let mut j: usize = 0;
    while j < n
        invariant
            0 <= j <= n,
            n == msgtype_name_map@.len(),
            strs_view(valid_msg_types@) =~= keys_of(msgtype_name_map@).subrange(0, j as int),
        decreases n - j,
    {
        valid_msg_types.push(msgtype_name_map.key_at(j).clone());
        proof {
            assert(strs_view(valid_msg_types@) =~= keys_of(msgtype_name_map@).subrange(
                0,
                j + 1 as int,
            ));
        }
        j = j + 1;
    }
    proof {
        assert(keys_of(msgtype_name_map@).subrange(0, keys_of(msgtype_name_map@).len() as int)
            == keys_of(msgtype_name_map@));
        assert(strs_view(valid_msg_types@) =~= keys_of(msgtype_name_map@));
    }
    let mut required_fields: Vec<String> = Vec::new();
    match msgnumber_fields_map.get("<") {
        Some(header_fld_info) => {
            match &header_fld_info.field {
                Some(field_map) => {
                    let ghost fv = spec_map_get(msgnumber_fields_map@, "<"@)->0.field->0;
                    proof {
                        assert(fv == field_map@);
                    }
                    let m = field_map.len();
                    let mut k: usize = 0;
                    while k < m
                        invariant
                            0 <= k <= m,
                            m == fv.len(),
                            fv == field_map@,
                            strs_view(required_fields@) =~= keys_of(fv).subrange(0, k as int),
                        decreases m - k,
                    {
                        required_fields.push(field_map.key_at(k).clone());
                        proof {
                            assert(strs_view(required_fields@) =~= keys_of(fv).subrange(
                                0,
                                k + 1 as int,
                            ));
                        }
                        k = k + 1;
                    }
                    proof {
                        assert(keys_of(fv).subrange(0, keys_of(fv).len() as int) == keys_of(fv));
                        assert(strs_view(required_fields@) =~= keys_of(fv));
                    }
                },
                None => {
                    proof {
                        assert(strs_view(required_fields@) =~= Seq::<Seq<char>>::empty());
                    }
                },
            }
        },
        None => {
            proof {
                assert(strs_view(required_fields@) =~= Seq::<Seq<char>>::empty());
            }
        },
    }
    MessageMap {
        fix_header,
        fix_tag_number_map,
        admin_msg_list,
        admin_msg,
        app_msg,
        fix_tag_name_map,
        msgname_fields_map,
        msgnumber_fields_map,
        valid_msg_types,
        required_fields,
    }
}

/// Handles one console line: a valid FIX message typed at the prompt is
/// merged over the header template, encoded with the current outgoing
/// number, counted and stamped; anything else is ignored.
pub fn process_console_input(
    input: &str,
    maps: &MessageMap,
    seq_store: &mut SequenceNumberStore,
    ctx: &mut SessionContext,
    now_secs: u64,
) -> (r: Option<String>)
    requires
        old(seq_store).spec_outgoing() < u64::MAX,
    ensures
        final(seq_store).spec_incoming() == old(seq_store).spec_incoming(),
        ({
            let parsed = spec_parse_fields(input@);
            let ok = crate::strings::is_match_at(input@, "8=FIX"@, 0) && parsed is Some
                && spec_validate(
                parsed->0,
                strs_view(maps.required_fields@),
                strs_view(maps.valid_msg_types@),
                maps.msgnumber_fields_map@,
            );
            if !ok {
                r is None && final(seq_store).spec_outgoing() == old(seq_store).spec_outgoing()
                    && final(ctx)@ == old(ctx)@
            } else {
                let dec = spec_decode(input@, maps.fix_tag_number_map@);
                let merged = crate::message_converter::merge_overrides(
                    maps.fix_header@,
                    dec.fields,
                );
                &&& final(seq_store).spec_outgoing() == old(seq_store).spec_outgoing() + 1
                &&& final(ctx)@ == (SessionView { last_sent_time: now_secs, ..old(ctx)@ })
                &&& r is Some
                &&& exists|ts: Seq<char>|
                    r->0@ == spec_replace(
                        #[trigger] crate::message_converter::spec_encode_fieldmap(
                            merged,
                            maps.fix_tag_name_map@,
                            old(seq_store).spec_outgoing(),
                            ts,
                        ),
                        '|',
                        '\x01',
                    )
            }
        }),
{
    let ichars = str_to_chars(input);
    let pat = str_to_chars("8=FIX");
    if !crate::strings::starts_at(&ichars, &pat, 0) {
        return None;
    }
    let fix_message = match FixMessage::parse(input) {
        Ok(m) => m,
        Err(_) => {
            return None;
        },
    };
    if !fix_message.validate(
        &maps.required_fields,
        &maps.valid_msg_types,
        &maps.msgnumber_fields_map,
    ) {
        return None;
    }
    let (_msgtype, msg_map) = match fixmsg2msgtype(input, &maps.fix_tag_number_map) {
        Ok(t) => t,
        Err(_) => {
            return None;
        },
    };
    let mut merged = maps.fix_header.clone_map();
    let ghost hv = maps.fix_header@;
    let ghost ov = msg_map@;
    proof {
        assert(ov.subrange(0, ov.len() as int) == ov);
    }
    let n = msg_map.len();
    let mut i: usize = 0;
    while i < n
        invariant
            0 <= i <= n,
            n == ov.len(),
            ov == msg_map@,
            crate::message_converter::merge_overrides(
                merged@,
                ov.subrange(i as int, ov.len() as int),
            ) == crate::message_converter::merge_overrides(hv, ov),
        decreases n - i,
    {
        let ghost orest = ov.subrange(i as int, ov.len() as int);
        proof {
            assert(orest[0] == ov[i as int]);
            assert(orest.drop_first() == ov.subrange(i + 1, ov.len() as int));
        }
        let k = msg_map.key_at(i).clone();
        let v = msg_map.value_at(i).clone();
        merged.insert(k, v);
        i = i + 1;
    }
    proof {
        assert(ov.subrange(i as int, ov.len() as int).len() == 0);
    }
    let ts = crate::message_converter::sending_time_now();
    let msg = crate::message_converter::encode_from_fieldmap(
        &merged,
        &maps.fix_tag_name_map,
        seq_store.get_outgoing(),
        &ts,
    );
    let wire = to_wire(&msg);
    seq_store.increment_outgoing();
    ctx.last_sent_time.store(now_secs);
    proof {
        assert(ctx@ =~= (SessionView { last_sent_time: now_secs, ..old(ctx)@ }));
        assert(wire@ == spec_replace(
            crate::message_converter::spec_encode_fieldmap(
                crate::message_converter::merge_overrides(
                    maps.fix_header@,
                    spec_decode(input@, maps.fix_tag_number_map@).fields,
                ),
                maps.fix_tag_name_map@,
                old(seq_store).spec_outgoing(),
                ts@,
            ),
            '|',
            '\x01',
        ));
    }
    Some(wire)
}

} // verus!




