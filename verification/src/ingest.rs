//! Turning untrusted event documents into typed transfer intents.
//!
//! Every field read is independently optional and type-tolerant: the
//! amount may arrive as a decimal string, a bare number or a nested
//! low-word object, and a malformed event is dropped, never escalated
//! to an error for the whole batch.  An intent is emitted only when
//! one event yields both a non-empty recipient and a positive amount.

use vstd::prelude::*;
use vstd::string::StringExecFns;
use vstd::string::StrSliceExecFns;
use crate::json::JsonValue;
use crate::json::json_get;
use crate::json::spec_get;

verus! {

/// Whether every character is a decimal digit (and there is at least
/// one).
pub open spec fn is_dec_digits(s: Seq<char>) -> bool {
    s.len() > 0 && forall|i: int| 0 <= i < s.len() ==> '0' <= #[trigger] s[i] <= '9'
}

/// The number a decimal digit string denotes.
pub open spec fn dec_val(s: Seq<char>) -> nat
    decreases s.len(),
{
    if s.len() == 0 {
        0
    } else {
        (dec_val(s.drop_last()) * 10 + (s.last() as int - '0' as int)) as nat
    }
}

/// Whether every character is a hex digit (and there is at least
/// one).
pub open spec fn is_hex_digits(s: Seq<char>) -> bool {
    s.len() > 0 && forall|i: int| 0 <= i < s.len() ==> is_hex_digit(#[trigger] s[i])
}

/// Whether one character is a hex digit.
pub open spec fn is_hex_digit(c: char) -> bool {
    ('0' <= c <= '9') || ('a' <= c <= 'f') || ('A' <= c <= 'F')
}

/// The value of one hex digit.
pub open spec fn hex_digit_val(c: char) -> nat {
    if '0' <= c <= '9' {
        (c as int - '0' as int) as nat
    } else if 'a' <= c <= 'f' {
        (c as int - 'a' as int + 10) as nat
    } else {
        (c as int - 'A' as int + 10) as nat
    }
}

/// The number a hex digit string denotes.
pub open spec fn hex_val(s: Seq<char>) -> nat
    decreases s.len(),
{
    if s.len() == 0 {
        0
    } else {
        (hex_val(s.drop_last()) * 16 + hex_digit_val(s.last())) as nat
    }
}

/// A digit string's value only grows as more digits follow.
proof fn lemma_dec_val_prefix(s: Seq<char>, i: int)
    requires
        0 <= i <= s.len(),
        forall|j: int| 0 <= j < s.len() ==> '0' <= #[trigger] s[j] <= '9',
    ensures
        dec_val(s.subrange(0, i)) <= dec_val(s),
    decreases s.len(),
{
    if i < s.len() {
        let t = s.drop_last();
        lemma_dec_val_prefix(t, i);
        assert(s.subrange(0, i) =~= t.subrange(0, i));
    } else {
        assert(s.subrange(0, i) =~= s);
    }
}

/// A hex string's value only grows as more digits follow.
proof fn lemma_hex_val_prefix(s: Seq<char>, i: int)
    requires
        0 <= i <= s.len(),
        forall|j: int| 0 <= j < s.len() ==> is_hex_digit(#[trigger] s[j]),
    ensures
        hex_val(s.subrange(0, i)) <= hex_val(s),
    decreases s.len(),
{
    if i < s.len() {
        let t = s.drop_last();
        lemma_hex_val_prefix(t, i);
        assert(s.subrange(0, i) =~= t.subrange(0, i));
    } else {
        assert(s.subrange(0, i) =~= s);
    }
}

/// Parse a decimal digit string into an unsigned 64-bit value.
/// Exactly the all-digit strings whose value fits are accepted.
pub fn parse_u64_decimal(s: &str) -> (r: Option<u64>)
    ensures
        match r {
            Some(v) => is_dec_digits(s@) && v == dec_val(s@),
            None => !is_dec_digits(s@) || dec_val(s@) > u64::MAX,
        },
{
    let n = s.unicode_len();
    if n == 0 {
        return None;
    }
    let mut acc: u64 = 0;
    let mut i: usize = 0;
    while i < n
        invariant
            n == s@.len(),
            0 <= i <= n,
            forall|j: int| 0 <= j < i ==> '0' <= #[trigger] s@[j] <= '9',
            acc == dec_val(s@.subrange(0, i as int)),
        decreases n - i,
    {
        let c = s.get_char(i);
        if c < '0' || c > '9' {
            return None;
        }
        let d: u64 = (c as u32 as u64) - 48;
        proof {
            assert(s@.subrange(0, i + 1).drop_last() =~= s@.subrange(0, i as int));
            assert(s@.subrange(0, i + 1).last() == s@[i as int]);
            assert(dec_val(s@.subrange(0, i + 1)) == acc * 10 + d);
        }
        if acc > (u64::MAX - d) / 10 {
            proof {
                if is_dec_digits(s@) {
                    lemma_dec_val_prefix(s@, i + 1);
                }
            }
            return None;
        }
        acc = acc * 10 + d;
        i += 1;
    }
    proof {
        assert(s@.subrange(0, n as int) =~= s@);
    }
    Some(acc)
}

/// Parse a hex digit string into an unsigned 64-bit value.  Exactly
/// the all-hex-digit strings whose value fits are accepted.
pub fn parse_u64_hex(s: &str) -> (r: Option<u64>)
    ensures
        match r {
            Some(v) => is_hex_digits(s@) && v == hex_val(s@),
            None => !is_hex_digits(s@) || hex_val(s@) > u64::MAX,
        },
{
    let n = s.unicode_len();
    if n == 0 {
        return None;
    }
    let mut acc: u64 = 0;
    let mut i: usize = 0;
    while i < n
        invariant
            n == s@.len(),
            0 <= i <= n,
            forall|j: int| 0 <= j < i ==> is_hex_digit(#[trigger] s@[j]),
            acc == hex_val(s@.subrange(0, i as int)),
        decreases n - i,
    {
        let c = s.get_char(i);
        let d: u64 = if c >= '0' && c <= '9' {
            (c as u32 as u64) - 48
        } else if c >= 'a' && c <= 'f' {
            (c as u32 as u64) - 97 + 10
        } else if c >= 'A' && c <= 'F' {
            (c as u32 as u64) - 65 + 10
        } else {
            return None;
        };
        proof {
            assert(s@.subrange(0, i + 1).drop_last() =~= s@.subrange(0, i as int));
            assert(s@.subrange(0, i + 1).last() == s@[i as int]);
            assert(hex_val(s@.subrange(0, i + 1)) == acc * 16 + d);
        }
        if acc > (u64::MAX - d) / 16 {
            proof {
                if is_hex_digits(s@) {
                    lemma_hex_val_prefix(s@, i + 1);
                }
            }
            return None;
        }
        acc = acc * 16 + d;
        i += 1;
    }
    proof {
        assert(s@.subrange(0, n as int) =~= s@);
    }
    Some(acc)
}

/// The amount a string field denotes: its decimal value when it is
/// all digits and fits, zero otherwise.
pub open spec fn spec_parse_amount_str(s: Seq<char>) -> nat {
    if is_dec_digits(s) && dec_val(s) <= u64::MAX {
        dec_val(s)
    } else {
        0
    }
}

/// The amount held in an `i128`-shaped field value: a decimal string,
/// a bare number, or an object with a low word; zero when none of the
/// shapes matches.
pub open spec fn spec_amount_of(v: JsonValue) -> nat {
    match spec_get(v, "i128"@) {
        Some(JsonValue::Str(s)) => spec_parse_amount_str(s@),
        Some(JsonValue::UInt(n)) => n as nat,
        Some(JsonValue::Obj(fields)) => match crate::json::spec_obj_lookup(fields@, "lo"@) {
            Some(JsonValue::UInt(n)) => n as nat,
            _ => 0,
        },
        _ => 0,
    }
}

/// The amount held in an `i128`-shaped field value.
pub fn amount_of(v: &JsonValue) -> (r: u64)
    ensures
        r == spec_amount_of(*v),
{
    proof {
        reveal_strlit("i128");
        reveal_strlit("lo");
    }
    match json_get(v, "i128") {
        Some(JsonValue::Str(s)) => match parse_u64_decimal(s.as_str()) {
            Some(x) => x,
            None => 0,
        },
        Some(JsonValue::UInt(n)) => *n,
        Some(JsonValue::Obj(fields)) => match crate::json::obj_lookup(fields, "lo") {
            Some(JsonValue::UInt(n)) => *n,
            _ => 0,
        },
        _ => 0,
    }
}

/// A typed transfer intent: where to send, how much (in source-chain
/// minor units), and on which destination chain.
pub struct TransferIntent {
    /// Destination account as text.
    pub recipient: String,
    /// Amount in source-chain minor units.
    pub amount: u64,
    /// Destination-chain key.
    pub dest_chain: String,
}

/// Mathematical model of a transfer intent.
pub struct IntentView {
    pub recipient: Seq<char>,
    pub amount: nat,
    pub dest_chain: Seq<char>,
}

impl View for TransferIntent {
    type V = IntentView;

    open spec fn view(&self) -> IntentView {
        IntentView {
            recipient: self.recipient@,
            amount: self.amount as nat,
            dest_chain: self.dest_chain@,
        }
    }
}

/// What one pass over an event's field list has recovered so far.
pub struct ScanState {
    /// Last recipient seen, empty while none was.
    pub recipient: String,
    /// Last positive amount seen, zero while none was.
    pub amount: u64,
    /// Last chain id seen, zero while none was.
    pub chain: u64,
}

/// Mathematical model of a scan state.
pub struct ScanView {
    pub recipient: Seq<char>,
    pub amount: nat,
    pub chain: nat,
}

impl View for ScanState {
    type V = ScanView;

    open spec fn view(&self) -> ScanView {
        ScanView { recipient: self.recipient@, amount: self.amount as nat, chain: self.chain as nat }
    }
}

/// The scan state before any item was seen.
pub open spec fn spec_scan_init() -> ScanView {
    ScanView { recipient: Seq::empty(), amount: 0, chain: 0 }
}

/// The symbolic field name of one map item.
pub open spec fn spec_symbol_of(item: JsonValue) -> Option<Seq<char>> {
    match spec_get(item, "key"@) {
        Some(k) => match spec_get(k, "symbol"@) {
            Some(JsonValue::Str(s)) => Some(s@),
            _ => None,
        },
        None => None,
    }
}

/// How one map item updates the scan state.  Items with an unknown or
/// missing symbol, and values of the wrong shape, change nothing.
pub open spec fn spec_scan_step(st: ScanView, item: JsonValue) -> ScanView {
    match spec_symbol_of(item) {
        None => st,
        Some(sym) => match spec_get(item, "val"@) {
            None => st,
            Some(val) => if sym == "dest_chain"@ {
                match spec_get(val, "bytes"@) {
                    Some(JsonValue::Str(h)) => if is_hex_digits(h@) && hex_val(h@) <= u64::MAX {
                        ScanView { chain: hex_val(h@), ..st }
                    } else {
                        st
                    },
                    _ => st,
                }
            } else if sym == "in_amount"@ {
                if spec_amount_of(val) > 0 {
                    ScanView { amount: spec_amount_of(val), ..st }
                } else {
                    st
                }
            } else if sym == "recipient_address"@ {
                match spec_get(val, "string"@) {
                    Some(JsonValue::Str(a)) => ScanView { recipient: a@, ..st },
                    _ => st,
                }
            } else {
                st
            },
        },
    }
}

/// The scan state after all items, in order.
pub open spec fn spec_scan_items(items: Seq<JsonValue>) -> ScanView
    decreases items.len(),
{
    if items.len() == 0 {
        spec_scan_init()
    } else {
        spec_scan_step(spec_scan_items(items.drop_last()), items.last())
    }
}

/// The scan state of one event: its `valueJson` object's `map` array,
/// scanned in order; the initial state when the shape is absent.
pub open spec fn spec_event_scan(ev: JsonValue) -> ScanView {
    match spec_get(ev, "valueJson"@) {
        Some(vj) => match spec_get(vj, "map"@) {
            Some(JsonValue::Arr(items)) => spec_scan_items(items@),
            _ => spec_scan_init(),
        },
        None => spec_scan_init(),
    }
}

/// The intent one event yields: only when the scan recovered both a
/// non-empty recipient and a strictly positive amount.
pub open spec fn spec_event_intent(ev: JsonValue, key: Seq<char>) -> Option<IntentView> {
    let st = spec_event_scan(ev);
    if st.recipient.len() > 0 && st.amount > 0 {
        Some(IntentView { recipient: st.recipient, amount: st.amount, dest_chain: key })
    } else {
        None
    }
}

/// The intents a batch yields, in order, with malformed events
/// dropped.
pub open spec fn spec_extract_intents(events: Seq<JsonValue>, key: Seq<char>) -> Seq<IntentView>
    decreases events.len(),
{
    if events.len() == 0 {
        Seq::empty()
    } else {
        spec_extract_intents(events.drop_last(), key) + match spec_event_intent(
            events.last(),
            key,
        ) {
            Some(i) => seq![i],
            None => Seq::empty(),
        }
    }
}

/// Apply one map item to the scan state.
fn scan_step(st: ScanState, item: &JsonValue) -> (r: ScanState)
    ensures
        r@ == spec_scan_step(st@, *item),
{
    proof {
        reveal_strlit("key");
        reveal_strlit("symbol");
        reveal_strlit("val");
        reveal_strlit("dest_chain");
        reveal_strlit("bytes");
        reveal_strlit("in_amount");
        reveal_strlit("recipient_address");
        reveal_strlit("string");
    }
    let sym: &String = match json_get(item, "key") {
        Some(k) => match json_get(k, "symbol") {
            Some(JsonValue::Str(s)) => s,
            _ => {
                return st;
            },
        },
        None => {
            return st;
        },
    };
    let val: &JsonValue = match json_get(item, "val") {
        Some(v) => v,
        None => {
            return st;
        },
    };
    if crate::strutil::str_eq(sym.as_str(), "dest_chain") {
        match json_get(val, "bytes") {
            Some(JsonValue::Str(h)) => match parse_u64_hex(h.as_str()) {
                Some(decimal) => ScanState { chain: decimal, ..st },
                None => st,
            },
            _ => st,
        }
    } else if crate::strutil::str_eq(sym.as_str(), "in_amount") {
        let a = amount_of(val);
        if a > 0 {
            ScanState { amount: a, ..st }
        } else {
            st
        }
    } else if crate::strutil::str_eq(sym.as_str(), "recipient_address") {
        match json_get(val, "string") {
            Some(JsonValue::Str(a)) => ScanState { recipient: a.clone(), ..st },
            _ => st,
        }
    } else {
        st
    }
}

/// Scan an event's map items in order.
fn scan_items(items: &Vec<JsonValue>) -> (r: ScanState)
    ensures
        r@ == spec_scan_items(items@),
{
    let mut st = ScanState { recipient: String::new(), amount: 0, chain: 0 };
    let n = items.len();
    let mut i: usize = 0;
    assert(items@.subrange(0, 0) =~= Seq::<JsonValue>::empty());
    while i < n
        invariant
            n == items@.len(),
            0 <= i <= n,
            st@ == spec_scan_items(items@.subrange(0, i as int)),
        decreases n - i,
    {
        st = scan_step(st, &items[i]);
        proof {
            assert(items@.subrange(0, i + 1).drop_last() =~= items@.subrange(0, i as int));
            assert(items@.subrange(0, i + 1).last() == items@[i as int]);
        }
        i += 1;
    }
    proof {
        assert(items@.subrange(0, n as int) =~= items@);
    }
    st
}

/// Scan one event.
fn event_scan(ev: &JsonValue) -> (r: ScanState)
    ensures
        r@ == spec_event_scan(*ev),
{
    proof {
        reveal_strlit("valueJson");
        reveal_strlit("map");
    }
    match json_get(ev, "valueJson") {
        Some(vj) => match json_get(vj, "map") {
            Some(JsonValue::Arr(items)) => scan_items(items),
            _ => ScanState { recipient: String::new(), amount: 0, chain: 0 },
        },
        None => ScanState { recipient: String::new(), amount: 0, chain: 0 },
    }
}

/// The transfer intents of a batch of events, bound for the given
/// destination chain.  Exactly the events that yield a non-empty
/// recipient and a positive amount contribute one intent each, in
/// order; all others are dropped without failing the batch.
pub fn extract_intents(events: &Vec<JsonValue>, destination_chain: &str) -> (r: Vec<
    TransferIntent,
>)
    ensures
        r@.map_values(|t: TransferIntent| t@) == spec_extract_intents(
            events@,
            destination_chain@,
        ),
{
    let mut out: Vec<TransferIntent> = Vec::new();
    let n = events.len();
    let mut i: usize = 0;
    assert(events@.subrange(0, 0) =~= Seq::<JsonValue>::empty());
    assert(out@.map_values(|t: TransferIntent| t@) =~= Seq::<IntentView>::empty());
    while i < n
        invariant
            n == events@.len(),
            0 <= i <= n,
            out@.map_values(|t: TransferIntent| t@) == spec_extract_intents(
                events@.subrange(0, i as int),
                destination_chain@,
            ),
        decreases n - i,
    {
        let ghost prev = out@;
        let st = event_scan(&events[i]);
        if !st.recipient.as_str().is_empty() && st.amount > 0 {
            let intent = TransferIntent {
                recipient: st.recipient,
                amount: st.amount,
                dest_chain: String::from_str(destination_chain),
            };
            proof {
                assert(spec_event_intent(events@[i as int], destination_chain@) == Some(
                    intent@,
                ));
            }
            out.push(intent);
            proof {
                assert(out@.map_values(|t: TransferIntent| t@) =~= prev.map_values(
                    |t: TransferIntent| t@,
                ) + seq![out@.last()@]);
            }
        }
        proof {
            assert(events@.subrange(0, i + 1).drop_last() =~= events@.subrange(0, i as int));
            assert(events@.subrange(0, i + 1).last() == events@[i as int]);
        }
        i += 1;
    }
    proof {
        assert(events@.subrange(0, n as int) =~= events@);
    }
    out
}

} // verus!
