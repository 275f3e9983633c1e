//! Normalizing a provider response before any cross-provider
//! agreement check: volatile fields that differ between providers are
//! stripped, and headers are reduced to one fixed entry, so that
//! independent fetches of the same data agree byte for byte.

use vstd::prelude::*;
use vstd::string::StringExecFns;
use crate::json::JsonValue;
use crate::strutil::str_eq;
use crate::strutil::spec_contains;
use crate::strutil::str_contains;

verus! {

/// Whether a field inside the result object is volatile: the latest
/// ledger number, pagination cursors and links, and metadata all vary
/// between providers and between moments.
pub open spec fn spec_inner_volatile(name: Seq<char>) -> bool {
    name == "latestLedger"@ || name == "cursor"@ || name == "_links"@ || name == "_meta"@
}

/// The result object's fields with the volatile ones removed, order
/// kept.
pub open spec fn spec_strip_inner(fields: Seq<(String, JsonValue)>) -> Seq<(String, JsonValue)>
    decreases fields.len(),
{
    if fields.len() == 0 {
        Seq::empty()
    } else {
        spec_strip_inner(fields.drop_last()) + if spec_inner_volatile(fields.last().0@) {
            Seq::empty()
        } else {
            seq![fields.last()]
        }
    }
}

/// The top-level fields with the request id removed, order kept.
pub open spec fn spec_drop_request_id(fields: Seq<(String, JsonValue)>) -> Seq<
    (String, JsonValue),
>
    decreases fields.len(),
{
    if fields.len() == 0 {
        Seq::empty()
    } else {
        spec_drop_request_id(fields.drop_last()) + if fields.last().0@ == "id"@ {
            Seq::empty()
        } else {
            seq![fields.last()]
        }
    }
}

/// How a normalized top-level field list relates to the original:
/// the request id is gone, every other pair is kept in order, and the
/// value under `result`, when it is an object, has its volatile
/// fields stripped.
pub open spec fn spec_top_stripped(
    src: Seq<(String, JsonValue)>,
    dst: Seq<(String, JsonValue)>,
) -> bool {
    let kept = spec_drop_request_id(src);
    &&& dst.len() == kept.len()
    &&& forall|i: int|
        0 <= i < dst.len() ==> #[trigger] dst[i].0 == kept[i].0 && if kept[i].0@ == "result"@
            && kept[i].1 is Obj {
            dst[i].1 is Obj && dst[i].1->Obj_0@ == spec_strip_inner(kept[i].1->Obj_0@)
        } else {
            dst[i].1 == kept[i].1
        }
}

/// Remove the volatile fields from a result object's field list.
fn strip_result_fields(fields: Vec<(String, JsonValue)>) -> (r: Vec<(String, JsonValue)>)
    ensures
        r@ == spec_strip_inner(fields@),
{
    proof {
        reveal_strlit("latestLedger");
        reveal_strlit("cursor");
        reveal_strlit("_links");
        reveal_strlit("_meta");
    }
    let ghost orig = fields@;
    let ghost n = orig.len() as int;
    let mut src = fields;
    let mut out: Vec<(String, JsonValue)> = Vec::new();
    assert(orig.subrange(0, 0) =~= Seq::<(String, JsonValue)>::empty());
    while src.len() > 0
        invariant
            src@.len() <= n,
            src@ == orig.subrange(n - src@.len(), n),
            out@ == spec_strip_inner(orig.subrange(0, n - src@.len())),
            n == orig.len(),
        decreases src.len(),
    {
        let ghost pre = src@;
        let ghost j = n - pre.len();
        proof {
            assert(pre[0] == orig.subrange(j, n)[0]);
        }
        let kv = src.remove(0);
        proof {
            assert(kv == pre[0] && pre[0] == orig[j]);
            assert(src@ == pre.drop_first());
            assert(pre.drop_first() =~= orig.subrange(j + 1, n));
            assert(orig.subrange(0, j + 1).drop_last() =~= orig.subrange(0, j));
            assert(orig.subrange(0, j + 1).last() == orig[j]);
        }
        let volatile = str_eq(kv.0.as_str(), "latestLedger") || str_eq(kv.0.as_str(), "cursor")
            || str_eq(kv.0.as_str(), "_links") || str_eq(kv.0.as_str(), "_meta");
        if !volatile {
            out.push(kv);
        }
    }
    proof {
        assert(orig.subrange(0, n) =~= orig);
    }
    out
}

/// Normalize a parsed response document.  When it is an object, the
/// request id is dropped and the result object loses its volatile
/// fields; any other document is returned unchanged.
pub fn strip_volatile_fields(v: JsonValue) -> (r: JsonValue)
    ensures
        match v {
            JsonValue::Obj(fields) => r is Obj && spec_top_stripped(fields@, r->Obj_0@),
            _ => r == v,
        },
{
    proof {
        reveal_strlit("id");
        reveal_strlit("result");
    }
    match v {
        JsonValue::Obj(fields) => {
            let ghost orig = fields@;
            let ghost n = orig.len() as int;
            let mut src = fields;
            let mut out: Vec<(String, JsonValue)> = Vec::new();
            assert(orig.subrange(0, 0) =~= Seq::<(String, JsonValue)>::empty());
            while src.len() > 0
                invariant
                    src@.len() <= n,
                    src@ == orig.subrange(n - src@.len(), n),
                    spec_top_stripped(orig.subrange(0, n - src@.len()), out@),
                    n == orig.len(),
                decreases src.len(),
            {
                let ghost pre = src@;
                let ghost j = n - pre.len();
                let ghost kept_before = spec_drop_request_id(orig.subrange(0, j));
                proof {
                    assert(pre[0] == orig.subrange(j, n)[0]);
                }
                let kv = src.remove(0);
                proof {
                    assert(kv == pre[0] && pre[0] == orig[j]);
                    assert(src@ == pre.drop_first());
                    assert(pre.drop_first() =~= orig.subrange(j + 1, n));
                    assert(orig.subrange(0, j + 1).drop_last() =~= orig.subrange(0, j));
                    assert(orig.subrange(0, j + 1).last() == orig[j]);
                }
                if str_eq(kv.0.as_str(), "id") {
                    proof {
                        assert(spec_drop_request_id(orig.subrange(0, j + 1)) =~= kept_before);
                    }
                } else {
                    proof {
                        assert(spec_drop_request_id(orig.subrange(0, j + 1)) =~= kept_before.push(
                            orig[j],
                        ));
                    }
                    if str_eq(kv.0.as_str(), "result") {
                        match kv.1 {
                            JsonValue::Obj(inner) => {
                                let stripped = strip_result_fields(inner);
                                out.push((kv.0, JsonValue::Obj(stripped)));
                            },
                            other => {
                                out.push((kv.0, other));
                            },
                        }
                    } else {
                        out.push(kv);
                    }
                }
            }
            proof {
                assert(orig.subrange(0, n) =~= orig);
            }
            JsonValue::Obj(out)
        },
        other => other,
    }
}

/// The one header a normalized response keeps: a plain content type.
pub fn normalized_headers() -> (r: Vec<(String, String)>)
    ensures
        r@.len() == 1,
        r@[0].0@ == "Content-Type"@,
        r@[0].1@ == "application/json"@,
{
    let mut v: Vec<(String, String)> = Vec::new();
    v.push((String::from_str("Content-Type"), String::from_str("application/json")));
    v
}

/// Whether a fetch error reports failed cross-provider agreement, in
/// which case the bridge flow goes on rather than failing the batch.
pub fn is_consensus_failure(err: &str) -> (r: bool)
    ensures
        r == spec_contains(err@, "No consensus could be reached"@),
{
    str_contains(err, "No consensus could be reached")
}

} // verus!
