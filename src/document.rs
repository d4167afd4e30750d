//! The per-iteration input document handed to a witness generator: a flat JSON
//! object with a `step_in` array of decimal strings, followed by the caller's
//! private entries.
use vstd::prelude::*;
use crate::codec::{FieldElement, decimal_text};

verus! {

/// JSON text of a string: the literal that `serde_json` writes for it.
pub uninterp spec fn json_string(s: Seq<char>) -> Seq<char>;

/// Relies on `serde_json::to_string` on a `str`: it writes the escaped JSON
/// string literal into a byte buffer, which cannot fail.
#[verifier::external_body]
fn quote_json(s: &str) -> (r: Option<String>)
    ensures
        r is Some,
        r.unwrap()@ == json_string(s@),
{
    serde_json::to_string(s).ok()
}

/// The values of a sequence of field elements.
pub open spec fn values(state: Seq<FieldElement>) -> Seq<nat> {
    state.map_values(|e: FieldElement| e@)
}

pub open spec fn all_wf(state: Seq<FieldElement>) -> bool {
    forall|i: int| 0 <= i < state.len() ==> (#[trigger] state[i]).wf()
}

pub open spec fn quoted_decimal(n: nat) -> Seq<char> {
    seq!['"'] + decimal_text(n) + seq!['"']
}

/// The comma-separated, quoted decimal texts of `vals`.
pub open spec fn step_in_items(vals: Seq<nat>) -> Seq<char>
    decreases vals.len(),
{
    if vals.len() == 0 {
        seq![]
    } else if vals.len() == 1 {
        quoted_decimal(vals[0])
    } else {
        step_in_items(vals.drop_last()) + seq![','] + quoted_decimal(vals.last())
    }
}

/// One `,"key":value` member for each private entry, in order.
pub open spec fn private_members(entries: Seq<(Seq<char>, Seq<char>)>) -> Seq<char>
    decreases entries.len(),
{
    if entries.len() == 0 {
        seq![]
    } else {
        private_members(entries.drop_last()) + seq![','] + json_string(entries.last().0) + seq![
            ':',
        ] + entries.last().1
    }
}

pub open spec fn entries_view(entries: Seq<(String, String)>) -> Seq<(Seq<char>, Seq<char>)> {
    entries.map_values(|e: (String, String)| (e.0@, e.1@))
}

pub open spec fn document_head() -> Seq<char> {
    seq!['{', '"', 's', 't', 'e', 'p', '_', 'i', 'n', '"', ':', '[']
}

/// The whole document for a public input state and private entries.
pub open spec fn document_text(vals: Seq<nat>, entries: Seq<(Seq<char>, Seq<char>)>) -> Seq<char> {
    document_head() + step_in_items(vals) + seq![']'] + private_members(entries) + seq!['}']
}

/// Builds the input document of one step. Each private entry is a key and the
/// JSON text of its value; both are copied in order and unchanged, the key
/// written as a JSON string.
pub fn step_input_document(state: &Vec<FieldElement>, private: &Vec<(String, String)>) -> (r:
    String)
    requires
        all_wf(state@),
    ensures
        r@ == document_text(values(state@), entries_view(private@)),
{
    let mut out = String::new();
    proof {
        reveal_strlit("{\"step_in\":[");
    }
    out.append("{\"step_in\":[");
    assert(out@ =~= document_head());
    let mut i: usize = 0;
    while i < state.len()
        invariant
            i <= state.len(),
            all_wf(state@),
            out@ == document_head() + step_in_items(values(state@).subrange(0, i as int)),
        decreases state.len() - i,
    {
        let ghost before = out@;
        if i > 0 {
            proof {
                reveal_strlit(",");
            }
            out.append(",");
        }
        proof {
            reveal_strlit("\"");
        }
        out.append("\"");
        let digits = state[i].to_decimal();
        out.append(digits.as_str());
        out.append("\"");
        proof {
            let vals = values(state@);
            let next = vals.subrange(0, i + 1);
            assert(next.drop_last() =~= vals.subrange(0, i as int));
            assert(next.last() == state@[i as int]@);
            if i == 0 {
                assert(out@ =~= before + quoted_decimal(state@[i as int]@));
            } else {
                assert(out@ =~= before + seq![','] + quoted_decimal(state@[i as int]@));
            }
        }
        i = i + 1;
    }
    assert(values(state@).subrange(0, state.len() as int) =~= values(state@));
    proof {
        reveal_strlit("]");
    }
    out.append("]");
    let mut k: usize = 0;
    while k < private.len()
        invariant
            k <= private.len(),
            out@ == document_head() + step_in_items(values(state@)) + seq![']'] + private_members(
                entries_view(private@).subrange(0, k as int),
            ),
        decreases private.len() - k,
    {
        let ghost before = out@;
        let key = quote_json(private[k].0.as_str()).unwrap();
        proof {
            reveal_strlit(",");
            reveal_strlit(":");
        }
        out.append(",");
        out.append(key.as_str());
        out.append(":");
        out.append(private[k].1.as_str());
        proof {
            let ev = entries_view(private@);
            let next = ev.subrange(0, k + 1);
            assert(next.drop_last() =~= ev.subrange(0, k as int));
            assert(next.last() == ev[k as int]);
            assert(out@ =~= before + seq![','] + json_string(ev[k as int].0) + seq![':']
                + ev[k as int].1);
        }
        k = k + 1;
    }
    assert(entries_view(private@).subrange(0, private.len() as int) =~= entries_view(private@));
    proof {
        reveal_strlit("}");
    }
    out.append("}");
    assert(out@ =~= document_text(values(state@), entries_view(private@)));
    out
}

} // verus!
