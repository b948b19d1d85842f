//! Query parameters carried by an EXECUTE request.
use vstd::prelude::*;

use crate::codec::{be16, short_bytes, write_byte, write_u16};
use crate::consistency::Consistency;
use crate::value::{value_enc, value_fits, Value, ValueModel};

verus! {

/// Query flag: bound values follow.
pub const QUERY_FLAG_VALUES: u8 = 0x01;

/// The parameters of a query: its consistency level and, if any, its
/// positional bound values.
#[derive(Debug, Clone, PartialEq, Eq)]
pub struct QueryParams {
    pub consistency: Consistency,
    pub values: Option<Vec<Value>>,
}

/// Values one after another, each in its wire form.
pub open spec fn value_list_enc(vs: Seq<ValueModel>) -> Seq<u8>
    decreases vs.len(),
{
    if vs.len() == 0 {
        seq![]
    } else {
        value_list_enc(vs.drop_last()) + value_enc(vs.last())
    }
}

/// Parameters that can be written: at most 65535 values, each fitting its
/// 4-byte length.
pub open spec fn params_fit(values: Option<Seq<ValueModel>>) -> bool {
    match values {
        Some(vs) => vs.len() <= u16::MAX && forall|i: int| 0 <= i < vs.len() ==> value_fits(#[trigger] vs[i]),
        None => true,
    }
}

/// Wire form of query parameters: the consistency tag, a flags byte, then
/// the count and the values when there are values.
pub open spec fn query_params_enc(cl: Consistency, values: Option<Seq<ValueModel>>) -> Seq<u8> {
    short_bytes(cl.spec_code()) + match values {
        Some(vs) => seq![QUERY_FLAG_VALUES] + be16(vs.len() as u16) + value_list_enc(vs),
        None => seq![0u8],
    }
}

impl QueryParams {
    pub open spec fn values_model(&self) -> Option<Seq<ValueModel>> {
        match self.values {
            Some(vs) => Some(vs.deep_view()),
            None => None,
        }
    }

    /// Appends the parameters' wire form.
    pub fn serialize(&self, out: &mut Vec<u8>)
        requires
            params_fit(self.values_model()),
        ensures
            final(out)@ == old(out)@ + query_params_enc(self.consistency, self.values_model()),
    {
        self.consistency.serialize(out);
        let ghost after_cl = out@;
        match &self.values {
            Some(vs) => {
                write_byte(out, QUERY_FLAG_VALUES);
                write_u16(out, vs.len() as u16);
                let ghost start = out@;
                let ghost model = vs.deep_view();
                let mut i: usize = 0;
                assert(model.take(0) =~= seq![]);
                while i < vs.len()
                    invariant
                        i <= vs.len(),
                        model == vs.deep_view(),
                        params_fit(Some(model)),
                        out@ == start + value_list_enc(model.take(i as int)),
                    decreases vs.len() - i,
                {
                    assert(vs[i as int].deep_view() == model[i as int]);
                    vs[i].serialize(out);
                    assert(model.take(i + 1).drop_last() =~= model.take(i as int));
                    i += 1;
                }
                assert(model.take(vs.len() as int) =~= model);
                assert(out@ =~= old(out)@ + query_params_enc(self.consistency, self.values_model()));
            },
            None => {
                write_byte(out, 0);
                assert(out@ =~= old(out)@ + query_params_enc(self.consistency, self.values_model()));
            },
        }
    }
}

} // verus!
