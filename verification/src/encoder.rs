use vstd::prelude::*;

use crate::value::{Value, ValueModel};

verus! {

/// What `encode` returns, whatever the input: no result, and the fixed
/// diagnostic that encoding is not provided yet.
pub open spec fn encode_model() -> (ValueModel, ValueModel) {
    (ValueModel::Nil, ValueModel::Str("not yet implemented"@))
}

/// The encoder half of the operation pair. It exists to keep the exported
/// pair symmetric and answers every input with `encode_model`: no result,
/// and the diagnostic that encoding is not implemented.
pub fn encode(_input: &Value) -> (r: (Value, Value))
    ensures
        (r.0@, r.1@) == encode_model(),
{
    (Value::Nil, Value::Str("not yet implemented".to_owned()))
}

} // verus!
