use vstd::prelude::*;
use crate::types::{is_int_type, Type, TyCon, VTyCon, VType};

verus! {

/// Which casts the language allows: to an integer type, from an integer
/// type or from `bool`.
pub open spec fn castable(from: VType, to: VType) -> bool {
    &&& is_int_type(to)
    &&& (is_int_type(from) || from matches VType::App(VTyCon::Bool, _))
}

/// Checks that a value of type `from` may be cast to type `to`.
pub fn cast_check(from: &Type, to: &Type) -> (r: Result<(), ()>)
    ensures
        r is Ok <==> castable(from@, to@),
{
    let from_ok = match from {
        Type::App(c, ts) => {
            assert(from@ == VType::App(c@, crate::types::view_types(ts@)));
            match c {
                TyCon::Bool => true,
                TyCon::Int(_, _) => true,
                _ => false,
            }
        },
        _ => false,
    };
    if to.is_int() && from_ok {
        Ok(())
    } else {
        Err(())
    }
}

} // verus!
