//! The data of a label whose fields are fixed.
use vstd::prelude::*;

verus! {

/// The data of a label.
pub struct LabelInfo {
    pub kind: i32,
    pub customer_name: String,
    pub part_no: String,
    pub material_name: String,
    pub qr_string: String,
    pub is_return: bool,
}

} // verus!
