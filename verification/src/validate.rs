//! The validator: pure checks of the hash and name formats.

use vstd::prelude::*;

use vstd::string::StrSliceExecFns;

use crate::model::valid_hash;
use crate::model::valid_name;
use crate::types::ContractError;

verus! {

/// Accepts exactly the hashes of 64 characters; everything else is
/// `InvalidHashLength`.
pub fn validate_hash(document_hash: &String) -> (outcome: Result<(), ContractError>)
    ensures
        outcome is Ok <==> valid_hash(document_hash@),
        outcome is Err ==> outcome == Err::<(), ContractError>(ContractError::InvalidHashLength),
{
    if document_hash.as_str().unicode_len() == 64 {
        Ok(())
    } else {
        Err(ContractError::InvalidHashLength)
    }
}

/// Accepts exactly the names of 1 to 64 characters; everything else is
/// `InvalidDocumentName`.
pub fn validate_name(document_name: &String) -> (outcome: Result<(), ContractError>)
    ensures
        outcome is Ok <==> valid_name(document_name@),
        outcome is Err ==> outcome == Err::<(), ContractError>(ContractError::InvalidDocumentName),
{
    let len = document_name.as_str().unicode_len();
    if 1 <= len && len <= 64 {
        Ok(())
    } else {
        Err(ContractError::InvalidDocumentName)
    }
}

} // verus!
