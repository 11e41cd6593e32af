use vstd::prelude::*;

verus! {

/// The answer of the phone validation endpoint.
#[derive(Debug, Clone)]
pub struct PhoneValidateResponse {
    /// whether the operation was successful
    pub success: bool,
    pub number: String,
    /// whether the number is valid
    pub is_valid: bool,
    /// whether the number is a voice over IP number
    pub is_voip: bool,
    pub is_fixed: bool,
}

/// The answer of the phone operation endpoint.
#[derive(Debug, Clone)]
pub struct PhoneAjaxResponse {
    /// whether the operation was successful
    pub success: bool,
    pub state: String,
    /// if not empty, `success` is false
    pub error_text: String,
    pub show_resend: bool,
    pub input: String,
    pub token: String,
    pub input_size: String,
    pub max_length: String,
    pub vac_policy: i64,
    pub tos_policy: i64,
    pub show_down: bool,
}

} // verus!
