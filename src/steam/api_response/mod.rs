//! The records that Steam's services answer with.
use vstd::prelude::*;

pub mod i_two_factor_service;
pub mod login;
pub mod phone_ajax;

pub use i_two_factor_service::{
    AddAuthenticatorResponse, FinalizeAddAuthenticatorResponse, QueryTimeResponse,
    RemoveAuthenticatorResponse,
};
pub use login::{LoginResponse, LoginTransferParameters, OAuthData, RsaResponse};
pub use phone_ajax::{PhoneAjaxResponse, PhoneValidateResponse};

verus! {

/// The envelope around a response of Steam's web API.
#[derive(Debug, Clone)]
pub struct SteamApiResponse<T> {
    pub response: T,
}

} // verus!
