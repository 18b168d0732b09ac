//! Authorisation responses.
//!
//! An application asks an authenticator for access and gets a message back.
//! Opening the message's envelope is the business of the code that talks to
//! the authenticator. This module decides what an opened message means for
//! the application: a credential, or the reason why there is none. It never
//! looks inside a credential, so the credential's type is left open.

use crate::errors::{Error, ErrorView, ResultReturn};
use vstd::prelude::*;
use vstd::string::*;

verus! {

/// An authorisation message with its envelope opened. `C` is the credential.
pub enum IpcMsg<C> {
    /// The answer to a request for authorisation: the credential granted, or
    /// the description of the authenticator's refusal.
    AuthResp { req_id: u32, result: Result<C, String> },
    /// Notice that the access of the application named here was revoked.
    Revoked { app_id: String },
    /// A message of any other kind, with its description.
    Other { description: String },
}

/// Start of the description of a message whose envelope could not be opened;
/// the reason follows.
pub open spec fn undecodable_text() -> Seq<char> {
    "Failed to decode the credentials: "@
}

/// Description of a revoked authorisation.
pub open spec fn denied_text() -> Seq<char> {
    "Authorisation denied"@
}

/// What the attempt to open a message yields for the application. `decoded`
/// holds the opened message, or the reason why the envelope could not be
/// opened.
pub open spec fn credential_of<C>(decoded: Result<IpcMsg<C>, String>) -> Result<C, ErrorView> {
    match decoded {
        Err(reason) => Err(ErrorView::InvalidInput(undecodable_text() + reason@)),
        Ok(IpcMsg::AuthResp { req_id, result: Ok(granted) }) => Ok(granted),
        Ok(IpcMsg::AuthResp { req_id, result: Err(refusal) }) => Err(
            ErrorView::AuthError(refusal@),
        ),
        Ok(IpcMsg::Revoked { app_id }) => Err(ErrorView::AuthError(denied_text())),
        Ok(IpcMsg::Other { description }) => Err(ErrorView::AuthError(description@)),
    }
}

/// Takes the credential out of an authorisation response.
///
/// Fails with `InvalidInput` where the envelope could not be opened, and with
/// `AuthError` where the message grants nothing: a refusal, a revocation, or
/// a message of another kind.
pub fn decode_ipc_msg<C>(decoded: Result<IpcMsg<C>, String>) -> (outcome: ResultReturn<C>)
    ensures
        match credential_of(decoded) {
            Ok(granted) => outcome == Ok::<C, Error>(granted),
            Err(reason) => outcome matches Err(e) && e@ == reason,
        },
{
    match decoded {
        Err(reason) => {
            let message = "Failed to decode the credentials: ".to_owned().concat(reason.as_str());
            Err(Error::InvalidInput(message))
        },
        Ok(IpcMsg::AuthResp { req_id: _, result: Ok(granted) }) => Ok(granted),
        Ok(IpcMsg::AuthResp { req_id: _, result: Err(refusal) }) => Err(Error::AuthError(refusal)),
        Ok(IpcMsg::Revoked { app_id: _ }) => Err(
            Error::AuthError("Authorisation denied".to_owned()),
        ),
        Ok(IpcMsg::Other { description }) => Err(Error::AuthError(description)),
    }
}

/// A revocation yields the same denial whichever application it names.
pub proof fn lemma_revoked_is_denied<C>(app_id: String)
    ensures
        credential_of::<C>(Ok(IpcMsg::Revoked { app_id })) == Err::<C, ErrorView>(
            ErrorView::AuthError(denied_text()),
        ),
{
}

/// Only a granted response yields a credential, and it yields the one it
/// carries.
pub proof fn lemma_credential_only_if_granted<C>(decoded: Result<IpcMsg<C>, String>)
    ensures
        credential_of(decoded) is Ok <==> (decoded matches Ok(IpcMsg::AuthResp { result, .. })
            && result is Ok),
{
}

} // verus!
