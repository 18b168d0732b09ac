use safe_helpers::errors::Error;
use safe_helpers::ipc::{decode_ipc_msg, IpcMsg};

#[test]
fn granted_response_yields_the_credential() {
    let msg = IpcMsg::AuthResp { req_id: 7, result: Ok("credential".to_string()) };
    assert_eq!(decode_ipc_msg(Ok(msg)), Ok("credential".to_string()));
    let msg: IpcMsg<Vec<u8>> = IpcMsg::AuthResp { req_id: 0, result: Ok(vec![1, 2, 3]) };
    assert_eq!(decode_ipc_msg(Ok(msg)), Ok(vec![1, 2, 3]));
}

#[test]
fn refused_response_yields_the_refusal() {
    let msg: IpcMsg<String> =
        IpcMsg::AuthResp { req_id: 7, result: Err("AuthDenied".to_string()) };
    assert_eq!(decode_ipc_msg(Ok(msg)), Err(Error::AuthError("AuthDenied".to_string())));
}

#[test]
fn revoked_yields_the_fixed_denial() {
    for app_id in ["", "net.example.app", "another app"] {
        let msg: IpcMsg<String> = IpcMsg::Revoked { app_id: app_id.to_string() };
        assert_eq!(
            decode_ipc_msg(Ok(msg)),
            Err(Error::AuthError("Authorisation denied".to_string()))
        );
    }
}

#[test]
fn other_message_yields_its_description() {
    let msg: IpcMsg<String> = IpcMsg::Other { description: "Err(InvalidMsg)".to_string() };
    assert_eq!(decode_ipc_msg(Ok(msg)), Err(Error::AuthError("Err(InvalidMsg)".to_string())));
}

#[test]
fn unopened_envelope_is_invalid_input() {
    let decoded: Result<IpcMsg<String>, String> = Err("EncodeDecodeError".to_string());
    assert_eq!(
        decode_ipc_msg(decoded),
        Err(Error::InvalidInput("Failed to decode the credentials: EncodeDecodeError".to_string()))
    );
}
