use substratee_stf::worker_api::{stf_state_from_decoded, Api, ClientRequest};

#[test]
fn requests_carry_the_worker_url() {
    let api = Api::new("ws://127.0.0.1:2000".to_string());
    assert_eq!(api.url(), "ws://127.0.0.1:2000");
    let r = api.get_mu_ra_port();
    assert_eq!(r.url, "ws://127.0.0.1:2000");
    assert!(matches!(r.request, ClientRequest::MuRaPortWorker));
    assert!(matches!(api.get_rsa_pubkey().request, ClientRequest::PubKeyWorker));
    match api.get_stf_state(vec![1, 2], &[3; 32]).request {
        ClientRequest::StfState(g, s) => {
            assert_eq!(g, vec![1, 2]);
            assert_eq!(s, [3; 32]);
        }
        _ => panic!("wrong request"),
    }
}

#[test]
fn state_reply_is_hex_of_an_encoded_option() {
    assert_eq!(Api::stf_state_from_reply(Ok("0108aabb".to_string())), Ok(vec![0xaa, 0xbb]));
    assert_eq!(Api::stf_state_from_reply(Ok("0108AaBb".to_string())), Ok(vec![0xaa, 0xbb]));
    assert_eq!(Api::stf_state_from_reply(Ok("0100".to_string())), Ok(vec![]));
}

#[test]
fn failed_or_malformed_replies_are_errors() {
    assert_eq!(Api::stf_state_from_reply(Err(())), Err(()));
    assert_eq!(Api::stf_state_from_reply(Ok("00".to_string())), Err(()));
    assert_eq!(Api::stf_state_from_reply(Ok("010".to_string())), Err(()));
    assert_eq!(Api::stf_state_from_reply(Ok("zz".to_string())), Err(()));
    assert_eq!(Api::stf_state_from_reply(Ok("02".to_string())), Err(()));
    assert_eq!(Api::stf_state_from_reply(Ok("".to_string())), Err(()));
}

#[test]
fn decoded_reply_values() {
    assert_eq!(stf_state_from_decoded(Some(Some(vec![5]))), Ok(vec![5]));
    assert_eq!(stf_state_from_decoded(Some(None)), Err(()));
    assert_eq!(stf_state_from_decoded(None), Err(()));
}
