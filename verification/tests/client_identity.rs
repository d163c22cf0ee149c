use community_provider::identity::{
    build_client_identity, build_default_client_did, derive_android_id_plaintext, derive_default_model,
};

fn strings(v: &[&str]) -> Vec<String> {
    v.iter().map(|x| x.to_string()).collect()
}

#[test]
fn model_is_the_first_plain_host_value() {
    assert_eq!(derive_default_model(&strings(&["", " my-AstroBox-pc ", " arm64 "])), "arm64");
    assert_eq!(derive_default_model(&strings(&["  host  ", "linux", "x86"])), "host");
    assert_eq!(derive_default_model(&strings(&[" ", "AstroBox", ""])), "Xiaomi");
    assert_eq!(derive_default_model(&[]), "Xiaomi");
}

#[test]
fn android_id_is_a_digest_prefix_of_the_host_values() {
    assert_eq!(derive_android_id_plaintext(&strings(&[" host ", "", "  ", "linux"])), "6ae4948d9e7a1510");
    assert_eq!(derive_android_id_plaintext(&strings(&["", " ", "", ""])), "62b36b9268c53666");
}

#[test]
fn device_id_is_sealed_with_the_community_key() {
    let a = build_default_client_did("62b36b9268c53666").unwrap();
    let b = build_default_client_did("62b36b9268c53666").unwrap();
    assert_eq!(a, b);
    assert_eq!(a.len(), 128);
    assert!(a.chars().all(|c| c.is_ascii_digit() || ('A'..='F').contains(&c)));
    assert_ne!(a, build_default_client_did("0000000000000000").unwrap());
}

#[test]
fn identity_from_the_host() {
    let id = build_client_identity(" host ", "", "  ", "linux");
    assert_eq!(id.model, "host");
    assert_eq!(id.model2, "2249322543");
    assert_eq!(id.model3, "8252dcf63602b758a6a64dda929534d1");
    assert_eq!(id.app_signature_sha1, "34aa96a18157f401eced9e045749ba63b0caf6b0");
    assert_eq!(id.did, build_default_client_did("6ae4948d9e7a1510").unwrap());
}
