use anon_xfr::address::{dec, enc};
use anon_xfr::curve::RandSource;
use anon_xfr::errors::Error;
use anon_xfr::keys::KeyPair;

#[test]
fn test_address_encoding() {
    let mut csprng = RandSource::from_seed(&vec![0u8; 32]);
    let keypair = KeyPair::generate(&mut csprng);

    let enc = enc(&keypair.get_public_key());
    let dec = dec(&enc).unwrap();
    assert_eq!(dec, keypair.get_public_key());
}

#[test]
fn addresses_have_the_prefix_and_reject_tampering() {
    let mut csprng = RandSource::from_seed(&vec![7u8; 32]);
    let keypair = KeyPair::generate(&mut csprng);

    let addr = enc(&keypair.get_public_key());
    assert!(addr.starts_with("ZEI_"));

    // too short
    assert_eq!(dec(&"ZEI".to_string()).err().unwrap(), Error::DeserializationError);
    // a character outside the alphabet
    let bad = format!("ZEI_0{}", &addr[5..]);
    assert_eq!(dec(&bad).err().unwrap(), Error::DeserializationError);
    // a corrupted checksum: change one address character
    let mut chars: Vec<char> = addr.chars().collect();
    let last = chars.len() - 1;
    chars[last] = if chars[last] == '2' { '3' } else { '2' };
    let corrupted: String = chars.into_iter().collect();
    assert_eq!(dec(&corrupted).err().unwrap(), Error::DeserializationError);
}
