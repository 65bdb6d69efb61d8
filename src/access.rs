use vstd::prelude::*;
use vstd::utf8::encode_utf8;
use secret_toolkit::permit::TokenPermissions;
use secret_toolkit::snip721::ViewerInfo;
use crate::types::ContractError;

verus! {

/// The scopes that a signed permit can grant.
#[verifier::external_type_specification]
pub struct ExTokenPermissions(secret_toolkit::permit::TokenPermissions);

/// The standard, padded base64 text of a byte string.
pub uninterp spec fn base64_of(data: Seq<u8>) -> Seq<char>;

/// The SHA-256 digest of a byte string.
pub uninterp spec fn sha256_of(data: Seq<u8>) -> Seq<u8>;

/// The form in which a viewing key is stored and compared: the base64 text
/// of the SHA-256 digest of the key's own base64 text.
pub open spec fn derived_key(key: Seq<char>) -> Seq<char> {
    base64_of(sha256_of(encode_utf8(base64_of(encode_utf8(key)))))
}

/// Relies on `base64::encode`: the standard alphabet with padding; the text
/// depends on the bytes alone.
#[verifier::external_body]
#[allow(deprecated)]
fn encode_base64(data: &[u8]) -> (r: String)
    ensures
        r@ == base64_of(data@),
{
    base64::encode(data)
}

/// Relies on `secret_toolkit::crypto::sha_256`: the 32-byte SHA-256 digest of
/// the bytes alone.
#[verifier::external_body]
fn sha_256(data: &[u8]) -> (r: Vec<u8>)
    ensures
        r@ == sha256_of(data@),
        r@.len() == 32,
{
    secret_toolkit::crypto::sha_256(data).to_vec()
}

/// Derives the stored form of a viewing key (or of the entropy that seeds one).
pub fn derive_viewing_key(key: &str) -> (r: String)
    ensures
        r@ == derived_key(key@),
{
    let first = encode_base64(key.as_bytes());
    let digest = sha_256(first.as_str().as_bytes());
    encode_base64(digest.as_slice())
}

/// Whether a presented address and derived key match the registered viewer.
pub fn viewer_matches(registered: &ViewerInfo, address: &String, derived: &String) -> (r: bool)
    ensures
        r == (registered.viewing_key@ == derived@ && registered.address@ == address@),
{
    *derived == registered.viewing_key && *address == registered.address
}

/// Admits a balance query only from the registered viewer with the key that
/// was registered for it.
pub fn check_admin_key(registered: &Option<ViewerInfo>, viewer: &ViewerInfo) -> (r: Result<(), ContractError>)
    ensures
        r is Ok <==> match registered {
            Some(v) => v.viewing_key@ == derived_key(viewer.viewing_key@) && v.address@ == viewer.address@,
            None => false,
        },
        r matches Err(e) ==> e is Unauthorized,
{
    match registered {
        None => Err(ContractError::Unauthorized),
        Some(v) => {
            let derived = derive_viewing_key(viewer.viewing_key.as_str());
            if viewer_matches(v, &viewer.address, &derived) {
                Ok(())
            } else {
                Err(ContractError::Unauthorized)
            }
        },
    }
}

/// The permit grants the owner's own scope.
pub open spec fn grants_owner_spec(permissions: Seq<TokenPermissions>) -> bool {
    exists|k: int| 0 <= k < permissions.len() && #[trigger] permissions[k] is Owner
}

/// Whether the permissions include the owner's own scope.
pub fn grants_owner(permissions: &Vec<TokenPermissions>) -> (r: bool)
    ensures
        r == grants_owner_spec(permissions@),
{
    let mut k: usize = 0;
    while k < permissions.len()
        invariant
            k <= permissions@.len(),
            forall|kk: int| 0 <= kk < k ==> !(permissions@[kk] is Owner),
        decreases permissions@.len() - k,
    {
        if matches!(permissions[k], TokenPermissions::Owner) {
            return true;
        }
        k = k + 1;
    }
    false
}

/// Resolves whose claim history a query may read: the identity that the
/// permit verifier resolved, provided the permit grants the owner's scope.
pub fn authorize_history_query(querier: String, permissions: &Vec<TokenPermissions>) -> (r: Result<String, ContractError>)
    ensures
        grants_owner_spec(permissions@) ==> r == Ok::<String, ContractError>(querier),
        !grants_owner_spec(permissions@) ==> r == Err::<String, ContractError>(ContractError::Unauthorized),
{
    if grants_owner(permissions) {
        Ok(querier)
    } else {
        Err(ContractError::Unauthorized)
    }
}

} // verus!
