//! Static token metadata: a non-algorithmic description of the token (name,
//! symbol, decimals, optional icon and off-chain reference) together with
//! its validity condition.

use vstd::prelude::*;

verus! {

/// The token's static description. `spec_version` names the metadata scheme
/// the description follows.
pub struct TokenMetadata {
    pub spec_version: String,
    pub name: String,
    pub symbol: String,
    pub icon: Option<String>,
    pub reference: Option<String>,
    pub reference_hash: Option<Vec<u8>>,
    pub decimals: u8,
}

impl TokenMetadata {
    /// Validity: the supported scheme version, and a reference given exactly
    /// together with its 32-byte hash.
    pub open spec fn valid(self) -> bool {
        &&& self.spec_version@ == "ft-1.0.0"@
        &&& (self.reference is Some <==> self.reference_hash is Some)
        &&& (match self.reference_hash {
            Some(h) => h@.len() == 32,
            None => true,
        })
    }

    /// Field-for-field agreement on the observable content.
    pub open spec fn equiv(self, other: TokenMetadata) -> bool {
        &&& self.spec_version@ == other.spec_version@
        &&& self.name@ == other.name@
        &&& self.symbol@ == other.symbol@
        &&& (self.icon is Some <==> other.icon is Some)
        &&& (match (self.icon, other.icon) {
            (Some(a), Some(b)) => a@ == b@,
            _ => true,
        })
        &&& (self.reference is Some <==> other.reference is Some)
        &&& (match (self.reference, other.reference) {
            (Some(a), Some(b)) => a@ == b@,
            _ => true,
        })
        &&& (self.reference_hash is Some <==> other.reference_hash is Some)
        &&& (match (self.reference_hash, other.reference_hash) {
            (Some(a), Some(b)) => a@ == b@,
            _ => true,
        })
        &&& self.decimals == other.decimals
    }

    /// Decides `valid`.
    pub fn is_valid(&self) -> (r: bool)
        ensures
            r == self.valid(),
    {
        let expected = "ft-1.0.0".to_owned();
        let scheme_ok = self.spec_version == expected;
        let reference_ok = match (&self.reference, &self.reference_hash) {
            (Some(_), Some(h)) => h.len() == 32,
            (None, None) => true,
            _ => false,
        };
        scheme_ok && reference_ok
    }

    /// An observably equal copy.
    pub fn duplicate(&self) -> (r: TokenMetadata)
        ensures
            r.equiv(*self),
    {
        TokenMetadata {
            spec_version: self.spec_version.clone(),
            name: self.name.clone(),
            symbol: self.symbol.clone(),
            icon: self.icon.clone(),
            reference: self.reference.clone(),
            reference_hash: self.reference_hash.clone(),
            decimals: self.decimals,
        }
    }
}

} // verus!
