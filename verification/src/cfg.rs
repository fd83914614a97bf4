//! The configuration of the contract server and what follows from it.

use vstd::prelude::*;
use crate::api::{
    Directory, Enrollment, Metadata, PayoutCfg, PubDefined, PubDerived, Public, ServicekeyCfg,
    SettlementCfg,
};
use crate::b64e::Base64;
use crate::decimal::Decimal;
use crate::ed25519::{SigningKey, VerifyingKey};

verus! {

/// The configuration of the contract server.
pub struct Cfg {
    /// The address on which the server listens.
    pub address: String,
    /// The key with which the contract signs.
    pub keypair: Option<Base64<SigningKey>>,
    /// The public information that the operator defines.
    pub pubdef: PubDefined,
}

/// The address on which the server listens unless it is told otherwise.
pub open spec fn default_address() -> Seq<char> {
    "127.0.0.1:8081"@
}

/// The endpoint at the default address.
pub open spec fn default_endpoint() -> Seq<char> {
    "http://"@ + default_address()
}

impl Default for Cfg {
    /// Sane defaults: the server listens on the local address, has no key yet, and
    /// is its own payment system of type "dummy"; a servicekey is worth 100 USD and
    /// lasts ten minutes; the fee is 5 percent and the settlement window stays open
    /// for an hour; withdrawals of any amount are checked every five seconds.
    fn default() -> (r: Cfg)
        ensures
            r.address@ == default_address(),
            r.keypair is None,
            r.pubdef.endpoint@ == default_endpoint(),
            r.pubdef.info is None,
            r.pubdef.upgrade_channels@.len() == 0,
            r.pubdef.pofsources@.len() == 0,
            r.pubdef.servicekey.currency@ == "USD"@,
            r.pubdef.servicekey.value.m() == 100 && r.pubdef.servicekey.value.e() == 0,
            r.pubdef.servicekey.duration == 600,
            r.pubdef.settlement.fee_percent.m() == 5 && r.pubdef.settlement.fee_percent.e() == 0,
            r.pubdef.settlement.submission_window == 3600,
            r.pubdef.payout.endpoint@ == default_endpoint(),
            r.pubdef.payout.ps_type@ == "dummy"@,
            r.pubdef.payout.check_period == 5,
            r.pubdef.payout.min_withdrawal == Some(0u64),
            r.pubdef.payout.max_withdrawal == Some(u64::MAX),
            r.pubdef.payout.info matches Some(info) && info@ == default_endpoint(),
            r.pubdef.metadata matches Some(md) && {
                &&& md.name matches Some(name) && name@ == "PLEASE CONFIGURE ME"@
                &&& md.operator matches Some(operator) && operator@
                    == "TEST CONTRACT WITH DEFAULT CONFIG"@
                &&& md.operator_url is None
                &&& md.terms_of_service is None
                &&& md.privacy_policy is None
            },
    {
        let addr = "127.0.0.1:8081";
        let mut endp = String::from_str("http://");
        endp.append(addr);
        Cfg {
            address: String::from_str(addr),
            // the key is generated before the server starts
            keypair: None,
            pubdef: PubDefined {
                endpoint: endp.clone(),
                info: None,
                upgrade_channels: Vec::new(),
                pofsources: Vec::new(),
                servicekey: ServicekeyCfg {
                    currency: String::from_str("USD"),
                    value: Decimal::from_u64(100),
                    duration: 600,
                },
                settlement: SettlementCfg {
                    fee_percent: Decimal::from_u64(5),
                    submission_window: 3600,
                },
                payout: PayoutCfg {
                    endpoint: endp.clone(),
                    ps_type: String::from_str("dummy"),
                    check_period: 5,
                    min_withdrawal: Some(0),
                    max_withdrawal: Some(u64::MAX),
                    info: Some(endp.clone()),
                },
                metadata: Some(
                    Metadata {
                        name: Some(String::from_str("PLEASE CONFIGURE ME")),
                        operator: Some(String::from_str("TEST CONTRACT WITH DEFAULT CONFIG")),
                        operator_url: None,
                        terms_of_service: None,
                        privacy_policy: None,
                    },
                ),
            },
        }
    }
}

/// Fills out the derived fields: the contract's key, the version of the server,
/// no relay enrolled, and the contract as its own directory.
pub fn mkpublic(def: PubDefined, pk: VerifyingKey, version: String) -> (r: Public)
    ensures
        r.defined == def,
        r.derived.pubkey == Base64(pk),
        r.derived.public_key == Base64(pk),
        r.derived.version == version,
        forall|role: crate::api::Role|
            (#[trigger] r.derived.enrollment.of(role)).count == 0 && !r.derived.enrollment.of(
                role,
            ).restricted,
        r.derived.directory.endpoint@ == def.endpoint@,
        r.derived.directory.public_key == Base64(pk),
{
    let endpoint = def.endpoint.clone();
    Public {
        defined: def,
        derived: PubDerived {
            pubkey: Base64(pk),
            public_key: Base64(pk),
            version,
            enrollment: Enrollment::new(),
            directory: Directory { endpoint, public_key: Base64(pk) },
        },
    }
}

} // verus!
