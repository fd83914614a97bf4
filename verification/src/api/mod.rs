//! The records that travel between relays, clients and the contract server.

pub mod chronosort;
pub mod digestible;
pub mod headersignedjson;
pub mod signable;
pub mod signed;
pub mod timestamp;

use vstd::prelude::*;
use crate::api::digestible::{Digestible, separator};
use crate::api::signable::Signable;
use crate::api::timestamp::{Timestamp, Timestamped};
use crate::b64e::{Base64, Encodable, base64_text};
use crate::decimal::Decimal;
use crate::ed25519::{Signature, SigningKey, VerifyingKey};
use crate::text::{int_text, joined, join};

verus! {

/// The answer to a request: an HTTP status code and what it means.
#[derive(Clone, Debug)]
pub struct Status {
    pub code: u16,
    pub desc: String,
}

impl Status {
    /// The status with the given code and description.
    pub fn new(code: u16, desc: &str) -> (r: Status)
        ensures
            r.code == code,
            r.desc@ == desc@,
    {
        Status { code, desc: String::from_str(desc) }
    }

    /// Whether the status has this code and this description.
    pub open spec fn is(&self, code: u16, desc: Seq<char>) -> bool {
        self.code == code && self.desc@ == desc
    }
}

/// What a relay does in a circuit.
#[derive(Clone, Copy, Debug, PartialEq, Eq, Structural)]
pub enum Role {
    Fronting,
    Entropic,
    Backing,
}

/// The protocol versions that a relay speaks, as text.
#[derive(Clone, Debug)]
pub struct Versions {
    pub software: String,
    pub client_relay: String,
    pub relay_relay: String,
    pub relay_dir: String,
    pub relay_contract: String,
}

/// A relay as it enrolls with the directory.
#[derive(Clone, Debug)]
pub struct Relay {
    pub public_key: Base64<VerifyingKey>,
    pub role: Role,
    pub address: String,
    pub versions: Versions,
}

/// How many relays are enrolled in a role.
#[derive(Clone, Copy, Debug)]
pub struct RoleInfo {
    pub count: u32,
    pub restricted: bool,
}

impl RoleInfo {
    /// Changes the count by `delta`, where the result is a count; says whether it
    /// did.
    pub fn record(&mut self, delta: i8) -> (done: bool)
        ensures
            done == (0 <= old(self).count + delta <= u32::MAX),
            done ==> final(self).count == old(self).count + delta,
            !done ==> final(self).count == old(self).count,
            final(self).restricted == old(self).restricted,
    {
        match self.count.checked_add_signed(delta as i32) {
            Some(i) => {
                self.count = i;
                true
            },
            None => false,
        }
    }
}

/// The enrollment counts of the three roles.
#[derive(Clone, Copy, Debug)]
pub struct Enrollment {
    pub fronting: RoleInfo,
    pub entropic: RoleInfo,
    pub backing: RoleInfo,
}

impl Enrollment {
    /// The count of a role.
    pub open spec fn of(&self, r: Role) -> RoleInfo {
        match r {
            Role::Fronting => self.fronting,
            Role::Entropic => self.entropic,
            Role::Backing => self.backing,
        }
    }

    /// The enrollment with the count of a role replaced.
    pub open spec fn with(&self, r: Role, info: RoleInfo) -> Enrollment {
        match r {
            Role::Fronting => Enrollment { fronting: info, ..*self },
            Role::Entropic => Enrollment { entropic: info, ..*self },
            Role::Backing => Enrollment { backing: info, ..*self },
        }
    }

    /// No relay enrolled in any role.
    pub fn new() -> (r: Enrollment)
        ensures
            forall|role: Role| (#[trigger] r.of(role)).count == 0 && !r.of(role).restricted,
    {
        let none = RoleInfo { count: 0, restricted: false };
        Enrollment { fronting: none, entropic: none, backing: none }
    }

    /// The count of a role, to be changed in place.
    pub fn role(&mut self, r: Role) -> (info: &mut RoleInfo)
        ensures
            *info == old(self).of(r),
            *final(self) == old(self).with(r, *final(info)),
    {
        match r {
            Role::Fronting => &mut self.fronting,
            Role::Entropic => &mut self.entropic,
            Role::Backing => &mut self.backing,
        }
    }
}

/// The directory that lists the contract's relays.
#[derive(Clone, Debug)]
pub struct Directory {
    pub endpoint: String,
    pub public_key: Base64<VerifyingKey>,
}

/// A source of proofs of funding that the contract accepts.
#[derive(Clone, Debug)]
pub struct PofSource {
    pub endpoint: String,
    pub pof_type: String,
    pub pubkey: Base64<VerifyingKey>,
}

/// What a servicekey is worth and how long it lasts.
#[derive(Clone, Debug)]
pub struct ServicekeyCfg {
    pub currency: String,
    pub value: Decimal,
    /// Seconds from activation to the opening of the settlement window.
    pub duration: u64,
}

/// How share tokens are settled.
#[derive(Clone, Copy, Debug)]
pub struct SettlementCfg {
    pub fee_percent: Decimal,
    /// Seconds for which the settlement window stays open.
    pub submission_window: u64,
}

/// How balances are paid out.
#[derive(Clone, Debug)]
pub struct PayoutCfg {
    /// The URL of the payment system.
    pub endpoint: String,
    /// Payment system type.
    pub ps_type: String,
    /// Seconds between two checks for withdrawal status changes.
    pub check_period: u64,
    /// Minimum withdrawal amount.
    pub min_withdrawal: Option<u64>,
    /// Maximum withdrawal amount.
    pub max_withdrawal: Option<u64>,
    /// Optional info URL.
    pub info: Option<String>,
}

/// What the operator says about the contract.
#[derive(Clone, Debug)]
pub struct Metadata {
    pub name: Option<String>,
    pub operator: Option<String>,
    pub operator_url: Option<String>,
    pub terms_of_service: Option<String>,
    pub privacy_policy: Option<String>,
}

/// The public information that the operator defines.
#[derive(Clone, Debug)]
pub struct PubDefined {
    pub endpoint: String,
    pub info: Option<String>,
    /// Upgrade channels: channel, component, version.
    pub upgrade_channels: Vec<(String, Vec<(String, String)>)>,
    pub pofsources: Vec<PofSource>,
    pub servicekey: ServicekeyCfg,
    pub settlement: SettlementCfg,
    pub payout: PayoutCfg,
    pub metadata: Option<Metadata>,
}

/// The public information that follows from the key and the state.
#[derive(Clone, Debug)]
pub struct PubDerived {
    pub pubkey: Base64<VerifyingKey>,
    pub public_key: Base64<VerifyingKey>,
    pub version: String,
    pub enrollment: Enrollment,
    pub directory: Directory,
}

/// What the contract says of itself.
#[derive(Clone, Debug)]
pub struct Public {
    pub derived: PubDerived,
    pub defined: PubDefined,
}

/// A proof of funding: a nonce that the contract signed, good until it expires.
#[derive(Clone, Debug)]
pub struct Pof {
    pub pof_type: String,
    pub nonce: String,
    pub expiration: i64,
    pub signature: Base64<Signature>,
}

/// The contract that an accesskey is for.
#[derive(Clone, Debug)]
pub struct Contract {
    pub endpoint: String,
    pub public_key: Base64<VerifyingKey>,
}

/// A request for proofs of funding.
#[derive(Clone, Debug)]
pub struct AccesskeyRequest {
    pub pof_type: String,
    pub quantity: u64,
    pub duration: i64,
}

/// Proofs of funding together with the contract they are for.
#[derive(Clone, Debug)]
pub struct Accesskey {
    pub version: String,
    pub contract: Contract,
    pub pofs: Vec<Pof>,
}

/// A request to activate a servicekey.
#[derive(Clone, Debug)]
pub struct ActivationRequest {
    pub public_key: Base64<VerifyingKey>,
    pub pof: Pof,
}

/// A servicekey as its holder keeps it.
pub struct Servicekey {
    pub secret_key: Base64<SigningKey>,
    pub public_key: Base64<VerifyingKey>,
    pub contract: Option<SKContract>,
}

/// The state of a withdrawal at the payment system.
#[derive(Clone, Copy, Debug, PartialEq, Eq, Structural)]
pub enum WithdrawalState {
    Pending,
    Complete,
    Error,
}

/// A relay's request to withdraw from its balance.
#[derive(Clone, Debug)]
pub struct WithdrawalRequest {
    /// The payment system type.
    pub w_type: String,
    pub amount: u64,
    pub destination: String,
}

/// The state of a withdrawal and when it last changed.
#[derive(Clone, Copy, Debug)]
pub struct WithdrawalStateData {
    pub state: WithdrawalState,
    pub state_changed: i64,
}

/// A withdrawal as the payment system keeps it.
#[derive(Clone, Debug)]
pub struct Withdrawal {
    pub id: String,
    pub state_data: WithdrawalStateData,
    pub withdrawal_request: WithdrawalRequest,
    pub receipt: String,
}

/// A change of a withdrawal's state.
#[derive(Clone, Debug)]
pub struct WithdrawalStateUpdate {
    pub id: String,
    pub state: WithdrawalState,
}

/// The settlement envelope of a servicekey, signed by the contract server.
#[derive(Clone, Debug)]
pub struct SKContract {
    /// The contract server's key.
    pub public_key: Base64<VerifyingKey>,
    /// The contract server's signature over the digest.
    pub signature: Base64<Signature>,
    /// When share tokens of the servicekey may first be submitted.
    pub settlement_open: i64,
    /// When the servicekey's share tokens fall due for settlement.
    pub settlement_close: i64,
}

/// A share token: a relay's receipt for one unit of service to a servicekey.
#[derive(Clone, Debug)]
pub struct Sharetoken {
    pub version: u8,
    /// The servicekey's key, which signs the token.
    pub public_key: Base64<VerifyingKey>,
    /// When the token was made.
    pub timestamp: i64,
    /// The relay that served.
    pub relay_pubkey: Base64<VerifyingKey>,
    /// Unused; empty.
    pub share_key: String,
    pub nonce: String,
    /// The servicekey's signature over the digest.
    pub signature: Base64<Signature>,
    /// The servicekey's settlement envelope.
    pub contract: SKContract,
}

impl Digestible for SKContract {
    open spec fn digest_text(&self) -> Seq<char> {
        joined(
            seq![
                self.public_key.digest_text(),
                int_text(self.settlement_open as int),
                int_text(self.settlement_close as int),
            ],
            separator(),
        )
    }

    open spec fn digest_with_sig_text(&self) -> Seq<char> {
        joined(
            seq![
                self.public_key.digest_text(),
                self.signature.digest_text(),
                int_text(self.settlement_open as int),
                int_text(self.settlement_close as int),
            ],
            separator(),
        )
    }

    fn digest(&self) -> (r: String) {
        let mut parts: Vec<String> = Vec::new();
        parts.push(self.public_key.digest());
        parts.push(self.settlement_open.digest());
        parts.push(self.settlement_close.digest());
        proof {
            reveal_strlit(":");
            assert(":"@ == separator());
            assert(parts.deep_view() == seq![
                self.public_key.digest_text(),
                int_text(self.settlement_open as int),
                int_text(self.settlement_close as int),
            ]);
        }
        join(&parts, ":")
    }

    fn digest_with_sig(&self) -> (r: String) {
        let mut parts: Vec<String> = Vec::new();
        parts.push(self.public_key.digest());
        parts.push(self.signature.digest());
        parts.push(self.settlement_open.digest());
        parts.push(self.settlement_close.digest());
        proof {
            reveal_strlit(":");
            assert(":"@ == separator());
            assert(parts.deep_view() == seq![
                self.public_key.digest_text(),
                self.signature.digest_text(),
                int_text(self.settlement_open as int),
                int_text(self.settlement_close as int),
            ]);
        }
        join(&parts, ":")
    }
}

impl Signable for SKContract {
    open spec fn signer(&self) -> Seq<u8> {
        self.public_key.0.bytes()
    }

    open spec fn seal(&self) -> Seq<u8> {
        self.signature.0.bytes()
    }

    fn public_key(&self) -> (r: VerifyingKey) {
        self.public_key.0
    }

    fn signature(&self) -> (r: Signature) {
        self.signature.0
    }

    fn sign(&mut self, kp: &SigningKey)
        ensures
            final(self).settlement_open == old(self).settlement_open,
            final(self).settlement_close == old(self).settlement_close,
    {
        self.public_key = Base64(kp.verifying_key());
        let text = self.digest();
        self.signature = Base64(kp.sign(text.as_str().as_bytes()));
    }
}

impl Digestible for Sharetoken {
    open spec fn digest_text(&self) -> Seq<char> {
        joined(
            seq![
                int_text(self.version as int),
                self.public_key.digest_text(),
                int_text(self.timestamp as int),
                self.relay_pubkey.digest_text(),
                self.share_key@,
                self.nonce@,
                self.contract.digest_with_sig_text(),
            ],
            separator(),
        )
    }

    open spec fn digest_with_sig_text(&self) -> Seq<char> {
        joined(
            seq![
                int_text(self.version as int),
                self.public_key.digest_text(),
                int_text(self.timestamp as int),
                self.relay_pubkey.digest_text(),
                self.share_key@,
                self.nonce@,
                self.signature.digest_text(),
                self.contract.digest_with_sig_text(),
            ],
            separator(),
        )
    }

    fn digest(&self) -> (r: String) {
        let mut parts: Vec<String> = Vec::new();
        parts.push(self.version.digest());
        parts.push(self.public_key.digest());
        parts.push(self.timestamp.digest());
        parts.push(self.relay_pubkey.digest());
        parts.push(self.share_key.digest());
        parts.push(self.nonce.digest());
        parts.push(self.contract.digest_with_sig());
        proof {
            reveal_strlit(":");
            assert(":"@ == separator());
            assert(parts.deep_view() == seq![
                int_text(self.version as int),
                self.public_key.digest_text(),
                int_text(self.timestamp as int),
                self.relay_pubkey.digest_text(),
                self.share_key@,
                self.nonce@,
                self.contract.digest_with_sig_text(),
            ]);
        }
        join(&parts, ":")
    }

    fn digest_with_sig(&self) -> (r: String) {
        let mut parts: Vec<String> = Vec::new();
        parts.push(self.version.digest());
        parts.push(self.public_key.digest());
        parts.push(self.timestamp.digest());
        parts.push(self.relay_pubkey.digest());
        parts.push(self.share_key.digest());
        parts.push(self.nonce.digest());
        parts.push(self.signature.digest());
        parts.push(self.contract.digest_with_sig());
        proof {
            reveal_strlit(":");
            assert(":"@ == separator());
            assert(parts.deep_view() == seq![
                int_text(self.version as int),
                self.public_key.digest_text(),
                int_text(self.timestamp as int),
                self.relay_pubkey.digest_text(),
                self.share_key@,
                self.nonce@,
                self.signature.digest_text(),
                self.contract.digest_with_sig_text(),
            ]);
        }
        join(&parts, ":")
    }
}

impl Signable for Sharetoken {
    open spec fn signer(&self) -> Seq<u8> {
        self.public_key.0.bytes()
    }

    open spec fn seal(&self) -> Seq<u8> {
        self.signature.0.bytes()
    }

    fn public_key(&self) -> (r: VerifyingKey) {
        self.public_key.0
    }

    fn signature(&self) -> (r: Signature) {
        self.signature.0
    }

    fn sign(&mut self, kp: &SigningKey)
        ensures
            final(self).version == old(self).version,
            final(self).timestamp == old(self).timestamp,
            final(self).relay_pubkey == old(self).relay_pubkey,
            final(self).share_key == old(self).share_key,
            final(self).nonce == old(self).nonce,
            final(self).contract == old(self).contract,
    {
        self.public_key = Base64(kp.verifying_key());
        let text = self.digest();
        self.signature = Base64(kp.sign(text.as_str().as_bytes()));
    }
}

impl Timestamped for Sharetoken {
    /// A share token is ordered by the time at which it falls due: the settlement
    /// close of its servicekey.
    open spec fn stamp(&self) -> int {
        self.contract.settlement_close as int
    }

    fn timestamp(&self) -> (t: Timestamp) {
        self.contract.settlement_close
    }
}

impl Sharetoken {
    /// The servicekey of the token, as text.
    pub open spec fn servicekey_text(&self) -> Seq<char> {
        base64_text(self.public_key.0.bytes())
    }

    /// The relay of the token, as text.
    pub open spec fn relay_text(&self) -> Seq<char> {
        base64_text(self.relay_pubkey.0.bytes())
    }

    /// The file name under which the token is stored: its signature as text.
    pub fn filename(&self) -> (r: String)
        ensures
            r@ == base64_text(self.signature.0.bytes()),
    {
        self.signature.to_string()
    }

    /// The directory under which the token is stored, as its two components: the
    /// servicekey and the relay, as text.
    pub fn subdir(&self) -> (r: (String, String))
        ensures
            r.0@ == self.servicekey_text(),
            r.1@ == self.relay_text(),
    {
        (self.public_key.to_string(), self.relay_pubkey.to_string())
    }

    /// The path under which the token is stored, below the store's directory, as
    /// its components: servicekey, relay, signature.
    pub fn path(&self) -> (r: Vec<String>)
        ensures
            r.deep_view() == seq![
                self.servicekey_text(),
                self.relay_text(),
                base64_text(self.signature.0.bytes()),
            ],
    {
        let dir = self.subdir();
        let mut parts: Vec<String> = Vec::new();
        parts.push(dir.0);
        parts.push(dir.1);
        parts.push(self.filename());
        assert(parts.deep_view() == seq![
            self.servicekey_text(),
            self.relay_text(),
            base64_text(self.signature.0.bytes()),
        ]);
        parts
    }
}

} // verus!
