//! Accesskey issuance: proofs of funding, each a nonce with an expiration that
//! the contract signs.

use vstd::prelude::*;
use vstd::utf8::encode_utf8;
use crate::api::digestible::separator;
use crate::api::{Accesskey, AccesskeyRequest, Contract, Pof, Status, WithdrawalRequest};
use crate::b64e::{Base64, Encodable};
use crate::contract::calc::ShareCalc;
use crate::ed25519::{SigningKey, signature_of};
use crate::state::Custom;
use crate::text::{i64_text, int_text, join, joined};

verus! {

/// The bytes that are signed for a proof of funding: its type, its expiration and
/// its nonce, joined by `:`.
pub open spec fn pof_message(pof_type: Seq<char>, expiration: int, nonce: Seq<char>) -> Seq<u8> {
    encode_utf8(joined(seq![pof_type, int_text(expiration), nonce], separator()))
}

/// Whether a proof of funding is the one that `signer` makes of the type and the
/// nonce at `now` for `duration` seconds.
pub open spec fn pof_is(
    pof: Pof,
    signer: Seq<u8>,
    pof_type: Seq<char>,
    nonce: Seq<char>,
    now: int,
    duration: int,
) -> bool {
    &&& pof.pof_type@ == pof_type
    &&& pof.nonce@ == nonce
    &&& pof.expiration == now + duration
    &&& pof.signature.0.bytes() == signature_of(
        signer,
        pof_message(pof_type, now + duration, nonce),
    )
}

/// Makes a proof of funding of the given type with the given nonce, good for
/// `duration` seconds from `now`.
pub fn mk_pof(s: &SigningKey, pof_type: String, nonce: String, now: i64, duration: i64) -> (r: Pof)
    requires
        i64::MIN <= now + duration <= i64::MAX,
    ensures
        pof_is(r, s@, pof_type@, nonce@, now as int, duration as int),
{
    let expiration: i64 = now + duration;
    let mut parts: Vec<String> = Vec::new();
    parts.push(pof_type.clone());
    parts.push(i64_text(expiration));
    parts.push(nonce.clone());
    proof {
        reveal_strlit(":");
        assert(":"@ == separator());
        assert(parts.deep_view() == seq![pof_type@, int_text(expiration as int), nonce@]);
    }
    let msg = join(&parts, ":");
    let signature = Base64(s.sign(msg.as_str().as_bytes()));
    Pof { pof_type, nonce, expiration, signature }
}

/// Issues an accesskey: one proof of funding for each nonce, of the type and for
/// the duration that the request asks for, with the contract that they are for.
///
/// The nonces are as many as the request asks proofs for. A body that could not
/// be read is answered with status 400 and the reason.
pub fn issue_accesskeys_post_handler<C: ShareCalc>(
    st: &Custom<C>,
    body: Result<AccesskeyRequest, String>,
    nonces: Vec<String>,
    now: i64,
) -> (r: Result<Accesskey, Status>)
    requires
        body matches Ok(payload) ==> nonces@.len() == payload.quantity && i64::MIN <= now
            + payload.duration <= i64::MAX,
    ensures
        match body {
            Err(e) => r matches Err(s) && s.is(400, e@),
            Ok(payload) => {
                &&& r matches Ok(key)
                &&& key.version@ == st.public.derived.version@
                &&& key.contract.endpoint@ == st.public.defined.endpoint@
                &&& key.contract.public_key == st.public.derived.public_key
                &&& key.pofs@.len() == payload.quantity
                &&& forall|i: int|
                    0 <= i < key.pofs@.len() ==> pof_is(
                        #[trigger] key.pofs@[i],
                        st.signer@,
                        payload.pof_type@,
                        nonces@[i]@,
                        now as int,
                        payload.duration as int,
                    )
            },
        },
{
    match body {
        Ok(payload) => {
            let mut pofs: Vec<Pof> = Vec::new();
            let mut i: usize = 0;
            while i < nonces.len()
                invariant
                    i <= nonces@.len(),
                    pofs@.len() == i,
                    i64::MIN <= now + payload.duration <= i64::MAX,
                    forall|j: int|
                        0 <= j < i ==> pof_is(
                            #[trigger] pofs@[j],
                            st.signer@,
                            payload.pof_type@,
                            nonces@[j]@,
                            now as int,
                            payload.duration as int,
                        ),
                decreases nonces.len() - i,
            {
                let pof = mk_pof(
                    &st.signer,
                    payload.pof_type.clone(),
                    nonces[i].clone(),
                    now,
                    payload.duration,
                );
                pofs.push(pof);
                i = i + 1;
            }
            Ok(
                Accesskey {
                    version: st.public.derived.version.clone(),
                    contract: Contract {
                        endpoint: st.public.defined.endpoint.clone(),
                        public_key: st.public.derived.public_key,
                    },
                    pofs,
                },
            )
        },
        Err(e) => Err(Status { code: 400, desc: e }),
    }
}

/// Answers the payment system's question whether a withdrawal request is in
/// order: any request that could be read is.
pub fn verify_withdrawal_request_post_handler(body: Result<WithdrawalRequest, String>) -> (r:
    Status)
    ensures
        match body {
            Ok(_) => r.is(200, "OK"@),
            Err(e) => r.is(400, e@),
        },
{
    match body {
        Ok(_) => Status::new(200, "OK"),
        Err(e) => Status { code: 400, desc: e },
    }
}

} // verus!
