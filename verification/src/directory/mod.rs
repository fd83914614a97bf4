//! The relay directory: which relays are enrolled, by address, and how many in
//! each role.

use vstd::prelude::*;
use crate::api::headersignedjson::{Field, Header, Signatory, header_name};
use crate::api::{Public, Relay, Status};
use crate::b64e::{Base64, Encodable, base64_text};
use crate::contract::calc::ShareCalc;
use crate::ed25519::signature_of;
use crate::state::Custom;
use crate::text::same_text;

verus! {

/// Where the relay with the given address stands in the list: the first place
/// with that address.
pub open spec fn position(list: Seq<Relay>, address: Seq<char>) -> Option<int>
    decreases list.len(),
{
    if list.len() == 0 {
        None
    } else if list[0].address@ == address {
        Some(0)
    } else {
        match position(list.drop_first(), address) {
            Some(i) => Some(i + 1),
            None => None,
        }
    }
}

/// The list with a relay enrolled: in the place of the relay that had its address,
/// or at the end.
pub open spec fn enrolled(list: Seq<Relay>, relay: Relay) -> Seq<Relay> {
    match position(list, relay.address@) {
        Some(i) => list.update(i, relay),
        None => list.push(relay),
    }
}

/// The list without the relay that has the given address.
pub open spec fn dismissed(list: Seq<Relay>, address: Seq<char>) -> Seq<Relay> {
    match position(list, address) {
        Some(i) => list.remove(i),
        None => list,
    }
}

/// The place found by going through the list is the position.
pub proof fn position_is(list: Seq<Relay>, address: Seq<char>, n: int)
    requires
        0 <= n <= list.len(),
        forall|i: int| 0 <= i < n ==> (#[trigger] list[i]).address@ != address,
        n < list.len() ==> list[n].address@ == address,
    ensures
        position(list, address) == if n < list.len() {
            Some(n)
        } else {
            None::<int>
        },
    decreases list.len(),
{
    if list.len() == 0 {
    } else if n == 0 {
    } else {
        let rest = list.drop_first();
        assert(list[0].address@ != address);
        assert forall|i: int| 0 <= i < n - 1 implies (#[trigger] rest[i]).address@ != address by {
            assert(rest[i] == list[i + 1]);
        }
        if n - 1 < rest.len() {
            assert(rest[n - 1] == list[n]);
        }
        position_is(rest, address, n - 1);
    }
}

/// Whether no address occurs twice in the list.
pub open spec fn unique(list: Seq<Relay>) -> bool {
    forall|i: int, j: int|
        0 <= i < j < list.len() ==> (#[trigger] list[i]).address@ != (#[trigger] list[j]).address@
}

/// Whether a relay with the given address stands in the list.
pub open spec fn lists_address(list: Seq<Relay>, address: Seq<char>) -> bool {
    exists|i: int| 0 <= i < list.len() && (#[trigger] list[i]).address@ == address
}

/// The position is where a relay with the address stands, and there is one
/// exactly where some relay has the address.
pub proof fn position_finds(list: Seq<Relay>, address: Seq<char>)
    ensures
        position(list, address) is Some <==> lists_address(list, address),
        position(list, address) matches Some(i) ==> 0 <= i < list.len() && list[i].address@
            == address,
    decreases list.len(),
{
    if list.len() > 0 {
        let rest = list.drop_first();
        position_finds(rest, address);
        if list[0].address@ != address {
            if lists_address(list, address) {
                let i = choose|i: int| 0 <= i < list.len() && (#[trigger] list[i]).address@ == address;
                assert(rest[i - 1] == list[i]);
            }
            if lists_address(rest, address) {
                let i = choose|i: int| 0 <= i < rest.len() && (#[trigger] rest[i]).address@ == address;
                assert(list[i + 1] == rest[i]);
            }
            if position(rest, address) is Some {
                let i = position(rest, address)->Some_0;
                assert(list[i + 1] == rest[i]);
            }
        }
    }
}

/// Enrolling keeps addresses apart and leaves the relay enrolled under its address;
/// every other address is listed as before.
pub proof fn enrolled_is_unique(list: Seq<Relay>, relay: Relay, other: Seq<char>)
    requires
        unique(list),
    ensures
        unique(enrolled(list, relay)),
        lists_address(enrolled(list, relay), relay.address@),
        other != relay.address@ ==> (lists_address(enrolled(list, relay), other) <==> lists_address(
            list,
            other,
        )),
{
    position_finds(list, relay.address@);
    let next = enrolled(list, relay);
    match position(list, relay.address@) {
        Some(at) => {
            assert(next[at] == relay);
            assert forall|i: int, j: int| 0 <= i < j < next.len() implies (
            #[trigger] next[i]).address@ != (#[trigger] next[j]).address@ by {
                assert(list[i].address@ != list[j].address@);
            }
            if lists_address(list, other) && other != relay.address@ {
                let i = choose|i: int| 0 <= i < list.len() && (#[trigger] list[i]).address@ == other;
                assert(next[i] == list[i]);
            }
            if lists_address(next, other) && other != relay.address@ {
                let i = choose|i: int| 0 <= i < next.len() && (#[trigger] next[i]).address@ == other;
                assert(next[i] == list[i]);
            }
        },
        None => {
            assert(next[list.len() as int] == relay);
            assert forall|i: int, j: int| 0 <= i < j < next.len() implies (
            #[trigger] next[i]).address@ != (#[trigger] next[j]).address@ by {
                if j == list.len() {
                    assert(next[i] == list[i]);
                } else {
                    assert(list[i].address@ != list[j].address@);
                }
            }
            if lists_address(list, other) {
                let i = choose|i: int| 0 <= i < list.len() && (#[trigger] list[i]).address@ == other;
                assert(next[i] == list[i]);
            }
            if lists_address(next, other) && other != relay.address@ {
                let i = choose|i: int| 0 <= i < next.len() && (#[trigger] next[i]).address@ == other;
                assert(next[i] == list[i]);
            }
        },
    }
}

/// Dismissing keeps addresses apart and leaves no relay under the address; every
/// other address is listed as before.
pub proof fn dismissed_is_unique(list: Seq<Relay>, address: Seq<char>, other: Seq<char>)
    requires
        unique(list),
    ensures
        unique(dismissed(list, address)),
        !lists_address(dismissed(list, address), address),
        other != address ==> (lists_address(dismissed(list, address), other) <==> lists_address(
            list,
            other,
        )),
{
    position_finds(list, address);
    let next = dismissed(list, address);
    match position(list, address) {
        Some(at) => {
            assert forall|i: int| 0 <= i < next.len() implies #[trigger] next[i] == list[if i
                < at {
                i
            } else {
                i + 1
            }] by {}
            assert forall|i: int, j: int| 0 <= i < j < next.len() implies (
            #[trigger] next[i]).address@ != (#[trigger] next[j]).address@ by {
                let a = if i < at {
                    i
                } else {
                    i + 1
                };
                let b = if j < at {
                    j
                } else {
                    j + 1
                };
                assert(next[i] == list[a] && next[j] == list[b]);
                assert(list[a].address@ != list[b].address@);
            }
            if lists_address(next, address) {
                let i = choose|i: int| 0 <= i < next.len() && (#[trigger] next[i]).address@ == address;
                let a = if i < at {
                    i
                } else {
                    i + 1
                };
                assert(next[i] == list[a]);
                if a < at {
                    assert(list[a].address@ != list[at].address@);
                } else {
                    assert(list[at].address@ != list[a].address@);
                }
            }
            if lists_address(list, other) && other != address {
                let i = choose|i: int| 0 <= i < list.len() && (#[trigger] list[i]).address@ == other;
                let a = if i < at {
                    i
                } else {
                    i - 1
                };
                assert(next[a] == list[i]);
            }
            if lists_address(next, other) {
                let i = choose|i: int| 0 <= i < next.len() && (#[trigger] next[i]).address@ == other;
                let a = if i < at {
                    i
                } else {
                    i + 1
                };
                assert(next[i] == list[a]);
            }
        },
        None => {},
    }
}

/// The enrolled relays, by address: no address is enrolled twice.
pub struct RelayTable {
    list: Vec<Relay>,
}

impl RelayTable {
    #[verifier::type_invariant]
    spec fn apart(self) -> bool {
        unique(self.list@)
    }

    /// The enrolled relays in the order in which their addresses first enrolled.
    pub closed spec fn view(&self) -> Seq<Relay> {
        self.list@
    }

    /// No relay.
    pub fn new() -> (r: RelayTable)
        ensures
            r@ == Seq::<Relay>::empty(),
    {
        RelayTable { list: Vec::new() }
    }

    /// The enrolled relays, each address once.
    pub fn list(&self) -> (r: &Vec<Relay>)
        ensures
            r@ == self@,
            unique(self@),
    {
        proof {
            use_type_invariant(self);
        }
        &self.list
    }

    /// How many relays are enrolled.
    pub fn len(&self) -> (n: usize)
        ensures
            n == self@.len(),
    {
        self.list.len()
    }

    /// Where the relay with the given address stands.
    pub fn find(&self, address: &str) -> (r: Option<usize>)
        ensures
            r matches Some(i) ==> position(self@, address@) == Some(i as int) && i < self@.len(),
            r is None ==> position(self@, address@) is None,
    {
        let mut i: usize = 0;
        while i < self.list.len()
            invariant
                i <= self.list@.len(),
                forall|j: int| 0 <= j < i ==> (#[trigger] self.list@[j]).address@ != address@,
            decreases self.list.len() - i,
        {
            if same_text(self.list[i].address.as_str(), address) {
                proof {
                    position_is(self@, address@, i as int);
                }
                return Some(i);
            }
            i = i + 1;
        }
        proof {
            position_is(self@, address@, i as int);
        }
        None
    }

    /// Whether a relay with the given address is enrolled.
    pub fn contains_key(&self, address: &str) -> (r: bool)
        ensures
            r == position(self@, address@) is Some,
            r == lists_address(self@, address@),
    {
        proof {
            position_finds(self@, address@);
        }
        self.find(address).is_some()
    }

    /// Enrolls a relay, in the place of the one that had its address if there was
    /// one. Afterwards the relay is the one enrolled under its address.
    pub fn insert(&mut self, relay: Relay)
        ensures
            final(self)@ == enrolled(old(self)@, relay),
            unique(old(self)@),
            unique(final(self)@),
            lists_address(final(self)@, relay.address@),
    {
        proof {
            use_type_invariant(&*self);
            enrolled_is_unique(self@, relay, relay.address@);
        }
        let found = self.find(relay.address.as_str());
        let mut taken = RelayTable::new();
        core::mem::swap(self, &mut taken);
        let RelayTable { list } = taken;
        let mut list = list;
        match found {
            Some(i) => {
                list[i] = relay;
            },
            None => {
                list.push(relay);
            },
        }
        *self = RelayTable { list };
    }

    /// Takes out the relay with the given address, if there is one. Afterwards no
    /// relay is enrolled under the address.
    pub fn remove(&mut self, address: &str)
        ensures
            final(self)@ == dismissed(old(self)@, address@),
            unique(old(self)@),
            unique(final(self)@),
            !lists_address(final(self)@, address@),
    {
        proof {
            use_type_invariant(&*self);
            dismissed_is_unique(self@, address@, address@);
        }
        let found = self.find(address);
        let mut taken = RelayTable::new();
        core::mem::swap(self, &mut taken);
        let RelayTable { list } = taken;
        let mut list = list;
        match found {
            Some(i) => {
                list.remove(i);
            },
            None => {},
        }
        *self = RelayTable { list };
    }
}

/// Enrolls a relay.
///
/// A body that could not be read is answered with status 400 and the reason. A
/// relay whose role has no room for one more is answered with status 500.
/// Otherwise the role counts one more, the relay is enrolled under its address,
/// and the answer is 200.
pub fn relays_post_handler<C: ShareCalc>(st: &mut Custom<C>, body: Result<Relay, String>) -> (r:
    Status)
    ensures
        final(st).tracker == old(st).tracker,
        final(st).signer == old(st).signer,
        final(st).public.defined == old(st).public.defined,
        final(st).public.derived.pubkey == old(st).public.derived.pubkey,
        final(st).public.derived.public_key == old(st).public.derived.public_key,
        final(st).public.derived.version == old(st).public.derived.version,
        final(st).public.derived.directory == old(st).public.derived.directory,
        match body {
            Err(e) => r.is(400, e@) && final(st).relays == old(st).relays && final(st).public == old(
                st,
            ).public,
            Ok(payload) => {
                let info = old(st).public.derived.enrollment.of(payload.role);
                if info.count < u32::MAX {
                    &&& r.is(200, "OK"@)
                    &&& final(st).relays@ == enrolled(old(st).relays@, payload)
                    &&& final(st).public.derived.enrollment == old(
                        st,
                    ).public.derived.enrollment.with(
                        payload.role,
                        crate::api::RoleInfo { count: (info.count + 1) as u32, ..info },
                    )
                } else {
                    &&& r.is(500, "Too many relays!"@)
                    &&& final(st).relays == old(st).relays
                    &&& final(st).public.derived.enrollment == old(st).public.derived.enrollment
                }
            },
        },
{
    match body {
        Ok(payload) => {
            let info = st.public.derived.enrollment.role(payload.role);
            if info.record(1) {
                st.relays.insert(payload);
                Status::new(200, "OK")
            } else {
                Status::new(500, "Too many relays!")
            }
        },
        Err(e) => Status { code: 400, desc: e },
    }
}

/// Dismisses a relay.
///
/// A body that could not be read is answered with status 400 and the reason, a
/// relay whose address is not enrolled with status 404. Otherwise the role counts
/// one less, where it counts any, the relay leaves the table, and the answer is
/// 200.
pub fn relays_delete_handler<C: ShareCalc>(st: &mut Custom<C>, body: Result<Relay, String>) -> (r:
    Status)
    ensures
        final(st).tracker == old(st).tracker,
        final(st).signer == old(st).signer,
        final(st).public.defined == old(st).public.defined,
        final(st).public.derived.pubkey == old(st).public.derived.pubkey,
        final(st).public.derived.public_key == old(st).public.derived.public_key,
        final(st).public.derived.version == old(st).public.derived.version,
        final(st).public.derived.directory == old(st).public.derived.directory,
        match body {
            Err(e) => r.is(400, e@) && final(st).relays == old(st).relays && final(st).public == old(
                st,
            ).public,
            Ok(payload) => if position(old(st).relays@, payload.address@) is None {
                &&& r.is(404, "No such relay"@)
                &&& final(st).relays == old(st).relays
                &&& final(st).public == old(st).public
            } else {
                let info = old(st).public.derived.enrollment.of(payload.role);
                &&& r.is(200, "OK"@)
                &&& final(st).relays@ == dismissed(old(st).relays@, payload.address@)
                &&& final(st).public.derived.enrollment == old(st).public.derived.enrollment.with(
                    payload.role,
                    if info.count > 0 {
                        crate::api::RoleInfo { count: (info.count - 1) as u32, ..info }
                    } else {
                        info
                    },
                )
            },
        },
{
    match body {
        Ok(payload) => {
            if !st.relays.contains_key(payload.address.as_str()) {
                return Status::new(404, "No such relay");
            }
            let roleinfo = st.public.derived.enrollment.role(payload.role);
            let _ = roleinfo.record(-1);
            st.relays.remove(payload.address.as_str());
            Status::new(200, "OK")
        },
        Err(e) => Status { code: 400, desc: e },
    }
}

/// Signs the list of relays as it is sent.
///
/// `body` is the list as text. The result is the two headers that go with it: the
/// contract's key, and the signature of the body under the signing key, both as
/// base64 text.
pub fn relays_get_handler<C: ShareCalc>(st: &Custom<C>, body: &str) -> (r: (Header, Header))
    ensures
        r.0.name@ == header_name(Signatory::Directory, Field::Pubkey),
        r.0.value matches Some(key) && key@ == base64_text(
            st.public.derived.public_key.0.bytes(),
        ),
        r.1.name@ == header_name(Signatory::Directory, Field::Signature),
        r.1.value matches Some(signature) && signature@ == base64_text(
            signature_of(st.signer@, vstd::utf8::encode_utf8(body@)),
        ),
{
    let signature = Base64(st.signer.sign(body.as_bytes()));
    proof {
        reveal_strlit("wireleap-directory-pubkey");
        reveal_strlit("wireleap-directory-signature");
        reveal_strlit("wireleap-");
        reveal_strlit("-");
        reveal_strlit("directory");
        reveal_strlit("pubkey");
        reveal_strlit("signature");
        assert("wireleap-directory-pubkey"@ =~= header_name(Signatory::Directory, Field::Pubkey));
        assert("wireleap-directory-signature"@ =~= header_name(
            Signatory::Directory,
            Field::Signature,
        ));
    }
    (
        Header {
            name: String::from_str("wireleap-directory-pubkey"),
            value: Some(st.public.derived.public_key.to_string()),
        },
        Header {
            name: String::from_str("wireleap-directory-signature"),
            value: Some(signature.to_string()),
        },
    )
}

/// What the contract says of itself.
pub fn info_get_handler<C: ShareCalc>(st: &Custom<C>) -> (r: &Public)
    ensures
        *r == st.public,
{
    &st.public
}

} // verus!
